//! Iterative slide-step resolution of a desired displacement.
//!
//! Each iteration the caller asks the collision backend to move the actor's
//! shape by the remaining displacement and feeds the reported outcome back
//! here. The resolver accumulates the effective translation, consumes the
//! displacement already achieved, rejects the remainder's component along
//! every contact normal (sliding along surfaces), nudges the position out
//! of penetrating contacts, and stops once the remainder is negligible or
//! the fixed iteration budget is spent.
//!
//! Two facts are proved about the whole loop: it never runs more than
//! `MAX_SLIDE_STEPS` iterations, and the contact rejections of an iteration
//! never increase the magnitude of the remaining displacement.

use vstd::prelude::*;

use crate::math::div_trunc;
use crate::math::div_tz;
use crate::math::lemma_div_tz_mag;
use crate::math::lemma_mul_bounds2;
use crate::math::SCALE;
use crate::vector2::add_pair;
use crate::vector2::bounded_pair;
use crate::vector2::dot_pair;
use crate::vector2::lemma_norm_sq_nonneg;
use crate::vector2::norm_sq_pair;
use crate::vector2::sub_pair;
use crate::vector2::Vector2;

verus! {

/// Hard cap on slide iterations per tick.
pub const MAX_SLIDE_STEPS: usize = 8;

/// Remainder components strictly below this are treated as fully resolved
/// (one milli-unit).
pub const SLIDE_EPS: i64 = 1;

/// Magnitude cap on a desired displacement component, in milli-units.
pub const DISP_LIMIT: i64 = 1_100_000_000_000;

/// Magnitude cap on a backend effective-translation component per
/// iteration, in milli-units.
pub const EFF_LIMIT: i64 = 100_000_000_000;

/// Magnitude cap on a contact normal component; normals are unit vectors
/// in milli-units, so this leaves a wide margin.
pub const NORMAL_LIMIT: i64 = 10_000;

/// Cap on the contacts reported for one iteration.
pub const CONTACTS_LIMIT: usize = 16;

/// Distance a penetrating contact pushes the position along its normal,
/// in milli-units per normal unit (0.01 world units).
pub const PENETRATION_NUDGE: i64 = 10;

/// Outcome the collision backend reports for a single contact resolution.
#[derive(Clone, Copy, Debug, PartialEq, Eq, Structural)]
pub enum ContactStatus {
    Converged,
    Penetrating,
    Failed,
    OutOfIterations,
}

/// One contact reported by the backend for an iteration's move.
#[derive(Clone, Copy, Debug, PartialEq, Eq, Structural)]
pub struct Contact {
    pub normal: Vector2,
    pub status: ContactStatus,
}

/// What the backend achieved for one requested move.
#[derive(Debug)]
pub struct MoveResult {
    pub effective_translation: Vector2,
    pub grounded: bool,
    pub contacts: Vec<Contact>,
}

/// Componentwise bound on the remainder after `i` iterations: backend
/// variance can lengthen the remainder a little each iteration, but only
/// by a bounded amount.
pub open spec fn slide_bound(i: int) -> int {
    1_600_000_000_000 + i * 400_000_000_000
}

/// Componentwise bound on the translation accumulated over `i` iterations:
/// one effective translation plus the penetration nudges per iteration.
pub open spec fn moved_bound(i: int) -> int {
    i * 100_000_002_000
}

/// A contact takes part in slide resolution only when the backend solved
/// it; failed or iteration-exhausted contacts are ignored.
pub open spec fn contact_applies(c: Contact) -> bool {
    c.status == ContactStatus::Converged || c.status == ContactStatus::Penetrating
}

/// Rejection of `r`'s component along `n`: the fixed-point counterpart of
/// `r - n * (r . n) / (n . n)`, kept unchanged when the normal is zero or
/// when rounding noise would make the result longer than `r`.
pub open spec fn reject_spec(r: (int, int), n: (int, int)) -> (int, int) {
    let nn = norm_sq_pair(n);
    if nn == 0 {
        r
    } else {
        let d = dot_pair(r, n);
        let cand = (r.0 - div_tz(n.0 * d, nn), r.1 - div_tz(n.1 * d, nn));
        if norm_sq_pair(cand) <= norm_sq_pair(r) {
            cand
        } else {
            r
        }
    }
}

/// The remainder after the first `i` contacts of an iteration.
pub open spec fn apply_contacts_upto(r: (int, int), contacts: Seq<Contact>, i: int) -> (int, int)
    decreases i,
{
    if i <= 0 {
        r
    } else {
        let prev = apply_contacts_upto(r, contacts, i - 1);
        if contact_applies(contacts[i - 1]) {
            reject_spec(prev, contacts[i - 1].normal@)
        } else {
            prev
        }
    }
}

/// The position nudge of a contact: a hundredth of a world unit along the
/// normal for a penetrating contact, nothing otherwise.
pub open spec fn nudge_spec(c: Contact) -> (int, int) {
    if c.status == ContactStatus::Penetrating {
        (
            div_tz(c.normal@.0 * (PENETRATION_NUDGE as int), SCALE as int),
            div_tz(c.normal@.1 * (PENETRATION_NUDGE as int), SCALE as int),
        )
    } else {
        (0, 0)
    }
}

/// The accumulated position after the nudges of the first `i` contacts.
pub open spec fn apply_nudges_upto(p: (int, int), contacts: Seq<Contact>, i: int) -> (int, int)
    decreases i,
{
    if i <= 0 {
        p
    } else {
        add_pair(apply_nudges_upto(p, contacts, i - 1), nudge_spec(contacts[i - 1]))
    }
}

/// The remainder after consuming the backend's effective translation while
/// grounded: the component of the translation along the travel direction
/// is projected out of the remainder, and a remainder that would reverse
/// the direction of travel collapses to zero.
pub open spec fn consume_grounded_spec(r: (int, int), eff: (int, int)) -> (int, int) {
    let rr = norm_sq_pair(r);
    if rr == 0 {
        r
    } else {
        let e = dot_pair(eff, r);
        let nr = (r.0 - div_tz(r.0 * e, rr), r.1 - div_tz(r.1 * e, rr));
        if dot_pair(r, nr) < 0 {
            (0, 0)
        } else {
            nr
        }
    }
}

/// The remainder after the consumption phase of one iteration.
pub open spec fn consume_spec(r: (int, int), eff: (int, int), grounded: bool) -> (int, int) {
    if grounded {
        consume_grounded_spec(r, eff)
    } else {
        sub_pair(r, eff)
    }
}

/// The remainder after one whole iteration: consumption of the effective
/// translation, then every contact rejection in order.
pub open spec fn iteration_remainder_spec(
    r: (int, int),
    eff: (int, int),
    grounded: bool,
    contacts: Seq<Contact>,
) -> (int, int) {
    apply_contacts_upto(consume_spec(r, eff, grounded), contacts, contacts.len() as int)
}

/// Both remainder components are strictly below the resolution threshold.
pub open spec fn below_eps(r: (int, int)) -> bool {
    -(SLIDE_EPS as int) < r.0 < SLIDE_EPS as int && -(SLIDE_EPS as int) < r.1 < SLIDE_EPS as int
}

/// A bound on the squared norm bounds each component.
pub proof fn lemma_bounded_of_norm_sq(v: (int, int), sb: int)
    requires
        sb >= 0,
        norm_sq_pair(v) <= sb * sb,
    ensures
        bounded_pair(v, sb),
{
    assert(bounded_pair(v, sb)) by (nonlinear_arith)
        requires
            sb >= 0,
            v.0 * v.0 + v.1 * v.1 <= sb * sb,
    ;
}

/// Componentwise bound for the truncated projection coefficient
/// `w * (a . w) / (w . w)`: each component is at most half again the
/// componentwise bound of `a`.
proof fn lemma_proj_comp_bound(a: (int, int), w: (int, int), r: int)
    requires
        r >= 0,
        bounded_pair(a, r),
        norm_sq_pair(w) >= 1,
    ensures
        -(3 * r / 2 + 1) <= div_tz(w.0 * dot_pair(a, w), norm_sq_pair(w)) <= 3 * r / 2 + 1,
        -(3 * r / 2 + 1) <= div_tz(w.1 * dot_pair(a, w), norm_sq_pair(w)) <= 3 * r / 2 + 1,
{
    let nn = norm_sq_pair(w);
    let c = 3 * r / 2 + 1;
    assert(-(nn * c) <= w.0 * dot_pair(a, w) <= nn * c && -(nn * c) <= w.1 * dot_pair(a, w)
        <= nn * c) by (nonlinear_arith)
        requires
            r >= 0,
            c == 3 * r / 2 + 1,
            2 * c >= 3 * r,
            bounded_pair(a, r),
            nn == w.0 * w.0 + w.1 * w.1,
            nn >= 1,
    ;
    lemma_div_tz_mag(w.0 * dot_pair(a, w), nn, c);
    lemma_div_tz_mag(w.1 * dot_pair(a, w), nn, c);
}

/// Subtracting a componentwise-small vector can lengthen a vector only by
/// twice that component bound.
proof fn lemma_sub_norm_grow(r: (int, int), t: (int, int), sb: int, tm: int)
    requires
        sb >= 0,
        tm >= 0,
        norm_sq_pair(r) <= sb * sb,
        bounded_pair(t, tm),
    ensures
        norm_sq_pair(sub_pair(r, t)) <= (sb + 2 * tm) * (sb + 2 * tm),
{
    lemma_bounded_of_norm_sq(r, sb);
    assert((r.0 - t.0) * (r.0 - t.0) == r.0 * r.0 - 2 * (r.0 * t.0) + t.0 * t.0)
        by (nonlinear_arith);
    assert((r.1 - t.1) * (r.1 - t.1) == r.1 * r.1 - 2 * (r.1 * t.1) + t.1 * t.1)
        by (nonlinear_arith);
    assert((sb + 2 * tm) * (sb + 2 * tm) == sb * sb + 4 * (sb * tm) + 4 * (tm * tm))
        by (nonlinear_arith);
    lemma_mul_bounds2(r.0, t.0, sb, tm);
    lemma_mul_bounds2(r.1, t.1, sb, tm);
    lemma_mul_bounds2(t.0, t.0, tm, tm);
    lemma_mul_bounds2(t.1, t.1, tm, tm);
    assert(tm * tm >= 0) by (nonlinear_arith);
}

/// Squaring preserves order on nonnegative values.
proof fn lemma_sq_mono(a: int, b: int)
    requires
        0 <= a <= b,
    ensures
        a * a <= b * b,
{
    assert(a * a <= b * b) by (nonlinear_arith)
        requires
            0 <= a <= b,
    ;
}

/// The consumption phase grows the remainder's norm bound by at most one
/// `slide_bound` increment, whether grounded or airborne.
proof fn lemma_consume_norm(r: (int, int), eff: (int, int), grounded: bool, sb: int)
    requires
        sb >= 0,
        norm_sq_pair(r) <= sb * sb,
        bounded_pair(eff, EFF_LIMIT as int),
    ensures
        norm_sq_pair(consume_spec(r, eff, grounded)) <= (sb + 400_000_000_000) * (sb
            + 400_000_000_000),
{
    lemma_norm_sq_nonneg(r);
    lemma_sq_mono(sb, sb + 400_000_000_000);
    if grounded {
        let rr = norm_sq_pair(r);
        if rr != 0 {
            let e = dot_pair(eff, r);
            lemma_proj_comp_bound(eff, r, EFF_LIMIT as int);
            let t = (div_tz(r.0 * e, rr), div_tz(r.1 * e, rr));
            lemma_sub_norm_grow(r, t, sb, 150_000_000_001);
            lemma_sq_mono(sb + 300_000_000_002, sb + 400_000_000_000);
        }
    } else {
        lemma_sub_norm_grow(r, eff, sb, EFF_LIMIT as int);
        lemma_sq_mono(sb + 2 * (EFF_LIMIT as int), sb + 400_000_000_000);
    }
}

/// A rejection never increases the squared norm of the remainder: either
/// the rounding guard keeps the shorter candidate, or the remainder stays
/// as it was.
pub proof fn lemma_reject_no_increase(r: (int, int), n: (int, int))
    ensures
        norm_sq_pair(reject_spec(r, n)) <= norm_sq_pair(r),
{
}

/// Summed over the contacts of an iteration, the rejections never increase
/// the magnitude of the remaining displacement.
pub proof fn lemma_contact_rejections_never_increase(
    r: (int, int),
    contacts: Seq<Contact>,
    i: int,
)
    requires
        0 <= i,
    ensures
        norm_sq_pair(apply_contacts_upto(r, contacts, i)) <= norm_sq_pair(r),
    decreases i,
{
    if i > 0 {
        lemma_contact_rejections_never_increase(r, contacts, i - 1);
        let prev = apply_contacts_upto(r, contacts, i - 1);
        if contact_applies(contacts[i - 1]) {
            lemma_reject_no_increase(prev, contacts[i - 1].normal@);
        }
    }
}

/// Consumption phase of one iteration, exactly `consume_spec`.
fn consume_displacement(remaining: Vector2, eff: Vector2, grounded: bool) -> (r: Vector2)
    requires
        bounded_pair(remaining@, 4_400_000_000_000),
        bounded_pair(eff@, EFF_LIMIT as int),
    ensures
        r@ == consume_spec(remaining@, eff@, grounded),
        bounded_pair(r@, 4_800_000_000_000),
{
    if grounded {
        let rr = remaining.norm_sq();
        if rr == 0 {
            remaining
        } else {
            let e = eff.dot(&remaining);
            proof {
                lemma_mul_bounds2(eff@.0, remaining@.0, EFF_LIMIT as int, 4_400_000_000_000);
                lemma_mul_bounds2(eff@.1, remaining@.1, EFF_LIMIT as int, 4_400_000_000_000);
                lemma_mul_bounds2(
                    remaining@.0,
                    e as int,
                    4_400_000_000_000,
                    880_000_000_000_000_000_000_000,
                );
                lemma_mul_bounds2(
                    remaining@.1,
                    e as int,
                    4_400_000_000_000,
                    880_000_000_000_000_000_000_000,
                );
                lemma_proj_comp_bound(eff@, remaining@, EFF_LIMIT as int);
            }
            let tx = div_trunc((remaining.x as i128) * e, rr);
            let ty = div_trunc((remaining.y as i128) * e, rr);
            let nr = Vector2 {
                x: ((remaining.x as i128) - tx) as i64,
                y: ((remaining.y as i128) - ty) as i64,
            };
            let rev = remaining.dot(&nr);
            if rev < 0 {
                Vector2 { x: 0, y: 0 }
            } else {
                nr
            }
        }
    } else {
        Vector2 { x: remaining.x - eff.x, y: remaining.y - eff.y }
    }
}

/// One contact's effect on the remainder: a rejection for a solved
/// contact, nothing for a failed one. The remainder's magnitude never
/// increases.
fn apply_contact(remaining: Vector2, c: &Contact) -> (r: Vector2)
    requires
        norm_sq_pair(remaining@) <= 46_080_000_000_000_000_000_000_000,
        bounded_pair(c.normal@, NORMAL_LIMIT as int),
    ensures
        r@ == if contact_applies(*c) {
            reject_spec(remaining@, c.normal@)
        } else {
            remaining@
        },
        norm_sq_pair(r@) <= norm_sq_pair(remaining@),
{
    proof {
        lemma_norm_sq_nonneg(remaining@);
        lemma_bounded_of_norm_sq(remaining@, 6_800_000_000_000);
    }
    let applies = match c.status {
        ContactStatus::Converged => true,
        ContactStatus::Penetrating => true,
        ContactStatus::Failed => false,
        ContactStatus::OutOfIterations => false,
    };
    if !applies {
        return remaining;
    }
    let nn = c.normal.norm_sq();
    if nn == 0 {
        return remaining;
    }
    let d = remaining.dot(&c.normal);
    proof {
        lemma_mul_bounds2(remaining@.0, c.normal@.0, 6_800_000_000_000, NORMAL_LIMIT as int);
        lemma_mul_bounds2(remaining@.1, c.normal@.1, 6_800_000_000_000, NORMAL_LIMIT as int);
        lemma_mul_bounds2(c.normal@.0, d as int, NORMAL_LIMIT as int, 136_000_000_000_000_000);
        lemma_mul_bounds2(c.normal@.1, d as int, NORMAL_LIMIT as int, 136_000_000_000_000_000);
        lemma_norm_sq_nonneg(c.normal@);
        lemma_proj_comp_bound(remaining@, c.normal@, 6_800_000_000_000);
    }
    let px = div_trunc((c.normal.x as i128) * d, nn);
    let py = div_trunc((c.normal.y as i128) * d, nn);
    let cx = (remaining.x as i128) - px;
    let cy = (remaining.y as i128) - py;
    proof {
        lemma_mul_bounds2(cx as int, cx as int, 17_100_000_000_000, 17_100_000_000_000);
        lemma_mul_bounds2(cy as int, cy as int, 17_100_000_000_000, 17_100_000_000_000);
        lemma_mul_bounds2(remaining@.0, remaining@.0, 6_800_000_000_000, 6_800_000_000_000);
        lemma_mul_bounds2(remaining@.1, remaining@.1, 6_800_000_000_000, 6_800_000_000_000);
    }
    let cand_norm = cx * cx + cy * cy;
    let cur_norm = (remaining.x as i128) * (remaining.x as i128) + (remaining.y as i128) * (
    remaining.y as i128);
    if cand_norm <= cur_norm {
        Vector2 { x: cx as i64, y: cy as i64 }
    } else {
        remaining
    }
}

/// The position nudge one contact contributes.
fn nudge_of(c: &Contact) -> (r: Vector2)
    requires
        bounded_pair(c.normal@, NORMAL_LIMIT as int),
    ensures
        r@ == nudge_spec(*c),
        bounded_pair(r@, 100),
{
    match c.status {
        ContactStatus::Penetrating => {
            proof {
                lemma_mul_bounds2(
                    c.normal@.0,
                    PENETRATION_NUDGE as int,
                    NORMAL_LIMIT as int,
                    PENETRATION_NUDGE as int,
                );
                lemma_mul_bounds2(
                    c.normal@.1,
                    PENETRATION_NUDGE as int,
                    NORMAL_LIMIT as int,
                    PENETRATION_NUDGE as int,
                );
                lemma_div_tz_mag(c.normal@.0 * (PENETRATION_NUDGE as int), SCALE as int, 100);
                lemma_div_tz_mag(c.normal@.1 * (PENETRATION_NUDGE as int), SCALE as int, 100);
            }
            let nx = div_trunc((c.normal.x as i128) * (PENETRATION_NUDGE as i128), SCALE as i128);
            let ny = div_trunc((c.normal.y as i128) * (PENETRATION_NUDGE as i128), SCALE as i128);
            Vector2 { x: nx as i64, y: ny as i64 }
        },
        _ => Vector2 { x: 0, y: 0 },
    }
}

/// State of one tick's slide resolution.
pub struct SlideResolver {
    /// What is still to be travelled.
    pub remaining: Vector2,
    /// Translation accumulated so far, penetration nudges included.
    pub moved: Vector2,
    /// Iterations spent.
    pub iterations: usize,
    /// Ground flag the backend reported for the latest iteration.
    pub grounded: bool,
    /// Whether resolution has finished, by a negligible remainder or by
    /// exhausting the iteration budget.
    pub done: bool,
}

impl SlideResolver {
    /// Structural invariant: the iteration budget is never exceeded, an
    /// unfinished resolver has budget left, and the remainder and the
    /// accumulated translation are bounded.
    pub open spec fn wf(self) -> bool {
        &&& self.iterations <= MAX_SLIDE_STEPS
        &&& (!self.done ==> self.iterations < MAX_SLIDE_STEPS)
        &&& norm_sq_pair(self.remaining@) <= slide_bound(self.iterations as int) * slide_bound(
            self.iterations as int,
        )
        &&& bounded_pair(self.moved@, moved_bound(self.iterations as int))
    }

    /// Starts resolving a desired displacement.
    pub fn new(desired: Vector2) -> (r: SlideResolver)
        requires
            bounded_pair(desired@, DISP_LIMIT as int),
        ensures
            r.remaining == desired,
            r.moved@ == (0int, 0int),
            r.iterations == 0,
            r.grounded == false,
            r.done == false,
            r.wf(),
    {
        proof {
            crate::vector2::lemma_norm_sq_bounds(desired@, DISP_LIMIT as int);
            assert(2 * (DISP_LIMIT as int) * (DISP_LIMIT as int) <= slide_bound(0) * slide_bound(0))
                by (nonlinear_arith)
                requires
                    DISP_LIMIT == 1_100_000_000_000,
            ;
        }
        SlideResolver {
            remaining: desired,
            moved: Vector2 { x: 0, y: 0 },
            iterations: 0,
            grounded: false,
            done: false,
        }
    }

    /// Feeds one backend move outcome into the resolution. Consumes one
    /// iteration of the budget; afterwards the remainder is exactly the
    /// iteration formula, its magnitude has not been increased by the
    /// contact rejections, and the accumulated translation has grown by
    /// the effective translation plus the penetration nudges.
    pub fn step(&mut self, result: &MoveResult)
        requires
            old(self).wf(),
            !old(self).done,
            bounded_pair(result.effective_translation@, EFF_LIMIT as int),
            result.contacts@.len() <= CONTACTS_LIMIT,
            forall|i: int|
                0 <= i < result.contacts@.len() ==> bounded_pair(
                    #[trigger] result.contacts@[i].normal@,
                    NORMAL_LIMIT as int,
                ),
        ensures
            final(self).wf(),
            final(self).iterations == old(self).iterations + 1,
            final(self).grounded == result.grounded,
            final(self).remaining@ == iteration_remainder_spec(
                old(self).remaining@,
                result.effective_translation@,
                result.grounded,
                result.contacts@,
            ),
            norm_sq_pair(final(self).remaining@) <= norm_sq_pair(
                consume_spec(
                    old(self).remaining@,
                    result.effective_translation@,
                    result.grounded,
                ),
            ),
            final(self).moved@ == apply_nudges_upto(
                add_pair(old(self).moved@, result.effective_translation@),
                result.contacts@,
                result.contacts@.len() as int,
            ),
            final(self).done == (below_eps(final(self).remaining@) || final(self).iterations
                == MAX_SLIDE_STEPS),
    {
        let ghost its0 = old(self).iterations as int;
        let ghost sb = slide_bound(its0);
        proof {
            assert(0 <= its0 <= 7);
            lemma_norm_sq_nonneg(self.remaining@);
            lemma_sq_mono(sb, 4_400_000_000_000);
            lemma_bounded_of_norm_sq(self.remaining@, 4_400_000_000_000);
        }
        // Accumulate the backend's effective translation.
        self.moved = Vector2 {
            x: self.moved.x + result.effective_translation.x,
            y: self.moved.y + result.effective_translation.y,
        };
        self.grounded = result.grounded;
        // Consume the achieved displacement from the remainder.
        self.remaining = consume_displacement(
            self.remaining,
            result.effective_translation,
            result.grounded,
        );
        let ghost consumed = self.remaining@;
        let ghost moved_base = self.moved@;
        proof {
            lemma_consume_norm(
                old(self).remaining@,
                result.effective_translation@,
                result.grounded,
                sb,
            );
            lemma_sq_mono(sb + 400_000_000_000, 4_800_000_000_000);
            lemma_bounded_of_norm_sq(consumed, 4_800_000_000_000);
            crate::vector2::lemma_norm_sq_bounds(consumed, 4_800_000_000_000);
        }
        // Slide along every solved contact; push out of penetrating ones.
        let mut idx: usize = 0;
        while idx < result.contacts.len()
            invariant
                0 <= idx <= result.contacts@.len(),
                result.contacts@.len() <= CONTACTS_LIMIT,
                forall|i: int|
                    0 <= i < result.contacts@.len() ==> bounded_pair(
                        #[trigger] result.contacts@[i].normal@,
                        NORMAL_LIMIT as int,
                    ),
                0 <= its0 <= 7,
                sb == slide_bound(its0),
                self.remaining@ == apply_contacts_upto(consumed, result.contacts@, idx as int),
                norm_sq_pair(self.remaining@) <= norm_sq_pair(consumed),
                norm_sq_pair(consumed) <= (sb + 400_000_000_000) * (sb + 400_000_000_000),
                norm_sq_pair(consumed) <= 46_080_000_000_000_000_000_000_000,
                self.moved@ == apply_nudges_upto(moved_base, result.contacts@, idx as int),
                bounded_pair(moved_base, moved_bound(its0) + 100_000_000_000),
                bounded_pair(
                    self.moved@,
                    moved_bound(its0) + 100_000_000_000 + (idx as int) * 100,
                ),
                self.grounded == result.grounded,
                self.iterations == old(self).iterations,
                self.done == false,
            decreases result.contacts@.len() - idx,
        {
            let c = &result.contacts[idx];
            let nr = apply_contact(self.remaining, c);
            self.remaining = nr;
            let nd = nudge_of(c);
            self.moved = Vector2 { x: self.moved.x + nd.x, y: self.moved.y + nd.y };
            idx = idx + 1;
        }
        proof {
            assert(slide_bound(its0 + 1) == sb + 400_000_000_000);
        }
        self.iterations = self.iterations + 1;
        let within = self.remaining.x < SLIDE_EPS && self.remaining.x > -SLIDE_EPS
            && self.remaining.y < SLIDE_EPS && self.remaining.y > -SLIDE_EPS;
        self.done = within || self.iterations == MAX_SLIDE_STEPS;
    }

    /// The displacement still to be requested from the backend, or nothing
    /// once resolution has finished.
    pub fn request(&self) -> (r: Option<Vector2>)
        ensures
            match r {
                Some(v) => !self.done && v == self.remaining,
                None => self.done,
            },
    {
        if self.done {
            None
        } else {
            Some(self.remaining)
        }
    }

    /// The translation achieved by the whole resolution.
    pub fn achieved(&self) -> (r: Vector2)
        requires
            self.done,
        ensures
            r == self.moved,
    {
        self.moved
    }
}

/// The slide loop always terminates within the fixed iteration budget: a
/// well-formed resolver never exceeds `MAX_SLIDE_STEPS` iterations, an
/// unfinished one has budget left, and each `step` spends exactly one
/// iteration and finishes the resolution at the latest when the budget is
/// exhausted.
pub proof fn lemma_slide_terminates(s: SlideResolver)
    requires
        s.wf(),
    ensures
        s.iterations <= MAX_SLIDE_STEPS,
        !s.done ==> s.iterations < MAX_SLIDE_STEPS,
{
}

} // verus!
