//! Angles in thousandths of a degree, wrapped into one full turn.

use vstd::prelude::*;

verus! {

/// One full turn, in thousandths of a degree.
pub const FULL_TURN: i64 = 360_000;

/// The canonical representative of `millis` within one full turn.
pub open spec fn wrapped(millis: int) -> int {
    millis % (FULL_TURN as int)
}

/// An angle in thousandths of a degree. Any value may be held; the
/// canonical range is `0 <= millis < FULL_TURN`.
#[derive(Clone, Copy, Debug, PartialEq, Eq, Structural)]
pub struct Deg {
    pub millis: i64,
}

impl Deg {
    /// Whether the angle lies in the canonical range.
    pub open spec fn is_normalized(self) -> bool {
        0 <= self.millis < FULL_TURN
    }

    /// Wraps the angle into the canonical range. An angle already there
    /// stays as it is.
    pub fn normalize(self) -> (r: Deg)
        ensures
            r.millis == wrapped(self.millis as int),
            r.is_normalized(),
            self.is_normalized() ==> r == self,
    {
        let m: i64 = self.millis % FULL_TURN;
        if m < 0 {
            Deg { millis: m + FULL_TURN }
        } else {
            Deg { millis: m }
        }
    }

    /// The angle turned by `delta` thousandths of a degree, wrapped into the
    /// canonical range. `delta` may span any number of turns.
    pub fn turned(self, delta: i128) -> (r: Deg)
        ensures
            r.millis == wrapped(self.millis + delta),
            r.is_normalized(),
    {
        let base: i64 = self.normalize().millis;
        let rest: i128 = delta % (FULL_TURN as i128);
        let sum: i128 = base as i128 + rest;
        let m: i128 = sum % (FULL_TURN as i128);
        proof {
            lemma_wrapped_sum(self.millis as int, delta as int);
        }
        if m < 0 {
            Deg { millis: (m + FULL_TURN as i128) as i64 }
        } else {
            Deg { millis: m as i64 }
        }
    }
}

/// Wrapping each summand first does not change the wrapped sum.
pub proof fn lemma_wrapped_sum(a: int, b: int)
    ensures
        wrapped(wrapped(a) + wrapped(b)) == wrapped(a + b),
        wrapped(wrapped(a) + b) == wrapped(a + b),
        wrapped(a + wrapped(b)) == wrapped(a + b),
{
    let m = FULL_TURN as int;
    vstd::arithmetic::div_mod::lemma_add_mod_noop(a, b, m);
    vstd::arithmetic::div_mod::lemma_add_mod_noop_right(a, b, m);
    vstd::arithmetic::div_mod::lemma_add_mod_noop_right(b, a, m);
    assert(a + b == b + a);
    assert(wrapped(a) + b == b + wrapped(a));
}

/// Normalizing twice gives what normalizing once gives, and a value already
/// in the canonical range is left as it is.
pub proof fn lemma_normalize_idempotent(millis: int)
    ensures
        0 <= wrapped(millis) < FULL_TURN,
        wrapped(wrapped(millis)) == wrapped(millis),
        0 <= millis < FULL_TURN ==> wrapped(millis) == millis,
{
    let m = FULL_TURN as int;
    vstd::arithmetic::div_mod::lemma_mod_twice(millis, m);
    vstd::arithmetic::div_mod::lemma_mod_bound(millis, m);
    if 0 <= millis < m {
        vstd::arithmetic::div_mod::lemma_small_mod(millis as nat, m as nat);
    }
}

} // verus!
