//! Arithmetic modulo the capacity of a ring.

use vstd::prelude::*;

verus! {

/// A position that lies at most one turn beyond the buffer wraps by one turn.
pub proof fn one_turn(x: int, cap: int)
    requires
        0 < cap,
        0 <= x < 2 * cap,
    ensures
        x % cap == (if x < cap {
            x
        } else {
            x - cap
        }),
{
    if x < cap {
        vstd::arithmetic::div_mod::lemma_small_mod(x as nat, cap as nat);
    } else {
        vstd::arithmetic::div_mod::lemma_mod_sub_multiples_vanish(x, cap);
        vstd::arithmetic::div_mod::lemma_small_mod((x - cap) as nat, cap as nat);
    }
}

/// Adding one turn does not change a remainder.
pub proof fn shifted_mod(x: int, cap: int)
    requires
        0 < cap,
    ensures
        (x + cap) % cap == x % cap,
        0 <= x % cap < cap,
{
    vstd::arithmetic::div_mod::lemma_mod_add_multiples_vanish(x, cap);
    vstd::arithmetic::div_mod::lemma_mod_bound(x, cap);
}

/// The distance between two positions of a buffer of `cap` slots.
pub proof fn distance(x: int, cap: int)
    requires
        0 < cap,
        -cap < x < cap,
    ensures
        x % cap == (if x < 0 {
            x + cap
        } else {
            x
        }),
{
    shifted_mod(x, cap);
    one_turn(x + cap, cap);
}

} // verus!
