use vstd::prelude::*;

verus! {

/// A countdown timer's value one tick later: one less, stopping at zero.
pub open spec fn ticked(v: u8) -> u8 {
    if v > 0 {
        (v - 1) as u8
    } else {
        0
    }
}

/// A countdown timer's value `n` ticks later.
pub open spec fn after_ticks(v: u8, n: nat) -> u8
    decreases n,
{
    if n == 0 {
        v
    } else {
        ticked(after_ticks(v, (n - 1) as nat))
    }
}

/// One tick of a countdown timer that holds `v`: the new value, or `None`
/// where the timer already stands at zero and stays there.
pub fn decrement_step(v: u8) -> (r: Option<u8>)
    ensures
        v > 0 ==> r == Some((v - 1) as u8),
        v == 0 ==> r is None,
{
    if v > 0 {
        Some(v - 1)
    } else {
        None
    }
}

/// Whether the sound timer's tone sounds while it holds `v`.
pub fn tone_should_play(v: u8) -> (r: bool)
    ensures
        r == (v > 0),
{
    v > 0
}

/// A countdown that starts at `v` stands at `v - n` after `n` ticks, and
/// at zero from tick `v` on.
pub proof fn lemma_countdown(v: u8, n: nat)
    ensures
        after_ticks(v, n) == (if n >= v {
            0
        } else {
            v - n
        }),
    decreases n,
{
    if n > 0 {
        lemma_countdown(v, (n - 1) as nat);
    }
}

} // verus!
