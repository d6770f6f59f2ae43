//! The keypad interface: pressed-key sets and what one poll reports.

use vstd::prelude::*;

verus! {

/// What one keypad poll reports: either the quit key, or the set of
/// currently pressed CHIP-8 keycodes (values 0x0 through 0xF).
pub enum KeypadState {
    PressedEscape,
    PressedKeycodes(Vec<u8>),
}

/// The lowest key code among a non-empty set of pressed keys: the one a
/// key-wait instruction stores.
pub open spec fn lowest_key(keys: Seq<u8>) -> u8
    recommends
        keys.len() > 0,
    decreases keys.len(),
{
    if keys.len() <= 1 {
        keys[0]
    } else {
        let m = lowest_key(keys.drop_first());
        if keys[0] <= m {
            keys[0]
        } else {
            m
        }
    }
}

/// The lowest key is a pressed key, and no pressed key is below it.
pub proof fn lemma_lowest_key(keys: Seq<u8>)
    requires
        keys.len() > 0,
    ensures
        keys.contains(lowest_key(keys)),
        forall|k: int| 0 <= k < keys.len() ==> lowest_key(keys) <= #[trigger] keys[k],
    decreases keys.len(),
{
    if keys.len() <= 1 {
        assert(keys[0] == lowest_key(keys));
    } else {
        let rest = keys.drop_first();
        lemma_lowest_key(rest);
        let m = lowest_key(rest);
        if keys[0] <= m {
            assert(keys.contains(keys[0]));
        } else {
            let j = choose|j: int| 0 <= j < rest.len() && rest[j] == m;
            assert(keys[j + 1] == m);
            assert(keys.contains(m));
        }
        assert forall|k: int| 0 <= k < keys.len() implies lowest_key(keys) <= #[trigger] keys[k]
            by {
            if k > 0 {
                assert(rest[k - 1] == keys[k]);
            }
        }
    }
}

/// Find the lowest pressed key.
pub fn min_key(keys: &Vec<u8>) -> (r: u8)
    requires
        keys@.len() > 0,
    ensures
        r == lowest_key(keys@),
{
    let mut r = keys[0];
    let mut idx: usize = 1;
    while idx < keys.len()
        invariant
            1 <= idx <= keys@.len(),
            exists|j: int| 0 <= j < idx && keys@[j] == r,
            forall|j: int| 0 <= j < idx ==> r <= #[trigger] keys@[j],
        decreases keys@.len() - idx,
    {
        if keys[idx] < r {
            r = keys[idx];
            proof {
                assert(0 <= idx < idx + 1 && keys@[idx as int] == r);
            }
        }
        idx = idx + 1;
    }
    proof {
        lemma_lowest_key(keys@);
        let lk = lowest_key(keys@);
        let jl = choose|j: int| 0 <= j < keys@.len() && keys@[j] == lk;
        let jr = choose|j: int| 0 <= j < keys@.len() && keys@[j] == r;
        assert(r <= keys@[jl]);
        assert(lk <= keys@[jr]);
    }
    r
}

/// Whether key `k` is among the pressed keys.
pub fn key_pressed(keys: &Vec<u8>, k: u8) -> (r: bool)
    ensures
        r == keys@.contains(k),
{
    let mut idx: usize = 0;
    while idx < keys.len()
        invariant
            idx <= keys@.len(),
            forall|m: int| 0 <= m < idx ==> #[trigger] keys@[m] != k,
        decreases keys@.len() - idx,
    {
        if keys[idx] == k {
            proof {
                assert(keys@[idx as int] == k);
            }
            return true;
        }
        idx = idx + 1;
    }
    false
}

} // verus!
