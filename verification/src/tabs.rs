use vstd::prelude::*;

verus! {

/// Position selected by a "jump to tab N" shortcut among `len` open tabs:
/// positions 0 to 7 select that tab; position 8 or more, or any position
/// past the last tab, selects the last tab.
pub open spec fn jump_target(pos: nat, len: nat) -> nat {
    if pos >= 8 || pos >= len {
        (len - 1) as nat
    } else {
        pos
    }
}

/// Position after the active one, wrapping from the last tab to the first.
pub open spec fn next_target(active: nat, len: nat) -> nat {
    if active + 1 == len {
        0
    } else {
        active + 1
    }
}

/// Position before the active one, wrapping from the first tab to the last.
/// Without an active position (or with no tabs) the last position is taken,
/// and 0 when there are no tabs at all.
pub open spec fn prev_target(active: Option<nat>, len: nat) -> nat {
    match active {
        Some(i) if i > 0 => (i - 1) as nat,
        _ => if len > 0 {
            (len - 1) as nat
        } else {
            0
        },
    }
}

/// Tab position selected by a "jump to tab" shortcut (`TabActivateJump`).
/// There is always at least one tab, so `len` is positive.
pub fn tab_jump_position(pos: usize, len: usize) -> (r: usize)
    requires
        len > 0,
    ensures
        r == jump_target(pos as nat, len as nat),
        r < len,
{
    if pos >= 8 || pos > len - 1 {
        len - 1
    } else {
        assert(pos % len == pos) by {
            vstd::arithmetic::div_mod::lemma_small_mod(pos as nat, len as nat);
        }
        pos % len
    }
}

/// Position activated by "next tab": one past the active tab, wrapping around.
pub fn tab_next_position(active: usize, len: usize) -> (r: usize)
    requires
        active < len,
    ensures
        r == next_target(active as nat, len as nat),
        r < len,
{
    let n = active + 1;
    if n == len {
        assert(n % len == 0) by {
            vstd::arithmetic::div_mod::lemma_mod_self_0(len as int);
        }
    } else {
        assert(n % len == n) by {
            vstd::arithmetic::div_mod::lemma_small_mod(n as nat, len as nat);
        }
    }
    n % len
}

/// Position activated by "previous tab": one before the active tab; the last
/// tab when the first one (or none) is active.
pub fn tab_prev_position(active: Option<usize>, len: usize) -> (r: usize)
    ensures
        r == prev_target(
            match active {
                Some(i) => Some(i as nat),
                None => None,
            },
            len as nat,
        ),
        len > 0 && (active matches Some(i) ==> i < len) ==> r < len,
{
    let from_active = match active {
        Some(i) => i.checked_sub(1),
        None => None,
    };
    match from_active {
        Some(p) => p,
        None => match len.checked_sub(1) {
            Some(last) => last,
            None => 0,
        },
    }
}

/// Position activated when the tab at `position` closes: the tab before it,
/// or the one after it when it was the first tab.
pub fn tab_close_neighbor(position: usize) -> (r: usize)
    requires
        position < usize::MAX,
    ensures
        position > 0 ==> r == position - 1,
        position == 0 ==> r == 1,
{
    if position > 0 {
        position - 1
    } else {
        position + 1
    }
}

/// Going to the next tab and then to the previous one comes back to the tab
/// that was active, and so does going to the previous tab and then the next.
pub proof fn lemma_next_prev_inverse(active: nat, len: nat)
    requires
        active < len,
    ensures
        prev_target(Some(next_target(active, len)), len) == active,
        next_target(prev_target(Some(active), len), len) == active,
{
}

/// Every jump shortcut lands on an existing tab, and the shortcuts for the
/// first eight positions select exactly that tab when it exists.
pub proof fn lemma_jump_in_range(pos: nat, len: nat)
    requires
        len > 0,
    ensures
        jump_target(pos, len) < len,
        pos < 8 && pos < len ==> jump_target(pos, len) == pos,
        pos >= 8 ==> jump_target(pos, len) == len - 1,
{
}

} // verus!
