//! The inventory bar: eight slots, at most one of them selected.
use vstd::prelude::*;

verus! {

/// The number of slots in the bar.
pub const SLOT_COUNT: usize = 8;

/// The last position in `keys` that holds `true`, if any.
pub open spec fn last_pressed(keys: Seq<bool>) -> Option<usize>
    decreases keys.len(),
{
    if keys.len() == 0 {
        None
    } else if keys.last() {
        Some((keys.len() - 1) as usize)
    } else {
        last_pressed(keys.drop_last())
    }
}

/// The selection asked for by one frame's key presses. `clear` is the key
/// that drops the selection; `slot_keys[i]` selects slot `i`. `None` leaves
/// the selection as it is.
pub open spec fn selection_of(slot_keys: Seq<bool>, clear: bool) -> Option<Option<usize>> {
    if clear {
        Some(None)
    } else {
        match last_pressed(slot_keys) {
            Some(i) => Some(Some(i)),
            None => None,
        }
    }
}

/// The last pressed key is pressed, and no key after it is.
pub proof fn lemma_last_pressed(keys: Seq<bool>)
    requires
        keys.len() <= usize::MAX,
    ensures
        last_pressed(keys) matches Some(i) ==> i < keys.len() && keys[i as int] && forall|k: int|
            i < k < keys.len() ==> !keys[k],
        last_pressed(keys) is None ==> forall|k: int| 0 <= k < keys.len() ==> !keys[k],
    decreases keys.len(),
{
    if keys.len() > 0 && !keys.last() {
        lemma_last_pressed(keys.drop_last());
        assert forall|k: int| 0 <= k < keys.len() - 1 implies keys[k] == keys.drop_last()[k] by {}
    }
}

/// The selection asked for by this frame's key presses: the clear key wins;
/// else the last slot key pressed; else no change.
pub fn selection_from_keys(slot_keys: &Vec<bool>, clear: bool) -> (r: Option<Option<usize>>)
    ensures
        r == selection_of(slot_keys@, clear),
{
    if clear {
        return Some(None);
    }
    let ghost s = slot_keys@;
    let mut last: Option<usize> = None;
    let mut i: usize = 0;
    assert(s.take(0) =~= Seq::<bool>::empty());
    while i < slot_keys.len()
        invariant
            s == slot_keys@,
            i <= s.len(),
            last == last_pressed(s.take(i as int)),
        decreases s.len() - i,
    {
        assert(s.take(i + 1).drop_last() =~= s.take(i as int));
        if slot_keys[i] {
            last = Some(i);
        }
        i = i + 1;
    }
    assert(s.take(s.len() as int) =~= s);
    match last {
        Some(i) => Some(Some(i)),
        None => None,
    }
}

/// The sprite of slot `index`: the selected look for the selected slot,
/// the plain one for the others.
pub fn slot_sprite(index: usize, selection: Option<usize>, selected: u32, unselected: u32) -> (r: u32)
    ensures
        r == if selection == Some(index) { selected } else { unselected },
{
    match selection {
        Some(s) if s == index => selected,
        _ => unselected,
    }
}

} // verus!
