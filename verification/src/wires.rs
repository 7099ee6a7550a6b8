use vstd::prelude::*;

verus! {

/// The wire the feed sits on: the chosen one while it exists, else the
/// first wire, and none when there are no wires.
pub fn fed_wire(count: usize, feed: usize) -> (r: Option<usize>)
    ensures
        r == (if feed < count {
            Some(feed)
        } else if count > 0 {
            Some(0usize)
        } else {
            None
        }),
{
    if feed < count {
        Some(feed)
    } else if count > 0 {
        Some(0)
    } else {
        None
    }
}

/// Puts a copy of wire `i` right after it.
pub fn duplicate_wire<T: Copy>(wires: &mut Vec<T>, i: usize)
    requires
        i < old(wires)@.len(),
        old(wires)@.len() < usize::MAX,
    ensures
        final(wires)@ == old(wires)@.insert(i as int + 1, old(wires)@[i as int]),
{
    let w = wires[i];
    wires.insert(i + 1, w);
}

/// Takes wire `i` out, unless it is the last wire left, and keeps the
/// feed on a wire that exists. Says whether a wire was taken out.
pub fn remove_wire<T>(wires: &mut Vec<T>, feed: &mut usize, i: usize) -> (removed: bool)
    requires
        old(wires)@.len() > 1 ==> i < old(wires)@.len(),
    ensures
        removed == (old(wires)@.len() > 1),
        removed ==> final(wires)@ == old(wires)@.remove(i as int),
        removed ==> *final(feed) == (if *old(feed) >= final(wires)@.len() {
            (final(wires)@.len() - 1) as usize
        } else {
            *old(feed)
        }),
        !removed ==> final(wires)@ == old(wires)@ && *final(feed) == *old(feed),
{
    if wires.len() > 1 {
        wires.remove(i);
        if *feed >= wires.len() {
            *feed = wires.len() - 1;
        }
        true
    } else {
        false
    }
}

/// Taking a wire out never leaves the model without wires, and leaves the
/// feed on a wire that exists.
pub proof fn removal_keeps_a_fed_wire(count: nat, feed: nat)
    requires
        count > 1,
    ensures
        count - 1 >= 1,
        (if feed >= count - 1 {
            (count - 2) as nat
        } else {
            feed
        }) < count - 1,
{
}

} // verus!
