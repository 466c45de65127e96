//! Keyboard panning of the isometric camera. Each arrow (or W/A/S/D) key
//! moves the camera along one screen direction, which is a diagonal of the
//! ground plane.

use vstd::prelude::*;

verus! {

/// The ground-plane direction `(x, z)` that the held keys ask for: up adds
/// (-1, -1), down (1, 1), left (-1, 1) and right (1, -1).
pub open spec fn spec_pan_direction(up: bool, down: bool, left: bool, right: bool) -> (int, int) {
    let u: int = if up { 1 } else { 0 };
    let d: int = if down { 1 } else { 0 };
    let l: int = if left { 1 } else { 0 };
    let r: int = if right { 1 } else { 0 };
    (d + r - u - l, d + l - u - r)
}

/// The (unnormalised) pan direction for the held keys; `(0, 0)` means the
/// camera stays.
pub fn pan_direction(up: bool, down: bool, left: bool, right: bool) -> (dir: (i32, i32))
    ensures
        (dir.0 as int, dir.1 as int) == spec_pan_direction(up, down, left, right),
{
    let mut x: i32 = 0;
    let mut z: i32 = 0;
    if up {
        x = x - 1;
        z = z - 1;
    }
    if down {
        x = x + 1;
        z = z + 1;
    }
    if left {
        x = x - 1;
        z = z + 1;
    }
    if right {
        x = x + 1;
        z = z - 1;
    }
    (x, z)
}

/// Opposite keys cancel: holding up and down together pans as holding
/// neither, and so do left and right.
pub proof fn lemma_opposite_keys_cancel(up: bool, down: bool, left: bool, right: bool)
    ensures
        spec_pan_direction(true, true, left, right) == spec_pan_direction(false, false, left, right),
        spec_pan_direction(up, down, true, true) == spec_pan_direction(up, down, false, false),
{
}

/// A single held key always moves the camera; the direction's components
/// stay within -2..=2.
pub proof fn lemma_pan_direction_bounds(up: bool, down: bool, left: bool, right: bool)
    ensures
        -2 <= spec_pan_direction(up, down, left, right).0 <= 2,
        -2 <= spec_pan_direction(up, down, left, right).1 <= 2,
        (up && !down && !left && !right) || (!up && down && !left && !right) || (!up && !down
            && left && !right) || (!up && !down && !left && right) ==> spec_pan_direction(
            up,
            down,
            left,
            right,
        ) != (0int, 0int),
{
}


/// Every key adds its own vector whatever the other keys do: up adds
/// (-1, -1), down (1, 1), left (-1, 1) and right (1, -1); with no key held
/// the camera stays.
pub proof fn lemma_keys_add_independently(up: bool, down: bool, left: bool, right: bool)
    ensures
        spec_pan_direction(false, false, false, false) == (0int, 0int),
        spec_pan_direction(true, down, left, right).0 == spec_pan_direction(false, down, left, right).0 - 1,
        spec_pan_direction(true, down, left, right).1 == spec_pan_direction(false, down, left, right).1 - 1,
        spec_pan_direction(up, true, left, right).0 == spec_pan_direction(up, false, left, right).0 + 1,
        spec_pan_direction(up, true, left, right).1 == spec_pan_direction(up, false, left, right).1 + 1,
        spec_pan_direction(up, down, true, right).0 == spec_pan_direction(up, down, false, right).0 - 1,
        spec_pan_direction(up, down, true, right).1 == spec_pan_direction(up, down, false, right).1 + 1,
        spec_pan_direction(up, down, left, true).0 == spec_pan_direction(up, down, left, false).0 + 1,
        spec_pan_direction(up, down, left, true).1 == spec_pan_direction(up, down, left, false).1 - 1,
{
}

} // verus!
