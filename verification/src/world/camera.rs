//! Zoom presets of the isometric camera. Preset `MIN_ZOOM_PRESET` is the
//! closest view; each further preset zooms out by one step.

use vstd::prelude::*;

verus! {

/// The closest zoom preset.
pub const MIN_ZOOM_PRESET: i32 = 1;

/// The farthest zoom preset.
pub const MAX_ZOOM_PRESET: i32 = 12;

/// How many zoom-out steps preset `preset` lies from the closest preset:
/// `preset - MIN_ZOOM_PRESET`, and none for presets below it.
pub open spec fn spec_zoom_preset_steps(preset: int) -> int {
    if preset - MIN_ZOOM_PRESET > 0 {
        preset - MIN_ZOOM_PRESET
    } else {
        0
    }
}

/// The number of zoom-out steps of a preset (the zoom factor is the step
/// factor raised to this power).
pub fn zoom_preset_steps(preset: i32) -> (steps: i32)
    requires
        preset > i32::MIN,
    ensures
        steps == spec_zoom_preset_steps(preset as int),
        0 <= steps,
{
    let d = preset - MIN_ZOOM_PRESET;
    if d > 0 {
        d
    } else {
        0
    }
}

/// Presets further out never take fewer zoom steps.
pub proof fn lemma_zoom_steps_monotonic(p: int, q: int)
    requires
        p <= q,
    ensures
        spec_zoom_preset_steps(p) <= spec_zoom_preset_steps(q),
{
}


/// The closest preset and every preset below it take no step, and each
/// preset further out takes exactly one step more than the one before it.
pub proof fn lemma_zoom_steps_count_presets(p: int)
    ensures
        MIN_ZOOM_PRESET == 1,
        p <= 1 ==> spec_zoom_preset_steps(p) == 0,
        p >= 1 ==> spec_zoom_preset_steps(p + 1) == spec_zoom_preset_steps(p) + 1,
{
}

} // verus!
