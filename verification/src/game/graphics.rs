use vstd::prelude::*;

verus! {

/// Number of selectable window resolutions.
pub const RESOLUTION_COUNT: usize = 4;

/// The selectable window resolutions in pixels, from the smallest:
/// 1280x720, 1600x900, 1920x1080, 2560x1440.
pub open spec fn resolution_at(index: int) -> (u32, u32) {
    if index == 0 {
        (1280, 720)
    } else if index == 1 {
        (1600, 900)
    } else if index == 2 {
        (1920, 1080)
    } else {
        (2560, 1440)
    }
}

/// Window settings chosen in the Graphics tab.
#[derive(Debug, Clone, Copy, PartialEq, Eq, Structural)]
pub struct GraphicsSettings {
    pub resolution_index: usize,
    pub fullscreen: bool,
    pub vsync: bool,
}

impl Default for GraphicsSettings {
    /// 1280x720 windowed, vsync on.
    fn default() -> (s: Self)
        ensures
            s.resolution_index == 0,
            !s.fullscreen,
            s.vsync,
    {
        GraphicsSettings { resolution_index: 0, fullscreen: false, vsync: true }
    }
}

/// The index after `i` in the cycle of resolutions.
pub open spec fn next_index(i: int) -> int {
    (i + 1) % (RESOLUTION_COUNT as int)
}

/// The index before `i` in the cycle of resolutions.
pub open spec fn previous_index(i: int) -> int {
    if i == 0 {
        RESOLUTION_COUNT - 1
    } else {
        i - 1
    }
}

impl GraphicsSettings {
    /// The selected resolution as (width, height) in pixels.
    pub fn resolution(&self) -> (wh: (u32, u32))
        requires
            self.resolution_index < RESOLUTION_COUNT,
        ensures
            wh == resolution_at(self.resolution_index as int),
    {
        if self.resolution_index == 0 {
            (1280, 720)
        } else if self.resolution_index == 1 {
            (1600, 900)
        } else if self.resolution_index == 2 {
            (1920, 1080)
        } else {
            (2560, 1440)
        }
    }

    /// Select the next larger resolution, wrapping to the smallest.
    pub fn cycle_resolution_forward(&mut self)
        requires
            old(self).resolution_index < usize::MAX,
        ensures
            final(self).resolution_index == next_index(old(self).resolution_index as int),
            final(self).fullscreen == old(self).fullscreen,
            final(self).vsync == old(self).vsync,
    {
        self.resolution_index = (self.resolution_index + 1) % RESOLUTION_COUNT;
    }

    /// Select the next smaller resolution, wrapping to the largest.
    pub fn cycle_resolution_backward(&mut self)
        ensures
            final(self).resolution_index == previous_index(old(self).resolution_index as int),
            final(self).fullscreen == old(self).fullscreen,
            final(self).vsync == old(self).vsync,
    {
        if self.resolution_index == 0 {
            self.resolution_index = RESOLUTION_COUNT - 1;
        } else {
            self.resolution_index = self.resolution_index - 1;
        }
    }
}

/// Cycling keeps a valid selection valid, and one step back undoes one step
/// forward (and the other way round).
pub proof fn lemma_cycle_inverse(i: int)
    requires
        0 <= i < RESOLUTION_COUNT,
    ensures
        0 <= next_index(i) < RESOLUTION_COUNT,
        0 <= previous_index(i) < RESOLUTION_COUNT,
        previous_index(next_index(i)) == i,
        next_index(previous_index(i)) == i,
{
}

/// Four steps forward visit every resolution once and come back.
pub proof fn lemma_cycle_period(i: int)
    requires
        0 <= i < RESOLUTION_COUNT,
    ensures
        next_index(next_index(next_index(next_index(i)))) == i,
        next_index(i) != i,
{
}

/// The resolutions, from the smallest: 1280x720, 1600x900, 1920x1080,
/// 2560x1440; each step forward is strictly larger, and all are 16:9.
pub proof fn lemma_resolution_table(i: int)
    ensures
        resolution_at(0) == (1280u32, 720u32),
        resolution_at(1) == (1600u32, 900u32),
        resolution_at(2) == (1920u32, 1080u32),
        resolution_at(3) == (2560u32, 1440u32),
        0 <= i < RESOLUTION_COUNT - 1 ==> resolution_at(i).0 < resolution_at(i + 1).0
            && resolution_at(i).1 < resolution_at(i + 1).1,
        0 <= i < RESOLUTION_COUNT ==> 9 * resolution_at(i).0 == 16 * resolution_at(i).1,
{
}

} // verus!
