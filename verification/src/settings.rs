//! The settings of the interpreter.

use vstd::prelude::*;

verus! {

/// The audio output asked for; `None` leaves the choice to the device.
pub struct ACAudioSpec {
    /// Samples per second.
    pub freq: Option<i32>,
    /// Number of separate audio channels.
    pub channels: Option<u8>,
    /// Audio buffer size in samples (a power of 2).
    pub samples: Option<u16>,
}

/// The settings of the interpreter.
pub struct ACSettings {
    /// Whether `FX1E` also sets VF (an interpreter quirk; see the CHIP-8 notes).
    pub fx1e_affects_vf: bool,
    /// The frames per second the display loop aims at.
    pub target_fps: u16,
    pub audio: ACAudioSpec,
}

impl ACSettings {
    /// The length of one frame in nanoseconds at the target frame rate.
    pub fn frame_nanos(&self) -> (ns: u32)
        requires
            self.target_fps > 0,
        ensures
            ns == 1_000_000_000int / (self.target_fps as int),
    {
        1_000_000_000u32 / self.target_fps as u32
    }

    /// How long to sleep, in nanoseconds, after `elapsed_nanos` of a frame
    /// have passed: the rest of the frame, or nothing once the frame is over.
    pub fn sleep_nanos(&self, elapsed_nanos: u128) -> (ns: u32)
        requires
            self.target_fps > 0,
        ensures
            ns == if elapsed_nanos <= 1_000_000_000int / (self.target_fps as int) {
                1_000_000_000int / (self.target_fps as int) - elapsed_nanos
            } else {
                0
            },
    {
        let frame: u32 = self.frame_nanos();
        if elapsed_nanos <= frame as u128 {
            frame - elapsed_nanos as u32
        } else {
            0
        }
    }
}

} // verus!
