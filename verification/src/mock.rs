//! The stand-in platform used where no device is present: it accepts every
//! frame and setting and produces no input.

use vstd::prelude::*;

verus! {

/// The error of an operation of the stand-in platform; none ever fails.
#[derive(Debug, Clone, Copy, PartialEq, Eq, Structural)]
pub struct PlatformError;

/// The stand-in video output.
#[derive(Debug, Clone, Copy, PartialEq, Eq, Structural)]
pub struct MockVideo;

/// The stand-in platform.
#[derive(Debug, Clone, Copy, PartialEq, Eq, Structural)]
pub struct MockPlatform {
    pub video: MockVideo,
}

impl MockVideo {
    /// Accepts any frame in any format: it is always presented.
    pub fn present<F, G>(&mut self, _frame: &F, _format: G) -> (r: Result<bool, PlatformError>)
        ensures
            r == Ok::<bool, PlatformError>(true),
            *final(self) == *old(self),
    {
        Ok(true)
    }

    /// Accepts any screen effect and ignores it.
    pub fn set_effect<E>(&mut self, _effect: E)
        ensures
            *final(self) == *old(self),
    {
    }

    /// Accepts any sharpness and ignores it.
    pub fn set_sharpness<S>(&mut self, _sharpness: S)
        ensures
            *final(self) == *old(self),
    {
    }
}

impl MockPlatform {
    /// No input ever arrives: the joypad is left alone and no control
    /// event is produced.
    pub fn poll_input<J, C>(&mut self, _joypad: &mut J) -> (r: Vec<C>)
        ensures
            r@.len() == 0,
            *final(self) == *old(self),
            *final(_joypad) == *old(_joypad),
    {
        Vec::new()
    }

    /// Presentation is skipped while paused.
    pub fn skip_presentation_when_paused(&self) -> (r: bool)
        ensures
            r,
    {
        true
    }
}

/// Logging needs no set-up here; it always succeeds.
pub fn init_logging() -> (r: Result<(), PlatformError>)
    ensures
        r is Ok,
{
    Ok(())
}

/// The governor cannot be set here; the request is ignored.
pub fn set_governor(_governor: &str) {
}

} // verus!
