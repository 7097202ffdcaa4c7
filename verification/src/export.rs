//! The entry of an export: which of the two pipelines renders it, and
//! whether the request can be served at all.

use crate::errors::InputError;
use crate::timeline::tail_ms;
use vstd::prelude::*;

verus! {

/// The two ways of rendering an export.
#[derive(Debug, Clone, Copy, PartialEq, Eq, Structural)]
pub enum RenderMode {
    /// The declarative pipeline: one filter graph run by the toolchain.
    Fast,
    /// The direct compositor: every frame is blended on the graphics device.
    HighFidelity,
}

/// Picks the pipeline: the direct compositor by default, the declarative
/// pipeline where no graphics device can be used.
pub fn choose_mode(device_usable: bool) -> (mode: RenderMode)
    ensures
        device_usable ==> mode == RenderMode::HighFidelity,
        !device_usable ==> mode == RenderMode::Fast,
{
    if device_usable {
        RenderMode::HighFidelity
    } else {
        RenderMode::Fast
    }
}

/// What the direct compositor is set up with.
#[derive(Debug, Clone, Copy, PartialEq, Eq, Structural)]
pub struct StreamSetup {
    /// The width of a frame in pixels.
    pub width: u32,
    /// The height of a frame in pixels.
    pub height: u32,
    /// Frames per second.
    pub fps: u32,
    /// The position in the playlist of the background that is decoded.
    pub background: usize,
}

/// Why the direct compositor cannot serve a request, if so.
pub open spec fn streaming_error(backgrounds: int, fps: int) -> Option<InputError> {
    if backgrounds == 0 {
        Some(InputError::NoBackground)
    } else if fps <= 0 {
        Some(InputError::ZeroFps)
    } else {
        None
    }
}

/// Checks a request for the direct compositor and settles its setup.
///
/// The request needs at least one background, of which the first is decoded,
/// and a positive frame rate. A width or a height below zero counts as zero.
pub fn start_streaming_export(backgrounds: usize, width: i32, height: i32, fps: i32) -> (r: Result<
    StreamSetup,
    InputError,
>)
    ensures
        match r {
            Ok(setup) => streaming_error(backgrounds as int, fps as int) is None && setup
                == (StreamSetup {
                width: if width > 0 {
                    width as u32
                } else {
                    0
                },
                height: if height > 0 {
                    height as u32
                } else {
                    0
                },
                fps: fps as u32,
                background: 0,
            }),
            Err(e) => streaming_error(backgrounds as int, fps as int) == Some(e),
        },
{
    if backgrounds == 0 {
        Err(InputError::NoBackground)
    } else if fps <= 0 {
        Err(InputError::ZeroFps)
    } else {
        Ok(
            StreamSetup {
                width: if width > 0 {
                    width as u32
                } else {
                    0
                },
                height: if height > 0 {
                    height as u32
                } else {
                    0
                },
                fps: fps as u32,
                background: 0,
            },
        )
    }
}

/// The length of the whole composition in milliseconds: the last onset plus
/// the tail.
pub fn total_duration_ms(last_onset_ms: i32, fade_ms: i32) -> (total: i64)
    ensures
        total == last_onset_ms + tail_ms(fade_ms as int),
{
    let tail: i64 = if fade_ms > 1000 {
        fade_ms as i64
    } else {
        1000
    };
    last_onset_ms as i64 + tail
}

} // verus!
