//! The validated configuration of one render run.
//!
//! Reading the configuration from wherever it is kept is the caller's
//! business. What is decided here is which values make a run: the checks,
//! their order, and the error that each failure gives.

use vstd::prelude::*;
use crate::registry::lookup;
use crate::registry::resolve;
use crate::registry::same_text;
use crate::registry::ShaderKind;

verus! {

/// The container of the finished video.
#[derive(Clone, Copy, Debug, PartialEq, Eq, Structural)]
pub enum OutputFormat {
    MP4,
    GIF,
}

/// The container that the extension `ext` of an output path selects.
pub open spec fn format_of(ext: Seq<char>) -> Option<OutputFormat> {
    if ext == "mp4"@ {
        Some(OutputFormat::MP4)
    } else if ext == "gif"@ {
        Some(OutputFormat::GIF)
    } else {
        None
    }
}

impl OutputFormat {
    /// The container selected by an output path's extension, given
    /// without its dot. Only `mp4` and `gif` select one.
    pub fn from_extension(ext: &str) -> (format: Option<OutputFormat>)
        ensures
            format == format_of(ext@),
    {
        if same_text(ext, "mp4") {
            Some(OutputFormat::MP4)
        } else if same_text(ext, "gif") {
            Some(OutputFormat::GIF)
        } else {
            None
        }
    }
}

/// Why a set of values is no configuration.
#[derive(Clone, Copy, Debug, PartialEq, Eq, Structural)]
pub enum ConfigError {
    /// The width is zero.
    ZeroWidth,
    /// The height is zero.
    ZeroHeight,
    /// There are no frames to render.
    ZeroFrames,
    /// There are no workers to render with.
    ZeroWorkers,
    /// One frame's bytes, `width * height * 3`, do not fit the machine's word.
    FrameTooLarge,
    /// The output path's extension selects no container.
    UnsupportedFormat,
    /// The shader name is not in the registry.
    UnknownShader,
}

/// The first check that the values fail, in the order in which the checks
/// are made, or `None` where they pass them all.
pub open spec fn first_fault(
    width: usize,
    height: usize,
    frames: usize,
    core_count: usize,
    extension: Seq<char>,
    shader_name: Seq<char>,
) -> Option<ConfigError> {
    if width == 0 {
        Some(ConfigError::ZeroWidth)
    } else if height == 0 {
        Some(ConfigError::ZeroHeight)
    } else if frames == 0 {
        Some(ConfigError::ZeroFrames)
    } else if core_count == 0 {
        Some(ConfigError::ZeroWorkers)
    } else if width * height * 3 > usize::MAX {
        Some(ConfigError::FrameTooLarge)
    } else if format_of(extension) is None {
        Some(ConfigError::UnsupportedFormat)
    } else if lookup(shader_name) is None {
        Some(ConfigError::UnknownShader)
    } else {
        None
    }
}

/// The parameters of a render run, fixed before any worker starts and
/// shared read-only by all of them.
#[derive(Clone, Copy, Debug, PartialEq, Eq, Structural)]
pub struct Config {
    /// Columns of a frame.
    pub width: usize,
    /// Rows of a frame.
    pub height: usize,
    /// Frames per second of the finished video.
    pub frame_rate: usize,
    /// Number of frames of the run.
    pub frames: usize,
    /// Number of workers.
    pub core_count: usize,
    /// Container of the finished video.
    pub output_format: OutputFormat,
    /// The shader that colors the frames.
    pub shader: ShaderKind,
}

impl Config {
    /// What every configuration handed to the renderer satisfies.
    pub open spec fn valid(&self) -> bool {
        &&& self.width > 0
        &&& self.height > 0
        &&& self.frames > 0
        &&& self.core_count > 0
        &&& self.width * self.height * 3 <= usize::MAX
    }

    /// Checks the values of a run and makes its configuration. The checks
    /// are made in the order of `first_fault`, and the first that fails
    /// names the error.
    pub fn new(
        width: usize,
        height: usize,
        frame_rate: usize,
        frames: usize,
        core_count: usize,
        extension: &str,
        shader_name: &str,
    ) -> (made: Result<Config, ConfigError>)
        ensures
            match first_fault(width, height, frames, core_count, extension@, shader_name@) {
                Some(fault) => made == Err::<Config, ConfigError>(fault),
                None => made == Ok::<Config, ConfigError>(
                    (Config {
                        width,
                        height,
                        frame_rate,
                        frames,
                        core_count,
                        output_format: format_of(extension@)->Some_0,
                        shader: lookup(shader_name@)->Some_0,
                    }),
                ),
            },
            made matches Ok(config) ==> config.valid(),
    {
        if width == 0 {
            return Err(ConfigError::ZeroWidth);
        }
        if height == 0 {
            return Err(ConfigError::ZeroHeight);
        }
        if frames == 0 {
            return Err(ConfigError::ZeroFrames);
        }
        if core_count == 0 {
            return Err(ConfigError::ZeroWorkers);
        }
        assert(width * height * 3 <= usize::MAX ==> width * height <= usize::MAX) by (nonlinear_arith)
            requires
                0 <= width * height,
        ;
        let fits = match width.checked_mul(height) {
            None => false,
            Some(pixels) => pixels.checked_mul(3).is_some(),
        };
        if !fits {
            return Err(ConfigError::FrameTooLarge);
        }
        let output_format = match OutputFormat::from_extension(extension) {
            None => {
                return Err(ConfigError::UnsupportedFormat);
            },
            Some(format) => format,
        };
        let shader = match resolve(shader_name) {
            Err(_) => {
                return Err(ConfigError::UnknownShader);
            },
            Ok(kind) => kind,
        };
        Ok(Config { width, height, frame_rate, frames, core_count, output_format, shader })
    }
}

} // verus!
