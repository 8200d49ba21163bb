//! The command line of the encoder that stitches the frames into a video.
//!
//! The encoder is run once, after every frame is stored. It reads the frames
//! by their name pattern, at the configured frame rate, and writes the
//! output file, replacing one that exists.

use vstd::prelude::*;
use vstd::string::StringExecFns;
use crate::naming::decimal;
use crate::naming::frame_file_path_pattern;
use crate::naming::frame_path_pattern;
use crate::naming::push_decimal;

verus! {

/// The arguments handed to the encoder, in order: quiet logging, overwrite,
/// the frame rate, the input pattern, the pixel format, and the output file.
pub open spec fn encoder_arguments(
    frame_dir: Seq<char>,
    ext: Seq<char>,
    frame_rate: nat,
    output: Seq<char>,
) -> Seq<Seq<char>> {
    seq![
        "-hide_banner"@,
        "-loglevel"@,
        "error"@,
        "-y"@,
        "-framerate"@,
        decimal(frame_rate),
        "-i"@,
        frame_path_pattern(frame_dir, ext),
        "-pix_fmt"@,
        "yuv420p"@,
        output,
    ]
}

/// The texts that the strings of `args` hold.
pub open spec fn texts_of(args: Seq<String>) -> Seq<Seq<char>> {
    Seq::new(args.len(), |i: int| args[i]@)
}

/// Builds the encoder's arguments for the frames with extension `ext` in
/// `frame_dir`, played at `frame_rate` frames per second into `output`.
pub fn encoder_args(frame_dir: &str, ext: &str, frame_rate: usize, output: &str) -> (args: Vec<
    String,
>)
    ensures
        texts_of(args@) == encoder_arguments(frame_dir@, ext@, frame_rate as nat, output@),
{
    let mut rate = String::new();
    push_decimal(&mut rate, frame_rate);
    assert(rate@ =~= decimal(frame_rate as nat));
    let mut args: Vec<String> = Vec::new();
    args.push(String::from_str("-hide_banner"));
    args.push(String::from_str("-loglevel"));
    args.push(String::from_str("error"));
    args.push(String::from_str("-y"));
    args.push(String::from_str("-framerate"));
    args.push(rate);
    args.push(String::from_str("-i"));
    args.push(frame_file_path_pattern(frame_dir, ext));
    args.push(String::from_str("-pix_fmt"));
    args.push(String::from_str("yuv420p"));
    args.push(String::from_str(output));
    assert(texts_of(args@) =~= encoder_arguments(
        frame_dir@,
        ext@,
        frame_rate as nat,
        output@,
    ));
    args
}

} // verus!
