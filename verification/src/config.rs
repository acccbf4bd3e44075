//! The fixed numbers of the pipeline and the one argument of the program.

use vstd::prelude::*;

verus! {

/// Frames that the rate converter takes in one call.
pub const AUDIO_BUFFER: usize = 512;

/// Sample rate that a device is expected to deliver, in hertz.
pub const INPUT_SAMPLE_RATE: usize = 44_100;

/// Sample rate that the recognition engine takes, in hertz.
pub const OUTPUT_SAMPLE_RATE: usize = 16_000;

/// What the program says when it is started without a model.
pub const USAGE: &'static str = "Please provide a path to the model file";

/// The path of the model file among the program's arguments: the first
/// argument behind the program's own name. `None` when it is missing, and
/// then nothing is to be started.
pub fn model_path(args: &Vec<String>) -> (path: Option<&String>)
    ensures
        args@.len() < 2 ==> path is None,
        args@.len() >= 2 ==> path == Some(&args@[1]),
{
    if args.len() < 2 {
        None
    } else {
        Some(&args[1])
    }
}

} // verus!
