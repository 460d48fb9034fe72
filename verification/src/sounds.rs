//! Uploading a sound: the external converter turns any audio file into the
//! stored format, 48 kHz stereo 32-bit float WAV.

use crate::text::string_views;
use vstd::prelude::*;

verus! {

/// The program that converts uploaded audio files.
pub const CONVERTER_PROGRAM: &'static str = "ffmpeg";

/// The converter's arguments that turn the file at `input` into the stored
/// format at `output`, quietly.
pub open spec fn conversion_args_text(input: Seq<char>, output: Seq<char>) -> Seq<Seq<char>> {
    seq![
        "-loglevel"@,
        "quiet"@,
        "-i"@,
        input,
        "-ar"@,
        "48000"@,
        "-ac"@,
        "2"@,
        "-c:a"@,
        "pcm_f32le"@,
        output,
    ]
}

/// Lists the converter's arguments for converting `input` into `output`.
pub fn conversion_args(input: &str, output: &str) -> (a: Vec<String>)
    ensures
        string_views(a@) == conversion_args_text(input@, output@),
{
    let mut a: Vec<String> = Vec::new();
    a.push("-loglevel".to_owned());
    a.push("quiet".to_owned());
    a.push("-i".to_owned());
    a.push(input.to_owned());
    a.push("-ar".to_owned());
    a.push("48000".to_owned());
    a.push("-ac".to_owned());
    a.push("2".to_owned());
    a.push("-c:a".to_owned());
    a.push("pcm_f32le".to_owned());
    a.push(output.to_owned());
    assert(string_views(a@) =~= conversion_args_text(input@, output@));
    a
}

} // verus!
