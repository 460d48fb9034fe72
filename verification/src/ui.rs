//! The text screen: the command help on the left, the state of the audio
//! devices on the right, and the reply to the last command below.

use crate::text::{append_decimal, decimal_text};
use vstd::prelude::*;

verus! {

/// An audio device as the screen shows it.
#[derive(Debug)]
pub struct UIDevice {
    pub name: String,
    pub rate: u32,
    pub channels: u16,
}

/// A device's state: its name, then its channel count and sample rate.
pub open spec fn device_state_text(d: UIDevice) -> Seq<char> {
    d.name@ + " ("@ + decimal_text(d.channels as nat) + " * "@ + decimal_text(d.rate as nat)
        + ")"@
}

/// Appends a device's state to `out`.
pub fn append_device_state(out: &mut String, d: &UIDevice)
    ensures
        final(out)@ == old(out)@ + device_state_text(*d),
{
    let ghost start = out@;
    out.append(d.name.as_str());
    out.append(" (");
    append_decimal(out, d.channels as u64);
    out.append(" * ");
    append_decimal(out, d.rate as u64);
    out.append(")");
    assert(out@ =~= start + device_state_text(*d));
}

/// The whole screen, from the code that clears the terminal to the prompt,
/// where `ratio` is the resampling ratio already written out and `last` the
/// reply to the last command.
pub open spec fn screen_text(
    input: UIDevice,
    output: UIDevice,
    ratio: Seq<char>,
    last: Seq<char>,
) -> Seq<char> {
    "\u{1b}[2J\n"@ + "Commands                                         | State\n"@
        + "  exit - exits soundpad                          |   Input: "@ + device_state_text(
        input,
    ) + "\n"@ + "  restart - restarts app                         |   Output: "@
        + device_state_text(output) + "\n"@
        + "  upload x path_to_file - upload sound to slot x |   Ratio: "@ + ratio + "\n"@
        + "  play x - play sound x                          |   \n"@
        + "  list - list sounds                             |   \n"@ + last + "\n"@ + "> "@
}

/// Builds the screen.
pub fn screen(input: &UIDevice, output: &UIDevice, ratio: &str, last: &str) -> (s: String)
    ensures
        s@ == screen_text(*input, *output, ratio@, last@),
{
    let mut s = "\u{1b}[2J\n".to_owned();
    s.append("Commands                                         | State\n");
    s.append("  exit - exits soundpad                          |   Input: ");
    append_device_state(&mut s, input);
    s.append("\n");
    s.append("  restart - restarts app                         |   Output: ");
    append_device_state(&mut s, output);
    s.append("\n");
    s.append("  upload x path_to_file - upload sound to slot x |   Ratio: ");
    s.append(ratio);
    s.append("\n");
    s.append("  play x - play sound x                          |   \n");
    s.append("  list - list sounds                             |   \n");
    s.append(last);
    s.append("\n");
    s.append("> ");
    s
}

} // verus!
