//! The soundpad's command line: reading a typed line as a command, and the
//! reply that each command gets.

use crate::ids::uuid_text;
use crate::playback::{start_playback, ActiveSound};
use crate::storage::{Sound, SoundsConfig};
use crate::text::{split_words, string_views, words};
use vstd::prelude::*;

verus! {

broadcast use vstd::seq_lib::group_seq_properties;

/// A command the user typed.
#[derive(Debug)]
pub enum Command {
    /// Leave the soundpad.
    Exit,
    /// Set the audio pipeline up again.
    Restart,
    /// Upload the sound file at `path` under the name `name`.
    Upload { name: String, path: String },
    /// Show the uploaded sounds.
    List,
    /// Play the sound with the id the user typed.
    Play { id: String },
    /// A first word that names no command.
    Unknown { word: String },
}

/// Why a typed line is no complete command.
#[derive(Debug, Clone, Copy, PartialEq, Eq, Structural)]
pub enum CommandError {
    /// The line holds no word.
    NoCommand,
    /// `upload` without both a name and a path.
    MissingUploadArgs,
    /// `play` without a sound id.
    MissingSoundId,
}

/// The error of a line made of the words `ws`, if it has one.
pub open spec fn command_error_of(ws: Seq<Seq<char>>) -> Option<CommandError> {
    if ws.len() == 0 {
        Some(CommandError::NoCommand)
    } else if ws[0] == "upload"@ && ws.len() < 3 {
        Some(CommandError::MissingUploadArgs)
    } else if ws[0] == "play"@ && ws.len() < 2 {
        Some(CommandError::MissingSoundId)
    } else {
        None
    }
}

/// `c` is the command of a line made of the words `ws` (which has at least
/// one word): the first word picks the command, the following words are its
/// arguments, and words after those are ignored.
pub open spec fn is_command_for(c: Command, ws: Seq<Seq<char>>) -> bool {
    match c {
        Command::Exit => ws[0] == "exit"@,
        Command::Restart => ws[0] == "restart"@,
        Command::Upload { name, path } => ws[0] == "upload"@ && name@ == ws[1] && path@ == ws[2],
        Command::List => ws[0] == "list"@,
        Command::Play { id } => ws[0] == "play"@ && id@ == ws[1],
        Command::Unknown { word } => {
            &&& word@ == ws[0]
            &&& ws[0] != "exit"@
            &&& ws[0] != "restart"@
            &&& ws[0] != "upload"@
            &&& ws[0] != "list"@
            &&& ws[0] != "play"@
        },
    }
}

proof fn lemma_command_words_distinct()
    ensures
        "exit"@ != "restart"@,
        "exit"@ != "upload"@,
        "exit"@ != "list"@,
        "exit"@ != "play"@,
        "restart"@ != "upload"@,
        "restart"@ != "list"@,
        "restart"@ != "play"@,
        "upload"@ != "list"@,
        "upload"@ != "play"@,
        "list"@ != "play"@,
{
    reveal_strlit("exit");
    reveal_strlit("restart");
    reveal_strlit("upload");
    reveal_strlit("list");
    reveal_strlit("play");
    assert("exit"@[0] != "list"@[0]);
    assert("exit"@[0] != "play"@[0]);
    assert("list"@[0] != "play"@[0]);
    assert("restart"@[0] != "upload"@[0]);
}

fn word_is(w: &String, literal: &str) -> (b: bool)
    ensures
        b == (w@ == literal@),
{
    let l = literal.to_owned();
    *w == l
}

/// Reads a typed line as a command.
pub fn parse_command(line: &str) -> (r: Result<Command, CommandError>)
    ensures
        match r {
            Ok(c) => command_error_of(words(line@)) is None && is_command_for(c, words(line@)),
            Err(e) => command_error_of(words(line@)) == Some(e),
        },
{
    proof {
        lemma_command_words_distinct();
    }
    let ws = split_words(line);
    let ghost w = words(line@);
    assert(w.len() == ws@.len());
    if ws.len() == 0 {
        return Err(CommandError::NoCommand);
    }
    assert(w[0] == ws@[0]@);
    let first = &ws[0];
    if word_is(first, "exit") {
        Ok(Command::Exit)
    } else if word_is(first, "restart") {
        Ok(Command::Restart)
    } else if word_is(first, "upload") {
        if ws.len() < 3 {
            Err(CommandError::MissingUploadArgs)
        } else {
            assert(w[1] == ws@[1]@ && w[2] == ws@[2]@);
            Ok(Command::Upload { name: ws[1].clone(), path: ws[2].clone() })
        }
    } else if word_is(first, "list") {
        Ok(Command::List)
    } else if word_is(first, "play") {
        if ws.len() < 2 {
            Err(CommandError::MissingSoundId)
        } else {
            assert(w[1] == ws@[1]@);
            Ok(Command::Play { id: ws[1].clone() })
        }
    } else {
        Ok(Command::Unknown { word: first.clone() })
    }
}

// ---------------------------------------------------------------- replies

/// The message for a line that is no complete command.
pub open spec fn error_text(e: CommandError) -> Seq<char> {
    match e {
        CommandError::NoCommand => "No command entered"@,
        CommandError::MissingUploadArgs => "Provide name and path to file"@,
        CommandError::MissingSoundId => "Provide sound's uuid"@,
    }
}

/// The message for a line that is no complete command.
pub fn error_message(e: CommandError) -> (m: String)
    ensures
        m@ == error_text(e),
{
    match e {
        CommandError::NoCommand => "No command entered".to_owned(),
        CommandError::MissingUploadArgs => "Provide name and path to file".to_owned(),
        CommandError::MissingSoundId => "Provide sound's uuid".to_owned(),
    }
}

/// The reply to a first word that names no command.
pub open spec fn unknown_command_text(word: Seq<char>) -> Seq<char> {
    "No command \""@ + word + "\""@
}

/// The reply to a first word that names no command.
pub fn unknown_command_message(word: &str) -> (m: String)
    ensures
        m@ == unknown_command_text(word@),
{
    let mut m = "No command \"".to_owned();
    m.append(word);
    m.append("\"");
    m
}

/// The reply to a finished upload.
pub open spec fn upload_done_text(name: Seq<char>, id: Seq<char>) -> Seq<char> {
    "Uploaded "@ + name + " ("@ + id + ")"@
}

/// The reply to a finished upload of the sound `name` under the id `id`.
pub fn upload_done_message(name: &str, id: &str) -> (m: String)
    ensures
        m@ == upload_done_text(name@, id@),
{
    let mut m = "Uploaded ".to_owned();
    m.append(name);
    m.append(" (");
    m.append(id);
    m.append(")");
    m
}

/// The reply to a `play` command that started playback.
pub fn playing_message() -> (m: String)
    ensures
        m@ == "Playing..."@,
{
    "Playing...".to_owned()
}

/// The line that lists one sound.
pub open spec fn sound_line(s: Sound) -> Seq<char> {
    s.name@ + " ("@ + s.uuid@ + ")"@
}

/// Lines joined with a newline between each two.
pub open spec fn join_lines(lines: Seq<Seq<char>>) -> Seq<char>
    decreases lines.len(),
{
    if lines.len() == 0 {
        Seq::empty()
    } else if lines.len() == 1 {
        lines[0]
    } else {
        join_lines(lines.drop_last()) + "\n"@ + lines.last()
    }
}

/// The reply to `list`: one line per sound in catalogue order, or a notice
/// when there is none.
pub open spec fn list_text(sounds: Seq<Sound>) -> Seq<char> {
    if sounds.len() == 0 {
        "No sounds uploaded"@
    } else {
        join_lines(sounds.map_values(|s: Sound| sound_line(s)))
    }
}

/// The reply to `list`.
pub fn list_message(config: &SoundsConfig) -> (m: String)
    ensures
        m@ == list_text(config.sounds@),
{
    let n = config.sounds.len();
    if n == 0 {
        return "No sounds uploaded".to_owned();
    }
    let ghost lines = config.sounds@.map_values(|s: Sound| sound_line(s));
    let mut m = String::new();
    let mut i: usize = 0;
    assert(lines.take(0) =~= Seq::<Seq<char>>::empty());
    while i < n
        invariant
            n == config.sounds@.len(),
            lines == config.sounds@.map_values(|s: Sound| sound_line(s)),
            i <= n,
            m@ == join_lines(lines.take(i as int)),
        decreases n - i,
    {
        let s = &config.sounds[i];
        let ghost before = m@;
        if i > 0 {
            m.append("\n");
        }
        m.append(s.name.as_str());
        m.append(" (");
        m.append(s.uuid.as_str());
        m.append(")");
        assert(lines[i as int] == sound_line(*s));
        assert(lines.take(i + 1).drop_last() =~= lines.take(i as int));
        assert(lines.take(i + 1).last() == lines[i as int]);
        if i == 0 {
            assert(m@ =~= lines[0]);
            assert(lines.take(1) =~= seq![lines[0]]);
        } else {
            assert(m@ =~= before + "\n"@ + lines[i as int]);
        }
        i = i + 1;
    }
    assert(lines.take(n as int) =~= lines);
    m
}

/// The catalogue listing after a sound was added: the sound's full name,
/// ` (`, its id and `)` alone when it is the first sound, or else the old
/// listing, a newline and that line. With no sound, the listing is the
/// notice that none was uploaded.
pub proof fn law_listing_after_add(config: Seq<Sound>, s: Sound)
    ensures
        list_text(Seq::<Sound>::empty()) == "No sounds uploaded"@,
        list_text(config.push(s)) == if config.len() == 0 {
            s.name@ + " ("@ + s.uuid@ + ")"@
        } else {
            list_text(config) + "\n"@ + s.name@ + " ("@ + s.uuid@ + ")"@
        },
{
    let lines = config.push(s).map_values(|x: Sound| sound_line(x));
    assert(lines.drop_last() =~= config.map_values(|x: Sound| sound_line(x)));
    assert(lines.last() == sound_line(s));
    if config.len() == 0 {
        assert(lines.len() == 1);
    } else {
        assert(list_text(config) + "\n"@ + s.name@ + " ("@ + s.uuid@ + ")"@ =~= list_text(config)
            + "\n"@ + sound_line(s));
    }
}

// ---------------------------------------------------------------- the reply to a line

/// What the soundpad does in answer to a typed line.
#[derive(Debug)]
pub enum Reply {
    /// Leave the soundpad.
    Exit,
    /// Set the audio pipeline up again.
    Restart,
    /// Convert the file at `path` and add it to the catalogue as `name`.
    Upload { name: String, path: String },
    /// Play this sound from its start, and say so.
    Play(ActiveSound),
    /// Show this text.
    Show(String),
}

/// `r` answers a line made of the words `ws` when the catalogue holds
/// `sounds`.
pub open spec fn is_reply_for(r: Reply, ws: Seq<Seq<char>>, sounds: Seq<Sound>) -> bool {
    match command_error_of(ws) {
        Some(e) => r matches Reply::Show(m) && m@ == error_text(e),
        None => {
            if ws[0] == "exit"@ {
                r is Exit
            } else if ws[0] == "restart"@ {
                r is Restart
            } else if ws[0] == "upload"@ {
                r matches Reply::Upload { name, path } && name@ == ws[1] && path@ == ws[2]
            } else if ws[0] == "list"@ {
                r matches Reply::Show(m) && m@ == list_text(sounds)
            } else if ws[0] == "play"@ {
                match uuid_text(ws[1]) {
                    Some(t) => r matches Reply::Play(a) && a.uuid@ == t && a.position == 0,
                    None => r matches Reply::Show(m) && m@ == error_text(
                        CommandError::MissingSoundId,
                    ),
                }
            } else {
                r matches Reply::Show(m) && m@ == unknown_command_text(ws[0])
            }
        },
    }
}

/// Answers a typed line.
pub fn reply_to(config: &SoundsConfig, line: &str) -> (r: Reply)
    ensures
        is_reply_for(r, words(line@), config.sounds@),
{
    proof {
        lemma_command_words_distinct();
    }
    match parse_command(line) {
        Err(e) => Reply::Show(error_message(e)),
        Ok(Command::Exit) => Reply::Exit,
        Ok(Command::Restart) => Reply::Restart,
        Ok(Command::Upload { name, path }) => Reply::Upload { name, path },
        Ok(Command::List) => Reply::Show(list_message(config)),
        Ok(Command::Play { id }) => match start_playback(id.as_str()) {
            Some(a) => Reply::Play(a),
            None => Reply::Show(error_message(CommandError::MissingSoundId)),
        },
        Ok(Command::Unknown { word }) => Reply::Show(unknown_command_message(word.as_str())),
    }
}

} // verus!
