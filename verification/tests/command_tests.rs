use open_soundpad_core::commands::{
    error_message, list_message, parse_command, playing_message, reply_to, unknown_command_message,
    upload_done_message, Command, CommandError, Reply,
};
use open_soundpad_core::storage::{Sound, SoundsConfig};

fn config(entries: &[(&str, &str)]) -> SoundsConfig {
    let mut c = SoundsConfig::empty();
    for (id, name) in entries {
        c.add_sound(id.to_string(), name.to_string());
    }
    c
}

#[test]
fn parse_exit_restart_list() {
    assert!(matches!(parse_command("exit"), Ok(Command::Exit)));
    assert!(matches!(parse_command("  exit now\n"), Ok(Command::Exit)));
    assert!(matches!(parse_command("restart\n"), Ok(Command::Restart)));
    assert!(matches!(parse_command("list"), Ok(Command::List)));
}

#[test]
fn parse_upload() {
    match parse_command("upload drum /tmp/drum.mp3 extra\n") {
        Ok(Command::Upload { name, path }) => {
            assert_eq!(name, "drum");
            assert_eq!(path, "/tmp/drum.mp3");
        }
        other => panic!("unexpected {:?}", other),
    }
    assert_eq!(parse_command("upload drum").unwrap_err(), CommandError::MissingUploadArgs);
    assert_eq!(parse_command("upload").unwrap_err(), CommandError::MissingUploadArgs);
}

#[test]
fn parse_play() {
    match parse_command("play 1234") {
        Ok(Command::Play { id }) => assert_eq!(id, "1234"),
        other => panic!("unexpected {:?}", other),
    }
    assert_eq!(parse_command("play\n").unwrap_err(), CommandError::MissingSoundId);
}

#[test]
fn parse_empty_and_unknown() {
    assert_eq!(parse_command("").unwrap_err(), CommandError::NoCommand);
    assert_eq!(parse_command(" \t\n").unwrap_err(), CommandError::NoCommand);
    match parse_command("Exit") {
        Ok(Command::Unknown { word }) => assert_eq!(word, "Exit"),
        other => panic!("unexpected {:?}", other),
    }
    match parse_command("stop it") {
        Ok(Command::Unknown { word }) => assert_eq!(word, "stop"),
        other => panic!("unexpected {:?}", other),
    }
}

#[test]
fn messages_are_exact() {
    assert_eq!(error_message(CommandError::NoCommand), "No command entered");
    assert_eq!(error_message(CommandError::MissingUploadArgs), "Provide name and path to file");
    assert_eq!(error_message(CommandError::MissingSoundId), "Provide sound's uuid");
    assert_eq!(unknown_command_message("stop"), "No command \"stop\"");
    assert_eq!(upload_done_message("drum", "abc"), "Uploaded drum (abc)");
    assert_eq!(playing_message(), "Playing...");
}

#[test]
fn listing_is_one_line_per_sound() {
    assert_eq!(list_message(&config(&[])), "No sounds uploaded");
    assert_eq!(list_message(&config(&[("id1", "a")])), "a (id1)");
    assert_eq!(
        list_message(&config(&[("id1", "a"), ("id2", "b b")])),
        "a (id1)\nb b (id2)"
    );
}

#[test]
fn listing_after_add_ends_with_new_sound() {
    let mut c = config(&[("id1", "a"), ("id2", "b")]);
    let before = list_message(&c);
    c.add_sound("id3".to_string(), "c".to_string());
    assert_eq!(list_message(&c), format!("{}\n{}", before, "c (id3)"));
    let mut e = SoundsConfig::empty();
    e.add_sound("x".to_string(), "first".to_string());
    assert_eq!(list_message(&e), "first (x)");
}

#[test]
fn reply_to_each_command() {
    let c = config(&[("67e55044-10b1-426f-9247-bb680e5fe0c8", "horn")]);
    assert!(matches!(reply_to(&c, "exit\n"), Reply::Exit));
    assert!(matches!(reply_to(&c, "restart"), Reply::Restart));
    match reply_to(&c, "upload horn2 ./horn.wav\n") {
        Reply::Upload { name, path } => {
            assert_eq!(name, "horn2");
            assert_eq!(path, "./horn.wav");
        }
        other => panic!("unexpected {:?}", other),
    }
    match reply_to(&c, "list\n") {
        Reply::Show(m) => assert_eq!(m, "horn (67e55044-10b1-426f-9247-bb680e5fe0c8)"),
        other => panic!("unexpected {:?}", other),
    }
    match reply_to(&c, "play 67E55044-10B1-426F-9247-BB680E5FE0C8\n") {
        Reply::Play(a) => {
            assert_eq!(a.uuid, "67e55044-10b1-426f-9247-bb680e5fe0c8");
            assert_eq!(a.position, 0);
        }
        other => panic!("unexpected {:?}", other),
    }
    match reply_to(&c, "play horn") {
        Reply::Show(m) => assert_eq!(m, "Provide sound's uuid"),
        other => panic!("unexpected {:?}", other),
    }
    match reply_to(&c, "play") {
        Reply::Show(m) => assert_eq!(m, "Provide sound's uuid"),
        other => panic!("unexpected {:?}", other),
    }
    match reply_to(&c, "upload x") {
        Reply::Show(m) => assert_eq!(m, "Provide name and path to file"),
        other => panic!("unexpected {:?}", other),
    }
    match reply_to(&c, "\n") {
        Reply::Show(m) => assert_eq!(m, "No command entered"),
        other => panic!("unexpected {:?}", other),
    }
    match reply_to(&c, "volume 3") {
        Reply::Show(m) => assert_eq!(m, "No command \"volume\""),
        other => panic!("unexpected {:?}", other),
    }
    let empty = SoundsConfig { sounds: Vec::<Sound>::new() };
    match reply_to(&empty, "list") {
        Reply::Show(m) => assert_eq!(m, "No sounds uploaded"),
        other => panic!("unexpected {:?}", other),
    }
}
