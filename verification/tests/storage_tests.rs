use open_soundpad_core::storage::{load_clips, ClipTable};
use open_soundpad_core::settings::{SoundpadSettings, CLIP_CHANNELS};
use open_soundpad_core::sounds::{conversion_args, CONVERTER_PROGRAM};
use open_soundpad_core::storage::{
    empty_sounds_config_text, loaded_clip_state, preload_sample_limit, retain_available,
    sound_file_name, sound_file_path, ClipState, Sound, SoundsConfig, StoragePaths,
    SOUNDS_CONFIG_FILE_NAME, SOUNDS_DIR_NAME,
};
use open_soundpad_core::ui::{screen, UIDevice};
use std::path::PathBuf;

fn sound(id: &str, name: &str) -> Sound {
    Sound { uuid: id.to_string(), name: name.to_string() }
}

#[test]
fn storage_paths_layout() {
    let p = StoragePaths::from_dirs(PathBuf::from("/cfg"), PathBuf::from("/data"));
    assert_eq!(p.config.root_dir, PathBuf::from("/cfg"));
    assert_eq!(p.config.sounds, PathBuf::from("/cfg").join("sounds.json"));
    assert_eq!(p.data.root_dir, PathBuf::from("/data"));
    assert_eq!(p.data.sounds_dir, PathBuf::from("/data").join("sounds"));
    assert_eq!(SOUNDS_CONFIG_FILE_NAME, "sounds.json");
    assert_eq!(SOUNDS_DIR_NAME, "sounds");
}

#[test]
fn sound_files_are_named_by_id() {
    assert_eq!(sound_file_name("abc"), "abc.wav");
    assert_eq!(
        sound_file_path(&PathBuf::from("/data/sounds"), "abc"),
        PathBuf::from("/data/sounds").join("abc.wav")
    );
}

#[test]
fn empty_catalogue() {
    assert_eq!(empty_sounds_config_text(), "{ \"sounds\": [] }");
    assert!(SoundsConfig::empty().sounds.is_empty());
}

#[test]
fn add_sound_appends() {
    let mut c = SoundsConfig::empty();
    c.add_sound("1".to_string(), "a".to_string());
    c.add_sound("2".to_string(), "b".to_string());
    assert_eq!(c.sounds.len(), 2);
    assert_eq!(c.sounds[1].uuid, "2");
    assert_eq!(c.sounds[1].name, "b");
}

#[test]
fn retain_keeps_available_sounds_in_order() {
    let mut v = vec![sound("1", "a"), sound("2", "b"), sound("3", "c"), sound("4", "d")];
    retain_available(&mut v, &vec![true, false, true, false]);
    let ids: Vec<&str> = v.iter().map(|s| s.uuid.as_str()).collect();
    assert_eq!(ids, vec!["1", "3"]);
    let mut w = vec![sound("1", "a")];
    retain_available(&mut w, &vec![false]);
    assert!(w.is_empty());
    let mut e: Vec<Sound> = Vec::new();
    retain_available(&mut e, &Vec::new());
    assert!(e.is_empty());
}

#[test]
fn preload_limits_and_clip_states() {
    assert_eq!(preload_sample_limit(5), 1_310_720);
    assert_eq!(preload_sample_limit(0), 0);
    assert_eq!(preload_sample_limit(4095), 4095 * 262_144);
    assert_eq!(loaded_clip_state(10, 100), ClipState::Preloaded { len: 10 });
    assert_eq!(loaded_clip_state(100, 100), ClipState::Partial { samples_read: 100 });
    assert_eq!(loaded_clip_state(0, 0), ClipState::Partial { samples_read: 0 });
}

#[test]
fn default_settings_and_buffer_sizes() {
    let s = SoundpadSettings::new(StoragePaths::from_dirs(PathBuf::from("c"), PathBuf::from("d")));
    assert_eq!(s.input_buffer_divider, 5);
    assert_eq!(s.output_buffer_divider, 5);
    assert_eq!(s.clip_buffer_multiplier, 2);
    assert_eq!(s.resampling_chunk_size, 2024);
    assert_eq!(s.resampling_start_delay_ms, 100);
    assert_eq!(s.resampling_buffer_fill_retry_delay_ms, 1);
    assert_eq!(s.max_preload_size_mb, 5);
    assert_eq!(s.input_buffer_len(48000, 2), 19200);
    assert_eq!(s.output_buffer_len(44100, 1), 8820);
    assert_eq!(s.clip_buffer_len(48000, 2), 192000);
    assert_eq!(s.preload_samples(), 1_310_720);
    assert_eq!(CLIP_CHANNELS, 2);
}

#[test]
fn converter_arguments() {
    assert_eq!(CONVERTER_PROGRAM, "ffmpeg");
    assert_eq!(
        conversion_args("in.mp3", "/d/x.wav"),
        vec![
            "-loglevel", "quiet", "-i", "in.mp3", "-ar", "48000", "-ac", "2", "-c:a", "pcm_f32le",
            "/d/x.wav"
        ]
    );
}

#[test]
fn screen_text_is_exact() {
    let input = UIDevice { name: "Mic".to_string(), rate: 48000, channels: 1 };
    let output = UIDevice { name: "CABLE Input".to_string(), rate: 44100, channels: 2 };
    let s = screen(&input, &output, "0.918750", "Playing...");
    let expected = format!(
        "{}[2J\n{}\n{}\n{}\n{}\n{}\n{}\n{}\n> ",
        27 as char,
        "Commands                                         | State",
        "  exit - exits soundpad                          |   Input: Mic (1 * 48000)",
        "  restart - restarts app                         |   Output: CABLE Input (2 * 44100)",
        "  upload x path_to_file - upload sound to slot x |   Ratio: 0.918750",
        "  play x - play sound x                          |   ",
        "  list - list sounds                             |   ",
        "Playing..."
    );
    assert_eq!(s, expected);
}

#[test]
fn clip_table_stores_and_replaces() {
    let mut t: ClipTable<u32> = ClipTable::new();
    assert_eq!(t.get("a"), None);
    t.insert("a", 1);
    t.insert("b", 2);
    assert_eq!(t.get("a"), Some(&1));
    assert_eq!(t.get("b"), Some(&2));
    t.insert("a", 3);
    assert_eq!(t.get("a"), Some(&3));
    assert_eq!(t.get("b"), Some(&2));
    assert_eq!(t.get("c"), None);
}

#[test]
fn load_clips_keeps_found_sounds() {
    let mut v = vec![sound("1", "a"), sound("2", "b"), sound("1", "c"), sound("3", "d")];
    let t = load_clips(&mut v, vec![Some(10u32), None, Some(30), None]);
    let ids: Vec<&str> = v.iter().map(|s| s.name.as_str()).collect();
    assert_eq!(ids, vec!["a", "c"]);
    assert_eq!(t.get("1"), Some(&30));
    assert_eq!(t.get("2"), None);
    assert_eq!(t.get("3"), None);
    let mut e: Vec<Sound> = Vec::new();
    let te = load_clips::<u32>(&mut e, Vec::new());
    assert!(e.is_empty());
    assert_eq!(te.get("1"), None);
}
