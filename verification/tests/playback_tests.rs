use open_soundpad_core::ids::new_sound_id;
use open_soundpad_core::playback::{pull_clip_sample, start_playback, ActiveSound, ClipPull};
use open_soundpad_core::storage::ClipState;

fn active(pos: usize) -> Option<ActiveSound> {
    Some(ActiveSound { uuid: "id".to_string(), position: pos })
}

#[test]
fn preloaded_clip_plays_in_order() {
    let clip = Some(ClipState::Preloaded { len: 3 });
    let mut a = active(0);
    assert_eq!(pull_clip_sample(&mut a, clip), ClipPull::Sample(0));
    assert_eq!(pull_clip_sample(&mut a, clip), ClipPull::Sample(1));
    assert_eq!(pull_clip_sample(&mut a, clip), ClipPull::Sample(2));
    assert_eq!(a.as_ref().unwrap().position, 3);
    assert_eq!(pull_clip_sample(&mut a, clip), ClipPull::Ended);
    assert!(a.is_none());
    assert_eq!(pull_clip_sample(&mut a, clip), ClipPull::Waiting);
    assert!(a.is_none());
}

#[test]
fn empty_clip_ends_at_once() {
    let mut a = active(0);
    assert_eq!(pull_clip_sample(&mut a, Some(ClipState::Preloaded { len: 0 })), ClipPull::Ended);
    assert!(a.is_none());
}

#[test]
fn other_clips_keep_the_sound_active() {
    let mut a = active(5);
    assert_eq!(pull_clip_sample(&mut a, None), ClipPull::Waiting);
    assert_eq!(pull_clip_sample(&mut a, Some(ClipState::NotLoaded)), ClipPull::Waiting);
    assert_eq!(
        pull_clip_sample(&mut a, Some(ClipState::Partial { samples_read: 10 })),
        ClipPull::PartialStandIn
    );
    assert_eq!(a.as_ref().unwrap().position, 5);
    assert_eq!(a.as_ref().unwrap().uuid, "id");
    let mut none: Option<ActiveSound> = None;
    assert_eq!(pull_clip_sample(&mut none, Some(ClipState::Preloaded { len: 4 })), ClipPull::Waiting);
}

#[test]
fn start_playback_reads_uuid_forms() {
    let canonical = "67e55044-10b1-426f-9247-bb680e5fe0c8";
    for form in [
        canonical,
        "67E55044-10B1-426F-9247-BB680E5FE0C8",
        "{67e55044-10b1-426f-9247-bb680e5fe0c8}",
        "urn:uuid:67e55044-10b1-426f-9247-bb680e5fe0c8",
        "67e5504410b1426f9247bb680e5fe0c8",
        "67E5504410B1426F9247BB680E5FE0C8",
        "{67E55044-10B1-426F-9247-BB680E5FE0C8}",
        "URN:UUID:67e55044-10b1-426f-9247-bb680e5fe0c8",
    ] {
        let a = start_playback(form).expect(form);
        assert_eq!(a.uuid, canonical);
        assert_eq!(a.position, 0);
    }
    assert!(start_playback("horn").is_none());
    assert!(start_playback("67e55044-10b1-426f-9247-bb680e5fe0cz").is_none());
    assert!(start_playback("").is_none());
    assert!(start_playback("(67e55044-10b1-426f-9247-bb680e5fe0c8)").is_none());
    assert!(start_playback("67e5504410b1426f9247bb680e5fe0cg").is_none());
    assert!(start_playback("urn:uid:67e55044-10b1-426f-9247-bb680e5fe0c8").is_none());
    assert!(start_playback("67e55044-10b1-426f-9247-bb680e5fe0c8 ").is_none());
}

#[test]
fn fresh_ids_are_canonical_and_playable() {
    let a = new_sound_id();
    let b = new_sound_id();
    assert_ne!(a, b);
    for id in [&a, &b] {
        assert_eq!(id.chars().count(), 36);
        for (i, c) in id.chars().enumerate() {
            if i == 8 || i == 13 || i == 18 || i == 23 {
                assert_eq!(c, '-');
            } else {
                assert!(c.is_ascii_digit() || ('a'..='f').contains(&c), "{}", id);
            }
        }
        assert_eq!(id.chars().nth(14), Some('4'));
        assert!(matches!(id.chars().nth(19), Some('8' | '9' | 'a' | 'b')));
        assert_eq!(start_playback(id).unwrap().uuid, *id);
    }
}
