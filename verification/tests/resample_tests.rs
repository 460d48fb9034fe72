use open_soundpad_core::resample::hands_on_again;
use open_soundpad_core::resample::{
    channel_conversion, push_plan, samples_in_frames, ChannelConversion, ChunkCollector,
    CollectAction, PushStep,
};

#[test]
fn conversions_by_channel_counts() {
    assert_eq!(channel_conversion(2, 2), ChannelConversion::Same);
    assert_eq!(channel_conversion(6, 6), ChannelConversion::Same);
    assert_eq!(channel_conversion(1, 2), ChannelConversion::MonoToStereo);
    assert_eq!(channel_conversion(2, 1), ChannelConversion::StereoToMono);
    assert_eq!(channel_conversion(1, 6), ChannelConversion::Unsupported);
    assert_eq!(channel_conversion(6, 2), ChannelConversion::Unsupported);
}

#[test]
fn push_plans() {
    assert_eq!(
        push_plan(ChannelConversion::Same, 3),
        vec![PushStep::Once(0), PushStep::Once(1), PushStep::Once(2)]
    );
    assert_eq!(
        push_plan(ChannelConversion::MonoToStereo, 2),
        vec![PushStep::Twice(0), PushStep::Twice(1)]
    );
    assert_eq!(
        push_plan(ChannelConversion::StereoToMono, 5),
        vec![PushStep::Mean(0, 1), PushStep::Mean(2, 3)]
    );
    assert_eq!(push_plan(ChannelConversion::Unsupported, 8), Vec::<PushStep>::new());
    assert_eq!(push_plan(ChannelConversion::Same, 0), Vec::<PushStep>::new());
}

fn pushed(plan: &[PushStep]) -> usize {
    plan.iter().map(|s| if let PushStep::Twice(_) = s { 2 } else { 1 }).sum()
}

#[test]
fn conversion_keeps_frame_count() {
    for (i, o) in [(1usize, 1usize), (2, 2), (1, 2), (2, 1)] {
        for frames in [0usize, 1, 7, 512] {
            let plan = push_plan(channel_conversion(i, o), samples_in_frames(frames, i));
            assert_eq!(pushed(&plan), frames * o);
        }
    }
}

#[test]
fn collector_processes_full_chunks() {
    let mut c = ChunkCollector::new(3, 2);
    assert_eq!(c.samples_to_read, 6);
    assert_eq!(c.on_pop(false), CollectAction::Wait);
    assert_eq!(c.collected, 0);
    for _ in 0..5 {
        assert_eq!(c.on_pop(true), CollectAction::Collect);
    }
    assert_eq!(c.on_pop(true), CollectAction::Process);
    assert_eq!(c.collected, 6);
    c.on_chunk_done(2, 1);
    assert_eq!(c.collected, 0);
    assert_eq!(c.samples_to_read, 2);
    assert_eq!(c.on_pop(true), CollectAction::Collect);
    assert_eq!(c.on_pop(true), CollectAction::Process);
}

#[test]
fn collector_with_empty_chunks_processes_each_sample() {
    let mut c = ChunkCollector::new(0, 2);
    assert_eq!(c.on_pop(true), CollectAction::Process);
}

#[test]
fn only_accepted_twice_steps_repeat() {
    assert!(hands_on_again(PushStep::Twice(3), true));
    assert!(!hands_on_again(PushStep::Twice(3), false));
    assert!(!hands_on_again(PushStep::Once(3), true));
    assert!(!hands_on_again(PushStep::Mean(0, 1), true));
}
