//! Pattern inputs, animation values and crash helper messages.

use tile_invalidation::animation::{
    AnimationDuration, AnimationRangeEnd, AnimationRangeStart, AnimationRangeValue,
    AnimationTimeline, GenericLengthPercentageOrAuto, ScrollAxis, ScrollFunction, Scroller,
    TimelineName, TimelineRangeName, ViewFunction, ViewTimelineInset, Zero,
};
use tile_invalidation::messages::{
    ChildProcessRendezVous, Kind, Message, TransferMinidump, UnregisterAuxvInfo,
    WindowsErrorReportingMinidumpReply,
};
use tile_invalidation::pattern::{
    PatternKind, PatternShaderInput, PatternTextureInput, RenderTaskId, NUM_PATTERNS,
};

#[test]
fn test_pattern_kind_numbers() {
    assert_eq!(NUM_PATTERNS, 4);
    assert_eq!(PatternKind::from_u32(0), PatternKind::ColorOrTexture);
    assert_eq!(PatternKind::from_u32(1), PatternKind::Gradient);
    assert_eq!(PatternKind::from_u32(2), PatternKind::Repeat);
    assert_eq!(PatternKind::from_u32(3), PatternKind::Mask);
    for n in 0..NUM_PATTERNS {
        assert_eq!(PatternKind::from_u32(n).to_u32(), n);
    }
}

#[test]
fn test_pattern_inputs() {
    assert_eq!(PatternShaderInput::default(), PatternShaderInput(0, 0));
    assert_eq!(PatternTextureInput::default().task_id, RenderTaskId { index: u32::MAX });
    assert_eq!(RenderTaskId::invalid(), RenderTaskId { index: u32::MAX });
    assert_eq!(PatternTextureInput::new(RenderTaskId { index: 5 }).task_id.index, 5);
}

#[test]
fn test_animation_duration() {
    let auto: AnimationDuration<u32> = AnimationDuration::auto();
    assert_eq!(auto, AnimationDuration::Auto);
    assert!(auto.is_auto());
    assert!(!auto.is_zero());
    assert!(!AnimationDuration::Time(3u32).is_auto());
    assert!(!AnimationDuration::Time(3u32).is_zero());
    assert!(AnimationDuration::Time(0u32).is_zero());
    assert_eq!(AnimationDuration::<u32>::zero(), AnimationDuration::Time(0));
    assert_eq!(AnimationDuration::<i32>::zero(), AnimationDuration::Time(0));
    assert!(0i32.is_zero());
    assert!(!(-1i32).is_zero());
}

#[test]
fn test_animation_timeline() {
    let auto: AnimationTimeline<u32> = AnimationTimeline::auto();
    assert_eq!(auto, AnimationTimeline::Auto);
    assert!(auto.is_auto());
    let named: AnimationTimeline<u32> = AnimationTimeline::Timeline(TimelineName("--t".into()));
    assert!(!named.is_auto());
    let scroll: AnimationTimeline<u32> = AnimationTimeline::Scroll(ScrollFunction {
        scroller: Scroller::Root,
        axis: ScrollAxis::Inline,
    });
    assert!(!scroll.is_auto());
    let view: AnimationTimeline<u32> = AnimationTimeline::View(ViewFunction {
        axis: ScrollAxis::Block,
        inset: ViewTimelineInset::default(),
    });
    assert!(!view.is_auto());
    assert!(ScrollAxis::Block.is_default());
    assert!(!ScrollAxis::Y.is_default());
}

#[test]
fn test_view_timeline_inset() {
    let inset: ViewTimelineInset<u32> = ViewTimelineInset::default();
    assert!(inset.is_auto());
    assert_eq!(inset.start, GenericLengthPercentageOrAuto::Auto);
    assert_eq!(inset.end, GenericLengthPercentageOrAuto::Auto);
    let start_only = ViewTimelineInset {
        start: GenericLengthPercentageOrAuto::LengthPercentage(5u32),
        end: GenericLengthPercentageOrAuto::auto(),
    };
    assert!(!start_only.is_auto());
    let end_only = ViewTimelineInset {
        start: GenericLengthPercentageOrAuto::auto(),
        end: GenericLengthPercentageOrAuto::LengthPercentage(5u32),
    };
    assert!(!end_only.is_auto());
    assert!(!GenericLengthPercentageOrAuto::LengthPercentage(0u32).is_auto());
}

#[test]
fn test_animation_range() {
    let normal: AnimationRangeValue<u32> = AnimationRangeValue::default();
    assert_eq!(normal.name, TimelineRangeName::Unnamed);
    assert_eq!(normal.lp, None);
    let lp = AnimationRangeValue::length_percentage(25u32);
    assert_eq!(lp.name, TimelineRangeName::Unnamed);
    assert_eq!(lp.lp, Some(25));
    let named = AnimationRangeValue::timeline_range(TimelineRangeName::Entry, 10u32);
    assert_eq!(named.name, TimelineRangeName::Entry);
    assert_eq!(named.lp, Some(10));
    assert_eq!(AnimationRangeStart::<u32>::default().0, normal);
    assert_eq!(AnimationRangeEnd::<u32>::default().0, normal);
}

#[test]
fn test_kind_bytes() {
    let kinds = [
        (1u8, Kind::SetCrashReportPath),
        (2, Kind::TransferMinidump),
        (3, Kind::TransferMinidumpReply),
        (4, Kind::GenerateMinidump),
        (5, Kind::GenerateMinidumpReply),
        (6, Kind::WindowsErrorReporting),
        (7, Kind::WindowsErrorReportingReply),
        (8, Kind::RegisterAuxvInfo),
        (9, Kind::UnregisterAuxvInfo),
        (10, Kind::RegisterChildProcess),
        (11, Kind::ChildProcessRendezVous),
        (12, Kind::ChildProcessRendezVousReply),
    ];
    for (byte, kind) in kinds {
        assert_eq!(Kind::from_u8(byte), Some(kind));
        assert_eq!(kind.to_u8(), byte);
    }
    assert_eq!(Kind::from_u8(0), None);
    for byte in 13..=255u8 {
        assert_eq!(Kind::from_u8(byte), None);
    }
}

#[test]
fn test_messages() {
    let transfer = TransferMinidump::new(42);
    assert_eq!(transfer.id, 42);
    assert_eq!(TransferMinidump::kind(), Kind::TransferMinidump);
    assert_eq!(transfer.payload_size(), 4);
    assert_eq!(transfer.ancillary_data_len(), 0);

    let reply = WindowsErrorReportingMinidumpReply::new();
    assert_eq!(reply, WindowsErrorReportingMinidumpReply::default());
    assert_eq!(WindowsErrorReportingMinidumpReply::kind(), Kind::WindowsErrorReportingReply);
    assert_eq!(reply.payload_size(), 0);
    assert_eq!(reply.ancillary_data_len(), 0);

    let unregister = UnregisterAuxvInfo::new(-3);
    assert_eq!(unregister.id, -3);
    assert_eq!(UnregisterAuxvInfo::kind(), Kind::UnregisterAuxvInfo);
    assert_eq!(unregister.payload_size(), 4);
    assert_eq!(unregister.ancillary_data_len(), 0);

    let rendezvous = ChildProcessRendezVous::new(1234);
    assert_eq!(rendezvous.crash_helper_pid, 1234);
    assert_eq!(ChildProcessRendezVous::kind(), Kind::ChildProcessRendezVous);
    assert_eq!(rendezvous.payload_size(), 4);
    assert_eq!(rendezvous.ancillary_data_len(), 0);
}
