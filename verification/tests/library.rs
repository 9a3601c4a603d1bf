use animtree::Context;
use animtree::DrawCmd;
use animtree::Dur;
use animtree::Element;
use animtree::FrameLength;
use animtree::Image;
use animtree::Interval;
use animtree::LuaScript;
use animtree::Position;
use animtree::SeekOutcome;
use animtree::StructuralError;
use animtree::Timeline;
use animtree::TimelineElement;
use animtree::Transform;
use animtree::ValueProvider;
use animtree::Vec2;

use std::cmp::Ordering;

fn secs(s: u64) -> Dur {
    Dur::from_secs(s)
}

fn half_secs(h: u64) -> Dur {
    Dur::from_millis(h * 500)
}

fn context_at(offset: Dur) -> Context {
    Context {
        duration_from_start: offset,
        duration_offset: offset,
        transform: Transform::identity(),
    }
}

fn loaded_image(path: &str, w: u32, h: u32) -> Image {
    let mut image = Image::new(path.to_string());
    image.attach_texture(Vec2::new(w, h));
    image
}

#[test]
fn limited_orders_by_duration() {
    let d1 = secs(1);
    let d2 = secs(2);
    assert_eq!(
        FrameLength::Limited(d1).partial_cmp(&FrameLength::Limited(d2)),
        Some(Ordering::Less)
    );
    assert!(FrameLength::Limited(d1) < FrameLength::Limited(d2));
    assert_eq!(
        FrameLength::Limited(d2).partial_cmp(&FrameLength::Limited(d1)),
        Some(Ordering::Greater)
    );
    assert_eq!(
        FrameLength::Limited(d1).partial_cmp(&FrameLength::Limited(d1)),
        Some(Ordering::Equal)
    );
}

#[test]
fn consistent_below_limited_below_forever() {
    let d = secs(3);
    assert!(FrameLength::Consistent < FrameLength::Limited(d));
    assert!(FrameLength::Limited(d) < FrameLength::Forever);
    assert!(FrameLength::Consistent < FrameLength::Forever);
}

#[test]
fn end_incomparable_with_itself() {
    assert_eq!(FrameLength::End.partial_cmp(&FrameLength::End), None);
    // `End` is still below everything else, `Consistent` included
    assert_eq!(
        FrameLength::End.partial_cmp(&FrameLength::Consistent),
        Some(Ordering::Less)
    );
    assert_eq!(
        FrameLength::Consistent.partial_cmp(&FrameLength::End),
        Some(Ordering::Greater)
    );
    assert_eq!(
        FrameLength::End.partial_cmp(&FrameLength::Limited(secs(1))),
        Some(Ordering::Less)
    );
    assert_eq!(
        FrameLength::Forever.partial_cmp(&FrameLength::End),
        Some(Ordering::Greater)
    );
}

#[test]
fn folding_clamps_forever_to_bound() {
    let bound = secs(2);
    assert_eq!(
        FrameLength::Forever.fold_with_remaining(bound),
        FrameLength::Limited(bound)
    );
}

#[test]
fn folding_clamps_limited_to_minimum() {
    let bound = secs(2);
    assert_eq!(
        FrameLength::Limited(secs(1)).fold_with_remaining(bound),
        FrameLength::Limited(secs(1))
    );
    assert_eq!(
        FrameLength::Limited(secs(5)).fold_with_remaining(bound),
        FrameLength::Limited(bound)
    );
    assert_eq!(
        FrameLength::Consistent.fold_with_remaining(bound),
        FrameLength::Consistent
    );
    assert_eq!(FrameLength::End.fold_with_remaining(bound), FrameLength::End);
}

#[test]
fn min_takes_the_more_urgent_hint() {
    let d = secs(1);
    assert_eq!(
        FrameLength::Limited(d).min(FrameLength::Forever),
        FrameLength::Limited(d)
    );
    assert_eq!(
        FrameLength::Forever.min(FrameLength::Consistent),
        FrameLength::Consistent
    );
    assert_eq!(
        FrameLength::End.min(FrameLength::Consistent),
        FrameLength::End
    );
    // the terminal marker wins the minimum from either side
    assert_eq!(
        FrameLength::Consistent.min(FrameLength::End),
        FrameLength::End
    );
    // two `End`s count as equal for the minimum, unlike for the order
    assert_eq!(FrameLength::End.min(FrameLength::End), FrameLength::End);
}

#[test]
fn append_into_empty_timeline() {
    let mut timeline = Timeline::default();
    let element = TimelineElement::new(Element::Image(Image::new("a.png".to_string())));
    let r = timeline.append(element, Interval::new(secs(0), secs(1)));
    assert!(r.is_ok());
    let elements = timeline.get_elements();
    assert_eq!(elements.len(), 1);
    assert_eq!(elements[0].0, Interval::new(secs(0), secs(1)));
    assert_eq!(elements[0].1.start, Dur::from_nanos(0));
}

#[test]
fn append_splits_a_covering_interval() {
    let mut timeline = Timeline::default();
    let original = TimelineElement::new(Element::Image(Image::new("a.png".to_string())));
    timeline
        .append(original, Interval::new(secs(0), secs(3)))
        .unwrap();
    let incoming = TimelineElement::new(Element::Image(Image::new("b.png".to_string())));
    timeline
        .append(incoming, Interval::new(secs(1), secs(2)))
        .unwrap();

    let elements = timeline.get_elements();
    assert_eq!(elements.len(), 3);
    // surviving prefix: [0s,1s) with the local clock unchanged
    assert_eq!(elements[0].0, Interval::new(secs(0), secs(1)));
    assert_eq!(elements[0].1.start, secs(0));
    // the spliced-in interval sits at its sorted position
    assert_eq!(elements[1].0, Interval::new(secs(1), secs(2)));
    // surviving suffix: [2s,3s) with the local clock advanced by 2s
    assert_eq!(elements[2].0, Interval::new(secs(2), secs(3)));
    assert_eq!(elements[2].1.start, secs(2));
}

#[test]
fn append_drops_fully_covered_intervals() {
    let mut timeline = Timeline::default();
    let a = TimelineElement::new(Element::Image(Image::new("a.png".to_string())));
    timeline.append(a, Interval::new(secs(1), secs(2))).unwrap();
    let b = TimelineElement::new(Element::Image(Image::new("b.png".to_string())));
    timeline.append(b, Interval::new(secs(0), secs(3))).unwrap();
    let elements = timeline.get_elements();
    assert_eq!(elements.len(), 1);
    assert_eq!(elements[0].0, Interval::new(secs(0), secs(3)));
}

#[test]
fn append_cuts_the_head_of_a_straddled_interval() {
    let mut timeline = Timeline::default();
    let a = TimelineElement::new(Element::Image(Image::new("a.png".to_string())));
    timeline.append(a, Interval::new(secs(1), secs(3))).unwrap();
    let b = TimelineElement::new(Element::Image(Image::new("b.png".to_string())));
    timeline.append(b, Interval::new(secs(0), secs(2))).unwrap();
    let elements = timeline.get_elements();
    assert_eq!(elements.len(), 2);
    assert_eq!(elements[0].0, Interval::new(secs(0), secs(2)));
    // the obscured head pauses the survivor's clock for one second
    assert_eq!(elements[1].0, Interval::new(secs(2), secs(3)));
    assert_eq!(elements[1].1.start, secs(1));
}

#[test]
fn append_cuts_the_tail_of_a_straddled_interval() {
    let mut timeline = Timeline::default();
    let a = TimelineElement::new(Element::Image(Image::new("a.png".to_string())));
    timeline.append(a, Interval::new(secs(1), secs(3))).unwrap();
    let b = TimelineElement::new(Element::Image(Image::new("b.png".to_string())));
    timeline.append(b, Interval::new(secs(2), secs(4))).unwrap();
    let elements = timeline.get_elements();
    assert_eq!(elements.len(), 2);
    assert_eq!(elements[0].0, Interval::new(secs(1), secs(2)));
    assert_eq!(elements[0].1.start, secs(0));
    assert_eq!(elements[1].0, Interval::new(secs(2), secs(4)));
}

#[test]
fn interval_contains_is_half_open() {
    let interval = Interval::new(secs(1), secs(2));
    assert!(!interval.contains(half_secs(1)));
    assert!(interval.contains(secs(1)));
    assert!(interval.contains(half_secs(3)));
    assert!(!interval.contains(secs(2)));
}

#[test]
fn append_refuses_an_inverted_range() {
    let mut timeline = Timeline::default();
    let element = TimelineElement::new(Element::Image(Image::new("a.png".to_string())));
    let r = timeline.append(element, Interval::new(secs(2), secs(1)));
    assert_eq!(r, Err(StructuralError::InvalidRange));
    assert_eq!(timeline.get_elements().len(), 0);
}

#[test]
fn append_refuses_an_unrepresentable_clock() {
    let mut timeline = Timeline::default();
    let mut element = TimelineElement::new(Element::Image(Image::new("a.png".to_string())));
    element.start = Dur::from_nanos(u64::MAX);
    let r = timeline.append(element, Interval::new(secs(0), secs(1)));
    assert_eq!(r, Err(StructuralError::DurationOverflow));
}

#[test]
fn push_appends_after_the_last_interval() {
    let mut timeline = Timeline::default();
    let a = TimelineElement::new(Element::Image(Image::new("a.png".to_string())));
    timeline.push(a, Interval::new(secs(0), secs(1))).unwrap();
    let b = TimelineElement::new(Element::Image(Image::new("b.png".to_string())));
    timeline.push(b, Interval::new(secs(1), secs(2))).unwrap();
    assert_eq!(timeline.get_elements().len(), 2);

    let c = TimelineElement::new(Element::Image(Image::new("c.png".to_string())));
    let r = timeline.push(c, Interval::new(half_secs(3), secs(3)));
    assert_eq!(r, Err(StructuralError::OverlapsExisting));
    assert_eq!(timeline.get_elements().len(), 2);
}

#[test]
fn shift_and_insert_moves_later_intervals() {
    let mut timeline = Timeline::default();
    let a = TimelineElement::new(Element::Image(Image::new("a.png".to_string())));
    timeline.push(a, Interval::new(secs(0), secs(1))).unwrap();
    let b = TimelineElement::new(Element::Image(Image::new("b.png".to_string())));
    timeline.push(b, Interval::new(secs(1), secs(2))).unwrap();

    let inserted = TimelineElement::new(Element::Image(Image::new("c.png".to_string())));
    timeline
        .shift_and_insert(inserted, Interval::new(secs(1), secs(2)))
        .unwrap();

    let elements = timeline.get_elements();
    assert_eq!(elements.len(), 3);
    assert_eq!(elements[0].0, Interval::new(secs(0), secs(1)));
    assert_eq!(elements[1].0, Interval::new(secs(1), secs(2)));
    assert_eq!(elements[2].0, Interval::new(secs(2), secs(3)));
    // the shifted child keeps its own clock origin
    assert_eq!(elements[2].1.start, secs(0));
}

#[test]
fn shift_and_insert_refuses_a_straddled_point() {
    let mut timeline = Timeline::default();
    let a = TimelineElement::new(Element::Image(Image::new("a.png".to_string())));
    timeline.push(a, Interval::new(secs(0), secs(2))).unwrap();
    let b = TimelineElement::new(Element::Image(Image::new("b.png".to_string())));
    let r = timeline.shift_and_insert(b, Interval::new(secs(1), secs(3)));
    assert_eq!(r, Err(StructuralError::OverlapsExisting));
    assert_eq!(timeline.get_elements().len(), 1);
}

#[test]
fn position_adds_offset_to_child_size() {
    let position = Position {
        inner: Box::new(Element::Image(loaded_image("a.png", 5, 5))),
        position: ValueProvider::Constant(Vec2::new(10, 10)),
    };
    let (size, hint) = position.get_size(&context_at(secs(0)));
    assert_eq!(size, Vec2::new(15, 15));
    assert_eq!(hint, FrameLength::Forever);
}

#[test]
fn position_translates_the_draw_transform() {
    let position = Position {
        inner: Box::new(Element::Image(loaded_image("a.png", 5, 5))),
        position: ValueProvider::Constant(Vec2::new(3, 4)),
    };
    let mut out: Vec<DrawCmd> = Vec::new();
    let hint = position.draw(&context_at(secs(0)), &mut out);
    assert_eq!(hint, FrameLength::Forever);
    assert_eq!(out.len(), 1);
    match &out[0] {
        DrawCmd::Texture { path, transform } => {
            assert_eq!(path, "a.png");
            assert_eq!(*transform, Transform { x: 3, y: 4 });
        }
        other => panic!("expected a texture command, got {:?}", other),
    }
}

#[test]
fn timeline_seek_rebases_the_child_clock() {
    let mut timeline = Timeline::default();
    let element = TimelineElement::new(Element::Image(Image::new("a.png".to_string())));
    timeline
        .append(element, Interval::new(secs(1), secs(2)))
        .unwrap();
    match timeline.get_context_and_element(&context_at(half_secs(3))) {
        SeekOutcome::Active {
            index,
            child_context,
        } => {
            assert_eq!(index, 0);
            assert_eq!(child_context.duration_offset, half_secs(1));
        }
        other => panic!("expected the interval to be active, got {:?}", other),
    }
}

#[test]
fn timeline_seek_pending_and_idle() {
    let mut timeline = Timeline::default();
    let element = TimelineElement::new(Element::Image(Image::new("a.png".to_string())));
    timeline
        .append(element, Interval::new(secs(1), secs(2)))
        .unwrap();
    match timeline.get_context_and_element(&context_at(secs(0))) {
        SeekOutcome::Pending { index } => assert_eq!(index, 0),
        other => panic!("expected a pending interval, got {:?}", other),
    }
    match timeline.get_context_and_element(&context_at(secs(5))) {
        SeekOutcome::Idle => {}
        other => panic!("expected an idle timeline, got {:?}", other),
    }
    let (size, hint) = timeline.get_size(&context_at(secs(0)));
    assert_eq!(size, Vec2::new(0, 0));
    assert_eq!(hint, FrameLength::Limited(secs(1)));
}

#[test]
fn drawing_is_clamped_to_the_interval_boundary() {
    let mut timeline = Timeline::default();
    let a = TimelineElement::new(Element::Image(loaded_image("a.png", 8, 8)));
    timeline.append(a, Interval::new(secs(0), secs(1))).unwrap();
    let b = TimelineElement::new(Element::Image(loaded_image("b.png", 8, 8)));
    timeline.append(b, Interval::new(secs(1), secs(2))).unwrap();

    // the active child reports Forever, yet the hint is clamped to the
    // half second left in its interval
    let mut out: Vec<DrawCmd> = Vec::new();
    let hint = timeline.draw(&context_at(half_secs(1)), &mut out);
    assert_eq!(hint, FrameLength::Limited(half_secs(1)));
    assert_eq!(out.len(), 1);

    // past both intervals nothing is drawn and no redraw is scheduled
    let mut out: Vec<DrawCmd> = Vec::new();
    let hint = timeline.draw(&context_at(half_secs(5)), &mut out);
    assert_eq!(hint, FrameLength::Forever);
    assert!(out.is_empty());
}

#[test]
fn unloaded_image_reports_placeholder_and_retry() {
    let image = Image::new("missing.png".to_string());
    let (size, hint) = image.get_size(&context_at(secs(0)));
    assert_eq!(size, Vec2::new(0, 0));
    assert_eq!(
        hint,
        FrameLength::Limited(Dur::from_nanos(animtree::RETRY_DELAY_NANOS))
    );
    let mut out: Vec<DrawCmd> = Vec::new();
    let draw_hint = image.draw(&context_at(secs(0)), &mut out);
    assert_eq!(draw_hint, hint);
    assert_eq!(out.len(), 1);
    match &out[0] {
        DrawCmd::Placeholder { transform } => assert_eq!(*transform, Transform { x: 0, y: 0 }),
        other => panic!("expected a placeholder command, got {:?}", other),
    }
}

#[test]
fn texture_attaches_at_most_once() {
    let mut image = Image::new("a.png".to_string());
    assert!(!image.is_loaded());
    image.attach_texture(Vec2::new(4, 4));
    assert!(image.is_loaded());
    image.attach_texture(Vec2::new(9, 9));
    let (size, hint) = image.get_size(&context_at(secs(0)));
    assert_eq!(size, Vec2::new(4, 4));
    assert_eq!(hint, FrameLength::Forever);
}

#[test]
fn clone_resets_every_texture_cache() {
    let mut timeline = Timeline::default();
    let element = TimelineElement::new(Element::Image(loaded_image("a.png", 6, 6)));
    timeline
        .append(element, Interval::new(secs(0), secs(1)))
        .unwrap();
    let copy = timeline.clone();
    match &copy.get_elements()[0].1.inner.as_ref() {
        Element::Image(image) => {
            assert!(!image.is_loaded());
            assert_eq!(image.path(), "a.png");
        }
        other => panic!("expected an image child, got {:?}", other),
    }
    // the original's cache is untouched
    match &timeline.get_elements()[0].1.inner.as_ref() {
        Element::Image(image) => assert!(image.is_loaded()),
        other => panic!("expected an image child, got {:?}", other),
    }
}

#[test]
fn well_formedness_is_checkable_at_runtime() {
    let mut timeline = Timeline::default();
    let a = TimelineElement::new(Element::Image(Image::new("a.png".to_string())));
    timeline.append(a, Interval::new(secs(0), secs(1))).unwrap();
    let root = Element::Timeline(timeline);
    assert!(root.is_well_formed());
}

#[test]
fn constant_provider_reports_forever() {
    let provider: ValueProvider<Vec2> = ValueProvider::Constant(Vec2::new(7, 7));
    let (value, hint) = provider.get(&context_at(secs(0)));
    assert_eq!(value, Vec2::new(7, 7));
    assert_eq!(hint, FrameLength::Forever);
}

#[test]
fn vector_addition_saturates() {
    let near_max = Vec2::new(u32::MAX, 0);
    let sum = near_max.saturating_add(Vec2::new(1, 1));
    assert_eq!(sum, Vec2::new(u32::MAX, 1));
}

#[test]
fn durations_convert_exactly() {
    assert_eq!(Dur::from_secs(1), Dur::from_nanos(1_000_000_000));
    assert_eq!(Dur::from_millis(1_500), Dur::from_nanos(1_500_000_000));
}

#[test]
fn lua_script_keeps_its_source() {
    let script = LuaScript::new("return 1".to_string());
    assert_eq!(script.source(), "return 1");
}
