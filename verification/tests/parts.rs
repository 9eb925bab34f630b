use v6prac::edge::{copy_state, inputs_changed, Edge};
use v6prac::metrics::sampling_rate;
use v6prac::reconstruct::{estimate_held, HeldEstimate};
use v6prac::sampler::{gate_open, get_pressed_keys};
use v6prac::keys::{
    create_actions, display_char, holds_key, keycode_to_char, DisplayChar, DisplayableAction, Key,
};
use v6prac::config::RateLimit;
use v6prac::selection::{Selection, SelectionStep};
use v6prac::timeline::Timeline;

const MS: u64 = 1_000_000;

fn edge(timestamp: u64, dt_before: u64, dt_after: Option<u64>) -> Edge {
    Edge { timestamp, state: vec![true], dt_before, dt_after }
}

#[test]
fn held_frame_estimate_of_the_documented_pair() {
    let edge1 = edge(10 * MS, 10 * MS, Some(20 * MS));
    let edge2 = edge(60 * MS, 20 * MS, None);
    let est = estimate_held(&edge1, &edge2).unwrap();
    assert_eq!(est, HeldEstimate { min_nanos_held: 30 * MS, epsilon_nanos: 15 * MS });
    assert_eq!(est.held_nanos(), 45_000_000);
    assert_eq!(est.whole_frames(34 * MS), Some(1));
    assert_eq!(est.held_hundredths(34 * MS), Some(132));
    assert_eq!(est.uncertainty_hundredths(34 * MS), Some(44));
    let frames = est.held_nanos() as f64 / (34 * MS) as f64;
    assert!((frames - 1.3235).abs() < 0.001);
    let uncertainty = est.epsilon_nanos as f64 / (34 * MS) as f64;
    assert!((uncertainty - 0.4412).abs() < 0.001);
}

#[test]
fn estimate_needs_a_known_interval_that_fits() {
    assert_eq!(estimate_held(&edge(10, 3, None), &edge(60, 5, None)), None);
    assert_eq!(estimate_held(&edge(61, 3, Some(0)), &edge(60, 5, None)), None);
    assert_eq!(estimate_held(&edge(10, 3, Some(51)), &edge(60, 5, None)), None);
    assert_eq!(
        estimate_held(&edge(10, 3, Some(50)), &edge(60, 5, None)),
        Some(HeldEstimate { min_nanos_held: 0, epsilon_nanos: 26 })
    );
    assert_eq!(
        estimate_held(&edge(60, 0, Some(0)), &edge(60, 0, None)),
        Some(HeldEstimate { min_nanos_held: 0, epsilon_nanos: 0 })
    );
    let wide = estimate_held(&edge(0, u64::MAX, Some(u64::MAX)), &edge(u64::MAX, 0, None)).unwrap();
    assert_eq!(wide, HeldEstimate { min_nanos_held: 0, epsilon_nanos: u64::MAX });
    let long = estimate_held(&edge(0, u64::MAX, Some(1)), &edge(u64::MAX, 0, None)).unwrap();
    assert_eq!(long.held_nanos(), (u64::MAX as u128 - 1) + (1u128 << 63));
    assert_eq!(long.held_hundredths(0), None);
    assert_eq!(long.whole_frames(0), None);
    assert_eq!(long.uncertainty_hundredths(0), None);
    assert_eq!(long.held_hundredths(1), Some(long.held_nanos() * 100));
}

#[test]
fn estimate_grows_with_the_time_between_edges() {
    let mut last: Option<u128> = None;
    for raw in 20u64..200 {
        let est = estimate_held(&edge(1000, 7, Some(20)), &edge(1000 + raw, 20, None)).unwrap();
        assert_eq!(est.epsilon_nanos, 13);
        assert_eq!(est.min_nanos_held, raw - 20);
        if let Some(prev) = last {
            assert!(est.held_nanos() > prev);
            assert_eq!(est.held_nanos(), prev + 1);
        }
        last = Some(est.held_nanos());
    }
}

#[test]
fn sampling_rate_rounds_to_nearest() {
    assert_eq!(sampling_rate(1, 0), None);
    assert_eq!(sampling_rate(0, 0), None);
    assert_eq!(sampling_rate(0, 5), Some(0));
    assert_eq!(sampling_rate(1, 10 * MS), Some(100));
    assert_eq!(sampling_rate(2, 50 * MS), Some(40));
    assert_eq!(sampling_rate(1, 3), Some(333_333_333));
    assert_eq!(sampling_rate(2, 3), Some(666_666_667));
    assert_eq!(sampling_rate(1, 2_000_000_000), Some(1));
    assert_eq!(sampling_rate(1, 2_000_000_001), Some(0));
    assert_eq!(sampling_rate(3, 2_000_000_000), Some(2));
    assert_eq!(sampling_rate(u64::MAX, 1), Some(u64::MAX as u128 * 1_000_000_000));
    assert_eq!(sampling_rate(1, u64::MAX), Some(0));
}

#[test]
fn gate_compares_products() {
    let limited = RateLimit::Limited { max_attempts_per_frame: 20 };
    assert!(gate_open(RateLimit::Unlimited, 34 * MS, 0));
    assert!(!gate_open(limited, 34 * MS, 0));
    assert!(!gate_open(limited, 34 * MS, 1_699_999));
    assert!(gate_open(limited, 34 * MS, 1_700_000));
    assert!(gate_open(limited, 34 * MS, u64::MAX));
    assert!(gate_open(limited, u64::MAX / 20, u64::MAX / 400));
    assert!(!gate_open(limited, u64::MAX / 20, u64::MAX / 400 - 1));
    assert!(gate_open(limited, u64::MAX / 20, u64::MAX));
    assert!(gate_open(RateLimit::Limited { max_attempts_per_frame: 1 }, u64::MAX, u64::MAX));
    assert!(!gate_open(RateLimit::Limited { max_attempts_per_frame: 1 }, u64::MAX, u64::MAX - 1));
    assert!(gate_open(limited, 0, 0));
    assert!(!gate_open(RateLimit::Limited { max_attempts_per_frame: 0 }, 1, u64::MAX));
    assert!(gate_open(RateLimit::Limited { max_attempts_per_frame: 0 }, 0, 5));
}

#[test]
fn sample_tests_membership_per_channel() {
    let channels = vec![Key::Left, Key::Right, Key::Space];
    assert_eq!(get_pressed_keys(&channels, &vec![Key::Space, Key::Left]), vec![true, false, true]);
    assert_eq!(get_pressed_keys(&channels, &vec![]), vec![false, false, false]);
    assert_eq!(get_pressed_keys(&channels, &vec![Key::A, Key::Enter]), vec![false, false, false]);
    assert_eq!(
        get_pressed_keys(&vec![Key::A, Key::A], &vec![Key::B, Key::A, Key::A]),
        vec![true, true]
    );
    assert_eq!(get_pressed_keys(&vec![], &vec![Key::A]), Vec::<bool>::new());
    assert!(holds_key(&vec![Key::A, Key::B, Key::C], Key::C));
    assert!(!holds_key(&vec![Key::A, Key::B, Key::C], Key::D));
    assert!(!holds_key(&vec![], Key::A));
}

#[test]
fn states_differ_by_length_or_entry() {
    assert!(!inputs_changed(&vec![], &vec![]));
    assert!(!inputs_changed(&vec![true, false], &vec![true, false]));
    assert!(inputs_changed(&vec![true, false], &vec![true, true]));
    assert!(inputs_changed(&vec![false, false], &vec![true, false]));
    assert!(inputs_changed(&vec![true], &vec![true, true]));
    assert!(inputs_changed(&vec![], &vec![false]));
}

#[test]
fn copies_keep_every_field() {
    assert_eq!(copy_state(&vec![true, false, true]), vec![true, false, true]);
    assert_eq!(copy_state(&vec![]), Vec::<bool>::new());
    let e = Edge { timestamp: 9, state: vec![false, true], dt_before: 4, dt_after: Some(2) };
    let c = e.duplicate();
    assert_eq!(c.timestamp, 9);
    assert_eq!(c.state, vec![false, true]);
    assert_eq!(c.dt_before, 4);
    assert_eq!(c.dt_after, Some(2));
}

#[test]
fn timeline_refuses_what_breaks_the_order() {
    assert!(Timeline::new(0).is_none());
    let mut t = Timeline::new(2).unwrap();
    assert!(t.is_empty());
    assert_eq!(t.capacity(), 2);
    assert!(t.push(100, vec![true], 1000));
    assert_eq!(t.len(), 1);
    assert!(!t.push(100, vec![false], 0));
    assert!(!t.push(99, vec![false], 0));
    assert!(!t.push(110, vec![false], 11));
    assert_eq!(t.len(), 1);
    assert_eq!(t.front().unwrap().dt_after, None);
    assert!(t.push(110, vec![false], 10));
    assert_eq!(t.len(), 2);
    assert_eq!(t.get(1).unwrap().dt_after, Some(10));
    assert_eq!(t.get(1).unwrap().dt_before, 1000);
    assert!(t.push(111, vec![true], 0));
    assert_eq!(t.len(), 2);
    assert_eq!(t.get(0).unwrap().timestamp, 111);
    assert_eq!(t.get(1).unwrap().timestamp, 110);
    assert_eq!(t.get(1).unwrap().dt_after, Some(0));
    assert!(t.get(2).is_none());
}

#[test]
fn timeline_of_one_keeps_only_the_newest() {
    let mut t = Timeline::new(1).unwrap();
    assert!(t.push(5, vec![true], 5));
    assert!(t.push(9, vec![false], 2));
    assert!(!t.push(9, vec![true], 0));
    assert_eq!(t.len(), 1);
    let front = t.front().unwrap();
    assert_eq!(front.timestamp, 9);
    assert_eq!(front.dt_before, 2);
    assert_eq!(front.dt_after, None);
    assert_eq!(t.oldest_first().len(), 1);
}

#[test]
fn selection_tracks_each_displayable_key_once() {
    let mut s = Selection::new();
    assert!(!s.is_done());
    assert_eq!(s.offer(Key::Left), SelectionStep::Added);
    assert_eq!(s.offer(Key::Left), SelectionStep::Ignored);
    assert_eq!(s.offer(Key::Space), SelectionStep::Rejected);
    assert_eq!(s.offer(Key::Space), SelectionStep::Ignored);
    assert_eq!(s.offer(Key::F5), SelectionStep::Rejected);
    assert_eq!(s.offer(Key::V), SelectionStep::Added);
    assert_eq!(s.len(), 2);
    assert!(!s.is_done());
    assert_eq!(s.offer(Key::Backspace), SelectionStep::Finished);
    assert!(s.is_done());
    assert_eq!(s.offer(Key::Numpad3), SelectionStep::Added);
    assert_eq!(s.offer(Key::Backspace), SelectionStep::Finished);
    assert_eq!(s.offer(Key::V), SelectionStep::Ignored);
    assert_eq!(s.len(), 3);
    assert_eq!(s.into_keys(), vec![Key::Left, Key::V, Key::Numpad3]);
}

#[test]
fn glyphs_of_keys() {
    assert_eq!(keycode_to_char(&Key::Key0), Some('0'));
    assert_eq!(keycode_to_char(&Key::Key9), Some('9'));
    assert_eq!(keycode_to_char(&Key::A), Some('A'));
    assert_eq!(keycode_to_char(&Key::Z), Some('Z'));
    assert_eq!(keycode_to_char(&Key::Up), Some('^'));
    assert_eq!(keycode_to_char(&Key::Down), Some('^'));
    assert_eq!(keycode_to_char(&Key::Left), Some('^'));
    assert_eq!(keycode_to_char(&Key::Right), Some('^'));
    assert_eq!(keycode_to_char(&Key::Numpad0), Some('0'));
    assert_eq!(keycode_to_char(&Key::Numpad7), Some('7'));
    assert_eq!(keycode_to_char(&Key::NumpadSubtract), Some('-'));
    assert_eq!(keycode_to_char(&Key::NumpadAdd), Some('+'));
    assert_eq!(keycode_to_char(&Key::NumpadDivide), Some('/'));
    assert_eq!(keycode_to_char(&Key::NumpadMultiply), Some('*'));
    assert_eq!(keycode_to_char(&Key::Grave), Some('`'));
    assert_eq!(keycode_to_char(&Key::Minus), Some('-'));
    assert_eq!(keycode_to_char(&Key::Equal), Some('='));
    assert_eq!(keycode_to_char(&Key::LeftBracket), Some('['));
    assert_eq!(keycode_to_char(&Key::RightBracket), Some(']'));
    assert_eq!(keycode_to_char(&Key::BackSlash), Some('\\'));
    assert_eq!(keycode_to_char(&Key::Semicolon), Some(':'));
    assert_eq!(keycode_to_char(&Key::Apostrophe), Some('\''));
    assert_eq!(keycode_to_char(&Key::Comma), Some(','));
    assert_eq!(keycode_to_char(&Key::Dot), Some('.'));
    assert_eq!(keycode_to_char(&Key::Slash), Some('/'));
    for k in [
        Key::F1,
        Key::F12,
        Key::Escape,
        Key::Space,
        Key::LControl,
        Key::RShift,
        Key::Meta,
        Key::Enter,
        Key::Backspace,
        Key::CapsLock,
        Key::Tab,
        Key::Home,
        Key::End,
        Key::PageUp,
        Key::PageDown,
        Key::Insert,
        Key::Delete,
    ] {
        assert_eq!(keycode_to_char(&k), None);
        assert_eq!(display_char(&k), None);
    }
}

#[test]
fn arrows_are_one_glyph_turned() {
    assert_eq!(display_char(&Key::Up), Some(DisplayChar::Simple('^')));
    assert_eq!(display_char(&Key::Right), Some(DisplayChar::Rotated(1, '^')));
    assert_eq!(display_char(&Key::Down), Some(DisplayChar::Rotated(2, '^')));
    assert_eq!(display_char(&Key::Left), Some(DisplayChar::Rotated(-1, '^')));
    assert_eq!(display_char(&Key::Z), Some(DisplayChar::Simple('Z')));
    assert_eq!(display_char(&Key::Numpad5), Some(DisplayChar::Simple('5')));
}

#[test]
fn actions_follow_the_keys_in_order() {
    let actions = create_actions(&vec![Key::Left, Key::Right, Key::V]).unwrap();
    assert_eq!(
        actions,
        vec![
            DisplayableAction { key: Key::Left, display_char: DisplayChar::Rotated(-1, '^') },
            DisplayableAction { key: Key::Right, display_char: DisplayChar::Rotated(1, '^') },
            DisplayableAction { key: Key::V, display_char: DisplayChar::Simple('V') },
        ]
    );
    assert_eq!(create_actions(&vec![]), Some(vec![]));
    assert_eq!(create_actions(&vec![Key::A, Key::Space, Key::B]), None);
    assert_eq!(create_actions(&vec![Key::Backspace]), None);
}
