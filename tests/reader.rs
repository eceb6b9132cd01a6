use termina::event::{Event, KeyCode, KeyEvent, Modifiers};
use termina::reader::{Drawn, EventQueue, PollStep, ReadStep};
use termina::stream::{next_action, StreamAction};
use termina::timeout::{left_after, spent_after, PollTimeout};

fn key(c: char) -> Event {
    Event::Key(KeyEvent::new(KeyCode::Char(c), Modifiers { bits: Modifiers::NONE }))
}

fn is_char(c: char) -> impl Fn(&Event) -> bool {
    move |e: &Event| *e == key(c)
}

fn drawn(queue: &mut EventQueue, events: &[Event]) {
    let never = |_: &Event| false;
    for e in events {
        assert_eq!(queue.poll_step(Drawn::Event(e.clone()), false, &never), PollStep::Continue);
    }
    assert_eq!(queue.poll_step(Drawn::Empty, true, &never), PollStep::NoMatch);
}

#[test]
fn poll_buffers_skipped_events_in_order() {
    let mut queue = EventQueue::new();
    let want_b = is_char('b');
    assert_eq!(queue.poll_step(Drawn::Event(key('a')), false, &want_b), PollStep::Continue);
    assert!(!queue.has_match(&want_b));
    assert_eq!(queue.poll_step(Drawn::Event(key('b')), false, &want_b), PollStep::Matched);
    assert!(queue.has_match(&want_b));
    assert_eq!(queue.take_match(&want_b), Some(key('b')));
    assert_eq!(queue.take_match(&is_char('a')), Some(key('a')));
    assert_eq!(queue.take_match(&is_char('a')), None);
}

#[test]
fn reads_with_different_filters_keep_arrival_order() {
    let mut queue = EventQueue::new();
    drawn(&mut queue, &[key('a'), key('x'), key('b'), key('y'), key('a')]);
    let letters_ab = |e: &Event| *e == key('a') || *e == key('b');
    let letters_xy = |e: &Event| *e == key('x') || *e == key('y');
    assert_eq!(queue.take_match(&letters_xy), Some(key('x')));
    assert_eq!(queue.take_match(&letters_ab), Some(key('a')));
    assert_eq!(queue.take_match(&letters_ab), Some(key('b')));
    assert_eq!(queue.take_match(&letters_xy), Some(key('y')));
    assert_eq!(queue.take_match(&letters_ab), Some(key('a')));
    assert_eq!(queue.take_match(&letters_ab), None);
    assert_eq!(queue.take_match(&letters_xy), None);
}

#[test]
fn repeated_zero_timeout_polls_change_nothing() {
    let mut queue = EventQueue::new();
    drawn(&mut queue, &[key('a'), key('b')]);
    let want_z = is_char('z');
    for _ in 0..3 {
        assert!(!queue.has_match(&want_z));
        assert_eq!(queue.poll_step(Drawn::Empty, true, &want_z), PollStep::NoMatch);
    }
    assert_eq!(queue.take_match(&|_: &Event| true), Some(key('a')));
    assert_eq!(queue.take_match(&|_: &Event| true), Some(key('b')));
}

#[test]
fn read_step_hands_out_the_match_and_keeps_the_rest() {
    let mut queue = EventQueue::new();
    let want_b = is_char('b');
    assert!(matches!(queue.read_step(Drawn::Event(key('a')), &want_b), ReadStep::Continue));
    assert!(matches!(queue.read_step(Drawn::Empty, &want_b), ReadStep::Continue));
    match queue.read_step(Drawn::Event(key('b')), &want_b) {
        ReadStep::Done(e) => assert_eq!(e, key('b')),
        other => panic!("unexpected {other:?}"),
    }
    assert_eq!(queue.take_match(&is_char('a')), Some(key('a')));
}

#[test]
fn woken_read_loses_nothing() {
    let mut queue = EventQueue::new();
    drawn(&mut queue, &[key('a')]);
    let want_z = is_char('z');
    assert!(matches!(queue.read_step(Drawn::Event(key('b')), &want_z), ReadStep::Continue));
    assert!(matches!(queue.read_step(Drawn::Stopped, &want_z), ReadStep::Stopped));
    assert_eq!(queue.take_match(&|_: &Event| true), Some(key('a')));
    assert_eq!(queue.take_match(&|_: &Event| true), Some(key('b')));
}

#[test]
fn poll_times_out_after_passing_over() {
    let mut queue = EventQueue::new();
    let want_z = is_char('z');
    assert_eq!(queue.poll_step(Drawn::Event(key('a')), true, &want_z), PollStep::NoMatch);
    assert!(queue.has_match(&is_char('a')));
}

#[test]
fn bridge_steps() {
    assert_eq!(next_action(true, true), StreamAction::Read);
    assert_eq!(next_action(false, false), StreamAction::Dispatch);
    assert_eq!(next_action(false, true), StreamAction::Wait);
}

#[test]
fn time_budgets() {
    assert_eq!(spent_after(Some(10), 9), false);
    assert_eq!(spent_after(Some(10), 10), true);
    assert_eq!(spent_after(None, 1_000), false);
    assert_eq!(left_after(Some(10), 4), Some(6));
    assert_eq!(left_after(Some(10), 40), Some(0));
    assert_eq!(left_after(None, 4), None);
    let zero = PollTimeout::new(Some(0));
    assert!(zero.elapsed());
    assert_eq!(zero.leftover(), Some(0));
    let unbounded = PollTimeout::new(None);
    assert!(!unbounded.elapsed());
    assert_eq!(unbounded.leftover(), None);
    let long = PollTimeout::new(Some(3_600_000_000_000));
    assert!(!long.elapsed());
    assert!(long.leftover().unwrap() > 0);
}
