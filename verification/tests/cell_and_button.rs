use sd_flasher::button::{is_pressed, EdgeDetector};
use sd_flasher::cell::{ButtonLatch, ProtocolError, StatusCell, WatchCell};
use sd_flasher::led::Level;
use sd_flasher::state::SystemState;

#[test]
fn fresh_cell_holds_its_value_and_no_reader() {
    let cell: StatusCell = WatchCell::new(SystemState::Initializing);
    assert_eq!(cell.read(), SystemState::Initializing);
    assert_eq!(cell.readers(), 0);
    assert!(!cell.is_closed());
}

#[test]
fn a_new_reader_has_nothing_pending() {
    let mut cell: StatusCell = WatchCell::new(SystemState::Initializing);
    cell.publish(SystemState::NoSdCard).unwrap();
    let reader = cell.subscribe();
    assert_eq!(reader, 0);
    assert_eq!(cell.subscribe(), 1);
    assert_eq!(cell.has_changed(reader), Ok(false));
    assert_eq!(cell.take_if_changed(reader), Ok(None));
    assert_eq!(cell.read(), SystemState::NoSdCard);
}

#[test]
fn last_write_wins() {
    let mut cell: StatusCell = WatchCell::new(SystemState::Initializing);
    let reader = cell.subscribe();
    cell.publish(SystemState::NoSdCard).unwrap();
    cell.publish(SystemState::SdCardFound).unwrap();
    cell.publish(SystemState::Flashing).unwrap();
    assert_eq!(cell.read(), SystemState::Flashing);
    assert_eq!(cell.take_if_changed(reader), Ok(Some(SystemState::Flashing)));
    assert_eq!(cell.take_if_changed(reader), Ok(None));
}

#[test]
fn reading_acknowledges_nothing() {
    let mut cell: StatusCell = WatchCell::new(SystemState::Initializing);
    let reader = cell.subscribe();
    cell.publish(SystemState::NoSdCard).unwrap();
    assert_eq!(cell.read(), SystemState::NoSdCard);
    assert_eq!(cell.read(), SystemState::NoSdCard);
    assert_eq!(cell.has_changed(reader), Ok(true));
    assert_eq!(cell.has_changed(reader), Ok(true));
}

#[test]
fn each_reader_acknowledges_for_itself() {
    let mut cell: StatusCell = WatchCell::new(SystemState::Initializing);
    let first = cell.subscribe();
    let second = cell.subscribe();
    cell.publish(SystemState::NoSdCard).unwrap();
    assert_eq!(cell.take_if_changed(first), Ok(Some(SystemState::NoSdCard)));
    assert_eq!(cell.has_changed(first), Ok(false));
    assert_eq!(cell.has_changed(second), Ok(true));
    assert_eq!(cell.mark_unchanged(second), Ok(()));
    assert_eq!(cell.has_changed(second), Ok(false));
    cell.publish(SystemState::NoSdCard).unwrap();
    assert_eq!(cell.has_changed(first), Ok(true));
    assert_eq!(cell.has_changed(second), Ok(true));
}

#[test]
fn unknown_reader_is_refused() {
    let mut cell: StatusCell = WatchCell::new(SystemState::Initializing);
    let reader = cell.subscribe();
    cell.publish(SystemState::NoSdCard).unwrap();
    assert_eq!(cell.has_changed(reader + 1), Err(ProtocolError::UnknownReader));
    assert_eq!(cell.mark_unchanged(reader + 1), Err(ProtocolError::UnknownReader));
    assert_eq!(cell.take_if_changed(reader + 1), Err(ProtocolError::UnknownReader));
    assert_eq!(cell.has_changed(reader), Ok(true));
}

#[test]
fn closed_cell_answers_no_request_but_can_be_read() {
    let mut cell: StatusCell = WatchCell::new(SystemState::Initializing);
    let reader = cell.subscribe();
    cell.publish(SystemState::NoSdCard).unwrap();
    cell.close();
    assert!(cell.is_closed());
    assert_eq!(cell.publish(SystemState::Flashing), Err(ProtocolError::Closed));
    assert_eq!(cell.has_changed(reader), Err(ProtocolError::Closed));
    assert_eq!(cell.mark_unchanged(reader), Err(ProtocolError::Closed));
    assert_eq!(cell.take_if_changed(reader), Err(ProtocolError::Closed));
    assert_eq!(cell.has_changed(reader + 1), Err(ProtocolError::Closed));
    assert_eq!(cell.read(), SystemState::NoSdCard);
}

#[test]
fn pressed_is_the_low_level() {
    assert!(is_pressed(Level::Low));
    assert!(!is_pressed(Level::High));
}

#[test]
fn only_the_step_from_released_to_pressed_is_a_press() {
    let mut detector = EdgeDetector::new(Level::High);
    assert!(!detector.sample(Level::High));
    assert!(detector.sample(Level::Low));
    assert!(!detector.sample(Level::Low));
    assert!(!detector.sample(Level::Low));
    assert!(!detector.sample(Level::High));
    assert!(detector.sample(Level::Low));
}

#[test]
fn a_button_held_at_start_is_no_press() {
    let mut detector = EdgeDetector::new(Level::Low);
    assert!(detector.last_pressed);
    assert!(!detector.sample(Level::Low));
    assert!(!detector.sample(Level::High));
    assert!(detector.sample(Level::Low));
}

#[test]
fn five_rapid_presses_leave_one_pending_press() {
    let mut latch: ButtonLatch = WatchCell::new(());
    let reader = latch.subscribe();
    let mut detector = EdgeDetector::new(Level::High);
    let mut presses = 0;
    for _ in 0..5 {
        if detector.poll(Level::Low, &mut latch).unwrap() {
            presses += 1;
        }
        assert!(!detector.poll(Level::High, &mut latch).unwrap());
    }
    assert_eq!(presses, 5);
    assert_eq!(latch.take_if_changed(reader), Ok(Some(())));
    assert_eq!(latch.take_if_changed(reader), Ok(None));
    assert_eq!(latch.take_if_changed(reader), Ok(None));

    assert!(!detector.poll(Level::High, &mut latch).unwrap());
    assert_eq!(latch.take_if_changed(reader), Ok(None));
    assert!(detector.poll(Level::Low, &mut latch).unwrap());
    assert_eq!(latch.take_if_changed(reader), Ok(Some(())));
    assert_eq!(latch.take_if_changed(reader), Ok(None));
}

#[test]
fn a_held_button_writes_to_the_latch_once() {
    let mut latch: ButtonLatch = WatchCell::new(());
    let reader = latch.subscribe();
    let mut detector = EdgeDetector::new(Level::High);
    assert_eq!(detector.poll(Level::Low, &mut latch), Ok(true));
    assert_eq!(latch.take_if_changed(reader), Ok(Some(())));
    for _ in 0..10 {
        assert_eq!(detector.poll(Level::Low, &mut latch), Ok(false));
    }
    assert_eq!(latch.has_changed(reader), Ok(false));
}

#[test]
fn a_press_into_a_closed_latch_is_an_error() {
    let mut latch: ButtonLatch = WatchCell::new(());
    latch.close();
    let mut detector = EdgeDetector::new(Level::High);
    assert_eq!(detector.poll(Level::High, &mut latch), Ok(false));
    assert_eq!(detector.poll(Level::Low, &mut latch), Err(ProtocolError::Closed));
    assert!(detector.last_pressed);
}
