use sd_flasher::cell::{ProtocolError, StatusCell, WatchCell};
use sd_flasher::led::{level_for, LedDriver, LedEvent, Level, PinLevels};
use sd_flasher::state::{LedState, SystemState};

const STATES: [SystemState; 6] = [
    SystemState::Initializing,
    SystemState::NoSdCard,
    SystemState::SdCardFound,
    SystemState::Flashing,
    SystemState::FlashingSucceeded,
    SystemState::FlashingFailed,
];

const PATTERNS: [LedState; 7] = [
    LedState::Off,
    LedState::SolidBoth,
    LedState::SolidGreen,
    LedState::SolidRed,
    LedState::FlashingGreen,
    LedState::FlashingRed,
    LedState::FlashingGreenRed,
];

fn pins(red_lit: bool, green_lit: bool) -> PinLevels {
    PinLevels {
        red: if red_lit { Level::Low } else { Level::High },
        green: if green_lit { Level::Low } else { Level::High },
    }
}

#[test]
fn every_state_has_its_pattern() {
    assert_eq!(SystemState::Initializing.led_state(), LedState::SolidBoth);
    assert_eq!(SystemState::NoSdCard.led_state(), LedState::FlashingRed);
    assert_eq!(SystemState::SdCardFound.led_state(), LedState::FlashingGreen);
    assert_eq!(SystemState::Flashing.led_state(), LedState::FlashingGreenRed);
    assert_eq!(SystemState::FlashingSucceeded.led_state(), LedState::SolidGreen);
    assert_eq!(SystemState::FlashingFailed.led_state(), LedState::SolidRed);
}

#[test]
fn conversion_agrees_with_the_mapping() {
    for state in STATES {
        let converted: LedState = state.into();
        assert_eq!(converted, state.led_state());
        assert_eq!(LedState::from(state), state.led_state());
    }
}

#[test]
fn no_two_states_share_a_pattern_and_none_is_dark() {
    for a in STATES {
        assert_ne!(a.led_state(), LedState::Off);
        for b in STATES {
            assert_eq!(a.led_state() == b.led_state(), a == b);
        }
    }
}

#[test]
fn device_is_held_from_found_to_given_up() {
    assert!(!SystemState::Initializing.holds_device());
    assert!(!SystemState::NoSdCard.holds_device());
    assert!(SystemState::SdCardFound.holds_device());
    assert!(SystemState::Flashing.holds_device());
    assert!(SystemState::FlashingSucceeded.holds_device());
    assert!(SystemState::FlashingFailed.holds_device());
}

#[test]
fn lit_is_the_low_level() {
    assert_eq!(level_for(true), Level::Low);
    assert_eq!(level_for(false), Level::High);
}

#[test]
fn each_pattern_drives_the_lines_as_tabulated() {
    for phase in [false, true] {
        assert_eq!(LedState::Off.pins(phase), pins(false, false));
        assert_eq!(LedState::SolidBoth.pins(phase), pins(true, true));
        assert_eq!(LedState::SolidRed.pins(phase), pins(true, false));
        assert_eq!(LedState::SolidGreen.pins(phase), pins(false, true));
        assert_eq!(LedState::FlashingGreenRed.pins(phase), pins(phase, !phase));
        assert_eq!(LedState::FlashingGreen.pins(phase), pins(false, phase));
        assert_eq!(LedState::FlashingRed.pins(phase), pins(phase, false));
    }
}

#[test]
fn driver_starts_with_both_leds_lit() {
    let driver = LedDriver::new();
    assert_eq!(driver.led_state, LedState::SolidBoth);
    assert!(!driver.flash_phase);
    assert_eq!(driver.render(), pins(true, true));
}

#[test]
fn same_state_twice_without_a_tick_gives_identical_levels() {
    for state in STATES {
        for ticks_before in 0..3 {
            let mut driver = LedDriver::new();
            for _ in 0..ticks_before {
                driver.tick();
            }
            let first = driver.step(LedEvent::StatusChanged(state));
            let snapshot = driver;
            let second = driver.step(LedEvent::StatusChanged(state));
            assert_eq!(first, second);
            assert_eq!(driver, snapshot);
        }
    }
}

#[test]
fn pattern_is_the_image_of_the_last_state_seen() {
    let mut driver = LedDriver::new();
    for state in STATES {
        driver.observe(state);
        assert_eq!(driver.led_state, state.led_state());
        driver.tick();
        assert_eq!(driver.led_state, state.led_state());
    }
}

#[test]
fn a_new_pattern_starts_at_the_first_phase() {
    let mut driver = LedDriver::new();
    driver.observe(SystemState::NoSdCard);
    driver.tick();
    assert!(driver.flash_phase);
    assert_eq!(driver.render(), pins(true, false));
    driver.observe(SystemState::SdCardFound);
    assert!(!driver.flash_phase);
    assert_eq!(driver.render(), pins(false, false));
}

#[test]
fn a_repeated_state_keeps_the_phase() {
    let mut driver = LedDriver::new();
    driver.observe(SystemState::Flashing);
    driver.tick();
    driver.observe(SystemState::Flashing);
    assert!(driver.flash_phase);
    assert_eq!(driver.render(), pins(true, false));
}

#[test]
fn ticks_alternate_the_flashing_patterns() {
    let mut driver = LedDriver::new();
    assert_eq!(driver.step(LedEvent::StatusChanged(SystemState::Flashing)), pins(false, true));
    assert_eq!(driver.step(LedEvent::Tick), pins(true, false));
    assert_eq!(driver.step(LedEvent::Tick), pins(false, true));
    assert_eq!(driver.step(LedEvent::StatusChanged(SystemState::NoSdCard)), pins(false, false));
    assert_eq!(driver.step(LedEvent::Tick), pins(true, false));
    assert_eq!(driver.step(LedEvent::Tick), pins(false, false));
}

#[test]
fn ticks_leave_solid_patterns_alone() {
    for state in [
        SystemState::Initializing,
        SystemState::FlashingSucceeded,
        SystemState::FlashingFailed,
    ] {
        let mut driver = LedDriver::new();
        let shown = driver.step(LedEvent::StatusChanged(state));
        for _ in 0..4 {
            assert_eq!(driver.step(LedEvent::Tick), shown);
        }
    }
}

#[test]
fn solid_patterns_ignore_the_phase_and_flashing_ones_do_not() {
    for pattern in PATTERNS {
        let solid = matches!(
            pattern,
            LedState::Off | LedState::SolidBoth | LedState::SolidGreen | LedState::SolidRed
        );
        assert_eq!(pattern.pins(false) == pattern.pins(true), solid);
    }
}

#[test]
fn driver_follows_the_status_cell() {
    let mut status: StatusCell = WatchCell::new(SystemState::Initializing);
    let reader = status.subscribe();
    let mut driver = LedDriver::new();

    assert_eq!(driver.follow(&mut status, reader), Ok(pins(true, true)));

    status.publish(SystemState::NoSdCard).unwrap();
    status.publish(SystemState::SdCardFound).unwrap();
    driver.tick();
    assert_eq!(driver.follow(&mut status, reader), Ok(pins(false, false)));
    assert_eq!(driver.led_state, LedState::FlashingGreen);
    assert_eq!(status.has_changed(reader), Ok(false));

    driver.tick();
    assert_eq!(driver.follow(&mut status, reader), Ok(pins(false, true)));
}

#[test]
fn driver_reports_a_broken_status_cell() {
    let mut status: StatusCell = WatchCell::new(SystemState::Initializing);
    let reader = status.subscribe();
    let mut driver = LedDriver::new();
    assert_eq!(driver.follow(&mut status, reader + 1), Err(ProtocolError::UnknownReader));
    status.publish(SystemState::Flashing).unwrap();
    status.close();
    assert_eq!(driver.follow(&mut status, reader), Err(ProtocolError::Closed));
    assert_eq!(driver, LedDriver::new());
}
