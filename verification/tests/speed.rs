use jlink::error::DebugProbeError;
use jlink::link::{Command, Reply, Speeds, Step};
use jlink::speed::{is_computable, reachable_speed, SpeedChange};

#[test]
fn reachable_speeds() {
    let speeds = Speeds { base_freq: 12_000_000, min_div: 4 };
    assert_eq!(reachable_speed(speeds, 1000), 1000);
    // The divider is rounded up, so the speed is at most the one asked for.
    assert_eq!(reachable_speed(speeds, 1100), 1091);
    assert_eq!(reachable_speed(speeds, 3000), 3000);
    // The smallest divider limits the speed.
    assert_eq!(reachable_speed(speeds, 4000), 3000);
    assert_eq!(reachable_speed(speeds, 0xfffe), 3000);
    assert_eq!(reachable_speed(speeds, 1), 1);
}

#[test]
fn reachable_speeds_of_odd_clocks() {
    assert_eq!(reachable_speed(Speeds { base_freq: 0, min_div: 1 }, 5), 0);
    assert_eq!(reachable_speed(Speeds { base_freq: 1, min_div: 0 }, 5), 1);
    assert_eq!(reachable_speed(Speeds { base_freq: 1, min_div: 2 }, 5), 0);
    assert_eq!(reachable_speed(Speeds { base_freq: 16_000_000, min_div: 3 }, 0xfffe), 5334);
}

#[test]
fn reachable_speed_is_never_above_the_one_asked_for() {
    for base_freq in [1, 999, 12_000_000, 48_000_000, 180_000_000] {
        for min_div in [1, 3, 4, 1000] {
            let speeds = Speeds { base_freq, min_div };
            for khz in [1, 2, 7, 100, 999, 1000, 4000, 50_000, 0xfffe] {
                assert!(reachable_speed(speeds, khz) <= khz);
            }
        }
    }
}

fn setting(step: Step<SpeedChange, u32>) -> (String, SpeedChange) {
    match step {
        Step::Perform(Command::SetSpeed(speed), change) => (format!("{:?}", speed), change),
        _ => panic!("no speed is set"),
    }
}

#[test]
fn speed_is_worked_out_and_set() {
    match SpeedChange::start(4000) {
        Step::Perform(Command::ReadSpeeds, change) => {
            let speeds = Speeds { base_freq: 12_000_000, min_div: 4 };
            let (speed, change) = setting(change.resume(Reply::Speeds(speeds)));
            assert_eq!(speed, "CommunicationSpeed { raw: 3000 }");
            match change.resume(Reply::Done) {
                Step::Finished(Ok(actual)) => assert_eq!(actual, 3000),
                _ => panic!("not set"),
            }
        }
        _ => panic!("speeds are not read"),
    }
}

#[test]
fn speeds_out_of_range_are_refused() {
    for khz in [0, 0xffff, 0x1_0000, u32::MAX] {
        match SpeedChange::start(khz) {
            Step::Finished(Err(DebugProbeError::UnsupportedSpeed(refused))) => {
                assert_eq!(refused, khz)
            }
            _ => panic!("not refused"),
        }
    }
    for khz in [1, 0xfffe] {
        assert!(matches!(
            SpeedChange::start(khz),
            Step::Perform(Command::ReadSpeeds, SpeedChange::Speeds(asked)) if asked == khz
        ));
    }
}

#[test]
fn computable_speeds() {
    assert!(is_computable(Speeds { base_freq: 12_000_000, min_div: 4 }, 4000));
    assert!(is_computable(Speeds { base_freq: 0, min_div: 1 }, 4000));
    assert!(!is_computable(Speeds { base_freq: 0, min_div: 0 }, 4000));
    assert!(is_computable(Speeds { base_freq: u32::MAX - 1000, min_div: 1 }, 1));
    assert!(!is_computable(Speeds { base_freq: u32::MAX - 999, min_div: 1 }, 1));
}

#[test]
fn divider_is_the_smallest_that_will_do() {
    let speeds = Speeds { base_freq: 48_000_000, min_div: 3 };
    // 48 MHz divided by 9 is above 5000 kHz, divided by 10 it is below.
    assert_eq!(reachable_speed(speeds, 5000), 4800);
    assert_eq!(reachable_speed(speeds, 4800), 4800);
    assert_eq!(reachable_speed(speeds, 4799), 4364);
}
