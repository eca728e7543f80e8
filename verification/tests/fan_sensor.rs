use fan_controller::sensor::power_and_air;
use fan_controller::sensor::status;
use fan_controller::sensor::{
    decode, relative_humidity, speed, MotorStatus, Progress, Reading, Settling, Tenths, Warning,
    JSON_CAPACITY, POWER_AND_AIR_LENGTH, STATUS_LENGTH,
};
use fan_controller::set_point;

/// Five seconds is the cadence these were first written against
const FIVE_SECONDS: u32 = 5_000;

/// Feeds a run of flows and returns what each one said
fn observe_all(
    interval_milliseconds: u32,
    flows: impl IntoIterator<Item = Option<u16>>,
) -> Vec<Progress> {
    let mut settling = Settling::at_interval(interval_milliseconds);
    flows
        .into_iter()
        .map(|flow| settling.observe(flow))
        .collect()
}

#[test]
fn speed_is_a_fraction_of_the_configured_maximum() {
    assert_eq!(speed(set_point::MAX / 2, 3_000), 1_500);
    assert_eq!(speed(set_point::MAX, 3_000), 3_000);
    assert_eq!(speed(0, 3_000), 0);
}

#[test]
fn speed_handles_the_capped_reading() {
    assert_eq!(speed(0xFF00, 3_000), 3_060);
}

#[test]
fn speed_does_not_overflow_on_a_large_maximum() {
    assert_eq!(speed(set_point::MAX, u16::MAX), u16::MAX);
    assert_eq!(speed(0xFF00, u16::MAX), u16::MAX);
}

#[test]
fn humidity_is_a_fraction_of_the_full_scale() {
    assert_eq!(relative_humidity(0), Tenths(0));
    assert_eq!(relative_humidity(32_768), Tenths(500));
    assert_eq!(relative_humidity(u16::MAX), Tenths(999));
}

#[test]
fn tenths_keep_the_sign_of_a_value_under_one() {
    assert_eq!(Tenths(-5).to_string(), "-0.5");
    assert_eq!(Tenths(5).to_string(), "0.5");
    assert_eq!(Tenths(0).to_string(), "0.0");
    assert_eq!(Tenths(-215).to_string(), "-21.5");
    assert_eq!(Tenths(215).to_string(), "21.5");
}

#[test]
fn tenths_format_the_bottom_of_the_range() {
    assert_eq!(Tenths(i16::MIN).to_string(), "-3276.8");
}

#[test]
fn motor_status_bits_are_where_the_manual_puts_them() {
    assert_eq!(MotorStatus(0b0001_0000_0000_0000).to_string(), "UzLow");
    assert_eq!(MotorStatus(0b0000_0000_1000_0000).to_string(), "BLK");
    assert_eq!(MotorStatus(0b0000_0000_0010_0000).to_string(), "TFM");
    assert_eq!(MotorStatus(0b0000_0000_0001_0000).to_string(), "FB");
    assert_eq!(MotorStatus(0b0000_0000_0000_1000).to_string(), "SKF");
}

#[test]
fn warning_bits_are_where_the_manual_puts_them() {
    assert_eq!(Warning(0b0001_0000_0000_0000).to_string(), "UzHigh");
    assert!(Warning(0b0000_0100_0000_0000).is_analog_set_point_broken());
    assert_eq!(Warning(0b0000_0010_0000_0000).to_string(), "n_Low");
    assert_eq!(Warning(0b0000_0000_0100_0000).to_string(), "UzLow");
    assert_eq!(Warning(0b0000_0000_0010_0000).to_string(), "TEI_high");
    assert_eq!(Warning(0b0000_0000_0001_0000).to_string(), "TM_high");
}

#[test]
fn the_analog_set_point_break_is_reported_on_its_own() {
    let only_the_break = Warning(0b0000_0100_0000_0000);

    assert!(only_the_break.is_analog_set_point_broken());
    assert!(only_the_break.is_healthy());
    assert_eq!(only_the_break.to_string(), "OK");
}

#[test]
fn a_real_warning_shows_past_the_analog_set_point_break() {
    let both = Warning(0b0000_0100_0001_0000);

    assert!(both.is_analog_set_point_broken());
    assert!(!both.is_healthy());
    assert_eq!(both.to_string(), "TM_high");
}

#[test]
fn nothing_set_reads_as_healthy() {
    assert!(MotorStatus(0).is_healthy());
    assert!(Warning(0).is_healthy());
    assert_eq!(MotorStatus(0).to_string(), "OK");
    assert_eq!(Warning(0).to_string(), "OK");
}

#[test]
fn several_faults_are_listed_together() {
    assert_eq!(MotorStatus(0b0000_0000_1001_0000).to_string(), "BLK, FB");
    assert_eq!(
        MotorStatus(0b0001_0000_0011_1000).to_string(),
        "UzLow, TFM, FB, SKF"
    );
}

#[test]
fn an_undocumented_bit_is_reported_rather_than_swallowed() {
    assert!(!MotorStatus(0b0000_0000_0000_0001).is_healthy());
    assert_eq!(MotorStatus(0b0000_0000_0000_0001).to_string(), "0x0001");
    assert_eq!(MotorStatus(0b0000_0000_1000_0001).to_string(), "BLK, 0x0001");
}

#[test]
fn the_status_and_warning_come_out_of_the_status_run() {
    let mut status = [0; STATUS_LENGTH];
    status[status::MOTOR_STATUS] = 0b0000_0000_1001_0000;
    status[status::WARNING] = 0b0000_0000_0001_0000;

    let reading = decode(&status, &[0; POWER_AND_AIR_LENGTH], None);

    assert_eq!(reading.motor_status, MotorStatus(0b0000_0000_1001_0000));
    assert_eq!(reading.warning, Warning(0b0000_0000_0001_0000));
}

#[test]
fn a_ramp_settles_once_the_flow_stops_moving() {
    let progress = observe_all(FIVE_SECONDS, [180, 120, 95, 84, 80, 78, 78, 79, 78].map(Some));

    assert_eq!(
        progress.as_slice(),
        [
            Progress::Moving,
            Progress::Moving,
            Progress::Moving,
            Progress::Moving,
            Progress::Moving,
            Progress::Moving,
            Progress::Moving,
            Progress::Moving,
            Progress::Settled,
        ]
    );
}

#[test]
fn a_measured_ramp_settles_well_inside_the_cap() {
    let progress = observe_all(FIVE_SECONDS, [180, 120, 95, 84, 80, 78, 78, 79, 78].map(Some));

    assert_eq!(*progress.last().unwrap(), Progress::Settled);
    assert!(progress.len() < usize::from(Settling::at_interval(FIVE_SECONDS).limit()));
}

#[test]
fn a_wandering_flow_still_counts_as_settled() {
    let progress = observe_all(FIVE_SECONDS, [78, 79, 78, 79].map(Some));

    assert_eq!(*progress.last().unwrap(), Progress::Settled);
}

#[test]
fn a_flow_that_never_settles_gives_up() {
    let cap = Settling::at_interval(FIVE_SECONDS).limit();
    let flows = (0..cap).map(|reading| Some(u16::from(reading % 2) * 50));
    let progress = observe_all(FIVE_SECONDS, flows);

    assert_eq!(progress.len(), usize::from(cap));
    assert!(progress[..progress.len() - 1]
        .iter()
        .all(|step| *step == Progress::Moving));
    assert_eq!(*progress.last().unwrap(), Progress::GaveUp);
}

#[test]
fn failed_polls_count_towards_giving_up() {
    let cap = Settling::at_interval(FIVE_SECONDS).limit();
    let progress = observe_all(FIVE_SECONDS, core::iter::repeat_n(None, cap.into()));

    assert_eq!(*progress.last().unwrap(), Progress::GaveUp);
}

#[test]
fn a_failed_poll_breaks_the_run_of_steady_readings() {
    let progress = observe_all(
        FIVE_SECONDS,
        [Some(78), Some(78), Some(78), None, Some(78), Some(78)],
    );

    assert_eq!(
        progress.as_slice(),
        [
            Progress::Moving,
            Progress::Moving,
            Progress::Moving,
            Progress::Moving,
            Progress::Moving,
            Progress::Moving,
        ]
    );
}

#[test]
fn the_counts_come_from_the_cadence() {
    let five = Settling::at_interval(FIVE_SECONDS);
    assert_eq!(five.required(), 3);
    assert_eq!(five.limit(), 24);

    let two = Settling::at_interval(2_000);
    assert_eq!(two.required(), 7);
    assert_eq!(two.limit(), 60);

    let one = Settling::at_interval(1_000);
    assert_eq!(one.required(), 15);
    assert_eq!(one.limit(), 120);
}

#[test]
fn a_slow_approach_does_not_read_as_settled_just_because_it_is_sampled_quickly() {
    let creeping = [95, 95, 94, 94, 94, 93, 93].map(Some);

    let progress = observe_all(1_000, creeping);

    assert!(
        progress.iter().all(|step| *step == Progress::Moving),
        "seven seconds of a slow approach must not count as fifteen seconds of holding still"
    );
}

#[test]
fn the_same_approach_settles_when_it_really_has_held_still_for_long_enough() {
    let holding = core::iter::repeat_n(Some(93), 16);

    let progress = observe_all(1_000, holding);

    assert_eq!(*progress.last().unwrap(), Progress::Settled);
}

#[test]
fn temperatures_below_zero_stay_below_zero() {
    let status = [0, 0, 0, 0, 0, 0, 0xFFFB, 0x0015];
    let reading = decode(&status, &[0; POWER_AND_AIR_LENGTH], None);

    assert_eq!(reading.motor_temperature, -5);
    assert_eq!(reading.electronics_temperature, 21);
}

#[test]
fn the_air_temperature_is_signed_tenths() {
    let mut block = [0; POWER_AND_AIR_LENGTH];
    block[power_and_air::AIR_TEMPERATURE] = 0xFFE5;

    let reading = decode(&[0; STATUS_LENGTH], &block, None);

    assert_eq!(reading.air_temperature, Tenths(-27));
}

#[test]
fn decodes_a_whole_poll() {
    let status = [set_point::MAX / 2, 0, 0, 0, 0, 0, 0x002A, 0x0026];
    let mut power_and_air_block = [0; POWER_AND_AIR_LENGTH];
    power_and_air_block[power_and_air::CURRENT_POWER] = 25;
    power_and_air_block[power_and_air::AIR_TEMPERATURE] = 215;
    power_and_air_block[power_and_air::AIR_HUMIDITY] = 32_768;
    power_and_air_block[power_and_air::VOLUME_FLOW] = 120;

    let reading = decode(&status, &power_and_air_block, Some(3_000));

    assert_eq!(
        reading,
        Reading {
            speed: Some(1_500),
            motor_status: MotorStatus(0),
            warning: Warning(0),
            motor_temperature: 42,
            electronics_temperature: 38,
            power: 25,
            air_temperature: Tenths(215),
            air_humidity: Tenths(500),
            volume_flow: 120,
        }
    );
}

#[test]
fn serializes_to_json() {
    let reading = Reading {
        speed: Some(1_500),
        motor_status: MotorStatus(0),
        warning: Warning(0),
        motor_temperature: 42,
        electronics_temperature: 38,
        power: 25,
        air_temperature: Tenths(215),
        air_humidity: Tenths(473),
        volume_flow: 120,
    };

    assert_eq!(
        reading.to_json().as_str(),
        r#"{"speed":1500,"motor_temperature":42,"electronics_temperature":38,"power":25,"motor_status":"OK","warning":"OK","analog_set_point":"OK","air_temperature":21.5,"air_humidity":47.3,"volume_flow":120}"#
    );
}

#[test]
fn serializes_an_unknown_speed_as_null() {
    let reading = Reading {
        speed: None,
        motor_status: MotorStatus(1 << 7 | 1 << 4),
        warning: Warning(1 << 10 | 1 << 4),
        motor_temperature: -5,
        electronics_temperature: 38,
        power: 25,
        air_temperature: Tenths(-3),
        air_humidity: Tenths(802),
        volume_flow: 0,
    };

    assert_eq!(
        reading.to_json().as_str(),
        r#"{"speed":null,"motor_temperature":-5,"electronics_temperature":38,"power":25,"motor_status":"BLK, FB","warning":"TM_high","analog_set_point":"Kabelbruch","air_temperature":-0.3,"air_humidity":80.2,"volume_flow":0}"#
    );
}

#[test]
fn json_fits_the_worst_case() {
    let reading = Reading {
        speed: Some(u16::MAX),
        motor_status: MotorStatus(u16::MAX),
        warning: Warning(u16::MAX),
        motor_temperature: i16::MIN,
        electronics_temperature: i16::MIN,
        power: u16::MAX,
        air_temperature: Tenths(i16::MIN),
        air_humidity: Tenths(i16::MIN),
        volume_flow: u16::MAX,
    };

    let json = reading.to_json();

    assert!(json.ends_with('}'), "truncated at {} bytes: {json}", json.len());
    assert!(json.len() <= JSON_CAPACITY);
}

#[test]
fn every_flag_of_both_registers_at_once() {
    assert_eq!(
        MotorStatus(u16::MAX).to_string(),
        "UzLow, BLK, TFM, FB, SKF, 0xEF47"
    );
    assert_eq!(
        Warning(u16::MAX).to_string(),
        "UzHigh, n_Low, UzLow, TEI_high, TM_high, 0xE98F"
    );
}

#[test]
fn a_failed_poll_never_settles() {
    let mut settling = Settling::at_interval(FIVE_SECONDS);
    for _ in 0..10 {
        settling.observe(Some(78));
    }
    assert_eq!(settling.observe(None), Progress::Moving);
    assert_eq!(settling.readings_taken(), 11);
}

#[test]
fn a_zero_interval_counts_as_one_millisecond() {
    let settling = Settling::at_interval(0);
    assert_eq!(settling.required(), 255);
    assert_eq!(settling.limit(), 255);
    let slow = Settling::at_interval(1_000_000);
    assert_eq!(slow.required(), 1);
    assert_eq!(slow.limit(), 1);
}

#[test]
fn the_text_reads_ok_exactly_when_healthy() {
    for value in [0u16, 1, 0x0008, 0x1000, 0x8000, 0xFFFF] {
        let status = MotorStatus(value);
        assert_eq!(status.to_string() == "OK", status.is_healthy());
    }
    for value in [0u16, 0x0400, 0x0410, 0x0001, 0x1000, 0xFFFF] {
        let warning = Warning(value);
        assert_eq!(warning.to_string() == "OK", warning.is_healthy());
    }
}

#[test]
fn a_run_settles_once_its_steady_end_is_long_enough() {
    // At five seconds three steady readings are required. The first reading has nothing to be
    // steady against; a failed poll breaks the run, and the reading after it is compared with
    // the last known flow, 81
    let progress = observe_all(
        FIVE_SECONDS,
        [Some(80), Some(80), Some(81), None, Some(80), Some(80), Some(79), Some(80)],
    );
    assert_eq!(
        progress,
        vec![
            Progress::Moving,
            Progress::Moving,
            Progress::Moving,
            Progress::Moving,
            Progress::Moving,
            Progress::Moving,
            Progress::Settled,
            Progress::Settled,
        ]
    );
}
