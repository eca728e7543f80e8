use fan_controller::controller::brain::{Brain, BrainAction};
use fan_controller::controller::button::{next_set_point_after_press, Debouncer, DEBOUNCE_HOLD_MILLISECONDS};
use fan_controller::controller::command::{
    CommandTopics, Fan, FanCommand, FromPublishError, IncomingPublish, RequestedSetPoint,
    SetStateCommandValue,
};
use fan_controller::controller::display::{
    led_state, Blink, Display, DisplayMessage, LedState, Level,
};
use fan_controller::controller::fan_control::{
    back_off_milliseconds, read_set_point_step, write_step, FanControl, ReadStep, WriteStep,
};
use fan_controller::controller::fan_state::{
    handle_publish, predefined_packet, state_updates, FanState, PredefinedPublish,
};
use fan_controller::controller::led::{animation, AnimationStep};
use fan_controller::controller::network::{resolve_step, ResolveStep};
use fan_controller::controller::outgoing::{OutgoingPublish, PublishTargets, UpdateSpeedPayload};
use fan_controller::controller::relay::{relay_read_step, Relay, RelayReadStep, RelayWriteStep};
use fan_controller::controller::sensor_poll::{NextPoll, SensorPoll};
use fan_controller::mqtt::publish::Publish;
use fan_controller::reset_cause::{ResetCause, ResetFlags};
use fan_controller::sensor::{Progress, POWER_AND_AIR_LENGTH, STATUS_LENGTH};
use fan_controller::set_point::{ParseSetPointError, SetPoint, SetPointOutOfBoundsError};
use fan_controller::storage::{join_plan, JoinError, JoinPlan, Ssid, WifiPassword};

const TOPICS: CommandTopics<'static> = CommandTopics {
    fan_1_state: "fancontroller/fan-1/on/set",
    fan_1_percentage: "fancontroller/fan-1/speed/set",
    fan_2_state: "fancontroller/fan-2/on/set",
    fan_2_percentage: "fancontroller/fan-2/speed/set",
    relay_state: "fancontroller/relay/on/set",
};

fn set_point(value: u16) -> SetPoint {
    SetPoint::new(value).unwrap()
}

fn incoming(topic_name: &str, payload: &[u8]) -> Result<IncomingPublish, FromPublishError> {
    IncomingPublish::try_from(&Publish { topic_name, payload }, &TOPICS)
}

#[test]
fn commands_are_read_from_their_topics() {
    assert_eq!(
        incoming("fancontroller/fan-1/on/set", b"ON"),
        Ok(IncomingPublish::FanCommand {
            target: Fan::One,
            command: FanCommand::SetState(SetStateCommandValue::On)
        })
    );
    assert_eq!(
        incoming("fancontroller/fan-2/on/set", b"OFF"),
        Ok(IncomingPublish::FanCommand {
            target: Fan::Two,
            command: FanCommand::SetState(SetStateCommandValue::Off)
        })
    );
    assert_eq!(
        incoming("fancontroller/fan-2/speed/set", b"21333"),
        Ok(IncomingPublish::FanCommand {
            target: Fan::Two,
            command: FanCommand::SetSpeed { set_point: set_point(21_333) }
        })
    );
    assert_eq!(
        incoming("fancontroller/relay/on/set", b"ON"),
        Ok(IncomingPublish::RelayCommand(SetStateCommandValue::On))
    );
}

#[test]
fn unreadable_commands_say_why() {
    assert_eq!(
        incoming("fancontroller/fan-1/on/set", b"on"),
        Err(FromPublishError::InvalidSetStateCommandPayload)
    );
    assert_eq!(
        incoming("fancontroller/fan-1/speed/set", &[0xFF]),
        Err(FromPublishError::InvalidStringPayload)
    );
    assert_eq!(
        incoming("fancontroller/fan-1/speed/set", b"fast"),
        Err(FromPublishError::ParseSetPoint(ParseSetPointError::ParseInt))
    );
    assert_eq!(
        incoming("fancontroller/fan-1/speed/set", b"64001"),
        Err(FromPublishError::ParseSetPoint(ParseSetPointError::SettingOutOfBounds(
            SetPointOutOfBoundsError
        )))
    );
    assert_eq!(incoming("somewhere/else", b"ON"), Err(FromPublishError::UnknownTopic));
}

#[test]
fn on_and_off_are_reported_only_when_they_change() {
    assert_eq!(SetStateCommandValue::from_first(set_point(0)), Some(SetStateCommandValue::Off));
    assert_eq!(SetStateCommandValue::from_first(set_point(5)), Some(SetStateCommandValue::On));
    assert_eq!(
        SetStateCommandValue::from_change(set_point(0), set_point(5)),
        Some(SetStateCommandValue::On)
    );
    assert_eq!(
        SetStateCommandValue::from_change(set_point(5), set_point(0)),
        Some(SetStateCommandValue::Off)
    );
    assert_eq!(SetStateCommandValue::from_change(set_point(5), set_point(9)), None);
    assert_eq!(SetStateCommandValue::from(true), SetStateCommandValue::On);
    assert_eq!(SetStateCommandValue::from(set_point(0)), SetStateCommandValue::Off);
}

#[test]
fn only_a_users_request_corrects_the_other_fan() {
    let from_user = RequestedSetPoint::FromUser(set_point(7));
    let from_other = RequestedSetPoint::FromOtherFan(set_point(8));
    assert!(from_user.should_correct_other_fan());
    assert!(!from_other.should_correct_other_fan());
    assert_eq!(from_other.set_point(), set_point(8));
    let control = FanControl::new(Some(set_point(3)));
    assert_eq!(
        control.on_failed(from_user),
        Some(RequestedSetPoint::FromOtherFan(set_point(3)))
    );
    assert_eq!(control.on_failed(from_other), None);
    assert_eq!(FanControl::new(None).on_failed(from_user), None);
}

#[test]
fn publishes_go_to_their_topics_with_their_payloads() {
    let targets = PublishTargets {
        discovery: "discovery",
        reset_cause: "reset",
        fan_1_percentage_state: "fan-1/speed",
        fan_2_percentage_state: "fan-2/speed",
        fan_1_state: "fan-1/on",
        fan_2_state: "fan-2/on",
        fan_1_sensor_state: "fan-1/sensor",
        fan_2_sensor_state: "fan-2/sensor",
        relay_state: "relay/on",
        discovery_payload: b"{}",
    };
    let speed = OutgoingPublish::UpdateSpeed {
        fan: Fan::Two,
        payload: UpdateSpeedPayload::from(set_point(32_000)),
    };
    assert_eq!(speed.topic(&targets), "fan-2/speed");
    assert_eq!(speed.payload(&targets), b"32000");
    assert!(!speed.is_retained());
    let state = OutgoingPublish::UpdateState { fan: Fan::One, payload: SetStateCommandValue::Off };
    assert_eq!(state.topic(&targets), "fan-1/on");
    assert_eq!(state.payload(&targets), b"OFF");
    let reset = OutgoingPublish::ResetCause(ResetCause::WatchdogTimeout);
    assert_eq!(reset.topic(&targets), "reset");
    assert_eq!(reset.payload(&targets), b"watchdog-timeout");
    assert!(reset.is_retained());
    assert_eq!(OutgoingPublish::Discovery.payload(&targets), b"{}");
    assert_eq!(
        OutgoingPublish::UpdateRelayState(SetStateCommandValue::On).payload(&targets),
        b"ON"
    );
}

#[test]
fn the_reset_cause_prefers_the_watchdog() {
    let flags = ResetFlags {
        watchdog_timer: true,
        watchdog_force: false,
        had_power_on_reset: false,
        had_run_pin: false,
        had_power_on_state_machine_restart: true,
    };
    assert_eq!(ResetCause::from_flags(flags), ResetCause::WatchdogTimeout);
    let restart = ResetFlags { watchdog_timer: false, ..flags };
    assert_eq!(ResetCause::from_flags(restart), ResetCause::DebuggerRestart);
    let nothing = ResetFlags { had_power_on_state_machine_restart: false, ..restart };
    assert_eq!(ResetCause::from_flags(nothing), ResetCause::Unknown);
    assert_eq!(ResetCause::PowerOnOrBrownOut.as_str(), "power-on-or-brown-out");
}

#[test]
fn updates_are_shown_once_both_fans_are_quiet() {
    let mut display = Display::new();
    display.on_change(Fan::One, set_point(10_666));
    display.on_change(Fan::Two, set_point(10_666));
    assert!(display.is_debounce_active);
    let flush = display.on_quiet(8);
    assert_eq!(
        flush.messages,
        vec![
            DisplayMessage::State(Fan::One, SetStateCommandValue::On),
            DisplayMessage::Speed(Fan::One, set_point(10_666)),
            DisplayMessage::State(Fan::Two, SetStateCommandValue::On),
            DisplayMessage::Speed(Fan::Two, set_point(10_666)),
        ]
    );
    assert_eq!(
        flush.led,
        Some(LedState::Synchronized { led_1: Level::High, led_2: Level::Low })
    );
    assert!(!display.is_debounce_active);

    // The same speed again is not an update
    display.on_change(Fan::One, set_point(10_666));
    assert!(!display.is_debounce_active);

    // Only a change of speed: no on or off
    display.on_change(Fan::Two, set_point(32_000));
    let flush = display.on_quiet(8);
    assert_eq!(flush.messages, vec![DisplayMessage::Speed(Fan::Two, set_point(32_000))]);
    assert_eq!(
        flush.led,
        Some(LedState::Unsynchronized { led_1: Blink::Once, led_2: Blink::Thrice })
    );
}

#[test]
fn a_full_queue_holds_the_update_back() {
    let mut display = Display::new();
    display.on_change(Fan::One, set_point(0));
    let flush = display.on_quiet(1);
    assert_eq!(flush.messages, vec![DisplayMessage::State(Fan::One, SetStateCommandValue::Off)]);
    assert_eq!(flush.led, None);
    assert_eq!(display.current_1, None);
    assert_eq!(display.pending_1, Some(set_point(0)));
    display.on_change(Fan::Two, set_point(0));
    let flush = display.on_quiet(4);
    assert_eq!(flush.messages.len(), 4);
    assert_eq!(
        flush.led,
        Some(LedState::Synchronized { led_1: Level::Low, led_2: Level::Low })
    );
}

#[test]
fn the_leds_show_both_fans() {
    assert_eq!(
        led_state(Some(set_point(21_333)), Some(set_point(21_333))),
        LedState::Synchronized { led_1: Level::Low, led_2: Level::High }
    );
    assert_eq!(
        led_state(Some(set_point(32_000)), Some(set_point(32_000))),
        LedState::Synchronized { led_1: Level::High, led_2: Level::High }
    );
    assert_eq!(
        led_state(None, Some(set_point(21_000))),
        LedState::Unsynchronized { led_1: Blink::Off, led_2: Blink::Twice }
    );
    assert_eq!(Blink::from(set_point(1)), Blink::Once);
}

#[test]
fn the_animations_play_their_steps() {
    assert_eq!(
        animation(Some(LedState::Synchronized { led_1: Level::High, led_2: Level::Low })),
        vec![
            AnimationStep::Led1(Level::High),
            AnimationStep::Led2(Level::Low),
            AnimationStep::Park
        ]
    );
    let blinking = animation(Some(LedState::Unsynchronized {
        led_1: Blink::Twice,
        led_2: Blink::Off,
    }));
    assert_eq!(
        blinking,
        vec![
            AnimationStep::Led1(Level::High),
            AnimationStep::Pause(500),
            AnimationStep::Led1(Level::Low),
            AnimationStep::Pause(500),
            AnimationStep::Led1(Level::High),
            AnimationStep::Pause(500),
            AnimationStep::Led1(Level::Low),
            AnimationStep::Pause(5_000),
            AnimationStep::Led2(Level::Low),
            AnimationStep::Pause(5_000),
        ]
    );
    assert_eq!(animation(None).len(), 6);
}

#[test]
fn the_button_cycles_through_the_settings() {
    let low = next_set_point_after_press(None, None);
    assert_eq!(low.get(), 10_666);
    let medium = next_set_point_after_press(Some(low), Some(low));
    assert_eq!(medium.get(), 21_333);
    let high = next_set_point_after_press(Some(medium), Some(medium));
    assert_eq!(high.get(), 32_000);
    assert_eq!(next_set_point_after_press(Some(high), Some(high)).get(), 0);
    // The slower fan decides
    assert_eq!(next_set_point_after_press(Some(high), Some(low)).get(), 21_333);
}

#[test]
fn off_and_on_restore_the_last_speed() {
    let mut brain = Brain::new();
    brain.on_confirmed(Fan::One, set_point(21_333));
    brain.on_confirmed(Fan::One, set_point(0));
    let on = Ok(IncomingPublish::FanCommand {
        target: Fan::One,
        command: FanCommand::SetState(SetStateCommandValue::On),
    });
    assert_eq!(
        brain.on_publish(on),
        vec![BrainAction::SignalFan(Fan::One, RequestedSetPoint::FromUser(set_point(21_333)))]
    );
    let off = Ok(IncomingPublish::FanCommand {
        target: Fan::Two,
        command: FanCommand::SetState(SetStateCommandValue::Off),
    });
    assert_eq!(
        brain.on_publish(off),
        vec![BrainAction::SignalFan(Fan::Two, RequestedSetPoint::FromUser(set_point(0)))]
    );
}

#[test]
fn a_speed_goes_to_both_fans() {
    let brain = Brain::new();
    let speed = Ok(IncomingPublish::FanCommand {
        target: Fan::Two,
        command: FanCommand::SetSpeed { set_point: set_point(5) },
    });
    assert_eq!(
        brain.on_publish(speed),
        vec![
            BrainAction::SignalFan(Fan::Two, RequestedSetPoint::FromUser(set_point(5))),
            BrainAction::SignalFan(Fan::One, RequestedSetPoint::FromUser(set_point(5))),
        ]
    );
    assert_eq!(
        brain.on_publish(Ok(IncomingPublish::RelayCommand(SetStateCommandValue::Off))),
        vec![BrainAction::SignalRelay(false)]
    );
    assert_eq!(brain.on_publish(Err(FromPublishError::UnknownTopic)), vec![]);
}

#[test]
fn retries_back_off_quadratically() {
    assert_eq!(back_off_milliseconds(1), 100);
    assert_eq!(back_off_milliseconds(2), 400);
    assert_eq!(back_off_milliseconds(3), 900);
    assert_eq!(read_set_point_step(1, Some(32_000), false), ReadStep::Done(Some(set_point(32_000))));
    assert_eq!(read_set_point_step(1, Some(64_001), false), ReadStep::Done(None));
    assert_eq!(
        read_set_point_step(1, None, false),
        ReadStep::Retry { wait_milliseconds: 100, next_attempt: 2 }
    );
    assert_eq!(read_set_point_step(2, None, true), ReadStep::Done(None));
    assert_eq!(read_set_point_step(3, None, false), ReadStep::Done(None));
}

#[test]
fn a_write_is_tried_until_the_attempts_run_out() {
    assert_eq!(write_step(1, true, false), WriteStep::Written);
    assert_eq!(write_step(1, false, false), WriteStep::Retry { wait_milliseconds: 400, next_attempt: 2 });
    assert_eq!(write_step(2, false, false), WriteStep::Retry { wait_milliseconds: 900, next_attempt: 3 });
    assert_eq!(write_step(2, false, true), WriteStep::Superseded);
    // Three attempts, then the fan counts as unreachable
    assert_eq!(write_step(3, false, false), WriteStep::Failed);
    // The last attempt counts when it goes through
    assert_eq!(write_step(3, true, false), WriteStep::Written);
    let mut control = FanControl::new(None);
    assert!(control.should_apply(RequestedSetPoint::FromUser(set_point(1))));
    assert!(control.on_written(set_point(1)));
    assert!(!control.should_apply(RequestedSetPoint::FromOtherFan(set_point(1))));
    assert!(!control.on_written(set_point(1)));
}

#[test]
fn the_relay_reports_what_it_confirmed() {
    assert_eq!(relay_read_step(1, Some(0b0000_0001)), RelayReadStep::Done(Some(true)));
    assert_eq!(relay_read_step(1, Some(0b1111_1110)), RelayReadStep::Done(Some(false)));
    assert_eq!(
        relay_read_step(1, None),
        RelayReadStep::Retry { wait_milliseconds: 400, next_attempt: 2 }
    );
    assert_eq!(relay_read_step(3, None), RelayReadStep::Done(None));
    let mut relay = Relay::new(Some(false));
    assert!(!relay.should_write(false));
    assert!(relay.should_write(true));
    assert_eq!(relay.after_write(true, 1, false, true), RelayWriteStep::Superseded);
    assert_eq!(relay.current, Some(false));
    assert_eq!(relay.after_write(true, 3, false, false), RelayWriteStep::GaveUp);
    assert_eq!(relay.current, None);
    assert_eq!(relay.after_write(true, 1, true, false), RelayWriteStep::Confirmed);
    assert_eq!(relay.current, Some(true));
}

#[test]
fn a_poll_follows_a_confirmed_speed_until_it_settles() {
    let mut poll = SensorPoll::new();
    assert!(poll.needs_maximum_speed());
    poll.on_maximum_speed(None);
    assert!(poll.needs_maximum_speed());
    poll.on_maximum_speed(Some(3_000));
    assert!(!poll.needs_maximum_speed());

    let mut power_and_air = [0u16; POWER_AND_AIR_LENGTH];
    power_and_air[12] = 78;
    let blocks = Some(([32_000u16, 0, 0, 0, 0, 0, 0, 0], power_and_air));
    let outcome = poll.on_poll(blocks);
    assert_eq!(outcome.next, NextPoll::AtInterval);
    assert_eq!(outcome.reading.unwrap().speed, Some(1_500));

    poll.on_confirmed_change();
    // At two seconds, seven steady readings are fifteen seconds of holding still
    let mut last = NextPoll::Quickly;
    for _ in 0..8 {
        last = poll.on_poll(blocks).next;
    }
    assert_eq!(last, NextPoll::AtInterval);
    assert!(poll.settling.is_none());

    poll.on_confirmed_change();
    let failed = poll.on_poll(None);
    assert!(failed.reading.is_none());
    assert_eq!(failed.next, NextPoll::Quickly);
    let _ = Progress::Moving;
    let _ = STATUS_LENGTH;
}

#[test]
fn the_first_state_topics_carry_the_speed_and_on_state() {
    let packet = predefined_packet(&PredefinedPublish::FanPercentageState { setting: set_point(640) }).unwrap();
    assert_eq!(packet.topic_name, "fancontroller/speed/percentage_state");
    assert_eq!(packet.payload, b"640");
    let packet = predefined_packet(&PredefinedPublish::FanOnState { is_on: false }).unwrap();
    assert_eq!(packet.topic_name, "fancontroller/on/state");
    assert_eq!(packet.payload, b"OFF");
    let packet = predefined_packet(&PredefinedPublish::SensorTemperature { temperature: 234, fan: Fan::Two }).unwrap();
    assert_eq!(packet.topic_name, "fancontroller/sensor/fan-2/temperature");
    assert_eq!(packet.payload, b"234");
    assert!(predefined_packet(&PredefinedPublish::SensorTemperature { temperature: 1_000, fan: Fan::One }).is_none());
    let updates = state_updates(FanState { setting: set_point(5), is_on: true });
    assert!(matches!(updates[0], PredefinedPublish::FanOnState { is_on: true }));
}

#[test]
fn the_first_state_follows_the_percentage_and_command_topics() {
    let previous = Some(FanState { setting: set_point(700), is_on: false });
    assert_eq!(
        handle_publish("fancontroller/speed/percentage", b"800", "fancontroller/on/set", previous),
        Some(FanState { setting: set_point(800), is_on: true })
    );
    assert_eq!(
        handle_publish("fancontroller/on/set", b"ON", "fancontroller/on/set", previous),
        Some(FanState { setting: set_point(700), is_on: true })
    );
    assert_eq!(
        handle_publish("fancontroller/on/set", b"OFF", "fancontroller/on/set", None),
        Some(FanState { setting: set_point(0), is_on: false })
    );
    assert_eq!(handle_publish("fancontroller/speed/percentage", b"70000", "x", None), None);
    assert_eq!(handle_publish("other", b"ON", "x", None), None);
}

#[test]
fn the_broker_address_is_looked_up_until_found() {
    assert_eq!(resolve_step(None), ResolveStep::RetryAfter(25_000));
    assert_eq!(resolve_step(Some(vec![])), ResolveStep::RetryAfter(500));
    assert_eq!(
        resolve_step(Some(vec![[192, 168, 1, 2], [10, 0, 0, 1]])),
        ResolveStep::Use([192, 168, 1, 2])
    );
}

#[test]
fn stored_credentials_decide_how_to_join() {
    let mut name = [0u8; 32];
    name[..4].copy_from_slice(b"home");
    let ssid = Ssid::create(name, 4);
    assert_eq!(ssid.try_into_string(), Ok("home"));
    let mut secret = [0u8; 64];
    secret[..6].copy_from_slice(b"secret");
    let password = WifiPassword::create(secret, 6);
    assert!(matches!(join_plan(&ssid, None), Ok(JoinPlan::Open("home"))));
    assert!(matches!(
        join_plan(&ssid, Some(&password)),
        Ok(JoinPlan::Wpa2 { ssid: "home", password: "secret" })
    ));
    let mut broken = [0u8; 64];
    broken[0] = 0xFF;
    let broken = WifiPassword::create(broken, 1);
    assert!(matches!(join_plan(&ssid, Some(&broken)), Err(JoinError::MalformedPassword(_))));
}

#[test]
fn a_falling_edge_counts_only_when_the_line_stays_low() {
    let debouncer = Debouncer::new(DEBOUNCE_HOLD_MILLISECONDS);
    assert_eq!(debouncer.hold_milliseconds, 50);
    assert!(debouncer.is_press(false));
    assert!(!debouncer.is_press(true));
}

#[test]
fn on_restores_the_last_running_speed_of_any_run() {
    let on = |fan| Ok(IncomingPublish::FanCommand { target: fan, command: FanCommand::SetState(SetStateCommandValue::On) });
    let mut brain = Brain::new();
    // Nothing confirmed yet: on asks for standing still
    assert_eq!(
        brain.on_publish(on(Fan::One)),
        vec![BrainAction::SignalFan(Fan::One, RequestedSetPoint::FromUser(set_point(0)))]
    );
    for (fan, value) in [(Fan::One, 1_000), (Fan::One, 0), (Fan::Two, 500), (Fan::One, 2_000), (Fan::One, 0), (Fan::Two, 0)] {
        brain.on_confirmed(fan, set_point(value));
    }
    assert_eq!(
        brain.on_publish(on(Fan::One)),
        vec![BrainAction::SignalFan(Fan::One, RequestedSetPoint::FromUser(set_point(2_000)))]
    );
    assert_eq!(
        brain.on_publish(on(Fan::Two)),
        vec![BrainAction::SignalFan(Fan::Two, RequestedSetPoint::FromUser(set_point(500)))]
    );
}
