//! What the two status LEDs do for each state, as a sequence of steps the LED routine plays.

use vstd::prelude::*;

use super::display::{Blink, LedState, Level};

verus! {

/// How long an LED stays on or off within a blink.
pub const BLINK_PAUSE_MILLISECONDS: u64 = 500;

/// How long the loading animation shows each LED.
pub const LOADING_PAUSE_MILLISECONDS: u64 = 250;

/// The pause after one LED's blinks, before the other's, so the two read as separate.
pub const BETWEEN_LEDS_MILLISECONDS: u64 = 5_000;

/// One step of an animation.
#[derive(Debug, Clone, Copy, PartialEq, Eq, Structural)]
pub enum AnimationStep {
    /// Set the first LED
    Led1(Level),
    /// Set the second LED
    Led2(Level),
    /// Wait
    Pause(u64),
    /// A still picture: nothing more to play until the state changes
    Park,
}

/// How many times an LED lights up for a blink.
pub open spec fn flashes(blink: Blink) -> nat {
    match blink {
        Blink::Off => 0,
        Blink::Once => 1,
        Blink::Twice => 2,
        Blink::Thrice => 3,
    }
}

/// The steps that light the first (`first`) or the second LED at `level`.
pub open spec fn set_led(first: bool, level: Level) -> AnimationStep {
    if first {
        AnimationStep::Led1(level)
    } else {
        AnimationStep::Led2(level)
    }
}

/// `count` flashes: on, pause, off, with a pause between two flashes.
pub open spec fn flash_steps(first: bool, count: nat) -> Seq<AnimationStep>
    decreases count,
{
    if count == 0 {
        Seq::empty()
    } else if count == 1 {
        seq![
            set_led(first, Level::High),
            AnimationStep::Pause(BLINK_PAUSE_MILLISECONDS),
            set_led(first, Level::Low),
        ]
    } else {
        flash_steps(first, (count - 1) as nat) + seq![
            AnimationStep::Pause(BLINK_PAUSE_MILLISECONDS),
            set_led(first, Level::High),
            AnimationStep::Pause(BLINK_PAUSE_MILLISECONDS),
            set_led(first, Level::Low),
        ]
    }
}

/// One LED blinking: off is just switching it off, otherwise its flashes.
pub open spec fn blink_steps(first: bool, blink: Blink) -> Seq<AnimationStep> {
    if blink == Blink::Off {
        seq![set_led(first, Level::Low)]
    } else {
        flash_steps(first, flashes(blink))
    }
}

/// One cycle of the animation for a state, which the LED routine repeats while the state stays.
/// Before any state is known, the LEDs alternate quickly, which reads as loading; a synchronized
/// state is a still picture; otherwise each LED blinks its fan's range in turn.
pub open spec fn animation_of(state: Option<LedState>) -> Seq<AnimationStep> {
    match state {
        None => seq![
            AnimationStep::Pause(LOADING_PAUSE_MILLISECONDS),
            AnimationStep::Led2(Level::Low),
            AnimationStep::Led1(Level::High),
            AnimationStep::Pause(LOADING_PAUSE_MILLISECONDS),
            AnimationStep::Led1(Level::Low),
            AnimationStep::Led2(Level::High),
        ],
        Some(LedState::Synchronized { led_1, led_2 }) => seq![
            AnimationStep::Led1(led_1),
            AnimationStep::Led2(led_2),
            AnimationStep::Park,
        ],
        Some(LedState::Unsynchronized { led_1, led_2 }) => blink_steps(true, led_1) + seq![
            AnimationStep::Pause(BETWEEN_LEDS_MILLISECONDS),
        ] + blink_steps(false, led_2) + seq![AnimationStep::Pause(BETWEEN_LEDS_MILLISECONDS)],
    }
}

/// Sets the first (`first`) or the second LED.
fn led_step(first: bool, level: Level) -> (step: AnimationStep)
    ensures
        step == set_led(first, level),
{
    if first {
        AnimationStep::Led1(level)
    } else {
        AnimationStep::Led2(level)
    }
}

/// Appends the steps of one LED blinking: see [`blink_steps`].
pub fn push_blink(steps: &mut Vec<AnimationStep>, first: bool, blink: Blink)
    ensures
        final(steps)@ == old(steps)@ + blink_steps(first, blink),
{
    let count: u8 = match blink {
        Blink::Off => 0,
        Blink::Once => 1,
        Blink::Twice => 2,
        Blink::Thrice => 3,
    };
    if count == 0 {
        steps.push(led_step(first, Level::Low));
        assert(steps@ =~= old(steps)@ + blink_steps(first, blink));
        return;
    }
    steps.push(led_step(first, Level::High));
    steps.push(AnimationStep::Pause(BLINK_PAUSE_MILLISECONDS));
    steps.push(led_step(first, Level::Low));
    let mut done: u8 = 1;
    assert(steps@ =~= old(steps)@ + flash_steps(first, 1));
    while done < count
        invariant
            1 <= done <= count <= 3,
            count == flashes(blink),
            steps@ == old(steps)@ + flash_steps(first, done as nat),
        decreases count - done,
    {
        steps.push(AnimationStep::Pause(BLINK_PAUSE_MILLISECONDS));
        steps.push(led_step(first, Level::High));
        steps.push(AnimationStep::Pause(BLINK_PAUSE_MILLISECONDS));
        steps.push(led_step(first, Level::Low));
        done = done + 1;
        assert(steps@ =~= old(steps)@ + flash_steps(first, done as nat));
    }
}

/// One cycle of the animation for a state: see [`animation_of`].
pub fn animation(state: Option<LedState>) -> (steps: Vec<AnimationStep>)
    ensures
        steps@ == animation_of(state),
{
    let mut steps: Vec<AnimationStep> = Vec::new();
    match state {
        None => {
            steps.push(AnimationStep::Pause(LOADING_PAUSE_MILLISECONDS));
            steps.push(AnimationStep::Led2(Level::Low));
            steps.push(AnimationStep::Led1(Level::High));
            steps.push(AnimationStep::Pause(LOADING_PAUSE_MILLISECONDS));
            steps.push(AnimationStep::Led1(Level::Low));
            steps.push(AnimationStep::Led2(Level::High));
        },
        Some(LedState::Synchronized { led_1, led_2 }) => {
            steps.push(AnimationStep::Led1(led_1));
            steps.push(AnimationStep::Led2(led_2));
            steps.push(AnimationStep::Park);
        },
        Some(LedState::Unsynchronized { led_1, led_2 }) => {
            push_blink(&mut steps, true, led_1);
            steps.push(AnimationStep::Pause(BETWEEN_LEDS_MILLISECONDS));
            push_blink(&mut steps, false, led_2);
            steps.push(AnimationStep::Pause(BETWEEN_LEDS_MILLISECONDS));
        },
    }
    assert(steps@ =~= animation_of(state));
    steps
}

} // verus!
