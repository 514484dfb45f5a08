//! The activity light: it blinks until a client connects, is off from then on, and is given back
//! to the system in the end.

use vstd::prelude::*;
use vstd::string::*;

use crate::text;
use crate::text::{contains_text, trim_end_matches};

verus! {

broadcast use vstd::string::group_string_axioms;

/// How long a tick is, in milliseconds.
pub const TICK_MILLISECONDS: u64 = 25;

/// How the light blinks before a client connects.
#[derive(Clone, Copy, Debug, PartialEq, Eq, Structural)]
pub enum BlinkPattern {
    /// Once a second, half of the time on.
    Regular,
    /// Four times a second, a fifth of the time on.
    Fast,
}

impl BlinkPattern {
    /// For how many ticks the light is on, and after how many it starts over.
    pub open spec fn ticks(self) -> (u32, u32) {
        match self {
            BlinkPattern::Regular => (20, 40),
            BlinkPattern::Fast => (2, 10),
        }
    }

    /// For how many ticks the light is on, and after how many it starts over.
    pub fn timing(self) -> (r: (u32, u32))
        ensures
            r == self.ticks(),
            0 < r.0 < r.1,
    {
        match self {
            BlinkPattern::Regular => (20, 40),
            BlinkPattern::Fast => (2, 10),
        }
    }
}

/// What the light is asked to show.
#[derive(Clone, Copy, Debug, PartialEq, Eq, Structural)]
pub struct LedRequest {
    /// Whether to give the light back.
    pub stop_request: bool,
    /// Whether a client has connected.
    pub received_rpc: bool,
    /// How the light blinks before.
    pub blink_pattern: BlinkPattern,
}

impl LedRequest {
    /// Blinks regularly until a client connects.
    pub fn new() -> (request: Self)
        ensures
            request == (LedRequest {
                stop_request: false,
                received_rpc: false,
                blink_pattern: BlinkPattern::Regular,
            }),
    {
        LedRequest {
            stop_request: false,
            received_rpc: false,
            blink_pattern: BlinkPattern::Regular,
        }
    }

    /// A client has connected.
    pub fn received_rpc(&mut self)
        ensures
            *final(self) == (LedRequest { received_rpc: true, ..*old(self) }),
    {
        self.received_rpc = true;
    }

    /// Sets how the light blinks.
    pub fn set_blink_pattern(&mut self, pattern: BlinkPattern)
        ensures
            *final(self) == (LedRequest { blink_pattern: pattern, ..*old(self) }),
    {
        self.blink_pattern = pattern;
    }

    /// The light is to be given back.
    pub fn stop(&mut self)
        ensures
            *final(self) == (LedRequest { stop_request: true, ..*old(self) }),
    {
        self.stop_request = true;
    }
}

/// What is done to the light on a tick.
#[derive(Clone, Copy, Debug, PartialEq, Eq, Structural)]
pub enum LedAction {
    /// Nothing.
    Keep,
    /// It is turned on.
    TurnOn,
    /// It is turned off.
    TurnOff,
    /// It is given back to the system.
    Release,
}

/// The light.
#[derive(Clone, Copy, Debug, PartialEq, Eq, Structural)]
pub struct ActivityLed {
    /// Whether a client has connected.
    pub connected: bool,
    /// How many ticks of the blinking have passed.
    pub phase_ticks: u32,
    /// Whether the light is on.
    pub led_on: bool,
}

impl ActivityLed {
    /// Takes the light over, turned off.
    pub fn new() -> (led: Self)
        ensures
            led == (ActivityLed { connected: false, phase_ticks: 0, led_on: false }),
    {
        ActivityLed { connected: false, phase_ticks: 0, led_on: false }
    }

    /// Where in the blinking the light is after one more tick.
    pub open spec fn next_phase(self, pattern: BlinkPattern) -> int {
        (self.phase_ticks + 1) % pattern.ticks().1 as int
    }

    /// What is done to the light on a tick. `signaled` says that the program is to end.
    pub open spec fn action(self, request: LedRequest, signaled: bool) -> LedAction {
        let wants_on = self.next_phase(request.blink_pattern) < request.blink_pattern.ticks().0;
        if request.stop_request || signaled {
            LedAction::Release
        } else if self.connected {
            LedAction::Keep
        } else if request.received_rpc {
            LedAction::TurnOff
        } else if wants_on == self.led_on {
            LedAction::Keep
        } else if wants_on {
            LedAction::TurnOn
        } else {
            LedAction::TurnOff
        }
    }

    /// The light after a tick.
    pub open spec fn after(self, request: LedRequest, signaled: bool) -> ActivityLed {
        if request.stop_request || signaled || self.connected {
            self
        } else if request.received_rpc {
            ActivityLed { connected: true, led_on: false, ..self }
        } else {
            ActivityLed {
                phase_ticks: self.next_phase(request.blink_pattern) as u32,
                led_on: self.next_phase(request.blink_pattern) < request.blink_pattern.ticks().0,
                ..self
            }
        }
    }

    /// Decides what is done to the light on a tick.
    pub fn tick(&mut self, request: &LedRequest, signaled: bool) -> (action: LedAction)
        requires
            old(self).phase_ticks < u32::MAX,
        ensures
            action == old(self).action(*request, signaled),
            *final(self) == old(self).after(*request, signaled),
            old(self).phase_ticks < 40 ==> final(self).phase_ticks < 40,
    {
        if request.stop_request || signaled {
            return LedAction::Release;
        }
        if self.connected {
            return LedAction::Keep;
        }
        if request.received_rpc {
            self.connected = true;
            self.led_on = false;
            return LedAction::TurnOff;
        }
        let (on_ticks, period_ticks) = request.blink_pattern.timing();
        self.phase_ticks = (self.phase_ticks + 1) % period_ticks;
        let wants_on: bool = self.phase_ticks < on_ticks;
        if wants_on == self.led_on {
            return LedAction::Keep;
        }
        self.led_on = wants_on;
        if wants_on {
            LedAction::TurnOn
        } else {
            LedAction::TurnOff
        }
    }
}

/// Once a client has connected the light stays off until it is given back.
pub proof fn law_connected_stays_off(led: ActivityLed, request: LedRequest, signaled: bool)
    requires
        led.connected,
        !led.led_on,
    ensures
        led.after(request, signaled) == led,
        led.action(request, signaled) == LedAction::Keep || led.action(request, signaled)
            == LedAction::Release,
{
}

/// The first tick after a client has connected turns the light off.
pub proof fn law_connecting_turns_off(led: ActivityLed, request: LedRequest)
    requires
        !led.connected,
        request.received_rpc,
        !request.stop_request,
    ensures
        led.action(request, false) == LedAction::TurnOff,
        led.after(request, false).connected,
        !led.after(request, false).led_on,
{
}

/// The light after so many ticks of blinking.
pub open spec fn blinked(led: ActivityLed, request: LedRequest, ticks: nat) -> ActivityLed
    decreases ticks,
{
    if ticks == 0 {
        led
    } else {
        blinked(led, request, (ticks - 1) as nat).after(request, false)
    }
}

/// Blinking repeats after a period.
pub proof fn law_blinking_repeats(led: ActivityLed, request: LedRequest, ticks: nat)
    requires
        !led.connected,
        !request.stop_request,
        !request.received_rpc,
        led.phase_ticks < request.blink_pattern.ticks().1,
    ensures
        blinked(led, request, ticks).phase_ticks == (led.phase_ticks + ticks)
            % request.blink_pattern.ticks().1 as int,
        !blinked(led, request, ticks).connected,
        ticks > 0 ==> blinked(led, request, ticks).led_on == (((led.phase_ticks + ticks)
            % (request.blink_pattern.ticks().1 as int)) < request.blink_pattern.ticks().0),
    decreases ticks,
{
    if ticks > 0 {
        law_blinking_repeats(led, request, (ticks - 1) as nat);
        let period = request.blink_pattern.ticks().1 as int;
        vstd::arithmetic::div_mod::lemma_add_mod_noop(led.phase_ticks + ticks - 1, 1, period);
        vstd::arithmetic::div_mod::lemma_mod_twice(led.phase_ticks + ticks - 1, period);
        vstd::arithmetic::div_mod::lemma_small_mod(1, period as nat);
    }
}

/// Whether the light is wired the other way round: on a Raspberry Pi 5.
pub fn is_reversed(model: &str) -> (reversed: bool)
    ensures
        reversed == text::holds(text::trimmed_end(model@, '\0'), "Raspberry Pi 5"@),
{
    let name: String = trim_end_matches(model, '\0');
    contains_text(name.as_str(), "Raspberry Pi 5")
}

/// What is written to turn the light on or off.
pub fn brightness_text(on: bool, reversed: bool) -> (value: &'static str)
    ensures
        value@ == (if on != reversed {
            "1"@
        } else {
            "0"@
        }),
{
    if on != reversed {
        "1"
    } else {
        "0"
    }
}

/// Until a client connects the light blinks: twenty ticks on and twenty off, or two on and eight
/// off. It is touched only where that changes.
pub proof fn law_light_blinks(led: &mut ActivityLed, request: LedRequest, action: LedAction)
    requires
        !old(led).connected,
        !request.stop_request && !request.received_rpc,
        call_ensures(ActivityLed::tick, (led, &request, false), action),
    ensures
        !final(led).connected,
        request.blink_pattern == BlinkPattern::Regular && old(led).phase_ticks < 40
            ==> (final(led).phase_ticks == old(led).phase_ticks + 1 || (old(led).phase_ticks
            == 39 && final(led).phase_ticks
            == 0)) && (final(led).led_on <==> final(led).phase_ticks < 20)
            && final(led).phase_ticks < 40,
        request.blink_pattern == BlinkPattern::Fast && old(led).phase_ticks < 10
            ==> (final(led).phase_ticks == old(led).phase_ticks + 1 || (old(led).phase_ticks
            == 9 && final(led).phase_ticks
            == 0)) && (final(led).led_on <==> final(led).phase_ticks < 2)
            && final(led).phase_ticks < 10,
        action == LedAction::Keep <==> final(led).led_on == old(led).led_on,
        action == LedAction::TurnOn <==> final(led).led_on && !old(led).led_on,
        action == LedAction::TurnOff <==> !final(led).led_on && old(led).led_on,
{
}

/// The light is given back as soon as that is asked for or the program ends, and only then. A
/// client that connects turns it off, once, and for good.
pub proof fn law_light_is_given_back(
    led: &mut ActivityLed,
    request: LedRequest,
    signaled: bool,
    action: LedAction,
)
    requires
        call_ensures(ActivityLed::tick, (led, &request, signaled), action),
    ensures
        action == LedAction::Release <==> request.stop_request || signaled,
        action == LedAction::Release ==> *final(led) == *old(led),
        old(led).connected ==> final(led).connected && action != LedAction::TurnOn && action
            != LedAction::TurnOff,
        !old(led).connected && request.received_rpc && action != LedAction::Release ==> action
            == LedAction::TurnOff && final(led).connected && !final(led).led_on,
        final(led).connected ==> old(led).connected || request.received_rpc,
{
}

/// What is asked of the light is kept: each request sets one thing and leaves the others.
pub proof fn law_requests_are_kept(
    fresh: LedRequest,
    connected: &mut LedRequest,
    patterned: &mut LedRequest,
    pattern: BlinkPattern,
    stopped: &mut LedRequest,
    taken: ActivityLed,
)
    requires
        call_ensures(LedRequest::new, (), fresh),
        *old(connected) == fresh,
        call_ensures(LedRequest::received_rpc, (connected,), ()),
        *old(patterned) == *final(connected),
        call_ensures(LedRequest::set_blink_pattern, (patterned, pattern), ()),
        *old(stopped) == *final(patterned),
        call_ensures(LedRequest::stop, (stopped,), ()),
        call_ensures(ActivityLed::new, (), taken),
    ensures
        !fresh.stop_request && !fresh.received_rpc && fresh.blink_pattern == BlinkPattern::Regular,
        final(connected).received_rpc && !final(connected).stop_request
            && final(connected).blink_pattern == BlinkPattern::Regular,
        final(patterned).blink_pattern == pattern && final(patterned).received_rpc
            && !final(patterned).stop_request,
        final(stopped).stop_request && final(stopped).received_rpc && final(stopped).blink_pattern
            == pattern,
        !taken.connected && !taken.led_on && taken.phase_ticks == 0,
{
}

/// Wired the other way round, what turns a light on turns it off. Only one model is.
pub proof fn law_reversed_light(
    on: bool,
    plain: &str,
    reversed: &str,
    model: &str,
    is_so: bool,
)
    requires
        call_ensures(brightness_text, (on, false), plain),
        call_ensures(brightness_text, (!on, true), reversed),
        call_ensures(is_reversed, (model,), is_so),
    ensures
        plain@ == reversed@,
        on ==> plain@ == seq!['1'],
        !on ==> plain@ == seq!['0'],
        is_so ==> model@.len() >= 14,
        model@ == "Raspberry Pi 5"@ ==> is_so,
{
    reveal_strlit("1");
    reveal_strlit("0");
    reveal_strlit("Raspberry Pi 5");
    assert("1"@ =~= seq!['1']);
    assert("0"@ =~= seq!['0']);
    let name = text::trimmed_end(model@, '\0');
    lemma_trailing_range(model@, '\0');
    if model@ == "Raspberry Pi 5"@ {
        assert(model@[13] == '5');
        assert(name =~= model@);
        assert(name.subrange(0, 14) =~= model@);
        assert(text::holds_at(name, "Raspberry Pi 5"@, 0));
    }
}

/// No more is trimmed than there is.
proof fn lemma_trailing_range(s: Seq<char>, ch: char)
    ensures
        0 <= text::trailing(s, ch) <= s.len(),
    decreases s.len(),
{
    if s.len() > 0 {
        lemma_trailing_range(s.drop_last(), ch);
    }
}

} // verus!
