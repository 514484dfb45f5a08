//! Bluetooth: recovery of the controller, and pairing.
//!
//! Times are in nanoseconds.

use vstd::prelude::*;

use crate::text::same_text;

verus! {

/// How long after a hard reset another is not tried: fifteen seconds.
pub const HARD_RESET_COOLDOWN: u64 = 15_000_000_000;

/// A device that is paired.
#[derive(Clone, Debug)]
pub struct BluetoothDevice {
    /// Its name.
    pub name: String,
    /// Its address.
    pub address: String,
}

/// How a reset of the controller ended.
#[derive(Clone, Copy, Debug, PartialEq, Eq, Structural)]
pub enum ResetOutcome {
    /// The light one was enough: sessions stay valid.
    LightResetOk,
    /// It was not, and the hard one was called for: sessions have to be set up anew.
    HardReset,
}

/// How a reset ends, from whether the light one was enough.
pub fn reset_outcome(light_ok: bool) -> (outcome: ResetOutcome)
    ensures
        outcome == (if light_ok {
            ResetOutcome::LightResetOk
        } else {
            ResetOutcome::HardReset
        }),
{
    if light_ok {
        ResetOutcome::LightResetOk
    } else {
        ResetOutcome::HardReset
    }
}

/// When the last hard reset was complete, if there was one.
#[derive(Clone, Copy, Debug, PartialEq, Eq, Structural)]
pub struct ResetLog {
    /// The time.
    pub last: Option<u64>,
}

impl ResetLog {
    /// Starts without a hard reset.
    pub fn new() -> (log: Self)
        ensures
            log.last is None,
    {
        ResetLog { last: None }
    }

    /// When the last hard reset was complete.
    pub fn last_hard_reset(&self) -> (time: Option<u64>)
        ensures
            time == self.last,
    {
        self.last
    }

    /// Whether a hard reset is due: not shortly after another. Two callers may find the
    /// controller stuck at once, and the second reset would only disturb the first.
    pub open spec fn is_due(self, now: u64) -> bool {
        match self.last {
            Some(last) => now - last >= HARD_RESET_COOLDOWN,
            None => true,
        }
    }

    /// Whether a hard reset is due.
    pub fn due(&self, now: u64) -> (due: bool)
        requires
            self.last matches Some(last) ==> last <= now,
        ensures
            due == self.is_due(now),
    {
        match self.last {
            Some(last) => now - last >= HARD_RESET_COOLDOWN,
            None => true,
        }
    }

    /// A hard reset is complete.
    pub fn complete(&mut self, now: u64)
        ensures
            *final(self) == (ResetLog { last: Some(now) }),
    {
        self.last = Some(now);
    }
}

/// Hard resets are never closer together than the cooldown.
pub proof fn law_resets_keep_apart(log: ResetLog, completed: u64, now: u64)
    requires
        completed <= now,
        log.last == Some(completed),
    ensures
        log.is_due(now) <==> now >= completed + HARD_RESET_COOLDOWN,
{
}

/// A step of a hard reset.
#[derive(Clone, Copy, Debug, PartialEq, Eq, Structural)]
pub enum ResetStep {
    /// Stop the Bluetooth service.
    StopService,
    /// Take the driver off the controller.
    UnbindDriver,
    /// Shut the controller down.
    PowerOff,
    /// Start the controller again.
    PowerOn,
    /// Put the driver back.
    BindDriver,
    /// Start the Bluetooth service.
    StartService,
    /// Keep the controller from sniff mode, which it does not take well.
    LimitLinkPolicy,
    /// Sleep for so many milliseconds.
    Sleep(u64),
}

/// The steps of a hard reset.
pub open spec fn hard_reset_sequence() -> Seq<ResetStep> {
    seq![
        ResetStep::StopService,
        ResetStep::UnbindDriver,
        ResetStep::PowerOff,
        ResetStep::Sleep(200),
        ResetStep::PowerOn,
        ResetStep::Sleep(200),
        ResetStep::BindDriver,
        ResetStep::StartService,
        ResetStep::Sleep(500),
        ResetStep::LimitLinkPolicy,
    ]
}

/// Lists the steps of a hard reset, or none where it is not due.
pub fn hard_reset_steps(log: &ResetLog, now: u64) -> (steps: Vec<ResetStep>)
    requires
        log.last matches Some(last) ==> last <= now,
    ensures
        steps@ == (if log.is_due(now) {
            hard_reset_sequence()
        } else {
            Seq::empty()
        }),
{
    let mut steps: Vec<ResetStep> = Vec::new();
    if log.due(now) {
        steps.push(ResetStep::StopService);
        steps.push(ResetStep::UnbindDriver);
        steps.push(ResetStep::PowerOff);
        steps.push(ResetStep::Sleep(200));
        steps.push(ResetStep::PowerOn);
        steps.push(ResetStep::Sleep(200));
        steps.push(ResetStep::BindDriver);
        steps.push(ResetStep::StartService);
        steps.push(ResetStep::Sleep(500));
        steps.push(ResetStep::LimitLinkPolicy);
        assert(steps@ =~= hard_reset_sequence());
    }
    steps
}

/// What is done to the adapter when pairing is turned on or off.
#[derive(Clone, Copy, Debug, PartialEq, Eq, Structural)]
pub enum PairingStep {
    /// Set whether it can be paired; a failure ends everything.
    MustSetPairable(bool),
    /// Set whether it can be paired; a failure does not matter.
    SetPairable(bool),
    /// Set whether it shows up in scans; a failure does not matter.
    SetDiscoverable(bool),
}

/// What is done to the adapter: where the setting differs from the last one, or there was none
/// yet, it can be paired and shows up exactly while that is wanted.
pub open spec fn pairing_sequence(last: Option<bool>, wanted: bool) -> Seq<PairingStep> {
    if last == Some(wanted) {
        Seq::empty()
    } else if wanted {
        seq![PairingStep::MustSetPairable(true), PairingStep::SetDiscoverable(true)]
    } else {
        seq![PairingStep::SetPairable(false), PairingStep::SetDiscoverable(false)]
    }
}

/// Lists what is done to the adapter.
pub fn pairing_steps(last: Option<bool>, wanted: bool) -> (steps: Vec<PairingStep>)
    ensures
        steps@ == pairing_sequence(last, wanted),
{
    let mut steps: Vec<PairingStep> = Vec::new();
    if let Some(last) = last {
        if last == wanted {
            return steps;
        }
    }
    if wanted {
        steps.push(PairingStep::MustSetPairable(true));
        steps.push(PairingStep::SetDiscoverable(true));
    } else {
        steps.push(PairingStep::SetPairable(false));
        steps.push(PairingStep::SetDiscoverable(false));
    }
    assert(steps@ =~= pairing_sequence(last, wanted));
    steps
}

/// Whether the adapter's name has to be changed.
pub fn needs_alias(alias: &str, desired_name: &str) -> (needed: bool)
    ensures
        needed == (alias@ != desired_name@),
{
    !same_text(alias, desired_name)
}

/// A hard reset is due unless another was complete less than fifteen seconds ago; where it is not,
/// nothing is done. It stops the service before the driver and the controller, and starts them the
/// other way round, with time for each to settle.
pub proof fn law_hard_reset_goes_down_and_up(
    fresh: ResetLog,
    log: &mut ResetLog,
    completed: u64,
    now: u64,
    due: bool,
    steps: Vec<ResetStep>,
    first: bool,
    last: Option<u64>,
)
    requires
        completed <= now,
        call_ensures(ResetLog::new, (), fresh),
        call_ensures(ResetLog::due, (&fresh, now), first),
        call_ensures(ResetLog::complete, (log, completed), ()),
        call_ensures(ResetLog::due, (&*final(log), now), due),
        call_ensures(ResetLog::last_hard_reset, (&*final(log),), last),
        call_ensures(hard_reset_steps, (&*final(log), now), steps),
    ensures
        first,
        last == Some(completed),
        due <==> now - completed >= 15_000_000_000,
        !due ==> steps@.len() == 0,
        due ==> {
            let s = steps@;
            &&& s.len() == 10
            &&& s[0] == ResetStep::StopService && s[1] == ResetStep::UnbindDriver && s[2]
                == ResetStep::PowerOff
            &&& s[4] == ResetStep::PowerOn && s[6] == ResetStep::BindDriver && s[7]
                == ResetStep::StartService && s[9] == ResetStep::LimitLinkPolicy
            &&& s[3] == ResetStep::Sleep(200) && s[5] == ResetStep::Sleep(200) && s[8]
                == ResetStep::Sleep(500)
        },
{
}

/// Pairing is set where it changes, and only there: the adapter can be paired and shows up alike. A
/// name is changed where it differs. A light reset that was enough is the end of it.
pub proof fn law_pairing_follows_the_wish(
    last: Option<bool>,
    wanted: bool,
    steps: Vec<PairingStep>,
    alias: &str,
    name: &str,
    needed: bool,
    light_ok: bool,
    outcome: ResetOutcome,
)
    requires
        call_ensures(pairing_steps, (last, wanted), steps),
        call_ensures(needs_alias, (alias, name), needed),
        call_ensures(reset_outcome, (light_ok,), outcome),
    ensures
        steps@.len() == 0 <==> last == Some(wanted),
        steps@.len() > 0 ==> steps@.len() == 2 && steps@[1] == PairingStep::SetDiscoverable(wanted),
        steps@.len() > 0 && wanted ==> steps@[0] == PairingStep::MustSetPairable(true),
        steps@.len() > 0 && !wanted ==> steps@[0] == PairingStep::SetPairable(false),
        !needed <==> alias@ == name@,
        outcome == ResetOutcome::HardReset <==> !light_ok,
{
}

} // verus!
