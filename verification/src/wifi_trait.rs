//! What is known of the WiFi radio.

use vstd::prelude::*;

verus! {

/// A network seen by a scan.
#[derive(Clone, Debug)]
pub struct WifiNetwork {
    /// Its name.
    pub ssid: String,
    /// Signal quality from 0 to 100, if it is reported.
    pub signal_strength: Option<i32>,
    /// Whether it asks for a passphrase.
    pub secured: bool,
}

/// What the radio does, or is being switched to.
#[derive(Clone, Debug, PartialEq, Eq)]
pub enum WifiMode {
    /// It serves an access point of its own.
    AccessPoint,
    /// It has joined or is joining another network.
    Client {
        /// The name of that network.
        ssid: String,
    },
    /// There is no connection.
    Inactive,
}

/// How far joining another network has come.
#[derive(Clone, Copy, Debug, PartialEq, Eq, Structural)]
pub enum WifiClientState {
    /// It is in progress.
    Connecting,
    /// It has an address.
    Connected,
    /// It failed, most often over the passphrase.
    AuthFailed,
    /// It got no address in time.
    NoIp,
}

/// The status of the current join, or of the one before.
#[derive(Clone, Debug)]
pub struct ClientStatus {
    /// The name of the network.
    pub ssid: String,
    /// How far it has come.
    pub state: WifiClientState,
    /// The address; there is none unless it is connected.
    pub ip_address: Option<String>,
}

impl ClientStatus {
    /// There is an address only once the join has succeeded.
    pub open spec fn wf(&self) -> bool {
        self.ip_address is Some ==> self.state == WifiClientState::Connected
    }

    /// The status of a join; the address is dropped unless it is connected.
    pub fn new(ssid: String, state: WifiClientState, ip_address: Option<String>) -> (status: Self)
        ensures
            status.wf(),
            status.ssid == ssid,
            status.state == state,
            status.ip_address == (if state == WifiClientState::Connected {
                ip_address
            } else {
                None
            }),
    {
        if state == WifiClientState::Connected {
            ClientStatus { ssid, state, ip_address }
        } else {
            ClientStatus { ssid, state, ip_address: None }
        }
    }
}

/// The access point that the radio puts up.
#[derive(Clone, Debug)]
pub struct AccessPointConfig {
    /// Its name.
    pub ssid: String,
    /// Its passphrase.
    pub psk: String,
    /// Its channel.
    pub channel: i32,
}

/// Updates the fields of an access point that are given. Fails where there is no access point.
pub fn update_access_point(
    access_point: Option<AccessPointConfig>,
    channel: Option<i32>,
    ssid: Option<String>,
    psk: Option<String>,
) -> (r: Option<AccessPointConfig>)
    ensures
        r is Some <==> access_point is Some,
        r matches Some(updated) ==> {
            let before = access_point->0;
            &&& updated.channel == (match channel {
                Some(channel) => channel,
                None => before.channel,
            })
            &&& updated.ssid == (match ssid {
                Some(ssid) => ssid,
                None => before.ssid,
            })
            &&& updated.psk == (match psk {
                Some(psk) => psk,
                None => before.psk,
            })
        },
{
    match access_point {
        None => None,
        Some(before) => {
            let channel: i32 = match channel {
                Some(channel) => channel,
                None => before.channel,
            };
            let ssid: String = match ssid {
                Some(ssid) => ssid,
                None => before.ssid,
            };
            let psk: String = match psk {
                Some(psk) => psk,
                None => before.psk,
            };
            Some(AccessPointConfig { ssid, psk, channel })
        },
    }
}

/// Why a mode cannot be switched to.
#[derive(Clone, Copy, Debug, PartialEq, Eq, Structural)]
pub enum ModeRefusal {
    /// To join a network takes a passphrase.
    PassphraseMissing,
    /// There is no access point to put up.
    NoAccessPoint,
}

/// Whether a mode can be switched to.
pub fn check_mode(mode: &WifiMode, has_access_point: bool, has_psk: bool) -> (r: Result<
    (),
    ModeRefusal,
>)
    ensures
        r == (match *mode {
            WifiMode::Client { ssid } => if has_psk {
                Ok::<(), ModeRefusal>(())
            } else {
                Err(ModeRefusal::PassphraseMissing)
            },
            WifiMode::AccessPoint => if has_access_point {
                Ok(())
            } else {
                Err(ModeRefusal::NoAccessPoint)
            },
            WifiMode::Inactive => Ok(()),
        }),
{
    match mode {
        WifiMode::Client { .. } => if has_psk {
            Ok(())
        } else {
            Err(ModeRefusal::PassphraseMissing)
        },
        WifiMode::AccessPoint => if has_access_point {
            Ok(())
        } else {
            Err(ModeRefusal::NoAccessPoint)
        },
        WifiMode::Inactive => Ok(()),
    }
}

/// Is told whenever the mode of the radio changes.
pub trait WifiModeObserver: Send + Sync {
    /// The mode has changed.
    fn on_mode_changed(&self, old_mode: &WifiMode, new_mode: &WifiMode);
}

/// A join has an address only once it is connected, and then the one that it was given. The fields
/// of an access point that are given change, and no others; without one there is nothing to change.
pub proof fn law_network_is_described(
    ssid: String,
    state: WifiClientState,
    address: Option<String>,
    status: ClientStatus,
    before: AccessPointConfig,
    channel: Option<i32>,
    name: Option<String>,
    psk: Option<String>,
    changed: Option<AccessPointConfig>,
    missing: Option<AccessPointConfig>,
)
    requires
        call_ensures(ClientStatus::new, (ssid, state, address), status),
        call_ensures(update_access_point, (Some(before), channel, name, psk), changed),
        call_ensures(update_access_point, (None::<AccessPointConfig>, channel, name, psk), missing),
    ensures
        status.ssid == ssid && status.state == state,
        status.ip_address is Some ==> state == WifiClientState::Connected,
        state == WifiClientState::Connected ==> status.ip_address == address,
        missing is None,
        changed matches Some(after) && {
            &&& channel matches Some(new) ==> after.channel == new
            &&& channel is None ==> after.channel == before.channel
            &&& name matches Some(new) ==> after.ssid == new
            &&& name is None ==> after.ssid == before.ssid
            &&& psk matches Some(new) ==> after.psk == new
            &&& psk is None ==> after.psk == before.psk
        },
{
}

/// A network is joined only with a passphrase, and an access point put up only where there is one.
/// To do nothing takes neither.
pub proof fn law_modes_need_what_they_need(
    mode: WifiMode,
    has_access_point: bool,
    has_psk: bool,
    r: Result<(), ModeRefusal>,
)
    requires
        call_ensures(check_mode, (&mode, has_access_point, has_psk), r),
    ensures
        r == Err::<(), ModeRefusal>(ModeRefusal::PassphraseMissing) <==> mode is Client
            && !has_psk,
        r == Err::<(), ModeRefusal>(ModeRefusal::NoAccessPoint) <==> mode is AccessPoint
            && !has_access_point,
        mode is Inactive ==> r is Ok,
{
}

} // verus!
