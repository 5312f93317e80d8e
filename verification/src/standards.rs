//! The IEEE 802 standards that a link falls under.
use vstd::prelude::*;

verus! {

/// An IEEE 802 standard that bears on a Bluetooth link.
#[derive(Clone, Copy, Debug, PartialEq, Eq, Structural, Hash, PartialOrd, Ord)]
#[non_exhaustive]
pub enum Standard802 {
    /// 802.15.1, the WPAN standard that Bluetooth descends from.
    Wpan80215_1,
    /// 802.15.4, low-rate WPAN.
    Wpan80215_4,
    /// 802.11, wireless LAN.
    Wlan80211,
    /// 802.1X, port-based network access control.
    PortAuth8021X,
}

/// The layer at which a standard acts.
#[derive(Clone, Copy, Debug, PartialEq, Eq, Structural, Hash, PartialOrd, Ord)]
pub enum StandardsLayer {
    /// The radio itself.
    Radio,
    /// Media access control.
    Mac,
    /// Admission to a network.
    NetworkAccess,
    /// Sharing the air with others.
    Coexistence,
}

impl Standard802 {
    /// The dotted designation.
    pub open spec fn designation(self) -> Seq<char> {
        match self {
            Standard802::Wpan80215_1 => "802.15.1"@,
            Standard802::Wpan80215_4 => "802.15.4"@,
            Standard802::Wlan80211 => "802.11"@,
            Standard802::PortAuth8021X => "802.1X"@,
        }
    }

    /// The descriptive title.
    pub open spec fn heading(self) -> Seq<char> {
        match self {
            Standard802::Wpan80215_1 => "WPAN (Bluetooth lineage)"@,
            Standard802::Wpan80215_4 => "Low-Rate WPAN"@,
            Standard802::Wlan80211 => "Wireless LAN"@,
            Standard802::PortAuth8021X => "Port-Based Network Access Control"@,
        }
    }

    /// The dotted designation, such as `802.15.1`.
    pub fn dotted(self) -> (r: &'static str)
        ensures
            r@ == self.designation(),
    {
        match self {
            Standard802::Wpan80215_1 => "802.15.1",
            Standard802::Wpan80215_4 => "802.15.4",
            Standard802::Wlan80211 => "802.11",
            Standard802::PortAuth8021X => "802.1X",
        }
    }

    /// The descriptive title.
    pub fn title(self) -> (r: &'static str)
        ensures
            r@ == self.heading(),
    {
        match self {
            Standard802::Wpan80215_1 => "WPAN (Bluetooth lineage)",
            Standard802::Wpan80215_4 => "Low-Rate WPAN",
            Standard802::Wlan80211 => "Wireless LAN",
            Standard802::PortAuth8021X => "Port-Based Network Access Control",
        }
    }

    /// The layer at which the standard acts.
    pub fn layer(self) -> (r: StandardsLayer)
        ensures
            r == match self {
                Standard802::Wpan80215_1 => StandardsLayer::Radio,
                Standard802::Wpan80215_4 => StandardsLayer::Coexistence,
                Standard802::Wlan80211 => StandardsLayer::Coexistence,
                Standard802::PortAuth8021X => StandardsLayer::NetworkAccess,
            },
    {
        match self {
            Standard802::Wpan80215_1 => StandardsLayer::Radio,
            Standard802::Wpan80215_4 => StandardsLayer::Coexistence,
            Standard802::Wlan80211 => StandardsLayer::Coexistence,
            Standard802::PortAuth8021X => StandardsLayer::NetworkAccess,
        }
    }

    /// The full citation, such as `IEEE 802.11 (Wireless LAN)`.
    pub fn to_string(&self) -> (r: String)
        ensures
            r@ == "IEEE "@ + self.designation() + " ("@ + self.heading() + ")"@,
    {
        let mut t = "IEEE ".to_owned();
        t.append(self.dotted());
        t.append(" (");
        t.append(self.title());
        t.append(")");
        t
    }
}

impl StandardsLayer {
    /// The words for the layer.
    pub open spec fn words(self) -> Seq<char> {
        match self {
            StandardsLayer::Radio => "radio/PHY"@,
            StandardsLayer::Mac => "MAC"@,
            StandardsLayer::NetworkAccess => "network access"@,
            StandardsLayer::Coexistence => "coexistence"@,
        }
    }

    /// The words for the layer.
    pub fn to_string(&self) -> (r: String)
        ensures
            r@ == self.words(),
    {
        match self {
            StandardsLayer::Radio => "radio/PHY".to_owned(),
            StandardsLayer::Mac => "MAC".to_owned(),
            StandardsLayer::NetworkAccess => "network access".to_owned(),
            StandardsLayer::Coexistence => "coexistence".to_owned(),
        }
    }
}

/// The 802.1X state of the network port that a link bridges to.
#[derive(Clone, Copy, Debug, PartialEq, Eq, Structural, Hash, PartialOrd, Ord)]
pub enum PortAuthState {
    /// No 802.1X port is involved.
    NotApplicable,
    /// The port is closed.
    Unauthenticated,
    /// The exchange is running.
    Authenticating,
    /// The port is open.
    Authenticated,
    /// The exchange failed.
    Failed,
}

impl Default for PortAuthState {
    fn default() -> (r: PortAuthState)
        ensures
            r == PortAuthState::NotApplicable,
    {
        PortAuthState::NotApplicable
    }
}

impl PortAuthState {
    /// The words for the state.
    pub open spec fn words(self) -> Seq<char> {
        match self {
            PortAuthState::NotApplicable => "n/a"@,
            PortAuthState::Unauthenticated => "unauthenticated"@,
            PortAuthState::Authenticating => "authenticating"@,
            PortAuthState::Authenticated => "authenticated"@,
            PortAuthState::Failed => "auth-failed"@,
        }
    }

    /// The words for the state.
    pub fn to_string(&self) -> (r: String)
        ensures
            r@ == self.words(),
    {
        match self {
            PortAuthState::NotApplicable => "n/a".to_owned(),
            PortAuthState::Unauthenticated => "unauthenticated".to_owned(),
            PortAuthState::Authenticating => "authenticating".to_owned(),
            PortAuthState::Authenticated => "authenticated".to_owned(),
            PortAuthState::Failed => "auth-failed".to_owned(),
        }
    }
}

/// The standards context of a link: its radio and its port state.
#[derive(Clone, Copy, Debug, PartialEq, Eq, Structural, Hash, PartialOrd, Ord)]
pub struct StandardsProfile {
    /// The radio standard.
    pub radio: Standard802,
    /// The 802.1X port state.
    pub port_auth: PortAuthState,
}

impl StandardsProfile {
    /// The profile of a plain BR/EDR link.
    pub open spec fn plain() -> StandardsProfile {
        StandardsProfile {
            radio: Standard802::Wpan80215_1,
            port_auth: PortAuthState::NotApplicable,
        }
    }

    /// The text of a profile.
    pub open spec fn words(self) -> Seq<char> {
        self.radio.designation() + " / 802.1X:"@ + self.port_auth.words()
    }

    /// The profile of a plain BR/EDR link.
    pub fn bredr_default() -> (r: StandardsProfile)
        ensures
            r == StandardsProfile::plain(),
    {
        StandardsProfile {
            radio: Standard802::Wpan80215_1,
            port_auth: PortAuthState::NotApplicable,
        }
    }

    /// The same profile over another radio.
    pub fn with_radio(self, radio: Standard802) -> (r: StandardsProfile)
        ensures
            r == (StandardsProfile { radio, port_auth: self.port_auth }),
    {
        StandardsProfile { radio, port_auth: self.port_auth }
    }

    /// The same profile in another port state.
    pub fn with_port_auth(self, state: PortAuthState) -> (r: StandardsProfile)
        ensures
            r == (StandardsProfile { radio: self.radio, port_auth: state }),
    {
        StandardsProfile { radio: self.radio, port_auth: state }
    }

    /// The text of the profile.
    pub fn to_string(&self) -> (r: String)
        ensures
            r@ == self.words(),
    {
        let mut t = self.radio.dotted().to_owned();
        t.append(" / 802.1X:");
        t.append(self.port_auth.to_string().as_str());
        t
    }
}

impl Default for StandardsProfile {
    fn default() -> (r: StandardsProfile)
        ensures
            r == StandardsProfile::plain(),
    {
        StandardsProfile::bredr_default()
    }
}

} // verus!
