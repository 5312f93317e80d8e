//! Port authentication as NetworkManager's device states show it.
use vstd::prelude::*;
use crate::address;
use crate::address::BdAddr;
use crate::device::DeviceId;
use crate::standards::{PortAuthState, StandardsProfile};

verus! {

/// The type number of a Bluetooth device.
pub const NM_DEVICE_TYPE_BT: u32 = 5;

/// The state of a device that waits for credentials.
pub const NM_STATE_NEED_AUTH: u32 = 60;

/// The state of a device that is up.
pub const NM_STATE_ACTIVATED: u32 = 100;

/// The state of a device that failed.
pub const NM_STATE_FAILED: u32 = 120;

/// What a device's state says of its port.
pub open spec fn state_of(nm_state: u32) -> PortAuthState {
    if nm_state == NM_STATE_NEED_AUTH {
        PortAuthState::Authenticating
    } else if nm_state == NM_STATE_ACTIVATED {
        PortAuthState::Authenticated
    } else if nm_state == NM_STATE_FAILED {
        PortAuthState::Failed
    } else {
        PortAuthState::Unauthenticated
    }
}

/// What a device's state says of its port.
pub fn map_state(nm_state: u32) -> (r: PortAuthState)
    ensures
        r == state_of(nm_state),
{
    if nm_state == NM_STATE_NEED_AUTH {
        PortAuthState::Authenticating
    } else if nm_state == NM_STATE_ACTIVATED {
        PortAuthState::Authenticated
    } else if nm_state == NM_STATE_FAILED {
        PortAuthState::Failed
    } else {
        PortAuthState::Unauthenticated
    }
}

/// A device as NetworkManager lists it.
#[derive(Debug)]
pub struct NetworkDevice {
    /// The type number.
    pub device_type: u32,
    /// The hardware address, if readable.
    pub hw_address: Option<String>,
    /// The state.
    pub state: u32,
}

/// What a [`NetworkDevice`] holds.
pub struct NetworkDeviceView {
    pub device_type: u32,
    pub hw_address: Option<Seq<char>>,
    pub state: u32,
}

impl View for NetworkDevice {
    type V = NetworkDeviceView;

    open spec fn view(&self) -> NetworkDeviceView {
        NetworkDeviceView {
            device_type: self.device_type,
            hw_address: crate::text::optional(self.hw_address),
            state: self.state,
        }
    }
}

impl NetworkDeviceView {
    /// The Bluetooth address of the device, if it is a Bluetooth device that has one.
    pub open spec fn address(self) -> Option<Seq<u8>> {
        if self.device_type != NM_DEVICE_TYPE_BT {
            None
        } else {
            match self.hw_address {
                Some(s) => address::parsed(s),
                None => None,
            }
        }
    }
}

/// What devices hold, one by one.
pub open spec fn network_view(v: Seq<NetworkDevice>) -> Seq<NetworkDeviceView> {
    v.map_values(|d: NetworkDevice| d@)
}

/// The port states by address that a listing shows; of two entries with one address the
/// later counts.
pub open spec fn ports(v: Seq<NetworkDeviceView>) -> Map<Seq<u8>, PortAuthState>
    decreases v.len(),
{
    if v.len() == 0 {
        Map::empty()
    } else {
        match v.last().address() {
            Some(a) => ports(v.drop_last()).insert(a, state_of(v.last().state)),
            None => ports(v.drop_last()),
        }
    }
}

/// A profile whose port is in the given state.
pub open spec fn profile_with(state: PortAuthState) -> StandardsProfile {
    StandardsProfile { port_auth: state, ..StandardsProfile::plain() }
}

/// The port states last listed, by device.
#[derive(Debug)]
pub struct PortCache {
    /// The entries: no device has two.
    pub entries: Vec<(DeviceId, PortAuthState)>,
}

impl View for PortCache {
    type V = Map<Seq<u8>, PortAuthState>;

    closed spec fn view(&self) -> Map<Seq<u8>, PortAuthState> {
        Map::new(
            |a: Seq<u8>| exists|i: int| held_at(self.entries@, i, a),
            |a: Seq<u8>| self.entries@[choose|i: int| held_at(self.entries@, i, a)].1,
        )
    }
}

/// Whether entry `i` is for address `a`.
pub open spec fn held_at(entries: Seq<(DeviceId, PortAuthState)>, i: int, a: Seq<u8>) -> bool {
    0 <= i < entries.len() && entries[i].0.addr@ == a
}

impl PortCache {
    /// Every entry is for a public identity, and no identity has two.
    pub open spec fn ok(self) -> bool {
        &&& forall|i: int|
            0 <= i < self.entries@.len() ==> (#[trigger] self.entries@[i]).0 == DeviceId::at(
                self.entries@[i].0.addr,
            )
        &&& forall|i: int, j: int|
            0 <= i < j < self.entries@.len() ==> (#[trigger] self.entries@[i]).0.addr@ != (
            #[trigger] self.entries@[j]).0.addr@
    }

    proof fn view_of_entry(self, i: int)
        requires
            self.ok(),
            0 <= i < self.entries@.len(),
        ensures
            self@.contains_key(self.entries@[i].0.addr@),
            self@[self.entries@[i].0.addr@] == self.entries@[i].1,
    {
        let a = self.entries@[i].0.addr@;
        assert(held_at(self.entries@, i, a));
        let c = choose|k: int| held_at(self.entries@, k, a);
        assert(held_at(self.entries@, c, a));
        if c < i {
            assert(self.entries@[c].0.addr@ != self.entries@[i].0.addr@);
        } else if i < c {
            assert(self.entries@[i].0.addr@ != self.entries@[c].0.addr@);
        }
    }

    /// A cache that knows no device.
    pub fn new() -> (r: PortCache)
        ensures
            r.ok(),
            r@ == Map::<Seq<u8>, PortAuthState>::empty(),
    {
        let r = PortCache { entries: Vec::new() };
        assert forall|a: Seq<u8>| !r@.contains_key(a) by {
            assert(forall|i: int| !held_at(r.entries@, i, a));
        }
        assert(r@ =~= Map::<Seq<u8>, PortAuthState>::empty());
        r
    }

    fn set(&mut self, addr: BdAddr, state: PortAuthState)
        requires
            old(self).ok(),
        ensures
            final(self).ok(),
            final(self)@ == old(self)@.insert(addr@, state),
    {
        let mut i: usize = 0;
        while i < self.entries.len()
            invariant
                i <= self.entries@.len(),
                self.entries@ == old(self).entries@,
                self.ok(),
                forall|j: int| 0 <= j < i ==> (#[trigger] self.entries@[j]).0.addr@ != addr@,
            decreases self.entries@.len() - i,
        {
            if self.entries[i].0.addr == addr {
                let id: DeviceId = self.entries[i].0;
                self.entries.set(i, (id, state));
                proof {
                    let was = *old(self);
                    assert forall|j: int, k: int|
                        0 <= j < k < self.entries@.len() implies (
                    #[trigger] self.entries@[j]).0.addr@ != (
                    #[trigger] self.entries@[k]).0.addr@ by {
                        assert(was.entries@[j].0.addr@ != was.entries@[k].0.addr@);
                    }
                    assert forall|j: int| 0 <= j < self.entries@.len() implies (
                    #[trigger] self.entries@[j]).0 == DeviceId::at(self.entries@[j].0.addr) by {
                        assert(was.entries@[j].0 == DeviceId::at(was.entries@[j].0.addr));
                    }
                    self.replaced(was, i as int, addr, state);
                }
                return;
            }
            i = i + 1;
        }
        self.entries.push((DeviceId::public(addr), state));
        proof {
            let was = *old(self);
            assert forall|j: int, k: int| 0 <= j < k < self.entries@.len() implies (
            #[trigger] self.entries@[j]).0.addr@ != (#[trigger] self.entries@[k]).0.addr@ by {
                if k < was.entries@.len() {
                    assert(was.entries@[j].0.addr@ != was.entries@[k].0.addr@);
                } else {
                    assert(self.entries@[j] == was.entries@[j]);
                }
            }
            assert forall|j: int| 0 <= j < self.entries@.len() implies (
            #[trigger] self.entries@[j]).0 == DeviceId::at(self.entries@[j].0.addr) by {
                if j < was.entries@.len() {
                    assert(was.entries@[j].0 == DeviceId::at(was.entries@[j].0.addr));
                }
            }
            self.replaced(was, was.entries@.len() as int, addr, state);
        }
    }

    proof fn replaced(self, was: PortCache, at: int, addr: BdAddr, state: PortAuthState)
        requires
            self.ok(),
            was.ok(),
            0 <= at < self.entries@.len(),
            at <= was.entries@.len(),
            self.entries@.len() == if at < was.entries@.len() {
                was.entries@.len()
            } else {
                was.entries@.len() + 1
            },
            self.entries@[at].0.addr@ == addr@,
            self.entries@[at].1 == state,
            at < was.entries@.len() ==> was.entries@[at].0.addr@ == addr@,
            forall|j: int|
                0 <= j < self.entries@.len() && j != at ==> (#[trigger] self.entries@[j])
                    == was.entries@[j],
        ensures
            self@ == was@.insert(addr@, state),
    {
        let put = was@.insert(addr@, state);
        self.view_of_entry(at);
        assert forall|a: Seq<u8>| self@.contains_key(a) == #[trigger] put.contains_key(a) by {
            if a != addr@ {
                if self@.contains_key(a) {
                    let c = choose|k: int| held_at(self.entries@, k, a);
                    assert(held_at(self.entries@, c, a));
                    assert(held_at(was.entries@, c, a));
                }
                if was@.contains_key(a) {
                    let c = choose|k: int| held_at(was.entries@, k, a);
                    assert(held_at(was.entries@, c, a));
                    assert(self.entries@[c] == was.entries@[c]);
                    assert(held_at(self.entries@, c, a));
                }
            }
        }
        assert forall|a: Seq<u8>| self@.contains_key(a) implies #[trigger] self@[a] == put[a] by {
            if a != addr@ {
                let c = choose|k: int| held_at(self.entries@, k, a);
                assert(held_at(self.entries@, c, a));
                assert(self.entries@[c] == was.entries@[c]);
                was.view_of_entry(c);
                self.view_of_entry(c);
            }
        }
        assert(self@ =~= put);
    }

    /// The cache that a listing gives; what was known before is forgotten.
    pub fn refreshed(devices: &Vec<NetworkDevice>) -> (r: PortCache)
        ensures
            r.ok(),
            r@ == ports(network_view(devices@)),
    {
        let mut cache = PortCache::new();
        let ghost all = network_view(devices@);
        let mut i: usize = 0;
        while i < devices.len()
            invariant
                i <= devices@.len(),
                all == network_view(devices@),
                cache.ok(),
                cache@ == ports(all.take(i as int)),
            decreases devices@.len() - i,
        {
            assert(all.take(i + 1).drop_last() =~= all.take(i as int));
            assert(all.take(i + 1).last() == devices@[i as int]@);
            if devices[i].device_type == NM_DEVICE_TYPE_BT {
                if let Some(s) = &devices[i].hw_address {
                    if let Ok(addr) = BdAddr::parse(s.as_str()) {
                        cache.set(addr, map_state(devices[i].state));
                    }
                }
            }
            i = i + 1;
        }
        assert(all.take(i as int) =~= all);
        cache
    }

    /// The profile of a peer: its port state where a public identity of that address is
    /// known, and none otherwise.
    pub fn resolve(&self, peer: DeviceId) -> (r: StandardsProfile)
        requires
            self.ok(),
        ensures
            r == profile_with(
                if peer == DeviceId::at(peer.addr) && self@.contains_key(peer.addr@) {
                    self@[peer.addr@]
                } else {
                    PortAuthState::NotApplicable
                },
            ),
    {
        let mut i: usize = 0;
        while i < self.entries.len()
            invariant
                i <= self.entries@.len(),
                self.ok(),
                forall|j: int| 0 <= j < i ==> (#[trigger] self.entries@[j]).0 != peer,
            decreases self.entries@.len() - i,
        {
            if self.entries[i].0 == peer {
                proof {
                    self.view_of_entry(i as int);
                }
                return StandardsProfile::bredr_default().with_port_auth(self.entries[i].1);
            }
            i = i + 1;
        }
        proof {
            if peer == DeviceId::at(peer.addr) && self@.contains_key(peer.addr@) {
                let c = choose|k: int| held_at(self.entries@, k, peer.addr@);
                assert(held_at(self.entries@, c, peer.addr@));
                assert(self.entries@[c].0 == DeviceId::at(self.entries@[c].0.addr));
                assert(self.entries@[c].0.addr@ == peer.addr@);
            }
        }
        StandardsProfile::bredr_default().with_port_auth(PortAuthState::NotApplicable)
    }
}

} // verus!
