//! Port authentication as the states of wpa_supplicant's interfaces show it.
use vstd::prelude::*;
use crate::device::DeviceId;
use crate::standards::{PortAuthState, StandardsProfile};
use crate::text;

verus! {

/// What an interface's state says of its port.
pub open spec fn state_of(state: Seq<char>) -> PortAuthState {
    if state == "completed"@ {
        PortAuthState::Authenticated
    } else if state == "authenticating"@ || state == "associating"@ || state == "associated"@
        || state == "4way_handshake"@ || state == "group_handshake"@ {
        PortAuthState::Authenticating
    } else {
        PortAuthState::Unauthenticated
    }
}

/// What an interface's state says of its port.
pub fn map_state(state: &str) -> (r: PortAuthState)
    ensures
        r == state_of(state@),
{
    if text::same(state, "completed") {
        PortAuthState::Authenticated
    } else if text::same(state, "authenticating") || text::same(state, "associating")
        || text::same(state, "associated") || text::same(state, "4way_handshake") || text::same(
        state,
        "group_handshake",
    ) {
        PortAuthState::Authenticating
    } else {
        PortAuthState::Unauthenticated
    }
}

/// How far a port has come.
pub open spec fn height(s: PortAuthState) -> u8 {
    match s {
        PortAuthState::Authenticated => 4,
        PortAuthState::Authenticating => 3,
        PortAuthState::Failed => 2,
        PortAuthState::Unauthenticated => 1,
        PortAuthState::NotApplicable => 0,
    }
}

/// How far a port has come: of several, the one that has come farthest counts.
pub fn rank(s: PortAuthState) -> (r: u8)
    ensures
        r == height(s),
{
    match s {
        PortAuthState::Authenticated => 4,
        PortAuthState::Authenticating => 3,
        PortAuthState::Failed => 2,
        PortAuthState::Unauthenticated => 1,
        PortAuthState::NotApplicable => 0,
    }
}

/// An interface as wpa_supplicant lists it.
#[derive(Debug)]
pub struct Supplicant {
    /// Its name; empty where it cannot be read.
    pub ifname: String,
    /// Its state, if readable.
    pub state: Option<String>,
}

/// What a [`Supplicant`] holds.
pub struct SupplicantView {
    pub ifname: Seq<char>,
    pub state: Option<Seq<char>>,
}

impl View for Supplicant {
    type V = SupplicantView;

    open spec fn view(&self) -> SupplicantView {
        SupplicantView { ifname: self.ifname@, state: text::optional(self.state) }
    }
}

/// What interfaces hold, one by one.
pub open spec fn supplicants_view(v: Seq<Supplicant>) -> Seq<SupplicantView> {
    v.map_values(|s: Supplicant| s@)
}

/// What an interface contributes, where `wanted` is the only name that counts, if any.
pub open spec fn share(s: SupplicantView, wanted: Option<Seq<char>>) -> PortAuthState {
    if wanted is Some && wanted->0 != s.ifname {
        PortAuthState::NotApplicable
    } else {
        match s.state {
            Some(state) => state_of(state),
            None => PortAuthState::NotApplicable,
        }
    }
}

/// The state of the interface that has come farthest.
pub open spec fn farthest(v: Seq<SupplicantView>, wanted: Option<Seq<char>>) -> PortAuthState
    decreases v.len(),
{
    if v.len() == 0 {
        PortAuthState::NotApplicable
    } else {
        let before = farthest(v.drop_last(), wanted);
        if height(share(v.last(), wanted)) > height(before) {
            share(v.last(), wanted)
        } else {
            before
        }
    }
}

/// The state of the interface that has come farthest, where `ifname` is the only name
/// that counts, if any; not applicable where no interface counts.
pub fn best_state(interfaces: &Vec<Supplicant>, ifname: &Option<String>) -> (r: PortAuthState)
    ensures
        r == farthest(supplicants_view(interfaces@), text::optional(*ifname)),
{
    let ghost all = supplicants_view(interfaces@);
    let ghost wanted = text::optional(*ifname);
    let mut best: PortAuthState = PortAuthState::NotApplicable;
    let mut i: usize = 0;
    while i < interfaces.len()
        invariant
            i <= interfaces@.len(),
            all == supplicants_view(interfaces@),
            wanted == text::optional(*ifname),
            best == farthest(all.take(i as int), wanted),
        decreases interfaces@.len() - i,
    {
        assert(all.take(i + 1).drop_last() =~= all.take(i as int));
        assert(all.take(i + 1).last() == interfaces@[i as int]@);
        let counts: bool = match ifname {
            Some(want) => text::same(want.as_str(), interfaces[i].ifname.as_str()),
            None => true,
        };
        if counts {
            if let Some(state) = &interfaces[i].state {
                let mapped: PortAuthState = map_state(state.as_str());
                if rank(mapped) > rank(best) {
                    best = mapped;
                }
            }
        }
        i = i + 1;
    }
    assert(all.take(i as int) =~= all);
    best
}

/// The state that an interface list gives is that of one of its interfaces that has come
/// at least as far as every other.
pub proof fn most_authenticated_wins(v: Seq<SupplicantView>, wanted: Option<Seq<char>>)
    ensures
        forall|i: int|
            0 <= i < v.len() ==> height(#[trigger] share(v[i], wanted)) <= height(
                farthest(v, wanted),
            ),
        farthest(v, wanted) == PortAuthState::NotApplicable || exists|i: int|
            0 <= i < v.len() && #[trigger] share(v[i], wanted) == farthest(v, wanted),
    decreases v.len(),
{
    if v.len() > 0 {
        let shorter = v.drop_last();
        most_authenticated_wins(shorter, wanted);
        assert forall|i: int| 0 <= i < v.len() implies height(#[trigger] share(v[i], wanted))
            <= height(farthest(v, wanted)) by {
            if i < shorter.len() {
                assert(shorter[i] == v[i]);
                assert(height(share(shorter[i], wanted)) <= height(farthest(shorter, wanted)));
            }
        }
        if farthest(v, wanted) != PortAuthState::NotApplicable {
            if height(share(v.last(), wanted)) > height(farthest(shorter, wanted)) {
                assert(share(v[v.len() - 1], wanted) == farthest(v, wanted));
            } else {
                let i = choose|i: int|
                    0 <= i < shorter.len() && #[trigger] share(shorter[i], wanted) == farthest(
                        shorter,
                        wanted,
                    );
                assert(shorter[i] == v[i]);
                assert(share(v[i], wanted) == farthest(v, wanted));
            }
        }
    }
}

/// The order in which interfaces are listed does not matter.
pub proof fn listing_order_is_irrelevant(
    a: Seq<SupplicantView>,
    b: Seq<SupplicantView>,
    wanted: Option<Seq<char>>,
)
    requires
        forall|s: SupplicantView| a.contains(s) <==> b.contains(s),
    ensures
        farthest(a, wanted) == farthest(b, wanted),
{
    reaches_as_far(a, b, wanted);
    reaches_as_far(b, a, wanted);
}

proof fn reaches_as_far(
    a: Seq<SupplicantView>,
    b: Seq<SupplicantView>,
    wanted: Option<Seq<char>>,
)
    requires
        forall|s: SupplicantView| a.contains(s) ==> b.contains(s),
    ensures
        height(farthest(a, wanted)) <= height(farthest(b, wanted)),
{
    most_authenticated_wins(a, wanted);
    most_authenticated_wins(b, wanted);
    if farthest(a, wanted) != PortAuthState::NotApplicable {
        let i = choose|i: int|
            0 <= i < a.len() && #[trigger] share(a[i], wanted) == farthest(a, wanted);
        assert(a.contains(a[i]));
        let j = choose|j: int| 0 <= j < b.len() && b[j] == a[i];
        assert(height(share(b[j], wanted)) <= height(farthest(b, wanted)));
    }
}

/// The profile of every peer, where the port is in the given state.
pub fn resolve(state: PortAuthState, peer: DeviceId) -> (r: StandardsProfile)
    ensures
        r == (StandardsProfile { port_auth: state, ..StandardsProfile::plain() }),
{
    StandardsProfile::bredr_default().with_port_auth(state)
}

} // verus!
