//! The scan orchestrator and resource list walker, as a state machine.
//!
//! The OS owns the session handle, the interface list, and one profile list
//! per interface; acquiring, inspecting and releasing them happens outside
//! this library. The machine here makes every decision of the scan: each
//! step takes the event that ended the previous action and returns the next
//! state together with the next action for the driver to perform. Driving it
//! is a loop of perform-action, feed-event; the contracts and lemmas below
//! pin down that every acquired list and the session handle are released
//! exactly once on every path, and that one interface's failure never stops
//! the scan of its successors.
use vstd::prelude::*;

verus! {

/// Where the scan stands: which resource is live and which answer is awaited.
#[derive(PartialEq, Eq, Structural, Clone, Copy, Debug)]
pub enum ScanState {
    /// A session handle has been requested.
    OpeningSession,
    /// The interface list has been requested.
    AcquiringInterfaces,
    /// Interface `iface` of `n_ifaces` is being inspected (its description
    /// decoded) before its profiles are requested.
    InspectingInterface { n_ifaces: u64, iface: u64 },
    /// The profile list of interface `iface` has been requested.
    AcquiringProfiles { n_ifaces: u64, iface: u64 },
    /// Profile `profile` of `n_profiles` on interface `iface` is being
    /// handled (name decoded, document fetched, parsed and classified).
    HandlingProfile { n_ifaces: u64, iface: u64, n_profiles: u64, profile: u64 },
    /// The current interface's profile list is being released.
    ReleasingProfiles { n_ifaces: u64, iface: u64 },
    /// The interface list is being released.
    ReleasingInterfaces,
    /// The session handle is being closed; `failed` carries the exit status.
    ClosingSession { failed: bool },
    /// The scan is over; `failed` is true only after a fatal failure.
    Finished { failed: bool },
}

/// What the driver reports back after performing the previous action.
#[derive(PartialEq, Eq, Structural, Clone, Copy, Debug)]
pub enum ScanEvent {
    SessionOpened,
    SessionFailed,
    InterfaceListAcquired { count: u64 },
    InterfaceListFailed,
    /// The interface's description decoded; its profiles can be requested.
    InterfaceUsable,
    /// The interface's description did not decode; it is skipped whole.
    InterfaceUnusable,
    ProfileListAcquired { count: u64 },
    ProfileListFailed,
    /// The profile was handled, whether its credentials were recovered,
    /// degraded or skipped; every outcome continues the walk.
    ProfileHandled,
    ProfileListReleased,
    InterfaceListReleased,
    SessionClosed,
}

/// What the driver is to do next.
#[derive(PartialEq, Eq, Structural, Clone, Copy, Debug)]
pub enum ScanAction {
    OpenSession,
    AcquireInterfaceList,
    InspectInterface { iface: u64 },
    AcquireProfileList { iface: u64 },
    HandleProfile { iface: u64, profile: u64 },
    ReleaseProfileList,
    ReleaseInterfaceList,
    CloseSession,
    /// Terminal: report the exit status; no event follows.
    Exit { failed: bool },
}

/// Indices kept inside the bounds they count against.
pub open spec fn state_wf(s: ScanState) -> bool {
    match s {
        ScanState::InspectingInterface { n_ifaces, iface } => iface < n_ifaces,
        ScanState::AcquiringProfiles { n_ifaces, iface } => iface < n_ifaces,
        ScanState::HandlingProfile { n_ifaces, iface, n_profiles, profile } => iface < n_ifaces
            && profile < n_profiles,
        ScanState::ReleasingProfiles { n_ifaces, iface } => iface < n_ifaces,
        _ => true,
    }
}

/// The event that each awaiting state accepts.
pub open spec fn expects(s: ScanState, e: ScanEvent) -> bool {
    match s {
        ScanState::OpeningSession => e == ScanEvent::SessionOpened || e
            == ScanEvent::SessionFailed,
        ScanState::AcquiringInterfaces => (e matches ScanEvent::InterfaceListAcquired { .. }) || e
            == ScanEvent::InterfaceListFailed,
        ScanState::InspectingInterface { .. } => e == ScanEvent::InterfaceUsable || e
            == ScanEvent::InterfaceUnusable,
        ScanState::AcquiringProfiles { .. } => (e matches ScanEvent::ProfileListAcquired { .. })
            || e == ScanEvent::ProfileListFailed,
        ScanState::HandlingProfile { .. } => e == ScanEvent::ProfileHandled,
        ScanState::ReleasingProfiles { .. } => e == ScanEvent::ProfileListReleased,
        ScanState::ReleasingInterfaces => e == ScanEvent::InterfaceListReleased,
        ScanState::ClosingSession { .. } => e == ScanEvent::SessionClosed,
        ScanState::Finished { .. } => false,
    }
}

/// Move to interface `next` of `n_ifaces`, or to releasing the interface
/// list once every interface has been considered.
pub open spec fn spec_next_interface(n_ifaces: u64, next: u64) -> (ScanState, ScanAction) {
    if next < n_ifaces {
        (
            ScanState::InspectingInterface { n_ifaces, iface: next },
            ScanAction::InspectInterface { iface: next },
        )
    } else {
        (ScanState::ReleasingInterfaces, ScanAction::ReleaseInterfaceList)
    }
}

/// The whole transition relation of the scan. A profile-list failure on one
/// interface moves on to the next interface; an interface-list failure is
/// fatal but still closes the session; a session-open failure exits with
/// nothing to release.
pub open spec fn spec_step(s: ScanState, e: ScanEvent) -> (ScanState, ScanAction) {
    match (s, e) {
        (ScanState::OpeningSession, ScanEvent::SessionOpened) => (
            ScanState::AcquiringInterfaces,
            ScanAction::AcquireInterfaceList,
        ),
        (ScanState::OpeningSession, ScanEvent::SessionFailed) => (
            ScanState::Finished { failed: true },
            ScanAction::Exit { failed: true },
        ),
        (ScanState::AcquiringInterfaces, ScanEvent::InterfaceListAcquired { count }) => (
            spec_next_interface(count, 0)
        ),
        (ScanState::AcquiringInterfaces, ScanEvent::InterfaceListFailed) => (
            ScanState::ClosingSession { failed: true },
            ScanAction::CloseSession,
        ),
        (ScanState::InspectingInterface { n_ifaces, iface }, ScanEvent::InterfaceUsable) => (
            ScanState::AcquiringProfiles { n_ifaces, iface },
            ScanAction::AcquireProfileList { iface },
        ),
        (ScanState::InspectingInterface { n_ifaces, iface }, ScanEvent::InterfaceUnusable) => (
            spec_next_interface(n_ifaces, (iface + 1) as u64)
        ),
        (ScanState::AcquiringProfiles { n_ifaces, iface }, ScanEvent::ProfileListAcquired {
            count,
        }) => if count > 0 {
            (
                ScanState::HandlingProfile { n_ifaces, iface, n_profiles: count, profile: 0 },
                ScanAction::HandleProfile { iface, profile: 0 },
            )
        } else {
            (ScanState::ReleasingProfiles { n_ifaces, iface }, ScanAction::ReleaseProfileList)
        },
        (ScanState::AcquiringProfiles { n_ifaces, iface }, ScanEvent::ProfileListFailed) => (
            spec_next_interface(n_ifaces, (iface + 1) as u64)
        ),
        (ScanState::HandlingProfile { n_ifaces, iface, n_profiles, profile },
            ScanEvent::ProfileHandled,
        ) => if profile + 1 < n_profiles {
            (
                ScanState::HandlingProfile {
                    n_ifaces,
                    iface,
                    n_profiles,
                    profile: (profile + 1) as u64,
                },
                ScanAction::HandleProfile { iface, profile: (profile + 1) as u64 },
            )
        } else {
            (ScanState::ReleasingProfiles { n_ifaces, iface }, ScanAction::ReleaseProfileList)
        },
        (ScanState::ReleasingProfiles { n_ifaces, iface }, ScanEvent::ProfileListReleased) => (
            spec_next_interface(n_ifaces, (iface + 1) as u64)
        ),
        (ScanState::ReleasingInterfaces, ScanEvent::InterfaceListReleased) => (
            ScanState::ClosingSession { failed: false },
            ScanAction::CloseSession,
        ),
        (ScanState::ClosingSession { failed }, ScanEvent::SessionClosed) => (
            ScanState::Finished { failed },
            ScanAction::Exit { failed },
        ),
        // Unreachable for awaited events: every pairing `expects` admits is
        // matched above.
        _ => (s, ScanAction::Exit { failed: true }),
    }
}

/// Start a scan: the first action is opening the session.
pub fn init() -> (r: (ScanState, ScanAction))
    ensures
        r.0 == ScanState::OpeningSession,
        r.1 == ScanAction::OpenSession,
        state_wf(r.0),
{
    (ScanState::OpeningSession, ScanAction::OpenSession)
}

/// Whether `e` is the event the state `s` is waiting for; an unverified
/// driver can test `step`'s precondition with this before calling it.
pub fn accepts(s: ScanState, e: ScanEvent) -> (r: bool)
    ensures
        r == expects(s, e),
{
    match s {
        ScanState::OpeningSession => e == ScanEvent::SessionOpened || e
            == ScanEvent::SessionFailed,
        ScanState::AcquiringInterfaces => (matches!(e, ScanEvent::InterfaceListAcquired { .. }))
            || e == ScanEvent::InterfaceListFailed,
        ScanState::InspectingInterface { .. } => e == ScanEvent::InterfaceUsable || e
            == ScanEvent::InterfaceUnusable,
        ScanState::AcquiringProfiles { .. } => (matches!(e, ScanEvent::ProfileListAcquired { .. }))
            || e == ScanEvent::ProfileListFailed,
        ScanState::HandlingProfile { .. } => e == ScanEvent::ProfileHandled,
        ScanState::ReleasingProfiles { .. } => e == ScanEvent::ProfileListReleased,
        ScanState::ReleasingInterfaces => e == ScanEvent::InterfaceListReleased,
        ScanState::ClosingSession { .. } => e == ScanEvent::SessionClosed,
        ScanState::Finished { .. } => false,
    }
}

/// One decision of the scan: from the current state and the event that ended
/// the previous action, the next state and the next action.
pub fn step(s: ScanState, e: ScanEvent) -> (r: (ScanState, ScanAction))
    requires
        state_wf(s),
        expects(s, e),
    ensures
        r == spec_step(s, e),
        state_wf(r.0),
{
    match (s, e) {
        (ScanState::OpeningSession, ScanEvent::SessionOpened) => (
            ScanState::AcquiringInterfaces,
            ScanAction::AcquireInterfaceList,
        ),
        (ScanState::OpeningSession, ScanEvent::SessionFailed) => (
            ScanState::Finished { failed: true },
            ScanAction::Exit { failed: true },
        ),
        (ScanState::AcquiringInterfaces, ScanEvent::InterfaceListAcquired { count }) => (
            next_interface(count, 0)
        ),
        (ScanState::AcquiringInterfaces, ScanEvent::InterfaceListFailed) => (
            ScanState::ClosingSession { failed: true },
            ScanAction::CloseSession,
        ),
        (ScanState::InspectingInterface { n_ifaces, iface }, ScanEvent::InterfaceUsable) => (
            ScanState::AcquiringProfiles { n_ifaces, iface },
            ScanAction::AcquireProfileList { iface },
        ),
        (ScanState::InspectingInterface { n_ifaces, iface }, ScanEvent::InterfaceUnusable) => (
            next_interface(n_ifaces, iface + 1)
        ),
        (ScanState::AcquiringProfiles { n_ifaces, iface }, ScanEvent::ProfileListAcquired {
            count,
        }) => if count > 0 {
            (
                ScanState::HandlingProfile { n_ifaces, iface, n_profiles: count, profile: 0 },
                ScanAction::HandleProfile { iface, profile: 0 },
            )
        } else {
            (ScanState::ReleasingProfiles { n_ifaces, iface }, ScanAction::ReleaseProfileList)
        },
        (ScanState::AcquiringProfiles { n_ifaces, iface }, ScanEvent::ProfileListFailed) => (
            next_interface(n_ifaces, iface + 1)
        ),
        (ScanState::HandlingProfile { n_ifaces, iface, n_profiles, profile },
            ScanEvent::ProfileHandled,
        ) => if profile + 1 < n_profiles {
            (
                ScanState::HandlingProfile { n_ifaces, iface, n_profiles, profile: profile + 1 },
                ScanAction::HandleProfile { iface, profile: profile + 1 },
            )
        } else {
            (ScanState::ReleasingProfiles { n_ifaces, iface }, ScanAction::ReleaseProfileList)
        },
        (ScanState::ReleasingProfiles { n_ifaces, iface }, ScanEvent::ProfileListReleased) => (
            next_interface(n_ifaces, iface + 1)
        ),
        (ScanState::ReleasingInterfaces, ScanEvent::InterfaceListReleased) => (
            ScanState::ClosingSession { failed: false },
            ScanAction::CloseSession,
        ),
        (ScanState::ClosingSession { failed }, ScanEvent::SessionClosed) => (
            ScanState::Finished { failed },
            ScanAction::Exit { failed },
        ),
        _ => (s, ScanAction::Exit { failed: true }),
    }
}

/// The state a scan is in after the events `evs`, starting from the initial
/// state.
pub open spec fn state_after(evs: Seq<ScanEvent>) -> ScanState
    decreases evs.len(),
{
    if evs.len() == 0 {
        ScanState::OpeningSession
    } else {
        spec_step(state_after(evs.drop_last()), evs.last()).0
    }
}

/// Every event of `evs`, in order, is the answer the then-current state was
/// waiting for.
pub open spec fn valid_trace(evs: Seq<ScanEvent>) -> bool
    decreases evs.len(),
{
    evs.len() == 0 || (valid_trace(evs.drop_last()) && expects(
        state_after(evs.drop_last()),
        evs.last(),
    ))
}

/// Every action the machine has ordered over the events `evs`, in order,
/// beginning with opening the session.
pub open spec fn actions_after(evs: Seq<ScanEvent>) -> Seq<ScanAction>
    decreases evs.len(),
{
    if evs.len() == 0 {
        seq![ScanAction::OpenSession]
    } else {
        actions_after(evs.drop_last()).push(
            spec_step(state_after(evs.drop_last()), evs.last()).1,
        )
    }
}

/// How many profile lists the driver has reported acquired.
pub open spec fn profile_lists_acquired(evs: Seq<ScanEvent>) -> nat
    decreases evs.len(),
{
    if evs.len() == 0 {
        0
    } else {
        profile_lists_acquired(evs.drop_last()) + (if evs.last() matches
            ScanEvent::ProfileListAcquired { .. } {
            1nat
        } else {
            0nat
        })
    }
}

/// How many profile-list releases the driver has reported done.
pub open spec fn profile_lists_released(evs: Seq<ScanEvent>) -> nat
    decreases evs.len(),
{
    if evs.len() == 0 {
        0
    } else {
        profile_lists_released(evs.drop_last()) + (if evs.last()
            == ScanEvent::ProfileListReleased {
            1nat
        } else {
            0nat
        })
    }
}

/// How many interface lists the driver has reported acquired.
pub open spec fn interface_lists_acquired(evs: Seq<ScanEvent>) -> nat
    decreases evs.len(),
{
    if evs.len() == 0 {
        0
    } else {
        interface_lists_acquired(evs.drop_last()) + (if evs.last() matches
            ScanEvent::InterfaceListAcquired { .. } {
            1nat
        } else {
            0nat
        })
    }
}

/// How many interface-list releases the driver has reported done.
pub open spec fn interface_lists_released(evs: Seq<ScanEvent>) -> nat
    decreases evs.len(),
{
    if evs.len() == 0 {
        0
    } else {
        interface_lists_released(evs.drop_last()) + (if evs.last()
            == ScanEvent::InterfaceListReleased {
            1nat
        } else {
            0nat
        })
    }
}

/// How many sessions the driver has reported opened.
pub open spec fn sessions_opened(evs: Seq<ScanEvent>) -> nat
    decreases evs.len(),
{
    if evs.len() == 0 {
        0
    } else {
        sessions_opened(evs.drop_last()) + (if evs.last() == ScanEvent::SessionOpened {
            1nat
        } else {
            0nat
        })
    }
}

/// How many session closes the driver has reported done.
pub open spec fn sessions_closed(evs: Seq<ScanEvent>) -> nat
    decreases evs.len(),
{
    if evs.len() == 0 {
        0
    } else {
        sessions_closed(evs.drop_last()) + (if evs.last() == ScanEvent::SessionClosed {
            1nat
        } else {
            0nat
        })
    }
}

/// How many profile-list releases the machine has ordered.
pub open spec fn profile_releases_ordered(acts: Seq<ScanAction>) -> nat
    decreases acts.len(),
{
    if acts.len() == 0 {
        0
    } else {
        profile_releases_ordered(acts.drop_last()) + (if acts.last()
            == ScanAction::ReleaseProfileList {
            1nat
        } else {
            0nat
        })
    }
}

/// How many interface-list releases the machine has ordered.
pub open spec fn interface_releases_ordered(acts: Seq<ScanAction>) -> nat
    decreases acts.len(),
{
    if acts.len() == 0 {
        0
    } else {
        interface_releases_ordered(acts.drop_last()) + (if acts.last()
            == ScanAction::ReleaseInterfaceList {
            1nat
        } else {
            0nat
        })
    }
}

/// How many session closes the machine has ordered.
pub open spec fn closes_ordered(acts: Seq<ScanAction>) -> nat
    decreases acts.len(),
{
    if acts.len() == 0 {
        0
    } else {
        closes_ordered(acts.drop_last()) + (if acts.last() == ScanAction::CloseSession {
            1nat
        } else {
            0nat
        })
    }
}

/// A profile list is live: acquired and its release not yet reported.
pub open spec fn profile_list_held(s: ScanState) -> bool {
    (s matches ScanState::HandlingProfile { .. }) || (s matches ScanState::ReleasingProfiles {
        .. })
}

/// The interface list is live.
pub open spec fn interface_list_held(s: ScanState) -> bool {
    (s matches ScanState::InspectingInterface { .. }) || (s matches ScanState::AcquiringProfiles {
        .. }) || (s matches ScanState::HandlingProfile { .. }) || (s matches
    ScanState::ReleasingProfiles { .. }) || s == ScanState::ReleasingInterfaces
}

/// The session handle is live.
pub open spec fn session_live(s: ScanState) -> bool {
    !(s == ScanState::OpeningSession) && !(s matches ScanState::Finished { .. })
}

/// The exact bookkeeping the scan maintains: each live resource is exactly
/// the gap between its acquisitions and its (ordered, then completed)
/// releases.
pub open spec fn balanced(evs: Seq<ScanEvent>) -> bool {
    let s = state_after(evs);
    let acts = actions_after(evs);
    &&& profile_releases_ordered(acts) + (if profile_list_held(s) && !(s matches
        ScanState::ReleasingProfiles { .. }) {
        1int
    } else {
        0int
    }) == profile_lists_acquired(evs)
    &&& profile_lists_released(evs) + (if profile_list_held(s) {
        1int
    } else {
        0int
    }) == profile_lists_acquired(evs)
    &&& interface_releases_ordered(acts) + (if interface_list_held(s) && s
        != ScanState::ReleasingInterfaces {
        1int
    } else {
        0int
    }) == interface_lists_acquired(evs)
    &&& interface_lists_released(evs) + (if interface_list_held(s) {
        1int
    } else {
        0int
    }) == interface_lists_acquired(evs)
    &&& closes_ordered(acts) + (if session_live(s) && !(s matches ScanState::ClosingSession {
        .. }) {
        1int
    } else {
        0int
    }) == sessions_opened(evs)
    &&& sessions_closed(evs) + (if session_live(s) {
        1int
    } else {
        0int
    }) == sessions_opened(evs)
}

/// Along any valid trace the bookkeeping above is an invariant, and the
/// machine's state stays well formed.
pub proof fn lemma_trace_balanced(evs: Seq<ScanEvent>)
    requires
        valid_trace(evs),
    ensures
        balanced(evs),
        state_wf(state_after(evs)),
    decreases evs.len(),
{
    if evs.len() == 0 {
        reveal_with_fuel(profile_releases_ordered, 2);
        reveal_with_fuel(interface_releases_ordered, 2);
        reveal_with_fuel(closes_ordered, 2);
        let acts = actions_after(evs);
        assert(acts == seq![ScanAction::OpenSession]);
        assert(acts.drop_last() =~= Seq::<ScanAction>::empty());
        assert(acts.last() == ScanAction::OpenSession);
        assert(profile_releases_ordered(acts) == 0);
        assert(interface_releases_ordered(acts) == 0);
        assert(closes_ordered(acts) == 0);
    } else {
        lemma_trace_balanced(evs.drop_last());
        let prev = evs.drop_last();
        let e = evs.last();
        let s1 = state_after(prev);
        let a = spec_step(s1, e).1;
        let pacts = actions_after(prev);
        let acts = actions_after(evs);
        assert(acts == pacts.push(a));
        assert(acts.drop_last() =~= pacts);
        assert(acts.last() == a);
    }
}

/// Resource-list releases happen exactly once per acquisition: never is a
/// release ordered for a list or handle that is not held, and a finished
/// scan has ordered and completed exactly one release per acquisition — no
/// double release, no leak. This covers both list walks and the session.
pub proof fn lemma_release_exactly_once(evs: Seq<ScanEvent>)
    requires
        valid_trace(evs),
    ensures
        profile_releases_ordered(actions_after(evs)) <= profile_lists_acquired(evs),
        interface_releases_ordered(actions_after(evs)) <= interface_lists_acquired(evs),
        closes_ordered(actions_after(evs)) <= sessions_opened(evs),
        state_after(evs) matches ScanState::Finished { .. } ==> {
            &&& profile_releases_ordered(actions_after(evs)) == profile_lists_acquired(evs)
            &&& profile_lists_released(evs) == profile_lists_acquired(evs)
            &&& interface_releases_ordered(actions_after(evs)) == interface_lists_acquired(evs)
            &&& interface_lists_released(evs) == interface_lists_acquired(evs)
            &&& closes_ordered(actions_after(evs)) == sessions_opened(evs)
            &&& sessions_closed(evs) == sessions_opened(evs)
        },
{
    lemma_trace_balanced(evs);
}

/// The number of interfaces the driver has reported the acquired list to
/// hold, once it has reported one.
pub open spec fn interface_count(evs: Seq<ScanEvent>) -> Option<u64>
    decreases evs.len(),
{
    if evs.len() == 0 {
        None
    } else {
        match evs.last() {
            ScanEvent::InterfaceListAcquired { count } => Some(count),
            _ => interface_count(evs.drop_last()),
        }
    }
}

/// The machine has, at some point, ordered interface `k` inspected.
pub open spec fn inspected(acts: Seq<ScanAction>, k: u64) -> bool {
    exists|j: int|
        #![trigger acts[j]]
        0 <= j < acts.len() && acts[j] == (ScanAction::InspectInterface { iface: k })
}

/// While the interface walk runs, every interface up to the current one has
/// been ordered inspected; once it is over, every interface of the acquired
/// list has been.
pub open spec fn coverage_inv(evs: Seq<ScanEvent>) -> bool {
    let s = state_after(evs);
    let acts = actions_after(evs);
    match s {
        ScanState::OpeningSession => interface_count(evs) is None,
        ScanState::AcquiringInterfaces => interface_count(evs) is None,
        ScanState::InspectingInterface { n_ifaces, iface } => interface_count(evs) == Some(
            n_ifaces,
        ) && forall|k: u64| k <= iface ==> inspected(acts, k),
        ScanState::AcquiringProfiles { n_ifaces, iface } => interface_count(evs) == Some(n_ifaces)
            && forall|k: u64| k <= iface ==> inspected(acts, k),
        ScanState::HandlingProfile { n_ifaces, iface, .. } => interface_count(evs) == Some(
            n_ifaces,
        ) && forall|k: u64| k <= iface ==> inspected(acts, k),
        ScanState::ReleasingProfiles { n_ifaces, iface } => interface_count(evs) == Some(n_ifaces)
            && forall|k: u64| k <= iface ==> inspected(acts, k),
        _ => interface_count(evs) matches Some(n) ==> forall|k: u64| k < n ==> inspected(acts, k),
    }
}

proof fn lemma_coverage_inv(evs: Seq<ScanEvent>)
    requires
        valid_trace(evs),
    ensures
        coverage_inv(evs),
    decreases evs.len(),
{
    if evs.len() > 0 {
        lemma_coverage_inv(evs.drop_last());
        lemma_trace_balanced(evs.drop_last());
        let prev = evs.drop_last();
        let e = evs.last();
        let s1 = state_after(prev);
        let a = spec_step(s1, e).1;
        let pacts = actions_after(prev);
        let acts = actions_after(evs);
        assert(acts == pacts.push(a));
        assert forall|k: u64| inspected(pacts, k) implies inspected(acts, k) by {
            let j = choose|j: int|
                0 <= j < pacts.len() && #[trigger] pacts[j] == (ScanAction::InspectInterface {
                    iface: k,
                });
            assert(acts[j] == pacts[j]);
        }
        if a is InspectInterface {
            let iface = a->InspectInterface_iface;
            assert(acts[pacts.len() as int] == a);
            assert(inspected(acts, iface));
        }
    }
}

/// Whatever failed along the way — undecodable descriptions, unavailable
/// profile lists, skipped profiles — a finished scan has ordered an
/// inspection of every interface the acquired list held: one interface's
/// failure never costs its successors their turn.
pub proof fn lemma_every_interface_inspected(evs: Seq<ScanEvent>)
    requires
        valid_trace(evs),
        state_after(evs) matches ScanState::Finished { .. },
    ensures
        interface_count(evs) matches Some(n) ==> forall|k: u64|
            k < n ==> inspected(actions_after(evs), k),
{
    lemma_coverage_inv(evs);
}

/// A well-founded measure of how much scanning is left: the phase, the
/// interfaces not yet finished, the stage within one interface, and the
/// profiles not yet handled on it.
pub open spec fn scan_measure(s: ScanState) -> (int, int, int, int) {
    match s {
        ScanState::OpeningSession => (9, 0, 0, 0),
        ScanState::AcquiringInterfaces => (8, 0, 0, 0),
        ScanState::InspectingInterface { n_ifaces, iface } => (7, n_ifaces - iface, 3, 0),
        ScanState::AcquiringProfiles { n_ifaces, iface } => (7, n_ifaces - iface, 2, 0),
        ScanState::HandlingProfile { n_ifaces, iface, n_profiles, profile } => (
            7,
            n_ifaces - iface,
            1,
            n_profiles - profile,
        ),
        ScanState::ReleasingProfiles { n_ifaces, iface } => (7, n_ifaces - iface, 0, 0),
        ScanState::ReleasingInterfaces => (6, 0, 0, 0),
        ScanState::ClosingSession { .. } => (5, 0, 0, 0),
        ScanState::Finished { .. } => (0, 0, 0, 0),
    }
}

/// Strict lexicographic order on the measure.
pub open spec fn lex_lt(a: (int, int, int, int), b: (int, int, int, int)) -> bool {
    a.0 < b.0 || (a.0 == b.0 && (a.1 < b.1 || (a.1 == b.1 && (a.2 < b.2 || (a.2 == b.2 && a.3
        < b.3)))))
}

/// All components of the measure stay at or above zero.
pub open spec fn measure_nonneg(m: (int, int, int, int)) -> bool {
    m.0 >= 0 && m.1 >= 0 && m.2 >= 0 && m.3 >= 0
}

/// The scan cannot run forever: every awaited event strictly decreases a
/// measure that cannot fall below zero, so after finitely many collaborator
/// answers the machine reaches its final state.
pub proof fn lemma_step_progress(s: ScanState, e: ScanEvent)
    requires
        state_wf(s),
        expects(s, e),
    ensures
        measure_nonneg(scan_measure(s)),
        measure_nonneg(scan_measure(spec_step(s, e).0)),
        lex_lt(scan_measure(spec_step(s, e).0), scan_measure(s)),
{
}

/// A failure to acquire the profile list of one interface only moves the
/// scan on: the next interface is inspected, or, when none is left, the
/// interface list is released — never an abort, never a stray release.
pub proof fn lemma_profile_list_failure_continues(n_ifaces: u64, iface: u64)
    requires
        iface < n_ifaces,
    ensures
        ({
            let (s2, a) = spec_step(
                ScanState::AcquiringProfiles { n_ifaces, iface },
                ScanEvent::ProfileListFailed,
            );
            &&& iface + 1 < n_ifaces ==> s2 == (ScanState::InspectingInterface {
                n_ifaces,
                iface: (iface + 1) as u64,
            }) && a == (ScanAction::InspectInterface { iface: (iface + 1) as u64 })
            &&& iface + 1 == n_ifaces ==> s2 == ScanState::ReleasingInterfaces && a
                == ScanAction::ReleaseInterfaceList
            &&& a != ScanAction::ReleaseProfileList
            &&& !(s2 matches ScanState::Finished { .. })
            &&& !(s2 matches ScanState::ClosingSession { .. })
        }),
{
}

fn next_interface(n_ifaces: u64, next: u64) -> (r: (ScanState, ScanAction))
    requires
        next <= n_ifaces,
    ensures
        r == spec_next_interface(n_ifaces, next),
        state_wf(r.0),
{
    if next < n_ifaces {
        (
            ScanState::InspectingInterface { n_ifaces, iface: next },
            ScanAction::InspectInterface { iface: next },
        )
    } else {
        (ScanState::ReleasingInterfaces, ScanAction::ReleaseInterfaceList)
    }
}

} // verus!
