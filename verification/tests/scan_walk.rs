use wlanscan::scan::{accepts, init, step, ScanAction, ScanEvent, ScanState};

/// One mocked interface: whether its description decodes, and either the
/// number of profiles on it or a failure to acquire its profile list.
#[derive(Clone, Copy)]
struct MockInterface {
    usable: bool,
    profiles: Option<u64>,
}

/// Acquire/release call counts observed by the mock collaborators.
#[derive(Default, Debug, PartialEq, Eq)]
struct Counts {
    sessions_opened: u32,
    sessions_closed: u32,
    iface_lists_acquired: u32,
    iface_lists_released: u32,
    profile_lists_acquired: u32,
    profile_lists_released: u32,
}

/// Drive the scan machine against mock collaborators, performing each
/// ordered action and feeding back its event, exactly as a real driver
/// would. Returns the reported exit failure, the call counts, and every
/// (interface, profile) pair that was handled, in order.
fn drive(
    session_ok: bool,
    interfaces: Option<&[MockInterface]>,
) -> (bool, Counts, Vec<(u64, u64)>) {
    let mut counts = Counts::default();
    let mut handled: Vec<(u64, u64)> = Vec::new();
    let (mut state, mut action) = init();
    let mut profile_list_live = false;
    let mut iface_list_live = false;
    let mut session_live = false;
    loop {
        let event = match action {
            ScanAction::OpenSession => {
                if session_ok {
                    counts.sessions_opened += 1;
                    session_live = true;
                    ScanEvent::SessionOpened
                } else {
                    ScanEvent::SessionFailed
                }
            }
            ScanAction::AcquireInterfaceList => match interfaces {
                Some(list) => {
                    counts.iface_lists_acquired += 1;
                    assert!(!iface_list_live, "interface list acquired twice");
                    iface_list_live = true;
                    ScanEvent::InterfaceListAcquired { count: list.len() as u64 }
                }
                None => ScanEvent::InterfaceListFailed,
            },
            ScanAction::InspectInterface { iface } => {
                if interfaces.unwrap()[iface as usize].usable {
                    ScanEvent::InterfaceUsable
                } else {
                    ScanEvent::InterfaceUnusable
                }
            }
            ScanAction::AcquireProfileList { iface } => {
                match interfaces.unwrap()[iface as usize].profiles {
                    Some(count) => {
                        counts.profile_lists_acquired += 1;
                        assert!(!profile_list_live, "profile list acquired over a live one");
                        profile_list_live = true;
                        ScanEvent::ProfileListAcquired { count }
                    }
                    None => ScanEvent::ProfileListFailed,
                }
            }
            ScanAction::HandleProfile { iface, profile } => {
                assert!(profile_list_live, "profile handled after list release");
                handled.push((iface, profile));
                ScanEvent::ProfileHandled
            }
            ScanAction::ReleaseProfileList => {
                assert!(profile_list_live, "double release of a profile list");
                profile_list_live = false;
                counts.profile_lists_released += 1;
                ScanEvent::ProfileListReleased
            }
            ScanAction::ReleaseInterfaceList => {
                assert!(iface_list_live, "double release of the interface list");
                iface_list_live = false;
                counts.iface_lists_released += 1;
                ScanEvent::InterfaceListReleased
            }
            ScanAction::CloseSession => {
                assert!(session_live, "session closed without being open");
                session_live = false;
                counts.sessions_closed += 1;
                ScanEvent::SessionClosed
            }
            ScanAction::Exit { failed } => {
                assert!(!profile_list_live, "profile list leaked");
                assert!(!iface_list_live, "interface list leaked");
                assert!(!session_live, "session handle leaked");
                return (failed, counts, handled);
            }
        };
        assert!(accepts(state, event), "driver fed an event the state does not await");
        let next = step(state, event);
        state = next.0;
        action = next.1;
    }
}

fn usable(profiles: Option<u64>) -> MockInterface {
    MockInterface { usable: true, profiles }
}

#[test]
fn all_success_releases_every_list_once() {
    let interfaces = [usable(Some(2)), usable(Some(1))];
    let (failed, counts, handled) = drive(true, Some(&interfaces));
    assert!(!failed);
    assert_eq!(handled, vec![(0, 0), (0, 1), (1, 0)]);
    assert_eq!(counts.profile_lists_acquired, 2);
    assert_eq!(counts.profile_lists_released, 2);
    assert_eq!(counts.iface_lists_acquired, 1);
    assert_eq!(counts.iface_lists_released, 1);
    assert_eq!(counts.sessions_opened, 1);
    assert_eq!(counts.sessions_closed, 1);
}

#[test]
fn profile_list_failure_continues_with_next_interface() {
    let interfaces = [usable(None), usable(Some(2)), usable(None), usable(Some(1))];
    let (failed, counts, handled) = drive(true, Some(&interfaces));
    assert!(!failed);
    // Interfaces after each failed acquisition are still processed.
    assert_eq!(handled, vec![(1, 0), (1, 1), (3, 0)]);
    // A failed acquisition triggers no release; the two successful ones are
    // each released exactly once.
    assert_eq!(counts.profile_lists_acquired, 2);
    assert_eq!(counts.profile_lists_released, 2);
    assert_eq!(counts.iface_lists_released, 1);
    assert_eq!(counts.sessions_closed, 1);
}

#[test]
fn undecodable_interface_is_skipped_whole() {
    let interfaces =
        [MockInterface { usable: false, profiles: Some(5) }, usable(Some(1))];
    let (failed, counts, handled) = drive(true, Some(&interfaces));
    assert!(!failed);
    assert_eq!(handled, vec![(1, 0)]);
    // The skipped interface's profile list is never acquired.
    assert_eq!(counts.profile_lists_acquired, 1);
    assert_eq!(counts.profile_lists_released, 1);
}

#[test]
fn empty_profile_list_is_still_released_once() {
    let interfaces = [usable(Some(0))];
    let (failed, counts, handled) = drive(true, Some(&interfaces));
    assert!(!failed);
    assert_eq!(handled, Vec::new());
    assert_eq!(counts.profile_lists_acquired, 1);
    assert_eq!(counts.profile_lists_released, 1);
}

#[test]
fn no_interfaces_still_releases_list_and_session() {
    let interfaces: [MockInterface; 0] = [];
    let (failed, counts, handled) = drive(true, Some(&interfaces));
    assert!(!failed);
    assert_eq!(handled, Vec::new());
    assert_eq!(counts.iface_lists_acquired, 1);
    assert_eq!(counts.iface_lists_released, 1);
    assert_eq!(counts.sessions_closed, 1);
}

#[test]
fn session_failure_exits_with_nothing_to_release() {
    let (failed, counts, handled) = drive(false, Some(&[usable(Some(1))]));
    assert!(failed);
    assert_eq!(handled, Vec::new());
    assert_eq!(counts, Counts::default());
}

#[test]
fn interface_list_failure_still_closes_session() {
    let (failed, counts, handled) = drive(true, None);
    assert!(failed);
    assert_eq!(handled, Vec::new());
    assert_eq!(counts.iface_lists_acquired, 0);
    assert_eq!(counts.iface_lists_released, 0);
    assert_eq!(counts.sessions_opened, 1);
    assert_eq!(counts.sessions_closed, 1);
}

#[test]
fn machine_starts_by_opening_the_session() {
    let (state, action) = init();
    assert_eq!(state, ScanState::OpeningSession);
    assert_eq!(action, ScanAction::OpenSession);
}

#[test]
fn mismatched_events_are_rejected() {
    assert!(!accepts(ScanState::OpeningSession, ScanEvent::ProfileHandled));
    assert!(!accepts(ScanState::ReleasingInterfaces, ScanEvent::ProfileListReleased));
    assert!(!accepts(ScanState::Finished { failed: false }, ScanEvent::SessionOpened));
}
