use oci_hooks::daemon::{daemon_begin, daemon_step, DaemonAction, DaemonEvent, DaemonState};
use oci_hooks::ldcache::{
    cache_path, join_path, ldconfig_exit_code, ldconfig_program, resolve_rootfs, LaunchOutcome,
};

#[test]
fn rootfs_relative_to_bundle() {
    assert_eq!(resolve_rootfs("/run/bundle", "rootfs"), "/run/bundle/rootfs");
    assert_eq!(resolve_rootfs("/run/bundle/", "rootfs"), "/run/bundle/rootfs");
    assert_eq!(resolve_rootfs("", "rootfs"), "rootfs");
}

#[test]
fn rootfs_absolute_kept() {
    assert_eq!(resolve_rootfs("/run/bundle", "/var/lib/rootfs"), "/var/lib/rootfs");
}

#[test]
fn join_matches_std_path() {
    for (a, b) in [("/x", "y"), ("/x/", "y/z"), ("", "y"), ("x", "/y"), ("rel", "")] {
        let expected = std::path::Path::new(a).join(b).to_string_lossy().into_owned();
        assert_eq!(join_path(a, b), expected);
    }
}

#[test]
fn cache_inside_rootfs() {
    assert_eq!(cache_path("/r"), "/r/etc/ld.so.cache");
}

#[test]
fn ldconfig_program_choice() {
    assert_eq!(ldconfig_program(None), "ldconfig");
    assert_eq!(ldconfig_program(Some("/sbin/ldconfig".to_string())), "/sbin/ldconfig");
}

#[test]
fn ldconfig_exit_codes() {
    assert_eq!(ldconfig_exit_code(LaunchOutcome::Exited(Some(0))), 0);
    assert_eq!(ldconfig_exit_code(LaunchOutcome::Exited(Some(3))), 3);
    assert_eq!(ldconfig_exit_code(LaunchOutcome::Exited(None)), 1);
    assert_eq!(ldconfig_exit_code(LaunchOutcome::NotFound), 127);
    assert_eq!(ldconfig_exit_code(LaunchOutcome::Failed), 1);
}

fn run(events: &[DaemonEvent]) -> Vec<DaemonAction> {
    let (mut s, a) = daemon_begin();
    let mut actions = vec![a];
    for e in events {
        let (n, a) = daemon_step(s, *e);
        s = n;
        actions.push(a);
    }
    actions
}

#[test]
fn daemon_up_first_time() {
    let acts = run(&[DaemonEvent::Started, DaemonEvent::ServerUp]);
    assert_eq!(acts, vec![DaemonAction::StartControl, DaemonAction::CheckServer, DaemonAction::Exit(0)]);
}

#[test]
fn daemon_retries_once() {
    let acts = run(&[
        DaemonEvent::Started,
        DaemonEvent::ServerDown,
        DaemonEvent::Paused,
        DaemonEvent::Started,
        DaemonEvent::ServerDown,
    ]);
    assert_eq!(
        acts,
        vec![
            DaemonAction::StartControl,
            DaemonAction::CheckServer,
            DaemonAction::Pause,
            DaemonAction::StartControl,
            DaemonAction::CheckServer,
            DaemonAction::Exit(1),
        ]
    );
}

#[test]
fn daemon_check_failure_then_up() {
    let acts = run(&[
        DaemonEvent::Started,
        DaemonEvent::CheckFailed,
        DaemonEvent::Paused,
        DaemonEvent::Started,
        DaemonEvent::ServerUp,
    ]);
    assert_eq!(acts.last(), Some(&DaemonAction::Exit(0)));
}

#[test]
fn daemon_missing_program() {
    assert_eq!(run(&[DaemonEvent::NotFound]).last(), Some(&DaemonAction::Exit(127)));
    assert_eq!(run(&[DaemonEvent::StartFailed]).last(), Some(&DaemonAction::Exit(1)));
}

#[test]
fn daemon_unrelated_event_repeats_action() {
    let (s, _) = daemon_begin();
    assert_eq!(daemon_step(s, DaemonEvent::Paused), (s, DaemonAction::StartControl));
    assert_eq!(
        daemon_step(DaemonState::Finished(5), DaemonEvent::Started),
        (DaemonState::Finished(5), DaemonAction::Exit(5))
    );
}
