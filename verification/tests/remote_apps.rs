use autotun::remote_app::{RemoteAppInfo, RemoteAppManager, RemoteAppStatus};

fn statuses(manager: &RemoteAppManager) -> Vec<RemoteAppStatus> {
    manager.apps().into_iter().map(|app| app.status).collect()
}

#[test]
fn launching_lists_a_starting_app() {
    let mut manager = RemoteAppManager::default();
    assert_eq!(manager.next_id(), 1);
    let (id, argv) = manager.launch("  firefox --new-instance ").unwrap();
    assert_eq!(id, 1);
    assert_eq!(argv, ["firefox", "--new-instance"]);
    assert_eq!(
        manager.apps(),
        vec![RemoteAppInfo { id: 1, command: "firefox --new-instance".into(), status: RemoteAppStatus::Starting }]
    );
    assert!(manager.launch("--help").is_err());
    assert_eq!(manager.apps().len(), 1);
    assert_eq!(manager.next_id(), 2);
}

#[test]
fn a_ready_app_runs_until_stopped() {
    let mut manager = RemoteAppManager::default();
    let (id, _) = manager.launch("gedit").unwrap();
    assert!(manager.launch_ready(id));
    assert_eq!(statuses(&manager), vec![RemoteAppStatus::Running]);
    assert_eq!(manager.live_ids(), vec![id]);
    assert!(manager.stop(id));
    assert_eq!(statuses(&manager), vec![RemoteAppStatus::Exited("stopped".into())]);
    assert!(manager.live_ids().is_empty());
    assert!(!manager.stop(id));
    assert!(manager.has_finished());
}

#[test]
fn stopping_a_starting_launch_cancels_it() {
    let mut manager = RemoteAppManager::default();
    let (id, _) = manager.launch("gedit").unwrap();
    assert!(!manager.stop(id));
    assert_eq!(statuses(&manager), vec![RemoteAppStatus::Exited("stopped".into())]);
    assert!(!manager.launch_ready(id));
    assert_eq!(statuses(&manager), vec![RemoteAppStatus::Exited("stopped".into())]);
    assert!(!manager.launch_ready(99));
}

#[test]
fn a_cancelled_launch_that_fails_stays_stopped() {
    let mut manager = RemoteAppManager::default();
    let (id, _) = manager.launch("gedit").unwrap();
    manager.stop(id);
    manager.launch_failed(id, "waypipe is not installed".into());
    assert_eq!(statuses(&manager), vec![RemoteAppStatus::Exited("stopped".into())]);
    let (other, _) = manager.launch("xterm").unwrap();
    assert_eq!(other, 2);
    assert_eq!(manager.apps().len(), 1);
    manager.launch_failed(other, "waypipe is not installed".into());
    assert_eq!(statuses(&manager), vec![RemoteAppStatus::Failed("waypipe is not installed".into())]);
}

#[test]
fn an_ended_app_waits_for_its_diagnostics() {
    let mut manager = RemoteAppManager::default();
    let (id, _) = manager.launch("gedit").unwrap();
    manager.launch_ready(id);
    manager.child_exited(id, true, Some(0));
    assert_eq!(statuses(&manager), vec![RemoteAppStatus::Exited("collecting diagnostics…".into())]);
    assert_eq!(manager.pending_ids(), vec![id]);
    manager.diagnostics_ready(id, "Failed to execvp 'gedit': No such file");
    assert_eq!(
        statuses(&manager),
        vec![RemoteAppStatus::Failed("exit code 0: Failed to execvp 'gedit': No such file".into())]
    );
    assert!(manager.pending_ids().is_empty());
}

#[test]
fn an_unobservable_process_fails() {
    let mut manager = RemoteAppManager::default();
    let (id, _) = manager.launch("gedit").unwrap();
    manager.launch_ready(id);
    manager.wait_failed(id, "EINTR", "");
    assert_eq!(
        statuses(&manager),
        vec![RemoteAppStatus::Failed("terminated by signal: could not observe waypipe process: EINTR; ".into())]
    );
}

#[test]
fn stop_all_reports_the_live_processes() {
    let mut manager = RemoteAppManager::default();
    let (a, _) = manager.launch("a").unwrap();
    let (b, _) = manager.launch("b").unwrap();
    let (c, _) = manager.launch("c").unwrap();
    manager.launch_ready(a);
    manager.launch_ready(c);
    assert_eq!(manager.stop_all(), vec![a, c]);
    assert!(manager.live_ids().is_empty());
    assert_eq!(statuses(&manager).len(), 3);
    assert!(!manager.launch_ready(b));
    manager.clear_finished();
    assert!(manager.apps().is_empty());
}

#[test]
fn stopping_a_starting_launch_twice_cancels_it_once() {
    let mut manager = RemoteAppManager::default();
    let (id, _) = manager.launch("gedit").unwrap();
    assert!(!manager.stop(id));
    assert!(!manager.stop(id));
    assert!(!manager.launch_ready(id));
    let (other, _) = manager.launch("xterm").unwrap();
    assert!(manager.launch_ready(other));
    assert_eq!(manager.apps().len(), 1);
}
