use autotun::engine::{scan_event_step, ScanEvent, ScanStep};
use autotun::ports::{Direction, RemoteListener, Tunnel};
use autotun::scan::{apply_scan_in_memory, plan_scan, scan_would_fail, ScanAction};

fn listener(port: u16) -> RemoteListener {
    RemoteListener { port, process: None }
}

fn listener_named(port: u16, name: &str) -> RemoteListener {
    RemoteListener { port, process: Some(name.into()) }
}

#[test]
fn discovers_new_ports_and_auto_enables() {
    let mut tunnels = Vec::new();
    apply_scan_in_memory(&mut tunnels, &[listener(3000), listener(3001)], true);
    assert_eq!(tunnels.len(), 2);
    assert!(tunnels.iter().all(|t| t.enabled && t.discovered && t.present));
    assert_eq!(tunnels[0].source_port, 3000);
    assert_eq!(tunnels[1].source_port, 3001);
}

#[test]
fn discovers_without_auto_forward_leaves_tunnels_off() {
    let mut tunnels = Vec::new();
    apply_scan_in_memory(&mut tunnels, &[listener(4000)], false);
    assert_eq!(tunnels.len(), 1);
    assert!(!tunnels[0].enabled);
    assert!(tunnels[0].present);
}

#[test]
fn manual_off_blocks_auto_enable_while_service_stays_up() {
    let mut tunnel = Tunnel::local(5000);
    tunnel.enabled = false;
    tunnel.manual_off = true;
    tunnel.bind_port = None;
    let mut tunnels = vec![tunnel];

    apply_scan_in_memory(&mut tunnels, &[listener(5000)], true);
    assert!(!tunnels[0].enabled);
    assert!(tunnels[0].manual_off);
    assert!(tunnels[0].present);
}

#[test]
fn manual_off_still_blocks_auto_enable_after_service_restart() {
    let mut tunnel = Tunnel::local(5100);
    tunnel.manual_off = true;
    tunnel.enabled = false;
    let mut tunnels = vec![tunnel];

    apply_scan_in_memory(&mut tunnels, &[], true);
    apply_scan_in_memory(&mut tunnels, &[], true);
    assert!(!tunnels[0].present);
    assert!(tunnels[0].manual_off);

    apply_scan_in_memory(&mut tunnels, &[listener(5100)], true);
    assert!(tunnels[0].present);
    assert!(!tunnels[0].enabled);
    assert!(tunnels[0].manual_off);
}

#[test]
fn auto_disabled_when_service_dies_is_reenabled_on_restart() {
    let mut tunnel = Tunnel::local(5200);
    tunnel.enabled = true;
    tunnel.bind_port = Some(5200);
    tunnel.manual_off = false;
    let mut tunnels = vec![tunnel];

    apply_scan_in_memory(&mut tunnels, &[], true);
    assert!(tunnels[0].enabled);
    assert!(tunnels[0].present);
    assert_eq!(tunnels[0].missing_scans, 1);

    apply_scan_in_memory(&mut tunnels, &[], true);
    assert!(!tunnels[0].enabled);
    assert!(!tunnels[0].present);
    assert!(!tunnels[0].manual_off);

    apply_scan_in_memory(&mut tunnels, &[listener(5200)], true);
    assert!(tunnels[0].enabled);
    assert!(tunnels[0].present);
    assert!(!tunnels[0].manual_off);
}

#[test]
fn single_missed_scan_does_not_mark_target_down() {
    let mut tunnel = Tunnel::local(5300);
    tunnel.enabled = true;
    tunnel.bind_port = Some(5300);
    let mut tunnels = vec![tunnel];

    apply_scan_in_memory(&mut tunnels, &[], true);
    assert!(tunnels[0].present);
    assert!(tunnels[0].enabled);
    assert_eq!(tunnels[0].missing_scans, 1);
}

#[test]
fn reappearance_resets_missing_counter() {
    let mut tunnel = Tunnel::local(5400);
    tunnel.enabled = true;
    tunnel.bind_port = Some(5400);
    let mut tunnels = vec![tunnel];

    apply_scan_in_memory(&mut tunnels, &[], true);
    assert_eq!(tunnels[0].missing_scans, 1);
    apply_scan_in_memory(&mut tunnels, &[listener(5400)], true);
    assert_eq!(tunnels[0].missing_scans, 0);
    assert!(tunnels[0].enabled);
    assert!(tunnels[0].present);
}

#[test]
fn fills_empty_label_from_process_name_only() {
    let mut tunnel = Tunnel::local(5500);
    tunnel.label = String::new();
    let mut tunnels = vec![tunnel];
    apply_scan_in_memory(&mut tunnels, &[listener_named(5500, "node")], false);
    assert_eq!(tunnels[0].label, "node");

    tunnels[0].label = "custom".into();
    apply_scan_in_memory(&mut tunnels, &[listener_named(5500, "other")], false);
    assert_eq!(tunnels[0].label, "custom");
}

#[test]
fn does_not_duplicate_existing_ports() {
    let mut tunnels = vec![Tunnel::local(5600)];
    apply_scan_in_memory(&mut tunnels, &[listener(5600), listener(5600)], true);
    assert_eq!(tunnels.len(), 1);
}

#[test]
fn reverse_tunnels_are_not_touched_by_discovery() {
    let mut reverse = Tunnel::reverse(8080);
    reverse.enabled = true;
    reverse.bind_port = Some(8080);
    let mut tunnels = vec![reverse];
    apply_scan_in_memory(&mut tunnels, &[listener(8080)], true);
    assert_eq!(tunnels[0].direction, Direction::Reverse);
    assert!(tunnels[0].enabled);
    assert_eq!(tunnels.len(), 2);
    assert_eq!(tunnels[1].direction, Direction::Local);
    assert_eq!(tunnels[1].source_port, 8080);
}

#[test]
fn plan_scan_emits_cancel_only_after_threshold() {
    let mut tunnel = Tunnel::local(5700);
    tunnel.enabled = true;
    tunnel.bind_port = Some(5700);
    let mut tunnels = vec![tunnel];

    let actions = plan_scan(&mut tunnels, &[], true);
    assert!(actions.is_empty());
    assert_eq!(tunnels[0].missing_scans, 1);

    let actions = plan_scan(&mut tunnels, &[], true);
    assert_eq!(
        actions,
        vec![ScanAction::Cancel {
            index: 0,
            bind: 5700,
            source: 5700,
        }]
    );
}

#[test]
fn plan_scan_enable_skipped_when_manual_off() {
    let mut tunnel = Tunnel::local(5800);
    tunnel.manual_off = true;
    let mut tunnels = vec![tunnel];
    let actions = plan_scan(&mut tunnels, &[listener(5800)], true);
    assert!(actions.is_empty());
}

#[test]
fn plan_scan_discovers_listed_ports_with_their_names() {
    let mut tunnels: Vec<Tunnel> = Vec::new();
    let actions = plan_scan(&mut tunnels, &[listener_named(6100, "vite")], true);
    assert!(tunnels.is_empty());
    assert_eq!(actions.len(), 1);
    match &actions[0] {
        ScanAction::Discover { tunnel, enable } => {
            assert!(*enable);
            assert_eq!(tunnel.source_port, 6100);
            assert_eq!(tunnel.requested_port, 6100);
            assert_eq!(tunnel.label, "vite");
            assert!(tunnel.discovered);
            assert!(!tunnel.enabled);
        }
        other => panic!("unexpected action {other:?}"),
    }
}

#[test]
fn plan_scan_reenables_a_returning_service() {
    let mut tunnel = Tunnel::local(6200);
    tunnel.present = false;
    tunnel.missing_scans = 2;
    let mut tunnels = vec![tunnel];
    let actions = plan_scan(&mut tunnels, &[listener(6200)], true);
    assert_eq!(actions, vec![ScanAction::Enable(0)]);
    assert!(tunnels[0].present);
    assert_eq!(tunnels[0].missing_scans, 0);
}

#[test]
fn failed_scan_leaves_every_tunnel_alone() {
    let mut tunnel = Tunnel::local(6300);
    tunnel.enabled = true;
    tunnel.bind_port = Some(6301);
    let mut tunnels = vec![tunnel.clone(), Tunnel::reverse(9000)];
    let before = tunnels.clone();
    let step = scan_event_step(&mut tunnels, ScanEvent::Error, true);
    assert!(matches!(step, ScanStep::Disconnected));
    assert_eq!(tunnels, before);
}

#[test]
fn successful_scan_event_is_reconciled() {
    let mut tunnels = vec![Tunnel::local(6400)];
    let step = scan_event_step(&mut tunnels, ScanEvent::Ports(vec![listener(6400), listener(6401)]), true);
    match step {
        ScanStep::Reconcile(actions) => {
            assert_eq!(actions.len(), 2);
            assert_eq!(actions[0], ScanAction::Enable(0));
            assert!(matches!(&actions[1], ScanAction::Discover { tunnel, enable: true } if tunnel.source_port == 6401));
        }
        _ => panic!("expected a reconcile step"),
    }
}

#[test]
fn reconnect_resets_tunnels_and_remembers_which_were_on() {
    let mut on = Tunnel::local(6500);
    on.enabled = true;
    on.bind_port = Some(6500);
    let mut reverse = Tunnel::reverse(7000);
    reverse.enabled = true;
    reverse.bind_port = Some(7000);
    let off = Tunnel::local(6600);
    let mut tunnels = vec![on, reverse, off];
    let step = scan_event_step(&mut tunnels, ScanEvent::Reconnected(vec![listener(6500)]), false);
    match step {
        ScanStep::Restore(actions, wanted) => {
            assert_eq!(wanted, vec![true, true, false]);
            assert!(actions.is_empty());
        }
        _ => panic!("expected a restore step"),
    }
    assert!(tunnels.iter().all(|t| !t.enabled && t.bind_port.is_none() && t.error.is_none()));
    assert!(tunnels[0].present);
    assert_eq!(tunnels[2].missing_scans, 1);
}

#[test]
fn an_enabled_tunnel_without_a_port_is_reported_before_planning() {
    let mut broken = Tunnel::local(7100);
    broken.enabled = true;
    broken.missing_scans = 1;
    let tunnels = vec![broken];
    assert!(scan_would_fail(&tunnels, &[]));
    assert!(!scan_would_fail(&tunnels, &[listener(7100)]));
    let mut fine = Tunnel::local(7200);
    fine.enabled = true;
    fine.bind_port = Some(7200);
    fine.missing_scans = 1;
    assert!(!scan_would_fail(&vec![fine], &[]));
}
