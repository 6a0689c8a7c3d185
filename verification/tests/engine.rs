use autotun::engine::{
    delete_finish, delete_start, edit_cancelled, edit_finish, edit_prepare, edit_start,
    enable_request, enable_start, enable_step, enabled_at_start, initial_tunnels,
    parse_form_port, probe_matches, probe_reply_size, probe_request, restore_wanted,
    socket_file_name, toggle_cancelled, toggle_start, tunnel_from_form, tunnel_url, EditStart,
    EnableJob, Probe, SshReply, SshRequest, ToggleStart,
};
use autotun::ports::{Direction, Protocol, RemoteListener, Tunnel};

#[test]
fn form_local_uses_service_port_as_default_bind_port() {
    let tunnel = tunnel_from_form(Direction::Local, "3000", "", "frontend").unwrap();
    assert_eq!(tunnel.direction, Direction::Local);
    assert_eq!(tunnel.source_port, 3000);
    assert_eq!(tunnel.requested_port, 3000);
    assert_eq!(tunnel.label, "frontend");
}

#[test]
fn form_rejects_zero_port() {
    assert!(tunnel_from_form(Direction::Reverse, "0", "", "").is_err());
}

#[test]
fn tunnel_url_includes_protocol_for_enabled_local() {
    let mut tunnel = Tunnel::local(3000);
    tunnel.enabled = true;
    tunnel.bind_port = Some(3000);
    tunnel.protocol = Protocol::Https;
    assert_eq!(tunnel_url(&tunnel), "https://127.0.0.1:3000");
    tunnel.enabled = false;
    assert_eq!(tunnel_url(&tunnel), "—");
}

#[test]
fn plain_tcp_forwards_have_no_url() {
    let mut tunnel = Tunnel::local(22);
    tunnel.enabled = true;
    tunnel.bind_port = Some(2222);
    assert_eq!(tunnel_url(&tunnel), "—");
    tunnel.protocol = Protocol::Ws;
    assert_eq!(tunnel_url(&tunnel), "—");
    tunnel.protocol = Protocol::Wss;
    assert_eq!(tunnel_url(&tunnel), "—");
    tunnel.protocol = Protocol::Http;
    assert_eq!(tunnel_url(&tunnel), "http://127.0.0.1:2222");
    let mut reverse = Tunnel::reverse(8080);
    reverse.enabled = true;
    reverse.bind_port = Some(8080);
    reverse.protocol = Protocol::Http;
    assert_eq!(tunnel_url(&reverse), "—");
}

#[test]
fn form_port_errors_name_the_field() {
    assert_eq!(parse_form_port("8080", "Local port"), Ok(8080));
    assert_eq!(
        parse_form_port("70000", "Local port"),
        Err("Local port must be a TCP port from 1 to 65535".to_string())
    );
    assert!(parse_form_port("", "x").is_err());
    assert!(parse_form_port("12a", "x").is_err());
    assert_eq!(
        tunnel_from_form(Direction::Local, "3000", "abc", "x"),
        Err("Local port must be a TCP port from 1 to 65535".to_string())
    );
    assert_eq!(
        tunnel_from_form(Direction::Reverse, "", "", ""),
        Err("Local port must be a TCP port from 1 to 65535".to_string())
    );
    let manual = tunnel_from_form(Direction::Reverse, "8080", "9090", "  api  ").unwrap();
    assert_eq!(manual.requested_port, 9090);
    assert_eq!(manual.label, "api");
    assert!(!manual.discovered);
}

#[test]
fn socket_names() {
    assert_eq!(socket_file_name(123, 456), "autotun-123-456.sock");
}

#[test]
fn busy_local_ports_fall_back_in_order() {
    let mut tunnel = Tunnel::local(3000);
    let mut job = enable_start(&mut tunnel);
    let mut tried = Vec::new();
    loop {
        match enable_request(&tunnel, &job) {
            SshRequest::TryBind { port } => {
                tried.push(port);
                let reply = if port == 3002 { SshReply::Success } else { SshReply::Failure("busy".into()) };
                job = enable_step(&mut tunnel, job, reply).unwrap();
            }
            SshRequest::Forward { direction, bind, source } => {
                assert_eq!((direction, bind, source), (Direction::Local, 3002, 3000));
                job = enable_step(&mut tunnel, job, SshReply::Success).unwrap();
            }
            SshRequest::Probe { port, probe } => {
                assert_eq!(port, 3002);
                let reply = if probe == Probe::Http {
                    SshReply::Received(Some(b"HTTP/".to_vec()))
                } else {
                    SshReply::Received(None)
                };
                match enable_step(&mut tunnel, job, reply) {
                    Some(next) => job = next,
                    None => break,
                }
            }
            other => panic!("unexpected request {other:?}"),
        }
    }
    assert_eq!(tried, vec![3000, 3001, 3002]);
    assert!(tunnel.enabled);
    assert_eq!(tunnel.bind_port, Some(3002));
    assert_eq!(tunnel.protocol, Protocol::Http);
    assert_eq!(tunnel_url(&tunnel), "http://127.0.0.1:3002");
}

#[test]
fn gives_up_after_five_fallbacks() {
    let mut tunnel = Tunnel::local(20000);
    let mut job = Some(enable_start(&mut tunnel));
    let mut tried = Vec::new();
    while let Some(j) = job {
        match enable_request(&tunnel, &j) {
            SshRequest::TryBind { port } => tried.push(port),
            other => panic!("unexpected request {other:?}"),
        }
        job = enable_step(&mut tunnel, j, SshReply::Failure("in use".into()));
    }
    assert_eq!(tried, vec![20000, 20001, 20002, 20003, 20004, 20005]);
    assert!(!tunnel.enabled);
    let error = tunnel.error.clone().unwrap();
    assert_eq!(error, "allocation failed: ports 20000 through 20005 are unavailable");
    assert!(error.contains("are unavailable"));
}

#[test]
fn reverse_forward_falls_back_and_reports_the_last_error() {
    let mut tunnel = Tunnel::reverse(65533);
    let mut job = Some(enable_start(&mut tunnel));
    let mut tried = Vec::new();
    while let Some(j) = job {
        match enable_request(&tunnel, &j) {
            SshRequest::Forward { direction, bind, source } => {
                assert_eq!(direction, Direction::Reverse);
                assert_eq!(source, 65533);
                tried.push(bind);
            }
            other => panic!("unexpected request {other:?}"),
        }
        job = enable_step(&mut tunnel, j, SshReply::Failure("remote port forwarding failed".into()));
    }
    assert_eq!(tried, vec![65533, 65534, 65535]);
    assert_eq!(
        tunnel.error.as_deref(),
        Some("ports 65533..65535 failed: remote port forwarding failed")
    );
}

#[test]
fn failed_forward_is_reported() {
    let mut tunnel = Tunnel::local(4000);
    let job = enable_start(&mut tunnel);
    let job = enable_step(&mut tunnel, job, SshReply::Success).unwrap();
    assert_eq!(job, EnableJob::LocalForward { port: 4000 });
    assert_eq!(enable_step(&mut tunnel, job, SshReply::Failure("denied".into())), None);
    assert_eq!(tunnel.error.as_deref(), Some("forward failed: denied"));
    assert!(!tunnel.enabled);
}

#[test]
fn probes_detect_tls_websocket_and_plain_tcp() {
    assert_eq!(probe_request(Probe::Tls).len(), 53);
    assert_eq!(probe_request(Probe::Http), b"HEAD / HTTP/1.0\r\nHost: 127.0.0.1\r\n\r\n".to_vec());
    assert_eq!(probe_reply_size(Probe::WebSocket), (32, false));
    assert_eq!(probe_reply_size(Probe::Http), (5, true));
    assert!(probe_matches(Probe::Tls, &Some(vec![0x16, 0x03, 0x03, 0x00, 0x10])));
    assert!(probe_matches(Probe::Tls, &Some(vec![0x15, 0x03, 0x01, 0x00, 0x02])));
    assert!(!probe_matches(Probe::Tls, &Some(b"HTTP/".to_vec())));
    assert!(probe_matches(Probe::WebSocket, &Some(b"HTTP/1.1 101 Switching Protocols\r\n".to_vec())));
    assert!(!probe_matches(Probe::WebSocket, &Some(b"HTTP/1.1 400 Bad Request\r\n".to_vec())));
    assert!(probe_matches(Probe::Http, &Some(b"HTTP/".to_vec())));
    assert!(!probe_matches(Probe::Http, &None));

    let mut tunnel = Tunnel::local(5000);
    tunnel.enabled = true;
    tunnel.bind_port = Some(5000);
    let mut job = EnableJob::LocalProbe { port: 5000, probe: Probe::Tls };
    loop {
        match enable_step(&mut tunnel, job, SshReply::Received(None)) {
            Some(next) => job = next,
            None => break,
        }
    }
    assert_eq!(tunnel.protocol, Protocol::Tcp);
    let job = EnableJob::LocalProbe { port: 5000, probe: Probe::Tls };
    assert_eq!(enable_step(&mut tunnel, job, SshReply::Received(Some(vec![0x16, 0x03, 0x03, 0, 1]))), None);
    assert_eq!(tunnel.protocol, Protocol::Https);
}

#[test]
fn toggling_off_and_on() {
    let mut tunnel = Tunnel::local(3000);
    tunnel.enabled = true;
    tunnel.bind_port = Some(3001);
    tunnel.error = Some("old".into());
    let start = toggle_start(&mut tunnel);
    assert_eq!(
        start,
        ToggleStart::Cancel(SshRequest::Cancel { direction: Direction::Local, bind: 3001, source: 3000 })
    );
    assert_eq!(tunnel.error, None);
    toggle_cancelled(&mut tunnel, SshReply::Success);
    assert!(!tunnel.enabled);
    assert!(tunnel.manual_off);

    let start = toggle_start(&mut tunnel);
    assert_eq!(start, ToggleStart::Enable(EnableJob::LocalBind { preferred: 3000, offset: 0 }));
    assert!(!tunnel.manual_off);

    let mut stuck = Tunnel::reverse(9000);
    stuck.enabled = true;
    stuck.bind_port = Some(9000);
    toggle_cancelled(&mut stuck, SshReply::Failure("no such forward".into()));
    assert!(stuck.enabled);
    assert_eq!(stuck.error.as_deref(), Some("cancel failed: no such forward"));
}

#[test]
fn deleting_discovered_and_manual_tunnels() {
    let mut discovered = Tunnel::local(3000);
    discovered.enabled = true;
    discovered.bind_port = Some(3000);
    let manual = Tunnel::manual_local(4000, 4000, "x".into());
    let mut tunnels = vec![discovered, manual];
    assert_eq!(
        delete_start(&tunnels, 0),
        Some(SshRequest::Cancel { direction: Direction::Local, bind: 3000, source: 3000 })
    );
    assert_eq!(delete_start(&tunnels, 1), None);
    delete_finish(&mut tunnels, 0, SshReply::Success);
    assert_eq!(tunnels.len(), 2);
    assert!(!tunnels[0].enabled && tunnels[0].manual_off);
    delete_finish(&mut tunnels, 1, SshReply::Success);
    assert_eq!(tunnels.len(), 1);
    delete_finish(&mut tunnels, 0, SshReply::Failure("gone".into()));
    assert_eq!(tunnels[0].error.as_deref(), Some("delete failed: gone"));
}

#[test]
fn editing_a_tunnel() {
    let mut old = Tunnel::local(3000);
    old.enabled = true;
    old.bind_port = Some(3000);
    let mut tunnels = vec![old];
    assert_eq!(
        edit_start(&tunnels, 0, true),
        EditStart::Cancel(SshRequest::Cancel { direction: Direction::Local, bind: 3000, source: 3000 })
    );
    assert_eq!(edit_start(&tunnels, 3, true), EditStart::Skip);
    assert_eq!(edit_start(&tunnels, 0, false), EditStart::Replace);
    assert!(edit_cancelled(&mut tunnels, 0, SshReply::Success));
    let mut replacement = tunnel_from_form(Direction::Local, "3000", "3100", "web").unwrap();
    let job = edit_prepare(&tunnels, 0, &mut replacement, true);
    assert_eq!(job, Some(EnableJob::LocalBind { preferred: 3100, offset: 0 }));
    assert!(replacement.discovered);
    edit_finish(&mut tunnels, 0, replacement);
    assert_eq!(tunnels[0].label, "web");
    assert!(!edit_cancelled(&mut tunnels, 0, SshReply::Failure("nope".into())));
    assert_eq!(tunnels[0].error.as_deref(), Some("edit cancel failed: nope"));
}

#[test]
fn restoring_after_reconnect() {
    let mut local = Tunnel::local(3000);
    local.present = false;
    let tunnels = vec![local, Tunnel::reverse(9000), Tunnel::local(4000)];
    assert!(!restore_wanted(&tunnels, 0, true));
    assert!(restore_wanted(&tunnels, 1, true));
    assert!(restore_wanted(&tunnels, 2, true));
    assert!(!restore_wanted(&tunnels, 2, false));
    assert!(!restore_wanted(&tunnels, 7, true));
}

#[test]
fn a_new_session_lists_discovered_then_reverse_tunnels() {
    let found = vec![
        RemoteListener { port: 3000, process: Some("node".into()) },
        RemoteListener { port: 5432, process: None },
    ];
    let tunnels = initial_tunnels(found, &[8080]);
    assert_eq!(tunnels.len(), 3);
    assert_eq!(tunnels[0].label, "node");
    assert_eq!(tunnels[1].source_port, 5432);
    assert_eq!(tunnels[2].direction, Direction::Reverse);
    assert_eq!(tunnels[2].source_port, 8080);
    assert!(enabled_at_start(Direction::Local, true));
    assert!(!enabled_at_start(Direction::Local, false));
    assert!(enabled_at_start(Direction::Reverse, false));
}

#[test]
fn reverse_fallback_reports_the_last_of_several_errors() {
    let mut tunnel = Tunnel::reverse(9000);
    let mut job = Some(enable_start(&mut tunnel));
    let mut attempt = 0;
    while let Some(j) = job {
        job = enable_step(&mut tunnel, j, SshReply::Failure(format!("refused {attempt}")));
        attempt += 1;
    }
    assert_eq!(attempt, 6);
    assert_eq!(tunnel.error.as_deref(), Some("ports 9000..9005 failed: refused 5"));
    assert!(!tunnel.enabled);
}

#[test]
fn reverse_fallback_stops_at_the_first_port_that_works() {
    let mut tunnel = Tunnel::reverse(7000);
    let mut job = Some(enable_start(&mut tunnel));
    let mut tried = Vec::new();
    while let Some(j) = job {
        let port = match enable_request(&tunnel, &j) {
            SshRequest::Forward { bind, .. } => bind,
            other => panic!("unexpected request {other:?}"),
        };
        tried.push(port);
        let reply = if port >= 7002 { SshReply::Success } else { SshReply::Failure("taken".into()) };
        job = enable_step(&mut tunnel, j, reply);
    }
    assert_eq!(tried, vec![7000, 7001, 7002]);
    assert!(tunnel.enabled);
    assert_eq!(tunnel.bind_port, Some(7002));
    assert_eq!(tunnel.error, None);
}
