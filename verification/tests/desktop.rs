use autotun::cli::{gui_binary_args, Cli, Command};
use autotun::gui::{
    connect_form, connect_request, ConnectPreferences,
    parse_port_list, parse_ssh_args, remote_app_summary, tunnel_matches, tunnel_status, FormUi,
    StatusKind, ThemeMode,
};
use autotun::ports::{Direction, Tunnel};

#[test]
fn port_lists_accept_commas_and_spaces() {
    assert_eq!(parse_port_list("3000, 8080 9000"), Ok(vec![3000, 8080, 9000]));
    assert_eq!(parse_port_list(""), Ok(vec![]));
    assert_eq!(parse_port_list("3000,x"), Err("Invalid reverse port: x".to_string()));
    assert_eq!(parse_port_list("0"), Err("Reverse ports must be between 1 and 65535.".to_string()));
    assert_eq!(parse_port_list("70000"), Err("Invalid reverse port: 70000".to_string()));
}

#[test]
fn ssh_args_are_split_like_a_shell() {
    assert_eq!(parse_ssh_args("-J 'jump host' -v"), vec!["-J", "jump host", "-v"]);
    assert_eq!(parse_ssh_args("-o 'broken"), vec!["-o", "'broken"]);
}

#[test]
fn desktop_filter_and_status() {
    let mut tunnel = Tunnel::local(3000);
    tunnel.label = "Web".into();
    assert!(tunnel_matches(&tunnel, ""));
    assert!(tunnel_matches(&tunnel, "we"));
    assert!(tunnel_matches(&tunnel, "300"));
    assert!(!tunnel_matches(&tunnel, "WE"));
    let status = tunnel_status(&tunnel);
    assert_eq!(status.label, "off");
    assert_eq!(status.kind, StatusKind::Off);
    tunnel.present = false;
    let status = tunnel_status(&tunnel);
    assert_eq!(status.label, "TARGET DOWN");
    assert_eq!(status.kind, StatusKind::Warn);
    assert_eq!(status.tooltip, Some("Remote port is not currently listening"));
    tunnel.error = Some("boom".into());
    let status = tunnel_status(&tunnel);
    assert_eq!(status.label, "failed");
    assert_eq!(status.tooltip, Some("boom"));
}

#[test]
fn remote_app_summaries_pick_the_telling_line() {
    assert_eq!(
        remote_app_summary("exit code 1: noise\nFailed to execvp 'x': No such file"),
        "Failed to execvp 'x': No such file"
    );
    assert_eq!(remote_app_summary("\n  \n first line \nsecond"), "first line");
    let long = "y".repeat(200);
    let summary = remote_app_summary(&long);
    assert_eq!(summary.chars().count(), 112);
    assert!(summary.ends_with("..."));
}

#[test]
fn theme_and_forms() {
    assert!(ThemeMode::default().is_dark(true));
    assert!(!ThemeMode::Light.is_dark(false));
    assert!(ThemeMode::Auto.is_dark(false));
    assert!(!ThemeMode::Auto.is_dark(true));
    let form = FormUi::new(Direction::Reverse);
    assert_eq!(form.title, "Add reverse (local -> remote)");
    let tunnel = Tunnel::manual_local(5432, 15432, "db".into());
    let edit = FormUi::edit(&tunnel, 2);
    assert_eq!(edit.title, "Edit forward (remote -> local)");
    assert_eq!(edit.source, "5432");
    assert_eq!(edit.requested, "15432");
    assert_eq!(edit.edit_index, Some(2));
}

#[test]
fn gui_receives_the_same_options() {
    let cli = Cli {
        destination: Some("dev".into()),
        command: None,
        reverse_ports: vec![3000, 8080],
        ssh_args: vec!["-J".into(), "bastion".into()],
        include_loopback: true,
        no_auto_forward: true,
        interval: 5,
        gui: true,
    };
    assert_eq!(
        gui_binary_args(&cli),
        vec![
            "dev", "-R", "3000", "-R", "8080", "--ssh-arg", "-J", "--ssh-arg", "bastion",
            "--include-loopback", "true", "--no-auto-forward", "--interval", "5"
        ]
    );
    let bare = Cli {
        destination: None,
        command: Some(Command::Clip { destination: None }),
        reverse_ports: vec![],
        ssh_args: vec![],
        include_loopback: false,
        no_auto_forward: false,
        interval: 3,
        gui: false,
    };
    assert_eq!(gui_binary_args(&bare), vec!["--include-loopback", "false", "--interval", "3"]);
}

fn sample_cli(destination: Option<&str>, reverse_ports: Vec<u16>, ssh_args: Vec<&str>) -> Cli {
    Cli {
        destination: destination.map(str::to_string),
        command: None,
        reverse_ports,
        ssh_args: ssh_args.into_iter().map(str::to_string).collect(),
        include_loopback: true,
        no_auto_forward: false,
        interval: 7,
        gui: true,
    }
}

#[test]
fn connect_form_prefers_the_command_line() {
    let saved = ConnectPreferences {
        destination: "old".into(),
        reverse_text: "1234".into(),
        ssh_args_text: "-v".into(),
        theme_mode: ThemeMode::Light,
    };
    let form = connect_form(&sample_cli(None, vec![], vec![]), &saved);
    assert_eq!(form.destination, "old");
    assert_eq!(form.reverse_text, "1234");
    assert_eq!(form.ssh_args_text, "-v");
    assert_eq!(form.interval_text, "7");
    assert_eq!(form.theme_mode, ThemeMode::Light);
    assert!(!form.connect_now);

    let form = connect_form(&sample_cli(None, vec![3000, 8080], vec!["-J", "bastion"]), &saved);
    assert_eq!(form.destination, "");
    assert_eq!(form.reverse_text, "3000, 8080");
    assert_eq!(form.ssh_args_text, "-J bastion");
    assert!(form.auto_forward);

    let form = connect_form(&sample_cli(Some("dev"), vec![], vec![]), &ConnectPreferences::default());
    assert_eq!(form.destination, "dev");
    assert_eq!(form.reverse_text, "");
    assert!(form.connect_now);
    assert_eq!(form.theme_mode, ThemeMode::Dark);
}

#[test]
fn connect_requests_are_checked() {
    assert_eq!(
        connect_request("  ", "3", "", "").unwrap_err(),
        "Destination is required (user@host or SSH alias)."
    );
    assert_eq!(
        connect_request("dev", "0", "", "").unwrap_err(),
        "Scan interval must be a number of seconds >= 1."
    );
    assert_eq!(
        connect_request("dev", "soon", "", "").unwrap_err(),
        "Scan interval must be a number of seconds >= 1."
    );
    assert_eq!(connect_request("dev", "5", "x", "").unwrap_err(), "Invalid reverse port: x");
    let request = connect_request(" dev ", " +12 ", "3000 8080", "-J 'jump host'").unwrap();
    assert_eq!(request.destination, "dev");
    assert_eq!(request.interval, 12);
    assert_eq!(request.reverse_ports, vec![3000, 8080]);
    assert_eq!(request.ssh_args, vec!["-J", "jump host"]);
    assert_eq!(connect_request("dev", "18446744073709551615", "", "").unwrap().interval, u64::MAX);
    assert!(connect_request("dev", "18446744073709551616", "", "").is_err());
}

#[test]
fn tab_titles_and_empty_table_text() {
    let mut on = Tunnel::local(3000);
    on.enabled = true;
    on.bind_port = Some(3000);
    let tunnels = vec![on, Tunnel::local(4000), Tunnel::reverse(8080)];
    assert_eq!(autotun::gui::tunnels_tab_title(&tunnels), "Tunnels (1/3)");
    assert_eq!(autotun::gui::tunnels_tab_title(&vec![]), "Tunnels (0/0)");
    let apps = vec![
        autotun::remote_app::RemoteAppInfo { id: 1, command: "a".into(), status: autotun::remote_app::RemoteAppStatus::Running },
        autotun::remote_app::RemoteAppInfo { id: 2, command: "b".into(), status: autotun::remote_app::RemoteAppStatus::Starting },
    ];
    assert_eq!(autotun::gui::apps_tab_title(&apps), "Remote Apps (1)");
    assert_eq!(autotun::gui::apps_tab_title(&apps[1..].to_vec()), "Remote Apps");
    assert_eq!(autotun::gui::empty_table_text(""), "No tunnels yet");
    assert_eq!(autotun::gui::empty_table_text("x"), "No tunnels match this filter");
}
