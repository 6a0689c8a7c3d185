use autotun::clip::{
    base64_encode, clip_target, choose_clipboard_tool, command_exists_script, is_png, last_session_text,
    osc52_sequence, parse_last_session, remote_latest_path, remote_unique_path,
    remote_unique_path_at, sanitize_destination, ClipboardTool, LastSession,
};
use autotun::open::{
    choose_opener, download_too_large, local_basename, open_file_name, parse_remote_ref,
    OpenError, Opener,
};
use autotun::ports::{parse_ss_listeners, port_candidates, RemoteListener};
use autotun::remote_app::{
    append_tail, completed_status, exit_details, parse_remote_command, stderr_text,
    waypipe_command, RemoteAppStatus, TAIL_LIMIT,
};
use autotun::ports::Direction;
use autotun::ssh::{
    rejected_message, uncancelled_message, cancel_args, discover_outcome, forward_args, forward_spec, master_args, master_command_args,
    SshControl,
};

#[test]
fn sanitizes_destination_for_filenames() {
    assert_eq!(sanitize_destination("user@host"), "user@host");
    assert_eq!(sanitize_destination("my/server"), "my_server");
    assert_eq!(sanitize_destination(""), "session");
}

#[test]
fn unique_path_is_tmp_png() {
    let path = remote_unique_path();
    assert!(path.starts_with("/tmp/autotun-clip-"));
    assert!(path.ends_with(".png"));
    assert_eq!(remote_latest_path(), "/tmp/autotun-clip.png");
}

#[test]
fn unique_path_names_the_second() {
    assert_eq!(remote_unique_path_at(1700000000), "/tmp/autotun-clip-1700000000.png");
    assert_eq!(remote_unique_path_at(0), "/tmp/autotun-clip-0.png");
}

#[test]
fn session_record_round_trips() {
    let text = last_session_text("dev", "/run/user/1000/autotun/dev.sock");
    assert_eq!(text, "destination=dev\nsocket=/run/user/1000/autotun/dev.sock\n");
    assert_eq!(
        parse_last_session(&text),
        Some(LastSession {
            destination: "dev".into(),
            socket: "/run/user/1000/autotun/dev.sock".into(),
        })
    );
    assert_eq!(parse_last_session("destination=dev\n"), None);
    assert_eq!(
        parse_last_session("socket=a\r\nnoise\ndestination=b"),
        Some(LastSession { destination: "b".into(), socket: "a".into() })
    );
}

#[test]
fn base64_and_osc52() {
    assert_eq!(base64_encode(b""), "");
    assert_eq!(base64_encode(b"f"), "Zg==");
    assert_eq!(base64_encode(b"fo"), "Zm8=");
    assert_eq!(base64_encode(b"foo"), "Zm9v");
    assert_eq!(base64_encode(b"foobar"), "Zm9vYmFy");
    assert_eq!(osc52_sequence("hi"), "\u{1b}]52;c;aGk=\u{7}");
}

#[test]
fn png_signature_and_tools() {
    assert!(is_png(&[0x89, b'P', b'N', b'G', 0x0d, 0x0a, 0x1a, 0x0a, 0]));
    assert!(!is_png(b"GIF89a"));
    assert!(!is_png(&[0x89, b'P', b'N']));
    assert_eq!(choose_clipboard_tool(true, true, true), Some(ClipboardTool::WlClipboard));
    assert_eq!(choose_clipboard_tool(false, true, true), Some(ClipboardTool::Xclip));
    assert_eq!(choose_clipboard_tool(true, false, false), None);
    assert_eq!(command_exists_script("xclip"), "command -v xclip >/dev/null");
}

#[test]
fn parses_absolute_path() {
    assert_eq!(parse_remote_ref("/tmp/a.jpg").unwrap(), "/tmp/a.jpg");
}

#[test]
fn parses_file_url() {
    assert_eq!(parse_remote_ref("file:///tmp/a.jpg").unwrap(), "/tmp/a.jpg");
    assert_eq!(
        parse_remote_ref("FILE://localhost/tmp/a%20b.jpg").unwrap(),
        "/tmp/a b.jpg"
    );
    assert_eq!(
        parse_remote_ref("<file:///home/you/pic.png>").unwrap(),
        "/home/you/pic.png"
    );
}

#[test]
fn parses_tilde_and_quotes() {
    assert_eq!(parse_remote_ref("~/clip.png").unwrap(), "~/clip.png");
    assert_eq!(
        parse_remote_ref("\"/tmp/quoted.jpg\"").unwrap(),
        "/tmp/quoted.jpg"
    );
}

#[test]
fn extracts_path_from_grok_output() {
    let pasted = "imagine Documentary-style candid portrait…\n\
/home/thuanlee/.grok/sessions//home/thuanlee/01a08bde-4a20-7043-8220-8593152455b0/images/1.jpg";
    assert_eq!(
        parse_remote_ref(pasted).unwrap(),
        "/home/thuanlee/.grok/sessions//home/thuanlee/01a08bde-4a20-7043-8220-8593152455b0/images/1.jpg"
    );
}

#[test]
fn rejects_http_and_relative() {
    assert!(parse_remote_ref("https://example.com/a.jpg").is_err());
    assert!(parse_remote_ref("images/1.jpg").is_err());
    assert!(parse_remote_ref("").is_err());
}

#[test]
fn remote_ref_errors_say_why() {
    assert_eq!(parse_remote_ref("   "), Err(OpenError::Empty));
    assert_eq!(parse_remote_ref("http://example.com/a.jpg"), Err(OpenError::Http));
    assert_eq!(parse_remote_ref("no path here"), Err(OpenError::NotAPath));
    assert_eq!(parse_remote_ref("file:///tmp/a%0Ab.jpg"), Err(OpenError::InvalidPath));
    assert_eq!(parse_remote_ref("file:///tmp/%41%2b%4.jpg"), Ok("/tmp/A+%4.jpg".to_string()));
    assert_eq!(OpenError::Http.message(), "http(s) URLs open in a browser; autotun open is for remote file paths");
}

#[test]
fn sanitizes_local_basename() {
    assert_eq!(local_basename("/tmp/a b.jpg"), "a_b.jpg");
    assert_eq!(local_basename("/tmp/.."), "file");
    assert_eq!(local_basename("/tmp/1.jpg"), "1.jpg");
}

#[test]
fn open_file_names_and_limits() {
    assert_eq!(open_file_name(42, "/tmp/a b.jpg"), "open-42-a_b.jpg");
    assert!(!download_too_large(0, 1024));
    assert!(download_too_large(200 * 1024 * 1024, 1));
    assert_eq!(choose_opener(false, true, true), Some(Opener::Gio));
    assert_eq!(choose_opener(false, false, false), None);
}

#[test]
fn parses_and_deduplicates_ss() {
    let input = "LISTEN 0 128 127.0.0.1:3000\nLISTEN 0 128 0.0.0.0:22\nLISTEN 0 128 [::]:22\n";
    assert_eq!(
        parse_ss_listeners(input, true),
        vec![RemoteListener {
            port: 3000,
            process: None
        }]
    );
    assert!(parse_ss_listeners(input, false).is_empty());
}

#[test]
fn ignores_ss_queue_sizes_that_look_like_ports() {
    let input = [
        "LISTEN 0 4096 127.0.0.53%lo:53 0.0.0.0:*\n",
        "LISTEN 0 4096 127.0.0.1:35633 0.0.0.0:* users:((\"agy\",pid=1,fd=2))\n",
        "LISTEN 0 128 0.0.0.0:22 0.0.0.0:*\n",
    ]
    .concat();
    let input = input.as_str();
    assert_eq!(
        parse_ss_listeners(input, true),
        vec![RemoteListener {
            port: 35633,
            process: Some("agy".into()),
        }]
    );
}

#[test]
fn parses_process_names_from_ss_p() {
    let input = [
        "LISTEN 0 128 127.0.0.1:35633 0.0.0.0:* users:((\"agy\",pid=4102,fd=13))\n",
        "LISTEN 0 128 127.0.0.1:35633 0.0.0.0:* users:((\"agy\",pid=4102,fd=11))\n",
        "LISTEN 0 128 0.0.0.0:3000 0.0.0.0:* users:((\"node\",pid=9,fd=23))\n",
    ]
    .concat();
    let input = input.as_str();
    let listeners = parse_ss_listeners(input, true);
    assert_eq!(
        listeners,
        vec![
            RemoteListener {
                port: 3000,
                process: Some("node".into()),
            },
            RemoteListener {
                port: 35633,
                process: Some("agy".into()),
            },
        ]
    );
}

#[test]
fn port_candidates_try_five_more_ports() {
    assert_eq!(port_candidates(3000), vec![3000, 3001, 3002, 3003, 3004, 3005]);
    assert_eq!(port_candidates(65534), vec![65534, 65535]);
}

#[test]
fn parses_quoted_command_without_a_shell() {
    assert_eq!(
        parse_remote_command("firefox --profile '/tmp/a profile'").unwrap(),
        ["firefox", "--profile", "/tmp/a profile"]
    );
    assert!(parse_remote_command(" ").is_err());
    assert!(parse_remote_command("--help").is_err());
}

#[test]
fn unbalanced_quotes_are_rejected() {
    assert_eq!(
        parse_remote_command("firefox 'oops"),
        Err("invalid remote command quoting: missing closing quote".to_string())
    );
}

#[test]
fn waypipe_command_reuses_the_control_master_and_quotes_remote_argv() {
    let control = SshControl::new("dev-vm".into(), "/tmp/autotun.sock".into());
    let command = waypipe_command(
        "/opt/bin/waypipe",
        &control,
        &[
            "firefox".into(),
            "--profile".into(),
            "/tmp/a profile".into(),
            "$(touch should-not-run)".into(),
            "semi;colon".into(),
        ],
    );
    let args = command.args.clone();
    assert_eq!(command.program, "/opt/bin/waypipe");
    assert_eq!(
        args,
        [
            "--no-gpu",
            "ssh",
            "-S",
            "/tmp/autotun.sock",
            "dev-vm",
            "firefox --profile '/tmp/a profile' '$(touch should-not-run)' 'semi;colon'"
        ]
    );
    assert_eq!(
        shell_words::split(&args[5]).unwrap(),
        [
            "firefox",
            "--profile",
            "/tmp/a profile",
            "$(touch should-not-run)",
            "semi;colon"
        ]
    );
}

#[test]
fn status_details_are_bounded_and_useful() {
    assert_eq!(exit_details(Some(23), "boom"), "exit code 23: boom");
    assert_eq!(RemoteAppStatus::Running.label(), "running");
    assert!(RemoteAppStatus::Starting.can_stop());
    assert!(!RemoteAppStatus::Exited("done".into()).can_stop());
    assert!(RemoteAppStatus::Failed("boom".into()).is_finished());
}

#[test]
fn successful_waypipe_exit_with_child_failure_is_failed() {
    assert!(matches!(
        completed_status(true, Some(0), "Failed to execvp 'firefox': No such file"),
        RemoteAppStatus::Failed(_)
    ));
    assert_eq!(
        completed_status(true, Some(0), ""),
        RemoteAppStatus::Exited("exit code 0".into())
    );
    assert_eq!(
        completed_status(false, None, ""),
        RemoteAppStatus::Failed("terminated by signal".into())
    );
    assert_eq!(exit_details(Some(-1), ""), "exit code -1");
}

#[test]
fn stderr_tail_stays_bounded() {
    let mut tail = b"old".to_vec();
    append_tail(&mut tail, &vec![b'x'; TAIL_LIMIT + 10]);
    assert_eq!(tail.len(), TAIL_LIMIT);
    assert!(tail.iter().all(|byte| *byte == b'x'));
}

#[test]
fn stderr_tail_keeps_the_latest_bytes() {
    let mut tail = vec![b'a'; TAIL_LIMIT - 2];
    append_tail(&mut tail, b"xyz");
    assert_eq!(tail.len(), TAIL_LIMIT);
    assert_eq!(&tail[TAIL_LIMIT - 4..], b"aaxyz"[1..].as_ref());
    assert_eq!(stderr_text(b"  boom \n"), "boom");
}

#[test]
fn ssh_control_arguments() {
    assert_eq!(forward_spec(3001, 3000), "127.0.0.1:3001:127.0.0.1:3000");
    assert_eq!(
        forward_args(Direction::Local, 3001, 3000, "dev"),
        ["-O", "forward", "-L", "127.0.0.1:3001:127.0.0.1:3000", "dev"]
    );
    assert_eq!(
        cancel_args(Direction::Reverse, 9000, 8080, "dev"),
        ["-O", "cancel", "-R", "127.0.0.1:9000:127.0.0.1:8080", "dev"]
    );
    assert_eq!(master_command_args("exit", "dev"), ["-O", "exit", "dev"]);
    let args = master_args("dev", &vec!["-J".to_string(), "bastion".to_string()], true);
    assert_eq!(&args[args.len() - 4..], ["-J", "bastion", "-fnNT", "dev"]);
    assert!(args.contains(&"BatchMode=yes".to_string()));
}

#[test]
fn failed_discovery_explains_itself() {
    assert_eq!(
        discover_outcome(false, b"", true),
        Err("remote host needs ss (iproute2) or netstat".to_string())
    );
    assert_eq!(
        discover_outcome(true, b"LISTEN 0 128 0.0.0.0:8000 0.0.0.0:*\n", false),
        Ok(vec![RemoteListener { port: 8000, process: None }])
    );
}

#[test]
fn clip_uploads_go_to_the_named_or_last_host() {
    let last = LastSession { destination: "dev".into(), socket: "/run/dev.sock".into() };
    assert_eq!(
        clip_target(None, Some(last.clone())),
        Ok(("dev".to_string(), Some("/run/dev.sock".to_string())))
    );
    assert_eq!(clip_target(Some("prod".into()), Some(last)), Ok(("prod".to_string(), None)));
    assert_eq!(clip_target(Some("prod".into()), None), Ok(("prod".to_string(), None)));
    assert_eq!(
        clip_target(None, None),
        Err("no host: pass one (`autotun clip user@host`) or start autotun first".to_string())
    );
}

#[test]
fn refused_forwards_name_the_forward() {
    assert_eq!(rejected_message(Direction::Local, 3001, 3000), "ssh rejected -L 127.0.0.1:3001:127.0.0.1:3000");
    assert_eq!(
        uncancelled_message(Direction::Reverse, 9000, 8080),
        "ssh could not cancel -R 127.0.0.1:9000:127.0.0.1:8080"
    );
}

#[test]
fn privileged_and_loopback_ports_are_not_discovered() {
    let input = "LISTEN 0 128 0.0.0.0:80 0.0.0.0:*\nLISTEN 0 128 0.0.0.0:1024 0.0.0.0:*\nLISTEN 0 128 0.0.0.0:1025 0.0.0.0:*\nLISTEN 0 128 [::1]:5000 [::]:*\n";
    assert_eq!(parse_ss_listeners(input, false), vec![RemoteListener { port: 1025, process: None }]);
    assert_eq!(
        parse_ss_listeners(input, true),
        vec![RemoteListener { port: 1025, process: None }, RemoteListener { port: 5000, process: None }]
    );
}

#[test]
fn open_needs_a_host_and_names_unfree_ranges() {
    assert_eq!(
        autotun::open::open_target(None, None),
        Err("no host: pass --destination or start autotun first".to_string())
    );
    assert_eq!(
        autotun::open::open_target(Some("dev".into()), None),
        Ok(("dev".to_string(), None))
    );
    assert_eq!(autotun::ports::unavailable_message(3000), "ports 3000 through 3005 are unavailable");
    assert_eq!(autotun::ports::unavailable_message(65533), "ports 65533 through 65535 are unavailable");
}

#[test]
fn empty_process_names_are_not_listed() {
    let input = "LISTEN 0 128 0.0.0.0:4000 0.0.0.0:* users:((\"\",pid=1,fd=2))\n";
    assert_eq!(parse_ss_listeners(input, true), vec![RemoteListener { port: 4000, process: None }]);
}

#[test]
fn remote_discovery_reads_like_a_local_parse() {
    let raw: &[u8] = b"LISTEN 0 128 0.0.0.0:3000 0.0.0.0:* users:((\"node\",pid=9,fd=23))\nLISTEN 0 128 127.0.0.1:35633 0.0.0.0:*\n";
    let text = String::from_utf8_lossy(raw).into_owned();
    assert_eq!(discover_outcome(true, raw, true), Ok(parse_ss_listeners(&text, true)));
    assert_eq!(discover_outcome(true, raw, false), Ok(parse_ss_listeners(&text, false)));
}
