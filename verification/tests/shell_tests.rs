use deepseek_desktop::capabilities::{
    directory_picker_title, file_picker_title, is_notification_allowed, PermissionState,
};
use deepseek_desktop::desktop::{dsh_status, AppError, DshStatus};
use deepseek_desktop::open_cmd;
use deepseek_desktop::paths::DshPath;
use deepseek_desktop::platform::{open_path_command, open_text_file_command, TargetOs};
use deepseek_desktop::sidecar::{
    any_port_sidecar_args, first_port_candidate, next_port_candidate, node_script_arg, sidecar_args,
    sidecar_url, SidecarHandle, SidecarState,
};
use deepseek_desktop::status::{
    dsh_not_found_status, error_status, exit_error_status, ready_status, restarted_status, restarting_status,
    watch_start, watch_step, WatchCommand, WatchInput, WatchState,
};

#[test]
fn sidecar_urls() {
    assert_eq!(sidecar_url(52631), "http://127.0.0.1:52631");
    let h = SidecarHandle { port: 8080, dsh_path: DshPath { segments: vec!["x".to_string()] } };
    assert_eq!(h.url(), "http://127.0.0.1:8080");
    let s = SidecarState::from_handle(h);
    assert_eq!(s.port, 8080);
    assert_eq!(s.url(), "http://127.0.0.1:8080");
}

#[test]
fn sidecar_command_lines() {
    assert_eq!(sidecar_args("/x/bin.js", 52000), vec!["/x/bin.js", "web", "--port", "52000"]);
    assert_eq!(any_port_sidecar_args("b.js"), vec!["b.js", "web", "--port", "0"]);
    assert_eq!(node_script_arg("\\\\?\\C:\\app\\bin.js", TargetOs::Windows), "C:\\app\\bin.js");
    assert_eq!(node_script_arg("\\\\?\\C:\\app\\bin.js", TargetOs::Linux), "\\\\?\\C:\\app\\bin.js");
    assert_eq!(node_script_arg("a\\\\?\\b\\\\?\\c", TargetOs::Windows), "a\\\\?\\b\\\\?\\c".replacen("\\\\?\\", "", 1));
    assert_eq!(node_script_arg("C:\\a", TargetOs::Windows), "C:\\a");
    assert_eq!(node_script_arg("\\\\?", TargetOs::Windows), "\\\\?");
}

#[test]
fn port_scan_range() {
    assert_eq!(first_port_candidate(), 52000);
    assert_eq!(next_port_candidate(52000), Some(52001));
    assert_eq!(next_port_candidate(52998), Some(52999));
    assert_eq!(next_port_candidate(52999), None);
}

#[test]
fn status_payloads() {
    let p = ready_status("http://127.0.0.1:1");
    assert_eq!((p.status.as_str(), p.message.as_str(), p.port), ("ready", "http://127.0.0.1:1", None));
    let p = error_status("boom");
    assert_eq!((p.status.as_str(), p.message.as_str()), ("error", "boom"));
    let p = dsh_not_found_status("nowhere");
    assert_eq!(p.message, "dsh not found: nowhere");
    let p = restarting_status(52000);
    assert_eq!((p.status.as_str(), p.message.as_str(), p.port), ("restarting", "正在重启，请稍候…", Some(52000)));
    let p = restarted_status(52000);
    assert_eq!((p.status.as_str(), p.message.as_str()), ("ready", "http://127.0.0.1:52000"));
}

#[test]
fn restart_watcher() {
    assert_eq!(watch_start(), (WatchState::Watching, WatchCommand::SleepThenProbe(0)));
    let w = WatchState::Watching;
    let a = WatchState::AwaitingRestart;
    assert_eq!(watch_step(w, WatchInput::Probed(true)), (w, WatchCommand::SleepThenProbe(1000)));
    assert_eq!(watch_step(w, WatchInput::Probed(false)), (a, WatchCommand::StartOutageTimer));
    assert_eq!(watch_step(a, WatchInput::Elapsed(0)), (a, WatchCommand::SleepThenProbe(500)));
    assert_eq!(watch_step(a, WatchInput::Probed(false)), (a, WatchCommand::CheckElapsed));
    assert_eq!(watch_step(a, WatchInput::Probed(true)), (w, WatchCommand::AnnounceRestart));
    assert_eq!(watch_step(w, WatchInput::Announced), (w, WatchCommand::SleepThenProbe(1000)));
    assert_eq!(watch_step(a, WatchInput::Elapsed(59999)), (a, WatchCommand::SleepThenProbe(500)));
    assert_eq!(watch_step(a, WatchInput::Elapsed(60000)), (WatchState::Stopped, WatchCommand::ReportExitAndStop));
    assert_eq!(watch_step(WatchState::Stopped, WatchInput::Probed(true)), (WatchState::Stopped, WatchCommand::Finish));
    assert_eq!(watch_step(WatchState::Stopped, WatchInput::Elapsed(0)), (WatchState::Stopped, WatchCommand::Finish));
    assert_eq!(watch_step(a, WatchInput::Announced), (a, WatchCommand::CheckElapsed));
    assert_eq!(watch_step(w, WatchInput::Elapsed(5)), (w, WatchCommand::SleepThenProbe(1000)));
}

#[test]
fn platform_commands() {
    assert_eq!(open_cmd(TargetOs::MacOs), "open");
    assert_eq!(open_cmd(TargetOs::Windows), "start");
    assert_eq!(open_cmd(TargetOs::Linux), "xdg-open");
    assert_eq!(open_cmd(TargetOs::Other), "xdg-open");
    let c = open_path_command(TargetOs::Linux, "/tmp/a b");
    assert_eq!((c.program.as_str(), c.args), ("xdg-open", vec!["/tmp/a b".to_string()]));
    let c = open_text_file_command(TargetOs::MacOs, "/t.txt").unwrap();
    assert_eq!((c.program.as_str(), c.args), ("open", vec!["-t".to_string(), "/t.txt".to_string()]));
    let c = open_text_file_command(TargetOs::Windows, "t.txt").unwrap();
    assert_eq!((c.program.as_str(), c.args), ("notepad", vec!["t.txt".to_string()]));
    assert_eq!(open_text_file_command(TargetOs::Other, "t").unwrap_err(), "Unsupported platform");
}

#[test]
fn app_errors_and_status() {
    assert_eq!(AppError::DshPath("x".to_string()).message(), "Failed to resolve dsh path: x");
    assert_eq!(AppError::Spawn("y".to_string()).message(), "Failed to spawn sidecar: y");
    assert_eq!(AppError::SidecarExit("1".to_string()).message(), "Sidecar exited unexpectedly: 1");
    assert_eq!(AppError::PortDiscovery("z".to_string()).message(), "Port discovery failed: z");
    assert_eq!(AppError::Io("e".to_string()).message(), "IO error: e");
    assert_eq!(dsh_status(Some(3)), DshStatus { running: true, port: Some(3) });
    assert_eq!(dsh_status(None), DshStatus { running: false, port: None });
}

#[test]
fn capabilities() {
    assert_eq!(directory_picker_title(None), "Select a directory");
    assert_eq!(directory_picker_title(Some("Pick".to_string())), "Pick");
    assert_eq!(file_picker_title(None), "Select a file");
    assert!(is_notification_allowed(PermissionState::Granted));
    assert!(!is_notification_allowed(PermissionState::Denied));
    assert!(!is_notification_allowed(PermissionState::Prompt));
    assert!(!is_notification_allowed(PermissionState::PromptWithRationale));
}

#[test]
fn unexpected_exit_is_reported() {
    let p = exit_error_status();
    assert_eq!(p.status, "error");
    assert_eq!(p.message, "Sidecar 进程意外退出");
    assert_eq!(p.port, None);
    let (mut state, _) = watch_start();
    let mut commands = Vec::new();
    for input in [
        WatchInput::Probed(false),
        WatchInput::Elapsed(0),
        WatchInput::Probed(false),
        WatchInput::Elapsed(60000),
        WatchInput::Probed(true),
        WatchInput::Elapsed(61000),
    ] {
        let (next, command) = watch_step(state, input);
        state = next;
        commands.push(command);
    }
    assert_eq!(
        commands,
        vec![
            WatchCommand::StartOutageTimer,
            WatchCommand::SleepThenProbe(500),
            WatchCommand::CheckElapsed,
            WatchCommand::ReportExitAndStop,
            WatchCommand::Finish,
            WatchCommand::Finish,
        ]
    );
}
