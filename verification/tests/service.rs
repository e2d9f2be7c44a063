use isq::service::ServiceStep::{
    Disable, Enable, Reload, RemoveDefinition, Start, Stop, WriteDefinition,
};
use isq::service::{
    failure_of, generate_plist, generate_service_file, install, is_installed, is_running,
    plist_path, probe_command, read_launchd_status, read_systemd_status, restart, service_path,
    start, status, status_command, step_command, stop, uninstall, Platform, ServiceError,
    ServiceStatus, ServiceStep,
};

fn lines(text: &str) -> Vec<String> {
    text.lines().map(|l| l.to_string()).collect()
}

#[test]
fn other_platforms_have_no_service() {
    assert_eq!(is_installed(Platform::Other, true), Err(ServiceError::Unsupported));
    assert_eq!(is_running(Platform::Other, true), Err(ServiceError::Unsupported));
    assert_eq!(install(Platform::Other), Err(ServiceError::UnsupportedRunByHand));
    assert_eq!(uninstall(Platform::Other, true), Err(ServiceError::Unsupported));
    assert_eq!(start(Platform::Other, true, false), Err(ServiceError::UnsupportedRunByHand));
    assert_eq!(stop(Platform::Other, true), Err(ServiceError::Unsupported));
    assert_eq!(restart(Platform::Other, true, true), Err(ServiceError::Unsupported));
    assert_eq!(status(Platform::Other, true, None), Err(ServiceError::Unsupported));
    assert_eq!(
        ServiceError::Unsupported.message(),
        "System service not supported on this platform"
    );
    assert_eq!(
        ServiceError::UnsupportedRunByHand.message(),
        "System service not supported on this platform. Use 'isq daemon run' manually."
    );
}

#[test]
fn what_was_found_is_passed_on() {
    assert_eq!(is_installed(Platform::Linux, true), Ok(true));
    assert_eq!(is_installed(Platform::MacOs, false), Ok(false));
    assert_eq!(is_running(Platform::Linux, false), Ok(false));
    assert_eq!(is_running(Platform::MacOs, true), Ok(true));
}

#[test]
fn install_and_uninstall_steps() {
    assert_eq!(install(Platform::Linux), Ok(vec![WriteDefinition, Reload, Enable]));
    assert_eq!(install(Platform::MacOs), Ok(vec![WriteDefinition, Enable]));
    assert_eq!(uninstall(Platform::Linux, true), Ok(vec![Disable, RemoveDefinition, Reload]));
    assert_eq!(uninstall(Platform::MacOs, true), Ok(vec![Disable, RemoveDefinition]));
    assert_eq!(uninstall(Platform::Linux, false), Ok(vec![]));
    assert_eq!(uninstall(Platform::MacOs, false), Ok(vec![]));
}

#[test]
fn start_stop_and_restart_steps() {
    assert_eq!(start(Platform::Linux, false, false), Ok(vec![WriteDefinition, Reload, Enable]));
    assert_eq!(start(Platform::Linux, true, true), Ok(vec![]));
    assert_eq!(start(Platform::MacOs, true, false), Ok(vec![Start]));
    assert_eq!(stop(Platform::Linux, true), Ok(vec![Stop]));
    assert_eq!(stop(Platform::MacOs, false), Ok(vec![]));
    assert_eq!(restart(Platform::Linux, true, true), Ok(vec![Stop, Start]));
    assert_eq!(restart(Platform::Linux, true, false), Ok(vec![Start]));
    assert_eq!(restart(Platform::MacOs, false, false), Ok(vec![WriteDefinition, Enable]));
}

#[test]
fn only_some_failures_count() {
    assert_eq!(failure_of(Platform::Linux, ServiceStep::Enable), Some(ServiceError::EnableFailed));
    assert_eq!(failure_of(Platform::MacOs, ServiceStep::Enable), Some(ServiceError::LoadFailed));
    assert_eq!(failure_of(Platform::Linux, ServiceStep::Start), Some(ServiceError::StartFailed));
    assert_eq!(failure_of(Platform::MacOs, ServiceStep::Stop), Some(ServiceError::StopFailed));
    assert_eq!(failure_of(Platform::Linux, ServiceStep::Reload), None);
    assert_eq!(failure_of(Platform::Linux, ServiceStep::Disable), None);
    assert_eq!(ServiceError::EnableFailed.message(), "Failed to enable systemd service");
    assert_eq!(ServiceError::LoadFailed.message(), "Failed to load launchd service");
    assert_eq!(ServiceError::StartFailed.message(), "Failed to start service");
    assert_eq!(ServiceError::StopFailed.message(), "Failed to stop service");
}

#[test]
fn steps_become_commands() {
    let plist = plist_path("/Users/ann");
    assert_eq!(plist, "/Users/ann/Library/LaunchAgents/com.isq.daemon.plist");
    assert_eq!(service_path("/home/ann"), "/home/ann/.config/systemd/user/isq.service");
    assert_eq!(
        step_command(Platform::Linux, ServiceStep::Enable, "x").unwrap(),
        vec!["systemctl", "--user", "enable", "--now", "isq"]
    );
    assert_eq!(
        step_command(Platform::Linux, ServiceStep::Reload, "x").unwrap(),
        vec!["systemctl", "--user", "daemon-reload"]
    );
    assert_eq!(
        step_command(Platform::Linux, ServiceStep::Stop, "x").unwrap(),
        vec!["systemctl", "--user", "stop", "isq"]
    );
    assert_eq!(
        step_command(Platform::MacOs, ServiceStep::Enable, &plist).unwrap(),
        vec!["launchctl", "load", "-w", plist.as_str()]
    );
    assert_eq!(
        step_command(Platform::MacOs, ServiceStep::Disable, &plist).unwrap(),
        vec!["launchctl", "unload", "-w", plist.as_str()]
    );
    assert_eq!(
        step_command(Platform::MacOs, ServiceStep::Start, &plist).unwrap(),
        vec!["launchctl", "start", "com.isq.daemon"]
    );
    assert!(step_command(Platform::MacOs, ServiceStep::Reload, &plist).is_none());
    assert!(step_command(Platform::Linux, ServiceStep::WriteDefinition, "x").is_none());
    assert!(step_command(Platform::Other, ServiceStep::Start, "x").is_none());
    assert_eq!(
        probe_command(Platform::Linux).unwrap(),
        vec!["systemctl", "--user", "is-active", "isq"]
    );
    assert_eq!(probe_command(Platform::MacOs).unwrap(), vec!["launchctl", "list", "com.isq.daemon"]);
    assert_eq!(
        status_command(Platform::Linux).unwrap(),
        vec!["systemctl", "--user", "show", "isq", "--property=ActiveState,MainPID"]
    );
    assert!(status_command(Platform::Other).is_none());
}

#[test]
fn definitions_name_the_program_and_the_log() {
    let unit = generate_service_file("/usr/bin/isq", "/home/ann/.cache/isq/daemon.log");
    assert_eq!(
        unit,
        "[Unit]\nDescription=isq daemon - issue queue sync service\nAfter=network.target\n\n[Service]\nType=simple\nExecStart=/usr/bin/isq daemon run\nRestart=always\nRestartSec=5\nStandardOutput=append:/home/ann/.cache/isq/daemon.log\nStandardError=append:/home/ann/.cache/isq/daemon.log\n\n[Install]\nWantedBy=default.target\n"
    );
    let plist = generate_plist("/usr/local/bin/isq", "/tmp/daemon.log");
    assert!(plist.starts_with("<?xml version=\"1.0\" encoding=\"UTF-8\"?>\n<!DOCTYPE plist"));
    assert!(plist.contains("<key>Label</key>\n    <string>com.isq.daemon</string>"));
    assert!(plist.contains("<array>\n        <string>/usr/local/bin/isq</string>\n        <string>daemon</string>\n        <string>run</string>\n    </array>"));
    assert!(plist.contains("<key>StandardOutPath</key>\n    <string>/tmp/daemon.log</string>"));
    assert!(plist.contains("<key>StandardErrorPath</key>\n    <string>/tmp/daemon.log</string>"));
    assert!(plist.ends_with("</dict>\n</plist>\n"));
}

#[test]
fn systemd_answers_are_read_line_by_line() {
    let running = lines("ActiveState=active\nMainPID=4242\n");
    assert_eq!(
        read_systemd_status(&running),
        ServiceStatus { installed: true, running: true, pid: Some(4242) }
    );
    let stopped = lines("MainPID=0\nActiveState=inactive");
    assert_eq!(
        read_systemd_status(&stopped),
        ServiceStatus { installed: true, running: false, pid: None }
    );
    // the last state counts; a process id is kept once it was given
    let mixed = lines("ActiveState=active\nMainPID=7\nActiveState=failed\nMainPID=x\nMainPID=0");
    assert_eq!(
        read_systemd_status(&mixed),
        ServiceStatus { installed: true, running: false, pid: Some(7) }
    );
    let odd = lines(" ActiveState=active\nActiveState=active \nMainPID=4294967296");
    assert_eq!(
        read_systemd_status(&odd),
        ServiceStatus { installed: true, running: false, pid: None }
    );
    assert_eq!(
        read_systemd_status(&[]),
        ServiceStatus { installed: true, running: false, pid: None }
    );
}

#[test]
fn launchd_answers_name_the_process() {
    let running = lines("{\n\t\"Label\" = \"com.isq.daemon\";\n\t\"PID\" = 4242;\n\t\"LastExitStatus\" = 0;\n};");
    assert_eq!(
        read_launchd_status(&running),
        ServiceStatus { installed: true, running: true, pid: Some(4242) }
    );
    let stopped = lines("{\n\t\"Label\" = \"com.isq.daemon\";\n\t\"LastExitStatus\" = 0;\n};");
    assert_eq!(
        read_launchd_status(&stopped),
        ServiceStatus { installed: true, running: false, pid: None }
    );
    // only the first line that names the process is read
    let twice = lines("\"PID\" = none;\n\"PID\" = 5;");
    assert_eq!(
        read_launchd_status(&twice),
        ServiceStatus { installed: true, running: false, pid: None }
    );
    let bare = lines("\"PID\"=12;;= 9");
    assert_eq!(
        read_launchd_status(&bare),
        ServiceStatus { installed: true, running: true, pid: Some(12) }
    );
    let no_equals = lines("\"PID\" 12");
    assert_eq!(
        read_launchd_status(&no_equals),
        ServiceStatus { installed: true, running: false, pid: None }
    );
}

#[test]
fn status_puts_it_together() {
    let answer = lines("ActiveState=active\nMainPID=31");
    assert_eq!(
        status(Platform::Linux, true, Some(&answer)),
        Ok(ServiceStatus { installed: true, running: true, pid: Some(31) })
    );
    assert_eq!(
        status(Platform::Linux, false, Some(&answer)),
        Ok(ServiceStatus { installed: false, running: false, pid: None })
    );
    assert_eq!(
        status(Platform::MacOs, true, None),
        Ok(ServiceStatus { installed: true, running: false, pid: None })
    );
    let answer = lines("\t\"PID\" = 77;");
    assert_eq!(
        status(Platform::MacOs, true, Some(&answer)),
        Ok(ServiceStatus { installed: true, running: true, pid: Some(77) })
    );
}
