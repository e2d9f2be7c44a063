//! The background service as the platform's service manager sees it: where
//! its definition lies, what the definition says, and which steps install,
//! start, stop and remove it. The steps are carried out elsewhere; what is
//! found there is handed in.

use vstd::prelude::*;
use vstd::string::StringExecFns;
use crate::text::{
    chars_of, contains_chars, decimal_of, find_char, first_index, has_infix, is_prefix,
    parse_decimal, same_chars, slice_chars, starts_with, string_of, texts, trim_trailing, trimmed,
    without_trailing,
};

verus! {

/// What the service manager knows of the service.
#[derive(Debug, Clone, Copy, PartialEq, Eq, Structural)]
pub struct ServiceStatus {
    pub installed: bool,
    pub running: bool,
    pub pid: Option<u32>,
}

/// The service managers that are known.
#[derive(Debug, Clone, Copy, PartialEq, Eq, Structural)]
pub enum Platform {
    /// launchd.
    MacOs,
    /// The systemd instance of the user.
    Linux,
    /// Any other platform: it has no service.
    Other,
}

/// Why the service could not be managed.
#[derive(Debug, Clone, Copy, PartialEq, Eq, Structural)]
pub enum ServiceError {
    /// The platform has no service.
    Unsupported,
    /// The platform has no service; the loop can be run by hand.
    UnsupportedRunByHand,
    /// launchd did not load the service.
    LoadFailed,
    /// systemd did not enable the service.
    EnableFailed,
    /// The service manager did not start the service.
    StartFailed,
    /// The service manager did not stop the service.
    StopFailed,
}

/// The sentence for a service error.
pub open spec fn service_error_text(e: ServiceError) -> Seq<char> {
    match e {
        ServiceError::Unsupported => "System service not supported on this platform"@,
        ServiceError::UnsupportedRunByHand => "System service not supported on this platform. Use 'isq daemon run' manually."@,
        ServiceError::LoadFailed => "Failed to load launchd service"@,
        ServiceError::EnableFailed => "Failed to enable systemd service"@,
        ServiceError::StartFailed => "Failed to start service"@,
        ServiceError::StopFailed => "Failed to stop service"@,
    }
}

impl ServiceError {
    /// The error as a sentence.
    pub fn message(&self) -> (text: &'static str)
        ensures
            text@ == service_error_text(*self),
    {
        match self {
            ServiceError::Unsupported => "System service not supported on this platform",
            ServiceError::UnsupportedRunByHand => "System service not supported on this platform. Use 'isq daemon run' manually.",
            ServiceError::LoadFailed => "Failed to load launchd service",
            ServiceError::EnableFailed => "Failed to enable systemd service",
            ServiceError::StartFailed => "Failed to start service",
            ServiceError::StopFailed => "Failed to stop service",
        }
    }
}

/// One thing to do to the service. What each step is on each platform,
/// `step_command` and `service_file` say.
#[derive(Debug, Clone, Copy, PartialEq, Eq, Structural)]
pub enum ServiceStep {
    /// Make the directory of the definition and write the definition.
    WriteDefinition,
    /// Remove the definition.
    RemoveDefinition,
    /// Have the service manager read its definitions again.
    Reload,
    /// Make the service known to the service manager and start it.
    Enable,
    /// Stop the service and make the service manager forget it.
    Disable,
    /// Start the service.
    Start,
    /// Stop the service.
    Stop,
}

/// The error that ends the work when a step fails; `None` for a step whose
/// failure is passed over.
pub open spec fn step_failure(platform: Platform, step: ServiceStep) -> Option<ServiceError> {
    match step {
        ServiceStep::Enable => match platform {
            Platform::MacOs => Some(ServiceError::LoadFailed),
            _ => Some(ServiceError::EnableFailed),
        },
        ServiceStep::Start => Some(ServiceError::StartFailed),
        ServiceStep::Stop => Some(ServiceError::StopFailed),
        _ => None,
    }
}

/// The error that ends the work when `step` fails, if its failure counts.
pub fn failure_of(platform: Platform, step: ServiceStep) -> (e: Option<ServiceError>)
    ensures
        e == step_failure(platform, step),
{
    match step {
        ServiceStep::Enable => match platform {
            Platform::MacOs => Some(ServiceError::LoadFailed),
            _ => Some(ServiceError::EnableFailed),
        },
        ServiceStep::Start => Some(ServiceError::StartFailed),
        ServiceStep::Stop => Some(ServiceError::StopFailed),
        _ => None,
    }
}

/// The steps that install the service.
pub open spec fn install_steps(platform: Platform) -> Result<Seq<ServiceStep>, ServiceError> {
    match platform {
        Platform::MacOs => Ok(seq![ServiceStep::WriteDefinition, ServiceStep::Enable]),
        Platform::Linux => Ok(
            seq![ServiceStep::WriteDefinition, ServiceStep::Reload, ServiceStep::Enable],
        ),
        Platform::Other => Err(ServiceError::UnsupportedRunByHand),
    }
}

/// The steps that remove the service; none where it is not installed.
pub open spec fn uninstall_steps(platform: Platform, installed: bool) -> Result<
    Seq<ServiceStep>,
    ServiceError,
> {
    match platform {
        Platform::Other => Err(ServiceError::Unsupported),
        _ => if !installed {
            Ok(Seq::empty())
        } else {
            match platform {
                Platform::MacOs => Ok(seq![ServiceStep::Disable, ServiceStep::RemoveDefinition]),
                _ => Ok(
                    seq![ServiceStep::Disable, ServiceStep::RemoveDefinition, ServiceStep::Reload],
                ),
            }
        },
    }
}

/// The steps that start the service: it is installed where it is not; it is
/// left alone where it runs.
pub open spec fn start_steps(platform: Platform, installed: bool, running: bool) -> Result<
    Seq<ServiceStep>,
    ServiceError,
> {
    match platform {
        Platform::Other => Err(ServiceError::UnsupportedRunByHand),
        _ => if !installed {
            install_steps(platform)
        } else if running {
            Ok(Seq::empty())
        } else {
            Ok(seq![ServiceStep::Start])
        },
    }
}

/// The steps that stop the service; none where it does not run.
pub open spec fn stop_steps(platform: Platform, running: bool) -> Result<
    Seq<ServiceStep>,
    ServiceError,
> {
    match platform {
        Platform::Other => Err(ServiceError::Unsupported),
        _ => if running {
            Ok(seq![ServiceStep::Stop])
        } else {
            Ok(Seq::empty())
        },
    }
}

/// The steps that stop the service and start it again.
pub open spec fn restart_steps(platform: Platform, installed: bool, running: bool) -> Result<
    Seq<ServiceStep>,
    ServiceError,
> {
    match stop_steps(platform, running) {
        Err(e) => Err(e),
        Ok(first) => match start_steps(platform, installed, false) {
            Err(e) => Err(e),
            Ok(then) => Ok(first + then),
        },
    }
}

/// The view of a list of steps or an error.
pub open spec fn steps_view(r: Result<Vec<ServiceStep>, ServiceError>) -> Result<
    Seq<ServiceStep>,
    ServiceError,
> {
    match r {
        Ok(steps) => Ok(steps@),
        Err(e) => Err(e),
    }
}

/// Whether the service is installed, given whether its definition was found.
pub fn is_installed(platform: Platform, definition_found: bool) -> (r: Result<bool, ServiceError>)
    ensures
        r == (match platform {
            Platform::Other => Err::<bool, ServiceError>(ServiceError::Unsupported),
            _ => Ok(definition_found),
        }),
{
    match platform {
        Platform::Other => Err(ServiceError::Unsupported),
        _ => Ok(definition_found),
    }
}

/// Whether the service runs, given whether the service manager's probe
/// succeeded.
pub fn is_running(platform: Platform, probe_succeeded: bool) -> (r: Result<bool, ServiceError>)
    ensures
        r == (match platform {
            Platform::Other => Err::<bool, ServiceError>(ServiceError::Unsupported),
            _ => Ok(probe_succeeded),
        }),
{
    match platform {
        Platform::Other => Err(ServiceError::Unsupported),
        _ => Ok(probe_succeeded),
    }
}

/// The steps that install the service.
pub fn install(platform: Platform) -> (r: Result<Vec<ServiceStep>, ServiceError>)
    ensures
        steps_view(r) == install_steps(platform),
{
    match platform {
        Platform::MacOs => {
            let mut steps: Vec<ServiceStep> = Vec::new();
            steps.push(ServiceStep::WriteDefinition);
            steps.push(ServiceStep::Enable);
            proof {
                assert(steps@ =~= seq![ServiceStep::WriteDefinition, ServiceStep::Enable]);
            }
            Ok(steps)
        },
        Platform::Linux => {
            let mut steps: Vec<ServiceStep> = Vec::new();
            steps.push(ServiceStep::WriteDefinition);
            steps.push(ServiceStep::Reload);
            steps.push(ServiceStep::Enable);
            proof {
                assert(steps@ =~= seq![
                    ServiceStep::WriteDefinition,
                    ServiceStep::Reload,
                    ServiceStep::Enable,
                ]);
            }
            Ok(steps)
        },
        Platform::Other => Err(ServiceError::UnsupportedRunByHand),
    }
}

/// The steps that remove the service, given whether it is installed.
pub fn uninstall(platform: Platform, installed: bool) -> (r: Result<Vec<ServiceStep>, ServiceError>)
    ensures
        steps_view(r) == uninstall_steps(platform, installed),
{
    match platform {
        Platform::Other => Err(ServiceError::Unsupported),
        _ => {
            let mut steps: Vec<ServiceStep> = Vec::new();
            if installed {
                steps.push(ServiceStep::Disable);
                steps.push(ServiceStep::RemoveDefinition);
                match platform {
                    Platform::MacOs => {
                        proof {
                            assert(steps@ =~= seq![
                                ServiceStep::Disable,
                                ServiceStep::RemoveDefinition,
                            ]);
                        }
                    },
                    _ => {
                        steps.push(ServiceStep::Reload);
                        proof {
                            assert(steps@ =~= seq![
                                ServiceStep::Disable,
                                ServiceStep::RemoveDefinition,
                                ServiceStep::Reload,
                            ]);
                        }
                    },
                }
            } else {
                proof {
                    assert(steps@ =~= Seq::empty());
                }
            }
            Ok(steps)
        },
    }
}

/// The steps that start the service, given whether it is installed and
/// whether it runs.
pub fn start(platform: Platform, installed: bool, running: bool) -> (r: Result<
    Vec<ServiceStep>,
    ServiceError,
>)
    ensures
        steps_view(r) == start_steps(platform, installed, running),
{
    match platform {
        Platform::Other => Err(ServiceError::UnsupportedRunByHand),
        _ => {
            if !installed {
                install(platform)
            } else {
                let mut steps: Vec<ServiceStep> = Vec::new();
                if !running {
                    steps.push(ServiceStep::Start);
                    proof {
                        assert(steps@ =~= seq![ServiceStep::Start]);
                    }
                } else {
                    proof {
                        assert(steps@ =~= Seq::empty());
                    }
                }
                Ok(steps)
            }
        },
    }
}

/// The steps that stop the service, given whether it runs.
pub fn stop(platform: Platform, running: bool) -> (r: Result<Vec<ServiceStep>, ServiceError>)
    ensures
        steps_view(r) == stop_steps(platform, running),
{
    match platform {
        Platform::Other => Err(ServiceError::Unsupported),
        _ => {
            let mut steps: Vec<ServiceStep> = Vec::new();
            if running {
                steps.push(ServiceStep::Stop);
                proof {
                    assert(steps@ =~= seq![ServiceStep::Stop]);
                }
            } else {
                proof {
                    assert(steps@ =~= Seq::empty());
                }
            }
            Ok(steps)
        },
    }
}

/// The steps that stop the service and start it again.
pub fn restart(platform: Platform, installed: bool, running: bool) -> (r: Result<
    Vec<ServiceStep>,
    ServiceError,
>)
    ensures
        steps_view(r) == restart_steps(platform, installed, running),
{
    let mut steps = match stop(platform, running) {
        Ok(steps) => steps,
        Err(e) => {
            return Err(e);
        },
    };
    let mut then = match start(platform, installed, false) {
        Ok(steps) => steps,
        Err(e) => {
            return Err(e);
        },
    };
    steps.append(&mut then);
    Ok(steps)
}

/// Where launchd looks for the definition, under the home directory `home`.
pub fn plist_path(home: &str) -> (path: String)
    ensures
        path@ == home@ + "/Library/LaunchAgents/com.isq.daemon.plist"@,
{
    let mut path = String::from_str(home);
    path.append("/Library/LaunchAgents/com.isq.daemon.plist");
    path
}

/// Where systemd looks for the definition, under the home directory `home`.
pub fn service_path(home: &str) -> (path: String)
    ensures
        path@ == home@ + "/.config/systemd/user/isq.service"@,
{
    let mut path = String::from_str(home);
    path.append("/.config/systemd/user/isq.service");
    path
}

/// The definition that systemd is given: the loop run from `exe_path`, kept
/// alive, its output appended to `log_path`.
pub open spec fn unit_text(exe_path: Seq<char>, log_path: Seq<char>) -> Seq<char> {
    "[Unit]\nDescription=isq daemon - issue queue sync service\nAfter=network.target\n\n[Service]\nType=simple\nExecStart="@
        + exe_path
        + " daemon run\nRestart=always\nRestartSec=5\nStandardOutput=append:"@
        + log_path + "\nStandardError=append:"@ + log_path
        + "\n\n[Install]\nWantedBy=default.target\n"@
}

/// The definition that systemd is given.
pub fn generate_service_file(exe_path: &str, log_path: &str) -> (text: String)
    ensures
        text@ == unit_text(exe_path@, log_path@),
{
    let mut text = String::from_str(
        "[Unit]\nDescription=isq daemon - issue queue sync service\nAfter=network.target\n\n[Service]\nType=simple\nExecStart=",
    );
    text.append(exe_path);
    text.append(" daemon run\nRestart=always\nRestartSec=5\nStandardOutput=append:");
    text.append(log_path);
    text.append("\nStandardError=append:");
    text.append(log_path);
    text.append("\n\n[Install]\nWantedBy=default.target\n");
    text
}

/// The definition that launchd is given: the loop run from `exe_path` at
/// load, kept alive, its output written to `log_path`.
pub open spec fn plist_text(exe_path: Seq<char>, log_path: Seq<char>) -> Seq<char> {
    "<?xml version=\"1.0\" encoding=\"UTF-8\"?>\n<!DOCTYPE plist PUBLIC \"-//Apple//DTD PLIST 1.0//EN\" \"http://www.apple.com/DTDs/PropertyList-1.0.dtd\">\n<plist version=\"1.0\">\n<dict>\n    <key>Label</key>\n    <string>com.isq.daemon</string>\n    <key>ProgramArguments</key>\n    <array>\n        <string>"@
        + exe_path
        + "</string>\n        <string>daemon</string>\n        <string>run</string>\n    </array>\n    <key>RunAtLoad</key>\n    <true/>\n    <key>KeepAlive</key>\n    <true/>\n    <key>StandardOutPath</key>\n    <string>"@
        + log_path + "</string>\n    <key>StandardErrorPath</key>\n    <string>"@ + log_path
        + "</string>\n</dict>\n</plist>\n"@
}

/// The definition that launchd is given.
pub fn generate_plist(exe_path: &str, log_path: &str) -> (text: String)
    ensures
        text@ == plist_text(exe_path@, log_path@),
{
    let mut text = String::from_str(
        "<?xml version=\"1.0\" encoding=\"UTF-8\"?>\n<!DOCTYPE plist PUBLIC \"-//Apple//DTD PLIST 1.0//EN\" \"http://www.apple.com/DTDs/PropertyList-1.0.dtd\">\n<plist version=\"1.0\">\n<dict>\n    <key>Label</key>\n    <string>com.isq.daemon</string>\n    <key>ProgramArguments</key>\n    <array>\n        <string>",
    );
    text.append(exe_path);
    text.append(
        "</string>\n        <string>daemon</string>\n        <string>run</string>\n    </array>\n    <key>RunAtLoad</key>\n    <true/>\n    <key>KeepAlive</key>\n    <true/>\n    <key>StandardOutPath</key>\n    <string>",
    );
    text.append(log_path);
    text.append("</string>\n    <key>StandardErrorPath</key>\n    <string>");
    text.append(log_path);
    text.append("</string>\n</dict>\n</plist>\n");
    text
}

/// The words of the command that carries out a step, where the step is a
/// command: the writing and the removing of the definition are none, and
/// launchd has nothing to read again. `definition` is the path of the
/// definition.
pub open spec fn command_of(platform: Platform, step: ServiceStep, definition: Seq<char>) -> Option<
    Seq<Seq<char>>,
> {
    match platform {
        Platform::Linux => match step {
            ServiceStep::Reload => Some(seq!["systemctl"@, "--user"@, "daemon-reload"@]),
            ServiceStep::Enable => Some(
                seq!["systemctl"@, "--user"@, "enable"@, "--now"@, "isq"@],
            ),
            ServiceStep::Disable => Some(
                seq!["systemctl"@, "--user"@, "disable"@, "--now"@, "isq"@],
            ),
            ServiceStep::Start => Some(seq!["systemctl"@, "--user"@, "start"@, "isq"@]),
            ServiceStep::Stop => Some(seq!["systemctl"@, "--user"@, "stop"@, "isq"@]),
            _ => None,
        },
        Platform::MacOs => match step {
            ServiceStep::Enable => Some(seq!["launchctl"@, "load"@, "-w"@, definition]),
            ServiceStep::Disable => Some(seq!["launchctl"@, "unload"@, "-w"@, definition]),
            ServiceStep::Start => Some(seq!["launchctl"@, "start"@, "com.isq.daemon"@]),
            ServiceStep::Stop => Some(seq!["launchctl"@, "stop"@, "com.isq.daemon"@]),
            _ => None,
        },
        Platform::Other => None,
    }
}

/// The words of an optional command.
pub open spec fn opt_words(words: Option<Vec<String>>) -> Option<Seq<Seq<char>>> {
    match words {
        Some(w) => Some(texts(w@)),
        None => None,
    }
}

/// A command of three words.
fn words3(a: &str, b: &str, c: &str) -> (words: Vec<String>)
    ensures
        texts(words@) == seq![a@, b@, c@],
{
    let mut words: Vec<String> = Vec::new();
    words.push(String::from_str(a));
    words.push(String::from_str(b));
    words.push(String::from_str(c));
    proof {
        assert(texts(words@) =~= seq![a@, b@, c@]);
    }
    words
}

/// A command of four words.
fn words4(a: &str, b: &str, c: &str, d: &str) -> (words: Vec<String>)
    ensures
        texts(words@) == seq![a@, b@, c@, d@],
{
    let mut words = words3(a, b, c);
    let ghost before = words@;
    words.push(String::from_str(d));
    proof {
        assert(texts(words@) =~= texts(before).push(d@));
        assert(texts(words@) =~= seq![a@, b@, c@, d@]);
    }
    words
}

/// A command of five words.
fn words5(a: &str, b: &str, c: &str, d: &str, e: &str) -> (words: Vec<String>)
    ensures
        texts(words@) == seq![a@, b@, c@, d@, e@],
{
    let mut words = words4(a, b, c, d);
    let ghost before = words@;
    words.push(String::from_str(e));
    proof {
        assert(texts(words@) =~= texts(before).push(e@));
        assert(texts(words@) =~= seq![a@, b@, c@, d@, e@]);
    }
    words
}

/// The words of the command that carries out `step`, where it is a command.
pub fn step_command(platform: Platform, step: ServiceStep, definition: &str) -> (words: Option<
    Vec<String>,
>)
    ensures
        opt_words(words) == command_of(platform, step, definition@),
{
    match platform {
        Platform::Linux => match step {
            ServiceStep::Reload => Some(words3("systemctl", "--user", "daemon-reload")),
            ServiceStep::Enable => Some(words5("systemctl", "--user", "enable", "--now", "isq")),
            ServiceStep::Disable => Some(words5("systemctl", "--user", "disable", "--now", "isq")),
            ServiceStep::Start => Some(words4("systemctl", "--user", "start", "isq")),
            ServiceStep::Stop => Some(words4("systemctl", "--user", "stop", "isq")),
            _ => None,
        },
        Platform::MacOs => match step {
            ServiceStep::Enable => Some(words4("launchctl", "load", "-w", definition)),
            ServiceStep::Disable => Some(words4("launchctl", "unload", "-w", definition)),
            ServiceStep::Start => Some(words3("launchctl", "start", "com.isq.daemon")),
            ServiceStep::Stop => Some(words3("launchctl", "stop", "com.isq.daemon")),
            _ => None,
        },
        Platform::Other => None,
    }
}

/// The words of the command that asks whether the service runs.
pub open spec fn probe_words(platform: Platform) -> Option<Seq<Seq<char>>> {
    match platform {
        Platform::Linux => Some(seq!["systemctl"@, "--user"@, "is-active"@, "isq"@]),
        Platform::MacOs => Some(seq!["launchctl"@, "list"@, "com.isq.daemon"@]),
        Platform::Other => None,
    }
}

/// The words of the command that asks whether the service runs.
pub fn probe_command(platform: Platform) -> (words: Option<Vec<String>>)
    ensures
        opt_words(words) == probe_words(platform),
{
    match platform {
        Platform::Linux => Some(words4("systemctl", "--user", "is-active", "isq")),
        Platform::MacOs => Some(words3("launchctl", "list", "com.isq.daemon")),
        Platform::Other => None,
    }
}

/// The words of the command whose output `status` reads.
pub open spec fn status_words(platform: Platform) -> Option<Seq<Seq<char>>> {
    match platform {
        Platform::Linux => Some(
            seq![
                "systemctl"@,
                "--user"@,
                "show"@,
                "isq"@,
                "--property=ActiveState,MainPID"@,
            ],
        ),
        Platform::MacOs => Some(seq!["launchctl"@, "list"@, "com.isq.daemon"@]),
        Platform::Other => None,
    }
}

/// The words of the command whose output `status` reads.
pub fn status_command(platform: Platform) -> (words: Option<Vec<String>>)
    ensures
        opt_words(words) == status_words(platform),
{
    match platform {
        Platform::Linux => Some(
            words5("systemctl", "--user", "show", "isq", "--property=ActiveState,MainPID"),
        ),
        Platform::MacOs => Some(words3("launchctl", "list", "com.isq.daemon")),
        Platform::Other => None,
    }
}

/// The process id that a text names: a number above zero that fits 32 bits.
pub open spec fn pid_of(text: Seq<char>) -> Option<u32> {
    match decimal_of(text, u32::MAX as u64) {
        Some(n) => Some(n as u32),
        None => None,
    }
}

/// What systemd's answer says of the service: it runs if the last line that
/// gives the active state gives `active`; its process id is the last one
/// above zero that a line gives.
pub open spec fn systemd_status(lines: Seq<Seq<char>>) -> ServiceStatus
    decreases lines.len(),
{
    if lines.len() == 0 {
        ServiceStatus { installed: true, running: false, pid: None }
    } else {
        let before = systemd_status(lines.drop_last());
        let line = lines.last();
        let running = if is_prefix("ActiveState="@, line) {
            line.skip("ActiveState="@.len() as int) == "active"@
        } else {
            before.running
        };
        let pid = if is_prefix("MainPID="@, line) {
            match pid_of(line.skip("MainPID="@.len() as int)) {
                Some(p) => if p > 0 {
                    Some(p)
                } else {
                    before.pid
                },
                None => before.pid,
            }
        } else {
            before.pid
        };
        ServiceStatus { installed: true, running, pid }
    }
}

/// The position of the first line that holds `"PID"`, or the number of
/// lines where none does.
pub open spec fn pid_line(lines: Seq<Seq<char>>) -> int
    decreases lines.len(),
{
    if lines.len() == 0 {
        0
    } else if has_infix(lines[0], "\"PID\""@) {
        0
    } else {
        1 + pid_line(lines.drop_first())
    }
}

/// The part of a text between its first and its second `=`, where it has a
/// first; to the end where it has no second.
pub open spec fn second_field(line: Seq<char>) -> Option<Seq<char>> {
    let at = first_index(line, '=');
    if at < line.len() {
        let rest = line.skip(at + 1);
        Some(rest.take(first_index(rest, '=')))
    } else {
        None
    }
}

/// The process id that launchd's answer gives: on the first line that holds
/// `"PID"`, what stands after the `=`, without white space around it and
/// without the semicolons at its end.
pub open spec fn launchd_pid(lines: Seq<Seq<char>>) -> Option<u32> {
    let at = pid_line(lines);
    if 0 <= at < lines.len() {
        match second_field(lines[at]) {
            Some(field) => pid_of(without_trailing(trimmed(field), ';')),
            None => None,
        }
    } else {
        None
    }
}

/// What launchd's answer says of the service: it runs exactly if the answer
/// gives a process id.
pub open spec fn launchd_status(lines: Seq<Seq<char>>) -> ServiceStatus {
    ServiceStatus {
        installed: true,
        running: launchd_pid(lines) is Some,
        pid: launchd_pid(lines),
    }
}

/// What is known of the service: nothing runs where it is not installed or
/// the service manager gave no answer; else what the lines of its answer say.
pub open spec fn status_of(
    platform: Platform,
    installed: bool,
    answer: Option<Seq<Seq<char>>>,
) -> Result<ServiceStatus, ServiceError> {
    match platform {
        Platform::Other => Err(ServiceError::Unsupported),
        _ => if !installed {
            Ok(ServiceStatus { installed: false, running: false, pid: None })
        } else {
            match answer {
                None => Ok(ServiceStatus { installed: true, running: false, pid: None }),
                Some(lines) => match platform {
                    Platform::MacOs => Ok(launchd_status(lines)),
                    _ => Ok(systemd_status(lines)),
                },
            }
        },
    }
}

/// The process id that `text` names.
pub fn parse_pid(text: &Vec<char>) -> (pid: Option<u32>)
    ensures
        pid == pid_of(text@),
{
    match parse_decimal(text, 0xffff_ffff) {
        Some(n) => Some(n as u32),
        None => None,
    }
}

/// What the lines of systemd's answer say of the service.
pub fn read_systemd_status(lines: &[String]) -> (status: ServiceStatus)
    ensures
        status == systemd_status(texts(lines@)),
{
    let active_key = chars_of("ActiveState=");
    let pid_key = chars_of("MainPID=");
    let active = chars_of("active");
    let mut status = ServiceStatus { installed: true, running: false, pid: None };
    let mut i: usize = 0;
    proof {
        assert(texts(lines@).take(0) =~= Seq::empty());
    }
    while i < lines.len()
        invariant
            i <= lines.len(),
            active_key@ == "ActiveState="@,
            pid_key@ == "MainPID="@,
            active@ == "active"@,
            status == systemd_status(texts(lines@).take(i as int)),
        decreases lines.len() - i,
    {
        let line = chars_of(lines[i].as_str());
        proof {
            assert(texts(lines@).take(i + 1).drop_last() =~= texts(lines@).take(i as int));
            assert(texts(lines@).take(i + 1).last() == line@);
        }
        if starts_with(&line, &active_key) {
            let value = slice_chars(&line, active_key.len(), line.len());
            proof {
                assert(line@.subrange(active_key.len() as int, line.len() as int) == line@.skip(
                    active_key.len() as int,
                ));
            }
            status.running = same_chars(&value, &active);
        }
        if starts_with(&line, &pid_key) {
            let value = slice_chars(&line, pid_key.len(), line.len());
            proof {
                assert(line@.subrange(pid_key.len() as int, line.len() as int) == line@.skip(
                    pid_key.len() as int,
                ));
            }
            match parse_pid(&value) {
                Some(p) => {
                    if p > 0 {
                        status.pid = Some(p);
                    }
                },
                None => {},
            }
        }
        i += 1;
    }
    proof {
        assert(texts(lines@).take(i as int) =~= texts(lines@));
    }
    status
}

/// The part of `line` between its first and its second `=`.
pub fn field_after_equals(line: &Vec<char>) -> (field: Option<Vec<char>>)
    ensures
        match field {
            Some(f) => second_field(line@) == Some(f@),
            None => second_field(line@) is None,
        },
{
    match find_char(line, '=') {
        None => None,
        Some(at) => {
            let rest = slice_chars(line, at + 1, line.len());
            proof {
                assert(line@.subrange(at + 1, line.len() as int) == line@.skip(at + 1));
            }
            let end = match find_char(&rest, '=') {
                Some(second) => second,
                None => rest.len(),
            };
            let field = slice_chars(&rest, 0, end);
            proof {
                assert(rest@.subrange(0, end as int) == rest@.take(end as int));
            }
            Some(field)
        },
    }
}

/// The process id that a field names once the white space around it is
/// gone: `trimmed` is the field without that white space.
pub fn pid_of_trimmed(trimmed_field: &str) -> (pid: Option<u32>)
    ensures
        pid == pid_of(without_trailing(trimmed_field@, ';')),
{
    let chars = chars_of(trimmed_field);
    let digits = trim_trailing(&chars, ';');
    parse_pid(&digits)
}

/// What the lines of launchd's answer say of the service.
pub fn read_launchd_status(lines: &[String]) -> (status: ServiceStatus)
    ensures
        status == launchd_status(texts(lines@)),
{
    let key = chars_of("\"PID\"");
    let ghost all = texts(lines@);
    let mut i: usize = 0;
    proof {
        assert(all.skip(0) =~= all);
    }
    while i < lines.len()
        invariant
            i <= lines.len(),
            all == texts(lines@),
            key@ == "\"PID\""@,
            pid_line(all) == i + pid_line(all.skip(i as int)),
        decreases lines.len() - i,
    {
        let line = chars_of(lines[i].as_str());
        proof {
            assert(all.skip(i as int)[0] == line@);
            assert(all.skip(i as int).drop_first() =~= all.skip(i + 1));
        }
        if contains_chars(&line, &key) {
            proof {
                assert(pid_line(all) == i);
                assert(all[i as int] == line@);
            }
            let pid = match field_after_equals(&line) {
                Some(field) => {
                    let text = string_of(&field);
                    pid_of_trimmed(text.as_str().trim())
                },
                None => None,
            };
            return ServiceStatus { installed: true, running: pid.is_some(), pid };
        }
        i += 1;
    }
    proof {
        assert(all.skip(i as int) =~= Seq::empty());
    }
    ServiceStatus { installed: true, running: false, pid: None }
}

/// What is known of the service, given whether it is installed and the
/// lines of the service manager's answer, where it gave one.
pub fn status(platform: Platform, installed: bool, answer: Option<&[String]>) -> (r: Result<
    ServiceStatus,
    ServiceError,
>)
    ensures
        r == status_of(
            platform,
            installed,
            match answer {
                Some(lines) => Some(texts(lines@)),
                None => None,
            },
        ),
{
    match platform {
        Platform::Other => Err(ServiceError::Unsupported),
        _ => {
            if !installed {
                return Ok(ServiceStatus { installed: false, running: false, pid: None });
            }
            match answer {
                None => Ok(ServiceStatus { installed: true, running: false, pid: None }),
                Some(lines) => match platform {
                    Platform::MacOs => Ok(read_launchd_status(lines)),
                    _ => Ok(read_systemd_status(lines)),
                },
            }
        },
    }
}

} // verus!
