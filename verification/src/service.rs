//! Talking to whatever init system is actually present.
//!
//! Debian and friends use systemd; Alpine uses OpenRC. Rather than making the
//! user care, the tool detects which one manages the service and speaks to it.
//! Anything else falls back to a bare "not managed" state, where the tool still
//! shows status and edits config but cannot start or stop.
//!
//! Every operation returns the command output on failure. A management tool that
//! says "failed" without saying why just sends the user to look for logs.
//!
//! This module says which command to run and what its outcome means; the caller
//! runs it.

use vstd::prelude::*;

use crate::text::{
    decimal, decimal_text, has, lines, lines_of, occurs, same, say, stack, stacked, texts, trim,
    trimmed_text,
};

verus! {

/// Which init system manages `synctus-server`.
#[derive(Debug, Clone, Copy, PartialEq, Eq, Structural)]
pub enum ServiceManager {
    Systemd,
    OpenRc,
    /// No recognised init system, or the service is not installed under one.
    Unmanaged,
}

/// Where a unit file of systemd may be.
pub const UNIT_IN_ETC: &'static str = "/etc/systemd/system/synctus-server.service";

pub const UNIT_IN_LIB: &'static str = "/lib/systemd/system/synctus-server.service";

pub const UNIT_IN_USR: &'static str = "/usr/lib/systemd/system/synctus-server.service";

/// Where the script of OpenRC is.
pub const INIT_SCRIPT: &'static str = "/etc/init.d/synctus-server";

/// Where OpenRC has the log written to.
pub const LOG_FILE: &'static str = "/var/log/synctus-server.log";

/// Which of the files exist by which an init system is detected.
#[derive(Debug, Clone, Copy, PartialEq, Eq, Structural)]
pub struct Installed {
    pub unit_in_etc: bool,
    pub unit_in_lib: bool,
    pub unit_in_usr: bool,
    pub init_script: bool,
}

/// What manages the service, by the files that are installed.
pub open spec fn manager_of(files: Installed) -> ServiceManager {
    if files.unit_in_etc || files.unit_in_lib || files.unit_in_usr {
        ServiceManager::Systemd
    } else if files.init_script {
        ServiceManager::OpenRc
    } else {
        ServiceManager::Unmanaged
    }
}

impl ServiceManager {
    pub fn label(self) -> (r: &'static str)
        ensures
            r@ == self.name(),
    {
        match self {
            ServiceManager::Systemd => "systemd",
            ServiceManager::OpenRc => "OpenRC",
            ServiceManager::Unmanaged => "未托管",
        }
    }

    pub open spec fn name(self) -> Seq<char> {
        match self {
            ServiceManager::Systemd => "systemd"@,
            ServiceManager::OpenRc => "OpenRC"@,
            ServiceManager::Unmanaged => "未托管"@,
        }
    }

    /// Detect the init system.
    ///
    /// Presence of the *unit file* is what matters, not just of the init system:
    /// a Debian box has systemd whether or not Synctus is installed, and claiming
    /// to manage a service that does not exist produces confusing errors.
    pub fn detect(files: Installed) -> (r: ServiceManager)
        ensures
            r == manager_of(files),
    {
        if files.unit_in_etc || files.unit_in_lib || files.unit_in_usr {
            return ServiceManager::Systemd;
        }
        if files.init_script {
            return ServiceManager::OpenRc;
        }
        ServiceManager::Unmanaged
    }
}

/// Whether the service is currently running.
#[derive(Debug, Clone, Copy, PartialEq, Eq, Structural)]
pub enum RunState {
    Running,
    Stopped,
    /// Could not be determined — no service manager, or the query failed.
    Unknown,
}

impl RunState {
    pub open spec fn name(self) -> Seq<char> {
        match self {
            RunState::Running => "运行中"@,
            RunState::Stopped => "已停止"@,
            RunState::Unknown => "未知"@,
        }
    }

    pub fn label(self) -> (r: &'static str)
        ensures
            r@ == self.name(),
    {
        match self {
            RunState::Running => "运行中",
            RunState::Stopped => "已停止",
            RunState::Unknown => "未知",
        }
    }
}

/// A command to run.
#[derive(Debug)]
pub struct Invocation {
    pub program: String,
    pub args: Vec<String>,
}

impl Invocation {
    /// This is the program with these arguments.
    pub open spec fn runs(self, program: Seq<char>, args: Seq<Seq<char>>) -> bool {
        self.program@ == program && texts(self.args@) == args
    }
}

fn invocation2(program: &str, first: &str, second: &str) -> (r: Invocation)
    ensures
        r.runs(program@, seq![first@, second@]),
{
    let mut args: Vec<String> = Vec::new();
    say(&mut args, first.to_string());
    say(&mut args, second.to_string());
    assert(texts(args@) == seq![first@, second@]);
    Invocation { program: program.to_string(), args }
}

/// A command that ran but failed.
#[derive(Debug)]
pub struct Failure {
    pub stdout: String,
    pub stderr: String,
    pub code: Option<i32>,
}

/// How a command ended: with its output, or with a failure.
pub type Outcome = Result<String, Failure>;

/// An exit code as it is shown.
pub open spec fn code_text(code: Option<i32>) -> Seq<char> {
    match code {
        Some(c) => if c < 0 {
            "Some(-"@ + decimal((-c) as nat) + ")"@
        } else {
            "Some("@ + decimal(c as nat) + ")"@
        },
        None => "None"@,
    }
}

fn show_code(code: Option<i32>) -> (r: String)
    ensures
        r@ == code_text(code),
{
    match code {
        Some(c) => {
            if c < 0 {
                let n: u64 = (-(c as i64)) as u64;
                "Some(-".to_string().concat(decimal_text(n).as_str()).concat(")")
            } else {
                "Some(".to_string().concat(decimal_text(c as u64).as_str()).concat(")")
            }
        },
        None => "None".to_string(),
    }
}

impl Failure {
    /// What went wrong: what the command complained of, else what it printed, else
    /// how it exited.
    pub open spec fn detail(self) -> Seq<char> {
        if trim(self.stderr@).len() > 0 {
            trim(self.stderr@)
        } else if trim(self.stdout@).len() > 0 {
            trim(self.stdout@)
        } else {
            "退出码 "@ + code_text(self.code)
        }
    }

    /// Turn the captured output into an error worth showing a user.
    pub fn into_error(self, what: &str) -> (r: String)
        ensures
            r@ == what@ + " 失败: "@ + self.detail(),
    {
        let err = trimmed_text(self.stderr.as_str());
        let out = trimmed_text(self.stdout.as_str());
        let detail = if !err.as_str().is_empty() {
            err
        } else if !out.as_str().is_empty() {
            out
        } else {
            "退出码 ".to_string().concat(show_code(self.code).as_str())
        };
        what.to_string().concat(" 失败: ").concat(detail.as_str())
    }

    /// A program that could not be run at all.
    pub fn not_run(program: &str, why: &str) -> (r: Failure)
        ensures
            r.stdout@.len() == 0,
            r.stderr@ == "无法执行 "@ + program@ + ": "@ + why@,
            r.code is None,
    {
        Failure {
            stdout: String::new(),
            stderr: "无法执行 ".to_string().concat(program).concat(": ").concat(why),
            code: None,
        }
    }
}

/// Why nothing can be run.
#[derive(Debug, Clone, Copy, PartialEq, Eq, Structural)]
pub enum ServiceError {
    NoAutostart,
    NoLogs,
    NoService,
}

impl ServiceError {
    pub fn message(self) -> (r: &'static str)
        ensures
            r@ == match self {
                ServiceError::NoAutostart => "未检测到服务管理器，无法设置开机启动"@,
                ServiceError::NoLogs => "未检测到服务管理器，无法读取日志"@,
                ServiceError::NoService =>
                    "未检测到服务管理器。请先用安装脚本安装服务，或手动运行 synctus-server"@,
            },
    {
        match self {
            ServiceError::NoAutostart => "未检测到服务管理器，无法设置开机启动",
            ServiceError::NoLogs => "未检测到服务管理器，无法读取日志",
            ServiceError::NoService =>
                "未检测到服务管理器。请先用安装脚本安装服务，或手动运行 synctus-server",
        }
    }
}

/// A command, and how it is called in an error about it.
#[derive(Debug)]
pub struct Action {
    pub command: Invocation,
    pub what: String,
}

impl Action {
    /// What the outcome of the command means.
    pub fn finish(self, outcome: Outcome) -> (r: Result<(), String>)
        ensures
            match outcome {
                Ok(_) => r is Ok,
                Err(f) => r matches Err(e) && e@ == self.what@ + " 失败: "@ + f.detail(),
            },
    {
        match outcome {
            Ok(_) => Ok(()),
            Err(f) => Err(f.into_error(self.what.as_str())),
        }
    }
}

/// Where the log is.
#[derive(Debug)]
pub enum LogSource {
    /// What a command prints.
    Journal(Action),
    /// The end of a file.
    File(String),
}

/// Manages the relay service through the detected init system.
#[derive(Debug)]
pub struct Service {
    pub manager: ServiceManager,
}

/// Whether the service runs, by the outcome of the query.
pub open spec fn state_of(manager: ServiceManager, outcome: Option<Outcome>) -> RunState {
    match (manager, outcome) {
        (ServiceManager::Systemd, Some(Ok(out))) => if trim(out@) == "active"@ {
            RunState::Running
        } else {
            RunState::Stopped
        },
        (ServiceManager::Systemd, Some(Err(f))) => if trim(f.stdout@) == "inactive"@ || trim(
            f.stdout@,
        ) == "failed"@ || trim(f.stdout@) == "activating"@ || trim(f.stdout@)
            == "deactivating"@ {
            RunState::Stopped
        } else {
            RunState::Unknown
        },
        (ServiceManager::OpenRc, Some(Ok(out))) => if occurs(out@, "started"@) {
            RunState::Running
        } else {
            RunState::Stopped
        },
        // A query without an exit code could not be run, and tells nothing.
        (ServiceManager::OpenRc, Some(Err(f))) => if f.code is None {
            RunState::Unknown
        } else {
            RunState::Stopped
        },
        _ => RunState::Unknown,
    }
}

/// Whether the service starts at boot, by the outcome of the query.
pub open spec fn enabled_of(manager: ServiceManager, outcome: Option<Outcome>) -> Option<bool> {
    match (manager, outcome) {
        (ServiceManager::Systemd, Some(Ok(out))) => Some(trim(out@) == "enabled"@),
        (ServiceManager::Systemd, Some(Err(_))) => Some(false),
        (ServiceManager::OpenRc, Some(Ok(out))) => Some(occurs(out@, "synctus-server"@)),
        _ => None,
    }
}

impl Service {
    pub fn detect(files: Installed) -> (r: Service)
        ensures
            r.manager == manager_of(files),
    {
        Service { manager: ServiceManager::detect(files) }
    }

    pub fn manager(&self) -> (r: ServiceManager)
        ensures
            r == self.manager,
    {
        self.manager
    }

    /// The command that tells whether the service is running.
    pub fn state_query(&self) -> (r: Option<Invocation>)
        ensures
            match self.manager {
                ServiceManager::Systemd => r matches Some(c) && c.runs(
                    "systemctl"@,
                    seq!["is-active"@, "synctus-server"@],
                ),
                ServiceManager::OpenRc => r matches Some(c) && c.runs(
                    "rc-service"@,
                    seq!["synctus-server"@, "status"@],
                ),
                ServiceManager::Unmanaged => r is None,
            },
    {
        match self.manager {
            ServiceManager::Systemd => Some(
                invocation2("systemctl", "is-active", "synctus-server"),
            ),
            ServiceManager::OpenRc => Some(invocation2("rc-service", "synctus-server", "status")),
            ServiceManager::Unmanaged => None,
        }
    }

    /// Whether the service is running, by the outcome of the query, if one was
    /// made.
    pub fn state(&self, outcome: Option<&Outcome>) -> (r: RunState)
        ensures
            r == state_of(
                self.manager,
                match outcome {
                    Some(o) => Some(*o),
                    None => None,
                },
            ),
    {
        match outcome {
            None => RunState::Unknown,
            Some(o) => match self.manager {
                ServiceManager::Systemd => match o {
                    // `is-active` exits non-zero when inactive, so the exit status
                    // is the answer.
                    Ok(out) => {
                        if same(trimmed_text(out.as_str()).as_str(), "active") {
                            RunState::Running
                        } else {
                            RunState::Stopped
                        }
                    },
                    // A failed exit code with `inactive`/`failed` on stdout still
                    // means stopped rather than unknown.
                    Err(f) => {
                        let said = trimmed_text(f.stdout.as_str());
                        if same(said.as_str(), "inactive") || same(said.as_str(), "failed") || same(
                            said.as_str(),
                            "activating",
                        ) || same(said.as_str(), "deactivating") {
                            RunState::Stopped
                        } else {
                            RunState::Unknown
                        }
                    },
                },
                ServiceManager::OpenRc => match o {
                    Ok(out) => {
                        if has(out.as_str(), "started") {
                            RunState::Running
                        } else {
                            RunState::Stopped
                        }
                    },
                    Err(f) => {
                        if f.code.is_none() {
                            RunState::Unknown
                        } else {
                            RunState::Stopped
                        }
                    },
                },
                ServiceManager::Unmanaged => RunState::Unknown,
            },
        }
    }

    /// The command that tells whether the service starts at boot.
    pub fn enabled_query(&self) -> (r: Option<Invocation>)
        ensures
            match self.manager {
                ServiceManager::Systemd => r matches Some(c) && c.runs(
                    "systemctl"@,
                    seq!["is-enabled"@, "synctus-server"@],
                ),
                ServiceManager::OpenRc => r matches Some(c) && c.runs(
                    "rc-update"@,
                    seq!["show"@, "default"@],
                ),
                ServiceManager::Unmanaged => r is None,
            },
    {
        match self.manager {
            ServiceManager::Systemd => Some(
                invocation2("systemctl", "is-enabled", "synctus-server"),
            ),
            // `rc-update show` lists enabled services with their runlevels.
            ServiceManager::OpenRc => Some(invocation2("rc-update", "show", "default")),
            ServiceManager::Unmanaged => None,
        }
    }

    /// Whether the service starts at boot, by the outcome of the query, if one was
    /// made.
    pub fn enabled(&self, outcome: Option<&Outcome>) -> (r: Option<bool>)
        ensures
            r == enabled_of(
                self.manager,
                match outcome {
                    Some(o) => Some(*o),
                    None => None,
                },
            ),
    {
        match outcome {
            None => None,
            Some(o) => match self.manager {
                ServiceManager::Systemd => match o {
                    Ok(out) => Some(same(trimmed_text(out.as_str()).as_str(), "enabled")),
                    Err(_) => Some(false),
                },
                ServiceManager::OpenRc => match o {
                    Ok(out) => Some(has(out.as_str(), "synctus-server")),
                    Err(_) => None,
                },
                ServiceManager::Unmanaged => None,
            },
        }
    }

    /// The command that does this to the service.
    pub open spec fn acts(&self, verb: Seq<char>, r: Result<Action, ServiceError>) -> bool {
        match self.manager {
            ServiceManager::Systemd => r matches Ok(a) && a.what@ == "systemctl "@ + verb
                && a.command.runs("systemctl"@, seq![verb, "synctus-server"@]),
            ServiceManager::OpenRc => r matches Ok(a) && a.what@ == "rc-service "@ + verb
                && a.command.runs("rc-service"@, seq!["synctus-server"@, verb]),
            ServiceManager::Unmanaged => r == Err::<Action, _>(ServiceError::NoService),
        }
    }

    pub fn start(&self) -> (r: Result<Action, ServiceError>)
        ensures
            self.acts("start"@, r),
    {
        self.action("start")
    }

    pub fn stop(&self) -> (r: Result<Action, ServiceError>)
        ensures
            self.acts("stop"@, r),
    {
        self.action("stop")
    }

    pub fn restart(&self) -> (r: Result<Action, ServiceError>)
        ensures
            self.acts("restart"@, r),
    {
        self.action("restart")
    }

    fn action(&self, verb: &str) -> (r: Result<Action, ServiceError>)
        ensures
            self.acts(verb@, r),
    {
        match self.manager {
            ServiceManager::Systemd => Ok(
                Action {
                    command: invocation2("systemctl", verb, "synctus-server"),
                    what: "systemctl ".to_string().concat(verb),
                },
            ),
            ServiceManager::OpenRc => Ok(
                Action {
                    command: invocation2("rc-service", "synctus-server", verb),
                    what: "rc-service ".to_string().concat(verb),
                },
            ),
            ServiceManager::Unmanaged => Err(ServiceError::NoService),
        }
    }

    /// Starting at boot is switched on or off this way.
    pub open spec fn enables(&self, enable: bool, r: Result<Action, ServiceError>) -> bool {
        match self.manager {
            ServiceManager::Systemd => {
                let verb = if enable {
                    "enable"@
                } else {
                    "disable"@
                };
                r matches Ok(a) && a.what@ == "systemctl "@ + verb && a.command.runs(
                    "systemctl"@,
                    seq![verb, "synctus-server"@],
                )
            },
            ServiceManager::OpenRc => {
                let verb = if enable {
                    "add"@
                } else {
                    "del"@
                };
                r matches Ok(a) && a.what@ == "rc-update"@ && a.command.runs(
                    "rc-update"@,
                    seq![verb, "synctus-server"@, "default"@],
                )
            },
            ServiceManager::Unmanaged => r == Err::<Action, _>(ServiceError::NoAutostart),
        }
    }

    /// Enable or disable start-at-boot.
    pub fn set_enabled(&self, enable: bool) -> (r: Result<Action, ServiceError>)
        ensures
            self.enables(enable, r),
    {
        match self.manager {
            ServiceManager::Systemd => {
                let verb = if enable {
                    "enable"
                } else {
                    "disable"
                };
                Ok(
                    Action {
                        command: invocation2("systemctl", verb, "synctus-server"),
                        what: "systemctl ".to_string().concat(verb),
                    },
                )
            },
            ServiceManager::OpenRc => {
                let verb = if enable {
                    "add"
                } else {
                    "del"
                };
                let mut command = invocation2("rc-update", verb, "synctus-server");
                say(&mut command.args, "default".to_string());
                assert(texts(command.args@) == seq![verb@, "synctus-server"@, "default"@]);
                Ok(Action { command, what: "rc-update".to_string() })
            },
            ServiceManager::Unmanaged => Err(ServiceError::NoAutostart),
        }
    }

    /// Where the recent log lines are.
    ///
    /// systemd has the journal; OpenRC writes to a file, so the two paths differ.
    pub fn logs(&self, lines: usize) -> (r: Result<LogSource, ServiceError>)
        ensures
            match self.manager {
                ServiceManager::Systemd => r matches Ok(LogSource::Journal(a)) && a.what@
                    == "journalctl"@ && a.command.runs(
                    "journalctl"@,
                    seq![
                        "-u"@,
                        "synctus-server"@,
                        "-n"@,
                        decimal(lines as nat),
                        "--no-pager"@,
                        "--output=short"@,
                    ],
                ),
                ServiceManager::OpenRc => r matches Ok(LogSource::File(path)) && path@ == LOG_FILE@,
                ServiceManager::Unmanaged => r == Err::<LogSource, _>(ServiceError::NoLogs),
            },
    {
        match self.manager {
            ServiceManager::Systemd => {
                let mut command = invocation2("journalctl", "-u", "synctus-server");
                say(&mut command.args, "-n".to_string());
                say(&mut command.args, decimal_text(lines as u64));
                say(&mut command.args, "--no-pager".to_string());
                say(&mut command.args, "--output=short".to_string());
                assert(texts(command.args@) == seq![
                    "-u"@,
                    "synctus-server"@,
                    "-n"@,
                    decimal(lines as nat),
                    "--no-pager"@,
                    "--output=short"@,
                ]);
                Ok(LogSource::Journal(Action { command, what: "journalctl".to_string() }))
            },
            ServiceManager::OpenRc => Ok(LogSource::File(LOG_FILE.to_string())),
            ServiceManager::Unmanaged => Err(ServiceError::NoLogs),
        }
    }
}

/// The last `n` of some lines, or all of them.
pub open spec fn last_lines(all: Seq<Seq<char>>, n: int) -> Seq<Seq<char>> {
    if all.len() <= n {
        all
    } else {
        all.skip(all.len() - n)
    }
}

/// The last `n` lines of a log file, newest last.
pub fn tail(text: &str, n: usize) -> (r: String)
    ensures
        r@ == stacked(last_lines(lines_of(text@), n as int)),
{
    let all = lines(text);
    assert(texts(all@).len() == all@.len());
    let from: usize = if all.len() <= n {
        0
    } else {
        all.len() - n
    };
    assert(texts(all@).skip(0) == texts(all@));
    stack(&all, from)
}

/// A service under no manager never claims to run or to stop: its state is unknown
/// whatever a command said.
pub proof fn unmanaged_is_unknown(outcome: Option<Outcome>)
    ensures
        state_of(ServiceManager::Unmanaged, outcome) == RunState::Unknown,
        enabled_of(ServiceManager::Unmanaged, outcome) is None,
{
}

/// Nor does a query that could not be run claim anything, under any manager.
pub proof fn unasked_is_unknown(manager: ServiceManager, failure: Failure)
    requires
        failure.stdout@.len() == 0,
        failure.code is None,
    ensures
        state_of(manager, None) == RunState::Unknown,
        state_of(manager, Some(Err(failure))) == RunState::Unknown,
{
    reveal_strlit("inactive");
    reveal_strlit("failed");
    reveal_strlit("activating");
    reveal_strlit("deactivating");
}

/// The service counts as running exactly when its manager says so.
pub proof fn running_is_what_the_manager_says(out: String, failure: Failure)
    ensures
        state_of(ServiceManager::Systemd, Some(Ok(out))) == RunState::Running <==> trim(out@)
            == "active"@,
        state_of(ServiceManager::OpenRc, Some(Ok(out))) == RunState::Running <==> occurs(
            out@,
            "started"@,
        ),
        state_of(ServiceManager::Systemd, Some(Ok(out))) != RunState::Unknown,
        state_of(ServiceManager::OpenRc, Some(Ok(out))) != RunState::Unknown,
        state_of(ServiceManager::Systemd, Some(Err(failure))) != RunState::Running,
        state_of(ServiceManager::OpenRc, Some(Err(failure))) != RunState::Running,
        trim(failure.stdout@) == "inactive"@ || trim(failure.stdout@) == "failed"@ ==> state_of(
            ServiceManager::Systemd,
            Some(Err(failure)),
        ) == RunState::Stopped,
        failure.code is Some ==> state_of(ServiceManager::OpenRc, Some(Err(failure)))
            == RunState::Stopped,
        enabled_of(ServiceManager::Systemd, Some(Ok(out))) == Some(trim(out@) == "enabled"@),
        enabled_of(ServiceManager::Systemd, Some(Err(failure))) == Some(false),
        enabled_of(ServiceManager::OpenRc, Some(Ok(out))) == Some(occurs(out@, "synctus-server"@)),
        enabled_of(ServiceManager::OpenRc, Some(Err(failure))) is None,
{
}

/// The end of a log is its last lines, as many as were asked for, or all of them.
pub proof fn the_end_of_a_log_is_shown(all: Seq<Seq<char>>, n: int)
    requires
        n >= 0,
    ensures
        last_lines(all, n).is_suffix_of(all),
        n < all.len() ==> last_lines(all, n).len() == n,
        n >= all.len() ==> last_lines(all, n) == all,
{
    if n < all.len() {
        assert(last_lines(all, n) =~= all.subrange(all.len() - n, all.len() as int));
    } else {
        assert(all =~= all.subrange(0, all.len() as int));
    }
}

/// A failure is explained by what the command complained of, else by what it printed,
/// else by how it exited.
pub proof fn failures_are_explained(f: Failure)
    ensures
        trim(f.stderr@).len() > 0 ==> f.detail() == trim(f.stderr@),
        trim(f.stderr@).len() == 0 && trim(f.stdout@).len() > 0 ==> f.detail() == trim(f.stdout@),
        trim(f.stderr@).len() == 0 && trim(f.stdout@).len() == 0 ==> f.detail() == "退出码 "@
            + code_text(f.code),
        f.code matches Some(c) ==> (c >= 0 ==> code_text(f.code) == "Some("@ + decimal(c as nat)
            + ")"@),
{
}

/// A unit file makes the service one of systemd, wherever it lies; only without one
/// does an init script make it one of OpenRC, and without either nothing manages it.
pub proof fn unit_files_come_first(files: Installed)
    ensures
        manager_of(files) == ServiceManager::Systemd <==> files.unit_in_etc || files.unit_in_lib
            || files.unit_in_usr,
        manager_of(files) == ServiceManager::OpenRc <==> files.init_script && !files.unit_in_etc
            && !files.unit_in_lib && !files.unit_in_usr,
{
}

/// Each command is for the service, and does what its name says: switching starting at
/// boot on is another command than switching it off.
pub proof fn commands_name_the_service(
    service: Service,
    on: Result<Action, ServiceError>,
    off: Result<Action, ServiceError>,
    verb: Seq<char>,
    done: Result<Action, ServiceError>,
)
    requires
        service.enables(true, on),
        service.enables(false, off),
        service.acts(verb, done),
    ensures
        service.manager == ServiceManager::Unmanaged <==> on is Err,
        service.manager == ServiceManager::Unmanaged <==> off is Err,
        service.manager == ServiceManager::Unmanaged <==> done is Err,
        on is Ok && off is Ok ==> {
            let (x, y) = (texts(on->Ok_0.command.args@), texts(off->Ok_0.command.args@));
            &&& on->Ok_0.command.program@ == off->Ok_0.command.program@
            &&& x[1] == "synctus-server"@ && y[1] == "synctus-server"@
            &&& x[0] != y[0]
        },
        done is Ok ==> texts(done->Ok_0.command.args@).contains(verb) && texts(
            done->Ok_0.command.args@,
        ).contains("synctus-server"@),
{
    reveal_strlit("enable");
    reveal_strlit("disable");
    reveal_strlit("add");
    reveal_strlit("del");
    assert("enable"@.len() == 6 && "disable"@.len() == 7);
    assert("add"@[0] == 'a' && "del"@[0] == 'd');
    if let Ok(a) = done {
        let args = texts(a.command.args@);
        assert(args[0] == verb || args[1] == verb);
        assert(args[0] == "synctus-server"@ || args[1] == "synctus-server"@);
    }
}

}
