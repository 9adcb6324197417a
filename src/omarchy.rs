//! External commands: which ones an apply runs, and how the outcome of each
//! is treated (fatal, warned about, or ignored).
use vstd::prelude::*;
use crate::text::copy_str;

verus! {

/// A command to run after the subsystems are applied.
#[derive(Debug, Clone)]
pub struct RestartCommand {
    pub cmd: String,
    pub args: Vec<String>,
}

/// How the outcome of one command is treated.
#[derive(Debug, Clone, Copy, PartialEq, Eq, Structural)]
pub enum Policy {
    /// Missing or failing aborts the command being carried out.
    Required,
    /// Missing is warned about; failing aborts.
    Tool,
    /// Missing or failing is warned about.
    Optional,
    /// Nothing is reported.
    Silent,
}

/// What running an external program came to.
#[derive(Debug, Clone)]
pub enum CommandOutcome {
    Ran,
    NotFound,
    Failed { detail: String },
}

/// What the caller does next.
#[derive(Debug, Clone)]
pub enum Verdict {
    Continue,
    Warn(String),
    Abort(String),
}

/// A command with its arguments and policy.
#[derive(Debug, Clone)]
pub struct PlannedCommand {
    pub cmd: String,
    pub args: Vec<String>,
    pub policy: Policy,
}

pub open spec fn not_found_msg(cmd: Seq<char>) -> Seq<char> {
    cmd + " not found in PATH"@
}

pub open spec fn failed_msg(cmd: Seq<char>, detail: Seq<char>) -> Seq<char> {
    cmd + " exited with "@ + detail
}

fn not_found_message(cmd: &str) -> (r: String)
    ensures
        r@ == not_found_msg(cmd@),
{
    let mut m = copy_str(cmd);
    m.append(" not found in PATH");
    m
}

fn failed_message(cmd: &str, detail: &String) -> (r: String)
    ensures
        r@ == failed_msg(cmd@, detail@),
{
    let mut m = copy_str(cmd);
    m.append(" exited with ");
    m.append(detail.as_str());
    m
}

/// The verdict on running `cmd` under `policy`.
pub fn settle(policy: Policy, cmd: &str, outcome: &CommandOutcome) -> (r: Verdict)
    ensures
        outcome is Ran ==> r is Continue,
        policy == Policy::Silent ==> r is Continue,
        outcome is NotFound && (policy == Policy::Tool || policy == Policy::Optional) ==> (
        r matches Verdict::Warn(m) && m@ == not_found_msg(cmd@)),
        outcome is NotFound && policy == Policy::Required ==> (r matches Verdict::Abort(m) && m@
            == not_found_msg(cmd@)),
        outcome is Failed && (policy == Policy::Required || policy == Policy::Tool) ==> (
        r matches Verdict::Abort(m) && m@ == failed_msg(cmd@, outcome->detail@)),
        outcome is Failed && policy == Policy::Optional ==> (r matches Verdict::Warn(m) && m@
            == failed_msg(cmd@, outcome->detail@)),
{
    match outcome {
        CommandOutcome::Ran => Verdict::Continue,
        CommandOutcome::NotFound => match policy {
            Policy::Required => Verdict::Abort(not_found_message(cmd)),
            Policy::Tool | Policy::Optional => Verdict::Warn(not_found_message(cmd)),
            Policy::Silent => Verdict::Continue,
        },
        CommandOutcome::Failed { detail } => match policy {
            Policy::Required | Policy::Tool => Verdict::Abort(failed_message(cmd, detail)),
            Policy::Optional => Verdict::Warn(failed_message(cmd, detail)),
            Policy::Silent => Verdict::Continue,
        },
    }
}

/// A command that must be there and succeed.
pub fn run_required(cmd: &str, outcome: &CommandOutcome) -> (r: Result<(), String>)
    ensures
        outcome is Ran ==> r is Ok,
        outcome is NotFound ==> (r matches Err(m) && m@ == not_found_msg(cmd@)),
        outcome is Failed ==> (r matches Err(m) && m@ == failed_msg(cmd@, outcome->detail@)),
{
    match settle(Policy::Required, cmd, outcome) {
        Verdict::Abort(m) => Err(m),
        _ => Ok(()),
    }
}

/// `p` runs `cmd` with `args` under `policy`.
pub open spec fn plans(p: PlannedCommand, cmd: Seq<char>, args: Seq<Seq<char>>, policy: Policy) -> bool {
    p.cmd@ == cmd && p.args@.map_values(|a: String| a@) == args && p.policy == policy
}

fn plan(cmd: &str, args: Vec<String>, policy: Policy) -> (r: PlannedCommand)
    ensures
        r.cmd@ == cmd@ && r.args == args && r.policy == policy,
{
    PlannedCommand { cmd: copy_str(cmd), args, policy }
}

fn one_arg(a: &str) -> (r: Vec<String>)
    ensures
        r@.map_values(|x: String| x@) == seq![a@],
{
    let mut v: Vec<String> = Vec::new();
    v.push(copy_str(a));
    assert(v@.map_values(|x: String| x@) =~= seq![a@]);
    v
}

fn no_args() -> (r: Vec<String>)
    ensures
        r@.map_values(|x: String| x@) == Seq::<Seq<char>>::empty(),
{
    let v: Vec<String> = Vec::new();
    assert(v@.map_values(|x: String| x@) =~= Seq::<Seq<char>>::empty());
    v
}

/// The reload signals sent after an apply, each best effort and silent: the
/// terminal, the status bar (through the applier's own restart command when
/// it gave one, which is then warned about if it fails), the OSD, the
/// compositor, the notification daemon, and the system monitor.
pub fn reload_components(waybar_restart: Option<RestartCommand>) -> (r: Vec<PlannedCommand>)
    ensures
        r@.len() == 6,
        plans(r@[0], "omarchy-restart-terminal"@, Seq::empty(), Policy::Silent),
        match waybar_restart {
            Some(w) => r@[1].cmd == w.cmd && r@[1].args == w.args && r@[1].policy == Policy::Optional,
            None => plans(r@[1], "omarchy-restart-waybar"@, Seq::empty(), Policy::Silent),
        },
        plans(r@[2], "omarchy-restart-swayosd"@, Seq::empty(), Policy::Silent),
        plans(r@[3], "hyprctl"@, seq!["reload"@], Policy::Silent),
        plans(r@[4], "makoctl"@, seq!["reload"@], Policy::Silent),
        plans(r@[5], "pkill"@, seq!["-SIGUSR2"@, "btop"@], Policy::Silent),
{
    let mut out: Vec<PlannedCommand> = Vec::new();
    out.push(plan("omarchy-restart-terminal", no_args(), Policy::Silent));
    match waybar_restart {
        Some(w) => out.push(PlannedCommand { cmd: w.cmd, args: w.args, policy: Policy::Optional }),
        None => out.push(plan("omarchy-restart-waybar", no_args(), Policy::Silent)),
    }
    out.push(plan("omarchy-restart-swayosd", no_args(), Policy::Silent));
    out.push(plan("hyprctl", one_arg("reload"), Policy::Silent));
    out.push(plan("makoctl", one_arg("reload"), Policy::Silent));
    let mut pk: Vec<String> = Vec::new();
    pk.push(copy_str("-SIGUSR2"));
    pk.push(copy_str("btop"));
    assert(pk@.map_values(|x: String| x@) =~= seq!["-SIGUSR2"@, "btop"@]);
    out.push(plan("pkill", pk, Policy::Silent));
    out
}

/// The helpers that carry the theme into other applications, each optional.
pub fn apply_theme_setters() -> (r: Vec<PlannedCommand>)
    ensures
        r@.len() == 5,
        plans(r@[0], "omarchy-theme-set-gnome"@, Seq::empty(), Policy::Optional),
        plans(r@[1], "omarchy-theme-set-browser"@, Seq::empty(), Policy::Optional),
        plans(r@[2], "omarchy-theme-set-vscode"@, Seq::empty(), Policy::Optional),
        plans(r@[3], "omarchy-theme-set-cursor"@, Seq::empty(), Policy::Optional),
        plans(r@[4], "omarchy-theme-set-obsidian"@, Seq::empty(), Policy::Optional),
{
    let mut out: Vec<PlannedCommand> = Vec::new();
    out.push(plan("omarchy-theme-set-gnome", no_args(), Policy::Optional));
    out.push(plan("omarchy-theme-set-browser", no_args(), Policy::Optional));
    out.push(plan("omarchy-theme-set-vscode", no_args(), Policy::Optional));
    out.push(plan("omarchy-theme-set-cursor", no_args(), Policy::Optional));
    out.push(plan("omarchy-theme-set-obsidian", no_args(), Policy::Optional));
    out
}

/// The restart action of the status bar after its files are applied.
pub fn waybar_restart_command() -> (r: RestartCommand)
    ensures
        r.cmd@ == "omarchy-restart-waybar"@,
        r.args@.len() == 0,
{
    RestartCommand { cmd: copy_str("omarchy-restart-waybar"), args: Vec::new() }
}

} // verus!

verus! {

/// How many times a wallpaper transition is retried while its daemon starts.
pub const AWWW_MAX_RETRIES: u32 = 60;

/// How one run of the wallpaper-transition tool went.
#[derive(Debug, Clone)]
pub enum AwwwOutcome {
    Succeeded,
    /// It ran and failed, with this error output.
    Failed { stderr: String },
    /// It could not be started at all.
    NotStarted,
}

/// Why a wallpaper transition was given up.
#[derive(Debug, Clone)]
pub enum AwwwEnd {
    /// The tool failed for a reason other than its daemon.
    TransitionFailed,
    /// The daemon is not running and is not to be started.
    DaemonNotRunning,
    /// The daemon is not installed.
    DaemonMissing,
    /// Retries after starting the daemon failed; the last error output.
    RetryFailed(String),
}

/// What to do after a run of the wallpaper-transition tool.
#[derive(Debug, Clone)]
pub enum AwwwNext {
    Done,
    /// Start the daemon, pause, and run the tool again.
    StartDaemonAndRetry,
    /// Pause and run the tool again.
    RetryAfterPause,
    GiveUp(AwwwEnd),
}

/// The error output says the tool could not reach its daemon.
pub open spec fn socket_error(stderr: Seq<char>) -> bool {
    crate::subsystems::contains_seq(stderr, "awww-daemon"@) || crate::subsystems::contains_seq(
        stderr,
        "Socket file"@,
    )
}

/// Whether the error output says the tool could not reach its daemon.
pub fn is_socket_error(stderr: &str) -> (r: bool)
    ensures
        r == socket_error(stderr@),
{
    crate::subsystems::contains_str(stderr, "awww-daemon") || crate::subsystems::contains_str(
        stderr,
        "Socket file",
    )
}

/// The next move of a wallpaper transition after run number `retries + 1`
/// ended with `outcome`. A daemon error on the first run starts the daemon
/// (when allowed and installed); later daemon errors are retried, at most
/// `AWWW_MAX_RETRIES` times in all; any other failure gives up.
pub fn awww_next(retries: u32, outcome: &AwwwOutcome, auto_start: bool, daemon_available: bool) -> (r:
    AwwwNext)
    ensures
        outcome is Succeeded ==> r is Done,
        retries == 0 && outcome is NotStarted ==> (r matches AwwwNext::GiveUp(AwwwEnd::TransitionFailed)),
        retries == 0 && outcome is Failed && !socket_error(outcome->stderr@) ==> (r matches AwwwNext::GiveUp(
            AwwwEnd::TransitionFailed,
        )),
        retries == 0 && outcome is Failed && socket_error(outcome->stderr@) && !auto_start ==> (
        r matches AwwwNext::GiveUp(AwwwEnd::DaemonNotRunning)),
        retries == 0 && outcome is Failed && socket_error(outcome->stderr@) && auto_start
            && !daemon_available ==> (r matches AwwwNext::GiveUp(AwwwEnd::DaemonMissing)),
        retries == 0 && outcome is Failed && socket_error(outcome->stderr@) && auto_start
            && daemon_available ==> r is StartDaemonAndRetry,
        retries > 0 && retries < AWWW_MAX_RETRIES && (outcome is NotStarted || (outcome is Failed
            && socket_error(outcome->stderr@))) ==> r is RetryAfterPause,
        retries > 0 && outcome is Failed && (retries >= AWWW_MAX_RETRIES || !socket_error(
            outcome->stderr@,
        )) ==> (r matches AwwwNext::GiveUp(AwwwEnd::RetryFailed(e)) && e@ == outcome->stderr@),
        retries >= AWWW_MAX_RETRIES && outcome is NotStarted ==> (r matches AwwwNext::GiveUp(
            AwwwEnd::DaemonNotRunning,
        )),
        retries >= AWWW_MAX_RETRIES ==> !(r is RetryAfterPause) && !(r is StartDaemonAndRetry),
{
    match outcome {
        AwwwOutcome::Succeeded => AwwwNext::Done,
        AwwwOutcome::NotStarted => {
            if retries == 0 {
                AwwwNext::GiveUp(AwwwEnd::TransitionFailed)
            } else if retries < AWWW_MAX_RETRIES {
                AwwwNext::RetryAfterPause
            } else {
                AwwwNext::GiveUp(AwwwEnd::DaemonNotRunning)
            }
        },
        AwwwOutcome::Failed { stderr } => {
            let socket = is_socket_error(stderr.as_str());
            if retries == 0 {
                if !socket {
                    AwwwNext::GiveUp(AwwwEnd::TransitionFailed)
                } else if !auto_start {
                    AwwwNext::GiveUp(AwwwEnd::DaemonNotRunning)
                } else if !daemon_available {
                    AwwwNext::GiveUp(AwwwEnd::DaemonMissing)
                } else {
                    AwwwNext::StartDaemonAndRetry
                }
            } else if socket && retries < AWWW_MAX_RETRIES {
                AwwwNext::RetryAfterPause
            } else {
                AwwwNext::GiveUp(AwwwEnd::RetryFailed(stderr.clone()))
            }
        },
    }
}

} // verus!
