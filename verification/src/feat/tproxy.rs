//! TPROXY transparent proxy.
//!
//! The toggle only opens `tproxy-port` in the Mihomo configuration; without
//! kernel rules nothing is diverted. A script installs and removes the
//! iptables and policy-routing rules that make the traffic of this machine and
//! of the LAN flow through the Core. This module decides when that script runs,
//! with which words, and what its outcome means.
//!
//! The rules are root-owned kernel state, so the script runs through the
//! graphical elevation helper. The rules for local traffic exclude the Core by
//! its uid, which depends on the running mode.

use crate::constants::timing::ELEVATION_TIMEOUT_SECS;
use crate::constants::tproxy::{DNS_PORT, MARK, PREF, TABLE};
use crate::feat::process::{decode_lossy, exited_well, CommandLine, CommandOutput, CommandView};
use crate::text::{contains, trimmed, write_decimal, write_hexadecimal, write_signed_decimal};
use vstd::prelude::*;
use vstd::utf8::{decode_utf8, valid_utf8};

pub use crate::feat::probe::{stale_rules_present, tproxy_rules_disabled_cleanup};
pub use crate::feat::process::drain_pipe;
pub use crate::feat::startup::reconcile_startup_tproxy_rules;

verus! {

use crate::enhance::tproxy::listen_address;
use crate::feat::process::{lossy, success};
use crate::text::{
    decimal, digits, hexadecimal, law_digits_tell_apart, law_occurs, occurs, signed_decimal, trim,
};

/// Where the toggle takes the transparent proxy, decided before the Core
/// restarts so that rules and listener are never out of step for long.
#[derive(Clone, Copy, Debug, PartialEq, Eq, Structural)]
pub enum RulesReconcile {
    /// Rules must point at this TPROXY port.
    Enable(u16),
    /// Rules must be removed.
    Disable,
}

/// How the Core runs.
#[derive(Clone, Copy, Debug, PartialEq, Eq, Structural)]
pub enum RunningMode {
    /// Started by the root-owned systemd service.
    Service,
    /// Started by the application, or not at all.
    Sidecar,
}

/// How the script gets the rights of root.
pub enum Privilege {
    /// The application has them.
    Root,
    /// This helper asks the user for them.
    Elevator(String),
}

impl RulesReconcile {
    /// The word that tells the script what to do.
    pub open spec fn action(self) -> Seq<char> {
        match self {
            RulesReconcile::Enable(_) => "enable"@,
            RulesReconcile::Disable => "disable"@,
        }
    }

    /// The port that the script is told.
    pub open spec fn port(self) -> u16 {
        match self {
            RulesReconcile::Enable(tproxy_port) => tproxy_port,
            RulesReconcile::Disable => 0,
        }
    }

    /// Writes the word that tells the script what to do.
    pub fn action_word(self) -> (word: &'static str)
        ensures
            word@ == self.action(),
            self is Enable ==> word@ == "enable"@,
            self is Disable ==> word@ == "disable"@,
    {
        match self {
            RulesReconcile::Enable(_) => "enable",
            RulesReconcile::Disable => "disable",
        }
    }

    /// The port that the script is told: 0 where it removes the rules.
    pub fn port_number(self) -> (number: u16)
        ensures
            number == self.port(),
            self matches RulesReconcile::Enable(tproxy_port) ==> number == tproxy_port,
            self is Disable ==> number == 0,
    {
        match self {
            RulesReconcile::Enable(tproxy_port) => tproxy_port,
            RulesReconcile::Disable => 0,
        }
    }
}

/// The uid that the rules for local traffic exclude, as text.
pub open spec fn uid(mode: RunningMode) -> Seq<char> {
    match mode {
        RunningMode::Service => "0"@,
        RunningMode::Sidecar => Seq::empty(),
    }
}

/// The uid that the Core runs as, so that the rules for local traffic can
/// exclude it.
///
/// In service mode the root-owned systemd service starts the Core, which makes
/// its sockets identifiable as uid 0. A sidecar Core runs as this desktop user,
/// the same uid as every other application, so it cannot be excluded without
/// also exempting all of them; an empty value tells the script to install the
/// LAN rules only and to warn instead.
pub fn core_uid(mode: RunningMode) -> (text: String)
    ensures
        text@ == uid(mode),
        mode is Service ==> text@ == "0"@,
        mode is Sidecar ==> text@.len() == 0,
{
    match mode {
        RunningMode::Service => "0".to_owned(),
        RunningMode::Sidecar => String::new(),
    }
}

/// The arguments of the script: what to do, the mark, the routing table, the
/// priority of the policy rule, the TPROXY port, the DNS port, and the uid of
/// the Core.
pub open spec fn script_args(target: RulesReconcile, mode: RunningMode) -> Seq<Seq<char>> {
    seq![
        target.action(),
        hexadecimal(MARK as nat),
        decimal(TABLE as nat),
        decimal(PREF as nat),
        decimal(target.port() as nat),
        decimal(DNS_PORT as nat),
        uid(mode),
    ]
}

fn write_script_args(target: RulesReconcile, mode: RunningMode) -> (args: Vec<String>)
    ensures
        args.deep_view() == script_args(target, mode),
{
    let mut args: Vec<String> = Vec::new();
    args.push(target.action_word().to_owned());
    args.push(write_hexadecimal(MARK));
    args.push(write_decimal(TABLE));
    args.push(write_decimal(PREF));
    args.push(write_decimal(target.port_number() as u32));
    args.push(write_decimal(DNS_PORT as u32));
    args.push(core_uid(mode));
    assert(args.deep_view() =~= script_args(target, mode));
    args
}

/// A run of the script: what it is for, the command that runs now, and the one
/// to try if that fails.
pub struct CommandRun {
    pub target: RulesReconcile,
    pub command: CommandLine,
    pub fallback: Option<CommandLine>,
}

/// A run of the script, with its commands as words.
#[verifier::ext_equal]
pub struct RunView {
    pub target: RulesReconcile,
    pub command: CommandView,
    pub fallback: Option<CommandView>,
}

impl View for CommandRun {
    type V = RunView;

    open spec fn view(&self) -> RunView {
        RunView {
            target: self.target,
            command: self.command@,
            fallback: match self.fallback {
                Some(command) => Some(command@),
                None => None,
            },
        }
    }
}

/// The script run by bash.
pub open spec fn bash_command(args: Seq<Seq<char>>) -> CommandView {
    CommandView { program: "bash"@, options: Seq::empty(), script_args: args }
}

/// The script run by bash, through an elevation helper.
pub open spec fn elevated_command(elevator: Seq<char>, args: Seq<Seq<char>>) -> CommandView {
    CommandView {
        program: elevator,
        options: seq!["--disable-internal-agent"@, "bash"@],
        script_args: args,
    }
}

/// The script run by bash, through sudo.
pub open spec fn sudo_command(args: Seq<Seq<char>>) -> CommandView {
    CommandView { program: "sudo"@, options: seq!["bash"@], script_args: args }
}

/// The run that takes the rules to `target`. Root runs the script itself.
/// Anyone else runs it through the elevation helper, with sudo to fall back on
/// if the helper is pkexec.
pub open spec fn script_run(
    target: RulesReconcile,
    mode: RunningMode,
    privilege: Privilege,
) -> RunView {
    let args = script_args(target, mode);
    match privilege {
        Privilege::Root => RunView { target, command: bash_command(args), fallback: None },
        Privilege::Elevator(elevator) => RunView {
            target,
            command: elevated_command(elevator@, args),
            fallback: if occurs("pkexec"@, elevator@) {
                Some(sudo_command(args))
            } else {
                None
            },
        },
    }
}

/// Prepares the run that takes the rules to `target`, once the script is in
/// place.
pub fn run_script(target: RulesReconcile, mode: RunningMode, privilege: Privilege) -> (run:
    CommandRun)
    ensures
        run@ == script_run(target, mode, privilege),
        run.target == target,
        run.command.script_args.deep_view() == seq![
            if target is Enable {
                "enable"@
            } else {
                "disable"@
            },
            "0xff"@,
            "100"@,
            "7890"@,
            decimal((match target {
                RulesReconcile::Enable(tproxy_port) => tproxy_port,
                RulesReconcile::Disable => 0u16,
            }) as nat),
            "1053"@,
            if mode is Service {
                "0"@
            } else {
                Seq::empty()
            },
        ],
        match privilege {
            Privilege::Root => {
                &&& run.command.program@ == "bash"@
                &&& run.command.options@.len() == 0
                &&& run.fallback is None
            },
            Privilege::Elevator(elevator) => {
                &&& run.command.program@ == elevator@
                &&& run.command.options.deep_view() == seq!["--disable-internal-agent"@, "bash"@]
                &&& run.fallback is Some <==> occurs("pkexec"@, elevator@)
                &&& run.fallback matches Some(command) ==> {
                    &&& command.program@ == "sudo"@
                    &&& command.options.deep_view() == seq!["bash"@]
                    &&& command.script_args.deep_view() == run.command.script_args.deep_view()
                }
            },
        },
{
    proof {
        law_script_args(target.port(), mode);
    }
    match privilege {
        Privilege::Root => {
            let command = CommandLine {
                program: "bash".to_owned(),
                options: Vec::new(),
                script_args: write_script_args(target, mode),
            };
            assert(command@ =~= bash_command(script_args(target, mode)));
            CommandRun { target, command, fallback: None }
        },
        Privilege::Elevator(elevator) => run_with_elevation(target, mode, elevator),
    }
}

/// Prepares a run through an elevation helper. pkexec fails fast when no
/// graphical agent answers; sudo is the fallback there.
fn run_with_elevation(target: RulesReconcile, mode: RunningMode, elevator: String) -> (run:
    CommandRun)
    ensures
        run@ == script_run(target, mode, Privilege::Elevator(elevator)),
{
    let fallback: Option<CommandLine> = if contains(elevator.as_str(), "pkexec") {
        let mut options: Vec<String> = Vec::new();
        options.push("bash".to_owned());
        let command = CommandLine {
            program: "sudo".to_owned(),
            options,
            script_args: write_script_args(target, mode),
        };
        assert(command@ =~= sudo_command(script_args(target, mode)));
        Some(command)
    } else {
        None
    };
    let mut options: Vec<String> = Vec::new();
    options.push("--disable-internal-agent".to_owned());
    options.push("bash".to_owned());
    let ghost program = elevator@;
    let command = CommandLine {
        program: elevator,
        options,
        script_args: write_script_args(target, mode),
    };
    assert(command@ =~= elevated_command(program, script_args(target, mode)));
    CommandRun { target, command, fallback }
}

/// Prepares the run that installs (or refreshes) the rules for `tproxy_port`.
pub fn rules_enable(tproxy_port: u16, mode: RunningMode, privilege: Privilege) -> (run: CommandRun)
    ensures
        run@ == script_run(RulesReconcile::Enable(tproxy_port), mode, privilege),
        run.target == RulesReconcile::Enable(tproxy_port),
        run.command.script_args.deep_view() == seq![
            "enable"@,
            "0xff"@,
            "100"@,
            "7890"@,
            decimal(tproxy_port as nat),
            "1053"@,
            if mode is Service {
                "0"@
            } else {
                Seq::empty()
            },
        ],
        match privilege {
            Privilege::Root => {
                &&& run.command.program@ == "bash"@
                &&& run.command.options@.len() == 0
                &&& run.fallback is None
            },
            Privilege::Elevator(elevator) => {
                &&& run.command.program@ == elevator@
                &&& run.command.options.deep_view() == seq!["--disable-internal-agent"@, "bash"@]
                &&& run.fallback is Some <==> occurs("pkexec"@, elevator@)
                &&& run.fallback matches Some(command) ==> {
                    &&& command.program@ == "sudo"@
                    &&& command.options.deep_view() == seq!["bash"@]
                    &&& command.script_args.deep_view() == run.command.script_args.deep_view()
                }
            },
        },
{
    run_script(RulesReconcile::Enable(tproxy_port), mode, privilege)
}

/// Prepares the run that removes the rules.
pub fn rules_disable(mode: RunningMode, privilege: Privilege) -> (run: CommandRun)
    ensures
        run@ == script_run(RulesReconcile::Disable, mode, privilege),
        run.target == RulesReconcile::Disable,
        run.command.script_args.deep_view() == seq![
            "disable"@,
            "0xff"@,
            "100"@,
            "7890"@,
            decimal(0int as nat),
            "1053"@,
            if mode is Service {
                "0"@
            } else {
                Seq::empty()
            },
        ],
        match privilege {
            Privilege::Root => {
                &&& run.command.program@ == "bash"@
                &&& run.command.options@.len() == 0
                &&& run.fallback is None
            },
            Privilege::Elevator(elevator) => {
                &&& run.command.program@ == elevator@
                &&& run.command.options.deep_view() == seq!["--disable-internal-agent"@, "bash"@]
                &&& run.fallback is Some <==> occurs("pkexec"@, elevator@)
                &&& run.fallback matches Some(command) ==> {
                    &&& command.program@ == "sudo"@
                    &&& command.options.deep_view() == seq!["bash"@]
                    &&& command.script_args.deep_view() == run.command.script_args.deep_view()
                }
            },
        },
{
    run_script(RulesReconcile::Disable, mode, privilege)
}

/// Aligns the rules with a committed toggle value, e.g. after the port dialog
/// saves.
pub fn reconcile_tproxy_rules(enabled: bool, tproxy_port: u16) -> (target: RulesReconcile)
    ensures
        target == if enabled {
            RulesReconcile::Enable(tproxy_port)
        } else {
            RulesReconcile::Disable
        },
{
    if enabled {
        RulesReconcile::Enable(tproxy_port)
    } else {
        RulesReconcile::Disable
    }
}

/// Why the rules are not what they should be.
pub enum RulesError {
    /// The script ran and failed.
    ScriptFailed { target: RulesReconcile, code: Option<i32>, stderr: String },
    /// The command was given up.
    TimedOut,
}

/// An exit code, or its absence, as it is shown.
pub open spec fn shown_code(code: Option<i32>) -> Seq<char> {
    match code {
        Some(code) => "Some("@ + signed_decimal(code as int) + ")"@,
        None => "None"@,
    }
}

fn show_code(code: Option<i32>) -> (text: String)
    ensures
        text@ == shown_code(code),
{
    match code {
        Some(code) => "Some(".to_owned().concat(write_signed_decimal(code).as_str()).concat(")"),
        None => "None".to_owned(),
    }
}

impl RulesError {
    /// The message for the user.
    pub open spec fn text(self) -> Seq<char> {
        match self {
            RulesError::ScriptFailed { target, code, stderr } => {
                "TPROXY rules "@ + target.action() + " failed (exit "@ + shown_code(code) + "): "@
                    + stderr@
            },
            RulesError::TimedOut => {
                "TPROXY rules took more than "@ + decimal(ELEVATION_TIMEOUT_SECS as nat)
                    + "s to apply; the elevation prompt may have been ignored"@
            },
        }
    }

    /// Writes the message for the user.
    pub fn message(&self) -> (message: String)
        ensures
            message@ == self.text(),
    {
        match self {
            RulesError::ScriptFailed { target, code, stderr } => {
                "TPROXY rules ".to_owned().concat(target.action_word()).concat(
                    " failed (exit ",
                ).concat(show_code(*code).as_str()).concat("): ").concat(stderr.as_str())
            },
            RulesError::TimedOut => {
                "TPROXY rules took more than ".to_owned().concat(
                    write_decimal(ELEVATION_TIMEOUT_SECS).as_str(),
                ).concat("s to apply; the elevation prompt may have been ignored")
            },
        }
    }
}

/// Where a run stands after a command is over.
pub enum Progress {
    /// Another command is to be run.
    Retry(CommandRun),
    /// The run is over, with the script's remarks or with an error.
    Done(Result<String, RulesError>),
}

/// The run that follows when the command of `run` exits with `code`, if any.
pub open spec fn retried(run: RunView, code: Option<i32>) -> Option<RunView> {
    match run.fallback {
        Some(command) => if success(code) {
            None
        } else {
            Some(RunView { target: run.target, command, fallback: None })
        },
        None => None,
    }
}

impl CommandRun {
    /// Decides what a command that is over means for the run: a success ends
    /// it, a failure leads to the fallback, and without one to an error. What
    /// the command wrote to stderr is read as UTF-8, with replacement characters
    /// for what is not.
    pub fn command_exited(self, output: CommandOutput) -> (progress: Progress)
        ensures
            follows(self, output.code, lossy(output.stderr@), progress),
            valid_utf8(output.stderr@) ==> follows(
                self,
                output.code,
                decode_utf8(output.stderr@),
                progress,
            ),
            output.code == Some(0i32) <==> (progress matches Progress::Done(Ok(_))),
            output.code == Some(0i32) ==> (progress matches Progress::Done(Ok(remarks)) && remarks@
                == trim(lossy(output.stderr@))),
            output.code != Some(0i32) ==> match self.fallback {
                Some(command) => progress matches Progress::Retry(next) && next.target
                    == self.target && next.command == command && next.fallback is None,
                None => progress matches Progress::Done(
                    Err(RulesError::ScriptFailed { target, code: failed, stderr: said }),
                ) && target == self.target && failed == output.code && said@ == trim(
                    lossy(output.stderr@),
                ),
            },
    {
        let stderr = decode_lossy(&output.stderr);
        self.settle(output.code, stderr.as_str())
    }

    /// Decides what an exit code and the text on stderr mean for the run.
    pub fn settle(self, code: Option<i32>, stderr: &str) -> (progress: Progress)
        ensures
            follows(self, code, stderr@, progress),
            code == Some(0i32) <==> (progress matches Progress::Done(Ok(_))),
            code == Some(0i32) ==> (progress matches Progress::Done(Ok(remarks)) && remarks@
                == trim(stderr@)),
            code != Some(0i32) ==> match self.fallback {
                Some(command) => progress matches Progress::Retry(next) && next.target
                    == self.target && next.command == command && next.fallback is None,
                None => progress matches Progress::Done(
                    Err(RulesError::ScriptFailed { target, code: failed, stderr: said }),
                ) && target == self.target && failed == code && said@ == trim(stderr@),
            },
    {
        let stderr = trimmed(stderr);
        if exited_well(code) {
            return Progress::Done(Ok(stderr));
        }
        match self.fallback {
            Some(command) => Progress::Retry(
                CommandRun { target: self.target, command, fallback: None },
            ),
            None => Progress::Done(
                Err(RulesError::ScriptFailed { target: self.target, code, stderr }),
            ),
        }
    }
}

/// Whether `progress` is what follows when the command of `run` exits with
/// `code` and leaves `stderr`: the fallback if it failed and there is one, the
/// trimmed remarks if it succeeded, and else the error that says what failed.
pub open spec fn follows(
    run: CommandRun,
    code: Option<i32>,
    stderr: Seq<char>,
    progress: Progress,
) -> bool {
    match progress {
        Progress::Retry(next) => retried(run@, code) == Some(next@),
        Progress::Done(Ok(remarks)) => success(code) && remarks@ == trim(stderr),
        Progress::Done(Err(error)) => {
            &&& !success(code)
            &&& retried(run@, code) is None
            &&& error matches RulesError::ScriptFailed { target, code: failed, stderr: said }
            &&& target == run.target
            &&& failed == code
            &&& said@ == trim(stderr)
        },
    }
}

/// Every command of a run ends in bash, the script and the same arguments; only
/// what stands before differs.
pub proof fn law_command_words(
    target: RulesReconcile,
    mode: RunningMode,
    privilege: Privilege,
    script: Seq<char>,
)
    ensures
        ({
            let run = script_run(target, mode, privilege);
            let bash = seq!["bash"@, script] + script_args(target, mode);
            &&& run.command.words(script) == match privilege {
                Privilege::Root => bash,
                Privilege::Elevator(elevator) => seq![elevator@, "--disable-internal-agent"@]
                    + bash,
            }
            &&& run.fallback matches Some(command) ==> command.words(script) == seq!["sudo"@]
                + bash
        }),
{
    let run = script_run(target, mode, privilege);
    let bash = seq!["bash"@, script] + script_args(target, mode);
    match privilege {
        Privilege::Root => {
            assert(run.command.words(script) =~= bash);
        },
        Privilege::Elevator(elevator) => {
            assert(run.command.words(script) =~= seq![elevator@, "--disable-internal-agent"@]
                + bash);
            assert(sudo_command(script_args(target, mode)).words(script) =~= seq!["sudo"@] + bash);
        },
    }
}

/// sudo is tried exactly if the first command failed and went through pkexec.
pub proof fn law_sudo_after_pkexec(
    target: RulesReconcile,
    mode: RunningMode,
    privilege: Privilege,
    code: Option<i32>,
)
    ensures
        retried(script_run(target, mode, privilege), code) == if !success(code) && (
        privilege matches Privilege::Elevator(elevator) && occurs("pkexec"@, elevator@)) {
            Some(
                RunView {
                    target,
                    command: sudo_command(script_args(target, mode)),
                    fallback: None,
                },
            )
        } else {
            None
        },
{
}

/// A run takes at most two commands, and the second is for the same target.
pub proof fn law_two_commands_at_most(run: RunView, first: Option<i32>, second: Option<i32>)
    ensures
        retried(run, first) matches Some(next) ==> next.target == run.target && retried(
            next,
            second,
        ) is None,
{
}

/// The script can tell every target from every other, and a Core whose uid is
/// excluded from one whose uid is not.
pub proof fn law_script_args_tell_apart(
    target: RulesReconcile,
    mode: RunningMode,
    other_target: RulesReconcile,
    other_mode: RunningMode,
)
    requires
        script_args(target, mode) == script_args(other_target, other_mode),
    ensures
        target == other_target,
        mode == other_mode,
{
    let (args, others) = (script_args(target, mode), script_args(other_target, other_mode));
    reveal_strlit("enable");
    reveal_strlit("disable");
    reveal_strlit("0");
    assert("enable"@.len() == 6 && "disable"@.len() == 7 && "0"@.len() == 1);
    assert(args[0] == others[0]);
    assert(args[4] == others[4]);
    assert(args[6] == others[6]);
    law_digits_tell_apart(target.port() as nat, other_target.port() as nat, 10);
}

/// The DNS server listens where the rules redirect DNS to: the port in its
/// address is the sixth argument of the script.
pub proof fn law_dns_ports_agree(target: RulesReconcile, mode: RunningMode)
    ensures
        listen_address(DNS_PORT) == "0.0.0.0:"@ + script_args(target, mode)[5],
{
}

/// The arguments of the script, word by word: what to do, the mark, the table,
/// the priority, the very port of the target (0 for removing), the DNS port, and
/// the uid of a Core that root runs.
pub proof fn law_script_args(tproxy_port: u16, mode: RunningMode)
    ensures
        script_args(RulesReconcile::Enable(tproxy_port), mode) == seq![
            "enable"@,
            "0xff"@,
            "100"@,
            "7890"@,
            decimal(tproxy_port as nat),
            "1053"@,
            if mode is Service {
                "0"@
            } else {
                Seq::empty()
            },
        ],
        script_args(RulesReconcile::Disable, mode) == script_args(
            RulesReconcile::Enable(0),
            mode,
        ).update(0, "disable"@),
{
    lemma_numbers_written();
    assert(script_args(RulesReconcile::Enable(tproxy_port), mode) =~= seq![
        "enable"@,
        "0xff"@,
        "100"@,
        "7890"@,
        decimal(tproxy_port as nat),
        "1053"@,
        if mode is Service {
            "0"@
        } else {
            Seq::empty()
        },
    ]);
    assert(script_args(RulesReconcile::Disable, mode) =~= script_args(
        RulesReconcile::Enable(0),
        mode,
    ).update(0, "disable"@));
}

/// The mark, the table, the priority, the DNS port and the time allowed, as they
/// are written.
proof fn lemma_numbers_written()
    ensures
        hexadecimal(MARK as nat) == "0xff"@,
        decimal(TABLE as nat) == "100"@,
        decimal(PREF as nat) == "7890"@,
        decimal(DNS_PORT as nat) == "1053"@,
        decimal(ELEVATION_TIMEOUT_SECS as nat) == "120"@,
{
    reveal_strlit("0123456789abcdef");
    reveal_strlit("0x");
    reveal_strlit("0xff");
    reveal_strlit("100");
    reveal_strlit("7890");
    reveal_strlit("1053");
    reveal_strlit("120");
    reveal_with_fuel(digits, 4);
    assert(hexadecimal(MARK as nat) =~= "0xff"@);
    assert(decimal(TABLE as nat) =~= "100"@);
    assert(digits(78, 10) =~= seq!['7', '8']);
    assert(digits(789, 10) =~= seq!['7', '8', '9']);
    assert(decimal(PREF as nat) =~= "7890"@);
    assert(digits(105, 10) =~= seq!['1', '0', '5']);
    assert(decimal(DNS_PORT as nat) =~= "1053"@);
    assert(decimal(ELEVATION_TIMEOUT_SECS as nat) =~= "120"@);
}

/// Which command runs, and which one is kept for a failure: root runs bash, any
/// other user the helper with bash, and sudo with bash is kept exactly if
/// `pkexec` stands somewhere in the helper's name. All get the same arguments.
pub proof fn law_script_run(target: RulesReconcile, mode: RunningMode, elevator: String)
    ensures
        ({
            let run = script_run(target, mode, Privilege::Root);
            &&& run.target == target
            &&& run.command.program == "bash"@
            &&& run.command.options.len() == 0
            &&& run.command.script_args == script_args(target, mode)
            &&& run.fallback is None
        }),
        ({
            let run = script_run(target, mode, Privilege::Elevator(elevator));
            &&& run.target == target
            &&& run.command.program == elevator@
            &&& run.command.options == seq!["--disable-internal-agent"@, "bash"@]
            &&& run.command.script_args == script_args(target, mode)
            &&& run.fallback is Some <==> exists|before: Seq<char>, after: Seq<char>|
                elevator@ == #[trigger] (before + "pkexec"@ + after)
            &&& run.fallback matches Some(command) ==> {
                &&& command.program == "sudo"@
                &&& command.options == seq!["bash"@]
                &&& command.script_args == script_args(target, mode)
            }
        }),
{
    law_occurs("pkexec"@, elevator@);
}

/// What the exit of a command leads to: exit code 0 and nothing else ends the
/// run well, with the trimmed remarks; any other code, or none, leads to the
/// fallback, for the same target and with no further one, or, without a
/// fallback, to the error with that code and the trimmed remarks.
pub proof fn law_exit_decides(
    run: CommandRun,
    code: Option<i32>,
    stderr: Seq<char>,
    progress: Progress,
)
    requires
        follows(run, code, stderr, progress),
    ensures
        code == Some(0i32) ==> (progress matches Progress::Done(Ok(remarks)) && remarks@ == trim(
            stderr,
        )),
        code != Some(0i32) ==> match run.fallback {
            Some(command) => progress matches Progress::Retry(next) && {
                &&& next.target == run.target
                &&& next.command.program@ == command.program@
                &&& next.command.options.deep_view() == command.options.deep_view()
                &&& next.command.script_args.deep_view() == command.script_args.deep_view()
                &&& next.fallback is None
            },
            None => progress matches Progress::Done(
                Err(RulesError::ScriptFailed { target, code: failed, stderr: said }),
            ) && target == run.target && failed == code && said@ == trim(stderr),
        },
{
    match run.fallback {
        Some(command) => {
            assert(run@.fallback == Some(command@));
            if let Progress::Retry(next) = progress {
                assert(next@.fallback is None);
                assert(next.command@ == command@);
                assert(next.command@.program == command@.program);
                assert(next.command@.options == command@.options);
                assert(next.command@.script_args == command@.script_args);
            }
        },
        None => {},
    }
}

/// The messages for the user, in full.
pub proof fn law_messages(tproxy_port: u16, code: i32, stderr: String)
    ensures
        RulesError::TimedOut.text()
            == "TPROXY rules took more than 120s to apply; the elevation prompt may have been ignored"@,
        (RulesError::ScriptFailed {
            target: RulesReconcile::Enable(tproxy_port),
            code: Some(code),
            stderr,
        }).text() == "TPROXY rules enable failed (exit Some("@ + signed_decimal(code as int)
            + ")): "@ + stderr@,
        (RulesError::ScriptFailed {
            target: RulesReconcile::Disable,
            code: Some(code),
            stderr,
        }).text() == "TPROXY rules disable failed (exit Some("@ + signed_decimal(code as int)
            + ")): "@ + stderr@,
        (RulesError::ScriptFailed {
            target: RulesReconcile::Enable(tproxy_port),
            code: None,
            stderr,
        }).text() == "TPROXY rules enable failed (exit None): "@ + stderr@,
        (RulesError::ScriptFailed { target: RulesReconcile::Disable, code: None, stderr }).text()
            == "TPROXY rules disable failed (exit None): "@ + stderr@,
{
    lemma_numbers_written();
    reveal_strlit("TPROXY rules ");
    reveal_strlit(" failed (exit ");
    reveal_strlit("): ");
    reveal_strlit(")): ");
    reveal_strlit("Some(");
    reveal_strlit(")");
    reveal_strlit("None");
    reveal_strlit("enable");
    reveal_strlit("disable");
    reveal_strlit("TPROXY rules took more than ");
    reveal_strlit("120");
    reveal_strlit("s to apply; the elevation prompt may have been ignored");
    reveal_strlit(
        "TPROXY rules took more than 120s to apply; the elevation prompt may have been ignored",
    );
    reveal_strlit("TPROXY rules enable failed (exit Some(");
    reveal_strlit("TPROXY rules disable failed (exit Some(");
    reveal_strlit("TPROXY rules enable failed (exit None): ");
    reveal_strlit("TPROXY rules disable failed (exit None): ");
    assert(RulesError::TimedOut.text()
        =~= "TPROXY rules took more than 120s to apply; the elevation prompt may have been ignored"@);
    assert("TPROXY rules "@ + "enable"@ + " failed (exit "@ + "Some("@
        =~= "TPROXY rules enable failed (exit Some("@);
    assert("TPROXY rules "@ + "disable"@ + " failed (exit "@ + "Some("@
        =~= "TPROXY rules disable failed (exit Some("@);
    assert(")"@ + "): "@ =~= ")): "@);
    assert("TPROXY rules "@ + "enable"@ + " failed (exit "@ + "None"@ + "): "@
        =~= "TPROXY rules enable failed (exit None): "@);
    assert("TPROXY rules "@ + "disable"@ + " failed (exit "@ + "None"@ + "): "@
        =~= "TPROXY rules disable failed (exit None): "@);
    let number = signed_decimal(code as int);
    assert("TPROXY rules "@ + "enable"@ + " failed (exit "@ + ("Some("@ + number + ")"@) + "): "@
        + stderr@ =~= ("TPROXY rules "@ + "enable"@ + " failed (exit "@ + "Some("@) + number + (")"@
        + "): "@) + stderr@);
    assert("TPROXY rules "@ + "disable"@ + " failed (exit "@ + ("Some("@ + number + ")"@) + "): "@
        + stderr@ =~= ("TPROXY rules "@ + "disable"@ + " failed (exit "@ + "Some("@) + number + (
    ")"@ + "): "@) + stderr@);
}

} // verus!
