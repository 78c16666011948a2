//! The command line: what its arguments ask for, and running detached from the
//! terminal.
use vstd::prelude::*;

use crate::lists;
use crate::numbers;
use crate::text;

verus! {

/// Environment variable that is set where the system's launch daemon starts
/// the program at login.
pub const AUTOSTART_ENV: &'static str = "CLIPPIN_AUTOSTART";

/// Environment variable that is not handed to a detached process.
pub const DETACH_CHILD_ENV: &'static str = "CLIPPIN_DETACH_CHILD";

/// What the arguments ask for.
#[derive(Debug)]
pub enum Command {
    /// Show the help.
    Help,
    /// Start again in the background, with these arguments.
    Detach(Vec<String>),
    /// Run.
    Run,
}

/// Whether an argument asks for the help.
pub open spec fn asks_help(a: Seq<char>) -> bool {
    a == "-h"@ || a == "--help"@
}

/// Whether an argument asks for the background.
pub open spec fn asks_detach(a: Seq<char>) -> bool {
    a == "-d"@ || a == "--detach"@
}

/// Whether one of the arguments asks for the help.
pub open spec fn any_help(args: Seq<Seq<char>>) -> bool {
    exists|i: int| 0 <= i < args.len() && asks_help(#[trigger] args[i])
}

/// Whether one of the arguments asks for the background.
pub open spec fn any_detach(args: Seq<Seq<char>>) -> bool {
    exists|i: int| 0 <= i < args.len() && asks_detach(#[trigger] args[i])
}

/// The arguments that a detached process gets: all that do not ask for the
/// background, so that it does not start yet another one.
pub open spec fn child_args(args: Seq<Seq<char>>) -> Seq<Seq<char>> {
    args.filter(|a: Seq<char>| !asks_detach(a))
}

/// Reads the arguments, without the program's name.
pub fn parse_args(args: &[String]) -> (r: Command)
    ensures
        match r {
            Command::Help => any_help(args.deep_view()),
            Command::Detach(rest) => !any_help(args.deep_view()) && any_detach(args.deep_view())
                && rest.deep_view() == child_args(args.deep_view()),
            Command::Run => !any_help(args.deep_view()) && !any_detach(args.deep_view()),
        },
{
    let ghost all = args.deep_view();
    let ghost keep = |a: Seq<char>| !asks_detach(a);
    let mut detach: bool = false;
    let mut rest: Vec<String> = Vec::new();
    let mut i: usize = 0;
    proof {
        reveal(Seq::filter);
        assert(rest.deep_view() =~= all.take(0).filter(keep));
    }
    while i < args.len()
        invariant
            i <= args@.len(),
            all == args.deep_view(),
            keep == (|a: Seq<char>| !asks_detach(a)),
            forall|j: int| 0 <= j < i ==> !asks_help(#[trigger] all[j]),
            detach == exists|j: int| 0 <= j < i && asks_detach(#[trigger] all[j]),
            rest.deep_view() == all.take(i as int).filter(keep),
        decreases args@.len() - i,
    {
        let a: &str = args[i].as_str();
        assert(all[i as int] == a@);
        if text::same_text(a, "-h") || text::same_text(a, "--help") {
            assert(asks_help(all[i as int]));
            return Command::Help;
        }
        proof {
            lists::lemma_filter_step(all, keep, i as int);
        }
        let ghost prior = rest.deep_view();
        if text::same_text(a, "-d") || text::same_text(a, "--detach") {
            assert(asks_detach(all[i as int]));
            detach = true;
        } else {
            rest.push(args[i].clone());
            assert(rest.deep_view() =~= prior.push(a@));
        }
        i += 1;
    }
    assert(all.take(i as int) =~= all);
    if detach {
        Command::Detach(rest)
    } else {
        Command::Run
    }
}

/// A detached process is not asked to detach again, and it keeps all other
/// arguments.
pub proof fn law_child_does_not_detach(args: Seq<Seq<char>>, a: Seq<char>)
    ensures
        !any_detach(child_args(args)),
        child_args(args).contains(a) <==> args.contains(a) && !asks_detach(a),
{
    let keep = |a: Seq<char>| !asks_detach(a);
    lists::lemma_filter_members(args, keep);
    let rest = child_args(args);
    assert forall|i: int| 0 <= i < rest.len() implies !asks_detach(#[trigger] rest[i]) by {
        assert(rest.contains(rest[i]));
    }
}

// ── Texts ───────────────────────────────────────────────────────────────────

/// The help up to the program's name in the usage line.
pub const HELP_HEAD: &'static str = "ClipPin — macOS menu-bar clipboard history

USAGE:
    ";

/// From the usage line to the first example.
pub const HELP_OPTIONS: &'static str = " [OPTIONS]

OPTIONS:
    -d, --detach     Run in the background (terminal can close)
    -h, --help       Show this help

EXAMPLES:
    ";

/// From the first example to the second.
pub const HELP_FOREGROUND: &'static str = "           Foreground (logs in this terminal)
    ";

/// From the second example to the third.
pub const HELP_SHORT: &'static str = " -d        Detached / independent process
    ";

/// From the third example to the end.
pub const HELP_TAIL: &'static str = " --detach

Detached logs: ~/Library/Logs/ClipPin/clippin.log
Stop:          pkill -x clippin
";

/// The help for a program of the given name.
pub open spec fn help_text(name: Seq<char>) -> Seq<char> {
    HELP_HEAD@ + name + HELP_OPTIONS@ + name + HELP_FOREGROUND@ + name + HELP_SHORT@ + name
        + HELP_TAIL@
}

/// The help. Without a name the program is called `clippin`.
pub fn print_help(name: Option<&str>) -> (r: String)
    ensures
        r@ == help_text(
            match name {
                Some(n) => n@,
                None => "clippin"@,
            },
        ),
{
    let name: &str = match name {
        Some(n) => n,
        None => "clippin",
    };
    let mut r: String = HELP_HEAD.to_owned();
    r.append(name);
    r.append(HELP_OPTIONS);
    r.append(name);
    r.append(HELP_FOREGROUND);
    r.append(name);
    r.append(HELP_SHORT);
    r.append(name);
    r.append(HELP_TAIL);
    r
}

/// The first line of the log.
pub fn start_message(autostart: bool) -> (r: &'static str)
    ensures
        r@ == (if autostart {
            "ClipPin starting (launchd autostart — no Terminal)"@
        } else {
            "ClipPin starting"@
        }),
{
    if autostart {
        "ClipPin starting (launchd autostart — no Terminal)"
    } else {
        "ClipPin starting"
    }
}

// ── Detaching ───────────────────────────────────────────────────────────────

/// How far detaching is, with what its last step came to.
#[derive(Debug)]
pub enum DetachState {
    /// The program's path was looked up; the error where that failed.
    Resolved(Option<String>),
    /// The log was opened; the error where that failed, and whether a second
    /// handle to it could be made.
    LogOpened { error: Option<String>, second_handle: bool },
    /// The process was started.
    Started { pid: u32 },
    /// The process could not be started.
    NotStarted(String),
}

/// Where the output of the detached process goes.
#[derive(Debug, Clone, Copy, PartialEq, Eq, Structural)]
pub enum Stream {
    Log,
    Nowhere,
}

/// What comes next in detaching.
#[derive(Debug)]
pub enum DetachNext {
    OpenLog,
    /// Start the process with these streams, after a warning where there is one.
    Start { stdout: Stream, stderr: Stream, warning: Option<String> },
    /// Say so and exit.
    Exit { code: i32, message: String },
}

/// The message of success, with the log's path where it is known.
pub open spec fn started_message(pid: u32, log: Option<Seq<char>>) -> Seq<char> {
    "ClipPin started in background (pid "@ + numbers::decimal(pid as nat) + ")"@ + (match log {
        Some(p) => "\n  logs: "@ + p,
        None => Seq::empty(),
    })
}

/// The mathematical content of a [`DetachNext`].
pub enum DetachNextModel {
    OpenLog,
    Start { stdout: Stream, stderr: Stream, warning: Option<Seq<char>> },
    Exit { code: i32, message: Seq<char> },
}

impl View for DetachNext {
    type V = DetachNextModel;

    open spec fn view(&self) -> DetachNextModel {
        match self {
            DetachNext::OpenLog => DetachNextModel::OpenLog,
            DetachNext::Start { stdout, stderr, warning } => DetachNextModel::Start {
                stdout: *stdout,
                stderr: *stderr,
                warning: warning.deep_view(),
            },
            DetachNext::Exit { code, message } => DetachNextModel::Exit {
                code: *code,
                message: message@,
            },
        }
    }
}

/// How detaching goes on. A log that cannot be opened costs only the output.
pub open spec fn detach_next(state: DetachState, log: Option<Seq<char>>) -> DetachNextModel {
    match state {
        DetachState::Resolved(None) => DetachNextModel::OpenLog,
        DetachState::Resolved(Some(e)) => DetachNextModel::Exit {
            code: 1,
            message: "clippin: cannot resolve executable path: "@ + e@,
        },
        DetachState::LogOpened { error: None, second_handle } => DetachNextModel::Start {
            stdout: Stream::Log,
            stderr: if second_handle {
                Stream::Log
            } else {
                Stream::Nowhere
            },
            warning: None,
        },
        DetachState::LogOpened { error: Some(e), .. } => DetachNextModel::Start {
            stdout: Stream::Nowhere,
            stderr: Stream::Nowhere,
            warning: Some(
                "clippin: warning: could not open log file ("@ + e@ + "); discarding output"@,
            ),
        },
        DetachState::Started { pid } => DetachNextModel::Exit {
            code: 0,
            message: started_message(pid, log),
        },
        DetachState::NotStarted(e) => DetachNextModel::Exit {
            code: 1,
            message: "clippin: failed to start detached process: "@ + e@,
        },
    }
}

/// Goes on with detaching.
pub fn detach_and_exit(state: DetachState, log_path: Option<&str>) -> (r: DetachNext)
    ensures
        r@ == detach_next(state, log_path.deep_view()),
{
    match state {
        DetachState::Resolved(None) => DetachNext::OpenLog,
        DetachState::Resolved(Some(e)) => DetachNext::Exit {
            code: 1,
            message: text::appended("clippin: cannot resolve executable path: ", e.as_str()),
        },
        DetachState::LogOpened { error: None, second_handle } => DetachNext::Start {
            stdout: Stream::Log,
            stderr: if second_handle {
                Stream::Log
            } else {
                Stream::Nowhere
            },
            warning: None,
        },
        DetachState::LogOpened { error: Some(e), .. } => {
            let mut w: String = "clippin: warning: could not open log file (".to_owned();
            w.append(e.as_str());
            w.append("); discarding output");
            DetachNext::Start { stdout: Stream::Nowhere, stderr: Stream::Nowhere, warning: Some(w) }
        },
        DetachState::Started { pid } => {
            let mut m: String = "ClipPin started in background (pid ".to_owned();
            numbers::push_decimal(&mut m, pid as u64);
            m.append(")");
            if let Some(p) = log_path {
                m.append("\n  logs: ");
                m.append(p);
            }
            assert(m@ =~= started_message(pid, log_path.deep_view()));
            DetachNext::Exit { code: 0, message: m }
        },
        DetachState::NotStarted(e) => DetachNext::Exit {
            code: 1,
            message: text::appended("clippin: failed to start detached process: ", e.as_str()),
        },
    }
}

// ── What the arguments and the steps come to ────────────────────────────────

/// The help is asked for with `-h` or `--help`, the background with `-d` or
/// `--detach`, at any place among the arguments, and with nothing else.
pub proof fn law_asked_for(args: Seq<Seq<char>>)
    ensures
        any_help(args) <==> args.contains("-h"@) || args.contains("--help"@),
        any_detach(args) <==> args.contains("-d"@) || args.contains("--detach"@),
{
    if any_help(args) {
        let i = choose|i: int| 0 <= i < args.len() && asks_help(#[trigger] args[i]);
        assert(args.contains(args[i]));
    }
    if any_detach(args) {
        let i = choose|i: int| 0 <= i < args.len() && asks_detach(#[trigger] args[i]);
        assert(args.contains(args[i]));
    }
    assert forall|a: Seq<char>| #[trigger] args.contains(a) && asks_help(a) implies any_help(
        args,
    ) by {
        let i = choose|i: int| 0 <= i < args.len() && args[i] == a;
        assert(asks_help(args[i]));
    }
    assert forall|a: Seq<char>| #[trigger] args.contains(a) && asks_detach(a) implies any_detach(
        args,
    ) by {
        let i = choose|i: int| 0 <= i < args.len() && args[i] == a;
        assert(asks_detach(args[i]));
    }
}

/// The detached process gets the arguments in their order, without those that
/// ask for the background.
pub proof fn law_child_args_one_more(args: Seq<Seq<char>>, a: Seq<char>)
    ensures
        a == "-d"@ || a == "--detach"@ ==> child_args(args.push(a)) == child_args(args),
        a != "-d"@ && a != "--detach"@ ==> child_args(args.push(a)) == child_args(args).push(a),
        child_args(Seq::empty()) == Seq::<Seq<char>>::empty(),
{
    reveal(Seq::filter);
    assert(args.push(a).drop_last() =~= args);
}

/// Detaching exits with success exactly where the process was started, and an
/// error is told with its reason.
pub proof fn law_detach_exits(state: DetachState, log: Option<Seq<char>>)
    ensures
        detach_next(state, log) is OpenLog <==> state == DetachState::Resolved(None),
        detach_next(state, log) is Start <==> state is LogOpened,
        detach_next(state, log) matches DetachNextModel::Exit { code, message } ==> (code == 0
            <==> state is Started) && (code == 0 || code == 1),
        state matches DetachState::Resolved(Some(e)) ==> (detach_next(
            state,
            log,
        ) matches DetachNextModel::Exit { code, message } && text::occurs_in(e@, message)),
        state matches DetachState::NotStarted(e) ==> (detach_next(
            state,
            log,
        ) matches DetachNextModel::Exit { code, message } && text::occurs_in(e@, message)),
        state matches DetachState::Started { pid } ==> (detach_next(
            state,
            log,
        ) matches DetachNextModel::Exit { code, message } && text::occurs_in(
            numbers::decimal(pid as nat),
            message,
        ) && (log matches Some(p) ==> text::occurs_in(p, message))),
{
    let none = Seq::<char>::empty();
    match state {
        DetachState::Resolved(Some(e)) => {
            let what = "clippin: cannot resolve executable path: "@;
            text::law_part_occurs(what, e@, none);
            assert(what + e@ + none =~= what + e@);
        },
        DetachState::NotStarted(e) => {
            let what = "clippin: failed to start detached process: "@;
            text::law_part_occurs(what, e@, none);
            assert(what + e@ + none =~= what + e@);
        },
        DetachState::Started { pid } => {
            let what = "ClipPin started in background (pid "@;
            let n = numbers::decimal(pid as nat);
            let rest = match log {
                Some(p) => "\n  logs: "@ + p,
                None => none,
            };
            text::law_part_occurs(what, n, ")"@ + rest);
            assert(what + n + (")"@ + rest) =~= started_message(pid, log));
            if let Some(p) = log {
                let front = what + n + ")"@ + "\n  logs: "@;
                text::law_part_occurs(front, p, none);
                assert(front + p + none =~= started_message(pid, log));
            }
        },
        _ => {},
    }
}

/// The log takes the output where it could be opened, the errors too where
/// there is a second handle; where it could not be opened, nothing is kept and
/// the warning says why.
pub proof fn law_detached_output(error: Option<String>, second_handle: bool, log: Option<Seq<char>>)
    ensures
        ({
            let next = detach_next(DetachState::LogOpened { error, second_handle }, log);
            &&& next is Start
            &&& next->stdout == Stream::Log <==> error is None
            &&& next->stderr == Stream::Log <==> error is None && second_handle
            &&& next->warning is Some <==> error is Some
            &&& error is Some ==> text::occurs_in(error->Some_0@, next->warning->Some_0)
        }),
{
    if let Some(e) = error {
        let what = "clippin: warning: could not open log file ("@;
        text::law_part_occurs(what, e@, "); discarding output"@);
    }
}

/// The help shows the program's name in front of each way to call it.
pub proof fn law_help_names_program(name: Seq<char>)
    ensures
        text::occurs_in(name + HELP_OPTIONS@, help_text(name)),
        text::occurs_in(name + HELP_SHORT@, help_text(name)),
        text::occurs_in(name + HELP_TAIL@, help_text(name)),
        text::stands_at(help_text(name), HELP_HEAD@, 0),
{
    let none = Seq::<char>::empty();
    let h = help_text(name);
    let after1 = name + HELP_FOREGROUND@ + name + HELP_SHORT@ + name + HELP_TAIL@;
    text::law_part_occurs(HELP_HEAD@, name + HELP_OPTIONS@, after1);
    assert(HELP_HEAD@ + (name + HELP_OPTIONS@) + after1 =~= h);
    let front2 = HELP_HEAD@ + name + HELP_OPTIONS@ + name + HELP_FOREGROUND@;
    text::law_part_occurs(front2, name + HELP_SHORT@, name + HELP_TAIL@);
    assert(front2 + (name + HELP_SHORT@) + (name + HELP_TAIL@) =~= h);
    let front3 = front2 + name + HELP_SHORT@;
    text::law_part_occurs(front3, name + HELP_TAIL@, none);
    assert(front3 + (name + HELP_TAIL@) + none =~= h);
    assert(h.subrange(0, HELP_HEAD@.len() as int) =~= HELP_HEAD@);
}

} // verus!
