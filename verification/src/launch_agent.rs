//! The steps of installing and removing the LaunchAgent.
//!
//! Each step is a system call that is made elsewhere; its reply decides the
//! next one.
use vstd::prelude::*;

use crate::launch;
use crate::text;

verus! {

/// The reply to a step.
#[derive(Debug)]
pub enum StepReply {
    /// It succeeded, and there is nothing more to say.
    Done,
    /// It could not be carried out.
    Failed(String),
    /// A program ran and ended with success or not.
    Output { success: bool, stderr: String },
}

/// The mathematical content of a [`StepReply`].
pub enum ReplyModel {
    Done,
    Failed(Seq<char>),
    Output { success: bool, stderr: Seq<char> },
}

impl View for StepReply {
    type V = ReplyModel;

    open spec fn view(&self) -> ReplyModel {
        match self {
            StepReply::Done => ReplyModel::Done,
            StepReply::Failed(e) => ReplyModel::Failed(e@),
            StepReply::Output { success, stderr } => ReplyModel::Output {
                success: *success,
                stderr: stderr@,
            },
        }
    }
}

/// `s`, or the alternative where it is empty.
pub open spec fn or_else(s: Seq<char>, alt: Seq<char>) -> Seq<char> {
    if s.len() == 0 {
        alt
    } else {
        s
    }
}

/// The text, or the alternative where it is empty.
pub fn if_empty(s: &str, alt: &str) -> (r: String)
    ensures
        r@ == or_else(s@, alt@),
{
    if s.is_empty() {
        alt.to_owned()
    } else {
        s.to_owned()
    }
}

// ── Installing ──────────────────────────────────────────────────────────────

/// A step of the installation.
#[derive(Debug, Clone, Copy, PartialEq, Eq, Structural)]
pub enum InstallStep {
    /// Create the folder for LaunchAgents.
    CreateAgentFolder,
    /// Create the folder for the log; it may fail.
    CreateLogFolder,
    /// Write the property list.
    WritePlist,
    /// Unload an earlier LaunchAgent; it may fail.
    Bootout,
    /// Load the LaunchAgent.
    Bootstrap,
    /// Enable the LaunchAgent; it may fail.
    Enable,
}

/// What comes next in an installation.
#[derive(Debug)]
pub enum InstallNext {
    Perform(InstallStep),
    Finished(Result<(), String>),
}

/// The mathematical content of an [`InstallNext`].
pub enum InstallNextModel {
    Perform(InstallStep),
    Finished(Result<(), Seq<char>>),
}

impl View for InstallNext {
    type V = InstallNextModel;

    open spec fn view(&self) -> InstallNextModel {
        match self {
            InstallNext::Perform(s) => InstallNextModel::Perform(*s),
            InstallNext::Finished(r) => InstallNextModel::Finished(launch::outcome(*r)),
        }
    }
}

/// What is known of the running program's path.
#[derive(Debug)]
pub enum ProgramPath {
    Known(String),
    /// It is no text.
    NotText,
    /// It could not be found out, and why.
    Unknown(String),
}

/// How an installation begins.
pub open spec fn install_first(program: ProgramPath, home_known: bool) -> InstallNextModel {
    match program {
        ProgramPath::Unknown(e) => InstallNextModel::Finished(Err("current_exe: "@ + e@)),
        ProgramPath::NotText => InstallNextModel::Finished(Err("executable path is not UTF-8"@)),
        ProgramPath::Known(_) => if home_known {
            InstallNextModel::Perform(InstallStep::CreateAgentFolder)
        } else {
            InstallNextModel::Finished(Err("could not resolve home directory"@))
        },
    }
}

/// Whether loading failed only because the LaunchAgent is loaded already.
pub open spec fn already_loaded(stderr: Seq<char>) -> bool {
    text::occurs_in("already bootstrapped"@, stderr) || text::occurs_in("already loaded"@, stderr)
}

/// The error of a step that could not be carried out.
pub open spec fn failure(what: Seq<char>, e: Seq<char>) -> InstallNextModel {
    InstallNextModel::Finished(Err(what + e))
}

/// How an installation goes on after a step's reply.
pub open spec fn install_next(
    step: InstallStep,
    reply: ReplyModel,
    plist_is_text: bool,
) -> InstallNextModel {
    match step {
        InstallStep::CreateAgentFolder => match reply {
            ReplyModel::Failed(e) => failure("create LaunchAgents dir: "@, e),
            _ => InstallNextModel::Perform(InstallStep::CreateLogFolder),
        },
        InstallStep::CreateLogFolder => InstallNextModel::Perform(InstallStep::WritePlist),
        InstallStep::WritePlist => match reply {
            ReplyModel::Failed(e) => failure("write LaunchAgent plist: "@, e),
            _ => InstallNextModel::Perform(InstallStep::Bootout),
        },
        InstallStep::Bootout => if plist_is_text {
            InstallNextModel::Perform(InstallStep::Bootstrap)
        } else {
            InstallNextModel::Finished(Err("plist path is not UTF-8"@))
        },
        InstallStep::Bootstrap => match reply {
            ReplyModel::Failed(e) => failure("launchctl bootstrap: "@, e),
            ReplyModel::Done => InstallNextModel::Perform(InstallStep::Enable),
            ReplyModel::Output { success, stderr } => if success || already_loaded(stderr) {
                InstallNextModel::Perform(InstallStep::Enable)
            } else {
                failure(
                    "launchctl bootstrap failed: "@,
                    or_else(text::trimmed(stderr), "no stderr"@),
                )
            },
        },
        InstallStep::Enable => InstallNextModel::Finished(Ok(())),
    }
}

fn failed(what: &str, e: &str) -> (r: InstallNext)
    ensures
        r@ == failure(what@, e@),
{
    InstallNext::Finished(Err(text::appended(what, e)))
}

/// Begins an installation.
pub fn begin_install(program: &ProgramPath, home_known: bool) -> (r: InstallNext)
    ensures
        r@ == install_first(*program, home_known),
{
    match program {
        ProgramPath::Unknown(e) => failed("current_exe: ", e.as_str()),
        ProgramPath::NotText => InstallNext::Finished(
            Err("executable path is not UTF-8".to_owned()),
        ),
        ProgramPath::Known(_) => {
            if home_known {
                InstallNext::Perform(InstallStep::CreateAgentFolder)
            } else {
                InstallNext::Finished(Err("could not resolve home directory".to_owned()))
            }
        },
    }
}

/// Goes on with an installation after a step's reply. `plist_is_text` tells
/// whether the property list's path is one that can be handed to a program.
pub fn enable_launch_agent(
    step: InstallStep,
    reply: &StepReply,
    plist_is_text: bool,
) -> (r: InstallNext)
    ensures
        r@ == install_next(step, reply@, plist_is_text),
{
    match step {
        InstallStep::CreateAgentFolder => match reply {
            StepReply::Failed(e) => failed("create LaunchAgents dir: ", e.as_str()),
            _ => InstallNext::Perform(InstallStep::CreateLogFolder),
        },
        InstallStep::CreateLogFolder => InstallNext::Perform(InstallStep::WritePlist),
        InstallStep::WritePlist => match reply {
            StepReply::Failed(e) => failed("write LaunchAgent plist: ", e.as_str()),
            _ => InstallNext::Perform(InstallStep::Bootout),
        },
        InstallStep::Bootout => {
            if plist_is_text {
                InstallNext::Perform(InstallStep::Bootstrap)
            } else {
                InstallNext::Finished(Err("plist path is not UTF-8".to_owned()))
            }
        },
        InstallStep::Bootstrap => match reply {
            StepReply::Failed(e) => failed("launchctl bootstrap: ", e.as_str()),
            StepReply::Done => InstallNext::Perform(InstallStep::Enable),
            StepReply::Output { success, stderr } => {
                if *success || text::contains(stderr.as_str(), "already bootstrapped")
                    || text::contains(stderr.as_str(), "already loaded") {
                    InstallNext::Perform(InstallStep::Enable)
                } else {
                    let told: String = if_empty(text::trim(stderr.as_str()).as_str(), "no stderr");
                    failed("launchctl bootstrap failed: ", told.as_str())
                }
            },
        },
        InstallStep::Enable => InstallNext::Finished(Ok(())),
    }
}

/// The arguments that a step hands to the service manager's control program.
pub open spec fn control_arguments(step: InstallStep, uid: u32, plist: Seq<char>) -> Option<
    Seq<Seq<char>>,
> {
    match step {
        InstallStep::Bootout => Some(seq!["bootout"@, launch::service_target(uid)]),
        InstallStep::Bootstrap => Some(seq!["bootstrap"@, launch::domain_target(uid), plist]),
        InstallStep::Enable => Some(seq!["enable"@, launch::service_target(uid)]),
        _ => None,
    }
}

/// The arguments that a step hands to the control program, where it runs it.
pub fn launchctl_arguments(step: InstallStep, uid: u32, plist: &str) -> (r: Option<Vec<String>>)
    ensures
        r.deep_view() == control_arguments(step, uid, plist@),
{
    let mut args: Vec<String> = Vec::new();
    match step {
        InstallStep::Bootout => {
            args.push("bootout".to_owned());
            args.push(launch::service_name(uid));
        },
        InstallStep::Bootstrap => {
            args.push("bootstrap".to_owned());
            args.push(launch::domain_name(uid));
            args.push(plist.to_owned());
        },
        InstallStep::Enable => {
            args.push("enable".to_owned());
            args.push(launch::service_name(uid));
        },
        _ => {
            return None;
        },
    }
    assert(args.deep_view() =~= control_arguments(step, uid, plist@)->Some_0);
    Some(args)
}

/// How far an installation is.
pub open spec fn progress(step: InstallStep) -> nat {
    match step {
        InstallStep::CreateAgentFolder => 0,
        InstallStep::CreateLogFolder => 1,
        InstallStep::WritePlist => 2,
        InstallStep::Bootout => 3,
        InstallStep::Bootstrap => 4,
        InstallStep::Enable => 5,
    }
}

/// An installation ends: each step is followed by a later one or by the end.
pub proof fn law_install_advances(step: InstallStep, reply: ReplyModel, plist_is_text: bool)
    ensures
        install_next(step, reply, plist_is_text) matches InstallNextModel::Perform(next)
            ==> progress(next) == progress(step) + 1,
{
}

/// An installation succeeds only after its last step: the property list was
/// written and the LaunchAgent loaded before.
pub proof fn law_install_success_is_last(
    step: InstallStep,
    reply: ReplyModel,
    plist_is_text: bool,
)
    ensures
        install_next(step, reply, plist_is_text) == InstallNextModel::Finished(Ok(())) <==> step
            == InstallStep::Enable,
        step == InstallStep::WritePlist && reply is Failed ==> install_next(
            step,
            reply,
            plist_is_text,
        ) is Finished,
{
}

// ── Removing ────────────────────────────────────────────────────────────────

/// A step of the removal.
#[derive(Debug, Clone, Copy, PartialEq, Eq, Structural)]
pub enum RemoveStep {
    /// Unload the LaunchAgent.
    Bootout,
    /// Delete the property list.
    DeletePlist,
}

/// What comes next in a removal.
#[derive(Debug)]
pub enum RemoveNext {
    Perform(RemoveStep),
    Finished(Result<(), String>),
}

/// The mathematical content of a [`RemoveNext`].
pub enum RemoveNextModel {
    Perform(RemoveStep),
    Finished(Result<(), Seq<char>>),
}

impl View for RemoveNext {
    type V = RemoveNextModel;

    open spec fn view(&self) -> RemoveNextModel {
        match self {
            RemoveNext::Perform(s) => RemoveNextModel::Perform(*s),
            RemoveNext::Finished(r) => RemoveNextModel::Finished(launch::outcome(*r)),
        }
    }
}

/// How a removal goes on after a step's reply. That the LaunchAgent was not
/// loaded is no error, and neither is a property list that is not there.
pub open spec fn remove_next(step: RemoveStep, reply: ReplyModel, plist_is_file: bool)
    -> RemoveNextModel {
    match step {
        RemoveStep::Bootout => match reply {
            ReplyModel::Failed(e) => RemoveNextModel::Finished(Err("launchctl bootout: "@ + e)),
            _ => if plist_is_file {
                RemoveNextModel::Perform(RemoveStep::DeletePlist)
            } else {
                RemoveNextModel::Finished(Ok(()))
            },
        },
        RemoveStep::DeletePlist => match reply {
            ReplyModel::Failed(e) => RemoveNextModel::Finished(
                Err("remove LaunchAgent plist: "@ + e),
            ),
            _ => RemoveNextModel::Finished(Ok(())),
        },
    }
}

/// A removal ends, and where there is a property list it succeeds only after
/// deleting it.
pub proof fn law_removal_deletes_plist(step: RemoveStep, reply: ReplyModel, plist_is_file: bool)
    ensures
        remove_next(step, reply, plist_is_file) matches RemoveNextModel::Perform(next) ==> step
            == RemoveStep::Bootout && next == RemoveStep::DeletePlist,
        plist_is_file && remove_next(step, reply, plist_is_file) == RemoveNextModel::Finished(
            Ok(()),
        ) ==> step == RemoveStep::DeletePlist && !(reply is Failed),
{
}

/// Goes on with a removal after a step's reply.
pub fn disable_launch_agent(
    step: RemoveStep,
    reply: &StepReply,
    plist_is_file: bool,
) -> (r: RemoveNext)
    ensures
        r@ == remove_next(step, reply@, plist_is_file),
{
    match step {
        RemoveStep::Bootout => match reply {
            StepReply::Failed(e) => RemoveNext::Finished(
                Err(text::appended("launchctl bootout: ", e.as_str())),
            ),
            _ => {
                if plist_is_file {
                    RemoveNext::Perform(RemoveStep::DeletePlist)
                } else {
                    RemoveNext::Finished(Ok(()))
                }
            },
        },
        RemoveStep::DeletePlist => match reply {
            StepReply::Failed(e) => RemoveNext::Finished(
                Err(text::appended("remove LaunchAgent plist: ", e.as_str())),
            ),
            _ => RemoveNext::Finished(Ok(())),
        },
    }
}

/// Whether the error text says no more than that the LaunchAgent was not
/// loaded.
pub open spec fn not_loaded(stderr: Seq<char>) -> bool {
    ||| stderr.len() == 0
    ||| text::occurs_in("No such process"@, stderr)
    ||| text::occurs_in("Could not find service"@, stderr)
    ||| text::occurs_in("not found"@, stderr)
    ||| text::occurs_in("No such file"@, stderr)
}

/// The warning about an unloading that failed for another reason than that
/// nothing was loaded.
pub fn bootout_warning(reply: &StepReply) -> (r: Option<String>)
    ensures
        r.deep_view() == (match reply@ {
            ReplyModel::Output { success, stderr } => if success || not_loaded(stderr) {
                None
            } else {
                Some("launchctl bootout: "@ + text::trimmed(stderr))
            },
            _ => None,
        }),
{
    match reply {
        StepReply::Output { success, stderr } => {
            let s: &str = stderr.as_str();
            if *success || s.is_empty() || text::contains(s, "No such process") || text::contains(
                s,
                "Could not find service",
            ) || text::contains(s, "not found") || text::contains(s, "No such file") {
                None
            } else {
                Some(text::appended("launchctl bootout: ", text::trim(s).as_str()))
            }
        },
        _ => None,
    }
}

// ── What the replies come to ────────────────────────────────────────────────

/// An installation begins with the folder where the program's path is known as
/// text and the home folder is known, and fails otherwise.
pub proof fn law_install_begins(program: ProgramPath, home_known: bool)
    ensures
        program is Known && home_known ==> install_first(program, home_known)
            == InstallNextModel::Perform(InstallStep::CreateAgentFolder),
        !(program is Known && home_known) ==> (install_first(
            program,
            home_known,
        ) matches InstallNextModel::Finished(r) && r is Err),
        program matches ProgramPath::Unknown(e) ==> (install_first(
            program,
            home_known,
        ) matches InstallNextModel::Finished(Err(m)) && text::occurs_in(e@, m)),
{
    if let ProgramPath::Unknown(e) = program {
        text::law_part_occurs("current_exe: "@, e@, Seq::empty());
        assert("current_exe: "@ + e@ + Seq::<char>::empty() =~= "current_exe: "@ + e@);
    }
}

/// The order of an installation: the two folders, the property list, unloading
/// what was loaded before, loading, and enabling. The log's folder, the
/// unloading and the enabling may fail.
pub proof fn law_install_order(step: InstallStep, reply: ReplyModel, plist_is_text: bool)
    ensures
        step == InstallStep::CreateAgentFolder && !(reply is Failed) ==> install_next(
            step,
            reply,
            plist_is_text,
        ) == InstallNextModel::Perform(InstallStep::CreateLogFolder),
        step == InstallStep::CreateLogFolder ==> install_next(step, reply, plist_is_text)
            == InstallNextModel::Perform(InstallStep::WritePlist),
        step == InstallStep::WritePlist && !(reply is Failed) ==> install_next(
            step,
            reply,
            plist_is_text,
        ) == InstallNextModel::Perform(InstallStep::Bootout),
        step == InstallStep::Bootout && plist_is_text ==> install_next(step, reply, plist_is_text)
            == InstallNextModel::Perform(InstallStep::Bootstrap),
        step == InstallStep::Bootstrap && !(reply is Failed) && (reply is Output
            ==> reply->success) ==> install_next(step, reply, plist_is_text)
            == InstallNextModel::Perform(InstallStep::Enable),
        step == InstallStep::Enable ==> install_next(step, reply, plist_is_text)
            == InstallNextModel::Finished(Ok(())),
{
}

/// A step that must not fail ends the installation with its reason where it
/// does, and so does a property list whose path is no text.
pub proof fn law_install_fails(step: InstallStep, e: Seq<char>, plist_is_text: bool)
    ensures
        step == InstallStep::CreateAgentFolder || step == InstallStep::WritePlist || step
            == InstallStep::Bootstrap ==> (install_next(
            step,
            ReplyModel::Failed(e),
            plist_is_text,
        ) matches InstallNextModel::Finished(Err(m)) && text::occurs_in(e, m)),
        step == InstallStep::Bootout && !plist_is_text ==> (install_next(
            step,
            ReplyModel::Failed(e),
            plist_is_text,
        ) matches InstallNextModel::Finished(r) && r is Err),
{
    let none = Seq::<char>::empty();
    let texts = seq![
        "create LaunchAgents dir: "@,
        "write LaunchAgent plist: "@,
        "launchctl bootstrap: "@,
    ];
    assert forall|i: int| 0 <= i < 3 implies text::occurs_in(e, #[trigger] texts[i] + e) by {
        text::law_part_occurs(texts[i], e, none);
        assert(texts[i] + e + none =~= texts[i] + e);
    }
    assert(texts[0] == "create LaunchAgents dir: "@ && texts[1] == "write LaunchAgent plist: "@
        && texts[2] == "launchctl bootstrap: "@);
    assert(text::occurs_in(e, texts[0] + e) && text::occurs_in(e, texts[1] + e)
        && text::occurs_in(e, texts[2] + e));
}

/// Loading that the control program refuses is accepted where the LaunchAgent
/// is loaded already, and otherwise ends the installation with what the program
/// wrote.
pub proof fn law_load_refused(front: Seq<char>, back: Seq<char>, stderr: Seq<char>, text: bool)
    ensures
        install_next(
            InstallStep::Bootstrap,
            ReplyModel::Output {
                success: false,
                stderr: front + "already bootstrapped"@ + back,
            },
            text,
        ) == InstallNextModel::Perform(InstallStep::Enable),
        install_next(
            InstallStep::Bootstrap,
            ReplyModel::Output { success: false, stderr: front + "already loaded"@ + back },
            text,
        ) == InstallNextModel::Perform(InstallStep::Enable),
        !text::occurs_in("already bootstrapped"@, stderr) && !text::occurs_in(
            "already loaded"@,
            stderr,
        ) ==> (install_next(
            InstallStep::Bootstrap,
            ReplyModel::Output { success: false, stderr },
            text,
        ) matches InstallNextModel::Finished(Err(m)) && text::occurs_in(
            text::trimmed(stderr),
            m,
        )),
{
    text::law_part_occurs(front, "already bootstrapped"@, back);
    text::law_part_occurs(front, "already loaded"@, back);
    let told = or_else(text::trimmed(stderr), "no stderr"@);
    let what = "launchctl bootstrap failed: "@;
    let none = Seq::<char>::empty();
    if text::trimmed(stderr).len() > 0 {
        text::law_part_occurs(what, told, none);
        assert(what + told + none =~= what + told);
    } else {
        text::law_part_occurs(what, none, told);
        assert(what + none + told =~= what + told);
        assert(text::trimmed(stderr) =~= none);
    }
}

/// The control program is run to unload, to load and to enable, each time on
/// the user's own domain, and is handed the property list to load.
pub proof fn law_control_arguments(step: InstallStep, uid: u32, plist: Seq<char>)
    ensures
        control_arguments(step, uid, plist) is Some <==> step == InstallStep::Bootout || step
            == InstallStep::Bootstrap || step == InstallStep::Enable,
        control_arguments(InstallStep::Bootstrap, uid, plist) == Some(
            seq!["bootstrap"@, launch::domain_target(uid), plist],
        ),
        control_arguments(InstallStep::Bootout, uid, plist) == Some(
            seq!["bootout"@, launch::service_target(uid)],
        ),
        control_arguments(InstallStep::Enable, uid, plist) == Some(
            seq!["enable"@, launch::service_target(uid)],
        ),
{
}

/// A removal unloads and then deletes the property list where there is one. It
/// fails exactly where one of the two could not be carried out, with the
/// reason.
pub proof fn law_removal(step: RemoveStep, reply: ReplyModel, plist_is_file: bool)
    ensures
        reply matches ReplyModel::Failed(e) ==> (remove_next(
            step,
            reply,
            plist_is_file,
        ) matches RemoveNextModel::Finished(Err(m)) && text::occurs_in(e, m)),
        !(reply is Failed) && step == RemoveStep::Bootout && plist_is_file ==> remove_next(
            step,
            reply,
            plist_is_file,
        ) == RemoveNextModel::Perform(RemoveStep::DeletePlist),
        !(reply is Failed) && (step == RemoveStep::DeletePlist || !plist_is_file) ==> remove_next(
            step,
            reply,
            plist_is_file,
        ) == RemoveNextModel::Finished(Ok(())),
{
    if let ReplyModel::Failed(e) = reply {
        let none = Seq::<char>::empty();
        let (a, b) = ("launchctl bootout: "@, "remove LaunchAgent plist: "@);
        text::law_part_occurs(a, e, none);
        assert(a + e + none =~= a + e);
        text::law_part_occurs(b, e, none);
        assert(b + e + none =~= b + e);
    }
}

/// What says that nothing was loaded: an empty error text, or one with any of
/// the system's four phrases for it.
pub proof fn law_not_loaded(front: Seq<char>, back: Seq<char>, stderr: Seq<char>)
    ensures
        not_loaded(Seq::empty()),
        not_loaded(front + "No such process"@ + back),
        not_loaded(front + "Could not find service"@ + back),
        not_loaded(front + "not found"@ + back),
        not_loaded(front + "No such file"@ + back),
        not_loaded(stderr) && stderr.len() > 0 ==> text::occurs_in("No such process"@, stderr)
            || text::occurs_in("Could not find service"@, stderr) || text::occurs_in(
            "not found"@,
            stderr,
        ) || text::occurs_in("No such file"@, stderr),
{
    text::law_part_occurs(front, "No such process"@, back);
    text::law_part_occurs(front, "Could not find service"@, back);
    text::law_part_occurs(front, "not found"@, back);
    text::law_part_occurs(front, "No such file"@, back);
}

} // verus!
