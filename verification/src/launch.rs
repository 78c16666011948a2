//! Launch at login: which mechanism is used, and the steps of the LaunchAgent
//! fallback.
//!
//! The system's login-item service comes first. Where it does not take the
//! application, a LaunchAgent property list does. The system calls are made
//! elsewhere; here it is decided which one is next and what its answer means.
use vstd::prelude::*;

use crate::numbers;
use crate::text;

verus! {

/// LaunchAgent label and base name of its property list.
pub const AGENT_LABEL: &'static str = "com.clippin.app";

/// The result with its error as a sequence of characters.
pub open spec fn outcome<T>(r: Result<T, String>) -> Result<T, Seq<char>> {
    match r {
        Ok(v) => Ok(v),
        Err(e) => Err(e@),
    }
}

// ── Login items ─────────────────────────────────────────────────────────────

/// Status of the login item.
#[derive(Debug, Clone, Copy, PartialEq, Eq, Structural)]
pub enum LoginItemStatus {
    NotRegistered,
    Enabled,
    RequiresApproval,
    NotFound,
    Unknown,
}

impl LoginItemStatus {
    /// The status behind the service's number for it.
    pub open spec fn of_raw(v: int) -> LoginItemStatus {
        if v == 0 {
            LoginItemStatus::NotRegistered
        } else if v == 1 {
            LoginItemStatus::Enabled
        } else if v == 2 {
            LoginItemStatus::RequiresApproval
        } else if v == 3 {
            LoginItemStatus::NotFound
        } else {
            LoginItemStatus::Unknown
        }
    }

    /// The status in words.
    pub open spec fn description(self) -> Seq<char> {
        match self {
            LoginItemStatus::NotRegistered => "not registered"@,
            LoginItemStatus::Enabled => "enabled"@,
            LoginItemStatus::RequiresApproval => "requires approval in System Settings"@,
            LoginItemStatus::NotFound => "app not found (install .app to Applications)"@,
            LoginItemStatus::Unknown => "unknown"@,
        }
    }

    /// Whether the service has taken the application, though the user may
    /// still have to approve it.
    pub open spec fn taken(self) -> bool {
        self == LoginItemStatus::Enabled || self == LoginItemStatus::RequiresApproval
    }

    /// Reads the service's number for a status.
    pub fn from_raw(v: isize) -> (r: Self)
        ensures
            r == Self::of_raw(v as int),
    {
        if v == 0 {
            LoginItemStatus::NotRegistered
        } else if v == 1 {
            LoginItemStatus::Enabled
        } else if v == 2 {
            LoginItemStatus::RequiresApproval
        } else if v == 3 {
            LoginItemStatus::NotFound
        } else {
            LoginItemStatus::Unknown
        }
    }

    /// Whether launch at login is on.
    pub fn is_enabled(self) -> (r: bool)
        ensures
            r == (self == LoginItemStatus::Enabled),
    {
        self == LoginItemStatus::Enabled
    }

    /// The status in words.
    pub fn describe(self) -> (r: &'static str)
        ensures
            r@ == self.description(),
    {
        match self {
            LoginItemStatus::NotRegistered => "not registered",
            LoginItemStatus::Enabled => "enabled",
            LoginItemStatus::RequiresApproval => "requires approval in System Settings",
            LoginItemStatus::NotFound => "app not found (install .app to Applications)",
            LoginItemStatus::Unknown => "unknown",
        }
    }

    fn is_taken(self) -> (r: bool)
        ensures
            r == self.taken(),
    {
        self == LoginItemStatus::Enabled || self == LoginItemStatus::RequiresApproval
    }
}

/// The status of launch at login, given that of the service, where there is a
/// service, and whether the LaunchAgent is on.
pub open spec fn combined_status(
    service: Option<LoginItemStatus>,
    agent_enabled: bool,
) -> LoginItemStatus {
    match service {
        Some(s) if s.taken() => s,
        Some(s) => if agent_enabled {
            LoginItemStatus::Enabled
        } else {
            s
        },
        None => if agent_enabled {
            LoginItemStatus::Enabled
        } else {
            LoginItemStatus::NotRegistered
        },
    }
}

/// Whether launch at login is on, by the service or by the LaunchAgent.
pub fn status(service: Option<LoginItemStatus>, agent_enabled: bool) -> (r: LoginItemStatus)
    ensures
        r == combined_status(service, agent_enabled),
{
    match service {
        Some(s) => {
            if s.is_taken() {
                s
            } else if agent_enabled {
                LoginItemStatus::Enabled
            } else {
                s
            }
        },
        None => {
            if agent_enabled {
                LoginItemStatus::Enabled
            } else {
                LoginItemStatus::NotRegistered
            }
        },
    }
}

/// The LaunchAgent counts as on as soon as its property list is there, loaded
/// in this session or not.
pub fn launch_agent_is_enabled(home_known: bool, plist_is_file: bool) -> (r: bool)
    ensures
        r == (home_known && plist_is_file),
{
    home_known && plist_is_file
}

/// What to do with the LaunchAgent once the service was asked to take the
/// application.
#[derive(Debug, Clone, Copy, PartialEq, Eq, Structural)]
pub enum AgentAction {
    /// The service has it: a stale LaunchAgent goes.
    Remove,
    /// The service does not: the LaunchAgent takes over.
    Install,
}

/// Whether the service has taken the application.
pub open spec fn service_suffices(service: Result<LoginItemStatus, Seq<char>>) -> bool {
    service matches Ok(s) && s.taken()
}

/// What to do with the LaunchAgent after the service's answer.
pub fn agent_action(service: &Result<LoginItemStatus, String>) -> (r: AgentAction)
    ensures
        r == (if service_suffices(outcome(*service)) {
            AgentAction::Remove
        } else {
            AgentAction::Install
        }),
{
    match service {
        Ok(s) => {
            if s.is_taken() {
                AgentAction::Remove
            } else {
                AgentAction::Install
            }
        },
        Err(_) => AgentAction::Install,
    }
}

/// The outcome of turning launch at login on, given the service's answer and
/// how the LaunchAgent's part went. Where the service suffices, removing a
/// stale LaunchAgent may fail.
pub open spec fn enable_outcome(
    service: Result<LoginItemStatus, Seq<char>>,
    agent: Result<(), Seq<char>>,
) -> Result<LoginItemStatus, Seq<char>> {
    if service_suffices(service) {
        service
    } else {
        match agent {
            Ok(_) => Ok(LoginItemStatus::Enabled),
            Err(e) => Err(e),
        }
    }
}

/// The outcome of turning launch at login on.
pub fn enable(
    service: Result<LoginItemStatus, String>,
    agent: Result<(), String>,
) -> (r: Result<LoginItemStatus, String>)
    ensures
        outcome(r) == enable_outcome(outcome(service), outcome(agent)),
{
    match service {
        Ok(s) => {
            if s.is_taken() {
                return Ok(s);
            }
        },
        Err(_) => {},
    }
    match agent {
        Ok(_) => Ok(LoginItemStatus::Enabled),
        Err(e) => Err(e),
    }
}

/// Where turning it on succeeds, one of the mechanisms has the application.
pub proof fn law_enable_is_taken(
    service: Result<LoginItemStatus, Seq<char>>,
    agent: Result<(), Seq<char>>,
)
    ensures
        enable_outcome(service, agent) matches Ok(s) ==> s.taken(),
        enable_outcome(service, agent) is Err <==> !service_suffices(service) && agent is Err,
{
}

/// What went wrong while both mechanisms were turned off. A refusal of the
/// service counts only where there is a service.
pub open spec fn disable_errors(
    service: Result<LoginItemStatus, Seq<char>>,
    service_available: bool,
    agent: Result<(), Seq<char>>,
) -> Seq<Seq<char>> {
    (match service {
        Err(e) if service_available => seq![e],
        _ => Seq::empty(),
    }) + (match agent {
        Err(e) => seq![e],
        Ok(_) => Seq::empty(),
    })
}

/// The outcome of turning launch at login off, given how both mechanisms went
/// and the status afterwards: it fails only where it is still on.
pub open spec fn disable_outcome(
    service: Result<LoginItemStatus, Seq<char>>,
    service_available: bool,
    agent: Result<(), Seq<char>>,
    after: LoginItemStatus,
) -> Result<LoginItemStatus, Seq<char>> {
    let errors = disable_errors(service, service_available, agent);
    if after != LoginItemStatus::Enabled {
        Ok(after)
    } else if errors.len() == 0 {
        Err("failed to disable launch at login"@)
    } else {
        Err(text::joined(errors, "; "@))
    }
}

/// The outcome of turning launch at login off.
pub fn disable(
    service: Result<LoginItemStatus, String>,
    service_available: bool,
    agent: Result<(), String>,
    after: LoginItemStatus,
) -> (r: Result<LoginItemStatus, String>)
    ensures
        outcome(r) == disable_outcome(outcome(service), service_available, outcome(agent), after),
{
    let ghost expected = disable_errors(outcome(service), service_available, outcome(agent));
    let mut errors: Vec<String> = Vec::new();
    if let Err(e) = service {
        if service_available {
            errors.push(e);
        }
    }
    if let Err(e) = agent {
        errors.push(e);
    }
    assert(errors.deep_view() =~= expected);
    if after.is_enabled() {
        if errors.len() == 0 {
            Err("failed to disable launch at login".to_owned())
        } else {
            Err(text::join(errors.as_slice(), "; "))
        }
    } else {
        Ok(after)
    }
}

/// What the user wants of launch at login.
#[derive(Debug, Clone, Copy, PartialEq, Eq, Structural)]
pub enum LoginRequest {
    Enable,
    Disable,
}

/// Which of the two to do.
pub fn set_enabled(want: bool) -> (r: LoginRequest)
    ensures
        r == (if want {
            LoginRequest::Enable
        } else {
            LoginRequest::Disable
        }),
{
    if want {
        LoginRequest::Enable
    } else {
        LoginRequest::Disable
    }
}

// ── The service ─────────────────────────────────────────────────────────────

/// How the application's entry in the service is reached.
#[derive(Debug, Clone, Copy, PartialEq, Eq, Structural)]
pub enum ServiceAccessor {
    MainAppService,
    MainApp,
}

/// The accessor to use: the current one before the historical one.
pub fn service_accessor(has_current: bool, has_historical: bool) -> (r: Option<ServiceAccessor>)
    ensures
        r == (if has_current {
            Some(ServiceAccessor::MainAppService)
        } else if has_historical {
            Some(ServiceAccessor::MainApp)
        } else {
            None
        }),
{
    if has_current {
        Some(ServiceAccessor::MainAppService)
    } else if has_historical {
        Some(ServiceAccessor::MainApp)
    } else {
        None
    }
}

/// The status that the service tells; unknown where it cannot be asked.
pub fn read_status(raw: Option<isize>) -> (r: LoginItemStatus)
    ensures
        r == (match raw {
            Some(v) => LoginItemStatus::of_raw(v as int),
            None => LoginItemStatus::Unknown,
        }),
{
    match raw {
        Some(v) => LoginItemStatus::from_raw(v),
        None => LoginItemStatus::Unknown,
    }
}

/// The service's answer to a request.
#[derive(Debug)]
pub struct ServiceReply {
    /// Whether it knows the request.
    pub supported: bool,
    /// Whether the request succeeded.
    pub ok: bool,
    /// The error's description, where there is one.
    pub error: Option<String>,
    /// The status afterwards.
    pub status: LoginItemStatus,
}

/// What a request to the service came to. `verb` names the request.
pub open spec fn service_outcome(reply: Option<ServiceReply>, verb: Seq<char>) -> Result<
    LoginItemStatus,
    Seq<char>,
> {
    match reply {
        None => Err("SMAppService unavailable"@),
        Some(r) => if !r.supported {
            Err("SMAppService "@ + verb + " API unavailable"@)
        } else if r.ok {
            Ok(r.status)
        } else {
            match r.error {
                Some(e) => Err(e@),
                None => Err(verb + " failed (status="@ + r.status.description() + ")"@),
            }
        },
    }
}

fn service_result(reply: Option<ServiceReply>, verb: &str) -> (r: Result<LoginItemStatus, String>)
    ensures
        outcome(r) == service_outcome(reply, verb@),
{
    match reply {
        None => Err("SMAppService unavailable".to_owned()),
        Some(r) => {
            if !r.supported {
                let mut e: String = "SMAppService ".to_owned();
                e.append(verb);
                e.append(" API unavailable");
                Err(e)
            } else if r.ok {
                Ok(r.status)
            } else {
                match r.error {
                    Some(e) => Err(e),
                    None => {
                        let mut e: String = verb.to_owned();
                        e.append(" failed (status=");
                        e.append(r.status.describe());
                        e.append(")");
                        Err(e)
                    },
                }
            }
        },
    }
}

/// What registering with the service came to.
pub fn sm_enable(reply: Option<ServiceReply>) -> (r: Result<LoginItemStatus, String>)
    ensures
        outcome(r) == service_outcome(reply, "register"@),
{
    service_result(reply, "register")
}

/// What unregistering from the service came to.
pub fn sm_disable(reply: Option<ServiceReply>) -> (r: Result<LoginItemStatus, String>)
    ensures
        outcome(r) == service_outcome(reply, "unregister"@),
{
    service_result(reply, "unregister")
}

// ── Names and paths ─────────────────────────────────────────────────────────

fn list_of(parts: &[&str]) -> (r: Vec<String>)
    ensures
        r.deep_view() == parts.deep_view(),
{
    let mut r: Vec<String> = Vec::new();
    let mut i: usize = 0;
    while i < parts.len()
        invariant
            i <= parts@.len(),
            r.deep_view() == parts.deep_view().take(i as int),
        decreases parts@.len() - i,
    {
        let ghost prior = r.deep_view();
        r.push(parts[i].to_owned());
        assert(r.deep_view() =~= prior.push(parts@[i as int]@));
        i += 1;
        assert(r.deep_view() =~= parts.deep_view().take(i as int));
    }
    assert(parts.deep_view().take(i as int) =~= parts.deep_view());
    r
}

/// The folders and the file of the LaunchAgent's property list below the home
/// folder.
pub fn agent_plist_path(home_known: bool) -> (r: Result<Vec<String>, String>)
    ensures
        match r {
            Ok(parts) => home_known && parts.deep_view() == seq![
                "Library"@,
                "LaunchAgents"@,
                "com.clippin.app.plist"@,
            ],
            Err(e) => !home_known && e@ == "could not resolve home directory"@,
        },
{
    if !home_known {
        return Err("could not resolve home directory".to_owned());
    }
    let parts: [&str; 3] = ["Library", "LaunchAgents", "com.clippin.app.plist"];
    assert(parts.deep_view() =~= seq!["Library"@, "LaunchAgents"@, "com.clippin.app.plist"@]);
    Ok(list_of(parts.as_slice()))
}

/// The folders and the file of the log below the home folder.
pub fn launch_agent_log_path(home_known: bool) -> (r: Option<Vec<String>>)
    ensures
        match r {
            Some(parts) => home_known && parts.deep_view() == seq![
                "Library"@,
                "Logs"@,
                "ClipPin"@,
                "clippin.log"@,
            ],
            None => !home_known,
        },
{
    if !home_known {
        return None;
    }
    let parts: [&str; 4] = ["Library", "Logs", "ClipPin", "clippin.log"];
    assert(parts.deep_view() =~= seq!["Library"@, "Logs"@, "ClipPin"@, "clippin.log"@]);
    Some(list_of(parts.as_slice()))
}

/// The user's service domain.
pub open spec fn domain_target(uid: u32) -> Seq<char> {
    "gui/"@ + numbers::decimal(uid as nat)
}

/// The LaunchAgent in the user's service domain.
pub open spec fn service_target(uid: u32) -> Seq<char> {
    domain_target(uid) + "/"@ + AGENT_LABEL@
}

/// The user's service domain.
pub fn domain_name(uid: u32) -> (r: String)
    ensures
        r@ == domain_target(uid),
{
    let mut r: String = "gui/".to_owned();
    numbers::push_decimal(&mut r, uid as u64);
    r
}

/// The LaunchAgent in the user's service domain.
pub fn service_name(uid: u32) -> (r: String)
    ensures
        r@ == service_target(uid),
{
    let mut r: String = domain_name(uid);
    r.append("/");
    r.append(AGENT_LABEL);
    r
}

// ── The property list ───────────────────────────────────────────────────────

/// What stands for a character in XML text.
pub open spec fn xml_char(c: char) -> Seq<char> {
    if c == '&' {
        "&amp;"@
    } else if c == '<' {
        "&lt;"@
    } else if c == '>' {
        "&gt;"@
    } else if c == '"' {
        "&quot;"@
    } else {
        seq![c]
    }
}

/// A text as XML text.
pub open spec fn xml_escaped(s: Seq<char>) -> Seq<char>
    decreases s.len(),
{
    if s.len() == 0 {
        Seq::empty()
    } else {
        xml_escaped(s.drop_last()) + xml_char(s.last())
    }
}

/// The text as XML text.
pub fn xml_escape(s: &str) -> (r: String)
    ensures
        r@ == xml_escaped(s@),
{
    let v: Vec<char> = text::chars_of(s);
    let mut r: String = String::new();
    let mut i: usize = 0;
    while i < v.len()
        invariant
            i <= v@.len(),
            v@ == s@,
            r@ == xml_escaped(s@.take(i as int)),
        decreases v@.len() - i,
    {
        let ghost prior = r@;
        assert(s@.take(i + 1).drop_last() =~= s@.take(i as int));
        let c: char = v[i];
        if c == '&' {
            r.append("&amp;");
        } else if c == '<' {
            r.append("&lt;");
        } else if c == '>' {
            r.append("&gt;");
        } else if c == '"' {
            r.append("&quot;");
        } else {
            r.push(c);
        }
        assert(r@ =~= prior + xml_char(c));
        i += 1;
    }
    assert(s@.take(i as int) =~= s@);
    r
}

/// The property list up to the label.
pub const PLIST_HEAD: &'static str = "<?xml version=\"1.0\" encoding=\"UTF-8\"?>
<!DOCTYPE plist PUBLIC \"-//Apple//DTD PLIST 1.0//EN\" \"http://www.apple.com/DTDs/PropertyList-1.0.dtd\">
<plist version=\"1.0\">
<dict>
\t<key>Label</key>
\t<string>";

/// From the label to the program's path.
pub const PLIST_ARGUMENTS: &'static str = "</string>
\t<key>ProgramArguments</key>
\t<array>
\t\t<string>";

/// From the program's path to that of the log.
pub const PLIST_FLAGS: &'static str = "</string>
\t\t<string>--detach</string>
\t</array>
\t<key>RunAtLoad</key>
\t<true/>
\t<key>KeepAlive</key>
\t<false/>
\t<key>AbandonProcessGroup</key>
\t<true/>
\t<key>ProcessType</key>
\t<string>Interactive</string>
\t<key>LimitLoadToSessionType</key>
\t<string>Aqua</string>
\t<key>StandardOutPath</key>
\t<string>";

/// From the log's path to that of the error log.
pub const PLIST_ERROR_LOG: &'static str = "</string>
\t<key>StandardErrorPath</key>
\t<string>";

/// From the error log's path to the end.
pub const PLIST_TAIL: &'static str = "</string>
</dict>
</plist>
";

/// The path of the log in the property list; a null device where there is no
/// path.
pub open spec fn plist_log(log: Option<Seq<char>>) -> Seq<char> {
    match log {
        Some(p) => xml_escaped(p),
        None => "/dev/null"@,
    }
}

/// The property list that starts the program at login, detached, with its
/// output in the log.
pub open spec fn plist_text(program: Seq<char>, log: Option<Seq<char>>) -> Seq<char> {
    PLIST_HEAD@ + AGENT_LABEL@ + PLIST_ARGUMENTS@ + xml_escaped(program) + PLIST_FLAGS@
        + plist_log(log) + PLIST_ERROR_LOG@ + plist_log(log) + PLIST_TAIL@
}

/// The property list that starts the program at login.
pub fn launch_agent_plist_xml(program: &str, log: Option<&str>) -> (r: String)
    ensures
        r@ == plist_text(program@, log.deep_view()),
{
    let log_xml: String = match log {
        Some(p) => xml_escape(p),
        None => "/dev/null".to_owned(),
    };
    let mut r: String = PLIST_HEAD.to_owned();
    r.append(AGENT_LABEL);
    r.append(PLIST_ARGUMENTS);
    r.append(xml_escape(program).as_str());
    r.append(PLIST_FLAGS);
    r.append(log_xml.as_str());
    r.append(PLIST_ERROR_LOG);
    r.append(log_xml.as_str());
    r.append(PLIST_TAIL);
    r
}

/// The character reference at the front of XML text and its length.
pub open spec fn xml_entity(s: Seq<char>) -> Option<(char, int)> {
    if text::stands_at(s, "&amp;"@, 0) {
        Some(('&', 5))
    } else if text::stands_at(s, "&lt;"@, 0) {
        Some(('<', 4))
    } else if text::stands_at(s, "&gt;"@, 0) {
        Some(('>', 4))
    } else if text::stands_at(s, "&quot;"@, 0) {
        Some(('"', 6))
    } else {
        None
    }
}

/// What XML text denotes; none where a reference is unknown.
pub open spec fn xml_read(s: Seq<char>) -> Option<Seq<char>>
    decreases s.len(),
{
    if s.len() == 0 {
        Some(Seq::empty())
    } else {
        let (c, k): (char, int) = if s[0] != '&' {
            (s[0], 1)
        } else {
            match xml_entity(s) {
                Some(e) => e,
                None => ('&', 0),
            }
        };
        if k <= 0 || k > s.len() {
            None
        } else {
            match xml_read(s.skip(k)) {
                Some(rest) => Some(seq![c] + rest),
                None => None,
            }
        }
    }
}

/// The references, letter by letter.
proof fn lemma_entities()
    ensures
        "&amp;"@ == seq!['&', 'a', 'm', 'p', ';'],
        "&lt;"@ == seq!['&', 'l', 't', ';'],
        "&gt;"@ == seq!['&', 'g', 't', ';'],
        "&quot;"@ == seq!['&', 'q', 'u', 'o', 't', ';'],
{
    reveal_strlit("&amp;");
    reveal_strlit("&lt;");
    reveal_strlit("&gt;");
    reveal_strlit("&quot;");
    assert("&amp;"@ =~= seq!['&', 'a', 'm', 'p', ';']);
    assert("&lt;"@ =~= seq!['&', 'l', 't', ';']);
    assert("&gt;"@ =~= seq!['&', 'g', 't', ';']);
    assert("&quot;"@ =~= seq!['&', 'q', 'u', 'o', 't', ';']);
}

/// A text that begins with another one still does when more follows.
proof fn lemma_stands_longer(s: Seq<char>, more: Seq<char>, w: Seq<char>)
    requires
        text::stands_at(s, w, 0),
    ensures
        text::stands_at(s + more, w, 0),
{
    assert((s + more).subrange(0, w.len() as int) =~= s.subrange(0, w.len() as int));
}

/// A reference at the front is the same when more follows.
proof fn lemma_entity_stable(s: Seq<char>, more: Seq<char>)
    requires
        xml_entity(s) is Some,
    ensures
        xml_entity(s + more) == xml_entity(s),
        xml_entity(s)->Some_0.1 <= s.len(),
{
    lemma_entities();
    let t = s + more;
    let names = seq!["&amp;"@, "&lt;"@, "&gt;"@, "&quot;"@];
    assert forall|i: int| 0 <= i < 4 && text::stands_at(s, #[trigger] names[i], 0) implies t[1]
        == names[i][1] && text::stands_at(t, names[i], 0) by {
        let w = names[i];
        lemma_stands_longer(s, more, w);
        assert(s.subrange(0, w.len() as int)[1] == w[1]);
        assert(s[1] == w[1]);
    }
    assert forall|i: int| 0 <= i < 4 && text::stands_at(t, #[trigger] names[i], 0) implies t[1]
        == names[i][1] by {
        let w = names[i];
        assert(t.subrange(0, w.len() as int)[1] == w[1]);
    }
    assert(names[0][1] == 'a' && names[1][1] == 'l' && names[2][1] == 'g' && names[3][1] == 'q');
}

/// Appending what stands for one character.
proof fn lemma_xml_append(s: Seq<char>, c: char)
    requires
        xml_read(s) is Some,
    ensures
        xml_read(s + xml_char(c)) == Some(xml_read(s)->Some_0.push(c)),
    decreases s.len(),
{
    lemma_entities();
    let e = xml_char(c);
    let t = s + e;
    if s.len() == 0 {
        assert(t =~= e);
        assert(xml_read(Seq::<char>::empty()) == Some(Seq::<char>::empty()));
        if c == '&' || c == '<' || c == '>' || c == '"' {
            assert(e.subrange(0, e.len() as int) =~= e);
            if c != '&' && text::stands_at(e, "&amp;"@, 0) {
                assert(e.subrange(0, 5)[1] == e[1]);
            }
            if c != '<' && text::stands_at(e, "&lt;"@, 0) {
                assert(e.subrange(0, 4)[1] == e[1]);
            }
            if c != '>' && text::stands_at(e, "&gt;"@, 0) {
                assert(e.subrange(0, 4)[1] == e[1]);
            }
            assert(xml_entity(e) == Some((c, e.len() as int)));
        }
        assert(e.skip(e.len() as int) =~= Seq::empty());
        assert(seq![c] + Seq::<char>::empty() =~= Seq::<char>::empty().push(c));
    } else {
        assert(t[0] == s[0]);
        if s[0] == '&' {
            lemma_entity_stable(s, e);
        }
        let k: int = if s[0] != '&' {
            1
        } else {
            xml_entity(s)->Some_0.1
        };
        lemma_xml_append(s.skip(k), c);
        assert(t.skip(k) =~= s.skip(k) + e);
        let first: char = if s[0] != '&' {
            s[0]
        } else {
            xml_entity(s)->Some_0.0
        };
        let rest = xml_read(s.skip(k))->Some_0;
        assert(seq![first] + rest.push(c) =~= (seq![first] + rest).push(c));
    }
}

/// A text reads back from its XML form.
pub proof fn law_xml_reads_back(s: Seq<char>)
    ensures
        xml_read(xml_escaped(s)) == Some(s),
    decreases s.len(),
{
    if s.len() > 0 {
        law_xml_reads_back(s.drop_last());
        lemma_xml_append(xml_escaped(s.drop_last()), s.last());
        assert(s.drop_last().push(s.last()) =~= s);
    } else {
        assert(s =~= Seq::empty());
    }
}

/// The XML form of a text holds no markup and no quote.
pub proof fn law_xml_no_markup(s: Seq<char>)
    ensures
        forall|i: int|
            0 <= i < xml_escaped(s).len() ==> #[trigger] xml_escaped(s)[i] != '<' && xml_escaped(
                s,
            )[i] != '>' && xml_escaped(s)[i] != '"',
    decreases s.len(),
{
    lemma_entities();
    if s.len() > 0 {
        law_xml_no_markup(s.drop_last());
        let front = xml_escaped(s.drop_last());
        let last = xml_char(s.last());
        assert forall|i: int| 0 <= i < xml_escaped(s).len() implies #[trigger] xml_escaped(s)[i]
            != '<' && xml_escaped(s)[i] != '>' && xml_escaped(s)[i] != '"' by {
            if i < front.len() {
                assert(xml_escaped(s)[i] == front[i]);
            } else {
                assert(xml_escaped(s)[i] == last[i - front.len()]);
            }
        }
    }
}

// ── What the answers come to ────────────────────────────────────────────────

/// The service's numbers: 0 to 3 each have their status, and any other is
/// unknown.
pub proof fn law_raw_status(v: int)
    ensures
        LoginItemStatus::of_raw(v) == LoginItemStatus::NotRegistered <==> v == 0,
        LoginItemStatus::of_raw(v) == LoginItemStatus::Enabled <==> v == 1,
        LoginItemStatus::of_raw(v) == LoginItemStatus::RequiresApproval <==> v == 2,
        LoginItemStatus::of_raw(v) == LoginItemStatus::NotFound <==> v == 3,
        LoginItemStatus::of_raw(v) == LoginItemStatus::Unknown <==> !(0 <= v <= 3),
{
}

/// No two statuses read alike.
pub proof fn law_descriptions_differ(a: LoginItemStatus, b: LoginItemStatus)
    ensures
        a.description() == b.description() ==> a == b,
{
    reveal_strlit("not registered");
    reveal_strlit("enabled");
    reveal_strlit("requires approval in System Settings");
    reveal_strlit("app not found (install .app to Applications)");
    reveal_strlit("unknown");
    assert("enabled"@[0] == 'e' && "unknown"@[0] == 'u');
    assert("not registered"@.len() == 14 && "enabled"@.len() == 7 && "unknown"@.len() == 7);
    assert("requires approval in System Settings"@.len() == 36);
    assert("app not found (install .app to Applications)"@.len() == 44);
}

/// Launch at login is on where the service or the LaunchAgent has it; that the
/// service waits for approval is told before the LaunchAgent is looked at, and
/// without either the service's own status stands.
pub proof fn law_status(service: Option<LoginItemStatus>, agent_enabled: bool)
    ensures
        service == Some(LoginItemStatus::RequiresApproval) ==> combined_status(
            service,
            agent_enabled,
        ) == LoginItemStatus::RequiresApproval,
        service != Some(LoginItemStatus::RequiresApproval) ==> (combined_status(
            service,
            agent_enabled,
        ) == LoginItemStatus::Enabled <==> agent_enabled || service == Some(
            LoginItemStatus::Enabled,
        )),
        !agent_enabled && service is Some ==> combined_status(service, agent_enabled)
            == service->Some_0,
        !agent_enabled && service is None ==> combined_status(service, agent_enabled)
            == LoginItemStatus::NotRegistered,
{
}

/// Where the service takes the application, its answer stands, whatever became
/// of the LaunchAgent; where it does not, the LaunchAgent decides.
pub proof fn law_enable(
    service: Result<LoginItemStatus, Seq<char>>,
    agent: Result<(), Seq<char>>,
)
    ensures
        service == Ok::<LoginItemStatus, Seq<char>>(LoginItemStatus::Enabled) || service == Ok::<
            LoginItemStatus,
            Seq<char>,
        >(LoginItemStatus::RequiresApproval) ==> service_suffices(service) && enable_outcome(
            service,
            agent,
        ) == service,
        service != Ok::<LoginItemStatus, Seq<char>>(LoginItemStatus::Enabled) && service != Ok::<
            LoginItemStatus,
            Seq<char>,
        >(LoginItemStatus::RequiresApproval) ==> !service_suffices(service) && (agent is Ok
            ==> enable_outcome(service, agent) == Ok::<LoginItemStatus, Seq<char>>(
            LoginItemStatus::Enabled,
        )) && (agent matches Err(e) ==> enable_outcome(service, agent) == Err::<
            LoginItemStatus,
            Seq<char>,
        >(e)),
{
}

/// Turning it off fails exactly where it is still on afterwards. The error then
/// tells what the LaunchAgent said, and what the service said where there is
/// one.
pub proof fn law_disable(
    service: Result<LoginItemStatus, Seq<char>>,
    service_available: bool,
    agent: Result<(), Seq<char>>,
    after: LoginItemStatus,
)
    ensures
        ({
            let r = disable_outcome(service, service_available, agent, after);
            &&& r is Ok <==> after != LoginItemStatus::Enabled
            &&& r is Ok ==> r->Ok_0 == after
            &&& r is Err && agent is Err ==> text::occurs_in(agent->Err_0, r->Err_0)
            &&& r is Err && service is Err && service_available ==> text::occurs_in(
                service->Err_0,
                r->Err_0,
            )
            &&& r is Err && agent is Ok && (service is Ok || !service_available) ==> r->Err_0
                == "failed to disable launch at login"@
            &&& r is Err && agent is Err && (service is Ok || !service_available) ==> r->Err_0
                == agent->Err_0
        }),
{
    let none = Seq::<char>::empty();
    let errors = disable_errors(service, service_available, agent);
    reveal_with_fuel(text::joined, 3);
    if errors.len() == 1 {
        let e = errors[0];
        assert(errors =~= seq![e]);
        text::law_part_occurs(none, e, none);
        assert(none + e + none =~= e);
        assert(text::joined(errors, "; "@) =~= e);
    }
    if errors.len() == 2 {
        let (a, b) = (errors[0], errors[1]);
        assert(errors.drop_last() =~= seq![a]);
        assert(text::joined(seq![a], "; "@) =~= a);
        assert(text::joined(errors, "; "@) =~= a + "; "@ + b);
        text::law_part_occurs(none, a, "; "@ + b);
        assert(none + a + ("; "@ + b) =~= a + "; "@ + b);
        text::law_part_occurs(a + "; "@, b, none);
        assert(a + "; "@ + b + none =~= a + "; "@ + b);
    }
}

/// A request to the service succeeds exactly where there is a service that
/// knows the request and carried it out, and then the status is the one it
/// tells. Its own error is told where it has one, and otherwise the request and
/// the status.
pub proof fn law_service_reply(reply: Option<ServiceReply>, verb: Seq<char>)
    ensures
        service_outcome(reply, verb) is Ok <==> (reply is Some && reply->Some_0.supported
            && reply->Some_0.ok),
        service_outcome(reply, verb) matches Ok(s) ==> s == reply->Some_0.status,
        reply is None ==> service_outcome(reply, verb) == Err::<LoginItemStatus, Seq<char>>(
            "SMAppService unavailable"@,
        ),
        reply matches Some(r) ==> (r.supported && !r.ok && r.error is Some ==> service_outcome(
            reply,
            verb,
        ) == Err::<LoginItemStatus, Seq<char>>(r.error->Some_0@)),
        reply is Some && service_outcome(reply, verb) is Err && reply->Some_0.error is None
            ==> text::occurs_in(verb, service_outcome(reply, verb)->Err_0),
        reply matches Some(r) ==> (r.supported && !r.ok && r.error is None ==> text::occurs_in(
            r.status.description(),
            service_outcome(reply, verb)->Err_0,
        )),
{
    if let Some(r) = reply {
        let d = r.status.description();
        let none = Seq::<char>::empty();
        text::law_part_occurs("SMAppService "@, verb, " API unavailable"@);
        let whole = verb + " failed (status="@ + d + ")"@;
        text::law_part_occurs(none, verb, " failed (status="@ + d + ")"@);
        assert(none + verb + (" failed (status="@ + d + ")"@) =~= whole);
        text::law_part_occurs(verb + " failed (status="@, d, ")"@);
    }
}

/// The user's domain ends in the user's number, and the service is the label
/// in that domain.
pub proof fn law_targets(uid: u32)
    ensures
        domain_target(uid) == "gui/"@ + numbers::decimal(uid as nat),
        service_target(uid) == domain_target(uid) + "/"@ + "com.clippin.app"@,
{
}

/// XML text is written character by character: the four characters that have a
/// meaning of their own as references, and any other as it is.
pub proof fn law_xml_one_more(s: Seq<char>, c: char)
    ensures
        c == '&' ==> xml_escaped(s.push(c)) == xml_escaped(s) + "&amp;"@,
        c == '<' ==> xml_escaped(s.push(c)) == xml_escaped(s) + "&lt;"@,
        c == '>' ==> xml_escaped(s.push(c)) == xml_escaped(s) + "&gt;"@,
        c == '"' ==> xml_escaped(s.push(c)) == xml_escaped(s) + "&quot;"@,
        c != '&' && c != '<' && c != '>' && c != '"' ==> xml_escaped(s.push(c)) == xml_escaped(
            s,
        ).push(c),
        xml_escaped(Seq::empty()) == Seq::<char>::empty(),
{
    assert(s.push(c).drop_last() =~= s);
    assert(xml_escaped(s) + seq![c] =~= xml_escaped(s).push(c));
}

/// The property list names the label, then the program with what follows it,
/// and twice the log, each path as XML text; without a log the output goes to
/// the null device.
pub proof fn law_plist(program: Seq<char>, log: Option<Seq<char>>)
    ensures
        ({
            let out = match log {
                Some(p) => xml_escaped(p),
                None => "/dev/null"@,
            };
            let t = plist_text(program, log);
            &&& text::stands_at(t, PLIST_HEAD@ + "com.clippin.app"@ + PLIST_ARGUMENTS@, 0)
            &&& text::occurs_in(PLIST_ARGUMENTS@ + xml_escaped(program) + PLIST_FLAGS@, t)
            &&& text::occurs_in(PLIST_FLAGS@ + out + PLIST_ERROR_LOG@ + out + PLIST_TAIL@, t)
        }),
{
    let out = plist_log(log);
    let p = xml_escaped(program);
    let start = PLIST_HEAD@ + AGENT_LABEL@ + PLIST_ARGUMENTS@;
    let end = out + PLIST_ERROR_LOG@ + out + PLIST_TAIL@;
    let t = plist_text(program, log);
    assert(t == start + p + PLIST_FLAGS@ + end) by {
        lemma_regroup(start + p + PLIST_FLAGS@, out, PLIST_ERROR_LOG@, out, PLIST_TAIL@);
    }
    lemma_front(start, p, PLIST_FLAGS@, end);
    lemma_middle(PLIST_HEAD@ + AGENT_LABEL@, PLIST_ARGUMENTS@, p, PLIST_FLAGS@, end);
    lemma_end(start + p, PLIST_FLAGS@, end);
    lemma_regroup(PLIST_FLAGS@, out, PLIST_ERROR_LOG@, out, PLIST_TAIL@);
}

/// Texts one behind the other, the first apart or not.
proof fn lemma_regroup(a: Seq<char>, b: Seq<char>, c: Seq<char>, d: Seq<char>, e: Seq<char>)
    ensures
        a + b + c + d + e == a + (b + c + d + e),
{
    assert(a + b + c + d + e =~= a + (b + c + d + e));
}

/// A text of four begins with the first.
proof fn lemma_front(a: Seq<char>, b: Seq<char>, c: Seq<char>, d: Seq<char>)
    ensures
        text::stands_at(a + b + c + d, a, 0),
{
    assert((a + b + c + d).subrange(0, a.len() as int) =~= a);
}

/// Three of five texts occur together.
proof fn lemma_middle(a: Seq<char>, b: Seq<char>, c: Seq<char>, d: Seq<char>, e: Seq<char>)
    ensures
        text::occurs_in(b + c + d, a + b + c + d + e),
{
    text::law_part_occurs(a, b + c + d, e);
    assert(a + (b + c + d) + e =~= a + b + c + d + e);
}

/// The last two of three texts occur together.
proof fn lemma_end(a: Seq<char>, b: Seq<char>, c: Seq<char>)
    ensures
        text::occurs_in(b + c, a + b + c),
{
    text::law_part_occurs(a, b + c, Seq::empty());
    assert(a + (b + c) + Seq::<char>::empty() =~= a + b + c);
}

/// An outcome keeps its value, and its error letter by letter.
pub proof fn law_outcome(r: Result<LoginItemStatus, String>)
    ensures
        r matches Ok(v) ==> outcome(r) == Ok::<LoginItemStatus, Seq<char>>(v),
        r matches Err(e) ==> outcome(r) == Err::<LoginItemStatus, Seq<char>>(e@),
{
}

} // verus!
