use clippin::launch::{
    agent_action, agent_plist_path, disable, domain_name, enable, launch_agent_is_enabled,
    launch_agent_log_path, launch_agent_plist_xml, read_status, service_accessor, service_name,
    set_enabled, sm_disable, sm_enable, status, xml_escape, AgentAction, LoginItemStatus,
    LoginRequest, ServiceAccessor, ServiceReply,
};
use clippin::launch_agent::{
    begin_install, bootout_warning, disable_launch_agent, enable_launch_agent, if_empty,
    launchctl_arguments, InstallNext, InstallStep, ProgramPath, RemoveNext, RemoveStep, StepReply,
};

const ALL: [LoginItemStatus; 5] = [
    LoginItemStatus::NotRegistered,
    LoginItemStatus::Enabled,
    LoginItemStatus::RequiresApproval,
    LoginItemStatus::NotFound,
    LoginItemStatus::Unknown,
];

#[test]
fn raw_statuses() {
    for (i, s) in ALL.iter().enumerate() {
        assert_eq!(LoginItemStatus::from_raw(i as isize), *s);
    }
    assert_eq!(LoginItemStatus::from_raw(-1), LoginItemStatus::Unknown);
    assert_eq!(read_status(Some(1)), LoginItemStatus::Enabled);
    assert_eq!(read_status(None), LoginItemStatus::Unknown);
    assert!(LoginItemStatus::Enabled.is_enabled() && !LoginItemStatus::RequiresApproval.is_enabled());
    let words: Vec<&str> = ALL.iter().map(|s| s.describe()).collect();
    assert_eq!(
        words,
        vec![
            "not registered",
            "enabled",
            "requires approval in System Settings",
            "app not found (install .app to Applications)",
            "unknown"
        ]
    );
}

#[test]
fn status_combines_both_mechanisms() {
    assert_eq!(status(None, true), LoginItemStatus::Enabled);
    assert_eq!(status(None, false), LoginItemStatus::NotRegistered);
    assert_eq!(
        status(Some(LoginItemStatus::RequiresApproval), true),
        LoginItemStatus::RequiresApproval
    );
    assert_eq!(status(Some(LoginItemStatus::NotFound), true), LoginItemStatus::Enabled);
    assert_eq!(status(Some(LoginItemStatus::NotFound), false), LoginItemStatus::NotFound);
    assert!(launch_agent_is_enabled(true, true));
    assert!(!launch_agent_is_enabled(false, true) && !launch_agent_is_enabled(true, false));
}

#[test]
fn enabling_falls_back_to_the_agent() {
    let taken = Ok(LoginItemStatus::RequiresApproval);
    assert_eq!(agent_action(&taken), AgentAction::Remove);
    assert_eq!(enable(taken, Err("x".into())), Ok(LoginItemStatus::RequiresApproval));
    for refused in [Ok(LoginItemStatus::NotFound), Err("no".to_string())] {
        assert_eq!(agent_action(&refused), AgentAction::Install);
        assert_eq!(enable(refused.clone(), Ok(())), Ok(LoginItemStatus::Enabled));
        assert_eq!(enable(refused, Err("disk".into())), Err("disk".to_string()));
    }
    assert_eq!(set_enabled(true), LoginRequest::Enable);
    assert_eq!(set_enabled(false), LoginRequest::Disable);
}

#[test]
fn disabling_fails_only_while_still_on() {
    let off = LoginItemStatus::NotRegistered;
    let on = LoginItemStatus::Enabled;
    assert_eq!(disable(Err("a".into()), true, Err("b".into()), off), Ok(off));
    assert_eq!(disable(Err("a".into()), true, Err("b".into()), on), Err("a; b".to_string()));
    assert_eq!(disable(Err("a".into()), false, Err("b".into()), on), Err("b".to_string()));
    assert_eq!(
        disable(Ok(off), true, Ok(()), on),
        Err("failed to disable launch at login".to_string())
    );
}

#[test]
fn answers_of_the_service() {
    let reply = |supported, ok, error: Option<&str>| {
        Some(ServiceReply {
            supported,
            ok,
            error: error.map(|s| s.to_string()),
            status: LoginItemStatus::NotFound,
        })
    };
    assert_eq!(sm_enable(None), Err("SMAppService unavailable".to_string()));
    assert_eq!(
        sm_enable(reply(false, true, None)),
        Err("SMAppService register API unavailable".to_string())
    );
    assert_eq!(sm_enable(reply(true, true, None)), Ok(LoginItemStatus::NotFound));
    assert_eq!(sm_enable(reply(true, false, Some("denied"))), Err("denied".to_string()));
    assert_eq!(
        sm_disable(reply(true, false, None)),
        Err("unregister failed (status=app not found (install .app to Applications))".to_string())
    );
    assert_eq!(
        sm_disable(reply(false, false, None)),
        Err("SMAppService unregister API unavailable".to_string())
    );
    assert_eq!(service_accessor(true, true), Some(ServiceAccessor::MainAppService));
    assert_eq!(service_accessor(false, true), Some(ServiceAccessor::MainApp));
    assert_eq!(service_accessor(false, false), None);
}

#[test]
fn names_and_paths() {
    assert_eq!(domain_name(501), "gui/501");
    assert_eq!(service_name(501), "gui/501/com.clippin.app");
    assert_eq!(
        agent_plist_path(true).unwrap().join("/"),
        "Library/LaunchAgents/com.clippin.app.plist"
    );
    assert_eq!(agent_plist_path(false), Err("could not resolve home directory".to_string()));
    assert_eq!(launch_agent_log_path(true).unwrap().join("/"), "Library/Logs/ClipPin/clippin.log");
    assert_eq!(launch_agent_log_path(false), None);
}

#[test]
fn property_list() {
    assert_eq!(xml_escape("a<b>&\"c\"'"), "a&lt;b&gt;&amp;&quot;c&quot;'");
    let xml = launch_agent_plist_xml("/Apps/A & B/clippin", Some("/Users/me/<log>"));
    assert_eq!(
        xml,
        "<?xml version=\"1.0\" encoding=\"UTF-8\"?>
<!DOCTYPE plist PUBLIC \"-//Apple//DTD PLIST 1.0//EN\" \"http://www.apple.com/DTDs/PropertyList-1.0.dtd\">
<plist version=\"1.0\">
<dict>
\t<key>Label</key>
\t<string>com.clippin.app</string>
\t<key>ProgramArguments</key>
\t<array>
\t\t<string>/Apps/A &amp; B/clippin</string>
\t\t<string>--detach</string>
\t</array>
\t<key>RunAtLoad</key>
\t<true/>
\t<key>KeepAlive</key>
\t<false/>
\t<key>AbandonProcessGroup</key>
\t<true/>
\t<key>ProcessType</key>
\t<string>Interactive</string>
\t<key>LimitLoadToSessionType</key>
\t<string>Aqua</string>
\t<key>StandardOutPath</key>
\t<string>/Users/me/&lt;log&gt;</string>
\t<key>StandardErrorPath</key>
\t<string>/Users/me/&lt;log&gt;</string>
</dict>
</plist>
"
    );
    let xml = launch_agent_plist_xml("/x", None);
    assert_eq!(xml.matches("<string>/dev/null</string>").count(), 2);
}

fn failed(next: InstallNext) -> String {
    match next {
        InstallNext::Finished(Err(e)) => e,
        other => panic!("{:?}", other),
    }
}

fn output(success: bool, stderr: &str) -> StepReply {
    StepReply::Output { success, stderr: stderr.to_string() }
}

#[test]
fn installation_runs_through() {
    let mut next = begin_install(&ProgramPath::Known("/x".into()), true);
    let mut steps = Vec::new();
    loop {
        match next {
            InstallNext::Perform(step) => {
                steps.push(step);
                next = enable_launch_agent(step, &output(true, ""), true);
            }
            InstallNext::Finished(r) => {
                assert_eq!(r, Ok(()));
                break;
            }
        }
    }
    assert_eq!(
        steps,
        vec![
            InstallStep::CreateAgentFolder,
            InstallStep::CreateLogFolder,
            InstallStep::WritePlist,
            InstallStep::Bootout,
            InstallStep::Bootstrap,
            InstallStep::Enable
        ]
    );
}

#[test]
fn installation_failures() {
    let io = StepReply::Failed("io".into());
    assert_eq!(
        failed(begin_install(&ProgramPath::Unknown("e".into()), true)),
        "current_exe: e"
    );
    assert_eq!(
        failed(begin_install(&ProgramPath::NotText, true)),
        "executable path is not UTF-8"
    );
    assert_eq!(
        failed(begin_install(&ProgramPath::Known("/x".into()), false)),
        "could not resolve home directory"
    );
    assert_eq!(
        failed(enable_launch_agent(InstallStep::CreateAgentFolder, &io, true)),
        "create LaunchAgents dir: io"
    );
    assert!(matches!(
        enable_launch_agent(InstallStep::CreateLogFolder, &io, true),
        InstallNext::Perform(InstallStep::WritePlist)
    ));
    assert_eq!(
        failed(enable_launch_agent(InstallStep::WritePlist, &io, true)),
        "write LaunchAgent plist: io"
    );
    assert!(matches!(
        enable_launch_agent(InstallStep::Bootout, &io, true),
        InstallNext::Perform(InstallStep::Bootstrap)
    ));
    assert_eq!(
        failed(enable_launch_agent(InstallStep::Bootout, &StepReply::Done, false)),
        "plist path is not UTF-8"
    );
    assert_eq!(
        failed(enable_launch_agent(InstallStep::Bootstrap, &io, true)),
        "launchctl bootstrap: io"
    );
    assert_eq!(
        failed(enable_launch_agent(InstallStep::Bootstrap, &output(false, " denied\n"), true)),
        "launchctl bootstrap failed: denied"
    );
    assert_eq!(
        failed(enable_launch_agent(InstallStep::Bootstrap, &output(false, " "), true)),
        "launchctl bootstrap failed: no stderr"
    );
    assert!(matches!(
        enable_launch_agent(
            InstallStep::Bootstrap,
            &output(false, "service already bootstrapped"),
            true
        ),
        InstallNext::Perform(InstallStep::Enable)
    ));
    assert!(matches!(
        enable_launch_agent(InstallStep::Enable, &io, true),
        InstallNext::Finished(Ok(()))
    ));
}

#[test]
fn control_program_arguments() {
    let args = |s| launchctl_arguments(s, 501, "/p").map(|v| v.join(" "));
    assert_eq!(args(InstallStep::Bootout).unwrap(), "bootout gui/501/com.clippin.app");
    assert_eq!(args(InstallStep::Bootstrap).unwrap(), "bootstrap gui/501 /p");
    assert_eq!(args(InstallStep::Enable).unwrap(), "enable gui/501/com.clippin.app");
    assert_eq!(args(InstallStep::WritePlist), None);
}

#[test]
fn removal_of_the_agent() {
    let io = StepReply::Failed("io".into());
    assert!(matches!(
        disable_launch_agent(RemoveStep::Bootout, &io, true),
        RemoveNext::Finished(Err(e)) if e == "launchctl bootout: io"
    ));
    assert!(matches!(
        disable_launch_agent(RemoveStep::Bootout, &output(false, "x"), true),
        RemoveNext::Perform(RemoveStep::DeletePlist)
    ));
    assert!(matches!(
        disable_launch_agent(RemoveStep::Bootout, &output(true, ""), false),
        RemoveNext::Finished(Ok(()))
    ));
    assert!(matches!(
        disable_launch_agent(RemoveStep::DeletePlist, &io, true),
        RemoveNext::Finished(Err(e)) if e == "remove LaunchAgent plist: io"
    ));
    assert!(matches!(
        disable_launch_agent(RemoveStep::DeletePlist, &StepReply::Done, true),
        RemoveNext::Finished(Ok(()))
    ));
}

#[test]
fn unloading_warns_of_other_failures_only() {
    assert_eq!(bootout_warning(&output(true, "x")), None);
    assert_eq!(bootout_warning(&output(false, "")), None);
    for s in ["No such process", "Could not find service", "not found", "No such file"] {
        assert_eq!(bootout_warning(&output(false, &format!("3: {}!", s))), None);
    }
    assert_eq!(
        bootout_warning(&output(false, " denied ")),
        Some("launchctl bootout: denied".to_string())
    );
    assert_eq!(bootout_warning(&StepReply::Done), None);
    assert_eq!(if_empty("", "x"), "x");
    assert_eq!(if_empty("y", "x"), "y");
}
