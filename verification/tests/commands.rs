use minipot::commands::bot::{bot_message, BotAction};
use minipot::commands::init::{gitignore_update, has_entry_line_exec};
use minipot::commands::remove::confirms_removal;
use minipot::commands::run::{
    after_exit, java_command, java_launch_args, jdwp_agent_arg, startup_already_run, startup_notice,
    ConsoleWatch, ExitDecision,
};
use minipot::commands::stop::{parse_pid, pid_file_contents};
use minipot::commands::sync::{
    find_latest_jar, find_latest_jar_any, is_jar_file_name, plugin_name_from_lines,
    same_plugin_name, FileStamp,
};
use minipot::commands::update::{asset_name, strip_v, update_plan, UpdatePlan};
use minipot::config::MinipotConfig;
use minipot::jbr::HostOs;

fn s(x: &str) -> String {
    x.to_string()
}

#[test]
fn config_defaults() {
    let c = MinipotConfig::default();
    assert_eq!(c.server.version, "1.21.4");
    assert_eq!(c.server.server_type, "paper");
    assert_eq!(c.server.port, 25565);
    assert_eq!(c.server.jvm_flags, vec![s("-Xms512M"), s("-Xmx2G"), s("-XX:+UseG1GC")]);
    assert!(c.server.plugins.is_empty() && c.server.startup_commands.is_empty() && c.bots.is_empty());
    assert_eq!(c.server_dir(), "minipot-server");
    assert!(c.has_server_version());
    let mut blank = MinipotConfig::default();
    blank.server.version = s("  ");
    assert!(!blank.has_server_version());
}

#[test]
fn bot_messages() {
    assert_eq!(bot_message(&BotAction::Spawn { name: s("tester") }), "Spawning bot 'tester'... [not yet implemented]");
    assert_eq!(bot_message(&BotAction::List), "Active bots: [not yet implemented]");
    assert_eq!(bot_message(&BotAction::Stop { name: s("b") }), "Stopping bot 'b'... [not yet implemented]");
}

#[test]
fn removal_confirmation() {
    assert!(confirms_removal("y\n"));
    assert!(confirms_removal("  Y "));
    assert!(!confirms_removal("yes"));
    assert!(!confirms_removal(""));
}

#[test]
fn pid_file_round_trip() {
    for pid in [0u32, 1, 4242, u32::MAX] {
        assert_eq!(parse_pid(&pid_file_contents(pid)).ok(), Some(pid));
    }
    assert_eq!(parse_pid(" 77\n").ok(), Some(77));
    let err = parse_pid("abc").err().unwrap();
    assert_eq!(err.raw, "abc");
}

#[test]
fn gitignore_gets_the_entry_once() {
    let updated = gitignore_update("target/").unwrap();
    assert_eq!(
        updated,
        "target/\n\n# minipot — generated server environment (not committed)\nminipot-server/\n"
    );
    assert!(gitignore_update(&updated).is_none());
    assert_eq!(
        gitignore_update("").unwrap(),
        "\n# minipot — generated server environment (not committed)\nminipot-server/\n"
    );
    assert!(gitignore_update("a\r\n  minipot-server/ \r\nb").is_none());
    assert!(has_entry_line_exec("x\nminipot-server/", "minipot-server/"));
    assert!(!has_entry_line_exec("xminipot-server/", "minipot-server/"));
}

#[test]
fn launch_arguments() {
    let flags = vec![s("-Xmx2G")];
    assert_eq!(java_launch_args(&flags, false, 5005), vec![s("-Xmx2G"), s("-jar"), s("paper.jar"), s("nogui")]);
    assert_eq!(
        java_launch_args(&flags, true, 5005),
        vec![
            s("-Xmx2G"),
            s("-XX:+AllowEnhancedClassRedefinition"),
            s("-agentlib:jdwp=transport=dt_socket,server=n,suspend=n,address=localhost:5005"),
            s("-jar"),
            s("paper.jar"),
            s("nogui")
        ]
    );
    assert_eq!(jdwp_agent_arg(1), "-agentlib:jdwp=transport=dt_socket,server=n,suspend=n,address=localhost:1");
    assert_eq!(java_command(&None), "java");
    assert_eq!(java_command(&Some(s("/j/bin/java"))), "/j/bin/java");
}

#[test]
fn startup_commands_run_once_per_session() {
    assert!(startup_already_run(true, false));
    assert!(!startup_already_run(true, true));
    assert!(!startup_already_run(false, false));
    assert_eq!(startup_notice(0, false), None);
    assert_eq!(startup_notice(1, false), Some(s("[Minipot] 1 startup command will run when the server is ready.")));
    assert_eq!(startup_notice(3, false), Some(s("[Minipot] 3 startup commands will run when the server is ready.")));
    assert!(startup_notice(3, true).unwrap().contains("skipped"));
    let mut w = ConsoleWatch::new();
    let lines = ["[Server] Loading", "[12:00:00 INFO]: Done (3.2s)! For help", "[12:00:01 INFO]: Done (again)"];
    let sent: Vec<bool> = lines.iter().map(|l| w.on_line(l, true)).collect();
    assert_eq!(sent, vec![false, true, false]);
    let mut quiet = ConsoleWatch::new();
    assert!(!quiet.on_line("[12:00:00 INFO]: Done (3.2s)!", false));
    assert!(quiet.commands_sent);
}

#[test]
fn exit_decisions() {
    assert!(matches!(after_exit(true, false), ExitDecision::Restart));
    assert!(matches!(after_exit(false, true), ExitDecision::Finish));
    assert!(matches!(after_exit(false, false), ExitDecision::Failed));
}

fn stamp(name: &str, t: i128) -> FileStamp {
    FileStamp { path: format!("build/libs/{name}"), file_name: s(name), modified: t }
}

#[test]
fn latest_jar_selection() {
    assert!(is_jar_file_name("a.jar"));
    assert!(!is_jar_file_name(".jar"));
    assert!(is_jar_file_name("..jar"));
    assert!(!is_jar_file_name("a.jar.bak"));
    let es = vec![stamp("a.jar", 5), stamp("b.txt", 9), stamp("c.jar", 5), stamp("d.jar", 1)];
    assert_eq!(find_latest_jar(&es), Some(2));
    assert_eq!(find_latest_jar(&vec![stamp("x.txt", 1)]), None);
    let dirs = vec![vec![stamp("a.jar", 7)], vec![], vec![stamp("m.jar", 7), stamp("n.jar", 2)]];
    assert_eq!(find_latest_jar_any(&dirs), Some((2, 0)));
    assert_eq!(find_latest_jar_any(&vec![vec![], vec![stamp("x", 1)]]), None);
}

#[test]
fn plugin_yml_name() {
    let lines = vec![s("main: a.B"), s("Name: \"MyPlugin\""), s("name: Other")];
    assert_eq!(plugin_name_from_lines(&lines), Some(s("MyPlugin")));
    let quoted = vec![s("name: ''"), s("NAME: 'Vault' ")];
    assert_eq!(plugin_name_from_lines(&quoted), Some(s("Vault")));
    assert_eq!(plugin_name_from_lines(&vec![s("version: 1")]), None);
    assert!(same_plugin_name("Vault", "vault"));
    assert!(!same_plugin_name("Vault", "Vault2"));
}

#[test]
fn update_plans() {
    let assets = vec![s("minipot-x86_64-pc-windows-gnu.exe"), s("minipot-x86_64-unknown-linux-gnu")];
    assert_eq!(strip_v("v1.2.3"), "1.2.3");
    assert_eq!(strip_v("1.2.3"), "1.2.3");
    assert_eq!(asset_name(HostOs::Unix), "minipot-x86_64-unknown-linux-gnu");
    assert!(matches!(update_plan("v0.3.0", "0.3.0", &assets, HostOs::Unix), UpdatePlan::UpToDate { .. }));
    assert!(matches!(update_plan("v0.4.0", "0.3.0", &assets, HostOs::Unix), UpdatePlan::Install { asset: 1, .. }));
    assert!(matches!(update_plan("v0.4.0", "0.3.0", &assets, HostOs::Windows), UpdatePlan::Install { asset: 0, .. }));
    assert!(matches!(update_plan("v0.4.0", "0.3.0", &vec![], HostOs::Unix), UpdatePlan::MissingAsset { .. }));
}
