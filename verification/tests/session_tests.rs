use std::path::Path;
use apk_tools::adblog::{apks_file, badging_lines_usable, badging_package_activity, unzip_folder, Action, AdbLog, AdbLogConfig, Event};
use apk_tools::apkex::{Apkex, ApkexConfig, ExAction, ExEvent, KeyConfig};
use apk_tools::apkinfo::{ApkInfo, ApkInfoConfig, InfoAction, InfoEvent};
use apk_tools::cmdline::{Command, Program};

fn lines(ls: &[&str]) -> Vec<String> {
    ls.iter().map(|l| l.to_string()).collect()
}

fn config(cmd: &str, path: &str) -> AdbLogConfig {
    AdbLogConfig { cmd: cmd.to_string(), input: path.to_string(), windows: false }
}

fn run(a: Action) -> Command {
    match a {
        Action::Run(c) => c,
        _ => panic!("expected a command"),
    }
}

fn args(c: &Command) -> Vec<&str> {
    c.args.iter().map(|s| s.as_str()).collect()
}

fn finish(a: Action) -> Result<(), String> {
    match a {
        Action::Finish(r) => r,
        _ => panic!("expected the end"),
    }
}

const BADGING: [&str; 3] = [
    "package: name='com.example.app' versionCode='1'",
    "application-label:'Example'",
    "launchable-activity: name='com.example.app.Main'  label=''",
];

/// Drives a session from the start to the process search, one device, apk input.
fn to_start(cmd: &str) -> AdbLog {
    let mut s = AdbLog::new(config(cmd, "/w/app.apk"));
    let c = run(s.step(Event::Start));
    assert_eq!(args(&c), ["kill-server"]);
    let c = run(s.step(Event::Ran { ok: true, lines: vec![] }));
    assert_eq!(args(&c), ["devices"]);
    assert!(c.require_output);
    let c = run(s.step(Event::Ran {
        ok: true,
        lines: lines(&["List of devices attached", "dev1\tdevice", ""]),
    }));
    assert!(matches!(c.program, Program::Aapt2));
    assert_eq!(args(&c), ["dump", "badging", "/w/app.apk"]);
    let c = run(s.step(Event::Ran { ok: true, lines: lines(&BADGING) }));
    if cmd == "r" {
        assert_eq!(args(&c), ["-s", "dev1", "shell", "pm", "list", "packages"]);
        let c = run(s.step(Event::Ran { ok: true, lines: lines(&["package:com.example.app"]) }));
        assert_eq!(args(&c), ["-s", "dev1", "uninstall", "com.example.app"]);
        let c = run(s.step(Event::Ran { ok: true, lines: vec![] }));
        assert_eq!(args(&c), ["-s", "dev1", "install", "/w/app.apk"]);
    } else {
        assert_eq!(args(&c), ["-s", "dev1", "install", "/w/app.apk"]);
        assert_eq!(c.work, "install apk");
    }
    let c = run(s.step(Event::Ran { ok: true, lines: vec![] }));
    assert_eq!(args(&c), ["-s", "dev1", "shell", "am", "start", "-S", "com.example.app/com.example.app.Main"]);
    s
}

#[test]
fn install_start_and_follow_log() {
    let mut s = to_start("i");
    let c = run(s.step(Event::Ran { ok: true, lines: vec![] }));
    assert_eq!(args(&c), ["-s", "dev1", "shell", "ps", "|", "grep", "com.example.app"]);
    let c = run(s.step(Event::Ran { ok: true, lines: lines(&["root 1 0 init"]) }));
    assert_eq!(c.work, "query ps");
    match s.step(Event::Ran { ok: true, lines: lines(&["u0_a1 4321 1 com.example.app"]) }) {
        Action::FollowLog { device, needle } => {
            assert_eq!(device, "dev1");
            assert_eq!(needle, " 4321 ");
        }
        _ => panic!("expected the log"),
    }
    assert_eq!(finish(s.step(Event::Done)), Ok(()));
    assert_eq!(finish(s.step(Event::Done)), Ok(()));
}

#[test]
fn reinstall_removes_listed_package_first() {
    let mut s = to_start("r");
    let _ = run(s.step(Event::Ran { ok: true, lines: vec![] }));
    assert!(matches!(s.step(Event::Ran { ok: true, lines: lines(&["x 77 com.example.app"]) }), Action::FollowLog { .. }));
}

#[test]
fn reinstall_skips_uninstall_when_not_listed() {
    let mut s = AdbLog::new(config("r", "/w/app.apk"));
    let _ = s.step(Event::Start);
    let _ = s.step(Event::Ran { ok: true, lines: vec![] });
    let _ = s.step(Event::Ran { ok: true, lines: lines(&["dev1\tdevice"]) });
    let _ = s.step(Event::Ran { ok: true, lines: lines(&BADGING) });
    let c = run(s.step(Event::Ran { ok: true, lines: lines(&["package:com.other"]) }));
    assert_eq!(args(&c), ["-s", "dev1", "install", "/w/app.apk"]);
}

#[test]
fn watch_memory_repeats() {
    let mut s = to_start("mem");
    let _ = s.step(Event::Ran { ok: true, lines: vec![] });
    let c = run(s.step(Event::Ran { ok: true, lines: lines(&["u0 99 1 com.example.app"]) }));
    assert_eq!(args(&c), ["-s", "dev1", "shell", "dumpsys", "meminfo", "99"]);
    assert!(matches!(s.step(Event::Ran { ok: true, lines: vec![] }), Action::Wait));
    let c = run(s.step(Event::Done));
    assert_eq!(c.work, "dumpsys meminfo");
    assert_eq!(finish(s.step(Event::Ran { ok: false, lines: vec![] })), Err("adb dumpsys meminfo failed".to_string()));
}

#[test]
fn watch_cpu() {
    let mut s = to_start("cpu");
    let _ = s.step(Event::Ran { ok: true, lines: vec![] });
    let c = run(s.step(Event::Ran { ok: true, lines: lines(&["u0 5 1 com.example.app"]) }));
    assert_eq!(args(&c), ["-s", "dev1", "shell", "dumpsys", "cpuinfo", "|", "grep", "com.example.app"]);
}

#[test]
fn unknown_command_fails_after_start() {
    let mut s = to_start("x");
    let _ = s.step(Event::Ran { ok: true, lines: vec![] });
    assert_eq!(
        finish(s.step(Event::Ran { ok: true, lines: lines(&["u0 5 1 com.example.app"]) })),
        Err("unknown command".to_string())
    );
}

#[test]
fn pid_not_found_after_all_queries() {
    let mut s = to_start("i");
    let mut queries = 1;
    let mut a = s.step(Event::Ran { ok: true, lines: vec![] });
    loop {
        match a {
            Action::Run(_) => {
                queries += 1;
                a = s.step(Event::Ran { ok: false, lines: vec![] });
            }
            Action::Finish(r) => {
                assert_eq!(r, Err("get pid failed".to_string()));
                break;
            }
            _ => panic!("unexpected action"),
        }
    }
    assert_eq!(queries, 101);
}

#[test]
fn failures_end_the_session() {
    let mut s = AdbLog::new(config("i", "/w/app.apk"));
    let _ = s.step(Event::Start);
    assert_eq!(finish(s.step(Event::Ran { ok: false, lines: vec![] })), Err("adb kill-server failed".to_string()));
    let mut s = AdbLog::new(config("i", "/w/app.apk"));
    let _ = s.step(Event::Start);
    let _ = s.step(Event::Ran { ok: true, lines: vec![] });
    assert_eq!(finish(s.step(Event::Ran { ok: true, lines: lines(&["List of devices attached"]) })), Err("no device found".to_string()));
    let mut s = AdbLog::new(config("i", "/w/app.apk"));
    let _ = s.step(Event::Start);
    assert_eq!(finish(s.step(Event::Failed("spawn failed".to_string()))), Err("spawn failed".to_string()));
    assert_eq!(finish(s.step(Event::Start)), Err("spawn failed".to_string()));
}

#[test]
fn several_devices_are_offered() {
    let mut s = AdbLog::new(config("i", "/w/app.apk"));
    let _ = s.step(Event::Start);
    let _ = s.step(Event::Ran { ok: true, lines: vec![] });
    match s.step(Event::Ran { ok: true, lines: lines(&["a\tdevice", "b\tdevice"]) }) {
        Action::ChooseDevice(infos) => assert_eq!(infos, lines(&["a\tdevice", "b\tdevice"])),
        _ => panic!("expected a choice"),
    }
    let _ = s.step(Event::Chosen(1));
    let _ = s.step(Event::Ran { ok: true, lines: lines(&BADGING) });
    let c = run(s.step(Event::Ran { ok: true, lines: vec![] }));
    assert_eq!(args(&c)[1], "b");
}

#[test]
fn bundle_is_turned_into_apks_and_unpacked() {
    let mut s = AdbLog::new(config("i", "/w/app.aab"));
    let _ = s.step(Event::Start);
    let _ = s.step(Event::Ran { ok: true, lines: vec![] });
    match s.step(Event::Ran { ok: true, lines: lines(&["d\tdevice"]) }) {
        Action::RemoveFileIfPresent(p) => assert_eq!(p, "/w/app.apks"),
        _ => panic!("expected a removal"),
    }
    let c = run(s.step(Event::Done));
    assert!(matches!(c.program, Program::Java));
    assert_eq!(
        args(&c),
        ["-jar", "bundletool-all-1.16.0.jar", "build-apks", "--bundle=/w/app.aab", "--output=/w/app.apks"]
    );
    match s.step(Event::Ran { ok: true, lines: vec![] }) {
        Action::RecreateDir(p) => assert_eq!(p, "/w/app.unzip"),
        _ => panic!("expected a directory"),
    }
    match s.step(Event::Done) {
        Action::Extract { archive, entry, dest } => {
            assert_eq!(archive, "/w/app.apks");
            assert_eq!(entry, "splits/base-master.apk");
            assert_eq!(dest, "/w/app.unzip/base-master.apk");
        }
        _ => panic!("expected an extraction"),
    }
    let c = run(s.step(Event::Done));
    assert_eq!(args(&c), ["dump", "badging", "/w/app.unzip/base-master.apk"]);
    let c = run(s.step(Event::Ran { ok: true, lines: lines(&BADGING) }));
    assert_eq!(
        args(&c),
        ["-jar", "bundletool-all-1.16.0.jar", "install-apks", "--adb=adb", "--device-id=d", "--apks=/w/app.apks"]
    );
    assert_eq!(c.work, "install apks");
}

#[test]
fn input_without_extension_fails() {
    let mut s = AdbLog::new(config("i", "/w/app"));
    let _ = s.step(Event::Start);
    let _ = s.step(Event::Ran { ok: true, lines: vec![] });
    assert_eq!(finish(s.step(Event::Ran { ok: true, lines: lines(&["d\tdevice"]) })), Err("file_path no extension".to_string()));
}

#[test]
fn apks_input_installs_with_bundletool() {
    let mut s = AdbLog::new(config("i", "/w/app.apks"));
    let _ = s.step(Event::Start);
    let _ = s.step(Event::Ran { ok: true, lines: vec![] });
    match s.step(Event::Ran { ok: true, lines: lines(&["d\tdevice"]) }) {
        Action::RecreateDir(p) => assert_eq!(p, "/w/app.unzip"),
        _ => panic!("expected a directory"),
    }
    match s.step(Event::Done) {
        Action::Extract { archive, entry, dest } => {
            assert_eq!(archive, "/w/app.apks");
            assert_eq!(entry, "splits/base-master.apk");
            assert_eq!(dest, "/w/app.unzip/base-master.apk");
        }
        _ => panic!("expected an extraction"),
    }
    let _ = s.step(Event::Done);
    let c = run(s.step(Event::Ran { ok: true, lines: lines(&BADGING) }));
    assert!(matches!(c.program, Program::Java));
    assert_eq!(
        args(&c),
        ["-jar", "bundletool-all-1.16.0.jar", "install-apks", "--adb=adb", "--device-id=d", "--apks=/w/app.apks"]
    );
}

#[test]
fn dotted_bundle_name_keeps_its_stem() {
    let mut s = AdbLog::new(config("i", "/w/app.v1.aab"));
    let _ = s.step(Event::Start);
    let _ = s.step(Event::Ran { ok: true, lines: vec![] });
    match s.step(Event::Ran { ok: true, lines: lines(&["d\tdevice"]) }) {
        Action::RemoveFileIfPresent(p) => assert_eq!(p, "/w/app.apks"),
        _ => panic!("expected a removal"),
    }
}

#[test]
fn derived_paths_match_std_path() {
    for input in ["/w/app.aab", "/w/app.v1.aab", "/w/dir.x/app", "/w/app.aab/", "/w/.aab", "/", "/w/..", "rel/app.aab"] {
        let std_apks = Path::new(input).with_extension("").with_extension("apks");
        assert_eq!(apks_file(input, false), std_apks.to_str().unwrap(), "{}", input);
        let std_unzip = Path::new(input).with_extension("").with_extension("unzip");
        assert_eq!(unzip_folder(input, false), std_unzip.to_str().unwrap(), "{}", input);
    }
}

#[test]
fn badging_checks() {
    assert!(badging_lines_usable(&lines(&BADGING)));
    assert!(!badging_lines_usable(&lines(&["package: name='a'"])));
    let (p, a) = badging_package_activity(&lines(&BADGING));
    assert_eq!(p, "com.example.app");
    assert_eq!(a, "com.example.app.Main");
}

fn info_run(a: InfoAction) -> Command {
    match a {
        InfoAction::Run(c) => c,
        _ => panic!("expected a command"),
    }
}

#[test]
fn apk_info_runs_three_steps() {
    let mut s = ApkInfo::new(ApkInfoConfig {
        apk: "/w/a.apk".to_string(),
        apksigner_jar: "/bt/lib/apksigner.jar".to_string(),
        vasdolly_jar: "/assets/VasDolly_3_0_4.jar".to_string(),
    });
    let c = info_run(s.step(InfoEvent::Start));
    assert_eq!(c.args, lines(&["dump", "badging", "/w/a.apk"]));
    let c = info_run(s.step(InfoEvent::Ran(true)));
    assert_eq!(c.args, lines(&["-jar", "/bt/lib/apksigner.jar", "verify", "--print-certs", "-v", "/w/a.apk"]));
    let c = info_run(s.step(InfoEvent::Ran(true)));
    assert_eq!(c.args, lines(&["-jar", "/assets/VasDolly_3_0_4.jar", "get", "-c", "/w/a.apk"]));
    assert!(matches!(s.step(InfoEvent::Ran(true)), InfoAction::Finish(Ok(()))));
}

#[test]
fn apk_info_stops_at_failed_verification() {
    let mut s = ApkInfo::new(ApkInfoConfig {
        apk: "a".to_string(),
        apksigner_jar: "s".to_string(),
        vasdolly_jar: "v".to_string(),
    });
    let _ = s.step(InfoEvent::Start);
    let _ = s.step(InfoEvent::Ran(true));
    match s.step(InfoEvent::Ran(false)) {
        InfoAction::Finish(Err(m)) => assert_eq!(m, "verify apk failed"),
        _ => panic!("expected failure"),
    }
    assert!(matches!(s.step(InfoEvent::Ran(true)), InfoAction::Finish(Err(_))));
}

fn ex_config(cmd: &str, key_arg: &str) -> ApkexConfig {
    ApkexConfig {
        cmd: cmd.to_string(),
        apktool_jar: "/assets/apktool_2_8_1.jar".to_string(),
        apksigner_jar: "/assets/uber-apk-signer-1.3.0.jar".to_string(),
        target: "/w/app".to_string(),
        key_config_arg: key_arg.to_string(),
        assets: "/assets".to_string(),
        windows: false,
    }
}

#[test]
fn apkex_unpacks() {
    let mut cfg = ex_config(" u ", "");
    cfg.target = "/w/app.apk".to_string();
    let mut s = Apkex::new(cfg);
    match s.step(ExEvent::Start) {
        ExAction::RemovePath(p) => assert_eq!(p, "/w/app"),
        _ => panic!("expected a removal"),
    }
    match s.step(ExEvent::Done) {
        ExAction::Run(c) => assert_eq!(
            c.args,
            lines(&["-jar", "-Xms512m", "-Xmx1024m", "/assets/apktool_2_8_1.jar", "--only-main-classes", "d", "-f", "/w/app.apk", "-o", "/w/app"])
        ),
        _ => panic!("expected a command"),
    }
    assert!(matches!(s.step(ExEvent::Ran(true)), ExAction::Finish(Ok(()))));
}

#[test]
fn apkex_packs_and_signs() {
    let mut s = Apkex::new(ex_config("p", ""));
    match s.step(ExEvent::Start) {
        ExAction::LoadKeyConfig { path, resolve } => {
            assert_eq!(path, "/assets/default_key_config.json");
            assert!(!resolve);
        }
        _ => panic!("expected the key configuration"),
    }
    let keys = KeyConfig {
        key_path: "/assets/debug.jks".to_string(),
        alias_name: "debug".to_string(),
        store_pwd: "SECRET-REDACTED".to_string(),
        key_pwd: "SECRET-REDACTED".to_string(),
    };
    match s.step(ExEvent::KeysLoaded(keys)) {
        ExAction::RemoveFile(p) => assert_eq!(p, "/w/app.repacked.apk"),
        _ => panic!("expected a removal"),
    }
    match s.step(ExEvent::Done) {
        ExAction::Run(c) => {
            assert_eq!(c.work, "pack");
            assert_eq!(c.args[5], "b");
            assert_eq!(c.args[9], "/w/app.repacked.apk");
        }
        _ => panic!("expected a command"),
    }
    match s.step(ExEvent::Ran(true)) {
        ExAction::Run(c) => assert_eq!(
            c.args,
            lines(&[
                "-jar", "/assets/uber-apk-signer-1.3.0.jar", "--allowResign", "--overwrite", "-ks", "/assets/debug.jks",
                "--ksPass", "SECRET-REDACTED", "--ksAlias", "debug", "--ksKeyPass", "SECRET-REDACTED", "-a", "/w/app.repacked.apk",
            ])
        ),
        _ => panic!("expected a command"),
    }
    match s.step(ExEvent::Ran(false)) {
        ExAction::Finish(Err(m)) => assert_eq!(m, "Failed to sign apk"),
        _ => panic!("expected failure"),
    }
}

#[test]
fn apkex_given_key_config_is_resolved() {
    let mut s = Apkex::new(ex_config("p", "/cygdrive/c/keys.json"));
    match s.step(ExEvent::Start) {
        ExAction::LoadKeyConfig { path, resolve } => {
            assert_eq!(path, "/cygdrive/c/keys.json");
            assert!(resolve);
        }
        _ => panic!("expected the key configuration"),
    }
}

#[test]
fn apkex_unknown_command() {
    let mut s = Apkex::new(ex_config(" x ", ""));
    match s.step(ExEvent::Start) {
        ExAction::Finish(Err(m)) => assert_eq!(m, "unknown cmd: x"),
        _ => panic!("expected failure"),
    }
}

#[test]
fn default_key_config_is_empty() {
    let k = KeyConfig::default();
    assert!(k.key_path.is_empty() && k.alias_name.is_empty() && k.store_pwd.is_empty() && k.key_pwd.is_empty());
}
