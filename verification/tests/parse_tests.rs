use std::path::Path;
use apk_tools::adb::{cyg_to_win, is_installed, parse_devices, pid_from_ps, PidPoll, PidSearch, PID_QUERIES};
use apk_tools::badging::{byte_split_at_ok, get_value_by_key, launch_lines};
use apk_tools::cygpath::{converted_path, convert_command, probe_command};
use apk_tools::cmdline::Program;
use apk_tools::logname::{log_file_name, log_stamp, moment_is_valid, shown_folder};
use apk_tools::path::{join_path, path_extension, path_with_extension};
use apk_tools::tools::{first_tool, latest, Entry};

fn lines(ls: &[&str]) -> Vec<String> {
    ls.iter().map(|l| l.to_string()).collect()
}

#[test]
fn value_of_package_name() {
    let line = "package: name='com.example.app' versionCode='12' versionName='1.2'";
    assert_eq!(get_value_by_key(line, "package:", "name"), "com.example.app");
    assert_eq!(get_value_by_key(line, "package:", "versionCode"), "12");
    assert_eq!(get_value_by_key(line, "package:", "versionName"), "1.2");
}

#[test]
fn value_of_missing_key_is_empty() {
    let line = "package: name='com.example.app' versionCode='12'";
    assert_eq!(get_value_by_key(line, "package:", "platformBuildVersionName"), "");
    assert_eq!(get_value_by_key("package:", "package", "name"), "");
}

#[test]
fn value_of_activity_name() {
    let line = "launchable-activity: name='com.example.app.MainActivity'  label='' icon=''";
    assert_eq!(get_value_by_key(line, "launchable-activity:", "name"), "com.example.app.MainActivity");
}

#[test]
fn value_is_trimmed_of_unicode_space() {
    let line = "package: name='\u{a0}com.x\u{a0}' v=1";
    assert_eq!(get_value_by_key(line, "package:", "name"), "com.x");
}

#[test]
fn pair_with_two_equals_signs_is_skipped() {
    let line = "package: name=a=b name='second'";
    assert_eq!(get_value_by_key(line, "package:", "name"), "second");
}

#[test]
fn value_after_multibyte_prefix() {
    let line = "é: name='x'";
    assert_eq!(get_value_by_key(line, "é", "name"), "x");
    assert!(byte_split_at_ok(line, 3));
    assert!(!byte_split_at_ok(line, 1));
    assert!(!byte_split_at_ok("ab", 3));
}

#[test]
fn launch_lines_found_and_stop() {
    let out = lines(&[
        "package: name='a.b' versionCode='1'",
        "sdkVersion:'21'",
        "launchable-activity: name='a.b.Main'  label=''",
        "package: name='ignored'",
    ]);
    let (p, a) = launch_lines(&out);
    assert_eq!(p, "package: name='a.b' versionCode='1'");
    assert_eq!(a, "launchable-activity: name='a.b.Main'  label=''");
}

#[test]
fn launch_lines_missing_activity() {
    let out = lines(&["package: name='a.b'", "package: name='c.d'"]);
    let (p, a) = launch_lines(&out);
    assert_eq!(p, "package: name='c.d'");
    assert_eq!(a, "");
}

#[test]
fn cygwin_paths_on_windows_and_elsewhere() {
    assert_eq!(cyg_to_win("/cygdrive/c/work/app.apk", true), "C:/work/app.apk");
    assert_eq!(cyg_to_win("/cygdrive/c/work/app.apk", false), "/cygdrive/c/work/app.apk");
    assert_eq!(cyg_to_win("D:/work/app.apk", true), "D:/work/app.apk");
}

#[test]
fn device_list_from_adb_devices() {
    let out = lines(&[
        "List of devices attached",
        "emulator-5554\tdevice",
        "",
        "   ",
        "R58M1234\tunauthorized",
        "bad\tline\textra",
    ]);
    let ds = parse_devices(&out);
    assert_eq!(ds.len(), 2);
    assert_eq!(ds[0].id, "emulator-5554");
    assert_eq!(ds[0].info, "emulator-5554\tdevice");
    assert_eq!(ds[1].id, "R58M1234");
}

#[test]
fn pid_from_ps_output() {
    let out = lines(&[
        "u0_a1  999 1 1234 560 0 0 S com.example.appx",
        "u0_a123 4567 1 2345 678 0 0 S 'Com.Example.App'",
    ]);
    assert_eq!(pid_from_ps(&out, "com.example.app"), 4567);
    assert_eq!(pid_from_ps(&lines(&["root 1 0 init"]), "com.example.app"), 0);
    assert_eq!(pid_from_ps(&lines(&["x 0 com.example.app", "y 12 com.example.app"]), "com.example.app"), 12);
    assert_eq!(pid_from_ps(&lines(&[]), "com.example.app"), 0);
}

#[test]
fn pid_search_gives_up_after_the_limit() {
    let mut search = PidSearch::new();
    let mut queries = 0;
    loop {
        match search.poll() {
            PidPoll::Query => {
                queries += 1;
                search.observe(false, &lines(&[]), "a.b");
            }
            PidPoll::Finished(pid) => {
                assert_eq!(pid, 0);
                break;
            }
        }
    }
    assert_eq!(queries, PID_QUERIES);
}

#[test]
fn pid_search_stops_when_found() {
    let mut search = PidSearch::new();
    assert!(matches!(search.poll(), PidPoll::Query));
    search.observe(true, &lines(&["u0 321 1 a.b"]), "a.b");
    assert!(matches!(search.poll(), PidPoll::Finished(321)));
}

#[test]
fn installed_package_is_listed() {
    let out = lines(&["package:com.android.shell", "  package:com.example.app  "]);
    assert!(is_installed(&out, "com.example.app"));
    assert!(!is_installed(&out, "com.example"));
}

#[test]
fn first_tool_in_listing_order() {
    let entries = vec![
        Entry { name: "adb.d".to_string(), is_file: false },
        Entry { name: "fastboot".to_string(), is_file: true },
        Entry { name: "adb".to_string(), is_file: true },
        Entry { name: "adb.exe".to_string(), is_file: true },
    ];
    assert_eq!(first_tool(&entries, "adb"), Some(2));
    assert_eq!(first_tool(&entries, "aapt2"), None);
}

#[test]
fn latest_build_tools() {
    let names = lines(&["30.0.3", "34.0.0", "29.0.2", "34.0.0-rc1"]);
    assert_eq!(latest(&names), Some(3));
    let names = lines(&["34.0.0", "9.0.0"]);
    assert_eq!(latest(&names), Some(1));
    assert_eq!(latest(&lines(&[])), None);
    let mut sorted = lines(&["30.0.3", "34.0.0", "29.0.2", "34.0.0-rc1"]);
    sorted.sort();
    assert_eq!(sorted.last().unwrap(), "34.0.0-rc1");
}

#[test]
fn log_stamp_and_name() {
    assert_eq!(log_stamp(2024, 3, 7, 9, 5, 0), "20240307_090500");
    assert_eq!(log_stamp(987, 12, 31, 23, 59, 59), "09871231_235959");
    assert_eq!(log_stamp(-44, 1, 1, 0, 0, 0), "-00440101_000000");
    assert_eq!(log_file_name("apkex", "20240307_090500"), "apkex_20240307_090500.log");
    assert_eq!(shown_folder("C:\\work\\apps"), "C:/work/apps");
}

#[test]
fn log_stamp_matches_time_formatting() {
    let format = time::format_description::parse("[year][month][day]_[hour][minute][second]").unwrap();
    let dt = time::PrimitiveDateTime::new(
        time::Date::from_calendar_date(2023, time::Month::November, 18).unwrap(),
        time::Time::from_hms(6, 0, 42).unwrap(),
    );
    assert_eq!(dt.format(&format).unwrap(), log_stamp(2023, 11, 18, 6, 0, 42));
}

#[test]
fn moments_that_time_can_hold() {
    assert!(moment_is_valid(2024, 2, 29, 23, 59, 59));
    assert!(!moment_is_valid(2023, 2, 29, 0, 0, 0));
    assert!(!moment_is_valid(1900, 2, 29, 0, 0, 0));
    assert!(moment_is_valid(2000, 2, 29, 0, 0, 0));
    assert!(!moment_is_valid(2024, 4, 31, 0, 0, 0));
    assert!(!moment_is_valid(2024, 13, 1, 0, 0, 0));
    assert!(!moment_is_valid(10000, 1, 1, 0, 0, 0));
    assert!(!moment_is_valid(2024, 1, 1, 24, 0, 0));
    assert!(!moment_is_valid(2024, 1, 0, 0, 0, 0));
    for (y, m, d) in [(2024, 2, 29), (2023, 2, 29), (1900, 2, 29), (-4, 2, 29), (-100, 2, 29), (2024, 6, 31)] {
        assert_eq!(moment_is_valid(y, m, d, 0, 0, 0), time::Date::from_calendar_date(y, time::Month::try_from(m).unwrap(), d).is_ok());
    }
}

#[test]
fn cygpath_commands_and_output() {
    let c = convert_command("/home/a b");
    assert!(matches!(c.program, Program::Cygpath));
    assert_eq!(c.args, vec!["-wa".to_string(), "/home/a b".to_string()]);
    assert!(c.require_output);
    let p = probe_command();
    assert_eq!(p.work, "cygpath_check");
    assert!(!p.require_output);
    assert_eq!(converted_path(&lines(&["C:\\cygwin\\home\\", "a b\r"])), "C:\\cygwin\\home\\a b");
}

#[test]
fn later_pairs_do_not_override_a_found_value() {
    let line = "package: name='a.b' versionCode='1'";
    let longer = format!("{} name='c.d' versionCode='2'", line);
    assert_eq!(get_value_by_key(line, "package:", "name"), "a.b");
    assert_eq!(get_value_by_key(&longer, "package:", "name"), "a.b");
    assert_eq!(get_value_by_key(&longer, "package:", "versionCode"), "1");
}

#[test]
fn value_has_no_space_or_equals_and_occurs_in_the_line() {
    let line = "package: name='a b' x=y=z v=q w=' r '";
    for (key, want) in [("v", "q"), ("name", "a"), ("x", ""), ("w", "")] {
        let v = get_value_by_key(line, "package:", key);
        assert_eq!(v, want, "{}", key);
        assert!(!v.contains(' ') && !v.contains('='));
        assert_eq!(v, v.trim());
        assert!(line["package:".len() + 1..].contains(v.as_str()));
    }
}

#[test]
fn odd_keys_have_no_value() {
    let line = "package: name='a.b' x=y";
    assert_eq!(get_value_by_key(line, "package:", "na me"), "");
    assert_eq!(get_value_by_key(line, "package:", "name="), "");
    assert_eq!(get_value_by_key(line, "package:", " name"), "");
}

#[test]
fn cyg_to_win_twice_is_once() {
    for p in ["/cygdrive/c/cygdrive/c/x", "/cygdrive/c", "/cygdrive/cygdrive/c/c", "plain"] {
        for w in [true, false] {
            let once = cyg_to_win(p, w);
            assert_eq!(cyg_to_win(&once, w), once);
        }
    }
    assert_eq!(cyg_to_win("/cygdrive/cygdrive/c/c", true), "/cygdrive/cygdrive/c/c".replace("/cygdrive/c", "C:"));
    assert_eq!(cyg_to_win("/x/cygdrive/c/y", true), "/xC:/y");
}

#[test]
fn pid_search_finds_id_on_a_later_query() {
    let mut search = PidSearch::new();
    let mut queries = 0;
    let pid = loop {
        match search.poll() {
            PidPoll::Query => {
                queries += 1;
                if queries < 3 {
                    search.observe(true, &lines(&["root 1 0 init"]), "a.b");
                } else {
                    search.observe(true, &lines(&["u0 77 1 a.b"]), "a.b");
                }
            }
            PidPoll::Finished(pid) => break pid,
        }
    };
    assert_eq!(pid, 77);
    assert_eq!(queries, 3);
}

#[test]
fn path_functions_match_std_path() {
    let paths = [
        "/w/app.apk", "/w/app.v1.aab", "/w/app", "/w/.hidden", "/w/app.", "/w/app.apk/", "/w/dir.d/app",
        "/", "", "/w/..", "a.b.c", "/w//x.y//",
    ];
    for p in paths {
        let std_ext = Path::new(p).extension().map(|e| e.to_str().unwrap().to_string());
        assert_eq!(path_extension(p, false), std_ext, "{}", p);
        for e in ["", "apks", "x.y"] {
            let std_with = Path::new(p).with_extension(e);
            assert_eq!(path_with_extension(p, e, false), std_with.to_str().unwrap(), "{} {}", p, e);
        }
        let std_join = Path::new(p).join("base-master.apk");
        assert_eq!(join_path(p, "base-master.apk", false), std_join.to_str().unwrap(), "{}", p);
    }
}

#[test]
fn windows_paths_split_on_both_separators() {
    assert_eq!(path_extension("C:\\w\\app.aab", true), Some("aab".to_string()));
    assert_eq!(path_extension("C:\\w.d\\app", true), None);
    assert_eq!(path_with_extension("C:\\w\\app.aab", "apks", true), "C:\\w\\app.apks");
    assert_eq!(join_path("C:\\w\\app.unzip", "base-master.apk", true), "C:\\w\\app.unzip\\base-master.apk");
    assert_eq!(join_path("C:/w/", "a", true), "C:/w/a");
    assert_eq!(path_extension("C:\\w\\app.aab", false), Some("aab".to_string()));
}
