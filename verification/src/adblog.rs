//! The `adblog` session: install an app on a device, start it and follow
//! its log or watch its memory or processor use. The session decides; the
//! caller performs each action it asks for and reports back what happened.
use vstd::prelude::*;
use crate::adb::{
    device_views, parse_devices, pid_from_lines, listed, device_list, is_installed, PidPoll, PidSearch,
    PID_QUERIES,
};
use crate::badging::{
    byte_split_at_ok, byte_split_ok, chars_from_byte, get_value_by_key, launch_lines, scan_badging,
    value_by_key,
};
use crate::path::{extension, join, join_path, path_extension, path_with_extension, with_extension};
use crate::cmdline::{command, joined, owned, Command, CommandView, Program};
use crate::text::{
    chars_of, contains, contains_vec, decimal, decimal_vec, str_eq, string_of, string_views,
};

verus! {

/// The bundletool jar that `adblog` runs.
pub open spec fn bundletool() -> Seq<char> {
    "bundletool-all-1.16.0.jar"@
}

/// What `adblog` was asked to do.
pub struct AdbLogConfig {
    /// `i` install, `r` reinstall, `mem` watch memory, `cpu` watch processor.
    pub cmd: String,
    /// The file given on the command line, as an absolute path.
    pub input: String,
    /// Whether paths are Windows paths.
    pub windows: bool,
}

pub struct AdbLogConfigView {
    pub cmd: Seq<char>,
    pub input: Seq<char>,
    pub windows: bool,
}

impl View for AdbLogConfig {
    type V = AdbLogConfigView;

    open spec fn view(&self) -> AdbLogConfigView {
        AdbLogConfigView { cmd: self.cmd@, input: self.input@, windows: self.windows }
    }
}

/// Something the caller is asked to do.
pub enum Action {
    /// Run a command and report `Ran`.
    Run(Command),
    /// Let the user pick one of these device lines and report `Chosen`.
    ChooseDevice(Vec<String>),
    /// Remove this file if it is there, then report `Done`.
    RemoveFileIfPresent(String),
    /// Remove this directory if it is there, create it anew, report `Done`.
    RecreateDir(String),
    /// Extract one entry of a zip archive to a file, then report `Done`.
    Extract { archive: String, entry: String, dest: String },
    /// Follow `adb logcat` on the device, show the lines that contain the
    /// needle, and report `Done` when the log ends.
    FollowLog { device: String, needle: String },
    /// Wait two seconds, then report `Done`.
    Wait,
    /// The session is over.
    Finish(Result<(), String>),
}

pub enum ActionView {
    Run(CommandView),
    ChooseDevice(Seq<Seq<char>>),
    RemoveFileIfPresent(Seq<char>),
    RecreateDir(Seq<char>),
    Extract { archive: Seq<char>, entry: Seq<char>, dest: Seq<char> },
    FollowLog { device: Seq<char>, needle: Seq<char> },
    Wait,
    Finish(Result<(), Seq<char>>),
}

pub open spec fn result_view(r: Result<(), String>) -> Result<(), Seq<char>> {
    match r {
        Ok(()) => Ok(()),
        Err(m) => Err(m@),
    }
}

impl View for Action {
    type V = ActionView;

    open spec fn view(&self) -> ActionView {
        match self {
            Action::Run(c) => ActionView::Run(c@),
            Action::ChooseDevice(ls) => ActionView::ChooseDevice(string_views(ls@)),
            Action::RemoveFileIfPresent(p) => ActionView::RemoveFileIfPresent(p@),
            Action::RecreateDir(p) => ActionView::RecreateDir(p@),
            Action::Extract { archive, entry, dest } => ActionView::Extract {
                archive: archive@,
                entry: entry@,
                dest: dest@,
            },
            Action::FollowLog { device, needle } => ActionView::FollowLog {
                device: device@,
                needle: needle@,
            },
            Action::Wait => ActionView::Wait,
            Action::Finish(r) => ActionView::Finish(result_view(*r)),
        }
    }
}

/// What the caller reports.
pub enum Event {
    /// The session begins.
    Start,
    /// A command ran: whether it succeeded, and the lines it printed.
    Ran { ok: bool, lines: Vec<String> },
    /// The user picked the device at this position.
    Chosen(usize),
    /// An action other than a command is complete.
    Done,
    /// An action could not be carried out (a command that could not be run,
    /// a file operation or a prompt that failed), with the error.
    Failed(String),
}

pub enum EventView {
    Start,
    Ran { ok: bool, lines: Seq<Seq<char>> },
    Chosen(usize),
    Done,
    Failed(Seq<char>),
}

impl View for Event {
    type V = EventView;

    open spec fn view(&self) -> EventView {
        match self {
            Event::Start => EventView::Start,
            Event::Ran { ok, lines } => EventView::Ran { ok: *ok, lines: string_views(lines@) },
            Event::Chosen(k) => EventView::Chosen(*k),
            Event::Done => EventView::Done,
            Event::Failed(m) => EventView::Failed(m@),
        }
    }
}

/// Where the session stands.
#[derive(Clone, Copy, Debug, PartialEq, Eq, Structural)]
pub enum Stage {
    Begin,
    KillServer,
    ListDevices,
    PickDevice,
    RemoveOldApks,
    BuildApks,
    ResetUnzip,
    ExtractBase,
    DumpBadging,
    ListPackages,
    Uninstall,
    Install,
    StartApp,
    FindPid,
    FollowLog,
    MemInfo,
    MemWait,
    CpuInfo,
    CpuWait,
    Finished,
}

/// An `adblog` session.
pub struct AdbLog {
    config: AdbLogConfig,
    stage: Stage,
    devices: Vec<String>,
    device: String,
    use_apks: bool,
    apk: String,
    package: String,
    activity: String,
    search: PidSearch,
    outcome: Result<(), String>,
}

#[verifier::ext_equal]
pub struct AdbLogState {
    pub config: AdbLogConfigView,
    pub stage: Stage,
    /// The serials to choose from.
    pub devices: Seq<Seq<char>>,
    /// The chosen serial.
    pub device: Seq<char>,
    /// The package file to install is the `.apks` file made from the input.
    pub use_apks: bool,
    /// The APK whose badging is read.
    pub apk: Seq<char>,
    pub package: Seq<char>,
    pub activity: Seq<char>,
    pub remaining: u32,
    pub pid: u32,
    pub outcome: Result<(), Seq<char>>,
}

impl View for AdbLog {
    type V = AdbLogState;

    closed spec fn view(&self) -> AdbLogState {
        AdbLogState {
            config: self.config@,
            stage: self.stage,
            devices: string_views(self.devices@),
            device: self.device@,
            use_apks: self.use_apks,
            apk: self.apk@,
            package: self.package@,
            activity: self.activity@,
            remaining: self.search.remaining,
            pid: self.search.pid,
            outcome: result_view(self.outcome),
        }
    }
}

/// The `.apks` file that an `.aab` input is turned into: the input with
/// its extension replaced by `apks`.
pub open spec fn apks_path(input: Seq<char>, windows: bool) -> Seq<char> {
    with_extension(with_extension(input, Seq::empty(), windows), "apks"@, windows)
}

/// Where an `.apks` archive is unpacked: its path with the extension
/// replaced by `unzip`.
pub open spec fn unzip_dir(p: Seq<char>, windows: bool) -> Seq<char> {
    with_extension(with_extension(p, Seq::empty(), windows), "unzip"@, windows)
}

/// The base APK inside that folder.
pub open spec fn base_apk(p: Seq<char>, windows: bool) -> Seq<char> {
    join(unzip_dir(p, windows), "base-master.apk"@, windows)
}

/// The package file that is installed: the input, or the `.apks` file made
/// from it.
pub open spec fn exec_path(s: AdbLogState) -> Seq<char> {
    if s.use_apks {
        apks_path(s.config.input, s.config.windows)
    } else {
        s.config.input
    }
}

pub open spec fn run_view(
    work: Seq<char>,
    program: Program,
    args: Seq<Seq<char>>,
    require_output: bool,
) -> ActionView {
    ActionView::Run(CommandView { work, program, args, require_output })
}

/// Move to `stage` and ask for `a`.
pub open spec fn goto(s: AdbLogState, stage: Stage, a: ActionView) -> (AdbLogState, ActionView) {
    (AdbLogState { stage, ..s }, a)
}

/// End the session with the error `msg`.
pub open spec fn fail(s: AdbLogState, msg: Seq<char>) -> (AdbLogState, ActionView) {
    (AdbLogState { stage: Stage::Finished, outcome: Err(msg), ..s }, ActionView::Finish(Err(msg)))
}

/// `-s <device>` followed by `rest`: the arguments of an `adb` command on
/// the chosen device.
pub open spec fn on_device(s: AdbLogState, rest: Seq<Seq<char>>) -> Seq<Seq<char>> {
    seq!["-s"@, s.device] + rest
}

/// Read the badging of the APK in `s.apk`.
pub open spec fn dump_badging(s: AdbLogState) -> (AdbLogState, ActionView) {
    goto(
        s,
        Stage::DumpBadging,
        run_view(
            "get package and activity"@,
            Program::Aapt2,
            seq!["dump"@, "badging"@, s.apk],
            true,
        ),
    )
}

/// Find the APK to read in the package file to install: an `.apks` archive
/// is unpacked first.
pub open spec fn before_read(s: AdbLogState) -> (AdbLogState, ActionView) {
    let p = exec_path(s);
    match extension(p, s.config.windows) {
        None => fail(s, "exec_path no extension"@),
        Some(e) => if e == "apks"@ {
            goto(s, Stage::ResetUnzip, ActionView::RecreateDir(unzip_dir(p, s.config.windows)))
        } else {
            dump_badging(AdbLogState { apk: p, ..s })
        },
    }
}

/// With a device chosen: an `.aab` input is first turned into an `.apks`.
pub open spec fn after_device(s: AdbLogState) -> (AdbLogState, ActionView) {
    match extension(s.config.input, s.config.windows) {
        None => fail(s, "file_path no extension"@),
        Some(e) => if e == "aab"@ {
            goto(
                s,
                Stage::RemoveOldApks,
                ActionView::RemoveFileIfPresent(apks_path(s.config.input, s.config.windows)),
            )
        } else {
            before_read(AdbLogState { use_apks: false, ..s })
        },
    }
}

/// Install the package file: an `.apks` archive with bundletool, anything
/// else with `adb install`.
pub open spec fn install(s: AdbLogState) -> (AdbLogState, ActionView) {
    let p = exec_path(s);
    if extension(p, s.config.windows) == Some("apks"@) {
        goto(
            s,
            Stage::Install,
            run_view(
                "install apks"@,
                Program::Java,
                seq![
                    "-jar"@,
                    bundletool(),
                    "install-apks"@,
                    "--adb=adb"@,
                    "--device-id="@ + s.device,
                    "--apks="@ + p,
                ],
                false,
            ),
        )
    } else {
        goto(
            s,
            Stage::Install,
            run_view("install apk"@, Program::Adb, on_device(s, seq!["install"@, p]), false),
        )
    }
}

/// With the package and activity known: in `r` mode, look whether the
/// package is installed, to remove it first.
pub open spec fn after_names(s: AdbLogState) -> (AdbLogState, ActionView) {
    if s.config.cmd == "r"@ {
        goto(
            s,
            Stage::ListPackages,
            run_view(
                "get installed"@,
                Program::Adb,
                on_device(s, seq!["shell"@, "pm"@, "list"@, "packages"@]),
                true,
            ),
        )
    } else {
        install(s)
    }
}

/// Ask `ps` for the package's process.
pub open spec fn query_ps(s: AdbLogState) -> ActionView {
    run_view(
        "query ps"@,
        Program::Adb,
        on_device(s, seq!["shell"@, "ps"@, "|"@, "grep"@, s.package]),
        true,
    )
}

pub open spec fn meminfo(s: AdbLogState) -> ActionView {
    run_view(
        "dumpsys meminfo"@,
        Program::Adb,
        on_device(s, seq!["shell"@, "dumpsys"@, "meminfo"@, decimal(s.pid as nat)]),
        true,
    )
}

pub open spec fn cpuinfo(s: AdbLogState) -> ActionView {
    run_view(
        "dumpsys cpuinfo"@,
        Program::Adb,
        on_device(s, seq!["shell"@, "dumpsys"@, "cpuinfo"@, "|"@, "grep"@, s.package]),
        true,
    )
}

/// The log lines of the process are those that hold its id between spaces.
pub open spec fn pid_needle(pid: u32) -> Seq<char> {
    seq![' '] + decimal(pid as nat) + seq![' ']
}

/// With the process found (`s.pid != 0`): do what the command asks.
pub open spec fn watch(s: AdbLogState) -> (AdbLogState, ActionView) {
    if s.config.cmd == "i"@ || s.config.cmd == "r"@ {
        goto(
            s,
            Stage::FollowLog,
            ActionView::FollowLog { device: s.device, needle: pid_needle(s.pid) },
        )
    } else if s.config.cmd == "mem"@ {
        goto(s, Stage::MemInfo, meminfo(s))
    } else if s.config.cmd == "cpu"@ {
        goto(s, Stage::CpuInfo, cpuinfo(s))
    } else {
        fail(s, "unknown command"@)
    }
}

/// The next step of the process search, `s` being before the poll.
pub open spec fn poll_pid(s: AdbLogState) -> (AdbLogState, ActionView) {
    if s.pid == 0 && s.remaining > 0 {
        let t = AdbLogState { remaining: (s.remaining - 1) as u32, stage: Stage::FindPid, ..s };
        (t, query_ps(t))
    } else if s.pid != 0 {
        watch(s)
    } else {
        fail(s, "get pid failed"@)
    }
}

/// The package name and activity name that `aapt2 dump badging` output
/// gives, as `get_value_by_key` reads them.
pub open spec fn badging_names(lines: Seq<Seq<char>>) -> (Seq<char>, Seq<char>) {
    let found = scan_badging(lines, Seq::empty(), Seq::empty());
    (
        value_by_key(chars_from_byte(found.0, 9), "name"@),
        value_by_key(chars_from_byte(found.1, 21), "name"@),
    )
}

/// The lines of `aapt2 dump badging` hold what `get_value_by_key` needs:
/// both found lines are long enough to be cut after their tag.
pub open spec fn badging_usable(lines: Seq<Seq<char>>) -> bool {
    let found = scan_badging(lines, Seq::empty(), Seq::empty());
    byte_split_ok(found.0, 9) && byte_split_ok(found.1, 21)
}

/// An event that the session can take in its present stage.
pub open spec fn event_fits(s: AdbLogState, e: EventView) -> bool {
    match e {
        EventView::Failed(_) => true,
        EventView::Start => s.stage == Stage::Begin || s.stage == Stage::Finished,
        EventView::Chosen(k) => s.stage == Stage::Finished || (s.stage == Stage::PickDevice && k
            < s.devices.len()),
        EventView::Done => match s.stage {
            Stage::RemoveOldApks | Stage::ResetUnzip | Stage::ExtractBase | Stage::FollowLog
            | Stage::MemWait | Stage::CpuWait | Stage::Finished => true,
            _ => false,
        },
        EventView::Ran { ok, lines } => match s.stage {
            Stage::KillServer | Stage::ListDevices | Stage::BuildApks | Stage::ListPackages
            | Stage::Uninstall | Stage::Install | Stage::StartApp | Stage::FindPid
            | Stage::MemInfo | Stage::CpuInfo | Stage::Finished => true,
            Stage::DumpBadging => ok ==> badging_usable(lines),
            _ => false,
        },
    }
}

/// The devices are listed: with none the session fails, with one it goes
/// on with it, with more the user chooses.
pub open spec fn after_listing(s: AdbLogState, lines: Seq<Seq<char>>) -> (AdbLogState, ActionView) {
    let ds = device_list(lines);
    if ds.len() == 0 {
        fail(s, "no device found"@)
    } else if ds.len() == 1 {
        after_device(AdbLogState { device: ds[0].0, ..s })
    } else {
        goto(
            AdbLogState { devices: ds.map_values(|d: (Seq<char>, Seq<char>)| d.0), ..s },
            Stage::PickDevice,
            ActionView::ChooseDevice(ds.map_values(|d: (Seq<char>, Seq<char>)| d.1)),
        )
    }
}

/// The answer to `Done` in a stage that waits for one.
pub open spec fn next_done(s: AdbLogState) -> (AdbLogState, ActionView) {
    match s.stage {
        Stage::RemoveOldApks => goto(
            s,
            Stage::BuildApks,
            run_view(
                "aab to apks"@,
                Program::Java,
                seq![
                    "-jar"@,
                    bundletool(),
                    "build-apks"@,
                    "--bundle="@ + s.config.input,
                    "--output="@ + apks_path(s.config.input, s.config.windows),
                ],
                false,
            ),
        ),
        Stage::ResetUnzip => goto(
            s,
            Stage::ExtractBase,
            ActionView::Extract {
                archive: exec_path(s),
                entry: "splits/base-master.apk"@,
                dest: base_apk(exec_path(s), s.config.windows),
            },
        ),
        Stage::ExtractBase => dump_badging(
            AdbLogState { apk: base_apk(exec_path(s), s.config.windows), ..s },
        ),
        Stage::FollowLog => (
            AdbLogState { stage: Stage::Finished, outcome: Ok(()), ..s },
            ActionView::Finish(Ok(())),
        ),
        Stage::MemWait => goto(s, Stage::MemInfo, meminfo(s)),
        _ => goto(s, Stage::CpuInfo, cpuinfo(s)),
    }
}

/// The answer to a command's outcome in a stage that waits for one.
pub open spec fn next_ran(s: AdbLogState, ok: bool, lines: Seq<Seq<char>>) -> (AdbLogState, ActionView) {
    match s.stage {
        Stage::KillServer => if !ok {
            fail(s, "adb kill-server failed"@)
        } else {
            goto(
                s,
                Stage::ListDevices,
                run_view("list devices"@, Program::Adb, seq!["devices"@], true),
            )
        },
        Stage::ListDevices => if !ok {
            fail(s, "adb devices failed"@)
        } else {
            after_listing(s, lines)
        },
        Stage::BuildApks => if !ok {
            fail(s, "bundletool build-apks failed"@)
        } else {
            before_read(AdbLogState { use_apks: true, ..s })
        },
        Stage::DumpBadging => if !ok {
            fail(s, "aapt2 dump badging failed"@)
        } else {
            let names = badging_names(lines);
            after_names(AdbLogState { package: names.0, activity: names.1, ..s })
        },
        Stage::ListPackages => if !ok {
            fail(s, "adb shell pm list packages failed"@)
        } else if listed(lines, s.package) {
            goto(
                s,
                Stage::Uninstall,
                run_view(
                    "uninstall"@,
                    Program::Adb,
                    on_device(s, seq!["uninstall"@, s.package]),
                    false,
                ),
            )
        } else {
            install(s)
        },
        Stage::Uninstall => if !ok {
            fail(s, "adb uninstall failed"@)
        } else {
            install(s)
        },
        Stage::Install => if !ok {
            fail(s, "adb install failed"@)
        } else {
            goto(
                s,
                Stage::StartApp,
                run_view(
                    "start process"@,
                    Program::Adb,
                    on_device(
                        s,
                        seq![
                            "shell"@,
                            "am"@,
                            "start"@,
                            "-S"@,
                            s.package + seq!['/'] + s.activity,
                        ],
                    ),
                    false,
                ),
            )
        },
        Stage::StartApp => if !ok {
            fail(s, "adb start failed"@)
        } else {
            poll_pid(AdbLogState { remaining: PID_QUERIES, pid: 0, ..s })
        },
        Stage::FindPid => {
            let found = pid_from_lines(lines, s.package);
            let pid = if ok && found != 0 {
                found
            } else {
                s.pid
            };
            poll_pid(AdbLogState { pid, ..s })
        },
        Stage::MemInfo => if !ok {
            fail(s, "adb dumpsys meminfo failed"@)
        } else {
            goto(s, Stage::MemWait, ActionView::Wait)
        },
        _ => if !ok {
            fail(s, "adb dumpsys cpuinfo failed"@)
        } else {
            goto(s, Stage::CpuWait, ActionView::Wait)
        },
    }
}

/// The session's answer to an event: its next state and the action it asks
/// for.
pub open spec fn next(s: AdbLogState, e: EventView) -> (AdbLogState, ActionView) {
    if s.stage == Stage::Finished {
        (s, ActionView::Finish(s.outcome))
    } else {
        match e {
            EventView::Failed(m) => fail(s, m),
            EventView::Start => goto(
                s,
                Stage::KillServer,
                run_view("refresh devices"@, Program::Adb, seq!["kill-server"@], false),
            ),
            EventView::Chosen(k) => after_device(AdbLogState { device: s.devices[k as int], ..s }),
            EventView::Done => next_done(s),
            EventView::Ran { ok, lines } => next_ran(s, ok, lines),
        }
    }
}

fn run(work: &str, program: Program, args: Vec<String>, require_output: bool) -> (a: Action)
    ensures
        a@ == run_view(work@, program, string_views(args@), require_output),
{
    Action::Run(command(work, program, args, require_output))
}

fn copy_string(s: &String) -> (r: String)
    ensures
        r@ == s@,
{
    owned(s.as_str())
}

/// Whether a line of the device log is shown while following it: it holds
/// the needle.
pub fn shows_log_line(line: &str, needle: &str) -> (b: bool)
    ensures
        b == contains(line@, needle@),
{
    contains_vec(&chars_of(line), &chars_of(needle))
}

/// Whether the lines of `aapt2 dump badging` hold what `get_value_by_key`
/// needs (the test that a caller makes before it reports such lines).
pub fn badging_lines_usable(lines: &Vec<String>) -> (b: bool)
    ensures
        b == badging_usable(string_views(lines@)),
{
    let (p, a) = launch_lines(lines);
    byte_split_at_ok(p.as_str(), 9) && byte_split_at_ok(a.as_str(), 21)
}

/// The package name and the activity name in the lines of
/// `aapt2 dump badging`.
pub fn badging_package_activity(lines: &Vec<String>) -> (r: (String, String))
    requires
        badging_usable(string_views(lines@)),
    ensures
        (r.0@, r.1@) == badging_names(string_views(lines@)),
{
    let (p, a) = launch_lines(lines);
    proof {
        reveal_strlit("package:");
        reveal_strlit("launchable-activity:");
        reveal_strlit("name");
        vstd::utf8::is_ascii_chars_encode_utf8("package:"@);
        vstd::utf8::is_ascii_chars_encode_utf8("launchable-activity:"@);
    }
    let package = get_value_by_key(p.as_str(), "package:", "name");
    let activity = get_value_by_key(a.as_str(), "launchable-activity:", "name");
    (package, activity)
}

/// The `.apks` file that an `.aab` input is turned into.
pub fn apks_file(input: &str, windows: bool) -> (r: String)
    ensures
        r@ == apks_path(input@, windows),
{
    let stem = path_with_extension(input, "", windows);
    proof {
        reveal_strlit("");
        assert(""@ =~= Seq::<char>::empty());
    }
    path_with_extension(stem.as_str(), "apks", windows)
}

/// The folder that an `.apks` archive is unpacked into.
pub fn unzip_folder(p: &str, windows: bool) -> (r: String)
    ensures
        r@ == unzip_dir(p@, windows),
{
    let stem = path_with_extension(p, "", windows);
    proof {
        reveal_strlit("");
        assert(""@ =~= Seq::<char>::empty());
    }
    path_with_extension(stem.as_str(), "unzip", windows)
}

impl AdbLog {
    /// A session that has not begun.
    pub fn new(config: AdbLogConfig) -> (s: Self)
        ensures
            s@ == (AdbLogState {
                config: config@,
                stage: Stage::Begin,
                devices: Seq::empty(),
                device: Seq::empty(),
                use_apks: false,
                apk: Seq::empty(),
                package: Seq::empty(),
                activity: Seq::empty(),
                remaining: PID_QUERIES,
                pid: 0,
                outcome: Ok(()),
            }),
    {
        let s = AdbLog {
            config,
            stage: Stage::Begin,
            devices: Vec::new(),
            device: String::new(),
            use_apks: false,
            apk: String::new(),
            package: String::new(),
            activity: String::new(),
            search: PidSearch::new(),
            outcome: Ok(()),
        };
        assert(s@ =~= (AdbLogState {
            config: config@,
            stage: Stage::Begin,
            devices: Seq::empty(),
            device: Seq::empty(),
            use_apks: false,
            apk: Seq::empty(),
            package: Seq::empty(),
            activity: Seq::empty(),
            remaining: PID_QUERIES,
            pid: 0,
            outcome: Ok(()),
        }));
        s
    }

    fn goto_stage(&mut self, stage: Stage, a: Action) -> (r: Action)
        ensures
            (final(self)@, r@) == goto(old(self)@, stage, a@),
    {
        self.stage = stage;
        assert(final(self)@ =~= goto(old(self)@, stage, a@).0);
        a
    }

    fn fail_with(&mut self, msg: String) -> (a: Action)
        ensures
            (final(self)@, a@) == fail(old(self)@, msg@),
    {
        self.stage = Stage::Finished;
        self.outcome = Err(copy_string(&msg));
        assert(final(self)@ =~= fail(old(self)@, msg@).0);
        Action::Finish(Err(msg))
    }

    fn on_device(&self, rest: Vec<String>) -> (r: Vec<String>)
        ensures
            string_views(r@) == on_device(self@, string_views(rest@)),
    {
        let mut r: Vec<String> = Vec::new();
        r.push(owned("-s"));
        r.push(copy_string(&self.device));
        let ghost head = string_views(r@);
        assert(head =~= seq!["-s"@, self@.device]);
        for i in 0..rest.len()
            invariant
                string_views(r@) == head + string_views(rest@).take(i as int),
        {
            let ghost before = r@;
            r.push(copy_string(&rest[i]));
            assert(string_views(r@) =~= string_views(before).push(rest@[i as int]@));
            assert(string_views(r@) =~= head + string_views(rest@).take(i + 1));
        }
        assert(string_views(rest@).take(rest.len() as int) =~= string_views(rest@));
        r
    }

    fn exec_path(&self) -> (p: String)
        ensures
            p@ == exec_path(self@),
    {
        if self.use_apks {
            apks_file(self.config.input.as_str(), self.config.windows)
        } else {
            copy_string(&self.config.input)
        }
    }

    fn dump_badging(&mut self) -> (a: Action)
        ensures
            (final(self)@, a@) == dump_badging(old(self)@),
    {
        let args = vec![owned("dump"), owned("badging"), copy_string(&self.apk)];
        assert(string_views(args@) =~= seq!["dump"@, "badging"@, self@.apk]);
        let a = run("get package and activity", Program::Aapt2, args, true);
        self.goto_stage(Stage::DumpBadging, a)
    }

    fn before_read(&mut self) -> (a: Action)
        ensures
            (final(self)@, a@) == before_read(old(self)@),
    {
        let p = self.exec_path();
        match path_extension(p.as_str(), self.config.windows) {
            None => self.fail_with(owned("exec_path no extension")),
            Some(e) => {
                if str_eq(e.as_str(), "apks") {
                    let a = Action::RecreateDir(unzip_folder(p.as_str(), self.config.windows));
                    self.goto_stage(Stage::ResetUnzip, a)
                } else {
                    let ghost s0 = self@;
                    self.apk = p;
                    assert(self@ =~= AdbLogState { apk: exec_path(s0), ..s0 });
                    self.dump_badging()
                }
            },
        }
    }

    fn after_device(&mut self) -> (a: Action)
        ensures
            (final(self)@, a@) == after_device(old(self)@),
    {
        match path_extension(self.config.input.as_str(), self.config.windows) {
            None => self.fail_with(owned("file_path no extension")),
            Some(e) => {
                if str_eq(e.as_str(), "aab") {
                    let a = Action::RemoveFileIfPresent(
                        apks_file(self.config.input.as_str(), self.config.windows),
                    );
                    self.goto_stage(Stage::RemoveOldApks, a)
                } else {
                    let ghost s0 = self@;
                    self.use_apks = false;
                    assert(self@ =~= AdbLogState { use_apks: false, ..s0 });
                    self.before_read()
                }
            },
        }
    }

    fn install(&mut self) -> (a: Action)
        ensures
            (final(self)@, a@) == install(old(self)@),
    {
        let p = self.exec_path();
        let is_apks = match path_extension(p.as_str(), self.config.windows) {
            Some(e) => str_eq(e.as_str(), "apks"),
            None => false,
        };
        if is_apks {
            let args = vec![
                owned("-jar"),
                owned("bundletool-all-1.16.0.jar"),
                owned("install-apks"),
                owned("--adb=adb"),
                joined("--device-id=", self.device.as_str()),
                joined("--apks=", p.as_str()),
            ];
            assert(string_views(args@) =~= seq![
                "-jar"@,
                bundletool(),
                "install-apks"@,
                "--adb=adb"@,
                "--device-id="@ + self@.device,
                "--apks="@ + p@,
            ]);
            let a = run("install apks", Program::Java, args, false);
            self.goto_stage(Stage::Install, a)
        } else {
            let rest = vec![owned("install"), p];
            assert(string_views(rest@) =~= seq!["install"@, exec_path(self@)]);
            let args = self.on_device(rest);
            let a = run("install apk", Program::Adb, args, false);
            self.goto_stage(Stage::Install, a)
        }
    }

    fn after_names(&mut self) -> (a: Action)
        ensures
            (final(self)@, a@) == after_names(old(self)@),
    {
        if str_eq(self.config.cmd.as_str(), "r") {
            let rest = vec![owned("shell"), owned("pm"), owned("list"), owned("packages")];
            assert(string_views(rest@) =~= seq!["shell"@, "pm"@, "list"@, "packages"@]);
            let args = self.on_device(rest);
            let a = run("get installed", Program::Adb, args, true);
            self.goto_stage(Stage::ListPackages, a)
        } else {
            self.install()
        }
    }

    fn query_ps(&self) -> (a: Action)
        ensures
            a@ == query_ps(self@),
    {
        let rest = vec![
            owned("shell"),
            owned("ps"),
            owned("|"),
            owned("grep"),
            copy_string(&self.package),
        ];
        assert(string_views(rest@) =~= seq!["shell"@, "ps"@, "|"@, "grep"@, self@.package]);
        let args = self.on_device(rest);
        run("query ps", Program::Adb, args, true)
    }

    fn meminfo(&self) -> (a: Action)
        ensures
            a@ == meminfo(self@),
    {
        let pid = string_of(&decimal_vec(self.search.pid));
        let rest = vec![owned("shell"), owned("dumpsys"), owned("meminfo"), pid];
        assert(string_views(rest@) =~= seq![
            "shell"@,
            "dumpsys"@,
            "meminfo"@,
            decimal(self@.pid as nat),
        ]);
        let args = self.on_device(rest);
        run("dumpsys meminfo", Program::Adb, args, true)
    }

    fn cpuinfo(&self) -> (a: Action)
        ensures
            a@ == cpuinfo(self@),
    {
        let rest = vec![
            owned("shell"),
            owned("dumpsys"),
            owned("cpuinfo"),
            owned("|"),
            owned("grep"),
            copy_string(&self.package),
        ];
        assert(string_views(rest@) =~= seq![
            "shell"@,
            "dumpsys"@,
            "cpuinfo"@,
            "|"@,
            "grep"@,
            self@.package,
        ]);
        let args = self.on_device(rest);
        run("dumpsys cpuinfo", Program::Adb, args, true)
    }

    fn watch(&mut self) -> (a: Action)
        ensures
            (final(self)@, a@) == watch(old(self)@),
    {
        if str_eq(self.config.cmd.as_str(), "i") || str_eq(self.config.cmd.as_str(), "r") {
            let digits = string_of(&decimal_vec(self.search.pid));
            let needle = joined(joined(" ", digits.as_str()).as_str(), " ");
            proof {
                reveal_strlit(" ");
                assert(needle@ =~= pid_needle(self@.pid));
            }
            let a = Action::FollowLog { device: copy_string(&self.device), needle };
            self.goto_stage(Stage::FollowLog, a)
        } else if str_eq(self.config.cmd.as_str(), "mem") {
            let a = self.meminfo();
            self.goto_stage(Stage::MemInfo, a)
        } else if str_eq(self.config.cmd.as_str(), "cpu") {
            let a = self.cpuinfo();
            self.goto_stage(Stage::CpuInfo, a)
        } else {
            self.fail_with(owned("unknown command"))
        }
    }

    fn after_listing(&mut self, lines: &Vec<String>) -> (a: Action)
        ensures
            (final(self)@, a@) == after_listing(old(self)@, string_views(lines@)),
    {
        let ghost s0 = self@;
        let ds = parse_devices(lines);
        let ghost dl = device_list(string_views(lines@));
        assert(dl.len() == ds.len()) by {
            assert(device_views(ds@).len() == ds@.len());
        }
        if ds.len() == 0 {
            self.fail_with(owned("no device found"))
        } else if ds.len() == 1 {
            assert(device_views(ds@)[0] == dl[0]);
            self.device = copy_string(&ds[0].id);
            assert(self@ =~= AdbLogState { device: dl[0].0, ..s0 });
            self.after_device()
        } else {
            let mut ids: Vec<String> = Vec::new();
            let mut infos: Vec<String> = Vec::new();
            for i in 0..ds.len()
                invariant
                    dl == device_views(ds@),
                    string_views(ids@) == dl.take(i as int).map_values(
                        |d: (Seq<char>, Seq<char>)| d.0,
                    ),
                    string_views(infos@) == dl.take(i as int).map_values(
                        |d: (Seq<char>, Seq<char>)| d.1,
                    ),
            {
                let ghost bi = ids@;
                let ghost bf = infos@;
                ids.push(copy_string(&ds[i].id));
                infos.push(copy_string(&ds[i].info));
                assert(dl[i as int] == (ds@[i as int].id@, ds@[i as int].info@));
                assert(dl.take(i + 1).map_values(|d: (Seq<char>, Seq<char>)| d.0) =~= dl.take(
                    i as int,
                ).map_values(|d: (Seq<char>, Seq<char>)| d.0).push(dl[i as int].0));
                assert(dl.take(i + 1).map_values(|d: (Seq<char>, Seq<char>)| d.1) =~= dl.take(
                    i as int,
                ).map_values(|d: (Seq<char>, Seq<char>)| d.1).push(dl[i as int].1));
                assert(string_views(ids@) =~= dl.take(i + 1).map_values(
                    |d: (Seq<char>, Seq<char>)| d.0,
                ));
                assert(string_views(infos@) =~= dl.take(i + 1).map_values(
                    |d: (Seq<char>, Seq<char>)| d.1,
                ));
            }
            assert(dl.take(ds.len() as int) =~= dl);
            self.devices = ids;
            self.stage = Stage::PickDevice;
            assert(self@ =~= AdbLogState {
                devices: dl.map_values(|d: (Seq<char>, Seq<char>)| d.0),
                stage: Stage::PickDevice,
                ..s0
            });
            Action::ChooseDevice(infos)
        }
    }

    fn on_done(&mut self) -> (a: Action)
        requires
            old(self)@.stage != Stage::Finished,
        ensures
            (final(self)@, a@) == next_done(old(self)@),
    {
        let ghost s0 = self@;
        match self.stage {
            Stage::RemoveOldApks => {
                let args = vec![
                    owned("-jar"),
                    owned("bundletool-all-1.16.0.jar"),
                    owned("build-apks"),
                    joined("--bundle=", self.config.input.as_str()),
                    joined(
                        "--output=",
                        apks_file(self.config.input.as_str(), self.config.windows).as_str(),
                    ),
                ];
                assert(string_views(args@) =~= seq![
                    "-jar"@,
                    bundletool(),
                    "build-apks"@,
                    "--bundle="@ + s0.config.input,
                    "--output="@ + apks_path(s0.config.input, s0.config.windows),
                ]);
                let a = run("aab to apks", Program::Java, args, false);
                self.goto_stage(Stage::BuildApks, a)
            },
            Stage::ResetUnzip => {
                let p = self.exec_path();
                let dest = join_path(
                    unzip_folder(p.as_str(), self.config.windows).as_str(),
                    "base-master.apk",
                    self.config.windows,
                );
                let a = Action::Extract {
                    archive: p,
                    entry: owned("splits/base-master.apk"),
                    dest,
                };
                self.goto_stage(Stage::ExtractBase, a)
            },
            Stage::ExtractBase => {
                let p = self.exec_path();
                let base = join_path(
                    unzip_folder(p.as_str(), self.config.windows).as_str(),
                    "base-master.apk",
                    self.config.windows,
                );
                self.apk = base;
                assert(self@ =~= AdbLogState {
                    apk: base_apk(exec_path(s0), s0.config.windows),
                    ..s0
                });
                self.dump_badging()
            },
            Stage::FollowLog => {
                self.stage = Stage::Finished;
                self.outcome = Ok(());
                assert(self@ =~= AdbLogState {
                    stage: Stage::Finished,
                    outcome: Ok(()),
                    ..s0
                });
                Action::Finish(Ok(()))
            },
            Stage::MemWait => {
                let a = self.meminfo();
                self.goto_stage(Stage::MemInfo, a)
            },
            _ => {
                let a = self.cpuinfo();
                self.goto_stage(Stage::CpuInfo, a)
            },
        }
    }

    fn on_ran(&mut self, ok: bool, lines: Vec<String>) -> (a: Action)
        requires
            old(self)@.stage != Stage::Finished,
            old(self)@.stage == Stage::DumpBadging && ok ==> badging_usable(string_views(lines@)),
        ensures
            (final(self)@, a@) == next_ran(old(self)@, ok, string_views(lines@)),
    {
        let ghost s0 = self@;
        match self.stage {
            Stage::KillServer => {
                if !ok {
                    self.fail_with(owned("adb kill-server failed"))
                } else {
                    let args = vec![owned("devices")];
                    assert(string_views(args@) =~= seq!["devices"@]);
                    let a = run("list devices", Program::Adb, args, true);
                    self.goto_stage(Stage::ListDevices, a)
                }
            },
            Stage::ListDevices => {
                if !ok {
                    self.fail_with(owned("adb devices failed"))
                } else {
                    self.after_listing(&lines)
                }
            },
            Stage::BuildApks => {
                if !ok {
                    self.fail_with(owned("bundletool build-apks failed"))
                } else {
                    self.use_apks = true;
                    assert(self@ =~= AdbLogState { use_apks: true, ..s0 });
                    self.before_read()
                }
            },
            Stage::DumpBadging => {
                if !ok {
                    self.fail_with(owned("aapt2 dump badging failed"))
                } else {
                    let (package, activity) = badging_package_activity(&lines);
                    self.package = package;
                    self.activity = activity;
                    assert(self@ =~= AdbLogState {
                        package: badging_names(string_views(lines@)).0,
                        activity: badging_names(string_views(lines@)).1,
                        ..s0
                    });
                    self.after_names()
                }
            },
            Stage::ListPackages => {
                if !ok {
                    self.fail_with(owned("adb shell pm list packages failed"))
                } else if is_installed(&lines, self.package.as_str()) {
                    let rest = vec![owned("uninstall"), copy_string(&self.package)];
                    assert(string_views(rest@) =~= seq!["uninstall"@, s0.package]);
                    let args = self.on_device(rest);
                    let a = run("uninstall", Program::Adb, args, false);
                    self.goto_stage(Stage::Uninstall, a)
                } else {
                    self.install()
                }
            },
            Stage::Uninstall => {
                if !ok {
                    self.fail_with(owned("adb uninstall failed"))
                } else {
                    self.install()
                }
            },
            Stage::Install => {
                if !ok {
                    self.fail_with(owned("adb install failed"))
                } else {
                    let target = joined(
                        joined(self.package.as_str(), "/").as_str(),
                        self.activity.as_str(),
                    );
                    proof {
                        reveal_strlit("/");
                        assert(target@ =~= s0.package + seq!['/'] + s0.activity);
                    }
                    let rest = vec![
                        owned("shell"),
                        owned("am"),
                        owned("start"),
                        owned("-S"),
                        target,
                    ];
                    assert(string_views(rest@) =~= seq![
                        "shell"@,
                        "am"@,
                        "start"@,
                        "-S"@,
                        s0.package + seq!['/'] + s0.activity,
                    ]);
                    let args = self.on_device(rest);
                    let a = run("start process", Program::Adb, args, false);
                    self.goto_stage(Stage::StartApp, a)
                }
            },
            Stage::StartApp => {
                if !ok {
                    self.fail_with(owned("adb start failed"))
                } else {
                    self.search = PidSearch::new();
                    assert(self@ =~= AdbLogState { remaining: PID_QUERIES, pid: 0, ..s0 });
                    self.poll_pid()
                }
            },
            Stage::FindPid => {
                self.search.observe(ok, &lines, self.package.as_str());
                proof {
                    let found = pid_from_lines(string_views(lines@), s0.package);
                    let pid = if ok && found != 0 {
                        found
                    } else {
                        s0.pid
                    };
                    assert(self@ =~= AdbLogState { pid, ..s0 });
                }
                self.poll_pid()
            },
            Stage::MemInfo => {
                if !ok {
                    self.fail_with(owned("adb dumpsys meminfo failed"))
                } else {
                    self.goto_stage(Stage::MemWait, Action::Wait)
                }
            },
            _ => {
                if !ok {
                    self.fail_with(owned("adb dumpsys cpuinfo failed"))
                } else {
                    self.goto_stage(Stage::CpuWait, Action::Wait)
                }
            },
        }
    }

    /// Takes in an event and answers with the next action.
    pub fn step(&mut self, e: Event) -> (a: Action)
        requires
            event_fits(old(self)@, e@),
        ensures
            (final(self)@, a@) == next(old(self)@, e@),
    {
        let ghost s0 = self@;
        if self.stage == Stage::Finished {
            let out = match &self.outcome {
                Ok(()) => Ok(()),
                Err(m) => Err(copy_string(m)),
            };
            return Action::Finish(out);
        }
        match e {
            Event::Failed(m) => self.fail_with(m),
            Event::Start => {
                let args = vec![owned("kill-server")];
                assert(string_views(args@) =~= seq!["kill-server"@]);
                let a = run("refresh devices", Program::Adb, args, false);
                self.goto_stage(Stage::KillServer, a)
            },
            Event::Chosen(k) => {
                self.device = copy_string(&self.devices[k]);
                assert(self@ =~= AdbLogState { device: s0.devices[k as int], ..s0 });
                self.after_device()
            },
            Event::Done => self.on_done(),
            Event::Ran { ok, lines } => self.on_ran(ok, lines),
        }
    }

    fn poll_pid(&mut self) -> (a: Action)
        ensures
            (final(self)@, a@) == poll_pid(old(self)@),
    {
        let ghost s0 = self@;
        match self.search.poll() {
            PidPoll::Query => {
                self.stage = Stage::FindPid;
                assert(self@ =~= AdbLogState {
                    remaining: (s0.remaining - 1) as u32,
                    stage: Stage::FindPid,
                    ..s0
                });
                self.query_ps()
            },
            PidPoll::Finished(pid) => {
                assert(self@ =~= s0);
                if pid != 0 {
                    self.watch()
                } else {
                    self.fail_with(owned("get pid failed"))
                }
            },
        }
    }
}

/// The stages in which the session follows or watches the started process.
pub open spec fn watching(stage: Stage) -> bool {
    stage == Stage::FollowLog || stage == Stage::MemInfo || stage == Stage::MemWait || stage
        == Stage::CpuInfo || stage == Stage::CpuWait
}

/// Once over, a session stays over and answers every event with the same
/// outcome.
pub proof fn law_finished_is_final(s: AdbLogState, e: EventView)
    requires
        s.stage == Stage::Finished,
    ensures
        next(s, e) == (s, ActionView::Finish(s.outcome)),
{
}

/// An action that could not be carried out ends the session with its error.
pub proof fn law_failure_ends_session(s: AdbLogState, m: Seq<char>)
    requires
        s.stage != Stage::Finished,
    ensures
        next(s, EventView::Failed(m)).0.stage == Stage::Finished,
        next(s, EventView::Failed(m)).0.outcome == Err::<(), Seq<char>>(m),
        next(s, EventView::Failed(m)).1 == ActionView::Finish(Err(m)),
{
}

/// A command that fails ends the session with an error; the one exception
/// is a query for the process, which is asked again.
pub proof fn law_failed_command_ends_session(s: AdbLogState, lines: Seq<Seq<char>>)
    requires
        s.stage != Stage::Finished,
        s.stage != Stage::FindPid,
        event_fits(s, EventView::Ran { ok: false, lines }),
    ensures
        next(s, EventView::Ran { ok: false, lines }).0.stage == Stage::Finished,
        next(s, EventView::Ran { ok: false, lines }).0.outcome is Err,
        next(s, EventView::Ran { ok: false, lines }).1 == ActionView::Finish(
            next(s, EventView::Ran { ok: false, lines }).0.outcome,
        ),
{
}

/// The session follows the log, or watches memory or processor use, only
/// for a process that it found: every step keeps that true.
pub proof fn law_watch_needs_pid(s: AdbLogState, e: EventView)
    requires
        event_fits(s, e),
        watching(s.stage) ==> s.pid != 0,
    ensures
        watching(next(s, e).0.stage) ==> next(s, e).0.pid != 0,
{
}

/// Each query for the process uses one of the `PID_QUERIES` allowed after
/// the start: starting leaves one fewer, and every further query one fewer
/// again.
pub proof fn law_pid_queries_bounded(s: AdbLogState, e: EventView)
    requires
        event_fits(s, e),
        s.stage == Stage::StartApp || s.stage == Stage::FindPid,
        next(s, e).0.stage == Stage::FindPid,
    ensures
        s.stage == Stage::StartApp ==> next(s, e).0.remaining == PID_QUERIES - 1,
        s.stage == Stage::FindPid ==> next(s, e).0.remaining < s.remaining,
{
}

/// An app is removed from the device only in `r` mode, and only after the
/// package list showed it installed: every step keeps the package list a
/// step of `r` mode, and only a listing that shows the package leads to
/// removal.
pub proof fn law_uninstall_only_when_listed(s: AdbLogState, e: EventView)
    requires
        event_fits(s, e),
        s.stage == Stage::ListPackages ==> s.config.cmd == "r"@,
    ensures
        next(s, e).0.stage == Stage::ListPackages ==> next(s, e).0.config.cmd == "r"@,
        s.stage != Stage::Uninstall && next(s, e).0.stage == Stage::Uninstall ==> {
            &&& s.config.cmd == "r"@
            &&& e matches EventView::Ran { ok, lines } && ok && listed(lines, s.package)
        },
{
}

/// The package file is installed with bundletool's `install-apks` exactly
/// when its extension is `apks`, and with `adb install` otherwise; either
/// way the command names the package file.
pub proof fn law_install_by_extension(s: AdbLogState)
    ensures
        install(s).0.stage == Stage::Install,
        extension(exec_path(s), s.config.windows) == Some("apks"@) ==> install(s).1 == run_view(
            "install apks"@,
            Program::Java,
            seq![
                "-jar"@,
                bundletool(),
                "install-apks"@,
                "--adb=adb"@,
                "--device-id="@ + s.device,
                "--apks="@ + exec_path(s),
            ],
            false,
        ),
        extension(exec_path(s), s.config.windows) != Some("apks"@) ==> install(s).1 == run_view(
            "install apk"@,
            Program::Adb,
            seq!["-s"@, s.device, "install"@, exec_path(s)],
            false,
        ),
{
    assert(on_device(s, seq!["install"@, exec_path(s)]) =~= seq![
        "-s"@,
        s.device,
        "install"@,
        exec_path(s),
    ]);
}

/// Watching memory or processor use goes on until something fails: after
/// each two-second wait the same `dumpsys` command is run again on the
/// chosen device, a successful reading leads to the next wait, and no event
/// in these stages ends the session well.
pub proof fn law_watch_repeats(s: AdbLogState, e: EventView)
    requires
        event_fits(s, e),
        s.stage == Stage::MemInfo || s.stage == Stage::MemWait || s.stage == Stage::CpuInfo
            || s.stage == Stage::CpuWait,
    ensures
        next(s, e).1 != ActionView::Finish(Ok(())),
        s.stage == Stage::CpuWait && e == EventView::Done ==> next(s, e) == (
            AdbLogState { stage: Stage::CpuInfo, ..s },
            ActionView::Run(
                CommandView {
                    work: "dumpsys cpuinfo"@,
                    program: Program::Adb,
                    args: seq![
                        "-s"@,
                        s.device,
                        "shell"@,
                        "dumpsys"@,
                        "cpuinfo"@,
                        "|"@,
                        "grep"@,
                        s.package,
                    ],
                    require_output: true,
                },
            ),
        ),
        s.stage == Stage::MemWait && e == EventView::Done ==> next(s, e) == (
            AdbLogState { stage: Stage::MemInfo, ..s },
            ActionView::Run(
                CommandView {
                    work: "dumpsys meminfo"@,
                    program: Program::Adb,
                    args: seq!["-s"@, s.device, "shell"@, "dumpsys"@, "meminfo"@, decimal(s.pid as nat)],
                    require_output: true,
                },
            ),
        ),
        (s.stage == Stage::CpuInfo || s.stage == Stage::MemInfo) && e is Ran && e->ok
            ==> next(s, e) == (
            AdbLogState { stage: if s.stage == Stage::CpuInfo { Stage::CpuWait } else { Stage::MemWait }, ..s },
            ActionView::Wait,
        ),
{
    assert(seq!["-s"@, s.device] + seq!["shell"@, "dumpsys"@, "cpuinfo"@, "|"@, "grep"@, s.package] =~= seq![
        "-s"@,
        s.device,
        "shell"@,
        "dumpsys"@,
        "cpuinfo"@,
        "|"@,
        "grep"@,
        s.package,
    ]);
    assert(seq!["-s"@, s.device] + seq!["shell"@, "dumpsys"@, "meminfo"@, decimal(s.pid as nat)] =~= seq![
        "-s"@,
        s.device,
        "shell"@,
        "dumpsys"@,
        "meminfo"@,
        decimal(s.pid as nat),
    ]);
}

} // verus!
