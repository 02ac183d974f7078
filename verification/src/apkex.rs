//! The `apkex` session: unpack an APK with apktool, or pack a folder back
//! into an APK and sign it.
use vstd::prelude::*;
use crate::path::{join, join_path, law_without_extension, path_with_extension, seps, with_extension};
use crate::cmdline::{command, joined, owned, Command, CommandView, Program};
use crate::text::{chars_of, in_class, str_eq, string_of, string_views, trim, trim_vec, CharClass};

verus! {

/// The keystore settings used to sign a packed APK.
pub struct KeyConfig {
    /// The keystore file.
    pub key_path: String,
    pub alias_name: String,
    pub store_pwd: String,
    pub key_pwd: String,
}

pub struct KeyConfigView {
    pub key_path: Seq<char>,
    pub alias_name: Seq<char>,
    pub store_pwd: Seq<char>,
    pub key_pwd: Seq<char>,
}

impl View for KeyConfig {
    type V = KeyConfigView;

    open spec fn view(&self) -> KeyConfigView {
        KeyConfigView {
            key_path: self.key_path@,
            alias_name: self.alias_name@,
            store_pwd: self.store_pwd@,
            key_pwd: self.key_pwd@,
        }
    }
}

impl Default for KeyConfig {
    /// Settings with every field empty: what is used when there is no
    /// configuration file.
    fn default() -> (c: Self)
        ensures
            c@ == (KeyConfigView {
                key_path: Seq::empty(),
                alias_name: Seq::empty(),
                store_pwd: Seq::empty(),
                key_pwd: Seq::empty(),
            }),
    {
        KeyConfig {
            key_path: String::new(),
            alias_name: String::new(),
            store_pwd: String::new(),
            key_pwd: String::new(),
        }
    }
}

/// What `apkex` was asked to do, with the paths it works with.
pub struct ApkexConfig {
    /// `u` to unpack, `p` to pack.
    pub cmd: String,
    pub apktool_jar: String,
    pub apksigner_jar: String,
    /// The APK to unpack, or the folder to pack.
    pub target: String,
    /// The key configuration given on the command line (may be empty).
    pub key_config_arg: String,
    /// The folder of the tool's assets.
    pub assets: String,
    /// Whether paths are Windows paths.
    pub windows: bool,
}

pub struct ApkexConfigView {
    pub cmd: Seq<char>,
    pub apktool_jar: Seq<char>,
    pub apksigner_jar: Seq<char>,
    pub target: Seq<char>,
    pub key_config_arg: Seq<char>,
    pub assets: Seq<char>,
    pub windows: bool,
}

impl View for ApkexConfig {
    type V = ApkexConfigView;

    open spec fn view(&self) -> ApkexConfigView {
        ApkexConfigView {
            cmd: self.cmd@,
            apktool_jar: self.apktool_jar@,
            apksigner_jar: self.apksigner_jar@,
            target: self.target@,
            key_config_arg: self.key_config_arg@,
            assets: self.assets@,
            windows: self.windows,
        }
    }
}

/// What the session asks of its caller.
pub enum ExAction {
    /// Run a command and report `Ran`.
    Run(Command),
    /// Remove the file or the directory at this path if there is one, then
    /// report `Done`.
    RemovePath(String),
    /// Remove the file at this path if there is one, then report `Done`.
    RemoveFile(String),
    /// Read the key configuration at this path (to be made absolute, and
    /// converted with `cygpath` first when `resolve` is set), with its key
    /// file resolved next to it, and report `KeysLoaded`.
    LoadKeyConfig { path: String, resolve: bool },
    /// The session is over.
    Finish(Result<(), String>),
}

pub enum ExActionView {
    Run(CommandView),
    RemovePath(Seq<char>),
    RemoveFile(Seq<char>),
    LoadKeyConfig { path: Seq<char>, resolve: bool },
    Finish(Result<(), Seq<char>>),
}

impl View for ExAction {
    type V = ExActionView;

    open spec fn view(&self) -> ExActionView {
        match self {
            ExAction::Run(c) => ExActionView::Run(c@),
            ExAction::RemovePath(p) => ExActionView::RemovePath(p@),
            ExAction::RemoveFile(p) => ExActionView::RemoveFile(p@),
            ExAction::LoadKeyConfig { path, resolve } => ExActionView::LoadKeyConfig {
                path: path@,
                resolve: *resolve,
            },
            ExAction::Finish(Ok(())) => ExActionView::Finish(Ok(())),
            ExAction::Finish(Err(m)) => ExActionView::Finish(Err(m@)),
        }
    }
}

/// What the caller reports.
pub enum ExEvent {
    Start,
    Done,
    /// The key configuration, its key file made a path next to the
    /// configuration file and found to exist.
    KeysLoaded(KeyConfig),
    Ran(bool),
    Failed(String),
}

pub enum ExEventView {
    Start,
    Done,
    KeysLoaded(KeyConfigView),
    Ran(bool),
    Failed(Seq<char>),
}

impl View for ExEvent {
    type V = ExEventView;

    open spec fn view(&self) -> ExEventView {
        match self {
            ExEvent::Start => ExEventView::Start,
            ExEvent::Done => ExEventView::Done,
            ExEvent::KeysLoaded(k) => ExEventView::KeysLoaded(k@),
            ExEvent::Ran(ok) => ExEventView::Ran(*ok),
            ExEvent::Failed(m) => ExEventView::Failed(m@),
        }
    }
}

/// Where an `apkex` session stands.
#[derive(Clone, Copy, Debug, PartialEq, Eq, Structural)]
pub enum ExStage {
    Begin,
    ClearUnpacked,
    Unpacking,
    LoadingKeys,
    ClearPacked,
    Packing,
    Signing,
    Finished,
}

/// An `apkex` session.
pub struct Apkex {
    config: ApkexConfig,
    stage: ExStage,
    keys: KeyConfig,
    outcome: Result<(), String>,
}

pub struct ApkexState {
    pub config: ApkexConfigView,
    pub stage: ExStage,
    pub keys: KeyConfigView,
    pub outcome: Result<(), Seq<char>>,
}

impl View for Apkex {
    type V = ApkexState;

    closed spec fn view(&self) -> ApkexState {
        ApkexState {
            config: self.config@,
            stage: self.stage,
            keys: self.keys@,
            outcome: match self.outcome {
                Ok(()) => Ok(()),
                Err(m) => Err(m@),
            },
        }
    }
}

/// Where an APK is unpacked: its path without the extension.
pub open spec fn unpack_dest(c: ApkexConfigView) -> Seq<char> {
    with_extension(c.target, Seq::empty(), c.windows)
}

/// The key configuration used when none is given: in the assets folder.
pub open spec fn default_key_config(c: ApkexConfigView) -> Seq<char> {
    join(c.assets, "default_key_config.json"@, c.windows)
}

/// Where a packed folder goes: `<folder>.repacked.apk`.
pub open spec fn packed_path(target: Seq<char>) -> Seq<char> {
    target + ".repacked.apk"@
}

pub open spec fn java(work: Seq<char>, args: Seq<Seq<char>>) -> ExActionView {
    ExActionView::Run(CommandView { work, program: Program::Java, args, require_output: false })
}

/// apktool's arguments for a mode (`d` or `b`), an input and an output.
pub open spec fn apktool_args(jar: Seq<char>, mode: Seq<char>, input: Seq<char>, output: Seq<char>) -> Seq<Seq<char>> {
    seq!["-jar"@, "-Xms512m"@, "-Xmx1024m"@, jar, "--only-main-classes"@, mode, "-f"@, input, "-o"@, output]
}

/// uber-apk-signer's arguments to sign `apk` in place with `keys`.
pub open spec fn sign_args(jar: Seq<char>, apk: Seq<char>, keys: KeyConfigView) -> Seq<Seq<char>> {
    seq![
        "-jar"@,
        jar,
        "--allowResign"@,
        "--overwrite"@,
        "-ks"@,
        keys.key_path,
        "--ksPass"@,
        keys.store_pwd,
        "--ksAlias"@,
        keys.alias_name,
        "--ksKeyPass"@,
        keys.key_pwd,
        "-a"@,
        apk,
    ]
}

pub open spec fn ex_fail(s: ApkexState, msg: Seq<char>) -> (ApkexState, ExActionView) {
    (ApkexState { stage: ExStage::Finished, outcome: Err(msg), ..s }, ExActionView::Finish(Err(msg)))
}

pub open spec fn ex_goto(s: ApkexState, stage: ExStage, a: ExActionView) -> (ApkexState, ExActionView) {
    (ApkexState { stage, ..s }, a)
}

/// The command, without surrounding white space, decides: `u` unpacks,
/// `p` packs (reading the key configuration first), anything else fails.
pub open spec fn ex_start(s: ApkexState) -> (ApkexState, ExActionView) {
    let cmd = trim(s.config.cmd, CharClass::Whitespace);
    if cmd == "u"@ {
        ex_goto(s, ExStage::ClearUnpacked, ExActionView::RemovePath(unpack_dest(s.config)))
    } else if cmd == "p"@ {
        if s.config.key_config_arg.len() == 0 {
            ex_goto(
                s,
                ExStage::LoadingKeys,
                ExActionView::LoadKeyConfig {
                    path: default_key_config(s.config),
                    resolve: false,
                },
            )
        } else {
            ex_goto(
                s,
                ExStage::LoadingKeys,
                ExActionView::LoadKeyConfig { path: s.config.key_config_arg, resolve: true },
            )
        }
    } else {
        ex_fail(s, "unknown cmd: "@ + cmd)
    }
}

/// The session's answer to an event.
pub open spec fn ex_next(s: ApkexState, e: ExEventView) -> (ApkexState, ExActionView) {
    let c = s.config;
    if s.stage == ExStage::Finished {
        (s, ExActionView::Finish(s.outcome))
    } else {
        match e {
            ExEventView::Failed(m) => ex_fail(s, m),
            ExEventView::Start => ex_start(s),
            ExEventView::KeysLoaded(k) => ex_goto(
                ApkexState { keys: k, ..s },
                ExStage::ClearPacked,
                ExActionView::RemoveFile(packed_path(c.target)),
            ),
            ExEventView::Done => if s.stage == ExStage::ClearUnpacked {
                ex_goto(
                    s,
                    ExStage::Unpacking,
                    java("unpack"@, apktool_args(c.apktool_jar, "d"@, c.target, unpack_dest(c))),
                )
            } else {
                ex_goto(
                    s,
                    ExStage::Packing,
                    java("pack"@, apktool_args(c.apktool_jar, "b"@, c.target, packed_path(c.target))),
                )
            },
            ExEventView::Ran(ok) => match s.stage {
                ExStage::Unpacking => if !ok {
                    ex_fail(s, "Failed to unpack apk"@)
                } else {
                    (ApkexState { stage: ExStage::Finished, outcome: Ok(()), ..s }, ExActionView::Finish(Ok(())))
                },
                ExStage::Packing => if !ok {
                    ex_fail(s, "Failed to pack apk"@)
                } else {
                    ex_goto(
                        s,
                        ExStage::Signing,
                        java("sign"@, sign_args(c.apksigner_jar, packed_path(c.target), s.keys)),
                    )
                },
                _ => if !ok {
                    ex_fail(s, "Failed to sign apk"@)
                } else {
                    (ApkexState { stage: ExStage::Finished, outcome: Ok(()), ..s }, ExActionView::Finish(Ok(())))
                },
            },
        }
    }
}

/// An event that the session can take in its present stage.
pub open spec fn ex_event_fits(s: ApkexState, e: ExEventView) -> bool {
    s.stage == ExStage::Finished || match e {
        ExEventView::Failed(_) => true,
        ExEventView::Start => s.stage == ExStage::Begin,
        ExEventView::KeysLoaded(_) => s.stage == ExStage::LoadingKeys,
        ExEventView::Done => s.stage == ExStage::ClearUnpacked || s.stage == ExStage::ClearPacked,
        ExEventView::Ran(_) => s.stage == ExStage::Unpacking || s.stage == ExStage::Packing || s.stage
            == ExStage::Signing,
    }
}

fn copy_string(s: &String) -> (r: String)
    ensures
        r@ == s@,
{
    owned(s.as_str())
}

fn apktool_command(work: &str, jar: &String, mode: &str, input: &String, output: String) -> (a: ExAction)
    ensures
        a@ == java(work@, apktool_args(jar@, mode@, input@, output@)),
{
    let args = vec![
        owned("-jar"),
        owned("-Xms512m"),
        owned("-Xmx1024m"),
        copy_string(jar),
        owned("--only-main-classes"),
        owned(mode),
        owned("-f"),
        copy_string(input),
        owned("-o"),
        output,
    ];
    assert(string_views(args@) =~= apktool_args(jar@, mode@, input@, output@));
    ExAction::Run(command(work, Program::Java, args, false))
}

impl Apkex {
    /// A session that has not begun.
    pub fn new(config: ApkexConfig) -> (s: Self)
        ensures
            s@.config == config@,
            s@.stage == ExStage::Begin,
            s@.keys == (KeyConfigView {
                key_path: Seq::empty(),
                alias_name: Seq::empty(),
                store_pwd: Seq::empty(),
                key_pwd: Seq::empty(),
            }),
            s@.outcome == Ok::<(), Seq<char>>(()),
    {
        Apkex { config, stage: ExStage::Begin, keys: KeyConfig::default(), outcome: Ok(()) }
    }

    fn fail_with(&mut self, msg: String) -> (a: ExAction)
        ensures
            (final(self)@, a@) == ex_fail(old(self)@, msg@),
    {
        self.stage = ExStage::Finished;
        self.outcome = Err(copy_string(&msg));
        ExAction::Finish(Err(msg))
    }

    fn unpack_dest(&self) -> (p: String)
        ensures
            p@ == unpack_dest(self@.config),
    {
        let p = path_with_extension(self.config.target.as_str(), "", self.config.windows);
        proof {
            reveal_strlit("");
            assert(""@ =~= Seq::<char>::empty());
        }
        p
    }

    fn packed(&self) -> (p: String)
        ensures
            p@ == packed_path(self@.config.target),
    {
        joined(self.config.target.as_str(), ".repacked.apk")
    }

    fn start(&mut self) -> (a: ExAction)
        ensures
            (final(self)@, a@) == ex_start(old(self)@),
    {
        let cmd_chars = chars_of(self.config.cmd.as_str());
        let cmd = string_of(&trim_vec(&cmd_chars, CharClass::Whitespace));
        if str_eq(cmd.as_str(), "u") {
            self.stage = ExStage::ClearUnpacked;
            ExAction::RemovePath(self.unpack_dest())
        } else if str_eq(cmd.as_str(), "p") {
            self.stage = ExStage::LoadingKeys;
            if self.config.key_config_arg.as_str().is_empty() {
                ExAction::LoadKeyConfig {
                    path: join_path(self.config.assets.as_str(), "default_key_config.json", self.config.windows),
                    resolve: false,
                }
            } else {
                ExAction::LoadKeyConfig { path: copy_string(&self.config.key_config_arg), resolve: true }
            }
        } else {
            self.fail_with(joined("unknown cmd: ", cmd.as_str()))
        }
    }

    /// Takes in an event and answers with the next action.
    pub fn step(&mut self, e: ExEvent) -> (a: ExAction)
        requires
            ex_event_fits(old(self)@, e@),
        ensures
            (final(self)@, a@) == ex_next(old(self)@, e@),
    {
        if self.stage == ExStage::Finished {
            return match &self.outcome {
                Ok(()) => ExAction::Finish(Ok(())),
                Err(m) => ExAction::Finish(Err(copy_string(m))),
            };
        }
        match e {
            ExEvent::Failed(m) => self.fail_with(m),
            ExEvent::Start => self.start(),
            ExEvent::KeysLoaded(k) => {
                self.keys = k;
                self.stage = ExStage::ClearPacked;
                ExAction::RemoveFile(self.packed())
            },
            ExEvent::Done => {
                if self.stage == ExStage::ClearUnpacked {
                    self.stage = ExStage::Unpacking;
                    apktool_command(
                        "unpack",
                        &self.config.apktool_jar,
                        "d",
                        &self.config.target,
                        self.unpack_dest(),
                    )
                } else {
                    self.stage = ExStage::Packing;
                    let out = self.packed();
                    apktool_command("pack", &self.config.apktool_jar, "b", &self.config.target, out)
                }
            },
            ExEvent::Ran(ok) => {
                match self.stage {
                    ExStage::Unpacking => {
                        if !ok {
                            self.fail_with(owned("Failed to unpack apk"))
                        } else {
                            self.stage = ExStage::Finished;
                            self.outcome = Ok(());
                            ExAction::Finish(Ok(()))
                        }
                    },
                    ExStage::Packing => {
                        if !ok {
                            self.fail_with(owned("Failed to pack apk"))
                        } else {
                            let args = vec![
                                owned("-jar"),
                                copy_string(&self.config.apksigner_jar),
                                owned("--allowResign"),
                                owned("--overwrite"),
                                owned("-ks"),
                                copy_string(&self.keys.key_path),
                                owned("--ksPass"),
                                copy_string(&self.keys.store_pwd),
                                owned("--ksAlias"),
                                copy_string(&self.keys.alias_name),
                                owned("--ksKeyPass"),
                                copy_string(&self.keys.key_pwd),
                                owned("-a"),
                                self.packed(),
                            ];
                            assert(string_views(args@) =~= sign_args(
                                self@.config.apksigner_jar,
                                packed_path(self@.config.target),
                                self@.keys,
                            ));
                            self.stage = ExStage::Signing;
                            ExAction::Run(command("sign", Program::Java, args, false))
                        }
                    },
                    _ => {
                        if !ok {
                            self.fail_with(owned("Failed to sign apk"))
                        } else {
                            self.stage = ExStage::Finished;
                            self.outcome = Ok(());
                            ExAction::Finish(Ok(()))
                        }
                    },
                }
            },
        }
    }
}

/// A command other than `u` or `p` is refused before anything is done, with
/// the command named in the error.
pub proof fn law_unknown_command_refused(s: ApkexState)
    requires
        s.stage == ExStage::Begin,
        trim(s.config.cmd, CharClass::Whitespace) != "u"@,
        trim(s.config.cmd, CharClass::Whitespace) != "p"@,
    ensures
        ex_next(s, ExEventView::Start).0.stage == ExStage::Finished,
        ex_next(s, ExEventView::Start).1 == ExActionView::Finish(
            Err("unknown cmd: "@ + trim(s.config.cmd, CharClass::Whitespace)),
        ),
{
}

/// What is signed is what was packed: the signing command names the packed
/// file, and signing comes only after a successful pack.
pub proof fn law_sign_follows_pack(s: ApkexState, e: ExEventView)
    requires
        ex_event_fits(s, e),
        s.stage != ExStage::Signing,
        ex_next(s, e).0.stage == ExStage::Signing,
    ensures
        s.stage == ExStage::Packing,
        e == ExEventView::Ran(true),
        ex_next(s, e).1 == java(
            "sign"@,
            sign_args(s.config.apksigner_jar, packed_path(s.config.target), s.keys),
        ),
{
}

/// A pack session, step by step: it loads the keys, clears the old packed
/// file, packs, and then signs exactly the packed file with the loaded keys;
/// the session ends well when signing succeeds, with `Failed to sign apk`
/// when it fails, and with the error of a signing run that could not start.
pub proof fn law_pack_session(
    c: ApkexConfigView,
    k0: KeyConfigView,
    k: KeyConfigView,
    m: Seq<char>,
)
    requires
        trim(c.cmd, CharClass::Whitespace) == "p"@,
    ensures
        ({
            let s0 = ApkexState { config: c, stage: ExStage::Begin, keys: k0, outcome: Ok(()) };
            let r1 = ex_next(s0, ExEventView::Start);
            let r2 = ex_next(r1.0, ExEventView::KeysLoaded(k));
            let r3 = ex_next(r2.0, ExEventView::Done);
            let r4 = ex_next(r3.0, ExEventView::Ran(true));
            &&& r1.1 is LoadKeyConfig
            &&& r2.1 == ExActionView::RemoveFile(packed_path(c.target))
            &&& r3.1 == java(
                "pack"@,
                apktool_args(c.apktool_jar, "b"@, c.target, packed_path(c.target)),
            )
            &&& r4.1 == java("sign"@, sign_args(c.apksigner_jar, packed_path(c.target), k))
            &&& ex_next(r4.0, ExEventView::Ran(true)).1 == ExActionView::Finish(Ok(()))
            &&& ex_next(r4.0, ExEventView::Ran(false)).1 == ExActionView::Finish(
                Err("Failed to sign apk"@),
            )
            &&& ex_next(r4.0, ExEventView::Failed(m)).1 == ExActionView::Finish(Err(m))
        }),
{
    reveal_strlit("u");
    reveal_strlit("p");
    assert("u"@ != "p"@) by {
        assert("u"@[0] != "p"@[0]);
    }
}

/// An unpack session on `<base>.<ext>` clears and then fills exactly
/// `<base>`: only the one extension is removed, whatever dots `base` holds,
/// when `ext` is a non-empty extension (no `.` or separator in it) and
/// `base` does not end with a separator.
pub proof fn law_unpack_strips_one_extension(
    c: ApkexConfigView,
    k0: KeyConfigView,
    base: Seq<char>,
    ext: Seq<char>,
)
    requires
        trim(c.cmd, CharClass::Whitespace) == "u"@,
        c.target == base + seq!['.'] + ext,
        base.len() > 0,
        !in_class(base.last(), seps(c.windows)),
        ext.len() > 0,
        forall|k: int| 0 <= k < ext.len() ==> #[trigger] ext[k] != '.' && !in_class(ext[k], seps(c.windows)),
    ensures
        unpack_dest(c) == base,
        ({
            let s0 = ApkexState { config: c, stage: ExStage::Begin, keys: k0, outcome: Ok(()) };
            let r1 = ex_next(s0, ExEventView::Start);
            let r2 = ex_next(r1.0, ExEventView::Done);
            &&& r1.1 == ExActionView::RemovePath(base)
            &&& r2.1 == java(
                "unpack"@,
                seq![
                    "-jar"@,
                    "-Xms512m"@,
                    "-Xmx1024m"@,
                    c.apktool_jar,
                    "--only-main-classes"@,
                    "d"@,
                    "-f"@,
                    c.target,
                    "-o"@,
                    base,
                ],
            )
        }),
{
    law_without_extension(base, ext, c.windows);
    assert(base + seq!['.'] + ext == c.target);
}

} // verus!
