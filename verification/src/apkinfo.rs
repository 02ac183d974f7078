//! The `apkinfo` session: print an APK's badging, verify its signature and
//! read its channel, stopping at the first step that fails.
use vstd::prelude::*;
use crate::cmdline::{command, owned, Command, CommandView, Program};
use crate::text::string_views;

verus! {

/// The files that `apkinfo` works with.
pub struct ApkInfoConfig {
    /// The APK to inspect.
    pub apk: String,
    /// The `apksigner` jar of the newest build tools.
    pub apksigner_jar: String,
    /// The VasDolly jar.
    pub vasdolly_jar: String,
}

pub struct ApkInfoConfigView {
    pub apk: Seq<char>,
    pub apksigner_jar: Seq<char>,
    pub vasdolly_jar: Seq<char>,
}

impl View for ApkInfoConfig {
    type V = ApkInfoConfigView;

    open spec fn view(&self) -> ApkInfoConfigView {
        ApkInfoConfigView {
            apk: self.apk@,
            apksigner_jar: self.apksigner_jar@,
            vasdolly_jar: self.vasdolly_jar@,
        }
    }
}

/// Where an `apkinfo` session stands.
#[derive(Clone, Copy, Debug, PartialEq, Eq, Structural)]
pub enum InfoStage {
    Begin,
    Badging,
    Verify,
    Channel,
    Finished,
}

/// What the session asks of its caller.
pub enum InfoAction {
    /// Run a command and report whether it succeeded.
    Run(Command),
    /// The session is over.
    Finish(Result<(), String>),
}

pub enum InfoActionView {
    Run(CommandView),
    Finish(Result<(), Seq<char>>),
}

impl View for InfoAction {
    type V = InfoActionView;

    open spec fn view(&self) -> InfoActionView {
        match self {
            InfoAction::Run(c) => InfoActionView::Run(c@),
            InfoAction::Finish(Ok(())) => InfoActionView::Finish(Ok(())),
            InfoAction::Finish(Err(m)) => InfoActionView::Finish(Err(m@)),
        }
    }
}

/// What the caller reports.
pub enum InfoEvent {
    /// The session begins.
    Start,
    /// The command ran, successfully or not.
    Ran(bool),
    /// The command could not be run, with the error.
    Failed(String),
}

pub enum InfoEventView {
    Start,
    Ran(bool),
    Failed(Seq<char>),
}

impl View for InfoEvent {
    type V = InfoEventView;

    open spec fn view(&self) -> InfoEventView {
        match self {
            InfoEvent::Start => InfoEventView::Start,
            InfoEvent::Ran(ok) => InfoEventView::Ran(*ok),
            InfoEvent::Failed(m) => InfoEventView::Failed(m@),
        }
    }
}

/// An `apkinfo` session.
pub struct ApkInfo {
    config: ApkInfoConfig,
    stage: InfoStage,
    outcome: Result<(), String>,
}

pub struct ApkInfoState {
    pub config: ApkInfoConfigView,
    pub stage: InfoStage,
    pub outcome: Result<(), Seq<char>>,
}

impl View for ApkInfo {
    type V = ApkInfoState;

    closed spec fn view(&self) -> ApkInfoState {
        ApkInfoState {
            config: self.config@,
            stage: self.stage,
            outcome: match self.outcome {
                Ok(()) => Ok(()),
                Err(m) => Err(m@),
            },
        }
    }
}

pub open spec fn info_run(work: Seq<char>, program: Program, args: Seq<Seq<char>>) -> InfoActionView {
    InfoActionView::Run(CommandView { work, program, args, require_output: false })
}

pub open spec fn info_fail(s: ApkInfoState, msg: Seq<char>) -> (ApkInfoState, InfoActionView) {
    (ApkInfoState { stage: InfoStage::Finished, outcome: Err(msg), ..s }, InfoActionView::Finish(Err(msg)))
}

/// The session's answer to an event.
pub open spec fn info_next(s: ApkInfoState, e: InfoEventView) -> (ApkInfoState, InfoActionView) {
    let c = s.config;
    if s.stage == InfoStage::Finished {
        (s, InfoActionView::Finish(s.outcome))
    } else {
        match e {
            InfoEventView::Failed(m) => info_fail(s, m),
            InfoEventView::Start => (
                ApkInfoState { stage: InfoStage::Badging, ..s },
                info_run("aapt2"@, Program::Aapt2, seq!["dump"@, "badging"@, c.apk]),
            ),
            InfoEventView::Ran(ok) => match s.stage {
                InfoStage::Badging => if !ok {
                    info_fail(s, "extract apk failed"@)
                } else {
                    (
                        ApkInfoState { stage: InfoStage::Verify, ..s },
                        info_run(
                            "apksigner"@,
                            Program::Java,
                            seq!["-jar"@, c.apksigner_jar, "verify"@, "--print-certs"@, "-v"@, c.apk],
                        ),
                    )
                },
                InfoStage::Verify => if !ok {
                    info_fail(s, "verify apk failed"@)
                } else {
                    (
                        ApkInfoState { stage: InfoStage::Channel, ..s },
                        info_run(
                            "vasdolly"@,
                            Program::Java,
                            seq!["-jar"@, c.vasdolly_jar, "get"@, "-c"@, c.apk],
                        ),
                    )
                },
                _ => if !ok {
                    info_fail(s, "get channel failed"@)
                } else {
                    (ApkInfoState { stage: InfoStage::Finished, outcome: Ok(()), ..s }, InfoActionView::Finish(Ok(())))
                },
            },
        }
    }
}

/// An event that the session can take in its present stage.
pub open spec fn info_event_fits(s: ApkInfoState, e: InfoEventView) -> bool {
    match e {
        InfoEventView::Start => s.stage == InfoStage::Begin || s.stage == InfoStage::Finished,
        InfoEventView::Ran(_) => s.stage != InfoStage::Begin,
        InfoEventView::Failed(_) => true,
    }
}

fn copy_string(s: &String) -> (r: String)
    ensures
        r@ == s@,
{
    owned(s.as_str())
}

impl ApkInfo {
    /// A session that has not begun.
    pub fn new(config: ApkInfoConfig) -> (s: Self)
        ensures
            s@ == (ApkInfoState { config: config@, stage: InfoStage::Begin, outcome: Ok(()) }),
    {
        ApkInfo { config, stage: InfoStage::Begin, outcome: Ok(()) }
    }

    fn fail_with(&mut self, msg: String) -> (a: InfoAction)
        ensures
            (final(self)@, a@) == info_fail(old(self)@, msg@),
    {
        self.stage = InfoStage::Finished;
        self.outcome = Err(copy_string(&msg));
        InfoAction::Finish(Err(msg))
    }

    /// Takes in an event and answers with the next action.
    pub fn step(&mut self, e: InfoEvent) -> (a: InfoAction)
        requires
            info_event_fits(old(self)@, e@),
        ensures
            (final(self)@, a@) == info_next(old(self)@, e@),
    {
        if self.stage == InfoStage::Finished {
            return match &self.outcome {
                Ok(()) => InfoAction::Finish(Ok(())),
                Err(m) => InfoAction::Finish(Err(copy_string(m))),
            };
        }
        let apk = copy_string(&self.config.apk);
        match e {
            InfoEvent::Failed(m) => self.fail_with(m),
            InfoEvent::Start => {
                let args = vec![owned("dump"), owned("badging"), apk];
                assert(string_views(args@) =~= seq!["dump"@, "badging"@, self@.config.apk]);
                self.stage = InfoStage::Badging;
                InfoAction::Run(command("aapt2", Program::Aapt2, args, false))
            },
            InfoEvent::Ran(ok) => {
                match self.stage {
                    InfoStage::Badging => {
                        if !ok {
                            self.fail_with(owned("extract apk failed"))
                        } else {
                            let args = vec![
                                owned("-jar"),
                                copy_string(&self.config.apksigner_jar),
                                owned("verify"),
                                owned("--print-certs"),
                                owned("-v"),
                                apk,
                            ];
                            assert(string_views(args@) =~= seq![
                                "-jar"@,
                                self@.config.apksigner_jar,
                                "verify"@,
                                "--print-certs"@,
                                "-v"@,
                                self@.config.apk,
                            ]);
                            self.stage = InfoStage::Verify;
                            InfoAction::Run(command("apksigner", Program::Java, args, false))
                        }
                    },
                    InfoStage::Verify => {
                        if !ok {
                            self.fail_with(owned("verify apk failed"))
                        } else {
                            let args = vec![
                                owned("-jar"),
                                copy_string(&self.config.vasdolly_jar),
                                owned("get"),
                                owned("-c"),
                                apk,
                            ];
                            assert(string_views(args@) =~= seq![
                                "-jar"@,
                                self@.config.vasdolly_jar,
                                "get"@,
                                "-c"@,
                                self@.config.apk,
                            ]);
                            self.stage = InfoStage::Channel;
                            InfoAction::Run(command("vasdolly", Program::Java, args, false))
                        }
                    },
                    _ => {
                        if !ok {
                            self.fail_with(owned("get channel failed"))
                        } else {
                            self.stage = InfoStage::Finished;
                            self.outcome = Ok(());
                            InfoAction::Finish(Ok(()))
                        }
                    },
                }
            },
        }
    }
}

/// A step that fails ends the session with that step's error, and the
/// session then stays over.
pub proof fn law_info_failure_is_final(s: ApkInfoState, e: InfoEventView, e2: InfoEventView)
    requires
        s.stage != InfoStage::Finished,
        s.stage != InfoStage::Begin,
        e == InfoEventView::Ran(false),
    ensures
        info_next(s, e).0.stage == InfoStage::Finished,
        info_next(s, e).0.outcome is Err,
        info_next(info_next(s, e).0, e2).1 == InfoActionView::Finish(info_next(s, e).0.outcome),
{
}

/// The session finishes well only after all three commands succeeded in
/// order: a successful end comes from the channel step.
pub proof fn law_info_success_needs_all_steps(s: ApkInfoState, e: InfoEventView)
    requires
        info_event_fits(s, e),
        s.stage != InfoStage::Finished,
        info_next(s, e).0.stage == InfoStage::Finished,
        info_next(s, e).0.outcome is Ok,
    ensures
        s.stage == InfoStage::Channel,
        e == InfoEventView::Ran(true),
{
}

} // verus!
