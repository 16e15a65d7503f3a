//! The session sequencer: the fixed order of commands and pauses that
//! configures the device over an open transport.
//!
//! The sequencer never touches the transport. It hands out one action at a
//! time, and is told how that action went before it hands out the next. A
//! failed write ends the session: nothing more is written after it.

use vstd::prelude::*;
use vstd::string::*;
use crate::commands::{media_delete_body, media_delete_text, screen_config_body, screen_config_text};
use crate::data::{command_frame, framed_at, stamped};
use crate::error::ProtocolError;
use crate::frame::{lemma_decode_frame, message_of};
use crate::screen_setup::{ScreenConfig, ScreenConfigView};

verus! {

/// The pause before the buffers are cleared, in milliseconds.
pub const SETTLE_MS: u64 = 100;

/// The pause after a keepalive that precedes a command, in milliseconds.
pub const AFTER_KEEPALIVE_MS: u64 = 200;

/// The pause after the media cleanup, in milliseconds.
pub const AFTER_CLEANUP_MS: u64 = 300;

/// The pause before each of the keepalives that follow the configuration,
/// in milliseconds. The device firmware asks for this cadence.
pub const KEEPALIVE_PERIOD_MS: u64 = 800;

/// The number of steps in the script of a session.
pub const SCRIPT_LEN: usize = 19;

/// One step of a session.
#[derive(Debug, Clone, Copy, PartialEq, Eq, Structural)]
pub enum Step {
    /// Wait for so many milliseconds.
    Pause(u64),
    /// Discard what the transport has buffered.
    ClearBuffers,
    /// Send a fresh telemetry snapshot as the command `all`.
    Keepalive,
    /// Send `mediaDelete`, which keeps the new file only.
    MediaCleanup,
    /// Send `waterBlockScreenId` with the configuration.
    Configure,
}

/// The steps of a session, in order: settle and clear, a first keepalive,
/// the media cleanup, a keepalive, the configuration, then five keepalives,
/// each after its pause.
pub open spec fn script() -> Seq<Step> {
    seq![
        Step::Pause(SETTLE_MS),
        Step::ClearBuffers,
        Step::Keepalive,
        Step::Pause(AFTER_KEEPALIVE_MS),
        Step::MediaCleanup,
        Step::Pause(AFTER_CLEANUP_MS),
        Step::Keepalive,
        Step::Pause(AFTER_KEEPALIVE_MS),
        Step::Configure,
        Step::Pause(KEEPALIVE_PERIOD_MS),
        Step::Keepalive,
        Step::Pause(KEEPALIVE_PERIOD_MS),
        Step::Keepalive,
        Step::Pause(KEEPALIVE_PERIOD_MS),
        Step::Keepalive,
        Step::Pause(KEEPALIVE_PERIOD_MS),
        Step::Keepalive,
        Step::Pause(KEEPALIVE_PERIOD_MS),
        Step::Keepalive,
    ]
}

/// The step at position `pc` of the script, if the script is that long.
pub open spec fn script_step(pc: nat) -> Option<Step> {
    if pc < script().len() {
        Some(script()[pc as int])
    } else {
        None
    }
}

/// The step at position `pc` of the script.
pub fn step_at(pc: usize) -> (step: Option<Step>)
    ensures
        step == script_step(pc as nat),
{
    if pc >= SCRIPT_LEN {
        None
    } else if pc == 0 {
        Some(Step::Pause(SETTLE_MS))
    } else if pc == 1 {
        Some(Step::ClearBuffers)
    } else if pc == 4 {
        Some(Step::MediaCleanup)
    } else if pc == 5 {
        Some(Step::Pause(AFTER_CLEANUP_MS))
    } else if pc == 8 {
        Some(Step::Configure)
    } else if pc == 3 || pc == 7 {
        Some(Step::Pause(AFTER_KEEPALIVE_MS))
    } else if pc % 2 == 0 {
        Some(Step::Keepalive)
    } else {
        Some(Step::Pause(KEEPALIVE_PERIOD_MS))
    }
}

/// What the sequencer asks of whoever holds the transport.
#[derive(Debug)]
pub enum SessionAction {
    /// Sleep for so many milliseconds, then reply `Completed`.
    Pause(u64),
    /// Discard the buffered bytes of the transport. A failure to do so may
    /// be reported, and is passed over.
    ClearBuffers,
    /// Read the telemetry now and reply with its JSON text.
    TakeSnapshot,
    /// Write these bytes, one whole frame, and flush.
    Write(Vec<u8>),
    /// The session is complete.
    Done,
    /// The session has ended with this error. Nothing more is to be
    /// written.
    Failed(String),
}

/// How the last action went.
#[derive(Debug)]
pub enum SessionReply {
    /// The action was carried out.
    Completed,
    /// The telemetry that was asked for, as JSON text.
    Snapshot(String),
    /// The action failed, for this reason.
    Failed(String),
}

/// Where a session stands.
#[derive(Debug, Clone, Copy, PartialEq, Eq, Structural)]
pub enum Stage {
    /// Nothing has been asked yet.
    Fresh,
    /// The action of the current step is under way.
    Awaiting,
    /// The telemetry for the current step has been asked for.
    AwaitingSnapshot,
    /// Every step has been carried out.
    Done,
    /// A step has failed.
    Failed,
}

/// The sequencer of one session.
#[derive(Debug)]
pub struct Session {
    file_name: String,
    config: ScreenConfig,
    pc: usize,
    stage: Stage,
    failure: String,
}

/// A session as plain values: the file it announces, the configuration it
/// sends, the position in the script, the stage, and the reason of the
/// failure once there is one.
pub struct SessionView {
    pub file_name: Seq<char>,
    pub config: ScreenConfigView,
    pub pc: nat,
    pub stage: Stage,
    pub failure: Seq<char>,
}

impl SessionView {
    /// The session moved to position `pc` and stage `stage`.
    pub open spec fn at(self, pc: nat, stage: Stage) -> SessionView {
        SessionView { pc, stage, ..self }
    }

    /// The session ended by a failure with this reason.
    pub open spec fn failed_with(self, reason: Seq<char>) -> SessionView {
        SessionView { stage: Stage::Failed, failure: reason, ..self }
    }

    /// A session that has not begun.
    pub open spec fn fresh(file_name: Seq<char>, config: ScreenConfigView) -> SessionView {
        SessionView { file_name, config, pc: 0, stage: Stage::Fresh, failure: Seq::empty() }
    }
}

/// The reason given where a reply does not answer the action that is under
/// way, or where a session is started twice.
pub open spec fn out_of_turn() -> Seq<char> {
    "Reply does not match the pending action"@
}

/// The session ends in failure for `reason`, and says so.
pub open spec fn aborts(
    pre: SessionView,
    post: SessionView,
    action: SessionAction,
    reason: Seq<char>,
) -> bool {
    &&& post == pre.failed_with(reason)
    &&& action matches SessionAction::Failed(said)
    &&& said@ == reason
}

/// The session, at position `pc`, sends `command` with `body`: it asks for
/// the write of the frame of that message, made at some time; or, where the
/// message does not fit in a frame, it ends in failure.
pub open spec fn sends(
    pre: SessionView,
    pc: nat,
    command: Seq<char>,
    body: Seq<char>,
    post: SessionView,
    action: SessionAction,
) -> bool {
    exists|now_ms: u128|
        match #[trigger] framed_at(command, body, now_ms) {
            Ok(frame) => {
                &&& post == pre.at(pc, Stage::Awaiting)
                &&& action matches SessionAction::Write(bytes)
                &&& bytes@ == frame
            },
            Err(e) => aborts(pre.at(pc, pre.stage), post, action, e.text()),
        }
}

/// The session takes up the step at position `pc`.
pub open spec fn issues(pre: SessionView, pc: nat, post: SessionView, action: SessionAction) -> bool {
    match script_step(pc) {
        None => post == pre.at(pc, Stage::Done) && action is Done,
        Some(Step::Pause(millis)) => post == pre.at(pc, Stage::Awaiting) && action
            == SessionAction::Pause(millis),
        Some(Step::ClearBuffers) => post == pre.at(pc, Stage::Awaiting) && action is ClearBuffers,
        Some(Step::Keepalive) => post == pre.at(pc, Stage::AwaitingSnapshot)
            && action is TakeSnapshot,
        Some(Step::MediaCleanup) => sends(
            pre,
            pc,
            "mediaDelete"@,
            media_delete_text(pre.file_name),
            post,
            action,
        ),
        Some(Step::Configure) => sends(
            pre,
            pc,
            "waterBlockScreenId"@,
            screen_config_text(pre.config, pre.file_name),
            post,
            action,
        ),
    }
}

/// What `Session::start` does.
pub open spec fn starts(pre: SessionView, post: SessionView, action: SessionAction) -> bool {
    match pre.stage {
        Stage::Fresh => issues(pre, 0, post, action),
        Stage::Done => post == pre && action is Done,
        Stage::Failed => aborts(pre, post, action, pre.failure),
        _ => aborts(pre, post, action, out_of_turn()),
    }
}

/// What `Session::advance` does with a reply.
///
/// A finished or failed session stays as it is. Otherwise a step that went
/// well is followed by the next one; a snapshot is sent as the command
/// `all`; a failure ends the session with its reason, unless it is the
/// clearing of the buffers that failed, which is passed over.
pub open spec fn advances(
    pre: SessionView,
    reply: SessionReply,
    post: SessionView,
    action: SessionAction,
) -> bool {
    match pre.stage {
        Stage::Done => post == pre && action is Done,
        Stage::Failed => aborts(pre, post, action, pre.failure),
        Stage::Fresh => aborts(pre, post, action, out_of_turn()),
        Stage::Awaiting => match reply {
            SessionReply::Completed => issues(pre, pre.pc + 1, post, action),
            SessionReply::Failed(reason) => if script_step(pre.pc) == Some(Step::ClearBuffers) {
                issues(pre, pre.pc + 1, post, action)
            } else {
                aborts(pre, post, action, reason@)
            },
            SessionReply::Snapshot(_) => aborts(pre, post, action, out_of_turn()),
        },
        Stage::AwaitingSnapshot => match reply {
            SessionReply::Snapshot(json) => sends(pre, pre.pc, "all"@, json@, post, action),
            SessionReply::Failed(reason) => aborts(pre, post, action, reason@),
            SessionReply::Completed => aborts(pre, post, action, out_of_turn()),
        },
    }
}

impl View for Session {
    type V = SessionView;

    closed spec fn view(&self) -> SessionView {
        SessionView {
            file_name: self.file_name@,
            config: self.config@,
            pc: self.pc as nat,
            stage: self.stage,
            failure: self.failure@,
        }
    }
}

impl Session {
    /// The position stays within the script, and an action is under way
    /// only at one of its steps.
    #[verifier::type_invariant]
    spec fn in_script(self) -> bool {
        &&& self.pc <= SCRIPT_LEN
        &&& (self.stage is Awaiting || self.stage is AwaitingSnapshot) ==> self.pc < SCRIPT_LEN
    }

    /// A session that announces `file_name` and sends `config`. It has not
    /// begun.
    pub fn new(file_name: &str, config: &ScreenConfig) -> (session: Session)
        ensures
            session@ == SessionView::fresh(file_name@, config@),
    {
        Session {
            file_name: file_name.to_owned(),
            config: config.clone(),
            pc: 0,
            stage: Stage::Fresh,
            failure: String::new(),
        }
    }

    /// Begins the session and gives its first action.
    pub fn start(&mut self) -> (action: SessionAction)
        ensures
            starts(old(self)@, final(self)@, action),
    {
        match self.stage {
            Stage::Fresh => self.issue(0),
            Stage::Done => SessionAction::Done,
            Stage::Failed => SessionAction::Failed(self.failure.clone()),
            _ => self.fail("Reply does not match the pending action"),
        }
    }

    /// Takes the reply to the last action and gives the next action.
    pub fn advance(&mut self, reply: SessionReply) -> (action: SessionAction)
        ensures
            advances(old(self)@, reply, final(self)@, action),
    {
        proof {
            use_type_invariant(&*self);
        }
        match self.stage {
            Stage::Done => SessionAction::Done,
            Stage::Failed => SessionAction::Failed(self.failure.clone()),
            Stage::Fresh => self.fail("Reply does not match the pending action"),
            Stage::Awaiting => match reply {
                SessionReply::Completed => {
                    let next: usize = self.pc + 1;
                    self.issue(next)
                },
                SessionReply::Failed(reason) => {
                    match step_at(self.pc) {
                        Some(Step::ClearBuffers) => {
                            let next: usize = self.pc + 1;
                            self.issue(next)
                        },
                        _ => self.fail(reason.as_str()),
                    }
                },
                SessionReply::Snapshot(_) => self.fail("Reply does not match the pending action"),
            },
            Stage::AwaitingSnapshot => match reply {
                SessionReply::Snapshot(json) => {
                    let pc: usize = self.pc;
                    self.send(pc, "all", json.as_str())
                },
                SessionReply::Failed(reason) => self.fail(reason.as_str()),
                SessionReply::Completed => self.fail("Reply does not match the pending action"),
            },
        }
    }

    /// Ends the session in failure.
    fn fail(&mut self, reason: &str) -> (action: SessionAction)
        ensures
            aborts(old(self)@, final(self)@, action, reason@),
    {
        proof {
            use_type_invariant(&*self);
        }
        self.stage = Stage::Failed;
        self.failure = reason.to_owned();
        SessionAction::Failed(reason.to_owned())
    }

    /// Sends `command` with `body` as the action of step `pc`.
    fn send(&mut self, pc: usize, command: &str, body: &str) -> (action: SessionAction)
        requires
            pc < SCRIPT_LEN,
        ensures
            sends(old(self)@, pc as nat, command@, body@, final(self)@, action),
    {
        proof {
            use_type_invariant(&*self);
        }
        self.pc = pc;
        match command_frame(command, body) {
            Ok(frame) => {
                self.stage = Stage::Awaiting;
                SessionAction::Write(frame)
            },
            Err(e) => self.fail(e.describe()),
        }
    }

    /// Takes up the step at position `pc`.
    fn issue(&mut self, pc: usize) -> (action: SessionAction)
        requires
            pc <= SCRIPT_LEN,
        ensures
            issues(old(self)@, pc as nat, final(self)@, action),
    {
        proof {
            use_type_invariant(&*self);
        }
        match step_at(pc) {
            None => {
                self.stage = Stage::Done;
                self.pc = SCRIPT_LEN;
                SessionAction::Done
            },
            Some(Step::Pause(millis)) => {
                self.pc = pc;
                self.stage = Stage::Awaiting;
                SessionAction::Pause(millis)
            },
            Some(Step::ClearBuffers) => {
                self.pc = pc;
                self.stage = Stage::Awaiting;
                SessionAction::ClearBuffers
            },
            Some(Step::Keepalive) => {
                self.pc = pc;
                self.stage = Stage::AwaitingSnapshot;
                SessionAction::TakeSnapshot
            },
            Some(Step::MediaCleanup) => {
                match media_delete_body(self.file_name.as_str()) {
                    Ok(body) => self.send(pc, "mediaDelete", body.as_str()),
                    Err(e) => {
                        self.pc = pc;
                        self.fail(e.describe())
                    },
                }
            },
            Some(Step::Configure) => {
                match screen_config_body(&self.config, self.file_name.as_str()) {
                    Ok(body) => self.send(pc, "waterBlockScreenId", body.as_str()),
                    Err(e) => {
                        self.pc = pc;
                        self.fail(e.describe())
                    },
                }
            },
        }
    }
}

/// A run of a session: the states it passes through, the replies it is
/// given and the actions it answers them with, each step as `advances`
/// says.
pub open spec fn is_run(
    states: Seq<SessionView>,
    replies: Seq<SessionReply>,
    actions: Seq<SessionAction>,
) -> bool {
    &&& states.len() == replies.len() + 1
    &&& actions.len() == replies.len()
    &&& forall|k: int|
        0 <= k < replies.len() ==> advances(
            #[trigger] states[k],
            replies[k],
            states[k + 1],
            actions[k],
        )
}

/// A transport failure ends the session: where a pause or a write is
/// reported as failed, the session fails with the reported reason.
pub proof fn lemma_transport_failure_aborts(
    pre: SessionView,
    reason: String,
    post: SessionView,
    action: SessionAction,
)
    requires
        pre.stage is Awaiting,
        script_step(pre.pc) != Some(Step::ClearBuffers),
        advances(pre, SessionReply::Failed(reason), post, action),
    ensures
        post.stage is Failed,
        post.failure == reason@,
        action matches SessionAction::Failed(said) && said@ == reason@,
{
}

/// A failure to clear the buffers is passed over: the session goes on with
/// the step after it, as if the clearing had gone well.
pub proof fn lemma_clear_failure_tolerated(
    pre: SessionView,
    reason: String,
    post: SessionView,
    action: SessionAction,
)
    requires
        pre.stage is Awaiting,
        script_step(pre.pc) == Some(Step::ClearBuffers),
        advances(pre, SessionReply::Failed(reason), post, action),
    ensures
        advances(pre, SessionReply::Completed, post, action),
{
}

/// A failed session stays failed, whatever it is told, and keeps giving
/// its failure as the action.
pub proof fn lemma_failure_is_final(
    pre: SessionView,
    reply: SessionReply,
    post: SessionView,
    action: SessionAction,
)
    requires
        pre.stage is Failed,
        advances(pre, reply, post, action),
    ensures
        post == pre,
        action matches SessionAction::Failed(said) && said@ == pre.failure,
{
}

/// Whatever a session asks to be written is one whole frame: it decodes to
/// the message of a command.
pub proof fn lemma_writes_are_frames(
    pre: SessionView,
    reply: SessionReply,
    post: SessionView,
    action: SessionAction,
)
    requires
        advances(pre, reply, post, action) || starts(pre, post, action),
    ensures
        action matches SessionAction::Write(bytes) ==> message_of(bytes@) is Some,
{
    if let SessionAction::Write(bytes) = action {
        let shown = choose|command: Seq<char>, body: Seq<char>, now_ms: u128|
            framed_at(command, body, now_ms) == Ok::<Seq<u8>, ProtocolError>(bytes@);
        lemma_decode_frame(stamped(shown.0, shown.1, shown.2).wire());
    }
}

/// Once a session has failed, it asks for nothing more: in every run, each
/// action after a failure is that failure again, so no write and no
/// snapshot follows it.
pub proof fn lemma_nothing_after_failure(
    states: Seq<SessionView>,
    replies: Seq<SessionReply>,
    actions: Seq<SessionAction>,
    i: int,
    j: int,
)
    requires
        is_run(states, replies, actions),
        0 <= i <= j < actions.len(),
        actions[i] is Failed,
    ensures
        actions[j] is Failed,
        states[j + 1].stage is Failed,
    decreases j - i,
{
    assert(advances(states[i], replies[i], states[i + 1], actions[i]));
    lemma_failed_action_means_failed(states[i], replies[i], states[i + 1], actions[i]);
    if i < j {
        lemma_nothing_after_failure(states, replies, actions, i, j - 1);
        assert(advances(states[j], replies[j], states[j + 1], actions[j]));
    }
}

/// A session that gives a failure as its action is in the failed stage.
pub proof fn lemma_failed_action_means_failed(
    pre: SessionView,
    reply: SessionReply,
    post: SessionView,
    action: SessionAction,
)
    requires
        advances(pre, reply, post, action),
        action is Failed,
    ensures
        post.stage is Failed,
{
}

/// The script is what the device asks for: nineteen steps, the media
/// cleanup before the configuration, a keepalive before each of the two, and
/// after the configuration exactly five keepalives, each after a pause of
/// `KEEPALIVE_PERIOD_MS`.
pub proof fn lemma_script_shape()
    ensures
        script().len() == SCRIPT_LEN,
        script()[0] == Step::Pause(SETTLE_MS),
        script()[1] == Step::ClearBuffers,
        script()[2] == Step::Keepalive,
        script()[4] == Step::MediaCleanup,
        script()[6] == Step::Keepalive,
        script()[8] == Step::Configure,
        forall|k: int|
            0 <= k < 5 ==> #[trigger] script()[9 + 2 * k] == Step::Pause(KEEPALIVE_PERIOD_MS)
                && script()[10 + 2 * k] == Step::Keepalive,
        forall|pc: int|
            0 <= pc < script().len() && (script()[pc] == Step::MediaCleanup || script()[pc]
                == Step::Configure) ==> pc == 4 || pc == 8,
{
    assert forall|k: int| 0 <= k < 5 implies #[trigger] script()[9 + 2 * k] == Step::Pause(
        KEEPALIVE_PERIOD_MS,
    ) && script()[10 + 2 * k] == Step::Keepalive by {
        if k == 0 {
        } else if k == 1 {
        } else if k == 2 {
        } else if k == 3 {
        } else {
        }
    }
}

/// A finished session stays finished, whatever it is told.
pub proof fn lemma_done_is_final(
    pre: SessionView,
    reply: SessionReply,
    post: SessionView,
    action: SessionAction,
)
    requires
        pre.stage is Done,
        advances(pre, reply, post, action),
    ensures
        post == pre,
        action is Done,
{
}

impl SessionView {
    /// Whether the stage fits the position: an action under way belongs to
    /// a step of the script, and a snapshot is asked for at a keepalive
    /// only. Every state that a fresh session can reach is so.
    pub open spec fn well_formed(self) -> bool {
        &&& self.stage is Awaiting ==> script_step(self.pc) is Some
        &&& self.stage is AwaitingSnapshot ==> script_step(self.pc) == Some(Step::Keepalive)
    }
}

/// A fresh session is well formed, and no step makes a well-formed session
/// ill formed.
pub proof fn lemma_well_formed_kept(
    pre: SessionView,
    reply: SessionReply,
    post: SessionView,
    action: SessionAction,
)
    requires
        pre.well_formed(),
        advances(pre, reply, post, action) || starts(pre, post, action),
    ensures
        post.well_formed(),
        SessionView::fresh(pre.file_name, pre.config).well_formed(),
{
}

/// The actions of a session follow its script: a step that does not fail
/// stays at its position or moves to the next one, and the action that
/// comes is the one of the step at the new position. A pause is the pause
/// of that step, the buffers are cleared at the clearing step, a snapshot is
/// asked for at a keepalive, a write belongs to a keepalive, the cleanup or
/// the configuration, and the session is done only past the last step.
pub proof fn lemma_actions_follow_script(
    pre: SessionView,
    reply: SessionReply,
    post: SessionView,
    action: SessionAction,
)
    requires
        pre.well_formed(),
        pre.stage is Awaiting || pre.stage is AwaitingSnapshot,
        advances(pre, reply, post, action),
        !(action is Failed),
    ensures
        post.pc == pre.pc || post.pc == pre.pc + 1,
        pre.stage is Awaiting ==> post.pc == pre.pc + 1,
        action matches SessionAction::Pause(millis) ==> script_step(post.pc) == Some(
            Step::Pause(millis),
        ),
        action is ClearBuffers ==> script_step(post.pc) == Some(Step::ClearBuffers),
        action is TakeSnapshot ==> script_step(post.pc) == Some(Step::Keepalive),
        action is Write ==> script_step(post.pc) == Some(Step::Keepalive) || script_step(post.pc)
            == Some(Step::MediaCleanup) || script_step(post.pc) == Some(Step::Configure),
        action is Done ==> script_step(post.pc) is None,
{
}

/// Whether `reply` says that the action under way went well: a snapshot
/// where one was asked for, completion otherwise. A failure to clear the
/// buffers counts as going well, since it is passed over.
pub open spec fn goes_well(pre: SessionView, reply: SessionReply) -> bool {
    match pre.stage {
        Stage::Awaiting => reply is Completed || (reply is Failed && script_step(pre.pc) == Some(
            Step::ClearBuffers,
        )),
        Stage::AwaitingSnapshot => reply is Snapshot,
        _ => false,
    }
}

/// While every action goes well, a session fails for one reason only: a
/// message that does not fit in a frame. Every body is encoded, and every
/// message that fits is handed out to be written.
pub proof fn lemma_only_an_oversized_message_fails(
    pre: SessionView,
    reply: SessionReply,
    post: SessionView,
    action: SessionAction,
)
    requires
        pre.well_formed(),
        goes_well(pre, reply),
        advances(pre, reply, post, action),
    ensures
        action matches SessionAction::Failed(said) ==> said@
            == ProtocolError::PayloadTooLong.text(),
        action is Failed <==> post.stage is Failed,
{
}

} // verus!
