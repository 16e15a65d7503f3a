//! The transfer orchestrator: one end-to-end transfer as a single unit of
//! work, from hashing the file to the end of the session, with the events
//! that report its progress.
//!
//! Like the session sequencer it does no work itself. It names one action
//! at a time for the worker that runs the transfer, and takes the worker's
//! reply before it names the next. The first failure is reported as one
//! error event, and after that nothing more is asked.

use vstd::prelude::*;
use vstd::string::*;
use crate::screen_setup::{
    md5_hex, stamped_name, AioCoolerController, ScreenConfig, ScreenConfigView,
};
use crate::session::{Session, SessionView};
use crate::text::{decimal, push_decimal};

verus! {

/// The speed at which the serial port is opened.
pub const BAUD_RATE: u32 = 115200;

/// The read timeout of the serial port, in milliseconds.
pub const READ_TIMEOUT_MS: u64 = 2000;

/// The position of the last step, at which nothing is left to do.
pub const STOP: usize = 12;

/// An event on the channel from the worker to the foreground.
#[derive(Debug)]
pub enum AppMessage {
    /// A line for the log.
    Log(String),
    /// The progress in percent, and the status text that goes with it.
    Progress(u8, String),
    /// The transfer has succeeded.
    Success(String),
    /// The transfer has failed.
    Error(String),
}

/// The file that is to be transferred: its path as text, and the extension
/// of its name where it has one.
#[derive(Debug)]
pub struct ImageFile {
    pub path: String,
    pub extension: Option<String>,
}

impl Clone for ImageFile {
    fn clone(&self) -> (copy: Self)
        ensures
            copy.path@ == self.path@,
            extension_text(copy.extension) == extension_text(self.extension),
    {
        ImageFile {
            path: self.path.clone(),
            extension: match &self.extension {
                Some(text) => Some(text.clone()),
                None => None,
            },
        }
    }
}

/// An optional extension as text.
pub open spec fn extension_text(extension: Option<String>) -> Option<Seq<char>> {
    match extension {
        Some(text) => Some(text@),
        None => None,
    }
}

/// The extension that the file gets on the device: its own, or `png` where
/// it has none.
pub open spec fn extension_or_default(extension: Option<Seq<char>>) -> Seq<char> {
    match extension {
        Some(text) => text,
        None => "png"@,
    }
}

/// What the orchestrator asks of the worker.
#[derive(Debug)]
pub enum TransferAction {
    /// Send this event to the foreground. Whether the send went well does
    /// not matter.
    Report(AppMessage),
    /// Read the whole file at this path, and reply with its contents and
    /// with the local time of the reading, written as `STAMP_PATTERN` says.
    ReadFile(String),
    /// Have the file transfer agent copy the local file to the device
    /// under the remote name.
    PushFile { local_path: String, remote_name: String },
    /// Open the serial port of this device at `BAUD_RATE` with a read
    /// timeout of `READ_TIMEOUT_MS`, and run this session over it.
    RunSession { device: String, session: Session },
    /// The transfer is over. Nothing is left to do.
    Stop,
}

/// How the last action went.
#[derive(Debug)]
pub enum TransferReply {
    /// The action was carried out.
    Completed,
    /// The contents of the file that was to be read, and the local time at
    /// which it was read, as a time stamp.
    Contents { bytes: Vec<u8>, stamp: String },
    /// The action failed, for this reason.
    Failed(String),
}

/// Whether a transfer is still under way.
#[derive(Debug, Clone, Copy, PartialEq, Eq, Structural)]
pub enum Status {
    /// Nothing has been asked yet.
    Fresh,
    /// The action of the current step is under way.
    Running,
    /// A step has failed and the error event is being reported.
    Failing,
    /// The transfer is over.
    Stopped,
}

/// One transfer.
pub struct Transfer {
    image: ImageFile,
    serial_device: String,
    config: ScreenConfig,
    pc: usize,
    status: Status,
    remote_name: String,
    digest: String,
    size: usize,
}

/// A transfer as plain values.
pub struct TransferView {
    pub path: Seq<char>,
    pub extension: Option<Seq<char>>,
    pub serial_device: Seq<char>,
    pub config: ScreenConfigView,
    pub pc: nat,
    pub status: Status,
    pub remote_name: Seq<char>,
    pub digest: Seq<char>,
    pub size: nat,
}

impl TransferView {
    /// A transfer that has not begun.
    pub open spec fn fresh(
        path: Seq<char>,
        extension: Option<Seq<char>>,
        serial_device: Seq<char>,
        config: ScreenConfigView,
    ) -> TransferView {
        TransferView {
            path,
            extension,
            serial_device,
            config,
            pc: 0,
            status: Status::Fresh,
            remote_name: Seq::empty(),
            digest: Seq::empty(),
            size: 0,
        }
    }

    /// The transfer at the step `pc`, under way.
    pub open spec fn at(self, pc: nat) -> TransferView {
        TransferView { pc, status: Status::Running, ..self }
    }

    /// The transfer with what was learnt from the file.
    pub open spec fn with_file(self, digest: Seq<char>, size: nat, remote_name: Seq<char>) -> TransferView {
        TransferView { digest, size, remote_name, ..self }
    }

    /// The transfer with the given status.
    pub open spec fn with_status(self, status: Status) -> TransferView {
        TransferView { status, ..self }
    }
}

/// The log line that describes the file.
pub open spec fn file_line(path: Seq<char>, size: nat, digest: Seq<char>) -> Seq<char> {
    "File: "@ + path + " ("@ + decimal(size) + " bytes, MD5: "@ + digest + ")"@
}

/// The reason given where a reply does not answer the action that is under
/// way, or where a transfer is started twice.
pub open spec fn out_of_turn() -> Seq<char> {
    "Reply does not match the pending action"@
}

/// `action` reports the progress `percent` with the status `text`.
pub open spec fn reports_progress(action: TransferAction, percent: u8, text: Seq<char>) -> bool {
    action matches TransferAction::Report(AppMessage::Progress(p, said)) && p == percent && said@
        == text
}

/// `action` reports the log line `text`.
pub open spec fn reports_log(action: TransferAction, text: Seq<char>) -> bool {
    action matches TransferAction::Report(AppMessage::Log(said)) && said@ == text
}

/// `action` reports success with `text`.
pub open spec fn reports_success(action: TransferAction, text: Seq<char>) -> bool {
    action matches TransferAction::Report(AppMessage::Success(said)) && said@ == text
}

/// `action` reports the error `text`.
pub open spec fn reports_error(action: TransferAction, text: Seq<char>) -> bool {
    action matches TransferAction::Report(AppMessage::Error(said)) && said@ == text
}

/// The action of the step at position `pc`, for a transfer in the state
/// `state`.
pub open spec fn step_action(state: TransferView, pc: nat, action: TransferAction) -> bool {
    if pc == 0 {
        reports_progress(action, 10, "Calculating MD5..."@)
    } else if pc == 1 {
        reports_log(action, "Calculating file MD5..."@)
    } else if pc == 2 {
        action matches TransferAction::ReadFile(path) && path@ == state.path
    } else if pc == 3 {
        reports_log(action, file_line(state.path, state.size, state.digest))
    } else if pc == 4 {
        reports_progress(action, 20, "Pushing to device via ADB..."@)
    } else if pc == 5 {
        reports_log(action, "Starting ADB push..."@)
    } else if pc == 6 {
        action matches TransferAction::PushFile { local_path, remote_name } && local_path@
            == state.path && remote_name@ == state.remote_name
    } else if pc == 7 {
        reports_progress(action, 50, "Sending serial commands..."@)
    } else if pc == 8 {
        reports_log(action, "Sending serial commands..."@)
    } else if pc == 9 {
        action matches TransferAction::RunSession { device, session } && device@
            == state.serial_device && session@ == SessionView::fresh(
            state.remote_name,
            state.config,
        )
    } else if pc == 10 {
        reports_log(action, "Transfer complete!"@)
    } else if pc == 11 {
        reports_success(action, "Transfer complete!"@)
    } else {
        action is Stop
    }
}

/// The transfer takes up the step at position `pc`.
pub open spec fn issues(pre: TransferView, pc: nat, post: TransferView, action: TransferAction) -> bool {
    &&& step_action(pre, pc, action)
    &&& post == if pc < STOP {
        pre.at(pc)
    } else {
        pre.at(pc).with_status(Status::Stopped)
    }
}

/// The transfer fails for `reason`: it reports the one error event.
pub open spec fn fails(
    pre: TransferView,
    post: TransferView,
    action: TransferAction,
    reason: Seq<char>,
) -> bool {
    post == pre.with_status(Status::Failing) && reports_error(action, reason)
}

/// What `Transfer::start` does.
pub open spec fn starts(pre: TransferView, post: TransferView, action: TransferAction) -> bool {
    match pre.status {
        Status::Fresh => issues(pre, 0, post, action),
        Status::Running => fails(pre, post, action, out_of_turn()),
        _ => post == pre.with_status(Status::Stopped) && action is Stop,
    }
}

/// What `Transfer::advance` does with a reply.
///
/// A report is followed by the next step whatever its reply. The contents
/// of the file give its digest, its size and its name on the device, made
/// from the time stamp that comes with them and the extension. A failure of the reading, the
/// push or the session is reported as the one error event, and after that
/// event the transfer is over.
pub open spec fn advances(
    pre: TransferView,
    reply: TransferReply,
    post: TransferView,
    action: TransferAction,
) -> bool {
    match pre.status {
        Status::Stopped => post == pre && action is Stop,
        Status::Failing => post == pre.with_status(Status::Stopped) && action is Stop,
        Status::Fresh => fails(pre, post, action, out_of_turn()),
        Status::Running => if pre.pc == 2 {
            match reply {
                TransferReply::Contents { bytes, stamp } => issues(
                    pre.with_file(
                        md5_hex(bytes@),
                        bytes@.len(),
                        stamped_name(stamp@, extension_or_default(pre.extension)),
                    ),
                    3,
                    post,
                    action,
                ),
                TransferReply::Failed(reason) => fails(pre, post, action, reason@),
                TransferReply::Completed => fails(pre, post, action, out_of_turn()),
            }
        } else if pre.pc == 6 || pre.pc == 9 {
            match reply {
                TransferReply::Completed => issues(pre, pre.pc + 1, post, action),
                TransferReply::Failed(reason) => fails(pre, post, action, reason@),
                TransferReply::Contents { .. } => fails(pre, post, action, out_of_turn()),
            }
        } else {
            issues(pre, pre.pc + 1, post, action)
        },
    }
}

impl View for Transfer {
    type V = TransferView;

    closed spec fn view(&self) -> TransferView {
        TransferView {
            path: self.image.path@,
            extension: extension_text(self.image.extension),
            serial_device: self.serial_device@,
            config: self.config@,
            pc: self.pc as nat,
            status: self.status,
            remote_name: self.remote_name@,
            digest: self.digest@,
            size: self.size as nat,
        }
    }
}

impl Transfer {
    /// The position stays within the steps, and an action is under way
    /// only before the last of them.
    #[verifier::type_invariant]
    spec fn in_script(self) -> bool {
        &&& self.pc <= STOP
        &&& self.status is Running ==> self.pc < STOP
    }

    /// A transfer of `image` to the device at `serial_device`, to be shown
    /// as `config` says. It has not begun.
    pub fn new(image: &ImageFile, serial_device: &str, config: &ScreenConfig) -> (transfer:
        Transfer)
        ensures
            transfer@ == TransferView::fresh(
                image.path@,
                extension_text(image.extension),
                serial_device@,
                config@,
            ),
    {
        Transfer {
            image: image.clone(),
            serial_device: serial_device.to_owned(),
            config: config.clone(),
            pc: 0,
            status: Status::Fresh,
            remote_name: String::new(),
            digest: String::new(),
            size: 0,
        }
    }

    /// Begins the transfer and gives its first action.
    pub fn start(&mut self) -> (action: TransferAction)
        ensures
            starts(old(self)@, final(self)@, action),
    {
        proof {
            use_type_invariant(&*self);
        }
        match self.status {
            Status::Fresh => self.issue(0),
            Status::Running => self.fail("Reply does not match the pending action"),
            _ => {
                self.status = Status::Stopped;
                TransferAction::Stop
            },
        }
    }

    /// Takes the reply to the last action and gives the next action.
    pub fn advance(&mut self, reply: TransferReply) -> (action: TransferAction)
        ensures
            advances(old(self)@, reply, final(self)@, action),
    {
        proof {
            use_type_invariant(&*self);
        }
        match self.status {
            Status::Stopped => TransferAction::Stop,
            Status::Failing => {
                self.status = Status::Stopped;
                TransferAction::Stop
            },
            Status::Fresh => self.fail("Reply does not match the pending action"),
            Status::Running => {
                if self.pc == 2 {
                    match reply {
                        TransferReply::Contents { bytes, stamp } => {
                            let digest = AioCoolerController::calculate_md5(bytes.as_slice());
                            let name = match &self.image.extension {
                                Some(extension) => AioCoolerController::filename_from(
                                    stamp.as_str(),
                                    extension.as_str(),
                                ),
                                None => AioCoolerController::filename_from(stamp.as_str(), "png"),
                            };
                            self.digest = digest;
                            self.size = bytes.len();
                            self.remote_name = name;
                            self.issue(3)
                        },
                        TransferReply::Failed(reason) => self.fail(reason.as_str()),
                        TransferReply::Completed => self.fail(
                            "Reply does not match the pending action",
                        ),
                    }
                } else if self.pc == 6 || self.pc == 9 {
                    match reply {
                        TransferReply::Completed => {
                            let next: usize = self.pc + 1;
                            self.issue(next)
                        },
                        TransferReply::Failed(reason) => self.fail(reason.as_str()),
                        TransferReply::Contents { .. } => self.fail(
                            "Reply does not match the pending action",
                        ),
                    }
                } else {
                    let next: usize = self.pc + 1;
                    self.issue(next)
                }
            },
        }
    }

    /// Reports the failure of the transfer.
    fn fail(&mut self, reason: &str) -> (action: TransferAction)
        ensures
            fails(old(self)@, final(self)@, action, reason@),
    {
        proof {
            use_type_invariant(&*self);
        }
        self.status = Status::Failing;
        TransferAction::Report(AppMessage::Error(reason.to_owned()))
    }

    /// The log line that describes the file.
    fn describe_file(&self) -> (line: String)
        ensures
            line@ == file_line(self@.path, self@.size, self@.digest),
    {
        let mut line = "File: ".to_owned();
        line.append(self.image.path.as_str());
        line.append(" (");
        push_decimal(&mut line, self.size as u64);
        line.append(" bytes, MD5: ");
        line.append(self.digest.as_str());
        line.append(")");
        assert(line@ =~= file_line(self@.path, self@.size, self@.digest));
        line
    }

    /// Takes up the step at position `pc`.
    fn issue(&mut self, pc: usize) -> (action: TransferAction)
        requires
            pc <= STOP,
        ensures
            issues(old(self)@, pc as nat, final(self)@, action),
    {
        proof {
            use_type_invariant(&*self);
        }
        if pc >= STOP {
            self.status = Status::Stopped;
            self.pc = pc;
            return TransferAction::Stop;
        }
        self.pc = pc;
        self.status = Status::Running;
        if pc == 0 {
            TransferAction::Report(AppMessage::Progress(10, "Calculating MD5...".to_owned()))
        } else if pc == 1 {
            TransferAction::Report(AppMessage::Log("Calculating file MD5...".to_owned()))
        } else if pc == 2 {
            TransferAction::ReadFile(self.image.path.clone())
        } else if pc == 3 {
            TransferAction::Report(AppMessage::Log(self.describe_file()))
        } else if pc == 4 {
            TransferAction::Report(
                AppMessage::Progress(20, "Pushing to device via ADB...".to_owned()),
            )
        } else if pc == 5 {
            TransferAction::Report(AppMessage::Log("Starting ADB push...".to_owned()))
        } else if pc == 6 {
            TransferAction::PushFile {
                local_path: self.image.path.clone(),
                remote_name: self.remote_name.clone(),
            }
        } else if pc == 7 {
            TransferAction::Report(AppMessage::Progress(50, "Sending serial commands...".to_owned()))
        } else if pc == 8 {
            TransferAction::Report(AppMessage::Log("Sending serial commands...".to_owned()))
        } else if pc == 9 {
            TransferAction::RunSession {
                device: self.serial_device.clone(),
                session: Session::new(self.remote_name.as_str(), &self.config),
            }
        } else if pc == 10 {
            TransferAction::Report(AppMessage::Log("Transfer complete!".to_owned()))
        } else {
            TransferAction::Report(AppMessage::Success("Transfer complete!".to_owned()))
        }
    }
}

/// A run of a transfer: the states it passes through, the replies it is
/// given and the actions it answers them with, each step as `advances`
/// says.
pub open spec fn is_run(
    states: Seq<TransferView>,
    replies: Seq<TransferReply>,
    actions: Seq<TransferAction>,
) -> bool {
    &&& states.len() == replies.len() + 1
    &&& actions.len() == replies.len()
    &&& forall|k: int|
        0 <= k < replies.len() ==> advances(
            #[trigger] states[k],
            replies[k],
            states[k + 1],
            actions[k],
        )
}

/// Whether `action` reports the end of the transfer, as success or as
/// error.
pub open spec fn is_terminal_event(action: TransferAction) -> bool {
    action matches TransferAction::Report(message) && (message is Success || message is Error)
}

/// Whether nothing but `Stop` can come from `state`: a terminal event has
/// been handed out, or the transfer is over.
pub open spec fn is_ending(state: TransferView) -> bool {
    state.status is Failing || state.status is Stopped || (state.status is Running && state.pc
        == 11)
}

/// A failure of the reading, the push or the session is reported as the
/// error event, with the reason as it was given.
pub proof fn lemma_failure_is_reported(
    pre: TransferView,
    reason: String,
    post: TransferView,
    action: TransferAction,
)
    requires
        pre.status is Running,
        pre.pc == 2 || pre.pc == 6 || pre.pc == 9,
        advances(pre, TransferReply::Failed(reason), post, action),
    ensures
        reports_error(action, reason@),
        post.status is Failing,
{
}

/// A step that hands out a terminal event leaves the transfer ending.
pub proof fn lemma_terminal_event_ends(
    pre: TransferView,
    reply: TransferReply,
    post: TransferView,
    action: TransferAction,
)
    requires
        advances(pre, reply, post, action),
        is_terminal_event(action),
    ensures
        is_ending(post),
{
}

/// From an ending transfer only `Stop` comes, and it stays ending.
pub proof fn lemma_ending_stops(
    pre: TransferView,
    reply: TransferReply,
    post: TransferView,
    action: TransferAction,
)
    requires
        advances(pre, reply, post, action),
        is_ending(pre),
    ensures
        action is Stop,
        post.status is Stopped,
{
}

/// A transfer reports its end once: in every run, each action after a
/// success or error event is `Stop`. So there is never a second terminal
/// event, and nothing is read, pushed or sent after the first.
pub proof fn lemma_one_terminal_event(
    states: Seq<TransferView>,
    replies: Seq<TransferReply>,
    actions: Seq<TransferAction>,
    i: int,
    j: int,
)
    requires
        is_run(states, replies, actions),
        0 <= i < j < actions.len(),
        is_terminal_event(actions[i]),
    ensures
        actions[j] is Stop,
        states[j + 1].status is Stopped,
    decreases j - i,
{
    assert(advances(states[i], replies[i], states[i + 1], actions[i]));
    lemma_terminal_event_ends(states[i], replies[i], states[i + 1], actions[i]);
    assert(advances(states[j], replies[j], states[j + 1], actions[j]));
    if i + 1 < j {
        lemma_one_terminal_event(states, replies, actions, i, j - 1);
    }
    lemma_ending_stops(states[j], replies[j], states[j + 1], actions[j]);
}

} // verus!
