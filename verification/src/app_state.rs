//! The state that the foreground keeps: what the user has chosen, whether a
//! transfer is in flight, and what the worker has reported so far. It
//! changes only when the user acts or when drained events are applied.
//!
//! The worker reports over a channel. The foreground holds both ends: it
//! drains the receiving end on every tick, without waiting, and hands a copy
//! of the sending end to each worker.

use crossbeam::channel::{Receiver, Sender};
use vstd::prelude::*;
use vstd::string::*;
use crate::screen_setup::{default_screen_config, ScreenConfig, ScreenConfigView};
use crate::transfer::{extension_text, AppMessage, ImageFile, Transfer, TransferView};

verus! {

/// The number of log lines that are kept.
pub const MAX_LOG_LINES: usize = 100;

/// The receiving end of a channel of `crossbeam`, held and never looked
/// into.
#[verifier::external_type_specification]
#[verifier::external_body]
#[verifier::reject_recursive_types(T)]
pub struct ExReceiver<T>(crossbeam::channel::Receiver<T>);

/// The sending end of a channel of `crossbeam`, held and never looked into.
#[verifier::external_type_specification]
#[verifier::external_body]
#[verifier::reject_recursive_types(T)]
pub struct ExSender<T>(crossbeam::channel::Sender<T>);

/// `crossbeam::channel::unbounded`: the two ends of a new channel that
/// takes any number of messages. Nothing is claimed of them.
#[verifier::external_body]
fn open_channel() -> (Sender<AppMessage>, Receiver<AppMessage>) {
    crossbeam::channel::unbounded()
}

/// `Receiver::len` of `crossbeam`: the number of messages in the channel
/// at this moment. Nothing is claimed of it: a sender may add to the
/// channel at any time.
#[verifier::external_body]
fn queued(receiver: &Receiver<AppMessage>) -> usize {
    receiver.len()
}

/// `Receiver::try_recv` of `crossbeam`: the next message where one is
/// queued, `None` where the channel is empty or has no sender left. It does
/// not wait. Nothing is claimed of the message.
#[verifier::external_body]
fn try_next(receiver: &Receiver<AppMessage>) -> Option<AppMessage> {
    match receiver.try_recv() {
        Ok(message) => Some(message),
        Err(_) => None,
    }
}

/// The state of the controller application.
pub struct AioCoolerApp {
    pub serial_device: String,
    pub selected_image: Option<ImageFile>,
    pub screen_config: ScreenConfig,
    pub is_processing: bool,
    /// The progress of the transfer in percent.
    pub progress: u8,
    pub status_message: String,
    pub log_messages: Vec<String>,
    /// The end of the channel that a worker sends on.
    pub message_sender: Option<Sender<AppMessage>>,
    /// The end of the channel that the foreground drains.
    pub message_receiver: Receiver<AppMessage>,
}

/// The state as plain values.
pub struct AppView {
    pub serial_device: Seq<char>,
    pub selected_image: Option<(Seq<char>, Option<Seq<char>>)>,
    pub screen_config: ScreenConfigView,
    pub is_processing: bool,
    pub progress: u8,
    pub status_message: Seq<char>,
    pub log_messages: Seq<Seq<char>>,
}

impl View for AioCoolerApp {
    type V = AppView;

    open spec fn view(&self) -> AppView {
        AppView {
            serial_device: self.serial_device@,
            selected_image: match self.selected_image {
                Some(image) => Some((image.path@, extension_text(image.extension))),
                None => None,
            },
            screen_config: self.screen_config@,
            is_processing: self.is_processing,
            progress: self.progress,
            status_message: self.status_message@,
            log_messages: self.log_messages.deep_view(),
        }
    }
}

/// The log after one more line: the line is added at the end, and where
/// that makes more than `MAX_LOG_LINES` lines the oldest one goes.
pub open spec fn log_after(lines: Seq<Seq<char>>, line: Seq<char>) -> Seq<Seq<char>> {
    if lines.len() + 1 > MAX_LOG_LINES {
        lines.push(line).skip(1)
    } else {
        lines.push(line)
    }
}

/// The state after one event from the worker.
pub open spec fn apply(state: AppView, message: AppMessage) -> AppView {
    match message {
        AppMessage::Log(text) => AppView {
            log_messages: log_after(state.log_messages, text@),
            ..state
        },
        AppMessage::Progress(percent, status) => AppView {
            progress: percent,
            status_message: status@,
            ..state
        },
        AppMessage::Success(text) => AppView {
            is_processing: false,
            progress: 100,
            status_message: text@,
            ..state
        },
        AppMessage::Error(text) => AppView {
            is_processing: false,
            progress: 0,
            status_message: "Error: "@ + text@,
            ..state
        },
    }
}

/// The state after a run of events, applied in the order in which they
/// were sent.
pub open spec fn apply_all(state: AppView, messages: Seq<AppMessage>) -> AppView
    decreases messages.len(),
{
    if messages.len() == 0 {
        state
    } else {
        apply(apply_all(state, messages.drop_last()), messages.last())
    }
}

impl Default for AioCoolerApp {
    fn default() -> (app: Self)
        ensures
            app@ == (AppView {
                serial_device: "/dev/ttyACM0"@,
                selected_image: None,
                screen_config: default_screen_config(),
                is_processing: false,
                progress: 0,
                status_message: "Ready"@,
                log_messages: Seq::empty(),
            }),
            app.message_sender is Some,
    {
        let (sender, receiver) = open_channel();
        let app = AioCoolerApp {
            serial_device: "/dev/ttyACM0".to_owned(),
            selected_image: None,
            screen_config: ScreenConfig::default(),
            is_processing: false,
            progress: 0,
            status_message: "Ready".to_owned(),
            log_messages: Vec::new(),
            message_sender: Some(sender),
            message_receiver: receiver,
        };
        assert(app.log_messages.deep_view() =~= Seq::<Seq<char>>::empty());
        app
    }
}

impl AioCoolerApp {
    /// Applies one event from the worker.
    pub fn apply_message(&mut self, message: AppMessage)
        ensures
            final(self)@ == apply(old(self)@, message),
            final(self).message_sender == old(self).message_sender,
            final(self).message_receiver == old(self).message_receiver,
    {
        match message {
            AppMessage::Log(text) => {
                let ghost line = text@;
                let ghost before = self.log_messages.deep_view();
                self.log_messages.push(text);
                assert(self.log_messages.deep_view() =~= before.push(line));
                if self.log_messages.len() > MAX_LOG_LINES {
                    self.log_messages.remove(0);
                    assert(self.log_messages.deep_view() =~= before.push(line).skip(1));
                }
            },
            AppMessage::Progress(percent, status) => {
                self.progress = percent;
                self.status_message = status;
            },
            AppMessage::Success(text) => {
                self.is_processing = false;
                self.progress = 100;
                self.status_message = text;
            },
            AppMessage::Error(text) => {
                self.is_processing = false;
                self.progress = 0;
                let mut status = "Error: ".to_owned();
                status.append(text.as_str());
                self.status_message = status;
            },
        }
    }

    /// Drains the channel without waiting: applies the events that are
    /// queued when it is called, in the order in which they were sent.
    /// Whatever the channel holds, the state afterwards is the state before
    /// with some run of events applied.
    pub fn process_messages(&mut self)
        ensures
            exists|events: Seq<AppMessage>| final(self)@ == #[trigger] apply_all(old(self)@, events),
            final(self).message_sender == old(self).message_sender,
            final(self).message_receiver == old(self).message_receiver,
    {
        let pending: usize = queued(&self.message_receiver);
        let ghost mut seen: Seq<AppMessage> = Seq::empty();
        let mut taken: usize = 0;
        while taken < pending
            invariant
                self@ == apply_all(old(self)@, seen),
                self.message_sender == old(self).message_sender,
                self.message_receiver == old(self).message_receiver,
            decreases pending - taken,
        {
            match try_next(&self.message_receiver) {
                Some(message) => {
                    proof {
                        assert(seen.push(message).drop_last() =~= seen);
                        seen = seen.push(message);
                    }
                    self.apply_message(message);
                },
                None => {
                    break;
                },
            }
            taken = taken + 1;
        }
    }

    /// Applies `messages` in order.
    pub fn apply_messages(&mut self, messages: Vec<AppMessage>)
        ensures
            final(self)@ == apply_all(old(self)@, messages@),
            final(self).message_sender == old(self).message_sender,
            final(self).message_receiver == old(self).message_receiver,
    {
        let ghost all = messages@;
        let mut rest = messages;
        let mut done: Ghost<int> = Ghost(0);
        while rest.len() > 0
            invariant
                0 <= done@ <= all.len(),
                rest@ == all.skip(done@),
                self@ == apply_all(old(self)@, all.take(done@)),
                self.message_sender == old(self).message_sender,
                self.message_receiver == old(self).message_receiver,
            decreases rest.len(),
        {
            let message = rest.remove(0);
            proof {
                assert(all.take(done@ + 1).drop_last() =~= all.take(done@));
                assert(all.take(done@ + 1).last() == message);
                assert(all.skip(done@).remove(0) =~= all.skip(done@ + 1));
                done@ = done@ + 1;
            }
            self.apply_message(message);
        }
        assert(all.take(done@) =~= all);
    }

    /// Asks for a transfer of the selected image.
    ///
    /// While a transfer is in flight the request is rejected and nothing
    /// changes. Without a selected image it is rejected too, and the status
    /// says so. Otherwise the state is marked as in flight and the transfer
    /// is handed out, to be run by a worker.
    pub fn start_transfer(&mut self) -> (job: Option<Transfer>)
        ensures
            final(self)@ == after_start(old(self)@),
            final(self).message_sender == old(self).message_sender,
            final(self).message_receiver == old(self).message_receiver,
            job is Some <==> accepts_start(old(self)@),
            job matches Some(transfer) ==> transfer@ == TransferView::fresh(
                old(self)@.selected_image.unwrap().0,
                old(self)@.selected_image.unwrap().1,
                old(self)@.serial_device,
                old(self)@.screen_config,
            ),
    {
        if self.is_processing {
            return None;
        }
        let job = match &self.selected_image {
            Some(image) => Transfer::new(image, self.serial_device.as_str(), &self.screen_config),
            None => {
                self.status_message = "No image selected".to_owned();
                return None;
            },
        };
        self.is_processing = true;
        self.progress = 0;
        self.status_message = "Starting transfer...".to_owned();
        Some(job)
    }
}

/// Whether a request for a transfer is accepted: none is in flight, and an
/// image is selected.
pub open spec fn accepts_start(state: AppView) -> bool {
    !state.is_processing && state.selected_image is Some
}

/// The state after a request for a transfer.
pub open spec fn after_start(state: AppView) -> AppView {
    if state.is_processing {
        state
    } else if state.selected_image is None {
        AppView { status_message: "No image selected"@, ..state }
    } else {
        AppView {
            is_processing: true,
            progress: 0,
            status_message: "Starting transfer..."@,
            ..state
        }
    }
}

/// Whether none of `messages` is a success or an error event.
pub open spec fn no_terminal_event(messages: Seq<AppMessage>) -> bool {
    forall|k: int|
        0 <= k < messages.len() ==> (#[trigger] messages[k]) is Log || messages[k] is Progress
}

/// At most one transfer is in flight. Once a request has been accepted, a
/// second one is rejected and changes nothing, and so is every request made
/// after any run of log and progress events: only a success or an error
/// event lets the next transfer start.
pub proof fn lemma_single_flight(state: AppView, messages: Seq<AppMessage>)
    requires
        accepts_start(state),
        no_terminal_event(messages),
    ensures
        !accepts_start(after_start(state)),
        after_start(after_start(state)) == after_start(state),
        !accepts_start(apply_all(after_start(state), messages)),
        after_start(apply_all(after_start(state), messages)) == apply_all(
            after_start(state),
            messages,
        ),
{
    lemma_in_flight_kept(after_start(state), messages);
}

/// Log and progress events leave a transfer in flight.
pub proof fn lemma_in_flight_kept(state: AppView, messages: Seq<AppMessage>)
    requires
        state.is_processing,
        no_terminal_event(messages),
    ensures
        apply_all(state, messages).is_processing,
    decreases messages.len(),
{
    if messages.len() > 0 {
        let front = messages.drop_last();
        assert forall|k: int| 0 <= k < front.len() implies (#[trigger] front[k]) is Log
            || front[k] is Progress by {
            assert(front[k] == messages[k]);
        }
        lemma_in_flight_kept(state, front);
        assert(messages.last() == messages[messages.len() - 1]);
    }
}

/// The log never outgrows its window: a log of at most `MAX_LOG_LINES`
/// lines has at most that many after any event, and a new line is always
/// its last.
pub proof fn lemma_log_window(state: AppView, message: AppMessage)
    requires
        state.log_messages.len() <= MAX_LOG_LINES,
    ensures
        apply(state, message).log_messages.len() <= MAX_LOG_LINES,
        message matches AppMessage::Log(text) ==> apply(state, message).log_messages.last()
            == text@,
{
}

/// Only a terminal event clears the in-flight mark: a log line or a
/// progress report leaves it as it is, success and error take it away.
pub proof fn lemma_guard_cleared_by_terminal_event(state: AppView, message: AppMessage)
    ensures
        (message is Log || message is Progress) ==> apply(state, message).is_processing
            == state.is_processing,
        (message is Success || message is Error) ==> !apply(state, message).is_processing,
{
}

} // verus!
