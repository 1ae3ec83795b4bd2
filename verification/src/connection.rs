//! The session with the device, as a state machine.
//!
//! The session does no reading or writing itself. It says which operation on
//! the channel comes next, is told how that operation ended, and says the
//! next one. The caller owns the channel and performs the operations.
//!
//! A session runs through the handshake once: the `Reset` frame and the magic
//! number are written, the echo of the magic number is looked for in what the
//! device sends, the configuration is written, the log that the device keeps
//! of it is read up to an empty line, and from then on the device streams
//! events. The first operation that fails ends the session for good.

use crate::command::{
    add_key_frame, await_smoothness_frame, be_bytes, clamp_micros, enable_interrupts_frame,
    finish_frame, frame, interrupts_flag, reset_frame, set_debounce_frame, smoothness_flag,
    SetupCommand,
};
use crate::config::{Config, DebounceType, KeyMap};
use crate::error::{BoxErrorMsg, Cause};
use crate::event::Event;
use crate::scanner::{magic, magic_number, ScanState, Scanner, MAGIC_LEN};
use vstd::prelude::*;

verus! {

/// The byte that ends a line of the setup log.
pub const NEWLINE: u8 = 0x0A;

/// The phases of a session, in the order in which it passes through them.
/// `Failed` can follow any of them.
#[derive(Copy, Clone, Debug, PartialEq, Eq, Structural)]
pub enum Phase {
    /// Nothing was sent yet.
    Idle,
    /// The magic number is exchanged.
    Handshaking,
    /// The configuration is written.
    ConfiguringDevice,
    /// The device reports how it applied the configuration.
    AwaitingSetupLog,
    /// The device sends events.
    Streaming,
    /// An operation failed. The session is over.
    Failed,
}

/// The operation whose end the session waits for.
#[derive(Copy, Clone, Debug, PartialEq, Eq, Structural)]
pub enum Step {
    /// The channel is being opened.
    Idle,
    /// The `Reset` frame is being written.
    Reset,
    /// The magic number is being written.
    Magic,
    /// A byte of the device's answer is being read.
    Resync,
    /// The channel is being switched to reads without a timeout.
    Unblock,
    /// The `SetDebounce` frame is being written.
    Debounce,
    /// The `AwaitSmoothness` frame is being written.
    Smoothness,
    /// The `AddKey` frame of the key with this index is being written.
    Key(usize),
    /// The `EnableInterrupts` frame is being written.
    Interrupts,
    /// The `Finish` frame is being written.
    Finish,
    /// A byte of the setup log is being read.
    Log,
    /// A line of the setup log is being shown.
    Echo,
    /// The channel is being switched to reads without a timeout once more.
    Settle,
    /// An event byte is being read.
    Streaming,
}

/// How an operation on the channel ended.
#[derive(Clone, Debug, PartialEq, Eq)]
pub enum Outcome {
    /// It succeeded, and it was not a read.
    Done,
    /// The read succeeded. This is the byte in the buffer.
    Byte(u8),
    /// It failed. This is the text of the error.
    Failed(String),
}

/// An operation on the channel.
#[derive(Clone, Debug, PartialEq, Eq)]
pub enum Action {
    /// Write all of these bytes.
    Write(Vec<u8>),
    /// Read into a buffer of one zero byte, within the channel's timeout.
    Read,
    /// Read exactly one byte.
    ReadExact,
    /// Set the channel's timeout to zero, which waits without end.
    Unblock,
    /// Show this line of the setup log.
    Echo(String),
    /// The handshake is done. Read event bytes and hand them to
    /// `read_event`.
    Serve,
    /// The session has failed. `failure` says why.
    Halt,
}

/// An action, with sequences in place of its buffers.
#[verifier::ext_equal]
pub enum ActionView {
    Write(Seq<u8>),
    Read,
    ReadExact,
    Unblock,
    Echo(Seq<char>),
    Serve,
    Halt,
}

impl View for Action {
    type V = ActionView;

    open spec fn view(&self) -> ActionView {
        match self {
            Action::Write(bytes) => ActionView::Write(bytes@),
            Action::Read => ActionView::Read,
            Action::ReadExact => ActionView::ReadExact,
            Action::Unblock => ActionView::Unblock,
            Action::Echo(line) => ActionView::Echo(line@),
            Action::Serve => ActionView::Serve,
            Action::Halt => ActionView::Halt,
        }
    }
}

impl Outcome {
    /// The byte in the read buffer after the operation. The buffer starts
    /// out zero.
    pub open spec fn byte(self) -> u8 {
        match self {
            Outcome::Byte(byte) => byte,
            _ => 0,
        }
    }
}

/// What `String::from_utf8_lossy` makes of these bytes. Nothing more is known
/// of it.
pub uninterp spec fn utf8_lossy(bytes: Seq<u8>) -> Seq<char>;

/// What `str::trim` leaves of this text. Nothing more is known of it.
pub uninterp spec fn trimmed(text: Seq<char>) -> Seq<char>;

/// The text of a line of the setup log, as it is shown and as it is tested
/// for being empty.
pub open spec fn line_text(line: Seq<u8>) -> Seq<char> {
    trimmed(utf8_lossy(line))
}

/// The pins of the keys, in the order of the keys.
pub open spec fn pins_of(key_maps: Seq<KeyMap>) -> Seq<u8> {
    Seq::new(key_maps.len(), |i: int| key_maps[i].pin)
}

/// The message that says which step failed, for the steps that have one.
pub open spec fn context(step: Step) -> Option<Seq<char>> {
    match step {
        Step::Reset => Some("failed to write reset command"@),
        Step::Magic => Some("failed to send magic number"@),
        Step::Resync => Some("reading magic number failed"@),
        Step::Key(_) => Some("failed to setup key with device"@),
        Step::Finish => Some("failed to finish setup"@),
        Step::Log => Some("failed to read setup log"@),
        _ => None,
    }
}

/// The messages of the error of a session that failed at `step` with an
/// outside error that reads `text`.
pub open spec fn failure_messages(step: Step, text: Seq<char>) -> Seq<Seq<char>> {
    match step {
        Step::Idle => seq![
            "failed to open serial port, ensure device is connected and the correct port is being used"@,
            text,
        ],
        Step::Streaming => seq![text],
        _ => match context(step) {
            Some(message) => seq!["failed to initialize connection"@, message, text],
            None => seq!["failed to initialize connection"@, text],
        },
    }
}

/// A session, as the contracts see it.
#[verifier::ext_equal]
pub struct Session {
    /// The operation that is under way.
    pub step: Step,
    /// The text of the outside error that ended the session, if one did.
    pub failure: Option<Seq<char>>,
    /// The scan for the magic number.
    pub scan: ScanState,
    /// The bytes of the line of the setup log that is being read.
    pub line: Seq<u8>,
    /// The pins of the keys, in the order of their key indices.
    pub pins: Seq<u8>,
    /// The debounce that was configured, in microseconds.
    pub debounce_us: int,
    /// The kind of debounce that was configured.
    pub debounce_type: DebounceType,
    /// Whether interrupts were configured.
    pub enable_interrupts: bool,
}

impl Session {
    /// The session that `cfg` opens.
    pub open spec fn idle(cfg: Config) -> Session {
        Session {
            step: Step::Idle,
            failure: None,
            scan: ScanState::start(),
            line: Seq::empty(),
            pins: pins_of(cfg.key_maps@),
            debounce_us: cfg.debounce_us as int,
            debounce_type: cfg.debounce_type,
            enable_interrupts: cfg.enable_interrupts,
        }
    }

    /// The phase of the session.
    pub open spec fn phase(self) -> Phase {
        if self.failure is Some {
            Phase::Failed
        } else {
            match self.step {
                Step::Idle => Phase::Idle,
                Step::Reset | Step::Magic | Step::Resync => Phase::Handshaking,
                Step::Unblock
                | Step::Debounce
                | Step::Smoothness
                | Step::Key(_)
                | Step::Interrupts
                | Step::Finish => Phase::ConfiguringDevice,
                Step::Log | Step::Echo | Step::Settle => Phase::AwaitingSetupLog,
                Step::Streaming => Phase::Streaming,
            }
        }
    }

    /// The garbage count of the scan can take one more byte.
    pub open spec fn can_advance(self) -> bool {
        self.failure is None && self.step is Resync ==> self.scan.garbage + MAGIC_LEN <= u64::MAX
    }

    /// The frame that sets the debounce.
    pub open spec fn debounce_frame(self) -> Seq<u8> {
        frame(SetupCommand::SetDebounce, be_bytes(clamp_micros(self.debounce_us)))
    }

    /// The frame that sets the kind of debounce.
    pub open spec fn smoothness_frame(self) -> Seq<u8> {
        frame(SetupCommand::AwaitSmoothness, seq![smoothness_flag(self.debounce_type)])
    }

    /// The frame that announces the key with index `index`.
    pub open spec fn key_frame(self, index: int) -> Seq<u8> {
        frame(SetupCommand::AddKey, seq![self.pins[index]])
    }

    /// The frame that switches interrupts on or off.
    pub open spec fn interrupts_frame(self) -> Seq<u8> {
        frame(SetupCommand::EnableInterrupts, seq![interrupts_flag(self.enable_interrupts)])
    }

    /// The session with `step` as its step.
    pub open spec fn at(self, step: Step) -> Session {
        Session { step, ..self }
    }

    /// What follows the frames before key `index`: the frame of that key if
    /// there is one, else the `EnableInterrupts` frame.
    pub open spec fn announce(self, index: nat) -> (Session, ActionView) {
        if index < self.pins.len() {
            (self.at(Step::Key(index as usize)), ActionView::Write(self.key_frame(index as int)))
        } else {
            (self.at(Step::Interrupts), ActionView::Write(self.interrupts_frame()))
        }
    }

    /// What follows the end of a line of the setup log that reads `text`: an
    /// empty line ends the log, any other is shown.
    pub open spec fn end_line(self, text: Seq<char>) -> (Session, ActionView) {
        if text.len() == 0 {
            (Session { step: Step::Settle, line: Seq::empty(), ..self }, ActionView::Unblock)
        } else {
            (Session { step: Step::Echo, line: Seq::empty(), ..self }, ActionView::Echo(text))
        }
    }

    /// The frames that configure the device, in the order in which they are
    /// written: the debounce, its kind, the keys in the order of their
    /// indices, the interrupts, and `Finish`.
    pub open spec fn setup_frames(self) -> Seq<Seq<u8>> {
        seq![self.debounce_frame(), self.smoothness_frame()] + Seq::new(
            self.pins.len(),
            |index: int| self.key_frame(index),
        ) + seq![self.interrupts_frame(), frame(SetupCommand::Finish, seq![])]
    }

    /// The session after the operation under way ended with `outcome`, and
    /// the operation that comes next. `text` is the text of the line of the
    /// setup log that is being read, if any of its bytes was read; a line
    /// without bytes has no text.
    pub open spec fn next(self, outcome: Outcome, text: Seq<char>) -> (Session, ActionView) {
        if self.failure is Some {
            (self, ActionView::Halt)
        } else if let Outcome::Failed(error) = outcome {
            (Session { failure: Some(error@), ..self }, ActionView::Halt)
        } else {
            match self.step {
                Step::Idle => (self.at(Step::Reset), ActionView::Write(frame(SetupCommand::Reset, seq![]))),
                Step::Reset => (self.at(Step::Magic), ActionView::Write(magic())),
                Step::Magic => (self.at(Step::Resync), ActionView::Read),
                Step::Resync => {
                    let scan = self.scan.step(outcome.byte());
                    if scan.complete() {
                        (Session { step: Step::Unblock, scan, ..self }, ActionView::Unblock)
                    } else {
                        (Session { scan, ..self }, ActionView::Read)
                    }
                },
                Step::Unblock => (self.at(Step::Debounce), ActionView::Write(self.debounce_frame())),
                Step::Debounce => (
                    self.at(Step::Smoothness),
                    ActionView::Write(self.smoothness_frame()),
                ),
                Step::Smoothness => self.announce(0),
                Step::Key(index) => self.announce((index + 1) as nat),
                Step::Interrupts => (
                    self.at(Step::Finish),
                    ActionView::Write(frame(SetupCommand::Finish, seq![])),
                ),
                Step::Finish => (self.at(Step::Log), ActionView::ReadExact),
                Step::Log => if outcome.byte() == NEWLINE {
                    self.end_line(
                        if self.line.len() == 0 {
                            Seq::empty()
                        } else {
                            text
                        },
                    )
                } else {
                    (Session { line: self.line.push(outcome.byte()), ..self }, ActionView::ReadExact)
                },
                Step::Echo => (self.at(Step::Log), ActionView::ReadExact),
                Step::Settle => (self.at(Step::Streaming), ActionView::Serve),
                Step::Streaming => (self, ActionView::Serve),
            }
        }
    }

    /// The session after the operations that it asked for ended, one after
    /// the other, with `outcomes`.
    pub open spec fn after(self, outcomes: Seq<Outcome>) -> Session
        decreases outcomes.len(),
    {
        if outcomes.len() == 0 {
            self
        } else {
            let before = self.after(outcomes.drop_last());
            before.next(outcomes.last(), line_text(before.line)).0
        }
    }

    /// The operations that the session asks for in answer to `outcomes`, one
    /// for each.
    pub open spec fn answers(self, outcomes: Seq<Outcome>) -> Seq<ActionView>
        decreases outcomes.len(),
    {
        if outcomes.len() == 0 {
            Seq::empty()
        } else {
            let before = self.after(outcomes.drop_last());
            self.answers(outcomes.drop_last()).push(
                before.next(outcomes.last(), line_text(before.line)).1,
            )
        }
    }
}

/// The session with a device.
#[derive(Debug)]
pub struct Connection {
    step: Step,
    failure: Option<String>,
    scanner: Scanner,
    line: Vec<u8>,
    pins: Vec<u8>,
    debounce_us: i64,
    debounce_type: DebounceType,
    enable_interrupts: bool,
}

impl View for Connection {
    type V = Session;

    closed spec fn view(&self) -> Session {
        Session {
            step: self.step,
            failure: match self.failure {
                Some(text) => Some(text@),
                None => None,
            },
            scan: self.scanner@,
            line: self.line@,
            pins: self.pins@,
            debounce_us: self.debounce_us as int,
            debounce_type: self.debounce_type,
            enable_interrupts: self.enable_interrupts,
        }
    }
}

/// Calls `String::from_utf8_lossy` and takes the text out of the `Cow`. Taken
/// on trust: the same bytes always give the same text, which the contracts
/// call `utf8_lossy`. What that text is, is not stated.
#[verifier::external_body]
fn from_utf8_lossy(bytes: &[u8]) -> (text: String)
    ensures
        text@ == utf8_lossy(bytes@),
{
    String::from_utf8_lossy(bytes).into_owned()
}

/// Calls `str::trim`. Taken on trust: the same text always gives the same
/// result, which the contracts call `trimmed`. What that result is, is not
/// stated.
#[verifier::external_body]
fn trim<'a>(text: &'a str) -> (inner: &'a str)
    ensures
        inner@ == trimmed(text@),
{
    text.trim()
}

impl Connection {
    /// The session for a channel that is about to be opened. It sends the
    /// keys of `cfg` in their order, so that the device gives each the index
    /// it has in `cfg.key_maps`.
    pub fn open(cfg: &Config) -> (conn: Connection)
        ensures
            conn@ == Session::idle(*cfg),
    {
        let mut pins: Vec<u8> = Vec::new();
        let mut i: usize = 0;
        while i < cfg.key_maps.len()
            invariant
                i <= cfg.key_maps@.len(),
                pins@ == pins_of(cfg.key_maps@).take(i as int),
            decreases cfg.key_maps@.len() - i,
        {
            pins.push(cfg.key_maps[i].pin);
            i += 1;
        }
        assert(pins@ == pins_of(cfg.key_maps@));
        Connection {
            step: Step::Idle,
            failure: None,
            scanner: Scanner::new(),
            line: Vec::new(),
            pins,
            debounce_us: cfg.debounce_us,
            debounce_type: cfg.debounce_type,
            enable_interrupts: cfg.enable_interrupts,
        }
    }

    /// Takes the outcome of the operation under way and gives the next one.
    ///
    /// A failure ends the session: the answer is `Halt`, then and ever
    /// after. While the magic number is looked for, the session must be able
    /// to count the byte as garbage (`can_advance`). A line of the setup log
    /// is read as text and trimmed before it is shown or found empty; a line
    /// without any byte is empty.
    pub fn advance(&mut self, outcome: Outcome) -> (action: Action)
        requires
            old(self)@.can_advance(),
        ensures
            final(self)@ == old(self)@.next(outcome, line_text(old(self)@.line)).0,
            action@ == old(self)@.next(outcome, line_text(old(self)@.line)).1,
    {
        if self.failure.is_some() {
            return Action::Halt;
        }
        let byte: u8 = match outcome {
            Outcome::Failed(error) => {
                self.failure = Some(error);
                return Action::Halt;
            },
            Outcome::Byte(byte) => byte,
            Outcome::Done => 0,
        };
        match self.step {
            Step::Idle => {
                self.step = Step::Reset;
                Action::Write(reset_frame())
            },
            Step::Reset => {
                self.step = Step::Magic;
                Action::Write(magic_number())
            },
            Step::Magic => {
                self.step = Step::Resync;
                Action::Read
            },
            Step::Resync => {
                if self.scanner.feed(byte) {
                    self.step = Step::Unblock;
                    Action::Unblock
                } else {
                    Action::Read
                }
            },
            Step::Unblock => {
                self.step = Step::Debounce;
                Action::Write(set_debounce_frame(self.debounce_us))
            },
            Step::Debounce => {
                self.step = Step::Smoothness;
                Action::Write(await_smoothness_frame(self.debounce_type))
            },
            Step::Smoothness => self.announce(0),
            Step::Key(index) => {
                let next: usize = if index < self.pins.len() {
                    index + 1
                } else {
                    index
                };
                self.announce(next)
            },
            Step::Interrupts => {
                self.step = Step::Finish;
                Action::Write(finish_frame())
            },
            Step::Finish => {
                self.step = Step::Log;
                Action::ReadExact
            },
            Step::Log => {
                if byte == NEWLINE {
                    let text: String = self.line_text();
                    self.end_line(text)
                } else {
                    self.line.push(byte);
                    Action::ReadExact
                }
            },
            Step::Echo => {
                self.step = Step::Log;
                Action::ReadExact
            },
            Step::Settle => {
                self.step = Step::Streaming;
                Action::Serve
            },
            Step::Streaming => Action::Serve,
        }
    }

    /// Ends the line of the setup log that is being read, `text` being what
    /// the line reads. An empty line ends the log: the channel is switched to
    /// reads without a timeout. Any other line is shown.
    pub fn end_line(&mut self, text: String) -> (action: Action)
        requires
            old(self)@.step is Log,
            old(self)@.failure is None,
        ensures
            final(self)@ == old(self)@.end_line(text@).0,
            action@ == old(self)@.end_line(text@).1,
            old(self)@.line.len() > 0 ==> final(self)@ == old(self)@.next(
                Outcome::Byte(NEWLINE),
                text@,
            ).0 && action@ == old(self)@.next(Outcome::Byte(NEWLINE), text@).1,
    {
        self.line.clear();
        if text.as_str().is_empty() {
            self.step = Step::Settle;
            Action::Unblock
        } else {
            self.step = Step::Echo;
            Action::Echo(text)
        }
    }

    /// The text of the line of the setup log that is being read. A line
    /// without bytes has no text.
    fn line_text(&self) -> (text: String)
        ensures
            text@ == if self@.line.len() == 0 {
                Seq::empty()
            } else {
                line_text(self@.line)
            },
    {
        if self.line.len() == 0 {
            String::new()
        } else {
            let decoded: String = from_utf8_lossy(self.line.as_slice());
            trim(decoded.as_str()).to_owned()
        }
    }

    /// Goes on to the frame of the key with index `index`, or past the keys.
    fn announce(&mut self, index: usize) -> (action: Action)
        ensures
            final(self)@ == old(self)@.announce(index as nat).0,
            action@ == old(self)@.announce(index as nat).1,
    {
        if index < self.pins.len() {
            self.step = Step::Key(index);
            Action::Write(add_key_frame(self.pins[index]))
        } else {
            self.step = Step::Interrupts;
            Action::Write(enable_interrupts_frame(self.enable_interrupts))
        }
    }

    /// The event that an event byte stands for, once the device streams.
    /// Before that, and after a failure, there are no events.
    pub fn read_event(&self, byte: u8) -> (event: Option<Event>)
        ensures
            event == if self@.phase() is Streaming {
                Some(Event::decode(byte))
            } else {
                None
            },
    {
        if self.failure.is_none() && matches!(self.step, Step::Streaming) {
            Some(Event::from_raw(byte))
        } else {
            None
        }
    }

    /// The phase of the session.
    pub fn phase(&self) -> (phase: Phase)
        ensures
            phase == self@.phase(),
    {
        if self.failure.is_some() {
            Phase::Failed
        } else {
            match self.step {
                Step::Idle => Phase::Idle,
                Step::Reset | Step::Magic | Step::Resync => Phase::Handshaking,
                Step::Unblock
                | Step::Debounce
                | Step::Smoothness
                | Step::Key(_)
                | Step::Interrupts
                | Step::Finish => Phase::ConfiguringDevice,
                Step::Log | Step::Echo | Step::Settle => Phase::AwaitingSetupLog,
                Step::Streaming => Phase::Streaming,
            }
        }
    }

    /// The operation that is under way, or at which the session failed.
    pub fn step(&self) -> (step: Step)
        ensures
            step == self@.step,
    {
        self.step
    }

    /// How many bytes the scan for the magic number gave up as garbage.
    pub fn garbage(&self) -> (garbage: u64)
        ensures
            garbage == self@.scan.garbage,
    {
        self.scanner.garbage()
    }

    /// Whether `advance` may be called.
    pub fn can_advance(&self) -> (ready: bool)
        ensures
            ready == self@.can_advance(),
    {
        if self.failure.is_none() && matches!(self.step, Step::Resync) {
            self.scanner.can_feed()
        } else {
            true
        }
    }

    /// The error of a failed session: the text of the outside error, under
    /// the message of the step that failed where it has one, under that of
    /// the handshake where it failed there.
    pub fn failure(&self) -> (failure: Option<Cause>)
        ensures
            match self@.failure {
                None => failure is None,
                Some(text) => failure matches Some(cause) && cause.messages() == failure_messages(
                    self@.step,
                    text,
                ),
            },
    {
        match &self.failure {
            None => None,
            Some(text) => {
                let outside: Cause = Cause::Outside(text.clone());
                let cause: Cause = match self.step {
                    Step::Streaming => outside,
                    Step::Idle => under(
                        "failed to open serial port, ensure device is connected and the correct port is being used",
                        outside,
                    ),
                    Step::Reset => in_handshake(under("failed to write reset command", outside)),
                    Step::Magic => in_handshake(under("failed to send magic number", outside)),
                    Step::Resync => in_handshake(under("reading magic number failed", outside)),
                    Step::Key(_) => in_handshake(under("failed to setup key with device", outside)),
                    Step::Finish => in_handshake(under("failed to finish setup", outside)),
                    Step::Log => in_handshake(under("failed to read setup log", outside)),
                    _ => in_handshake(outside),
                };
                Some(cause)
            },
        }
    }
}

/// The cause under a message that says what failed.
fn under(msg: &str, cause: Cause) -> (chained: Cause)
    ensures
        chained.messages() == seq![msg@] + cause.messages(),
{
    Cause::from(BoxErrorMsg { msg: msg.to_owned(), cause })
}

/// The cause of a failure in the handshake.
fn in_handshake(cause: Cause) -> (chained: Cause)
    ensures
        chained.messages() == seq!["failed to initialize connection"@] + cause.messages(),
{
    under("failed to initialize connection", cause)
}

} // verus!
