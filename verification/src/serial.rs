//! Byte-level protocol between the daemon and the microcontroller.

use vstd::prelude::*;

use vstd::string::StringExecFns;

use crate::config::{NotificationConfig, CONFIG_SIZE};
use crate::FRAME_SIZE;

verus! {

/// Header byte of a display frame sent to the microcontroller.
pub const FRAME_HEADER: u8 = 0xBB;
/// Header byte of a configuration packet sent to the microcontroller. The
/// value is this library's own choice: the daemon names this header without
/// giving its value, and does not send configuration packets yet.
pub const CONFIG_HEADER: u8 = 0xCC;
/// Byte the microcontroller sends to acknowledge a frame.
pub const ACK_BYTE: u8 = 0x06;
/// Header byte that precedes every command byte from the microcontroller.
pub const COMMAND_HEADER: u8 = 0xAA;

/// Command bytes that follow a `COMMAND_HEADER`.
pub const VOLUP_CMD: u8 = 0x02;
pub const VOLDOWN_CMD: u8 = 0x03;
pub const NAVUP_CMD: u8 = 0x04;
pub const NAVDOWN_CMD: u8 = 0x05;
pub const MUTE_CMD: u8 = 0x10;

/// Bytes of a display frame, header included.
#[derive(Debug, Clone)]
pub struct FramePacket(pub [u8; FRAME_SIZE]);

/// Packets other than frames that the daemon sends to the microcontroller.
#[derive(Debug, Clone)]
pub enum Packet {
    /// Display configuration, see `DisplayConfig::to_packet`.
    Config([u8; CONFIG_SIZE]),
}

/// Commands for the coordinator, decoded from the microcontroller's knobs.
#[derive(Debug, Clone, Copy, PartialEq, Eq, Structural)]
pub enum ControlMsg {
    /// The navigation knob turned; `up` is true for up, false for down.
    AppScroll { up: bool },
    /// The volume knob turned; `up` is true for up, false for down.
    VolumeScroll { up: bool },
    /// The mute button was pressed.
    MuteToggle,
}

/// What the reader decoded from the serial line.
#[derive(Debug, Clone, Copy, PartialEq, Eq, Structural)]
pub enum SerialReceived {
    Acknowledge,
    VolUp,
    VolDown,
    NavUp,
    NavDown,
    MuteToggle,
    Error(u8),
}

/// The meaning of a command byte.
pub open spec fn spec_read_command(cmd_byte: u8) -> SerialReceived {
    if cmd_byte == VOLUP_CMD {
        SerialReceived::VolUp
    } else if cmd_byte == VOLDOWN_CMD {
        SerialReceived::VolDown
    } else if cmd_byte == NAVUP_CMD {
        SerialReceived::NavUp
    } else if cmd_byte == NAVDOWN_CMD {
        SerialReceived::NavDown
    } else if cmd_byte == MUTE_CMD {
        SerialReceived::MuteToggle
    } else {
        SerialReceived::Error(cmd_byte)
    }
}

/// Decodes the byte that follows a `COMMAND_HEADER`.
pub fn read_command(cmd_byte: u8) -> (r: SerialReceived)
    ensures
        r == spec_read_command(cmd_byte),
{
    match cmd_byte {
        VOLUP_CMD => SerialReceived::VolUp,
        VOLDOWN_CMD => SerialReceived::VolDown,
        NAVUP_CMD => SerialReceived::NavUp,
        NAVDOWN_CMD => SerialReceived::NavDown,
        MUTE_CMD => SerialReceived::MuteToggle,
        b => SerialReceived::Error(b),
    }
}

/// What one read of a single byte from the serial port gave.
#[derive(Debug, Clone, Copy, PartialEq, Eq, Structural)]
pub enum ReadOutcome {
    Byte(u8),
    /// The device returned no byte.
    Eof,
    /// The read timed out; try again later.
    TimedOut,
    /// Any other read error.
    Failed,
}

/// Where the reader stands in the byte stream.
#[derive(Debug, Clone, Copy, PartialEq, Eq, Structural)]
pub enum ReaderState {
    /// Waiting for an acknowledgement or a command header.
    AwaitingHeader,
    /// A command header arrived; waiting for its command byte.
    AwaitingCommand,
}

/// The reader's decision after one read: the state it continues in (`None`
/// when it stops) and what it passes on to the subsystem.
#[derive(Debug, Clone, Copy, PartialEq, Eq, Structural)]
pub struct ReaderStep {
    pub next: Option<ReaderState>,
    pub received: Option<SerialReceived>,
}

/// The reader's transition. Waiting for a header, an acknowledgement byte is
/// passed on, a command header switches to waiting for the command, other
/// bytes, end of data and timeouts are skipped, and any other error stops the
/// reader. Waiting for a command, a byte is decoded and passed on; nothing
/// else (errors included) leaves that state.
pub open spec fn spec_reader_step(state: ReaderState, outcome: ReadOutcome) -> ReaderStep {
    match state {
        ReaderState::AwaitingHeader => match outcome {
            ReadOutcome::Byte(b) => if b == ACK_BYTE {
                ReaderStep {
                    next: Some(ReaderState::AwaitingHeader),
                    received: Some(SerialReceived::Acknowledge),
                }
            } else if b == COMMAND_HEADER {
                ReaderStep { next: Some(ReaderState::AwaitingCommand), received: None }
            } else {
                ReaderStep { next: Some(ReaderState::AwaitingHeader), received: None }
            },
            ReadOutcome::Eof | ReadOutcome::TimedOut => ReaderStep {
                next: Some(ReaderState::AwaitingHeader),
                received: None,
            },
            ReadOutcome::Failed => ReaderStep { next: None, received: None },
        },
        ReaderState::AwaitingCommand => match outcome {
            ReadOutcome::Byte(b) => ReaderStep {
                next: Some(ReaderState::AwaitingHeader),
                received: Some(spec_read_command(b)),
            },
            _ => ReaderStep { next: Some(ReaderState::AwaitingCommand), received: None },
        },
    }
}

/// One step of the serial reader.
pub fn reader_step(state: ReaderState, outcome: ReadOutcome) -> (r: ReaderStep)
    ensures
        r == spec_reader_step(state, outcome),
{
    match state {
        ReaderState::AwaitingHeader => match outcome {
            ReadOutcome::Byte(b) => {
                if b == ACK_BYTE {
                    ReaderStep {
                        next: Some(ReaderState::AwaitingHeader),
                        received: Some(SerialReceived::Acknowledge),
                    }
                } else if b == COMMAND_HEADER {
                    ReaderStep { next: Some(ReaderState::AwaitingCommand), received: None }
                } else {
                    ReaderStep { next: Some(ReaderState::AwaitingHeader), received: None }
                }
            },
            ReadOutcome::Eof | ReadOutcome::TimedOut => ReaderStep {
                next: Some(ReaderState::AwaitingHeader),
                received: None,
            },
            ReadOutcome::Failed => ReaderStep { next: None, received: None },
        },
        ReaderState::AwaitingCommand => match outcome {
            ReadOutcome::Byte(b) => ReaderStep {
                next: Some(ReaderState::AwaitingHeader),
                received: Some(read_command(b)),
            },
            _ => ReaderStep { next: Some(ReaderState::AwaitingCommand), received: None },
        },
    }
}

/// Where the serial subsystem passes something the reader decoded.
#[derive(Debug, Clone, Copy, PartialEq, Eq, Structural)]
pub enum Route {
    /// An acknowledgement, for the writer.
    ToWriter,
    /// An unknown command byte, only reported.
    Unknown(u8),
    /// A command for the coordinator.
    ToCoordinator(ControlMsg),
}

/// The command that a knob or button byte stands for, if any.
pub open spec fn command_meaning(cmd_byte: u8) -> Option<ControlMsg> {
    if cmd_byte == VOLUP_CMD {
        Some(ControlMsg::VolumeScroll { up: true })
    } else if cmd_byte == VOLDOWN_CMD {
        Some(ControlMsg::VolumeScroll { up: false })
    } else if cmd_byte == NAVUP_CMD {
        Some(ControlMsg::AppScroll { up: true })
    } else if cmd_byte == NAVDOWN_CMD {
        Some(ControlMsg::AppScroll { up: false })
    } else if cmd_byte == MUTE_CMD {
        Some(ControlMsg::MuteToggle)
    } else {
        None
    }
}

/// Where a decoded message goes.
pub open spec fn spec_route(received: SerialReceived) -> Route {
    match received {
        SerialReceived::Acknowledge => Route::ToWriter,
        SerialReceived::Error(b) => Route::Unknown(b),
        SerialReceived::VolUp => Route::ToCoordinator(ControlMsg::VolumeScroll { up: true }),
        SerialReceived::VolDown => Route::ToCoordinator(ControlMsg::VolumeScroll { up: false }),
        SerialReceived::NavUp => Route::ToCoordinator(ControlMsg::AppScroll { up: true }),
        SerialReceived::NavDown => Route::ToCoordinator(ControlMsg::AppScroll { up: false }),
        SerialReceived::MuteToggle => Route::ToCoordinator(ControlMsg::MuteToggle),
    }
}

/// Routes a decoded message: acknowledgements to the writer, commands to the
/// coordinator, unknown bytes to the log.
pub fn route(received: SerialReceived) -> (r: Route)
    ensures
        r == spec_route(received),
{
    match received {
        SerialReceived::Acknowledge => Route::ToWriter,
        SerialReceived::Error(b) => Route::Unknown(b),
        SerialReceived::VolUp => Route::ToCoordinator(ControlMsg::VolumeScroll { up: true }),
        SerialReceived::VolDown => Route::ToCoordinator(ControlMsg::VolumeScroll { up: false }),
        SerialReceived::NavUp => Route::ToCoordinator(ControlMsg::AppScroll { up: true }),
        SerialReceived::NavDown => Route::ToCoordinator(ControlMsg::AppScroll { up: false }),
        SerialReceived::MuteToggle => Route::ToCoordinator(ControlMsg::MuteToggle),
    }
}

/// A command header followed by a command byte reaches the coordinator as
/// the command that the byte stands for, and the reader is back to waiting for
/// a header; a byte that stands for no command is only reported.
pub proof fn law_command_after_header(b: u8)
    ensures
        spec_reader_step(ReaderState::AwaitingHeader, ReadOutcome::Byte(COMMAND_HEADER)) == (
        ReaderStep { next: Some(ReaderState::AwaitingCommand), received: None }),
        spec_reader_step(ReaderState::AwaitingCommand, ReadOutcome::Byte(b)).next == Some(
            ReaderState::AwaitingHeader,
        ),
        spec_reader_step(ReaderState::AwaitingCommand, ReadOutcome::Byte(b)).received matches Some(
            m,
        ) && spec_route(m) == match command_meaning(b) {
            Some(c) => Route::ToCoordinator(c),
            None => Route::Unknown(b),
        },
{
}

/// Writes of one frame without an acknowledgement after which the writer
/// gives the frame up.
pub const MAX_ATTEMPTS: u8 = 5;

/// What the writer's wait after a send ended with.
#[derive(Debug)]
pub enum WaitEvent {
    /// A newer frame arrived before the acknowledgement.
    NewPacket(FramePacket),
    /// Receiving from the subsystem failed.
    ChannelError,
    /// The microcontroller acknowledged the frame.
    Acknowledged,
    /// Nothing arrived in time.
    TimedOut,
}

/// The writer's memory: the frame it is delivering, how often that frame was
/// written without an acknowledgement, and whether it replaced an older frame
/// whose acknowledgement may still arrive.
#[derive(Debug)]
pub struct SerialWriter {
    pub packet: Option<FramePacket>,
    pub attempt: u8,
    pub unsent_waiting: bool,
}

/// The writer after a wait ended with `event`: a newer frame replaces the
/// current one, with its own count of writes, and is marked unsent; an
/// acknowledgement resets the count and clears the frame unless a newer one
/// is waiting to be sent; a frame written `MAX_ATTEMPTS` times without an
/// acknowledgement is given up, and the count starts over.
pub open spec fn spec_after_wait(w: SerialWriter, event: WaitEvent) -> SerialWriter {
    let w1 = match event {
        WaitEvent::NewPacket(p) => SerialWriter { packet: Some(p), attempt: 0, unsent_waiting: true },
        WaitEvent::ChannelError => w,
        WaitEvent::Acknowledged => if w.unsent_waiting {
            SerialWriter { attempt: 0, unsent_waiting: false, ..w }
        } else {
            SerialWriter { packet: None, attempt: 0, unsent_waiting: false }
        },
        WaitEvent::TimedOut => w,
    };
    if w1.packet is Some && w1.attempt >= MAX_ATTEMPTS {
        SerialWriter { packet: None, attempt: 0, unsent_waiting: false }
    } else {
        w1
    }
}

impl SerialWriter {
    /// A writer with nothing to send.
    pub fn new() -> (w: Self)
        ensures
            w.packet is None,
            w.attempt == 0,
            !w.unsent_waiting,
    {
        SerialWriter { packet: None, attempt: 0, unsent_waiting: false }
    }

    /// A frame arrived while the writer had nothing to send.
    pub fn packet_received(&mut self, packet: FramePacket)
        ensures
            final(self).packet == Some(packet),
            final(self).attempt == old(self).attempt,
            final(self).unsent_waiting == old(self).unsent_waiting,
    {
        self.packet = Some(packet);
    }

    /// The current frame was written and flushed.
    pub fn packet_sent(&mut self)
        requires
            old(self).attempt < u8::MAX,
        ensures
            final(self).attempt == old(self).attempt + 1,
            final(self).packet == old(self).packet,
            final(self).unsent_waiting == old(self).unsent_waiting,
    {
        self.attempt = self.attempt + 1;
    }

    /// The wait that follows a send ended with `event`.
    pub fn after_wait(&mut self, event: WaitEvent)
        ensures
            *final(self) == spec_after_wait(*old(self), event),
            final(self).packet is Some ==> final(self).attempt < MAX_ATTEMPTS,
    {
        match event {
            WaitEvent::NewPacket(p) => {
                self.packet = Some(p);
                self.attempt = 0;
                self.unsent_waiting = true;
            },
            WaitEvent::ChannelError => {},
            WaitEvent::Acknowledged => {
                self.attempt = 0;
                if self.unsent_waiting {
                    self.unsent_waiting = false;
                } else {
                    self.packet = None;
                }
            },
            WaitEvent::TimedOut => {},
        }
        if self.packet.is_some() && self.attempt >= MAX_ATTEMPTS {
            self.packet = None;
            self.attempt = 0;
            self.unsent_waiting = false;
        }
    }
}

/// One unanswered delivery round: the frame is written, and the wait for
/// its acknowledgement times out.
pub open spec fn unanswered_round(w: SerialWriter) -> SerialWriter {
    spec_after_wait(SerialWriter { attempt: (w.attempt + 1) as u8, ..w }, WaitEvent::TimedOut)
}

/// The writer after `n` unanswered rounds.
pub open spec fn unanswered_rounds(w: SerialWriter, n: nat) -> SerialWriter
    decreases n,
{
    if n == 0 {
        w
    } else {
        unanswered_round(unanswered_rounds(w, (n - 1) as nat))
    }
}

/// A frame that has not been written yet is written `MAX_ATTEMPTS` times
/// while no acknowledgement comes, then given up; the writer is then back to
/// nothing to send with a fresh count, so the next frame gets as many writes.
pub proof fn law_gives_up_after_max_attempts(p: FramePacket, unsent: bool, n: nat)
    ensures
        n < MAX_ATTEMPTS ==> unanswered_rounds(
            SerialWriter { packet: Some(p), attempt: 0, unsent_waiting: unsent },
            n,
        ) == (SerialWriter { packet: Some(p), attempt: n as u8, unsent_waiting: unsent }),
        n == MAX_ATTEMPTS ==> unanswered_rounds(
            SerialWriter { packet: Some(p), attempt: 0, unsent_waiting: unsent },
            n,
        ) == (SerialWriter { packet: None, attempt: 0, unsent_waiting: false }),
    decreases n,
{
    if n > 0 {
        law_gives_up_after_max_attempts(p, unsent, (n - 1) as nat);
    }
}

/// A frame that replaces the one being delivered is kept, with a fresh count
/// of writes, and is not lost to the acknowledgement of the older frame: it
/// stays, to be sent next.
pub proof fn law_replacement_survives_ack(w: SerialWriter, p: FramePacket)
    ensures
        spec_after_wait(w, WaitEvent::NewPacket(p)) == (SerialWriter {
            packet: Some(p),
            attempt: 0,
            unsent_waiting: true,
        }),
        spec_after_wait(spec_after_wait(w, WaitEvent::NewPacket(p)), WaitEvent::Acknowledged)
            == (SerialWriter { packet: Some(p), attempt: 0, unsent_waiting: false }),
{
}

/// Without a replacement, an acknowledgement ends the delivery.
pub proof fn law_ack_clears(w: SerialWriter)
    requires
        !w.unsent_waiting,
    ensures
        spec_after_wait(w, WaitEvent::Acknowledged) == (SerialWriter {
            packet: None,
            attempt: 0,
            unsent_waiting: false,
        }),
{
}

/// An acknowledgement that arrives while a replacement frame waits to be
/// sent (the older frame's acknowledgement) keeps the replacement, however
/// often it has been written, and only resets the count.
pub proof fn law_ack_keeps_waiting_replacement(w: SerialWriter)
    requires
        w.unsent_waiting,
        w.packet is Some,
    ensures
        spec_after_wait(w, WaitEvent::Acknowledged) == (SerialWriter {
            packet: w.packet,
            attempt: 0,
            unsent_waiting: false,
        }),
{
}

/// Wait before the first retry of a port that failed to open.
pub const INITIAL_RETRY_MS: u64 = 500;

/// The retry wait doubles while it is below this.
pub const RETRY_GROWTH_LIMIT_MS: u64 = 7000;

/// A desktop notification to show.
#[derive(Debug)]
pub struct Notification {
    pub title: String,
    pub body: String,
}

/// The connection's retry wait, and whether the next connection is the first.
#[derive(Debug, Clone, Copy, PartialEq, Eq, Structural)]
pub struct ConnectionState {
    pub retry_timeout_ms: u64,
    pub first_connect: bool,
}

/// The retry wait after one more failed attempt: doubled while below the limit.
pub open spec fn next_retry_ms(ms: u64) -> u64 {
    if ms < RETRY_GROWTH_LIMIT_MS {
        (ms * 2) as u64
    } else {
        ms
    }
}

/// The retry wait after `n` failed attempts in a row.
pub open spec fn retry_after(n: nat) -> u64
    decreases n,
{
    if n == 0 {
        INITIAL_RETRY_MS
    } else {
        next_retry_ms(retry_after((n - 1) as nat))
    }
}

/// Whether connecting is announced: the first connection and later
/// reconnections each have their own setting.
pub open spec fn announces_connect(cfg: NotificationConfig, first_connect: bool) -> bool {
    (cfg.on_first_connect && first_connect) || (cfg.on_reconnect && !first_connect)
}

/// `text` followed by the port's name.
fn with_port(text: &str, port: &str) -> (s: String)
    ensures
        s@ == text@ + port@,
{
    let mut s = String::from_str(text);
    s.append(port);
    s
}

impl ConnectionState {
    /// Before the first attempt to open the port.
    pub fn new() -> (c: Self)
        ensures
            c == (ConnectionState { retry_timeout_ms: INITIAL_RETRY_MS, first_connect: true }),
    {
        ConnectionState { retry_timeout_ms: INITIAL_RETRY_MS, first_connect: true }
    }

    /// The port failed to open: returns how long to wait before the next
    /// attempt, and grows the wait for the attempt after.
    pub fn open_failed(&mut self) -> (wait_ms: u64)
        ensures
            wait_ms == old(self).retry_timeout_ms,
            final(self).retry_timeout_ms == next_retry_ms(old(self).retry_timeout_ms),
            final(self).first_connect == old(self).first_connect,
    {
        let wait_ms = self.retry_timeout_ms;
        if self.retry_timeout_ms < RETRY_GROWTH_LIMIT_MS {
            self.retry_timeout_ms = self.retry_timeout_ms * 2;
        }
        wait_ms
    }

    /// The port opened: the retry wait starts over, later connections are
    /// reconnections, and the notification to show, if the settings ask for one.
    pub fn connected(&mut self, cfg: &NotificationConfig, port: &str) -> (n: Option<Notification>)
        ensures
            final(self).retry_timeout_ms == INITIAL_RETRY_MS,
            !final(self).first_connect,
            n is Some <==> announces_connect(*cfg, old(self).first_connect),
            n matches Some(note) ==> note.title@ == "Mixer Connected"@ && note.body@
                == "Communicating with mixer on "@ + port@,
    {
        self.retry_timeout_ms = INITIAL_RETRY_MS;
        let announce = (cfg.on_first_connect && self.first_connect) || (cfg.on_reconnect
            && !self.first_connect);
        self.first_connect = false;
        if announce {
            Some(
                Notification {
                    title: String::from_str("Mixer Connected"),
                    body: with_port("Communicating with mixer on ", port),
                },
            )
        } else {
            None
        }
    }

    /// The microcontroller was lost: the notification to show, if the
    /// settings ask for one.
    pub fn disconnected(&self, cfg: &NotificationConfig, port: &str) -> (n: Option<Notification>)
        ensures
            n is Some <==> cfg.on_disconnect,
            n matches Some(note) ==> note.title@ == "Mixer Disconnected"@ && note.body@
                == "Waiting for mixer to reconnect on "@ + port@,
    {
        if cfg.on_disconnect {
            Some(
                Notification {
                    title: String::from_str("Mixer Disconnected"),
                    body: with_port("Waiting for mixer to reconnect on ", port),
                },
            )
        } else {
            None
        }
    }
}

/// The two settings act independently: the first connection is announced
/// exactly when `on_first_connect` is set, and every later connection exactly
/// when `on_reconnect` is set, whatever the other setting says.
pub proof fn law_connect_announcements(cfg: NotificationConfig)
    ensures
        announces_connect(cfg, true) == cfg.on_first_connect,
        announces_connect(cfg, false) == cfg.on_reconnect,
{
}

/// However many attempts fail in a row, the wait between them is half a
/// second doubled at most four times: never more than eight seconds.
pub proof fn law_retry_wait_bounded(n: nat)
    ensures
        INITIAL_RETRY_MS <= retry_after(n) <= 8000,
        retry_after(n) == 500 || retry_after(n) == 1000 || retry_after(n) == 2000
            || retry_after(n) == 4000 || retry_after(n) == 8000,
    decreases n,
{
    if n > 0 {
        law_retry_wait_bounded((n - 1) as nat);
    }
}

} // verus!
