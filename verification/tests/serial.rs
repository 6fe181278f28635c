use grebe::config::NotificationConfig;
use grebe::mixer::DisplayFrame;
use grebe::serial::{
    read_command, reader_step, route, ConnectionState, ControlMsg, ReadOutcome, ReaderState,
    ReaderStep, Route, SerialReceived, SerialWriter, WaitEvent, ACK_BYTE, COMMAND_HEADER,
};

fn packet() -> grebe::serial::FramePacket {
    DisplayFrame::new(None, None, None).to_bytes()
}

fn notif(first: bool, re: bool, dis: bool) -> NotificationConfig {
    NotificationConfig { on_first_connect: first, on_reconnect: re, on_disconnect: dis, silent: false, expiration: 5 }
}

#[test]
fn command_bytes_decode() {
    assert_eq!(read_command(0x02), SerialReceived::VolUp);
    assert_eq!(read_command(0x03), SerialReceived::VolDown);
    assert_eq!(read_command(0x04), SerialReceived::NavUp);
    assert_eq!(read_command(0x05), SerialReceived::NavDown);
    assert_eq!(read_command(0x10), SerialReceived::MuteToggle);
    assert_eq!(read_command(0x07), SerialReceived::Error(0x07));
    assert_eq!(read_command(0x00), SerialReceived::Error(0x00));
}

#[test]
fn reader_acknowledgement() {
    let s = reader_step(ReaderState::AwaitingHeader, ReadOutcome::Byte(ACK_BYTE));
    assert_eq!(s, ReaderStep { next: Some(ReaderState::AwaitingHeader), received: Some(SerialReceived::Acknowledge) });
}

#[test]
fn reader_command_after_header() {
    let s = reader_step(ReaderState::AwaitingHeader, ReadOutcome::Byte(COMMAND_HEADER));
    assert_eq!(s, ReaderStep { next: Some(ReaderState::AwaitingCommand), received: None });
    let s = reader_step(ReaderState::AwaitingCommand, ReadOutcome::Byte(0x04));
    assert_eq!(s, ReaderStep { next: Some(ReaderState::AwaitingHeader), received: Some(SerialReceived::NavUp) });
    assert_eq!(route(s.received.unwrap()), Route::ToCoordinator(ControlMsg::AppScroll { up: true }));
}

#[test]
fn reader_skips_and_stops() {
    assert_eq!(
        reader_step(ReaderState::AwaitingHeader, ReadOutcome::Byte(0x55)),
        ReaderStep { next: Some(ReaderState::AwaitingHeader), received: None }
    );
    assert_eq!(
        reader_step(ReaderState::AwaitingHeader, ReadOutcome::TimedOut),
        ReaderStep { next: Some(ReaderState::AwaitingHeader), received: None }
    );
    assert_eq!(
        reader_step(ReaderState::AwaitingHeader, ReadOutcome::Eof),
        ReaderStep { next: Some(ReaderState::AwaitingHeader), received: None }
    );
    assert_eq!(reader_step(ReaderState::AwaitingHeader, ReadOutcome::Failed), ReaderStep { next: None, received: None });
    // waiting for a command byte, errors do not stop the reader
    assert_eq!(
        reader_step(ReaderState::AwaitingCommand, ReadOutcome::Failed),
        ReaderStep { next: Some(ReaderState::AwaitingCommand), received: None }
    );
    assert_eq!(
        reader_step(ReaderState::AwaitingCommand, ReadOutcome::TimedOut),
        ReaderStep { next: Some(ReaderState::AwaitingCommand), received: None }
    );
}

#[test]
fn routes() {
    assert_eq!(route(SerialReceived::Acknowledge), Route::ToWriter);
    assert_eq!(route(SerialReceived::Error(9)), Route::Unknown(9));
    assert_eq!(route(SerialReceived::VolUp), Route::ToCoordinator(ControlMsg::VolumeScroll { up: true }));
    assert_eq!(route(SerialReceived::VolDown), Route::ToCoordinator(ControlMsg::VolumeScroll { up: false }));
    assert_eq!(route(SerialReceived::NavUp), Route::ToCoordinator(ControlMsg::AppScroll { up: true }));
    assert_eq!(route(SerialReceived::NavDown), Route::ToCoordinator(ControlMsg::AppScroll { up: false }));
    assert_eq!(route(SerialReceived::MuteToggle), Route::ToCoordinator(ControlMsg::MuteToggle));
}

#[test]
fn unknown_command_is_only_reported() {
    let s = reader_step(ReaderState::AwaitingCommand, ReadOutcome::Byte(0x42));
    assert_eq!(route(s.received.unwrap()), Route::Unknown(0x42));
}

#[test]
fn writer_delivers_until_acknowledged() {
    let mut w = SerialWriter::new();
    w.packet_received(packet());
    w.packet_sent();
    w.after_wait(WaitEvent::TimedOut);
    assert!(w.packet.is_some());
    assert_eq!(w.attempt, 1);
    w.packet_sent();
    w.after_wait(WaitEvent::Acknowledged);
    assert!(w.packet.is_none());
    assert_eq!(w.attempt, 0);
}

#[test]
fn writer_gives_up_after_five_attempts() {
    let mut w = SerialWriter::new();
    w.packet_received(packet());
    let mut writes = 0;
    while w.packet.is_some() {
        w.packet_sent();
        writes += 1;
        w.after_wait(WaitEvent::TimedOut);
    }
    assert_eq!(writes, 5);
    assert_eq!(w.attempt, 0);
    assert!(!w.unsent_waiting);
}

#[test]
fn next_frame_gets_five_writes_again() {
    let mut w = SerialWriter::new();
    for _ in 0..2 {
        w.packet_received(packet());
        let mut writes = 0;
        while w.packet.is_some() {
            w.packet_sent();
            writes += 1;
            w.after_wait(WaitEvent::TimedOut);
        }
        assert_eq!(writes, 5);
    }
}

#[test]
fn replacement_gets_its_own_writes() {
    let mut w = SerialWriter::new();
    w.packet_received(packet());
    for _ in 0..4 {
        w.packet_sent();
        w.after_wait(WaitEvent::TimedOut);
    }
    w.packet_sent();
    let mut newer = packet();
    newer.0[2] = 9;
    w.after_wait(WaitEvent::NewPacket(newer));
    assert_eq!(w.packet.as_ref().unwrap().0[2], 9);
    assert_eq!(w.attempt, 0);
    let mut writes = 0;
    while w.packet.is_some() {
        w.packet_sent();
        writes += 1;
        w.after_wait(WaitEvent::TimedOut);
    }
    assert_eq!(writes, 5);
}

#[test]
fn replacement_survives_acknowledgement() {
    let mut w = SerialWriter::new();
    w.packet_received(packet());
    w.packet_sent();
    let mut newer = packet();
    newer.0[1] = 77;
    w.after_wait(WaitEvent::NewPacket(newer));
    assert!(w.unsent_waiting);
    w.after_wait(WaitEvent::Acknowledged);
    assert_eq!(w.packet.as_ref().unwrap().0[1], 77);
    assert_eq!(w.attempt, 0);
    assert!(!w.unsent_waiting);
}

#[test]
fn channel_error_changes_nothing() {
    let mut w = SerialWriter::new();
    w.packet_received(packet());
    w.packet_sent();
    w.after_wait(WaitEvent::ChannelError);
    assert!(w.packet.is_some());
    assert_eq!(w.attempt, 1);
}

#[test]
fn retry_wait_doubles_up_to_eight_seconds() {
    let mut c = ConnectionState::new();
    let waits: Vec<u64> = (0..7).map(|_| c.open_failed()).collect();
    assert_eq!(waits, vec![500, 1000, 2000, 4000, 8000, 8000, 8000]);
}

#[test]
fn connecting_resets_retry_and_announces() {
    let mut c = ConnectionState::new();
    c.open_failed();
    c.open_failed();
    let n = c.connected(&notif(true, false, false), "COM4").unwrap();
    assert_eq!(n.title, "Mixer Connected");
    assert_eq!(n.body, "Communicating with mixer on COM4");
    assert_eq!(c.retry_timeout_ms, 500);
    assert!(!c.first_connect);
    // the second connection is a reconnection, which this setting does not announce
    assert!(c.connected(&notif(true, false, false), "COM4").is_none());
    assert!(c.connected(&notif(false, true, false), "COM4").is_some());
}

#[test]
fn first_connection_with_only_reconnect_setting_is_silent() {
    let mut c = ConnectionState::new();
    assert!(c.connected(&notif(false, true, true), "COM3").is_none());
}

#[test]
fn disconnection_notice() {
    let c = ConnectionState::new();
    let n = c.disconnected(&notif(false, false, true), "COM3").unwrap();
    assert_eq!(n.title, "Mixer Disconnected");
    assert_eq!(n.body, "Waiting for mixer to reconnect on COM3");
    assert!(c.disconnected(&notif(true, true, false), "COM3").is_none());
}
