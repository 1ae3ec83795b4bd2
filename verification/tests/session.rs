use serial_keyboard::config::{Config, DebounceType, KeyMap};
use serial_keyboard::connection::{Action, Connection, Outcome, Phase, Step, NEWLINE};
use serial_keyboard::event::Event;
use serial_keyboard::scanner::MAGIC_NUMBER;

fn config() -> Config {
    let mut cfg = Config::default();
    cfg.key_maps = vec![
        KeyMap { pin: 2, keycodes: vec![32] },
        KeyMap { pin: 7, keycodes: vec![65, 66] },
    ];
    cfg.debounce_us = 1000;
    cfg.debounce_type = DebounceType::LastChange;
    cfg.enable_interrupts = true;
    cfg
}

fn done(conn: &mut Connection) -> Action {
    assert!(conn.can_advance());
    conn.advance(Outcome::Done)
}

fn byte(conn: &mut Connection, byte: u8) -> Action {
    assert!(conn.can_advance());
    conn.advance(Outcome::Byte(byte))
}

fn fail(conn: &mut Connection, text: &str) -> Action {
    assert!(conn.can_advance());
    conn.advance(Outcome::Failed(text.to_string()))
}

/// Brings a fresh session to the read of the first byte of the answer.
fn sent(cfg: &Config) -> Connection {
    let mut conn = Connection::open(cfg);
    assert_eq!(done(&mut conn), Action::Write(vec![0xEE, 0, 0]));
    assert_eq!(done(&mut conn), Action::Write(b"SerKey01".to_vec()));
    assert_eq!(done(&mut conn), Action::Read);
    conn
}

/// Brings a fresh session to the switch of the channel after the magic number.
fn matched(cfg: &Config) -> Connection {
    let mut conn = sent(cfg);
    for (at, magic) in MAGIC_NUMBER.iter().enumerate() {
        let action = byte(&mut conn, *magic);
        if at < 7 {
            assert_eq!(action, Action::Read);
        } else {
            assert_eq!(action, Action::Unblock);
        }
    }
    conn
}

/// Brings a fresh session to the read of the first byte of the setup log.
fn configured(cfg: &Config) -> Connection {
    let mut conn = matched(cfg);
    for _ in 0..(cfg.key_maps.len() + 4) {
        match done(&mut conn) {
            Action::Write(_) => {}
            other => panic!("expected a write, got {:?}", other),
        }
    }
    assert_eq!(done(&mut conn), Action::ReadExact);
    conn
}

/// Brings a fresh session to the stream of events.
fn streaming(cfg: &Config) -> Connection {
    let mut conn = configured(cfg);
    assert_eq!(byte(&mut conn, NEWLINE), Action::Unblock);
    assert_eq!(done(&mut conn), Action::Serve);
    conn
}

fn messages(conn: &Connection) -> String {
    conn.failure().expect("the session has failed").render()
}

#[test]
fn a_new_session_is_idle() {
    let conn = Connection::open(&config());
    assert_eq!(conn.phase(), Phase::Idle);
    assert_eq!(conn.step(), Step::Idle);
    assert_eq!(conn.garbage(), 0);
    assert!(conn.can_advance());
    assert!(conn.failure().is_none());
    assert_eq!(conn.read_event(0x80), None);
}

#[test]
fn handshake_after_two_bytes_of_garbage() {
    let cfg = config();
    let mut conn = Connection::open(&cfg);

    assert_eq!(done(&mut conn), Action::Write(vec![0xEE, 0x00, 0x00]));
    assert_eq!(conn.phase(), Phase::Handshaking);
    assert_eq!(done(&mut conn), Action::Write(b"SerKey01".to_vec()));
    assert_eq!(done(&mut conn), Action::Read);
    assert_eq!(conn.step(), Step::Resync);

    let mut stream = b"XX".to_vec();
    stream.extend_from_slice(&MAGIC_NUMBER);
    for (at, received) in stream.iter().enumerate() {
        assert_eq!(conn.phase(), Phase::Handshaking);
        let action = byte(&mut conn, *received);
        if at + 1 < stream.len() {
            assert_eq!(action, Action::Read);
        } else {
            assert_eq!(action, Action::Unblock);
        }
    }
    assert_eq!(conn.garbage(), 2);
    assert_eq!(conn.phase(), Phase::ConfiguringDevice);

    assert_eq!(
        done(&mut conn),
        Action::Write(vec![0xDB, 0x00, 0x04, 0x00, 0x00, 0x03, 0xE8])
    );
    assert_eq!(done(&mut conn), Action::Write(vec![0xAE, 0x00, 0x01, 1]));
    assert_eq!(done(&mut conn), Action::Write(vec![0xAD, 0x00, 0x01, 2]));
    assert_eq!(conn.step(), Step::Key(0));
    assert_eq!(done(&mut conn), Action::Write(vec![0xAD, 0x00, 0x01, 7]));
    assert_eq!(conn.step(), Step::Key(1));
    assert_eq!(done(&mut conn), Action::Write(vec![0xEA, 0x00, 0x01, 1]));
    assert_eq!(done(&mut conn), Action::Write(vec![0x0F, 0x00, 0x00]));
    assert_eq!(conn.phase(), Phase::ConfiguringDevice);

    assert_eq!(done(&mut conn), Action::ReadExact);
    assert_eq!(conn.phase(), Phase::AwaitingSetupLog);
    for received in b"ready" {
        assert_eq!(byte(&mut conn, *received), Action::ReadExact);
    }
    assert_eq!(byte(&mut conn, NEWLINE), Action::Echo("ready".to_string()));
    assert_eq!(done(&mut conn), Action::ReadExact);
    assert_eq!(byte(&mut conn, NEWLINE), Action::Unblock);
    assert_eq!(conn.phase(), Phase::AwaitingSetupLog);

    assert_eq!(done(&mut conn), Action::Serve);
    assert_eq!(conn.phase(), Phase::Streaming);
    assert_eq!(conn.garbage(), 2);
    assert!(conn.failure().is_none());

    assert_eq!(conn.read_event(0x81), Some(Event::KeyDown(1)));
    assert_eq!(conn.read_event(0x01), Some(Event::KeyUp(1)));
}

#[test]
fn the_policy_and_the_flag_are_sent_as_configured() {
    let mut cfg = config();
    cfg.debounce_type = DebounceType::FirstChange;
    cfg.enable_interrupts = false;
    cfg.debounce_us = -5;
    cfg.key_maps = vec![KeyMap { pin: 9, keycodes: vec![1] }];
    let mut conn = matched(&cfg);
    assert_eq!(
        done(&mut conn),
        Action::Write(vec![0xDB, 0x00, 0x04, 0, 0, 0, 0])
    );
    assert_eq!(done(&mut conn), Action::Write(vec![0xAE, 0x00, 0x01, 0]));
    assert_eq!(done(&mut conn), Action::Write(vec![0xAD, 0x00, 0x01, 9]));
    assert_eq!(done(&mut conn), Action::Write(vec![0xEA, 0x00, 0x01, 0]));
    assert_eq!(done(&mut conn), Action::Write(vec![0x0F, 0x00, 0x00]));
    assert_eq!(done(&mut conn), Action::ReadExact);
}

#[test]
fn without_keys_no_add_key_frame_is_written() {
    let mut cfg = config();
    cfg.key_maps = vec![];
    let mut conn = matched(&cfg);
    assert_eq!(
        done(&mut conn),
        Action::Write(vec![0xDB, 0x00, 0x04, 0x00, 0x00, 0x03, 0xE8])
    );
    assert_eq!(done(&mut conn), Action::Write(vec![0xAE, 0x00, 0x01, 1]));
    assert_eq!(done(&mut conn), Action::Write(vec![0xEA, 0x00, 0x01, 1]));
    assert_eq!(conn.step(), Step::Interrupts);
    assert_eq!(done(&mut conn), Action::Write(vec![0x0F, 0x00, 0x00]));
    assert_eq!(done(&mut conn), Action::ReadExact);
}

#[test]
fn keys_are_announced_in_the_order_of_the_configuration() {
    let mut cfg = config();
    cfg.key_maps = (0..200u8)
        .map(|pin| KeyMap { pin: 255 - pin, keycodes: vec![pin as u16] })
        .collect();
    let mut conn = matched(&cfg);
    done(&mut conn);
    done(&mut conn);
    for index in 0..200u8 {
        assert_eq!(
            done(&mut conn),
            Action::Write(vec![0xAD, 0x00, 0x01, 255 - index])
        );
        assert_eq!(conn.step(), Step::Key(index as usize));
    }
    assert_eq!(done(&mut conn), Action::Write(vec![0xEA, 0x00, 0x01, 1]));
}

#[test]
fn a_read_that_fills_nothing_counts_as_a_zero_byte() {
    let cfg = config();
    let mut conn = sent(&cfg);
    assert_eq!(done(&mut conn), Action::Read);
    assert_eq!(conn.garbage(), 1);
    assert_eq!(byte(&mut conn, b'S'), Action::Read);
    assert_eq!(done(&mut conn), Action::Read);
    assert_eq!(conn.garbage(), 3);
}

#[test]
fn setup_log_lines_are_trimmed_before_they_are_shown() {
    let cfg = config();
    let mut conn = configured(&cfg);
    for received in b"  key 0 on pin 2 \r" {
        assert_eq!(byte(&mut conn, *received), Action::ReadExact);
    }
    assert_eq!(
        byte(&mut conn, NEWLINE),
        Action::Echo("key 0 on pin 2".to_string())
    );
    assert_eq!(conn.step(), Step::Echo);
    assert_eq!(done(&mut conn), Action::ReadExact);
    assert_eq!(conn.step(), Step::Log);
}

#[test]
fn a_line_of_whitespace_ends_the_setup_log() {
    let cfg = config();
    let mut conn = configured(&cfg);
    for received in b" \t\r" {
        assert_eq!(byte(&mut conn, *received), Action::ReadExact);
    }
    assert_eq!(byte(&mut conn, NEWLINE), Action::Unblock);
    assert_eq!(conn.step(), Step::Settle);
    assert_eq!(done(&mut conn), Action::Serve);
}

#[test]
fn bytes_that_are_not_text_are_shown_as_replacements() {
    let cfg = config();
    let mut conn = configured(&cfg);
    assert_eq!(byte(&mut conn, b'a'), Action::ReadExact);
    assert_eq!(byte(&mut conn, 0xFF), Action::ReadExact);
    assert_eq!(byte(&mut conn, b'b'), Action::ReadExact);
    assert_eq!(
        byte(&mut conn, NEWLINE),
        Action::Echo("a\u{FFFD}b".to_string())
    );
}

#[test]
fn each_line_starts_empty() {
    let cfg = config();
    let mut conn = configured(&cfg);
    assert_eq!(byte(&mut conn, b'a'), Action::ReadExact);
    assert_eq!(byte(&mut conn, NEWLINE), Action::Echo("a".to_string()));
    assert_eq!(done(&mut conn), Action::ReadExact);
    assert_eq!(byte(&mut conn, b'b'), Action::ReadExact);
    assert_eq!(byte(&mut conn, NEWLINE), Action::Echo("b".to_string()));
    assert_eq!(done(&mut conn), Action::ReadExact);
    assert_eq!(byte(&mut conn, NEWLINE), Action::Unblock);
}

#[test]
fn end_line_takes_the_text_as_given() {
    let cfg = config();
    let mut conn = configured(&cfg);
    assert_eq!(byte(&mut conn, b'x'), Action::ReadExact);
    assert_eq!(
        conn.end_line("  not trimmed ".to_string()),
        Action::Echo("  not trimmed ".to_string())
    );
    assert_eq!(conn.step(), Step::Echo);
    assert_eq!(done(&mut conn), Action::ReadExact);
    assert_eq!(conn.end_line(String::new()), Action::Unblock);
    assert_eq!(conn.step(), Step::Settle);
}

#[test]
fn events_are_served_only_while_streaming() {
    let cfg = config();
    let mut conn = configured(&cfg);
    assert_eq!(conn.read_event(0x80), None);
    assert_eq!(byte(&mut conn, NEWLINE), Action::Unblock);
    assert_eq!(conn.read_event(0x80), None);
    assert_eq!(done(&mut conn), Action::Serve);
    assert_eq!(conn.read_event(0x80), Some(Event::KeyDown(0)));
    assert_eq!(conn.read_event(0xFF), Some(Event::KeyDown(127)));
    assert_eq!(conn.read_event(0x00), Some(Event::KeyUp(0)));
    assert_eq!(done(&mut conn), Action::Serve);
    assert_eq!(byte(&mut conn, 0x33), Action::Serve);
    assert_eq!(conn.phase(), Phase::Streaming);
    assert_eq!(fail(&mut conn, "unplugged"), Action::Halt);
    assert_eq!(conn.phase(), Phase::Failed);
    assert_eq!(conn.read_event(0x80), None);
    assert_eq!(messages(&conn), "unplugged");
}

#[test]
fn a_failed_session_stays_failed() {
    let cfg = config();
    let mut conn = sent(&cfg);
    assert_eq!(fail(&mut conn, "timed out"), Action::Halt);
    assert_eq!(conn.phase(), Phase::Failed);
    assert_eq!(conn.step(), Step::Resync);
    assert_eq!(done(&mut conn), Action::Halt);
    assert_eq!(byte(&mut conn, b'S'), Action::Halt);
    assert_eq!(fail(&mut conn, "again"), Action::Halt);
    assert_eq!(conn.phase(), Phase::Failed);
    assert_eq!(conn.step(), Step::Resync);
    assert_eq!(
        messages(&conn),
        "failed to initialize connection\n caused by: reading magic number failed\n caused by: timed out"
    );
}

#[test]
fn failure_to_open_the_port() {
    let mut conn = Connection::open(&config());
    assert_eq!(fail(&mut conn, "no such port"), Action::Halt);
    assert_eq!(
        messages(&conn),
        "failed to open serial port, ensure device is connected and the correct port is being used\n caused by: no such port"
    );
}

#[test]
fn failure_to_write_reset() {
    let mut conn = Connection::open(&config());
    done(&mut conn);
    assert_eq!(conn.step(), Step::Reset);
    assert_eq!(fail(&mut conn, "broken pipe"), Action::Halt);
    assert_eq!(
        messages(&conn),
        "failed to initialize connection\n caused by: failed to write reset command\n caused by: broken pipe"
    );
}

#[test]
fn failure_to_send_the_magic_number() {
    let mut conn = Connection::open(&config());
    done(&mut conn);
    done(&mut conn);
    assert_eq!(conn.step(), Step::Magic);
    assert_eq!(fail(&mut conn, "broken pipe"), Action::Halt);
    assert_eq!(
        messages(&conn),
        "failed to initialize connection\n caused by: failed to send magic number\n caused by: broken pipe"
    );
}

#[test]
fn failure_to_switch_the_channel() {
    let mut conn = matched(&config());
    assert_eq!(conn.step(), Step::Unblock);
    assert_eq!(fail(&mut conn, "denied"), Action::Halt);
    assert_eq!(
        messages(&conn),
        "failed to initialize connection\n caused by: denied"
    );
}

#[test]
fn failure_to_write_the_debounce() {
    let mut conn = matched(&config());
    done(&mut conn);
    assert_eq!(conn.step(), Step::Debounce);
    assert_eq!(fail(&mut conn, "broken pipe"), Action::Halt);
    assert_eq!(
        messages(&conn),
        "failed to initialize connection\n caused by: broken pipe"
    );
}

#[test]
fn failure_to_write_the_policy() {
    let mut conn = matched(&config());
    done(&mut conn);
    done(&mut conn);
    assert_eq!(conn.step(), Step::Smoothness);
    assert_eq!(fail(&mut conn, "broken pipe"), Action::Halt);
    assert_eq!(
        messages(&conn),
        "failed to initialize connection\n caused by: broken pipe"
    );
}

#[test]
fn failure_to_announce_a_key() {
    let mut conn = matched(&config());
    done(&mut conn);
    done(&mut conn);
    done(&mut conn);
    done(&mut conn);
    assert_eq!(conn.step(), Step::Key(1));
    assert_eq!(fail(&mut conn, "broken pipe"), Action::Halt);
    assert_eq!(
        messages(&conn),
        "failed to initialize connection\n caused by: failed to setup key with device\n caused by: broken pipe"
    );
}

#[test]
fn failure_to_write_the_interrupts() {
    let mut conn = matched(&config());
    for _ in 0..5 {
        done(&mut conn);
    }
    assert_eq!(conn.step(), Step::Interrupts);
    assert_eq!(fail(&mut conn, "broken pipe"), Action::Halt);
    assert_eq!(
        messages(&conn),
        "failed to initialize connection\n caused by: broken pipe"
    );
}

#[test]
fn failure_to_finish() {
    let mut conn = matched(&config());
    for _ in 0..6 {
        done(&mut conn);
    }
    assert_eq!(conn.step(), Step::Finish);
    assert_eq!(fail(&mut conn, "broken pipe"), Action::Halt);
    assert_eq!(
        messages(&conn),
        "failed to initialize connection\n caused by: failed to finish setup\n caused by: broken pipe"
    );
}

#[test]
fn failure_to_read_the_setup_log() {
    let mut conn = configured(&config());
    byte(&mut conn, b'o');
    assert_eq!(conn.step(), Step::Log);
    assert_eq!(fail(&mut conn, "closed"), Action::Halt);
    assert_eq!(conn.phase(), Phase::Failed);
    assert_eq!(
        messages(&conn),
        "failed to initialize connection\n caused by: failed to read setup log\n caused by: closed"
    );
}

#[test]
fn failure_to_settle_the_channel() {
    let mut conn = configured(&config());
    byte(&mut conn, NEWLINE);
    assert_eq!(conn.step(), Step::Settle);
    assert_eq!(fail(&mut conn, "denied"), Action::Halt);
    assert_eq!(
        messages(&conn),
        "failed to initialize connection\n caused by: denied"
    );
}

#[test]
fn the_phases_follow_one_another() {
    let cfg = config();
    let mut conn = Connection::open(&cfg);
    let mut seen = vec![conn.phase()];
    let mut outcomes: Vec<Outcome> = vec![Outcome::Done, Outcome::Done, Outcome::Done];
    outcomes.extend(b"noise".iter().map(|b| Outcome::Byte(*b)));
    outcomes.extend(MAGIC_NUMBER.iter().map(|b| Outcome::Byte(*b)));
    outcomes.extend((0..7).map(|_| Outcome::Done));
    outcomes.extend(b"ok\n".iter().map(|b| Outcome::Byte(*b)));
    outcomes.push(Outcome::Done);
    outcomes.push(Outcome::Byte(NEWLINE));
    outcomes.push(Outcome::Done);
    outcomes.push(Outcome::Failed("unplugged".to_string()));
    for outcome in outcomes {
        assert!(conn.can_advance());
        conn.advance(outcome);
        if *seen.last().unwrap() != conn.phase() {
            seen.push(conn.phase());
        }
    }
    assert_eq!(
        seen,
        vec![
            Phase::Idle,
            Phase::Handshaking,
            Phase::ConfiguringDevice,
            Phase::AwaitingSetupLog,
            Phase::Streaming,
            Phase::Failed
        ]
    );
    assert_eq!(conn.garbage(), 5);
}

#[test]
fn streaming_sessions_decode_every_byte() {
    let cfg = config();
    let conn = streaming(&cfg);
    for raw in 0..=255u8 {
        assert_eq!(conn.read_event(raw), Some(Event::from_raw(raw)));
    }
}

#[test]
fn failure_while_a_line_is_shown() {
    let mut conn = configured(&config());
    byte(&mut conn, b'o');
    assert_eq!(byte(&mut conn, NEWLINE), Action::Echo("o".to_string()));
    assert_eq!(conn.step(), Step::Echo);
    assert_eq!(fail(&mut conn, "closed"), Action::Halt);
    assert_eq!(
        messages(&conn),
        "failed to initialize connection\n caused by: closed"
    );
}

#[test]
fn a_session_that_has_not_failed_has_no_error() {
    let cfg = config();
    assert!(sent(&cfg).failure().is_none());
    assert!(matched(&cfg).failure().is_none());
    assert!(configured(&cfg).failure().is_none());
    assert!(streaming(&cfg).failure().is_none());
}
