use icy_term::connection::{can_send, dial_address, Connection, ConnectionState};
use icy_term::crc::crc32;
use icy_term::options::{MainWindowMode, Options, PostProcessing, Scaling};
use icy_term::screen::{default_modes, scroll_position, BufferInputMode, FontKind, ParserKind, ScreenMode};
use icy_term::session::{action_effect, ParserAction, Session, SessionMode, TerminalEffect};
use icy_term::login::login_sequence;
use icy_term::sniffer::Direction;
use icy_term::storage::{download_name, FileStorageHandler, TestStorageHandler};
use icy_term::telnet::{TelnetEngine, DO, IAC, OPT_ECHO, WONT};
use icy_term::transfer::{clock_parts, Retries, TransferError, TransferOutcome, TransferState};
use icy_term::zmodem::{encode_bin_header, encode_hex, encode_subpacket, FrameKind, Header, ZCRCE, ZCRCG, ZCRCQ, ZCRCW};
use icy_term::zsession::{
    answer_crc, next_unit, rinit_header, ZmodemDownload, ZmodemReceiver, ZrxTimeout, ZrxUnit, ZmodemSender, ZrxPhase, ZtxAction, ZtxPhase,
};

#[test]
fn session_zmodem_auto_detect() {
    let mut s = Session::new(None, false);
    let input = b"Welcome\r\n**\x18B00000000000000\r\n";
    let r = s.receive(input);
    assert_eq!(r.start, Some(Direction::Download));
    assert_eq!(r.consumed, 15);
    assert_eq!(r.display, input[..15].to_vec());
    assert_eq!(s.mode_exec(), SessionMode::Transfer(Direction::Download));
    let rx = ZmodemReceiver::new();
    let first = encode_hex(&rx.start());
    assert_eq!(&first[..4], &[0x2a, 0x2a, 0x18, 0x42]);
    assert_eq!(&first[4..6], b"01");
    let more = s.receive(b"after");
    assert_eq!(more.consumed, 0);
    assert!(more.display.is_empty());
    s.back_to_terminal();
    assert_eq!(s.mode_exec(), SessionMode::Terminal);
    assert!(s.enter_settings());
    assert_eq!(s.mode_exec(), SessionMode::Settings);
    assert_eq!(s.receive(b"x").consumed, 0);
}

#[test]
fn session_telnet_filters_display() {
    let mut s = Session::new(Some(TelnetEngine::new(80, 25, b"ANSI")), false);
    let r = s.receive(&[b'h', IAC, IAC, b'i', IAC, DO, OPT_ECHO]);
    assert_eq!(r.display, vec![b'h', 255, b'i']);
    assert_eq!(r.reply, vec![IAC, WONT, OPT_ECHO]);
    assert_eq!(r.start, None);
    assert_eq!(r.consumed, 7);
}

#[test]
fn send_only_when_connected() {
    assert!(!can_send(ConnectionState::Disconnected));
    assert!(!can_send(ConnectionState::Connecting));
    assert!(can_send(ConnectionState::Connected(5)));
    assert!(can_send(ConnectionState::TransferActive(Direction::Upload)));
}

#[test]
fn test_storage_round_trip() {
    let mut s = TestStorageHandler::new();
    assert_eq!(s.current_file_name(), None);
    s.open_file("a.txt", 3);
    s.append(b"ab");
    s.append(b"c");
    assert_eq!(s.current_file_name(), Some("a.txt".to_string()));
    assert_eq!(s.current_file_length(), 3);
    assert_eq!(s.get_current_file_total_size(), 3);
    s.close();
    assert_eq!(s.current_file_name(), None);
    assert_eq!(s.get_current_file_total_size(), 0);
    assert_eq!(s.get_file("a.txt"), Some(b"abc".to_vec()));
    assert_eq!(s.get_file("b.bin"), None);
}

#[test]
fn test_storage_resize() {
    let mut s = TestStorageHandler::new();
    s.open_file("x", 10);
    s.append(b"hello");
    s.set_current_size_to(2);
    assert_eq!(s.get_file("x"), Some(b"he".to_vec()));
    s.set_current_size_to(4);
    assert_eq!(s.get_file("x"), Some(vec![b'h', b'e', 0, 0]));
}

#[test]
fn test_storage_reopen_replaces() {
    let mut s = TestStorageHandler::new();
    s.open_file("x", 1);
    s.append(b"old");
    s.open_file("y", 1);
    s.append(b"other");
    s.open_file("x", 1);
    s.append(b"new");
    assert_eq!(s.get_file("x"), Some(b"new".to_vec()));
    assert_eq!(s.get_file("y"), Some(b"other".to_vec()));
}

#[test]
fn zmodem_resume_scenario() {
    let src: Vec<u8> = (0..8192u32).map(|i| (i * 7 % 251) as u8).collect();
    let mut store = TestStorageHandler::new();
    let mut rx = ZmodemReceiver::new();
    let mut tx = ZmodemSender::new(8192, 8192);

    assert_eq!(rx.on_header(&Header { kind: FrameKind::RqInit, z0: 0, z1: 0, z2: 0, z3: 0 }), Some(rinit_header()));
    assert_eq!(tx.on_header(&rinit_header()), ZtxAction::SendFile);
    assert_eq!(rx.on_header(&Header { kind: FrameKind::File, z0: 0, z1: 0, z2: 0, z3: 0 }), None);
    let rpos = rx.on_file(&mut store, "f.bin", Some(8192), &src[..4096]);
    assert_eq!(rpos.kind, FrameKind::RPos);
    assert_eq!(rpos.offset(), 4096);

    assert_eq!(tx.on_header(&rpos), ZtxAction::SendData(4096));
    assert_eq!(rx.on_header(&Header::with_offset(FrameKind::Data, tx.offset)), None);
    assert_eq!(rx.phase, ZrxPhase::ReceivingData);
    while let Some((start, len)) = tx.next_chunk(1024) {
        let chunk = &src[start as usize..(start + len) as usize];
        let end = if start + len == 8192 { ZCRCW } else { ZCRCG };
        let reply = rx.on_data(&mut store, chunk, end, true);
        if end == ZCRCW {
            assert_eq!(reply, Some(Header::with_offset(FrameKind::Ack, 8192)));
        } else {
            assert_eq!(reply, None);
        }
    }
    assert_eq!(tx.phase, ZtxPhase::AwaitEofAck);
    assert_eq!(rx.on_header(&Header::with_offset(FrameKind::Eof, tx.offset)), Some(rinit_header()));
    assert_eq!(tx.on_header(&rinit_header()), ZtxAction::SendFin);
    let fin = rx.on_header(&Header::with_offset(FrameKind::Fin, 0)).unwrap();
    assert_eq!(tx.on_header(&fin), ZtxAction::Finish);
    assert_eq!(rx.phase, ZrxPhase::Done);
    store.close();
    let got = store.get_file("f.bin").unwrap();
    assert_eq!(got.len(), 8192);
    assert_eq!(crc32(&got), crc32(&src));
    assert_eq!(got, src);
}

#[test]
fn zmodem_bad_crc_asks_for_position() {
    let mut store = TestStorageHandler::new();
    let mut rx = ZmodemReceiver::new();
    rx.on_file(&mut store, "f", Some(10), b"");
    rx.on_header(&Header::with_offset(FrameKind::Data, 0));
    assert_eq!(rx.on_data(&mut store, b"abcde", ZCRCG, true), None);
    let r = rx.on_data(&mut store, b"XXXXX", ZCRCG, false).unwrap();
    assert_eq!(r, Header::with_offset(FrameKind::RPos, 5));
    assert_eq!(store.current_file_length(), 5);
}

#[test]
fn zmodem_sender_honors_rpos() {
    let mut tx = ZmodemSender::new(10000, 2048);
    tx.on_header(&rinit_header());
    assert_eq!(tx.on_header(&Header::with_offset(FrameKind::RPos, 0)), ZtxAction::SendData(0));
    assert_eq!(tx.next_chunk(1024), Some((0, 1024)));
    assert_eq!(tx.next_chunk(1024), Some((1024, 1024)));
    assert_eq!(tx.next_chunk(1024), None);
    assert_eq!(tx.on_header(&Header::with_offset(FrameKind::RPos, 1500)), ZtxAction::SendData(1500));
    assert_eq!(tx.next_chunk(1024), Some((1500, 1024)));
}

#[test]
fn zmodem_sender_rpos_beyond_end_aborts() {
    let mut tx = ZmodemSender::new(100, 2048);
    tx.on_header(&rinit_header());
    assert_eq!(tx.on_header(&Header::with_offset(FrameKind::RPos, 101)), ZtxAction::Abort);
    assert_eq!(tx.phase, ZtxPhase::Aborted);
}

#[test]
fn cancel_keeps_progress() {
    let mut t = TransferState::new(Direction::Upload, "ZModem".to_string(), 0);
    t.start_file("a.txt".to_string(), 100);
    t.add_bytes(40);
    let seq = t.cancel();
    assert_eq!(seq, vec![0x18, 0x18, 0x18, 0x18, 0x18, 8, 8, 8, 8, 8, 8, 8, 8]);
    assert_eq!(t.outcome(), TransferOutcome::Failed(TransferError::UserCancel));
    assert_eq!(t.bytes_transferred(), 40);
    assert!(t.is_finished());
}

#[test]
fn bytes_transferred_never_decreases() {
    let mut t = TransferState::new(Direction::Download, "XModem".to_string(), 0);
    t.start_file("f".to_string(), 10);
    let mut last = 0;
    for n in [3u64, 0, 5, u64::MAX] {
        t.add_bytes(n);
        assert!(t.bytes_transferred() >= last);
        last = t.bytes_transferred();
    }
    assert_eq!(t.bytes_transferred(), u64::MAX);
}

#[test]
fn size_mismatch_fails_transfer() {
    let mut t = TransferState::new(Direction::Download, "ZModem".to_string(), 0);
    t.start_file("f".to_string(), 10);
    t.complete_file(9);
    assert_eq!(t.outcome(), TransferOutcome::Failed(TransferError::SizeMismatch));
    let mut u = TransferState::new(Direction::Download, "ZModem".to_string(), 0);
    u.start_file("f".to_string(), 10);
    u.complete_file(10);
    u.finish();
    assert_eq!(u.outcome(), TransferOutcome::Finished);
}

#[test]
fn screen_mode_input_modes() {
    assert_eq!(ScreenMode::DOS(80, 25).get_input_mode(), BufferInputMode::CP437);
    assert_eq!(ScreenMode::C64.get_input_mode(), BufferInputMode::PETSCII);
    assert_eq!(ScreenMode::C128(80).get_input_mode(), BufferInputMode::PETSCII);
    assert_eq!(ScreenMode::AtariXep80.get_input_mode(), BufferInputMode::ATASCII);
    assert_eq!(ScreenMode::VT500.get_input_mode(), BufferInputMode::VT500);
    assert_eq!(ScreenMode::Viewdata.get_input_mode(), BufferInputMode::VIEWDATA);
}

#[test]
fn screen_mode_layout() {
    assert_eq!(ScreenMode::DOS(132, 50).buffer_size(), (132, 50));
    assert_eq!(ScreenMode::C128(40).buffer_size(), (40, 25));
    assert_eq!(ScreenMode::Atari.buffer_size(), (40, 24));
    assert_eq!(ScreenMode::DOS(80, 50).fonts(), vec![FontKind::IbmVga50]);
    assert_eq!(ScreenMode::DOS(80, 25).fonts()[0].name(), "IBM VGA");
    assert_eq!(ScreenMode::C64.fonts(), vec![FontKind::C64Unshifted, FontKind::C64Shifted]);
    assert_eq!(ScreenMode::VT500.parser(), ParserKind::Ansi);
    let modes = default_modes();
    assert_eq!(modes.len(), 22);
    assert_eq!(modes[0], ScreenMode::DOS(80, 25));
    assert_eq!(modes[21], ScreenMode::Viewdata);
}

#[test]
fn options_defaults() {
    let o = Options::new();
    assert_eq!(o.scaling, Scaling::Linear);
    assert_eq!(o.post_processing, PostProcessing::CRT1);
    assert_eq!(o.connect_timeout, 10);
    assert!(o.capture_filename.is_empty());
    assert_ne!(MainWindowMode::ShowSettings(true), MainWindowMode::ShowSettings(false));
}

#[test]
fn scroll_is_clamped() {
    assert_eq!(scroll_position(0, 5, 100, 25), 5);
    assert_eq!(scroll_position(70, 10, 100, 25), 75);
    assert_eq!(scroll_position(3, -10, 100, 25), 0);
    assert_eq!(scroll_position(0, 5, 10, 25), 0);
}

#[test]
fn transfer_time_left_and_clock() {
    let mut t = TransferState::new(Direction::Download, "ZModem".to_string(), 0);
    t.start_file("f".to_string(), 1000);
    t.add_bytes(400);
    assert_eq!(t.seconds_left(100), 6);
    assert_eq!(t.seconds_left(0), 600);
    assert_eq!(clock_parts(3725), (1, 2, 5));
    assert_eq!(clock_parts(59), (0, 0, 59));
}

#[test]
fn retries_give_up_at_limit() {
    let mut r = Retries::new(2);
    assert!(r.try_again());
    assert!(r.try_again());
    assert!(!r.try_again());
    r.reset();
    assert!(r.try_again());
}

#[test]
fn zmodem_sender_timeout_goes_back_to_ack() {
    let mut tx = ZmodemSender::new(10000, 4096);
    tx.on_header(&rinit_header());
    tx.on_header(&Header::with_offset(FrameKind::RPos, 0));
    assert_eq!(tx.next_chunk(1024), Some((0, 1024)));
    assert_eq!(tx.next_chunk(1024), Some((1024, 1024)));
    tx.on_header(&Header::with_offset(FrameKind::Ack, 1024));
    assert_eq!(tx.on_timeout(), ZtxAction::SendData(1024));
    assert_eq!(tx.next_chunk(1024), Some((1024, 1024)));
}

#[test]
fn zmodem_cancel_stops_both_sides() {
    let mut store = TestStorageHandler::new();
    let mut rx = ZmodemReceiver::new();
    rx.on_file(&mut store, "f", Some(10), b"");
    rx.on_header(&Header::with_offset(FrameKind::Data, 0));
    rx.on_cancel();
    assert_eq!(rx.on_data(&mut store, b"abc", ZCRCG, true), None);
    assert_eq!(store.current_file_length(), 0);
    let mut tx = ZmodemSender::new(100, 1024);
    tx.on_header(&rinit_header());
    tx.on_header(&Header::with_offset(FrameKind::RPos, 0));
    tx.on_cancel();
    assert_eq!(tx.next_chunk(10), None);
    assert_eq!(tx.on_header(&Header::with_offset(FrameKind::RPos, 0)), ZtxAction::Wait);
}

#[test]
fn connection_lifecycle() {
    let mut c = Connection::new(4);
    assert!(!c.send(b"x"));
    assert!(c.start_connect());
    assert!(!c.start_connect());
    assert_eq!(c.state_exec(), ConnectionState::Connecting);
    c.on_connected(42);
    assert_eq!(c.state_exec(), ConnectionState::Connected(42));
    assert_eq!(c.push_inbound(b"abcdef"), 4);
    assert!(c.is_data_available());
    assert_eq!(c.read_buffer(), b"abcd".to_vec());
    assert!(!c.is_data_available());
    assert!(c.send(b"hi"));
    assert!(c.start_transfer(Direction::Download));
    assert_eq!(c.push_inbound(b"zz"), 0);
    assert!(c.send(b"!"));
    assert_eq!(c.take_outbound(), b"hi!".to_vec());
    c.end_transfer();
    assert_eq!(c.state_exec(), ConnectionState::Connected(42));
    c.push_inbound(b"q");
    c.on_failure();
    assert!(c.is_disconnected());
    assert!(!c.is_data_available());
}

#[test]
fn screen_mode_names() {
    assert_eq!(ScreenMode::DOS(80, 25).name(), "80x25");
    assert_eq!(ScreenMode::DOS(132, 60).name(), "132x60");
    assert_eq!(ScreenMode::DOS(-1, 0).name(), "-1x0");
    assert_eq!(ScreenMode::C128(40).name(), "C128 (40 col)");
    assert_eq!(ScreenMode::AtariXep80.name(), "Atari XEP80");
    assert_eq!(ScreenMode::C64.name(), "C64");
}

#[test]
fn zmodem_crc_request_answered() {
    let file = b"123456789abc";
    let h = answer_crc(file, &Header::with_offset(FrameKind::Crc, 9));
    assert_eq!(h.kind, FrameKind::Crc);
    assert_eq!(h.offset(), 0xCBF4_3926);
    let all = answer_crc(file, &Header::with_offset(FrameKind::Crc, 0));
    assert_eq!(all.offset(), crc32(file));
}

#[test]
fn dial_address_adds_telnet_port() {
    assert_eq!(dial_address("bbs.example.org"), "bbs.example.org:23");
    assert_eq!(dial_address("bbs.example.org:2323"), "bbs.example.org:2323");
    assert_eq!(dial_address(""), ":23");
}

#[test]
fn first_failure_is_kept() {
    let mut t = TransferState::new(Direction::Download, "XModem".to_string(), 0);
    t.fail(TransferError::RetriesExhausted);
    t.fail(TransferError::PeerCancel);
    t.finish();
    assert_eq!(t.outcome(), TransferOutcome::Failed(TransferError::RetriesExhausted));
    let mut u = TransferState::new(Direction::Upload, "XModem".to_string(), 0);
    u.fail(TransferError::FileIo);
    assert_eq!(u.outcome(), TransferOutcome::Failed(TransferError::FileIo));
    let mut v = TransferState::new(Direction::Upload, "XModem".to_string(), 0);
    v.fail(TransferError::PeerCancel);
    assert_eq!(v.outcome(), TransferOutcome::Failed(TransferError::PeerCancel));
}

#[test]
fn session_reports_iemsi_once() {
    let mut s = Session::new(None, true);
    let r = s.receive(b"hello **EMSI_IRQ8E08");
    assert!(r.iemsi_request);
    assert_eq!(r.display, b"hello **EMSI_IRQ8E08".to_vec());
    let again = s.receive(b"**EMSI_IRQ8E08");
    assert!(!again.iemsi_request);
    let mut off = Session::new(None, false);
    assert!(!off.receive(b"**EMSI_IRQ").iemsi_request);
}

#[test]
fn session_raw_filter_and_outbound() {
    let mut s = Session::new(Some(TelnetEngine::new(80, 25, b"ANSI")), false);
    let (data, reply) = s.filter_raw(&[1, IAC, IAC, 2, IAC, DO, OPT_ECHO]);
    assert_eq!(data, vec![1, 255, 2]);
    assert_eq!(reply, vec![IAC, WONT, OPT_ECHO]);
    assert_eq!(s.encode_outbound(&[0x18, 0xff]), vec![0x18, 0xff, 0xff]);
    let raw = Session::new(None, false);
    assert_eq!(raw.encode_outbound(&[0xff]), vec![0xff]);
}

#[test]
fn zmodem_eof_size_mismatch_aborts() {
    let mut store = TestStorageHandler::new();
    let mut rx = ZmodemReceiver::new();
    rx.on_file(&mut store, "f", Some(10), b"");
    rx.on_header(&Header::with_offset(FrameKind::Data, 0));
    rx.on_data(&mut store, b"abc", ZCRCE, true);
    let r = rx.on_header(&Header::with_offset(FrameKind::Eof, 3));
    assert_eq!(r, Some(Header::with_offset(FrameKind::Abort, 0)));
    assert_eq!(rx.phase, ZrxPhase::Aborted);
}

#[test]
fn zmodem_receiver_timeouts() {
    let mut rx = ZmodemReceiver::new();
    assert_eq!(rx.timeout_ms(), 10_000);
    assert_eq!(rx.on_bad_header(), Header::with_offset(FrameKind::Nak, 0));
    let mut retries = Retries::new(1);
    assert_eq!(rx.on_timeout(&mut retries), ZrxTimeout::Resend);
    assert_eq!(
        rx.on_timeout(&mut retries),
        ZrxTimeout::Abort(Header::with_offset(FrameKind::Abort, 0))
    );
    assert_eq!(rx.phase, ZrxPhase::Aborted);
    let mut store = TestStorageHandler::new();
    let mut rx2 = ZmodemReceiver::new();
    rx2.on_file(&mut store, "f", None, b"");
    rx2.on_header(&Header::with_offset(FrameKind::Data, 0));
    assert_eq!(rx2.timeout_ms(), 5_000);
}

#[test]
fn zmodem_download_driver_end_to_end() {
    let content: Vec<u8> = (0..3000u32).map(|i| (i % 253) as u8).collect();
    let mut wire = b"garbage".to_vec();
    wire.extend(encode_hex(&Header { kind: FrameKind::RqInit, z0: 0, z1: 0, z2: 0, z3: 0 }));
    wire.extend(encode_bin_header(&Header { kind: FrameKind::File, z0: 0, z1: 0, z2: 0, z3: 0 }, true));
    wire.extend(encode_subpacket(b"a.bin\x003000 0 0 0\x00", ZCRCW, true));
    wire.extend(encode_bin_header(&Header::with_offset(FrameKind::Data, 0), true));
    wire.extend(encode_subpacket(&content[..2000], ZCRCG, true));
    wire.extend(encode_subpacket(&content[2000..], ZCRCE, true));
    wire.extend(encode_hex(&Header::with_offset(FrameKind::Eof, 3000)));
    wire.extend(encode_hex(&Header::with_offset(FrameKind::Fin, 0)));

    let mut dl = ZmodemDownload::new(3);
    let mut store = TestStorageHandler::new();
    let mut buf = wire;
    let mut replies = Vec::new();
    let mut completed = 0;
    let mut guard = 0;
    while dl.rx.phase != ZrxPhase::Done && guard < 100 {
        guard += 1;
        let (taken, unit) = dl.next(&buf);
        buf.drain(..taken);
        if let Some(unit) = unit {
            let step = dl.take(&mut store, unit);
            if let Some(info) = step.offered {
                let name = String::from_utf8(info.name).unwrap();
                assert_eq!(info.size, Some(3000));
                replies.push(dl.accept_file(&mut store, &name, info.size, &[]));
            }
            if step.completed {
                completed += 1;
            }
            if let Some(h) = step.reply {
                replies.push(h);
            }
        }
    }
    assert_eq!(dl.rx.phase, ZrxPhase::Done);
    assert_eq!(completed, 1);
    assert_eq!(store.get_file("a.bin"), Some(content));
    assert_eq!(replies[0], rinit_header());
    assert_eq!(replies[1], Header::with_offset(FrameKind::RPos, 0));
    assert_eq!(replies[2], rinit_header());
    assert_eq!(replies[3].kind, FrameKind::Fin);
}

#[test]
fn zmodem_next_unit_cases() {
    let h = Header::with_offset(FrameKind::RPos, 5);
    let hex = encode_hex(&h);
    assert!(matches!(next_unit(&hex[..10], ZrxPhase::AwaitInit, false), (0, None)));
    let (n, u) = next_unit(&hex, ZrxPhase::AwaitInit, false);
    assert_eq!(n, 18);
    assert!(matches!(u, Some(ZrxUnit::Header(x, false)) if x == h));
    let mut bad = hex.clone();
    bad[10] = if bad[10] == b'0' { b'1' } else { b'0' };
    assert!(matches!(next_unit(&bad, ZrxPhase::AwaitInit, false).1, Some(ZrxUnit::BadHeader)));
    assert!(matches!(next_unit(b"xyz*\x18", ZrxPhase::AwaitInit, false), (3, None)));
    assert!(matches!(next_unit(b"abcdef", ZrxPhase::AwaitInit, false), (4, None)));
    let sp = encode_subpacket(b"hi", ZCRCE, false);
    let (n, u) = next_unit(&sp, ZrxPhase::ReceivingData, false);
    assert_eq!(n, sp.len());
    assert!(matches!(u, Some(ZrxUnit::Data(d)) if d.data == b"hi".to_vec() && d.crc_ok));
}

#[test]
fn fresh_store_is_empty() {
    let s = TestStorageHandler::new();
    assert_eq!(s.current_file_length(), 0);
    assert_eq!(s.get_file(""), None);
}

#[test]
fn download_names() {
    assert_eq!(download_name("", 0), "new_file");
    assert_eq!(download_name("a.txt", 0), "a.txt");
    assert_eq!(download_name("a.txt", 12), "a.txt.12");
    assert_eq!(download_name("", 1), "new_file.1");
}

#[test]
fn enter_and_login_bytes() {
    assert_eq!(BufferInputMode::ATASCII.enter_bytes(), vec![155]);
    assert_eq!(BufferInputMode::VT500.enter_bytes(), vec![13, 10]);
    assert_eq!(login_sequence(b"sysop", b"pw", b"\r"), b"sysop\rpw\r".to_vec());
}

#[test]
fn parser_actions() {
    assert!(matches!(action_effect(ParserAction::Beep, false), TerminalEffect::Nothing));
    assert!(matches!(action_effect(ParserAction::Beep, true), TerminalEffect::Beep));
    assert!(matches!(action_effect(ParserAction::SetBaudRate(2400), true), TerminalEffect::SetBaudRate(2400)));
    assert!(matches!(action_effect(ParserAction::SendBytes(b"x".to_vec()), false), TerminalEffect::Send(b) if b == b"x".to_vec()));
    assert!(matches!(action_effect(ParserAction::Idle, true), TerminalEffect::Nothing));
}

#[test]
fn zmodem_sender_chunk_sizes_and_crc_request() {
    let mut tx = ZmodemSender::new(2500, 1500);
    tx.on_header(&rinit_header());
    assert_eq!(tx.on_header(&Header::with_offset(FrameKind::Crc, 100)), ZtxAction::AnswerCrc(Header::with_offset(FrameKind::Crc, 100)));
    tx.on_header(&Header::with_offset(FrameKind::RPos, 0));
    assert_eq!(tx.next_chunk(0), None);
    assert_eq!(tx.next_chunk(1000), Some((0, 1000)));
    assert_eq!(tx.chunk_end(), ZCRCQ);
    assert_eq!(tx.next_chunk(1000), Some((1000, 500)));
    assert_eq!(tx.next_chunk(1000), None);
    tx.on_header(&Header::with_offset(FrameKind::Ack, 1500));
    assert_eq!(tx.next_chunk(2000), Some((1500, 1000)));
    assert_eq!(tx.chunk_end(), ZCRCE);
    assert_eq!(tx.next_chunk(2000), None);
    assert_eq!(tx.phase, ZtxPhase::AwaitEofAck);
}
