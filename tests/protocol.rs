use icy_term::crc::{checksum, crc16, crc32};
use icy_term::sniffer::{AutoTransferDetector, Direction, IemsiWatch, PatternWatch};
use icy_term::telnet::{encode, naws, TelnetEngine, DO, DONT, IAC, OPT_ECHO, OPT_NAWS, OPT_TTYPE, SB, SE, WILL, WONT};
use icy_term::xmodem::{
    encode_block, is_valid_block, pad_block, CheckKind, RxPhase, XmodemReceiver, ACK, CAN,
    trim_padding, CRC_REQUEST, EOT, NAK, STREAM_REQUEST, TxAction, TxPhase, XmodemSender,
};
use icy_term::pacer::BaudPacer;
use icy_term::ymodem::{encode_block0, end_of_batch_block0, parse_block0, BatchEvent, YmodemReceiver};
use icy_term::zmodem::{
    bin_header_len, cancel_sequence, decode_bin_header, find_frame, hex_header_len, decode_hex, decode_subpacket, encode_bin_header, encode_hex, encode_subpacket, escape,
    unescape, FrameKind, Header, ZCRCE, ZCRCG, ZCRCW, ZDLE,
};
use icy_term::iemsi::emsi_ici;
use icy_term::login::{echo_text, LoginScript, LoginStep};

#[test]
fn crc16_of_check_string() {
    assert_eq!(crc16(b"123456789"), 0x31C3);
}

#[test]
fn crc16_of_empty() {
    assert_eq!(crc16(b""), 0);
}

#[test]
fn crc32_of_empty_is_zero() {
    assert_eq!(crc32(b""), 0);
}

#[test]
fn crc32_of_check_string() {
    assert_eq!(crc32(b"123456789"), 0xCBF4_3926);
}

#[test]
fn checksum_wraps() {
    assert_eq!(checksum(&[0xff, 0x02]), 0x01);
    assert_eq!(checksum(&[0x41; 128]), 0x80);
}

#[test]
fn telnet_naws_reply() {
    let mut t = TelnetEngine::new(80, 25, b"ANSI");
    let (data, reply) = t.filter(&[IAC, DO, OPT_NAWS]);
    assert!(data.is_empty());
    assert_eq!(reply, vec![255, 251, 31, 255, 250, 31, 0x00, 0x50, 0x00, 0x19, 255, 240]);
}

#[test]
fn telnet_naws_doubles_iac_in_size() {
    assert_eq!(naws(255, 1), vec![IAC, SB, OPT_NAWS, 0, 255, 255, 0, 1, IAC, SE]);
}

#[test]
fn telnet_window_change_announces_size() {
    let mut t = TelnetEngine::new(80, 25, b"ANSI");
    assert_eq!(t.set_window_size(132, 50), vec![IAC, SB, OPT_NAWS, 0, 132, 0, 50, IAC, SE]);
}

#[test]
fn telnet_iac_free_passes_unchanged() {
    let mut t = TelnetEngine::new(80, 25, b"ANSI");
    let input = b"Hello, BBS!\r\n".to_vec();
    let (data, reply) = t.filter(&input);
    assert_eq!(data, input);
    assert!(reply.is_empty());
}

#[test]
fn telnet_filter_of_encode_round_trip() {
    let s: Vec<u8> = vec![1, 255, 2, 255, 255, 0, 250];
    let e = encode(&s);
    assert_eq!(e, vec![1, 255, 255, 2, 255, 255, 255, 255, 0, 250]);
    let mut t = TelnetEngine::new(80, 25, b"ANSI");
    let (data, reply) = t.filter(&e);
    assert_eq!(data, s);
    assert!(reply.is_empty());
}

#[test]
fn telnet_echo_policy() {
    let mut t = TelnetEngine::new(80, 25, b"ANSI");
    let (_, reply) = t.filter(&[IAC, WILL, OPT_ECHO, IAC, DO, OPT_ECHO]);
    assert_eq!(reply, vec![IAC, DO, OPT_ECHO, IAC, WONT, OPT_ECHO]);
}

#[test]
fn telnet_refuses_unknown_options() {
    let mut t = TelnetEngine::new(80, 25, b"ANSI");
    let (_, reply) = t.filter(&[IAC, WILL, 99, IAC, DO, 99]);
    assert_eq!(reply, vec![IAC, DONT, 99, IAC, WONT, 99]);
}

#[test]
fn telnet_ttype_send_answers_name() {
    let mut t = TelnetEngine::new(80, 25, b"ANSI");
    let (data, reply) = t.filter(&[b'a', IAC, SB, OPT_TTYPE, 1, IAC, SE, b'b']);
    assert_eq!(data, b"ab".to_vec());
    assert_eq!(reply, vec![IAC, SB, OPT_TTYPE, 0, b'A', b'N', b'S', b'I', IAC, SE]);
}

#[test]
fn telnet_split_across_chunks() {
    let mut t = TelnetEngine::new(80, 25, b"ANSI");
    let (d1, r1) = t.filter(&[b'x', IAC]);
    let (d2, r2) = t.filter(&[DO, OPT_ECHO, b'y']);
    assert_eq!(d1, vec![b'x']);
    assert!(r1.is_empty());
    assert_eq!(d2, vec![b'y']);
    assert_eq!(r2, vec![IAC, WONT, OPT_ECHO]);
}

#[test]
fn zmodem_hex_header_bytes() {
    let h = Header { kind: FrameKind::RqInit, z0: 0, z1: 0, z2: 0, z3: 0 };
    let mut expected = vec![0x2a, 0x2a, 0x18, 0x42];
    expected.extend_from_slice(b"00000000000000");
    expected.extend_from_slice(&[0x0d, 0x0a, 0x11]);
    assert_eq!(encode_hex(&h), expected);
}

#[test]
fn zmodem_hex_round_trip() {
    for kind in [FrameKind::RInit, FrameKind::RPos, FrameKind::Data, FrameKind::StdErr] {
        let h = Header { kind, z0: 0x12, z1: 0xab, z2: 0xff, z3: 0x00 };
        let e = encode_hex(&h);
        assert_eq!(decode_hex(&e), Some(h));
    }
}

#[test]
fn zmodem_hex_single_pad_accepted() {
    let h = Header::with_offset(FrameKind::RPos, 4096);
    let e = encode_hex(&h);
    assert_eq!(decode_hex(&e[1..]), Some(h));
}

#[test]
fn zmodem_hex_bad_crc_rejected() {
    let h = Header::with_offset(FrameKind::RPos, 4096);
    let mut e = encode_hex(&h);
    e[17] = if e[17] == b'0' { b'1' } else { b'0' };
    assert_eq!(decode_hex(&e), None);
}

#[test]
fn zmodem_header_offset() {
    let h = Header::with_offset(FrameKind::RPos, 4096);
    assert_eq!((h.z0, h.z1, h.z2, h.z3), (0x00, 0x10, 0x00, 0x00));
    assert_eq!(h.offset(), 4096);
}

#[test]
fn zmodem_escape_round_trip() {
    let s: Vec<u8> = (0u16..256).map(|b| b as u8).collect();
    let e = escape(&s);
    assert!(e.len() > s.len());
    assert_eq!(unescape(&e), Some(s));
}

#[test]
fn zmodem_escape_values() {
    assert_eq!(escape(&[0x18, 0x11, 0x41, 0x8d]), vec![ZDLE, 0x58, ZDLE, 0x51, 0x41, ZDLE, 0xcd]);
}

#[test]
fn zmodem_unescape_lone_zdle() {
    assert_eq!(unescape(&[0x41, ZDLE]), None);
}

#[test]
fn zmodem_subpacket_layout() {
    let p = encode_subpacket(b"abc", ZCRCE, false);
    assert_eq!(&p[..5], &[b'a', b'b', b'c', ZDLE, ZCRCE]);
    let c = crc16(&[b'a', b'b', b'c', ZCRCE]);
    assert_eq!(unescape(&p[5..]), Some(vec![(c >> 8) as u8, (c & 0xff) as u8]));
}

#[test]
fn zmodem_bin32_header_layout() {
    let h = Header { kind: FrameKind::Data, z0: 0, z1: 0, z2: 0, z3: 0 };
    let b = encode_bin_header(&h, true);
    assert_eq!(&b[..3], &[0x2a, ZDLE, 0x43]);
    let c = crc32(&[10, 0, 0, 0, 0]);
    let mut body = vec![10, 0, 0, 0, 0];
    body.extend_from_slice(&c.to_le_bytes());
    assert_eq!(unescape(&b[3..]), Some(body));
}

#[test]
fn cancel_sequence_bytes() {
    let c = cancel_sequence();
    assert_eq!(c, vec![0x18, 0x18, 0x18, 0x18, 0x18, 8, 8, 8, 8, 8, 8, 8, 8]);
}

fn crc_block(number: u8, payload: &[u8]) -> Vec<u8> {
    let mut b = vec![0x01, number, 255 - number];
    b.extend_from_slice(payload);
    let c = crc16(payload);
    b.push((c >> 8) as u8);
    b.push((c & 0xff) as u8);
    b
}

#[test]
fn xmodem_crc_receive_scenario() {
    let mut rx = XmodemReceiver::new(false);
    assert_eq!(rx.request(), CRC_REQUEST);
    let block = crc_block(1, &[0x41; 128]);
    assert_eq!(block[..3], [0x01, 0x01, 0xFE]);
    let (reply, payload) = rx.on_block(&block);
    assert_eq!(reply, vec![ACK]);
    let file = payload.unwrap();
    assert_eq!(file, vec![0x41; 128]);
    assert_eq!(rx.on_eot(), vec![NAK]);
    assert_eq!(rx.on_eot(), vec![ACK]);
    assert_eq!(rx.phase, RxPhase::Done);
}

#[test]
fn xmodem_duplicate_block_reacked_not_written() {
    let mut rx = XmodemReceiver::new(false);
    let block = crc_block(1, &[7; 128]);
    let (r1, z1) = rx.on_block(&block);
    assert_eq!(r1, vec![ACK]);
    assert!(z1.is_some());
    let (r2, z2) = rx.on_block(&block);
    assert_eq!(r2, vec![ACK]);
    assert!(z2.is_none());
    assert_eq!(rx.expected, 2);
}

#[test]
fn xmodem_bad_crc_naks() {
    let mut rx = XmodemReceiver::new(false);
    let mut block = crc_block(1, &[7; 128]);
    block[130] ^= 1;
    let (r, p) = rx.on_block(&block);
    assert_eq!(r, vec![NAK]);
    assert!(p.is_none());
    assert_eq!(rx.errors, 1);
}

#[test]
fn xmodem_bad_header_naks() {
    let mut rx = XmodemReceiver::new(false);
    let mut block = crc_block(1, &[7; 128]);
    block[2] = 0;
    assert_eq!(rx.on_block(&block).0, vec![NAK]);
}

#[test]
fn xmodem_out_of_order_aborts() {
    let mut rx = XmodemReceiver::new(false);
    let block = crc_block(3, &[7; 128]);
    let (r, p) = rx.on_block(&block);
    assert_eq!(r, vec![CAN, CAN]);
    assert!(p.is_none());
    assert_eq!(rx.phase, RxPhase::Aborted);
}

#[test]
fn xmodem_streaming_error_aborts() {
    let mut rx = XmodemReceiver::new(true);
    assert_eq!(rx.request(), STREAM_REQUEST);
    let good = crc_block(1, &[1; 128]);
    let (r, p) = rx.on_block(&good);
    assert!(r.is_empty());
    assert!(p.is_some());
    let mut bad = crc_block(2, &[1; 128]);
    bad[5] ^= 0xff;
    assert_eq!(rx.on_block(&bad).0, vec![CAN, CAN]);
}

#[test]
fn xmodem_retries_exhausted_abort() {
    let mut rx = XmodemReceiver::new(false);
    let mut bad = crc_block(1, &[1; 128]);
    bad[4] ^= 0xff;
    for _ in 0..9 {
        assert_eq!(rx.on_block(&bad).0, vec![NAK]);
    }
    assert_eq!(rx.on_block(&bad).0, vec![CAN, CAN]);
}

#[test]
fn xmodem_falls_back_to_checksum() {
    let mut rx = XmodemReceiver::new(false);
    assert_eq!(rx.request(), CRC_REQUEST);
    assert_eq!(rx.request(), CRC_REQUEST);
    assert_eq!(rx.request(), CRC_REQUEST);
    assert_eq!(rx.request(), NAK);
    assert_eq!(rx.check, CheckKind::Checksum);
    let b = encode_block(1, &[2; 128], CheckKind::Checksum);
    assert_eq!(b.len(), 132);
    assert_eq!(b[131], 0);
    assert_eq!(rx.on_block(&b).0, vec![ACK]);
}

#[test]
fn xmodem_1k_block_accepted() {
    let b = encode_block(1, &[9; 1024], CheckKind::Crc16);
    assert_eq!(b[0], 0x02);
    assert_eq!(b.len(), 1029);
    assert!(is_valid_block(&b, CheckKind::Crc16));
    let mut rx = XmodemReceiver::new(false);
    let (r, p) = rx.on_block(&b);
    assert_eq!(r, vec![ACK]);
    assert_eq!(p.unwrap().len(), 1024);
}

#[test]
fn xmodem_pad_last_block() {
    let p = pad_block(b"abc", 128);
    assert_eq!(p.len(), 128);
    assert_eq!(&p[..3], b"abc");
    assert!(p[3..].iter().all(|b| *b == 0x1a));
}

#[test]
fn zmodem_marker_detected() {
    let mut d = AutoTransferDetector::new();
    let mut hits = Vec::new();
    for b in b"hello **\x18B00000000000000\r\n" {
        if let Some(x) = d.feed(*b) {
            hits.push(x);
        }
    }
    assert_eq!(hits, vec![Direction::Download]);
}

#[test]
fn zmodem_upload_marker_detected() {
    let mut d = AutoTransferDetector::new();
    let mut last = None;
    for b in b"**\x18B01" {
        last = d.feed(*b);
    }
    assert_eq!(last, Some(Direction::Upload));
}

#[test]
fn pattern_watch_overlapping() {
    let mut w = PatternWatch::new(b"aab");
    let hits: Vec<bool> = b"aaab".iter().map(|b| w.feed(*b)).collect();
    assert_eq!(hits, vec![false, false, false, true]);
}

#[test]
fn iemsi_answered_once() {
    let mut w = IemsiWatch::new();
    let mut count = 0;
    for b in b"**EMSI_IRQ8E08 ... **EMSI_IRQ8E08" {
        if w.feed(*b) {
            count += 1;
        }
    }
    assert_eq!(count, 1);
}

fn block_of(number: u8, payload: &[u8]) -> Vec<u8> {
    encode_block(number, payload, CheckKind::Crc16)
}

#[test]
fn ymodem_block0_parse() {
    let p = encode_block0(b"a.txt", 3, 0o14_000_000_000, 0o100644, 0);
    assert_eq!(p.len(), 128);
    assert_eq!(&p[..29], b"a.txt\x003 14000000000 100644 0\0");
    let info = parse_block0(&p).unwrap();
    assert_eq!(info.name, b"a.txt".to_vec());
    assert_eq!(info.size, Some(3));
    assert_eq!(info.mtime, Some(0o14_000_000_000));
    assert!(parse_block0(&[0u8; 128]).is_none());
}

#[test]
fn ymodem_block0_without_size() {
    let info = parse_block0(b"name\0\0\0").unwrap();
    assert_eq!(info.name, b"name".to_vec());
    assert_eq!(info.size, None);
    assert_eq!(info.mtime, None);
}

#[test]
fn ymodem_block0_size_too_large() {
    let info = parse_block0(b"f\x0099999999999999999999 0\0").unwrap();
    assert_eq!(info.size, None);
}

#[test]
fn ymodem_batch_scenario() {
    let mut rx = YmodemReceiver::new(false);
    let mut files: Vec<(Vec<u8>, Vec<u8>)> = Vec::new();
    let b_content: Vec<u8> = (0..1025u32).map(|i| (i % 256) as u8).collect();
    let mut stream: Vec<Vec<u8>> = Vec::new();
    stream.push(block_of(0, &encode_block0(b"a.txt", 3, 0, 0o100644, 0)));
    stream.push(block_of(1, &pad_block(b"abc", 128)));
    stream.push(vec![EOT]);
    stream.push(vec![EOT]);
    stream.push(block_of(0, &encode_block0(b"b.bin", 1025, 0, 0o100644, 0)));
    stream.push(block_of(1, &b_content[..1024]));
    stream.push(block_of(2, &pad_block(&b_content[1024..], 128)));
    stream.push(vec![EOT]);
    stream.push(vec![EOT]);
    stream.push(block_of(0, &end_of_batch_block0()));
    let mut ended = false;
    for item in stream {
        if item == vec![EOT] {
            let r = rx.on_eot();
            assert!(r == vec![NAK] || r == vec![ACK, CRC_REQUEST]);
            continue;
        }
        let (reply, ev) = rx.on_block(&item);
        assert_eq!(reply[0], ACK);
        match ev {
            BatchEvent::StartFile(info) => files.push((info.name, Vec::new())),
            BatchEvent::Data(d) => files.last_mut().unwrap().1.extend_from_slice(&d),
            BatchEvent::EndOfBatch => ended = true,
            BatchEvent::Nothing => panic!("every block is new"),
        }
    }
    assert!(ended);
    assert!(rx.finished);
    assert_eq!(files.len(), 2);
    assert_eq!(files[0], (b"a.txt".to_vec(), b"abc".to_vec()));
    assert_eq!(files[1].0, b"b.bin".to_vec());
    assert_eq!(files[1].1, b_content);
}

#[test]
fn xmodem_sender_ritual() {
    let mut tx = XmodemSender::new(2);
    assert_eq!(tx.on_byte(CRC_REQUEST), TxAction::SendBlock(0));
    assert_eq!(tx.check, CheckKind::Crc16);
    assert_eq!(tx.on_byte(NAK), TxAction::SendBlock(0));
    assert_eq!(tx.on_byte(ACK), TxAction::SendBlock(1));
    assert_eq!(tx.on_byte(ACK), TxAction::SendEot);
    assert_eq!(tx.on_byte(NAK), TxAction::SendEot);
    assert_eq!(tx.on_byte(ACK), TxAction::Finished);
    assert_eq!(tx.phase, TxPhase::Done);
}

#[test]
fn xmodem_sender_checksum_and_cancel() {
    let mut tx = XmodemSender::new(5);
    assert_eq!(tx.on_byte(NAK), TxAction::SendBlock(0));
    assert_eq!(tx.check, CheckKind::Checksum);
    assert_eq!(tx.on_byte(CAN), TxAction::Wait);
    assert_eq!(tx.on_byte(CAN), TxAction::Abort);
    assert_eq!(tx.phase, TxPhase::Aborted);
}

#[test]
fn xmodem_sender_streaming() {
    let mut tx = XmodemSender::new(3);
    assert_eq!(tx.on_byte(STREAM_REQUEST), TxAction::StreamFrom(0));
    assert_eq!(tx.on_byte(ACK), TxAction::Finished);
}

#[test]
fn xmodem_receiver_cancelled_stops() {
    let mut rx = XmodemReceiver::new(false);
    rx.on_cancel();
    let (r, p) = rx.on_block(&crc_block(1, &[1; 128]));
    assert_eq!(r, vec![CAN, CAN]);
    assert!(p.is_none());
}

#[test]
fn pacer_limits_rate() {
    let mut p = BaudPacer::new();
    assert_eq!(p.release(0, 500), 500);
    assert!(p.set_baud_rate(2400));
    assert!(!p.set_baud_rate(1234));
    assert_eq!(p.release(0, 500), 0);
    assert_eq!(p.release(100, 500), 30);
    assert_eq!(p.release(5000, 500), 300);
    assert_eq!(p.release(10, 5), 3);
}

#[test]
fn zmodem_subpacket_decode_round_trip() {
    let data: Vec<u8> = (0u16..300).map(|b| (b % 256) as u8).collect();
    for wide in [false, true] {
        let mut wire = encode_subpacket(&data, ZCRCW, wide);
        let len = wire.len();
        wire.extend_from_slice(b"tail");
        let sp = decode_subpacket(&wire, wide).unwrap();
        assert_eq!(sp.data, data);
        assert_eq!(sp.end, ZCRCW);
        assert_eq!(sp.consumed, len);
        assert!(sp.crc_ok);
    }
}

#[test]
fn zmodem_subpacket_bad_crc() {
    let mut wire = encode_subpacket(b"hello", ZCRCG, true);
    wire[0] = b'j';
    let sp = decode_subpacket(&wire, true).unwrap();
    assert_eq!(sp.data, b"jello".to_vec());
    assert!(!sp.crc_ok);
}

#[test]
fn zmodem_subpacket_incomplete() {
    let wire = encode_subpacket(b"hello", ZCRCE, false);
    assert!(decode_subpacket(&wire[..wire.len() - 1], false).is_none());
    assert!(decode_subpacket(b"no end here", false).is_none());
}

#[test]
fn zmodem_bin_header_round_trip() {
    let h = Header::with_offset(FrameKind::Data, 0x1234_5678);
    for wide in [false, true] {
        let mut wire = encode_bin_header(&h, wide);
        wire.push(0x99);
        assert_eq!(decode_bin_header(&wire), Some(h));
        wire[4] ^= 1;
        assert_eq!(decode_bin_header(&wire), None);
    }
}

#[test]
fn login_script_runs() {
    let steps = vec![
        LoginStep::WaitFor(b"login:".to_vec()),
        LoginStep::Send(b"sysop\r".to_vec(), false),
        LoginStep::WaitFor(b"password:".to_vec()),
        LoginStep::Send(b"secret\r".to_vec(), true),
    ];
    let mut script = LoginScript::new(steps, 30_000);
    assert!(script.start().is_empty());
    let mut sent = Vec::new();
    for b in b"Welcome!\r\nlogin: password: " {
        sent.extend(script.feed(*b));
    }
    assert_eq!(sent, b"sysop\rsecret\r".to_vec());
    assert!(!script.tick(100_000));
}

#[test]
fn login_script_times_out() {
    let steps = vec![LoginStep::Send(b"hi\r".to_vec(), false), LoginStep::WaitFor(b"ok".to_vec())];
    let mut script = LoginScript::new(steps, 1000);
    assert_eq!(script.start(), b"hi\r".to_vec());
    assert!(!script.tick(600));
    assert!(script.tick(600));
    assert!(script.feed(b'o').is_empty());
    assert!(script.feed(b'k').is_empty());
}

#[test]
fn login_masked_echo() {
    assert_eq!(echo_text(&LoginStep::Send(b"pw".to_vec(), true)), b"**".to_vec());
    assert_eq!(echo_text(&LoginStep::Send(b"pw".to_vec(), false)), b"pw".to_vec());
}

#[test]
fn zmodem_frame_scanning() {
    let h = Header::with_offset(FrameKind::RPos, 7);
    let mut wire = b"noise*x".to_vec();
    let start = wire.len();
    wire.extend_from_slice(&encode_hex(&h));
    assert_eq!(find_frame(&wire), Some(start));
    assert_eq!(hex_header_len(&wire[start..]), Some(18));
    assert_eq!(find_frame(b"no frame *here"), None);
    let bin = encode_bin_header(&h, true);
    assert_eq!(bin_header_len(&bin), Some(bin.len()));
    assert_eq!(bin_header_len(&bin[..bin.len() - 1]), None);
    assert_eq!(hex_header_len(&bin), None);
}

#[test]
fn xmodem_padding_trim_is_optional() {
    let data = pad_block(b"text", 128);
    assert_eq!(trim_padding(&data, false).len(), 128);
    assert_eq!(trim_padding(&data, true), b"text".to_vec());
    assert_eq!(trim_padding(&[0x1a, 0x1a], true), Vec::<u8>::new());
}

#[test]
fn login_empty_wait_passes_at_once() {
    let steps = vec![
        LoginStep::WaitFor(Vec::new()),
        LoginStep::Send(b"hi\r".to_vec(), false),
        LoginStep::WaitFor(b"ok".to_vec()),
    ];
    let mut script = LoginScript::new(steps, 1000);
    assert_eq!(script.start(), b"hi\r".to_vec());
    assert!(script.feed(b'o').is_empty());
    assert!(script.feed(b'k').is_empty());
}

#[test]
fn emsi_ici_layout() {
    let p = emsi_ici(b"Sys}op", b"pw\x01").unwrap();
    let data: &[u8] = b"{Sys}}op}{Sys}}op}{}{}{}{pw\\01}{}{ANSI,24,80,0}{ZMO}{CHT,TAB,ASCII8}{HOT,MORE,FSED,NEWS,CLR}{icy_term,0.1,Rust}{}";
    let mut body = b"EMSI_ICI".to_vec();
    body.extend_from_slice(format!("{:04X}", data.len()).as_bytes());
    body.extend_from_slice(data);
    let mut expected = b"**".to_vec();
    expected.extend_from_slice(&body);
    expected.extend_from_slice(format!("{:08X}", crc32(&body)).as_bytes());
    assert_eq!(p, expected);
    assert!(emsi_ici(&vec![b'a'; 40000], b"").is_none());
}
