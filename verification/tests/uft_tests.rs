use uft::protocol::{
    UFT_BUFFER_SIZE, UFT_DATA_SIZE, UftClientError, UftClientStatus, UftServerError,
    UftServerStatus,
};
use uft::codec::{decode, encode, packet_wf, sha256_digest, string_from_buffer, Packet};
use uft::meta::{compute_metadata, final_block_size, total_blocks};
use uft::blocks::missing_blocks;
use uft::session::{FailReason, Outcome, Session, SessionEvent, SessionState};
use uft::registry::{validate_admission_bound, ClientAddr, Registry, RouteDecision};
use uft::coordinator::{CompletionReport, CoordEvent, Coordinator};

#[test]
fn test_hash_array() {
    let mut buf = [0u8; UFT_BUFFER_SIZE];
    let file_path_bytes = "test.txt".as_bytes();
    buf[0] = UftClientStatus::FILE_REQUEST.byte();
    buf[1..(1 + file_path_bytes.len())].clone_from_slice(&file_path_bytes);
    let hash = sha256_digest(&buf);
    println!("Hash: {:?}\nBytes: {}", hash, hash.len());
}

#[test]
fn sha256_digest_is_not_the_input() {
    let d = sha256_digest(&[]);
    assert_eq!(d.len(), 32);
    let d2 = sha256_digest(&[1, 2, 3]);
    assert_eq!(d2.len(), 32);
    assert_ne!(d, d2);
}

#[test]
fn block_math_concrete_scenario() {
    // DATA_SIZE is 4087; a 10000-byte file takes 3 blocks, the last 1826 bytes.
    assert_eq!(UFT_DATA_SIZE, 4087);
    assert_eq!(total_blocks(10000), 3);
    assert_eq!(final_block_size(10000), 1826);
}

#[test]
fn block_math_edges() {
    assert_eq!(total_blocks(1), 1);
    assert_eq!(final_block_size(1), 1);
    // exactly one full block
    assert_eq!(total_blocks(4087), 1);
    assert_eq!(final_block_size(4087), 4087);
    // an exact multiple: the final block is full, never zero
    assert_eq!(total_blocks(2 * 4087), 2);
    assert_eq!(final_block_size(2 * 4087), 4087);
    assert_eq!(total_blocks(4088), 2);
    assert_eq!(final_block_size(4088), 1);
}

#[test]
fn compute_metadata_matches_formulas() {
    let m = compute_metadata(b"test.txt".to_vec(), 10000);
    assert_eq!(m.name, b"test.txt".to_vec());
    assert_eq!(m.total_blocks, 3);
    assert_eq!(m.final_block_size, 1826);
}

#[test]
fn roundtrip_file_request() {
    let p = Packet::FileRequest { name: b"test.txt".to_vec() };
    assert!(packet_wf(&p));
    let enc = encode(&p);
    match decode(&enc).unwrap() {
        Packet::FileRequest { name } => assert_eq!(name, b"test.txt".to_vec()),
        _ => panic!("wrong packet kind"),
    }
}

#[test]
fn roundtrip_file_meta() {
    let p = Packet::FileMeta {
        name: b"test.txt".to_vec(),
        total_blocks: 3,
        final_block_size: 1826,
    };
    let enc = encode(&p);
    assert_eq!(enc.len(), 161);
    assert_eq!(enc[0], UftServerStatus::FILE_META.byte());
    match decode(&enc).unwrap() {
        Packet::FileMeta { name, total_blocks, final_block_size } => {
            assert_eq!(name, b"test.txt".to_vec());
            assert_eq!(total_blocks, 3);
            assert_eq!(final_block_size, 1826);
        },
        _ => panic!("wrong packet kind"),
    }
}

#[test]
fn roundtrip_meta_received_and_hash_valid() {
    let digest: Vec<u8> = (0..32).collect();
    let p = Packet::MetaReceived { digest: digest.clone() };
    match decode(&encode(&p)).unwrap() {
        Packet::MetaReceived { digest: d } => assert_eq!(d, digest),
        _ => panic!("wrong packet kind"),
    }
    let p = Packet::HashValid { digest: digest.clone() };
    match decode(&encode(&p)).unwrap() {
        Packet::HashValid { digest: d } => assert_eq!(d, digest),
        _ => panic!("wrong packet kind"),
    }
}

#[test]
fn roundtrip_file_data_and_complete() {
    let payload = vec![7u8; UFT_DATA_SIZE];
    let p = Packet::FileData { seq_no: 0x0102030405060708, payload: payload.clone() };
    let enc = encode(&p);
    assert_eq!(enc.len(), UFT_BUFFER_SIZE);
    assert_eq!(enc[0], UftServerStatus::FILE_DATA.byte());
    match decode(&enc).unwrap() {
        Packet::FileData { seq_no, payload: pl } => {
            assert_eq!(seq_no, 0x0102030405060708);
            assert_eq!(pl, payload);
        },
        _ => panic!("wrong packet kind"),
    }
    let last = vec![9u8; 1826];
    let p = Packet::FileComplete { seq_no: 2, payload: last.clone() };
    let enc = encode(&p);
    assert_eq!(enc[0], UftServerStatus::FILE_COMPLETE.byte());
    match decode(&enc).unwrap() {
        Packet::FileComplete { seq_no, payload: pl } => {
            assert_eq!(seq_no, 2);
            assert_eq!(pl, last);
        },
        _ => panic!("wrong packet kind"),
    }
}

#[test]
fn roundtrip_block_request_and_small_packets() {
    let p = Packet::BlockRequest { missing: vec![1, 3] };
    let enc = encode(&p);
    assert_eq!(enc[0], UftClientStatus::BLOCK_REQUEST.byte());
    match decode(&enc).unwrap() {
        Packet::BlockRequest { missing } => assert_eq!(missing, vec![1, 3]),
        _ => panic!("wrong packet kind"),
    }
    match decode(&encode(&Packet::FileReceived)).unwrap() {
        Packet::FileReceived => {},
        _ => panic!("wrong packet kind"),
    }
    let p = Packet::ErrorPacket { code: UftServerError::CAPACITY_EXCEEDED.code() };
    match decode(&encode(&p)).unwrap() {
        Packet::ErrorPacket { code } => assert_eq!(code, 2),
        _ => panic!("wrong packet kind"),
    }
}

#[test]
fn decode_rejects_malformed() {
    // a zero-length datagram is dropped as malformed
    assert!(decode(&[]).is_err());
    // too short for its status byte
    assert!(decode(&[UftClientStatus::META_RECEIVED.byte()]).is_err());
    assert!(decode(&[UftServerStatus::FILE_META.byte(); 100]).is_err());
    assert!(decode(&[0x0F, 0, 0]).is_err());
    // a FILE_REQUEST whose name never terminates
    assert!(decode(&[0x00, b'a', b'b']).is_err());
}

#[test]
fn decode_unknown_status_is_not_an_error() {
    match decode(&[0x07, 1, 2, 3]).unwrap() {
        Packet::UnknownStatus { status } => assert_eq!(status, 0x07),
        _ => panic!("wrong packet kind"),
    }
}

#[test]
fn error_codes_and_status_bytes() {
    assert_eq!(UftClientStatus::FILE_REQUEST.byte(), 0x00);
    assert_eq!(UftClientStatus::CLIENT_ERROR.byte(), 0x0F);
    assert_eq!(UftServerStatus::FILE_META.byte(), 0x10);
    assert_eq!(UftServerStatus::SERVER_ERROR.byte(), 0x0F);
    assert_eq!(UftClientError::FILE_HASH_INVALID.code(), 0);
    assert_eq!(UftServerError::META_HASH_INVALID.code(), 0);
    assert_eq!(UftServerError::FILE_UNAVAILABLE.code(), 1);
    assert_eq!(UftServerError::CAPACITY_EXCEEDED.code(), 2);
}

#[test]
fn missing_blocks_computes_exact_set() {
    let got = missing_blocks(5, &vec![0, 2, 4]);
    assert_eq!(got, vec![1, 3]);
    assert_eq!(missing_blocks(5, &vec![0, 1, 2, 3, 4]), Vec::<u64>::new());
    assert_eq!(missing_blocks(3, &vec![]), vec![0, 1, 2]);
}

fn meta_digest_for(name: &[u8], total: u64, final_size: u16) -> Vec<u8> {
    let pkt = Packet::FileMeta {
        name: name.to_vec(),
        total_blocks: total,
        final_block_size: final_size,
    };
    let enc = encode(&pkt);
    sha256_digest(&enc)
}

#[test]
fn session_retransmission_reaches_completed() {
    // A file of 5 blocks: four full blocks and a 100-byte final block.
    let size: u64 = 4 * 4087 + 100;
    let mut s = Session::new(b"test.txt".to_vec(), 3);
    assert_eq!(s.state, SessionState::Requested);

    let eff = s.step(SessionEvent::FileOpened { size });
    assert_eq!(s.state, SessionState::SendingMeta);
    assert!(s.file_open);
    assert!(eff.send.is_none());
    assert_eq!(s.total_blocks, 5);
    assert_eq!(s.final_block_size, 100);

    let eff = s.step(SessionEvent::Proceed);
    assert_eq!(s.state, SessionState::AwaitMetaAck);
    assert!(eff.arm_timer);
    assert!(matches!(eff.send, Some(Packet::FileMeta { .. })));

    let digest = meta_digest_for(b"test.txt", 5, 100);
    let eff = s.step(SessionEvent::MetaAck { digest });
    assert_eq!(s.state, SessionState::Transferring);
    assert_eq!(eff.read_block, Some(0));

    // which blocks the client has stored, counted per sequence number
    let mut seen = [0u32; 5];
    let dropped = [1u64, 3u64];

    let mut next = 0u64;
    loop {
        let payload = if next == 4 { vec![0u8; 100] } else { vec![0u8; 4087] };
        let eff = s.step(SessionEvent::BlockRead { payload });
        let seq_no = match eff.send {
            Some(Packet::FileData { seq_no, .. }) => seq_no,
            Some(Packet::FileComplete { seq_no, .. }) => seq_no,
            _ => panic!("expected a data packet"),
        };
        assert_eq!(seq_no, next);
        if !dropped.contains(&seq_no) {
            seen[seq_no as usize] += 1;
        }
        next += 1;
        if next == 5 {
            break;
        }
        assert_eq!(eff.read_block, Some(next));
    }
    assert_eq!(s.state, SessionState::AwaitCompletionAck);

    // the client computes its missing-block list: exactly {1, 3}
    let have: Vec<u64> = vec![0, 2, 4];
    let missing = missing_blocks(5, &have);
    assert_eq!(missing, vec![1, 3]);

    let eff = s.step(SessionEvent::MissingBlocks { missing });
    assert_eq!(eff.read_block, Some(1));
    let eff = s.step(SessionEvent::BlockRead { payload: vec![0u8; 4087] });
    match eff.send {
        Some(Packet::FileData { seq_no, .. }) => {
            assert_eq!(seq_no, 1);
            seen[1] += 1;
        },
        _ => panic!("expected block 1 again"),
    }
    assert_eq!(eff.read_block, Some(3));
    let eff = s.step(SessionEvent::BlockRead { payload: vec![0u8; 4087] });
    match eff.send {
        Some(Packet::FileData { seq_no, .. }) => {
            assert_eq!(seq_no, 3);
            seen[3] += 1;
        },
        _ => panic!("expected block 3 again"),
    }
    assert_eq!(eff.read_block, None);
    assert_eq!(s.state, SessionState::AwaitCompletionAck);

    // every block is now stored exactly once
    assert_eq!(seen, [1, 1, 1, 1, 1]);

    let _ = s.step(SessionEvent::AllBlocksReceived);
    assert_eq!(s.state, SessionState::AwaitHash);
    let eff = s.step(SessionEvent::HashOk { digest: vec![0u8; 32] });
    assert_eq!(s.state, SessionState::Completed);
    assert!(!s.file_open);
    match eff.report {
        Some(Outcome::Completed { name }) => assert_eq!(name, b"test.txt".to_vec()),
        _ => panic!("expected a completion report"),
    }
}

#[test]
fn session_shutdown_in_await_meta_ack_cancels_and_releases() {
    let mut s = Session::new(b"test.txt".to_vec(), 3);
    let _ = s.step(SessionEvent::FileOpened { size: 10000 });
    let _ = s.step(SessionEvent::Proceed);
    assert_eq!(s.state, SessionState::AwaitMetaAck);
    assert!(s.file_open);

    let eff = s.step(SessionEvent::ShutdownObserved);
    assert_eq!(s.state, SessionState::Cancelled);
    assert!(!s.file_open);
    assert!(matches!(eff.report, Some(Outcome::Cancelled)));
    assert!(eff.send.is_none());

    // terminal states absorb later events
    let eff = s.step(SessionEvent::TimerExpired);
    assert_eq!(s.state, SessionState::Cancelled);
    assert!(eff.report.is_none());
}

#[test]
fn session_file_open_failure_reports_and_notifies() {
    let mut s = Session::new(b"nope.bin".to_vec(), 3);
    let eff = s.step(SessionEvent::FileOpenFailed);
    assert_eq!(s.state, SessionState::Failed(FailReason::FileUnavailable));
    assert!(!s.file_open);
    match eff.send {
        Some(Packet::ErrorPacket { code }) => {
            assert_eq!(code, UftServerError::FILE_UNAVAILABLE.code())
        },
        _ => panic!("expected a server error packet"),
    }
    assert!(matches!(eff.report, Some(Outcome::Failed { reason: FailReason::FileUnavailable })));
}

#[test]
fn session_empty_file_is_unavailable() {
    let mut s = Session::new(b"empty".to_vec(), 3);
    let eff = s.step(SessionEvent::FileOpened { size: 0 });
    assert_eq!(s.state, SessionState::Failed(FailReason::FileUnavailable));
    assert!(matches!(eff.send, Some(Packet::ErrorPacket { .. })));
}

#[test]
fn session_meta_digest_mismatch_retries_then_fails() {
    let mut s = Session::new(b"test.txt".to_vec(), 1);
    let _ = s.step(SessionEvent::FileOpened { size: 10000 });
    let _ = s.step(SessionEvent::Proceed);
    assert_eq!(s.state, SessionState::AwaitMetaAck);

    let eff = s.step(SessionEvent::MetaAck { digest: vec![0u8; 32] });
    assert_eq!(s.state, SessionState::SendingMeta);
    assert_eq!(s.retries, 1);
    match eff.send {
        Some(Packet::ErrorPacket { code }) => {
            assert_eq!(code, UftServerError::META_HASH_INVALID.code())
        },
        _ => panic!("expected META_HASH_INVALID"),
    }

    let _ = s.step(SessionEvent::Proceed);
    let eff = s.step(SessionEvent::MetaAck { digest: vec![0u8; 32] });
    assert_eq!(s.state, SessionState::Failed(FailReason::HashMismatch));
    assert!(matches!(eff.report, Some(Outcome::Failed { reason: FailReason::HashMismatch })));
}

#[test]
fn session_meta_timeout_retries_then_fails() {
    let mut s = Session::new(b"test.txt".to_vec(), 1);
    let _ = s.step(SessionEvent::FileOpened { size: 10000 });
    let _ = s.step(SessionEvent::Proceed);
    let eff = s.step(SessionEvent::TimerExpired);
    assert_eq!(s.state, SessionState::SendingMeta);
    assert!(eff.report.is_none());
    let _ = s.step(SessionEvent::Proceed);
    let eff = s.step(SessionEvent::TimerExpired);
    assert_eq!(s.state, SessionState::Failed(FailReason::Timeout));
    assert!(matches!(eff.report, Some(Outcome::Failed { reason: FailReason::Timeout })));
}

#[test]
fn session_client_hash_verdict() {
    let mut s = Session::new(b"test.txt".to_vec(), 3);
    let _ = s.step(SessionEvent::FileOpened { size: 100 });
    let _ = s.step(SessionEvent::Proceed);
    let digest = meta_digest_for(b"test.txt", 1, 100);
    let _ = s.step(SessionEvent::MetaAck { digest });
    let _ = s.step(SessionEvent::BlockRead { payload: vec![0u8; 100] });
    let _ = s.step(SessionEvent::AllBlocksReceived);
    assert_eq!(s.state, SessionState::AwaitHash);
    let eff = s.step(SessionEvent::ClientFault {
        code: UftClientError::FILE_HASH_INVALID.code(),
    });
    assert_eq!(s.state, SessionState::Failed(FailReason::HashMismatch));
    assert!(eff.send.is_none());
}

fn addr(n: u16) -> ClientAddr {
    ClientAddr { ip: 0x7F000001, port: n }
}

#[test]
fn registry_rejects_at_capacity_and_recovers() {
    let mut reg = Registry::new(2);
    assert!(reg.register(addr(1)));
    assert!(reg.register(addr(2)));
    // the request arriving exactly at the bound is rejected
    let req = Packet::FileRequest { name: b"f".to_vec() };
    assert_eq!(reg.route(addr(3), &req), RouteDecision::RejectCapacity);
    assert!(!reg.register(addr(3)));
    assert_eq!(reg.entries.len(), 2);
    // once a session terminates, a fresh address is admitted
    assert!(reg.remove(addr(1)));
    assert_eq!(reg.route(addr(3), &req), RouteDecision::AdmitNew);
    assert!(reg.register(addr(3)));
}

#[test]
fn registry_sequential_requests_same_address() {
    let mut reg = Registry::new(2);
    let req = Packet::FileRequest { name: b"f".to_vec() };
    assert_eq!(reg.route(addr(9), &req), RouteDecision::AdmitNew);
    assert!(reg.register(addr(9)));
    // a second overlapping request is dropped, not merged
    assert_eq!(reg.route(addr(9), &req), RouteDecision::DropDuplicate);
    assert!(!reg.register(addr(9)));
    // after the session ends, the same address succeeds again
    assert!(reg.remove(addr(9)));
    assert_eq!(reg.route(addr(9), &req), RouteDecision::AdmitNew);
    assert!(reg.register(addr(9)));
}

#[test]
fn registry_routing_non_requests() {
    let mut reg = Registry::new(4);
    assert!(reg.register(addr(1)));
    let ack = Packet::FileReceived;
    assert_eq!(reg.route(addr(1), &ack), RouteDecision::Forward);
    assert_eq!(reg.route(addr(2), &ack), RouteDecision::DropNoSession);
}

#[test]
fn malformed_datagram_leaves_sessions_alone() {
    // A malformed zero-length packet is dropped before routing and does not
    // disturb a live session's progress.
    let mut reg = Registry::new(2);
    assert!(reg.register(addr(1)));
    let mut s = Session::new(b"test.txt".to_vec(), 3);
    let _ = s.step(SessionEvent::FileOpened { size: 10000 });
    let before_state = s.state;
    assert!(decode(&[]).is_err());
    assert_eq!(reg.entries.len(), 1);
    assert_eq!(s.state, before_state);
}

#[test]
fn admission_bound_validation() {
    assert!(!validate_admission_bound(0));
    assert!(validate_admission_bound(1));
    assert!(validate_admission_bound(16));
}

#[test]
fn coordinator_escalates_only_on_unrecoverable_conditions() {
    let mut c = Coordinator::new();
    let report = CoordEvent::Report(CompletionReport {
        addr: addr(1),
        outcome: Outcome::Completed { name: b"test.txt".to_vec() },
    });
    assert!(!c.on_event(&report));
    assert_eq!(c.completed, 1);
    assert!(!c.shutdown_fired);

    let failed = CoordEvent::Report(CompletionReport {
        addr: addr(2),
        outcome: Outcome::Failed { reason: FailReason::Timeout },
    });
    assert!(!c.on_event(&failed));
    assert_eq!(c.failed, 1);
    assert!(!c.shutdown_fired);

    // the broadcast fires exactly once
    assert!(c.on_event(&CoordEvent::ChannelFailed));
    assert!(c.shutdown_fired);
    assert!(!c.on_event(&CoordEvent::ChannelFailed));
    assert!(!c.on_event(&CoordEvent::OperatorShutdown));
}

#[test]
fn string_from_buffer_reads_until_terminator() {
    let mut buf = vec![0u8; 64];
    buf[..8].copy_from_slice(b"test.txt");
    assert_eq!(string_from_buffer(&buf), "test.txt".to_string());
}

#[test]
fn string_from_buffer_is_lossy_on_invalid_utf8() {
    let buf = [0xFFu8, 0x00u8];
    assert_eq!(string_from_buffer(&buf), "\u{FFFD}".to_string());
}
