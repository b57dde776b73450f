use killsnoop::codec::{decode, encode};
use killsnoop::event::{SignalLog, COMM_LEN, RECORD_LEN};

fn comm_of(name: &str) -> Vec<u8> {
    let mut comm: Vec<u8> = name.as_bytes().to_vec();
    comm.truncate(COMM_LEN - 1);
    while comm.len() < COMM_LEN {
        comm.push(0);
    }
    comm
}

#[test]
fn encode_layout_exact() {
    let ev = SignalLog {
        pid: 0x01020304,
        tid: 0x05060708,
        tpid: 0x0a0b0c0d,
        tsig: 9,
        comm: comm_of("ab"),
    };
    let bytes = encode(&ev);
    assert_eq!(bytes.len(), RECORD_LEN);
    assert_eq!(&bytes[0..4], &[0x04, 0x03, 0x02, 0x01]);
    assert_eq!(&bytes[4..8], &[0x08, 0x07, 0x06, 0x05]);
    assert_eq!(&bytes[8..12], &[0x0d, 0x0c, 0x0b, 0x0a]);
    assert_eq!(&bytes[12..16], &[9, 0, 0, 0]);
    let mut expected_comm = vec![b'a', b'b'];
    expected_comm.resize(16, 0);
    assert_eq!(&bytes[16..32], &expected_comm[..]);
}

#[test]
fn round_trip_preserves_fields() {
    let ev = SignalLog {
        pid: 100,
        tid: 105,
        tpid: 200,
        tsig: 15,
        comm: comm_of("shellproc"),
    };
    let bytes = encode(&ev);
    let back = decode(&bytes).expect("a full record must decode");
    assert_eq!(back.pid, 100);
    assert_eq!(back.tid, 105);
    assert_eq!(back.tpid, 200);
    assert_eq!(back.tsig, 15);
    assert_eq!(back.comm, comm_of("shellproc"));
}

#[test]
fn negative_target_round_trip() {
    let ev = SignalLog {
        pid: 1,
        tid: 1,
        tpid: -1,
        tsig: 9,
        comm: comm_of("init"),
    };
    let bytes = encode(&ev);
    assert_eq!(&bytes[8..12], &[0xff, 0xff, 0xff, 0xff]);
    let back = decode(&bytes).expect("a full record must decode");
    assert_eq!(back.tpid, -1);

    let ev_min = SignalLog {
        pid: 2,
        tid: 3,
        tpid: i32::MIN,
        tsig: 15,
        comm: comm_of("x"),
    };
    let back_min = decode(&encode(&ev_min)).expect("a full record must decode");
    assert_eq!(back_min.tpid, i32::MIN);
}

#[test]
fn decode_rejects_wrong_length() {
    assert!(decode(&[]).is_none());
    assert!(decode(&[0u8; 31]).is_none());
    assert!(decode(&[0u8; 33]).is_none());
    assert!(decode(&[0u8; 32]).is_some());
}
