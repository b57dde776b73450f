use killsnoop::event::COMM_LEN;
use killsnoop::probe::{comm_fixed, ctx_read_u64, probe_event};

/// A raw tracepoint context with the target pid at offset 16 and the
/// signal number at offset 24, as the syscall's argument layout has it.
fn ctx_with(tpid: i64, tsig: u64) -> Vec<u8> {
    let mut ctx = vec![0u8; 32];
    ctx[16..24].copy_from_slice(&tpid.to_le_bytes());
    ctx[24..32].copy_from_slice(&tsig.to_le_bytes());
    ctx
}

#[test]
fn comm_short_name_is_nul_padded() {
    let fixed = comm_fixed(&b"shellproc".to_vec());
    assert_eq!(fixed.len(), COMM_LEN);
    assert_eq!(&fixed[..9], b"shellproc");
    assert_eq!(&fixed[9..], &[0u8; 7]);
}

#[test]
fn comm_fifteen_bytes_get_one_terminator() {
    let fixed = comm_fixed(&b"abcdefghijklmno".to_vec());
    assert_eq!(fixed.len(), COMM_LEN);
    assert_eq!(&fixed[..15], b"abcdefghijklmno");
    assert_eq!(fixed[15], 0);
}

#[test]
fn comm_long_name_is_truncated_with_terminator() {
    let fixed = comm_fixed(&b"averylongprocessname".to_vec());
    assert_eq!(fixed.len(), COMM_LEN);
    assert_eq!(&fixed[..15], b"averylongproces");
    assert_eq!(fixed[15], 0);
}

#[test]
fn probe_extracts_caller_and_arguments() {
    let ctx = ctx_with(200, 15);
    let pid_tgid: u64 = (100u64 << 32) | 105u64;
    let ev = probe_event(&ctx, pid_tgid, &b"shellproc".to_vec()).expect("a kill must be observed");
    assert_eq!(ev.pid, 100);
    assert_eq!(ev.tid, 105);
    assert_eq!(ev.tpid, 200);
    assert_eq!(ev.tsig, 15);
    assert_eq!(ev.comm, comm_fixed(&b"shellproc".to_vec()));
}

#[test]
fn probe_reads_negative_target() {
    let ctx = ctx_with(-4242, 9);
    let ev = probe_event(&ctx, 7u64 << 32, &b"kern".to_vec()).expect("a kill must be observed");
    assert_eq!(ev.tpid, -4242);
    assert_eq!(ev.tsig, 9);
}

#[test]
fn probe_ignores_signal_zero() {
    let ctx = ctx_with(200, 0);
    assert!(probe_event(&ctx, 1u64 << 32, &b"prober".to_vec()).is_none());
}

#[test]
fn probe_fails_closed_on_short_context() {
    let ctx = vec![0u8; 24];
    assert!(probe_event(&ctx, 1u64 << 32, &b"proc".to_vec()).is_none());
    let empty: Vec<u8> = Vec::new();
    assert!(probe_event(&empty, 1u64 << 32, &b"proc".to_vec()).is_none());
}

#[test]
fn context_reads_are_bounds_checked() {
    let ctx = ctx_with(77, 15);
    assert_eq!(ctx_read_u64(&ctx, 16), Some(77));
    assert_eq!(ctx_read_u64(&ctx, 24), Some(15));
    assert_eq!(ctx_read_u64(&ctx, 25), None);
    assert_eq!(ctx_read_u64(&ctx, usize::MAX), None);
}
