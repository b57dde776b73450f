use killsnoop::clock::report_line;
use killsnoop::event::SignalLog;
use killsnoop::probe::comm_fixed;
use killsnoop::render::{comm_string, i32_dec, render_line, u64_dec};

fn event(pid: u32, tid: u32, tpid: i32, tsig: u32, name: &str) -> SignalLog {
    SignalLog {
        pid,
        tid,
        tpid,
        tsig,
        comm: comm_fixed(&name.as_bytes().to_vec()),
    }
}

#[test]
fn unsigned_decimals_are_exact() {
    assert_eq!(u64_dec(0), "0");
    assert_eq!(u64_dec(7), "7");
    assert_eq!(u64_dec(10), "10");
    assert_eq!(u64_dec(200), "200");
    assert_eq!(u64_dec(4294967295), "4294967295");
    assert_eq!(u64_dec(u64::MAX), "18446744073709551615");
}

#[test]
fn signed_decimals_are_exact() {
    assert_eq!(i32_dec(0), "0");
    assert_eq!(i32_dec(200), "200");
    assert_eq!(i32_dec(-1), "-1");
    assert_eq!(i32_dec(i32::MAX), "2147483647");
    assert_eq!(i32_dec(i32::MIN), "-2147483648");
}

#[test]
fn comm_bytes_become_their_own_character_codes() {
    let s = comm_string(&vec![b'a', 0, 0xc3]);
    let chars: Vec<char> = s.chars().collect();
    assert_eq!(chars, vec!['a', '\u{0}', '\u{c3}']);
}

#[test]
fn line_matches_expected_pattern() {
    let line = render_line("12:34:56", &event(100, 105, 200, 15, "shellproc"));
    assert_eq!(
        line,
        "12:34:56 PID 100(shellproc\u{0}\u{0}\u{0}\u{0}\u{0}\u{0}\u{0}) -> 200, SIG 15"
    );
}

#[test]
fn line_renders_group_targets_signed() {
    let line = render_line("00:00:00", &event(1, 1, -4242, 9, "kern"));
    assert_eq!(
        line,
        "00:00:00 PID 1(kern\u{0}\u{0}\u{0}\u{0}\u{0}\u{0}\u{0}\u{0}\u{0}\u{0}\u{0}\u{0}) -> -4242, SIG 9"
    );
}

#[test]
fn reported_line_starts_with_the_clock() {
    let line = report_line(&event(100, 105, 200, 15, "shellproc"));
    let tail = "12:34:56 PID 100(shellproc\u{0}\u{0}\u{0}\u{0}\u{0}\u{0}\u{0}) -> 200, SIG 15"
        .strip_prefix("12:34:56")
        .unwrap()
        .to_string();
    assert_eq!(line.len(), 8 + tail.len());
    assert_eq!(&line[8..], tail);
    let clock = &line[..8];
    let clock_bytes = clock.as_bytes();
    assert_eq!(clock_bytes[2], b':');
    assert_eq!(clock_bytes[5], b':');
    for i in [0, 1, 3, 4, 6, 7] {
        assert!(clock_bytes[i].is_ascii_digit());
    }
}
