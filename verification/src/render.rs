use vstd::prelude::*;
use vstd::string::StringExecFns;
use crate::event::{SignalLog, SignalLogV};

verus! {

/// The decimal digit character for one digit value.
pub open spec fn digit_char(d: int) -> char
    recommends
        0 <= d < 10,
{
    if d == 0 {
        '0'
    } else if d == 1 {
        '1'
    } else if d == 2 {
        '2'
    } else if d == 3 {
        '3'
    } else if d == 4 {
        '4'
    } else if d == 5 {
        '5'
    } else if d == 6 {
        '6'
    } else if d == 7 {
        '7'
    } else if d == 8 {
        '8'
    } else {
        '9'
    }
}

/// The decimal numeral of `n`, most significant digit first, no sign and
/// no leading zero except for the numeral of 0 itself.
pub open spec fn dec_str(n: nat) -> Seq<char>
    decreases n,
{
    if n < 10 {
        seq![digit_char(n as int)]
    } else {
        dec_str(n / 10).push(digit_char((n % 10) as int))
    }
}

/// The decimal numeral of a signed value: a leading minus when negative.
pub open spec fn dec_str_i(x: int) -> Seq<char> {
    if x >= 0 {
        dec_str(x as nat)
    } else {
        seq!['-'] + dec_str((-x) as nat)
    }
}

/// Command-name bytes rendered one for one: each raw byte becomes the
/// character with that 8-bit code.  This is deliberately not general text
/// decoding; non-ASCII names mis-render, as the observed behaviour has it.
pub open spec fn comm_chars(comm: Seq<u8>) -> Seq<char> {
    Seq::new(comm.len(), |i: int| comm[i] as char)
}

/// One console line for one decoded event: wall-clock time, sender pid and
/// command name, an arrow, target pid and signal number.
pub open spec fn render_spec(time: Seq<char>, v: SignalLogV) -> Seq<char> {
    time + " PID "@ + dec_str(v.pid as nat) + "("@ + comm_chars(v.comm) + ") -> "@ + dec_str_i(
        v.tpid as int,
    ) + ", SIG "@ + dec_str(v.tsig as nat)
}

/// Relies on std's `String::push`: appends exactly one character.
#[verifier::external_body]
fn push_char(s: &mut String, c: char)
    ensures
        final(s)@ == old(s)@.push(c),
{
    s.push(c)
}

fn digit_to_char(d: u64) -> (c: char)
    requires
        d < 10,
    ensures
        c == digit_char(d as int),
{
    if d == 0 {
        '0'
    } else if d == 1 {
        '1'
    } else if d == 2 {
        '2'
    } else if d == 3 {
        '3'
    } else if d == 4 {
        '4'
    } else if d == 5 {
        '5'
    } else if d == 6 {
        '6'
    } else if d == 7 {
        '7'
    } else if d == 8 {
        '8'
    } else {
        '9'
    }
}

/// Format an unsigned value as its decimal numeral.
pub fn u64_dec(n: u64) -> (r: String)
    ensures
        r@ == dec_str(n as nat),
{
    let mut rev: Vec<char> = Vec::new();
    let mut m: u64 = n;
    while m >= 10
        invariant
            dec_str(n as nat) == dec_str(m as nat) + rev@.reverse(),
        decreases m,
    {
        let ghost rev0 = rev@;
        let d = m % 10;
        rev.push(digit_to_char(d));
        proof {
            assert(rev@.reverse() =~= seq![digit_char(d as int)] + rev0.reverse());
            assert(dec_str(m as nat) == dec_str((m as nat) / 10).push(digit_char(d as int)));
            assert(dec_str((m / 10) as nat) + rev@.reverse() =~= dec_str(m as nat)
                + rev0.reverse());
        }
        m = m / 10;
    }
    let mut s = String::new();
    push_char(&mut s, digit_to_char(m));
    proof {
        assert(dec_str(m as nat) == seq![digit_char(m as int)]);
        assert(s@ =~= dec_str(m as nat));
    }
    let ghost suffix = rev@.reverse();
    let mut j: usize = 0;
    while j < rev.len()
        invariant
            j <= rev@.len(),
            suffix == rev@.reverse(),
            dec_str(n as nat) == dec_str(m as nat) + suffix,
            dec_str(m as nat).len() == 1,
            s@ == dec_str(m as nat) + suffix.take(j as int),
        decreases rev@.len() - j,
    {
        let ghost s0 = s@;
        let c = rev[rev.len() - 1 - j];
        push_char(&mut s, c);
        proof {
            assert(c == suffix[j as int]);
            assert(s@ =~= dec_str(m as nat) + suffix.take(j + 1));
        }
        j += 1;
    }
    proof {
        assert(suffix.take(rev@.len() as int) =~= suffix);
        assert(s@ =~= dec_str(n as nat));
    }
    s
}

/// Format a signed value as its decimal numeral.
pub fn i32_dec(x: i32) -> (r: String)
    ensures
        r@ == dec_str_i(x as int),
{
    if x >= 0 {
        u64_dec(x as u64)
    } else {
        let mag: i64 = -(x as i64);
        let mut s = String::new();
        push_char(&mut s, '-');
        let digits = u64_dec(mag as u64);
        s.append(digits.as_str());
        proof {
            assert(s@ =~= dec_str_i(x as int));
        }
        s
    }
}

/// Render the 16 command-name bytes as 16 display characters.
pub fn comm_string(comm: &Vec<u8>) -> (r: String)
    ensures
        r@ == comm_chars(comm@),
{
    let mut s = String::new();
    let mut i: usize = 0;
    while i < comm.len()
        invariant
            i <= comm@.len(),
            s@ == comm_chars(comm@).take(i as int),
        decreases comm@.len() - i,
    {
        push_char(&mut s, comm[i] as char);
        proof {
            assert(comm_chars(comm@).take(i + 1) =~= comm_chars(comm@).take(i as int).push(
                comm@[i as int] as char,
            ));
        }
        i += 1;
    }
    proof {
        assert(comm_chars(comm@).take(comm@.len() as int) =~= comm_chars(comm@));
    }
    s
}

/// Format one console line for a decoded event, with the given wall-clock
/// text in front.
pub fn render_line(time: &str, ev: &SignalLog) -> (r: String)
    ensures
        r@ == render_spec(time@, ev@),
{
    let mut s = String::from_str(time);
    s.append(" PID ");
    let pid = u64_dec(ev.pid as u64);
    s.append(pid.as_str());
    s.append("(");
    let comm = comm_string(&ev.comm);
    s.append(comm.as_str());
    s.append(") -> ");
    let tpid = i32_dec(ev.tpid);
    s.append(tpid.as_str());
    s.append(", SIG ");
    let tsig = u64_dec(ev.tsig as u64);
    s.append(tsig.as_str());
    proof {
        assert(s@ =~= render_spec(time@, ev@));
    }
    s
}

} // verus!
