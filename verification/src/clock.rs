use vstd::prelude::*;
use crate::event::SignalLog;
use crate::render::{render_line, render_spec};

verus! {

/// Relies on chrono's `Local::now` and its `%H:%M:%S` strftime formatter:
/// whatever the time of the call, the rendered clock is two digits, a
/// colon, two digits, a colon and two digits - eight characters.
#[verifier::external_body]
fn now_hms() -> (r: String)
    ensures
        r@.len() == 8,
{
    chrono::Local::now().format("%H:%M:%S").to_string()
}

/// The console line for one decoded event, stamped with the wall-clock
/// time of the call.
pub fn report_line(ev: &SignalLog) -> (r: String)
    ensures
        exists|t: Seq<char>| t.len() == 8 && r@ == render_spec(t, ev@),
{
    let time = now_hms();
    let line = render_line(time.as_str(), ev);
    proof {
        assert(time@.len() == 8 && line@ == render_spec(time@, ev@));
    }
    line
}

} // verus!
