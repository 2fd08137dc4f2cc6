use crate::fold::push_char;
use crate::scan::{FindingView, SearchResult};
use vstd::prelude::*;
use vstd::string::StringExecFns;

verus! {

/// The character for one decimal digit.
pub open spec fn dec_digit(d: int) -> char
    recommends
        0 <= d < 10,
{
    ((48 + d) as u8) as char
}

/// The decimal representation of a number, most significant digit first,
/// with no leading zeros (a single `0` for zero).
pub open spec fn dec_rep(n: nat) -> Seq<char>
    decreases n,
{
    if n < 10 {
        seq![dec_digit(n as int)]
    } else {
        dec_rep(n / 10).push(dec_digit((n % 10) as int))
    }
}

/// The one report line printed for a finding.
pub open spec fn rendered(f: FindingView) -> Seq<char> {
    dec_rep(f.pattern_id as nat) + " found. File: "@ + f.path + ", line: "@ + dec_rep(
        f.lineno as nat,
    ) + ", text: "@ + f.text
}

fn dec_digit_char(d: u64) -> (c: char)
    requires
        d < 10,
    ensures
        c == dec_digit(d as int),
{
    (48 + (d as u8)) as char
}

/// Writes a number in decimal, most significant digit first.
pub fn u64_to_dec(n: u64) -> (s: String)
    ensures
        s@ == dec_rep(n as nat),
    decreases n,
{
    if n < 10 {
        let mut s = String::new();
        push_char(&mut s, dec_digit_char(n));
        proof {
            assert(s@ =~= dec_rep(n as nat));
        }
        s
    } else {
        let mut s = u64_to_dec(n / 10);
        push_char(&mut s, dec_digit_char(n % 10));
        s
    }
}

/// The diagnostic line printed when a file exists but cannot be opened: the
/// run goes on, the file contributes no findings, and this one line says so.
pub open spec fn rendered_error(msg: Seq<char>) -> Seq<char> {
    "ERROR: "@ + msg
}

/// Renders the diagnostic line for a file that could not be opened.
pub fn render_error(msg: &str) -> (s: String)
    ensures
        s@ == rendered_error(msg@),
{
    let mut s = String::from_str("ERROR: ");
    s.append(msg);
    s
}

/// Renders the fixed report line for one finding, exactly as the sink
/// prints it.
pub fn render_finding(f: &SearchResult) -> (s: String)
    ensures
        s@ == rendered(f@),
{
    let mut s = u64_to_dec(f.pattern_id as u64);
    s.append(" found. File: ");
    s.append(f.path.as_str());
    s.append(", line: ");
    let num = u64_to_dec(f.lineno as u64);
    s.append(num.as_str());
    s.append(", text: ");
    s.append(f.text.as_str());
    s
}

} // verus!
