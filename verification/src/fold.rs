use vstd::prelude::*;
use vstd::string::StrSliceExecFns;

verus! {

/// ASCII case folding of one character: uppercase ASCII letters map to the
/// corresponding lowercase letter, every other character is unchanged.
pub open spec fn ascii_lower_char(c: char) -> char {
    if 65 <= c as int && c as int <= 90 {
        (((c as u8) + 32) as u8) as char
    } else {
        c
    }
}

/// ASCII case folding of a whole line, character by character.
pub open spec fn fold_line(s: Seq<char>) -> Seq<char> {
    s.map_values(|c: char| ascii_lower_char(c))
}

/// The first `max` characters of `s`, or all of `s` when it is short enough.
pub open spec fn clip(s: Seq<char>, max: nat) -> Seq<char> {
    if s.len() <= max {
        s
    } else {
        s.take(max as int)
    }
}

/// The reported text for a matching line: the ASCII-case-folded line,
/// truncated to at most `max` characters.
pub open spec fn finding_text(line: Seq<char>, max: nat) -> Seq<char> {
    clip(fold_line(line), max)
}

/// Truncation law: a folded line longer than the limit is cut to exactly the
/// first `max` characters of the folded line; a short one is kept whole.
/// Folding maps characters one for one, so the folded line is as long as the
/// original.
pub proof fn lemma_truncation(line: Seq<char>, max: nat)
    ensures
        fold_line(line).len() == line.len(),
        line.len() > max ==> finding_text(line, max) == fold_line(line).take(max as int)
            && finding_text(line, max).len() == max,
        line.len() <= max ==> finding_text(line, max) == fold_line(line),
{
}

/// Relies on `String::push`: appends the one character to the end.
#[verifier::external_body]
pub(crate) fn push_char(s: &mut String, c: char)
    ensures
        final(s)@ == old(s)@.push(c),
{
    s.push(c);
}

/// ASCII case folding of one character, executable form.
pub fn lower_char(c: char) -> (r: char)
    ensures
        r == ascii_lower_char(c),
{
    let u = c as u32;
    if 65 <= u && u <= 90 {
        ((c as u8) + 32) as char
    } else {
        c
    }
}

/// Builds the reported text for a matching line: folds the line to ASCII
/// lowercase and truncates it to at most `max` characters.
pub fn fold_clip(line: &str, max: usize) -> (r: String)
    ensures
        r@ == finding_text(line@, max as nat),
{
    let n = line.unicode_len();
    let limit = if n < max {
        n
    } else {
        max
    };
    let mut r = String::new();
    let mut i: usize = 0;
    while i < limit
        invariant
            i <= limit,
            limit <= n,
            n == line@.len(),
            limit == if n < max {
                n as int
            } else {
                max as int
            },
            r@ == fold_line(line@).take(i as int),
        decreases limit - i,
    {
        let c = line.get_char(i);
        let lc = lower_char(c);
        push_char(&mut r, lc);
        proof {
            assert(fold_line(line@).take(i + 1) =~= fold_line(line@).take(i as int).push(
                ascii_lower_char(line@[i as int]),
            ));
        }
        i += 1;
    }
    proof {
        assert(fold_line(line@).take(limit as int) =~= finding_text(line@, max as nat));
    }
    r
}

} // verus!
