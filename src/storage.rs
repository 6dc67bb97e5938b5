//! The activity log: timestamped lines, of which only the most recent are
//! kept.
use vstd::prelude::*;
use vstd::string::*;
use crate::book::bounded;
use crate::notifier::string_views;

verus! {

pub open spec fn is_digit(c: char) -> bool {
    '0' <= c <= '9'
}

/// The form of a UTC stamp `%Y-%m-%dT%H:%M:%S`: a year of at least four
/// digits (a `+` before years past 9999), then `-MM-DDTHH:MM:SS`.
pub open spec fn stamp_shape(s: Seq<char>) -> bool {
    let n = s.len() as int;
    &&& n >= 19
    &&& forall|i: int| 0 <= i < n - 15 ==> is_digit(#[trigger] s[i]) || (i == 0 && s[i] == '+')
    &&& s[n - 15] == '-' && s[n - 12] == '-' && s[n - 9] == 'T' && s[n - 6] == ':' && s[n - 3]
        == ':'
    &&& is_digit(s[n - 14]) && is_digit(s[n - 13]) && is_digit(s[n - 11]) && is_digit(s[n - 10])
    &&& is_digit(s[n - 8]) && is_digit(s[n - 7]) && is_digit(s[n - 5]) && is_digit(s[n - 4])
    &&& is_digit(s[n - 2]) && is_digit(s[n - 1])
}

/// Relies on `chrono::Utc::now` and its `format` with `%Y-%m-%dT%H:%M:%S`: the
/// time is never before 1970, so the year has four digits, or a `+` and more
/// digits past 9999; every other field has two digits.
#[verifier::external_body]
fn utc_stamp() -> (r: String)
    ensures
        stamp_shape(r@),
{
    chrono::Utc::now().format("%Y-%m-%dT%H:%M:%S").to_string()
}

/// One log line: the stamp, a separator, the text and a line break.
pub open spec fn stamped(stamp: Seq<char>, line: Seq<char>) -> Seq<char> {
    stamp + " - "@ + line + "\n"@
}

/// The log line for `log_line` written at time `stamp`.
pub fn timestamp_line(stamp: &str, log_line: &str) -> (r: String)
    ensures
        r@ == stamped(stamp@, log_line@),
{
    let mut s = String::from_str(stamp);
    s.append(" - ");
    s.append(log_line);
    s.append("\n");
    s
}

/// The log line for `log_line`, stamped with the current time.
pub fn timestamp_log(log_line: &str) -> (r: String)
    ensures
        exists|stamp: Seq<char>| stamp_shape(stamp) && r@ == stamped(stamp, log_line@),
{
    let stamp = utc_stamp();
    timestamp_line(stamp.as_str(), log_line)
}

/// What `str::lines` yields for `s`: the lines, without their terminators.
pub uninterp spec fn lines_of(s: Seq<char>) -> Seq<Seq<char>>;

/// Relies on `str::lines`.
#[verifier::external_body]
fn split_lines(s: &str) -> (r: Vec<String>)
    ensures
        string_views(r@) == lines_of(s@),
{
    s.lines().map(|l| l.to_string()).collect()
}

/// The lines put back together, each followed by a line break.
pub open spec fn terminated(lines: Seq<Seq<char>>) -> Seq<char>
    decreases lines.len(),
{
    if lines.len() == 0 {
        Seq::empty()
    } else {
        terminated(lines.drop_last()) + lines.last() + "\n"@
    }
}

fn join_from(lines: &Vec<String>, start: usize) -> (r: String)
    requires
        start <= lines@.len(),
    ensures
        r@ == terminated(string_views(lines@).subrange(start as int, lines@.len() as int)),
{
    let ghost v = string_views(lines@);
    let mut out = String::new();
    let mut i: usize = start;
    assert(v.subrange(start as int, start as int) =~= Seq::<Seq<char>>::empty());
    while i < lines.len()
        invariant
            start <= i <= lines@.len(),
            v == string_views(lines@),
            out@ == terminated(v.subrange(start as int, i as int)),
        decreases lines@.len() - i,
    {
        assert(v.subrange(start as int, i + 1).drop_last() =~= v.subrange(start as int, i as int));
        out.append(lines[i].as_str());
        out.append("\n");
        i = i + 1;
    }
    out
}

/// The log `content` with `entry` appended, keeping only its last `max_lines`
/// lines when it holds more; every kept line then ends with a line break, so
/// the next entry starts a line of its own.
pub fn bound_log(content: &str, entry: &str, max_lines: u32) -> (r: String)
    ensures
        r@ == if lines_of(content@ + entry@).len() > max_lines {
            terminated(bounded(lines_of(content@ + entry@), max_lines as nat))
        } else {
            content@ + entry@
        },
{
    let mut text = String::from_str(content);
    text.append(entry);
    let lines = split_lines(text.as_str());
    if lines.len() > max_lines as usize {
        let r = join_from(&lines, lines.len() - max_lines as usize);
        assert(string_views(lines@).subrange(
            lines@.len() - max_lines,
            lines@.len() as int,
        ) =~= bounded(lines_of(content@ + entry@), max_lines as nat));
        r
    } else {
        text
    }
}

} // verus!
