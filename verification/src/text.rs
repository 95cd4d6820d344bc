//! Text of the wire protocol: trimming what a peer sent and composing the
//! line that the other peers receive.

use vstd::prelude::*;
use vstd::string::StringExecFns;

verus! {

/// Whether `c` has the Unicode property White_Space.
pub open spec fn is_white_space(c: char) -> bool {
    let n: u32 = c as u32;
    ||| 0x09 <= n <= 0x0D
    ||| n == 0x20
    ||| n == 0x85
    ||| n == 0xA0
    ||| n == 0x1680
    ||| 0x2000 <= n <= 0x200A
    ||| n == 0x2028
    ||| n == 0x2029
    ||| n == 0x202F
    ||| n == 0x205F
    ||| n == 0x3000
}

/// `s` without its leading white space.
pub open spec fn trim_start(s: Seq<char>) -> Seq<char>
    decreases s.len(),
{
    if s.len() > 0 && is_white_space(s.first()) {
        trim_start(s.drop_first())
    } else {
        s
    }
}

/// `s` without its trailing white space.
pub open spec fn trim_end(s: Seq<char>) -> Seq<char>
    decreases s.len(),
{
    if s.len() > 0 && is_white_space(s.last()) {
        trim_end(s.drop_last())
    } else {
        s
    }
}

/// `s` without its leading and trailing white space.
pub open spec fn trimmed(s: Seq<char>) -> Seq<char> {
    trim_end(trim_start(s))
}

/// `str::trim` returns the slice that is left when the leading and the
/// trailing characters with the property White_Space are removed.
pub assume_specification[ str::trim ](s: &str) -> (r: &str)
    ensures
        r@ == trimmed(s@),
;

/// The text of `s` between its leading and trailing white space.
pub fn trim_line(s: &str) -> (r: String)
    ensures
        r@ == trimmed(s@),
{
    String::from_str(s.trim())
}

/// The line that a peer receives: the stamp, the sender's name and the text,
/// as `stamp name > text`, ended by a line feed.
pub open spec fn line_text(stamp: Seq<char>, name: Seq<char>, text: Seq<char>) -> Seq<char> {
    stamp + seq![' '] + name + seq![' ', '>', ' '] + text + seq!['\n']
}

/// Composes the line that relays `text` from the peer called `name`: one
/// line of the wire protocol, its line feed included.
pub fn format_line(stamp: &str, name: &str, text: &str) -> (line: String)
    ensures
        line@ == line_text(stamp@, name@, text@),
{
    proof {
        reveal_strlit(" ");
        reveal_strlit(" > ");
        reveal_strlit("\n");
    }
    let mut line = String::from_str(stamp);
    line.append(" ");
    line.append(name);
    line.append(" > ");
    line.append(text);
    line.append("\n");
    assert(" "@ =~= seq![' ']);
    assert(" > "@ =~= seq![' ', '>', ' ']);
    assert("\n"@ =~= seq!['\n']);
    line
}

/// Whether `c` is one of the ten decimal digits.
pub open spec fn is_digit(c: char) -> bool {
    0x30 <= c as u32 <= 0x39
}

/// The number that the two decimal digits `tens` and `ones` write.
pub open spec fn two_digits(tens: char, ones: char) -> int {
    10 * (tens as u32 - 0x30) + (ones as u32 - 0x30)
}

/// Whether `s` is a time of day written as `[HH:MM:SS]`: ten characters,
/// an hour below 24, a minute below 60 and a second of at most 60.
pub open spec fn is_clock_stamp(s: Seq<char>) -> bool {
    &&& s.len() == 10
    &&& s[0] == '['
    &&& s[3] == ':'
    &&& s[6] == ':'
    &&& s[9] == ']'
    &&& is_digit(s[1]) && is_digit(s[2])
    &&& is_digit(s[4]) && is_digit(s[5])
    &&& is_digit(s[7]) && is_digit(s[8])
    &&& two_digits(s[1], s[2]) < 24
    &&& two_digits(s[4], s[5]) < 60
    &&& two_digits(s[7], s[8]) <= 60
}

/// Whether `line` relays `text` from `name` under some time of day: the
/// stamp, then ` name > text`, then a line feed.
pub open spec fn is_relayed_line(line: Seq<char>, name: Seq<char>, text: Seq<char>) -> bool {
    &&& line.len() >= 10
    &&& is_clock_stamp(line.take(10))
    &&& line == line_text(line.take(10), name, text)
}

/// chrono's `Local::now` reads the system clock in the local time zone, and
/// `DateTime::format` with the pattern `[%H:%M:%S]` writes its hour (00 to
/// 23), minute (00 to 59) and second (00 to 60), each zero-padded to two
/// digits, between the brackets and colons of the pattern. Nothing is
/// claimed of which time comes back. `Local::now` panics where the system
/// clock stands before the year 1970.
#[verifier::external_body]
fn local_time_text(pattern: &str) -> (text: String)
    requires
        pattern@ == "[%H:%M:%S]"@,
    ensures
        is_clock_stamp(text@),
{
    chrono::Local::now().format(pattern).to_string()
}

/// The local time of day as `[HH:MM:SS]`, read now.
pub fn clock_stamp() -> (stamp: String)
    ensures
        is_clock_stamp(stamp@),
{
    local_time_text("[%H:%M:%S]")
}

/// Composes the line that relays `text` from `name` at the present time.
pub fn relay_line(name: &str, text: &str) -> (line: String)
    ensures
        is_relayed_line(line@, name@, text@),
{
    let stamp = clock_stamp();
    let line = format_line(stamp.as_str(), name, text);
    assert(line@.take(10) =~= stamp@);
    line
}

} // verus!
