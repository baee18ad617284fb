//! Verified construction of the engine's outbound message texts: decimal
//! rendering of sampled values and the fixed lines the fan-outs send.
use vstd::prelude::*;
use vstd::string::*;

verus! {

/// The character for a single decimal digit.
pub open spec fn dec_digit(d: nat) -> char
    recommends
        d < 10,
{
    (((48 + d) as u8) as char)
}

/// The decimal digits of `n`, most significant first, with no leading zeros
/// (a single `'0'` for zero).
pub open spec fn dec_seq(n: nat) -> Seq<char>
    decreases n,
{
    if n < 10 {
        seq![dec_digit(n)]
    } else {
        dec_seq(n / 10).push(dec_digit(n % 10))
    }
}

/// Relies on std's String::push: appends the given character to the end of
/// the string.
pub assume_specification[ String::push ](s: &mut String, c: char)
    ensures
        final(s)@ == old(s)@.push(c),
;

fn digit_char(d: u64) -> (c: char)
    requires
        d < 10,
    ensures
        c == dec_digit(d as nat),
{
    (48 + d as u8) as char
}

/// Renders a value in decimal.
pub fn u64_to_string(n: u64) -> (s: String)
    ensures
        s@ == dec_seq(n as nat),
    decreases n,
{
    if n < 10 {
        let mut s = String::new();
        s.push(digit_char(n));
        assert(s@ =~= seq![dec_digit(n as nat)]);
        s
    } else {
        let mut s = u64_to_string(n / 10);
        s.push(digit_char(n % 10));
        s
    }
}

/// The text of a threshold notification: `"<source>: <value> Gwei\n"`.
pub open spec fn gas_line_seq(source: Seq<char>, value: nat) -> Seq<char> {
    source + ": "@ + dec_seq(value) + " Gwei\n"@
}

/// Builds the one-line threshold notification for one source and one sampled
/// value.
pub fn gas_line(source: &String, value: u64) -> (r: String)
    ensures
        r@ == gas_line_seq(source@, value as nat),
{
    let head = source.clone();
    let head = head.concat(": ");
    let num = u64_to_string(value);
    let head = head.concat(num.as_str());
    let r = head.concat(" Gwei\n");
    assert(r@ =~= gas_line_seq(source@, value as nat));
    r
}

/// The fixed follow-up line of the daily broadcast, telling the recipient how
/// to opt out.
pub open spec fn reminder_seq() -> Seq<char> {
    "\n Для отключения уведомлений напишите /notify"@
}

/// Builds the fixed opt-out reminder that follows every daily report.
pub fn reminder_line() -> (r: String)
    ensures
        r@ == reminder_seq(),
{
    String::from_str("\n Для отключения уведомлений напишите /notify")
}

/// The reply confirming a stored threshold, naming the source and the level.
pub open spec fn threshold_feedback_seq(source: Seq<char>, gwei: nat) -> Seq<char> {
    "Уведомления для сети "@ + source + " успешно установлены на "@ + dec_seq(gwei) + " gwei"@
}

/// Builds the reply confirming a stored threshold.
pub fn threshold_feedback(source: &String, gwei: u32) -> (r: String)
    ensures
        r@ == threshold_feedback_seq(source@, gwei as nat),
{
    let head = String::from_str("Уведомления для сети ");
    let head = head.concat(source.as_str());
    let head = head.concat(" успешно установлены на ");
    let num = u64_to_string(gwei as u64);
    let head = head.concat(num.as_str());
    let r = head.concat(" gwei");
    assert(r@ =~= threshold_feedback_seq(source@, gwei as nat));
    r
}

/// The reply when a threshold names no supported source.
pub open spec fn unsupported_source_seq() -> Seq<char> {
    "Данный блокчейн не поддерживаеться"@
}

/// Builds the unsupported-source reply.
pub fn unsupported_source_line() -> (r: String)
    ensures
        r@ == unsupported_source_seq(),
{
    String::from_str("Данный блокчейн не поддерживаеться")
}

/// ASCII-lowercases one character; other characters are untouched.
pub open spec fn lower_char(c: char) -> char {
    if 65 <= c as u32 <= 90 {
        ((c as u32 + 32) as u8) as char
    } else {
        c
    }
}

/// A character sequence with every ASCII letter lowercased.
pub open spec fn lower_seq(s: Seq<char>) -> Seq<char> {
    s.map_values(|c: char| lower_char(c))
}

fn lower_char_exec(c: char) -> (r: char)
    ensures
        r == lower_char(c),
{
    let u = c as u32;
    if 65 <= u && u <= 90 {
        ((u + 32) as u8) as char
    } else {
        c
    }
}

/// ASCII-lowercases a string, so that source-name aliases can be recognised
/// whatever the sender's capitalisation.
pub fn ascii_lower(s: &String) -> (r: String)
    ensures
        r@ == lower_seq(s@),
{
    let n = s.as_str().unicode_len();
    let mut r = String::new();
    let mut i: usize = 0;
    while i < n
        invariant
            n == s@.len(),
            i <= n,
            r@ == lower_seq(s@.subrange(0, i as int)),
        decreases n - i,
    {
        let c = s.as_str().get_char(i);
        r.push(lower_char_exec(c));
        assert(r@ =~= lower_seq(s@.subrange(0, i + 1 as int)));
        i = i + 1;
    }
    assert(s@.subrange(0, n as int) =~= s@);
    r
}

} // verus!
