use vstd::prelude::*;

verus! {

/// The text that opens the handshake line, followed by the port.
pub open spec fn handshake_prefix() -> Seq<char> {
    seq!['S', 'E', 'R', 'V', 'E', 'R', '_', 'P', 'O', 'R', 'T', '=']
}

pub open spec fn has_handshake_prefix(t: Seq<char>) -> bool {
    t.len() >= handshake_prefix().len() && t.subrange(0, handshake_prefix().len() as int)
        == handshake_prefix()
}

/// What follows the handshake prefix on a line that has it.
pub open spec fn handshake_suffix(t: Seq<char>) -> Seq<char> {
    t.subrange(handshake_prefix().len() as int, t.len() as int)
}

/// The port that a (decoded, trimmed) stdout line announces, if it is a
/// well-formed handshake line.
pub open spec fn announced_port(t: Seq<char>) -> Option<u16> {
    if has_handshake_prefix(t) {
        port_of_text(handshake_suffix(t))
    } else {
        None
    }
}

/// How a line of the child's standard output is read.
pub enum LineKind {
    /// `SERVER_PORT=<port>` with a valid port.
    Handshake(u16),
    /// `SERVER_PORT=` followed by text that is no valid port (that text).
    MalformedPort(String),
    /// Any other line, kept as it is.
    Diagnostic(String),
}

/// The value of a digit character, `'0'` to `'9'`.
pub open spec fn digit_value(c: char) -> int {
    c as int - '0' as int
}

pub open spec fn is_digit(c: char) -> bool {
    '0' <= c && c <= '9'
}

pub open spec fn all_digits(s: Seq<char>) -> bool {
    forall|i: int| 0 <= i < s.len() ==> is_digit(#[trigger] s[i])
}

/// The number that a sequence of decimal digits denotes, most significant first.
pub open spec fn decimal_value(s: Seq<char>) -> int
    decreases s.len(),
{
    if s.len() == 0 {
        0
    } else {
        10 * decimal_value(s.drop_last()) + digit_value(s.last())
    }
}

/// The digits of an optionally `+`-signed decimal numeral.
pub open spec fn unsigned_digits(s: Seq<char>) -> Seq<char> {
    if s.len() > 0 && s[0] == '+' {
        s.drop_first()
    } else {
        s
    }
}

/// A port number written in decimal: an optional `+`, then one or more digits
/// (leading zeros allowed) whose value is at most 65535.
pub open spec fn port_of_text(s: Seq<char>) -> Option<u16> {
    let d = unsigned_digits(s);
    if d.len() > 0 && all_digits(d) && decimal_value(d) <= 65535 {
        Some(decimal_value(d) as u16)
    } else {
        None
    }
}

proof fn lemma_decimal_value_nonneg(s: Seq<char>)
    requires
        all_digits(s),
    ensures
        decimal_value(s) >= 0,
    decreases s.len(),
{
    if s.len() > 0 {
        lemma_decimal_value_nonneg(s.drop_last());
    }
}

/// A value that has passed 65535 stays past it when more digits follow.
proof fn lemma_capped_step(v: int, d: int)
    requires
        v >= 0,
        0 <= d <= 9,
    ensures
        (if 10 * v + d > 65535 { 65536 } else { 10 * v + d }) == (if 10 * (if v > 65535 {
            65536
        } else {
            v
        }) + d > 65535 {
            65536
        } else {
            10 * (if v > 65535 {
                65536
            } else {
                v
            }) + d
        }),
{
}

pub open spec fn digit_chars() -> Seq<char> {
    seq!['0', '1', '2', '3', '4', '5', '6', '7', '8', '9']
}

/// A natural number written in decimal, without sign or leading zeros.
pub open spec fn decimal_text(n: nat) -> Seq<char>
    decreases n,
{
    if n < 10 {
        seq![digit_chars()[n as int]]
    } else {
        decimal_text(n / 10).push(digit_chars()[(n % 10) as int])
    }
}

/// The handshake line that announces port `p`: `SERVER_PORT=` and `p` in decimal.
pub open spec fn handshake_line(p: u16) -> Seq<char> {
    handshake_prefix() + decimal_text(p as nat)
}

proof fn lemma_digit_chars(d: int)
    requires
        0 <= d < 10,
    ensures
        is_digit(digit_chars()[d]),
        digit_value(digit_chars()[d]) == d,
{
}

proof fn lemma_decimal_text(n: nat)
    ensures
        decimal_text(n).len() > 0,
        all_digits(decimal_text(n)),
        decimal_value(decimal_text(n)) == n,
    decreases n,
{
    let s = decimal_text(n);
    if n < 10 {
        lemma_digit_chars(n as int);
        assert(s.drop_last() =~= Seq::<char>::empty());
        assert(decimal_value(s.drop_last()) == 0);
        assert(s.last() == digit_chars()[n as int]);
    } else {
        lemma_decimal_text(n / 10);
        lemma_digit_chars((n % 10) as int);
        assert(s.drop_last() =~= decimal_text(n / 10));
        assert(s.last() == digit_chars()[(n % 10) as int]);
        assert(n == 10 * (n / 10) + n % 10);
        assert forall|i: int| 0 <= i < s.len() implies is_digit(#[trigger] s[i]) by {
            if i < s.len() - 1 {
                assert(s[i] == decimal_text(n / 10)[i]);
            }
        }
    }
}

/// A port written in decimal reads back as the same port.
pub proof fn lemma_port_text_round_trip(p: u16)
    ensures
        port_of_text(decimal_text(p as nat)) == Some(p),
{
    lemma_decimal_text(p as nat);
    let s = decimal_text(p as nat);
    assert(is_digit(s[0]));
    assert(unsigned_digits(s) == s);
}

/// The line `SERVER_PORT=p` announces port `p`, for every port.
pub proof fn lemma_handshake_line_announces(p: u16)
    ensures
        announced_port(handshake_line(p)) == Some(p),
{
    let t = handshake_line(p);
    lemma_port_text_round_trip(p);
    assert(t.subrange(0, handshake_prefix().len() as int) =~= handshake_prefix());
    assert(handshake_suffix(t) =~= decimal_text(p as nat));
}

/// Parses a port number written in decimal, as `u16::from_str` does: an
/// optional `+` sign followed by one or more digits, the value at most 65535.
pub fn parse_port(s: &str) -> (r: Option<u16>)
    ensures
        r == port_of_text(s@),
{
    let len = s.unicode_len();
    let mut start: usize = 0;
    if len > 0 && s.get_char(0) == '+' {
        start = 1;
    }
    let ghost d = unsigned_digits(s@);
    assert(d == s@.subrange(start as int, len as int));
    if start == len {
        return None;
    }
    // the value of the digits read so far, capped at 65536
    let mut acc: u32 = 0;
    let mut i: usize = start;
    while i < len
        invariant
            start <= i <= len,
            len == s@.len(),
            d == unsigned_digits(s@),
            d == s@.subrange(start as int, len as int),
            all_digits(s@.subrange(start as int, i as int)),
            acc == (if decimal_value(s@.subrange(start as int, i as int)) > 65535 {
                65536
            } else {
                decimal_value(s@.subrange(start as int, i as int))
            }),
        decreases len - i,
    {
        let c = s.get_char(i);
        if !('0' <= c && c <= '9') {
            assert(d[i - start] == c);
            assert(!all_digits(d));
            return None;
        }
        let ghost prev = s@.subrange(start as int, i as int);
        let ghost next = s@.subrange(start as int, i + 1);
        assert(next.drop_last() == prev);
        assert(next.last() == c);
        proof {
            lemma_decimal_value_nonneg(prev);
            lemma_capped_step(decimal_value(prev), digit_value(c));
        }
        let digit = (c as u32) - ('0' as u32);
        let v = acc * 10 + digit;
        acc = if v > 65535 { 65536 } else { v };
        i = i + 1;
    }
    assert(s@.subrange(start as int, i as int) == d);
    if acc > 65535 {
        None
    } else {
        Some(acc as u16)
    }
}

/// Classifies a decoded, trimmed line of the child's standard output against
/// the handshake `SERVER_PORT=<port>`.
pub fn classify_stdout(t: &str) -> (r: LineKind)
    ensures
        match r {
            LineKind::Handshake(p) => has_handshake_prefix(t@) && announced_port(t@) == Some(p),
            LineKind::MalformedPort(s) => has_handshake_prefix(t@) && announced_port(t@) is None
                && s@ == handshake_suffix(t@),
            LineKind::Diagnostic(s) => !has_handshake_prefix(t@) && s@ == t@,
        },
{
    let prefix = "SERVER_PORT=";
    proof {
        reveal_strlit("SERVER_PORT=");
    }
    assert(prefix@ == handshake_prefix());
    let n = prefix.unicode_len();
    let len = t.unicode_len();
    let mut matches = n <= len;
    let mut i: usize = 0;
    while matches && i < n
        invariant
            n == handshake_prefix().len(),
            prefix@ == handshake_prefix(),
            len == t@.len(),
            i <= n,
            matches ==> n <= len,
            matches ==> t@.subrange(0, i as int) == handshake_prefix().subrange(0, i as int),
            !matches ==> !has_handshake_prefix(t@),
        decreases n - i + (if matches { 1int } else { 0int }),
    {
        if t.get_char(i) != prefix.get_char(i) {
            assert(t@.subrange(0, n as int)[i as int] != handshake_prefix()[i as int]);
            matches = false;
        } else {
            assert(t@.subrange(0, i + 1) == t@.subrange(0, i as int).push(t@[i as int]));
            assert(handshake_prefix().subrange(0, i + 1) == handshake_prefix().subrange(
                0,
                i as int,
            ).push(handshake_prefix()[i as int]));
            i = i + 1;
        }
    }
    if !matches {
        return LineKind::Diagnostic(t.to_owned());
    }
    assert(handshake_prefix().subrange(0, n as int) == handshake_prefix());
    let suffix = t.substring_char(n, len);
    match parse_port(suffix) {
        Some(p) => LineKind::Handshake(p),
        None => LineKind::MalformedPort(suffix.to_owned()),
    }
}

} // verus!
