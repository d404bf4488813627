//! Text that the orchestrator reads and writes: the request line of an HTTP
//! header block, and the address of a stream.
use crate::wire::push_char;
use vstd::prelude::*;
use vstd::std_specs::iter::IteratorSpec;
use vstd::string::StringExecFns;
use vstd::slice::slice_subrange;

verus! {

/// Whether a character is white space by Unicode's `White_Space` property.
pub open spec fn is_space(c: char) -> bool {
    let v = c as u32;
    (0x09 <= v <= 0x0d) || v == 0x20 || v == 0x85 || v == 0xa0 || v == 0x1680 || (0x2000 <= v
        <= 0x200a) || v == 0x2028 || v == 0x2029 || v == 0x202f || v == 0x205f || v == 0x3000
}

/// The first position from `i` on that holds no white space, or the end.
pub open spec fn skip_space(s: Seq<char>, i: int) -> int
    decreases s.len() - i,
{
    if 0 <= i < s.len() && is_space(s[i]) {
        skip_space(s, i + 1)
    } else {
        i
    }
}

/// The first position from `i` on that holds white space, or the end.
pub open spec fn skip_word(s: Seq<char>, i: int) -> int
    decreases s.len() - i,
{
    if 0 <= i < s.len() && !is_space(s[i]) {
        skip_word(s, i + 1)
    } else {
        i
    }
}

/// The first position from `i` on that holds a line feed, or the end.
pub open spec fn line_end(s: Seq<char>, i: int) -> int
    decreases s.len() - i,
{
    if 0 <= i < s.len() && s[i] != '\n' {
        line_end(s, i + 1)
    } else {
        i
    }
}

/// The second word of a line, where words are runs of characters that are
/// not white space; empty when the line has fewer than two words.
pub open spec fn second_word(line: Seq<char>) -> Seq<char> {
    let first = skip_space(line, 0);
    let gap = skip_word(line, first);
    let second = skip_space(line, gap);
    line.subrange(second, skip_word(line, second))
}

/// The request path of a header block: the second word of its first line.
pub open spec fn request_path(headers: Seq<char>) -> Seq<char> {
    second_word(headers.take(line_end(headers, 0)))
}

/// The decimal digits of a number, without leading zeros.
pub open spec fn decimal(n: nat) -> Seq<char>
    decreases n,
{
    if n < 10 {
        seq![(0x30 + n) as char]
    } else {
        decimal(n / 10).push((0x30 + n % 10) as char)
    }
}

/// The address of a stream: `http://a.b.c.d:port` and the request path.
pub open spec fn location_of(ip: Seq<u8>, port: u16, path: Seq<char>) -> Seq<char>
    recommends
        ip.len() == 4,
{
    seq!['h', 't', 't', 'p', ':', '/', '/'] + decimal(ip[0] as nat) + seq!['.'] + decimal(
        ip[1] as nat,
    ) + seq!['.'] + decimal(ip[2] as nat) + seq!['.'] + decimal(ip[3] as nat) + seq![':']
        + decimal(port as nat) + path
}

fn space(c: char) -> (yes: bool)
    ensures
        yes == is_space(c),
{
    let v: u32 = c as u32;
    (0x09 <= v && v <= 0x0d) || v == 0x20 || v == 0x85 || v == 0xa0 || v == 0x1680 || (0x2000 <= v
        && v <= 0x200a) || v == 0x2028 || v == 0x2029 || v == 0x202f || v == 0x205f || v == 0x3000
}

fn past_space(s: &[char], from: usize) -> (at: usize)
    requires
        from <= s@.len(),
    ensures
        at == skip_space(s@, from as int),
        from <= at <= s@.len(),
{
    let mut at: usize = from;
    while at < s.len() && space(s[at])
        invariant
            from <= at <= s@.len(),
            skip_space(s@, from as int) == skip_space(s@, at as int),
        decreases s@.len() - at,
    {
        at = at + 1;
    }
    at
}

fn past_word(s: &[char], from: usize) -> (at: usize)
    requires
        from <= s@.len(),
    ensures
        at == skip_word(s@, from as int),
        from <= at <= s@.len(),
{
    let mut at: usize = from;
    while at < s.len() && !space(s[at])
        invariant
            from <= at <= s@.len(),
            skip_word(s@, from as int) == skip_word(s@, at as int),
        decreases s@.len() - at,
    {
        at = at + 1;
    }
    at
}

fn past_line(s: &[char]) -> (at: usize)
    ensures
        at == line_end(s@, 0),
        at <= s@.len(),
{
    let mut at: usize = 0;
    while at < s.len() && s[at] != '\n'
        invariant
            at <= s@.len(),
            line_end(s@, 0) == line_end(s@, at as int),
        decreases s@.len() - at,
    {
        at = at + 1;
    }
    at
}

/// The characters of a text, one by one.
pub fn chars_of(text: &str) -> (chars: Vec<char>)
    ensures
        chars@ == text@,
{
    let mut rest = text.chars();
    let mut chars: Vec<char> = Vec::new();
    loop
        invariant
            chars@ + rest.remaining() == text@,
            rest.decrease() is Some,
        decreases rest.decrease()->0,
    {
        let ghost before = rest.remaining();
        let ghost taken = chars@;
        match rest.next() {
            Some(c) => {
                chars.push(c);
                assert(chars@ + rest.remaining() =~= taken + before) by {
                    assert(before =~= seq![c] + before.drop_first());
                }
            },
            None => {
                assert(chars@ + rest.remaining() =~= chars@);
                return chars;
            },
        }
    }
}

/// The text made of the characters of `s` from `from` up to `to`.
fn text_between(s: &[char], from: usize, to: usize) -> (text: String)
    requires
        from <= to <= s@.len(),
    ensures
        text@ == s@.subrange(from as int, to as int),
{
    let mut text = String::new();
    let mut i: usize = from;
    while i < to
        invariant
            from <= i <= to <= s@.len(),
            text@ == s@.subrange(from as int, i as int),
        decreases to - i,
    {
        push_char(&mut text, s[i]);
        i = i + 1;
        assert(text@ =~= s@.subrange(from as int, i as int));
    }
    text
}

/// The request path of an HTTP header block: the second word of its first
/// line, or the empty text when that line has fewer than two words.
pub fn path_of(headers: &str) -> (path: String)
    ensures
        path@ == request_path(headers@),
{
    let chars = chars_of(headers);
    let end = past_line(chars.as_slice());
    let line = slice_subrange(chars.as_slice(), 0, end);
    assert(line@ =~= headers@.take(end as int));
    let first = past_space(line, 0);
    let gap = past_word(line, first);
    let second = past_space(line, gap);
    let stop = past_word(line, second);
    text_between(line, second, stop)
}

/// Appends the decimal digits of `n`.
pub fn push_decimal(text: &mut String, n: u16)
    ensures
        final(text)@ == old(text)@ + decimal(n as nat),
    decreases n,
{
    if n >= 10 {
        push_decimal(text, n / 10);
    }
    let digit: u8 = 0x30 + (n % 10) as u8;
    push_char(text, digit as char);
    assert(final(text)@ =~= old(text)@ + decimal(n as nat));
}

/// The address of a stream on the given host and port.
pub fn location(ip: &[u8; 4], port: u16, path: &str) -> (url: String)
    ensures
        url@ == location_of(ip@, port, path@),
{
    let mut url = String::new();
    push_char(&mut url, 'h');
    push_char(&mut url, 't');
    push_char(&mut url, 't');
    push_char(&mut url, 'p');
    push_char(&mut url, ':');
    push_char(&mut url, '/');
    push_char(&mut url, '/');
    push_decimal(&mut url, ip[0] as u16);
    push_char(&mut url, '.');
    push_decimal(&mut url, ip[1] as u16);
    push_char(&mut url, '.');
    push_decimal(&mut url, ip[2] as u16);
    push_char(&mut url, '.');
    push_decimal(&mut url, ip[3] as u16);
    push_char(&mut url, ':');
    push_decimal(&mut url, port);
    url.append(path);
    assert(url@ =~= location_of(ip@, port, path@));
    url
}

} // verus!
