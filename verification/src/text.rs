//! Text handling for cue sheets and boot configurations.

use vstd::prelude::*;

verus! {

/// Whether a character is white space: the characters that have the Unicode
/// property `White_Space`.
pub open spec fn is_white(c: char) -> bool {
    let u = c as u32;
    ||| 0x09 <= u <= 0x0D
    ||| u == 0x20
    ||| u == 0x85
    ||| u == 0xA0
    ||| u == 0x1680
    ||| 0x2000 <= u <= 0x200A
    ||| u == 0x2028
    ||| u == 0x2029
    ||| u == 0x202F
    ||| u == 0x205F
    ||| u == 0x3000
}

/// A text in upper case, as `str::to_uppercase` gives it.
pub uninterp spec fn uppercased(s: Seq<char>) -> Seq<char>;

/// The text that bytes stand for, as `String::from_utf8_lossy` gives it.
pub uninterp spec fn lossy_text(bytes: Seq<u8>) -> Seq<char>;

/// The first position of `c` from `i` on, or the length if there is none.
pub open spec fn index_from(s: Seq<char>, c: char, i: int) -> int
    decreases s.len() - i,
{
    if i >= s.len() {
        s.len() as int
    } else if s[i] == c {
        i
    } else {
        index_from(s, c, i + 1)
    }
}

/// What stands before the first `c`, or everything.
pub open spec fn before(s: Seq<char>, c: char) -> Seq<char> {
    s.subrange(0, index_from(s, c, 0))
}

/// What stands between the first `c` and the next one or the end, if there is a
/// first one.
pub open spec fn second_field(s: Seq<char>, c: char) -> Option<Seq<char>> {
    let i = index_from(s, c, 0);
    if i < s.len() {
        Some(s.subrange(i + 1, index_from(s, c, i + 1)))
    } else {
        None
    }
}

/// A text without the white space at its start.
pub open spec fn trimmed_start(s: Seq<char>) -> Seq<char>
    decreases s.len(),
{
    if s.len() > 0 && is_white(s[0]) {
        trimmed_start(s.subrange(1, s.len() as int))
    } else {
        s
    }
}

/// A text without the white space at its end.
pub open spec fn trimmed_end(s: Seq<char>) -> Seq<char>
    decreases s.len(),
{
    if s.len() > 0 && is_white(s[s.len() - 1]) {
        trimmed_end(s.subrange(0, s.len() - 1))
    } else {
        s
    }
}

/// A text without the white space at its ends.
pub open spec fn trimmed(s: Seq<char>) -> Seq<char> {
    trimmed_end(trimmed_start(s))
}

/// The first position of white space from `i` on, or the length.
pub open spec fn white_from(s: Seq<char>, i: int) -> int
    decreases s.len() - i,
{
    if i >= s.len() {
        s.len() as int
    } else if is_white(s[i]) {
        i
    } else {
        white_from(s, i + 1)
    }
}

/// The second word of a text, if it has two.
pub open spec fn second_word(s: Seq<char>) -> Option<Seq<char>> {
    let t = trimmed_start(s);
    let rest = trimmed_start(t.subrange(white_from(t, 0), t.len() as int));
    if rest.len() > 0 {
        Some(rest.subrange(0, white_from(rest, 0)))
    } else {
        None
    }
}

/// Whether a text starts with `p`.
pub open spec fn starts_with(s: Seq<char>, p: Seq<char>) -> bool {
    p.len() <= s.len() && s.subrange(0, p.len() as int) == p
}

/// What follows `p` at the start of a text, if it starts with it.
pub open spec fn without_prefix(s: Seq<char>, p: Seq<char>) -> Option<Seq<char>> {
    if starts_with(s, p) {
        Some(s.subrange(p.len() as int, s.len() as int))
    } else {
        None
    }
}

/// A text without any repetition of `p` at its start.
pub open spec fn without_prefixes(s: Seq<char>, p: Seq<char>) -> Seq<char>
    decreases s.len(),
{
    if p.len() > 0 && starts_with(s, p) {
        without_prefixes(s.subrange(p.len() as int, s.len() as int), p)
    } else {
        s
    }
}

/// The line that starts at `i`, without its line ending.
pub open spec fn line_at(s: Seq<char>, i: int) -> Seq<char> {
    let end = index_from(s, '\n', i);
    if end < s.len() && end > i && s[end - 1] == '\r' {
        s.subrange(i, end - 1)
    } else {
        s.subrange(i, end)
    }
}

/// The first line from `i` on that starts with `p`. With `trim` the lines are
/// trimmed first.
pub open spec fn line_starting(s: Seq<char>, p: Seq<char>, trim: bool, i: int) -> Option<Seq<char>>
    decreases s.len() - i,
    when i >= 0
    via line_starting_ends
{
    if i >= s.len() {
        None
    } else {
        let line = if trim {
            trimmed(line_at(s, i))
        } else {
            line_at(s, i)
        };
        if starts_with(line, p) {
            Some(line)
        } else if index_from(s, '\n', i) < s.len() {
            line_starting(s, p, trim, index_from(s, '\n', i) + 1)
        } else {
            None
        }
    }
}

#[via_fn]
proof fn line_starting_ends(s: Seq<char>, p: Seq<char>, trim: bool, i: int) {
    if i < s.len() {
        lemma_index_from(s, '\n', i);
    }
}

proof fn lemma_index_from(s: Seq<char>, c: char, i: int)
    requires
        0 <= i <= s.len(),
    ensures
        i <= index_from(s, c, i) <= s.len(),
        forall|k: int| i <= k < index_from(s, c, i) ==> s[k] != c,
        index_from(s, c, i) < s.len() ==> s[index_from(s, c, i)] == c,
    decreases s.len() - i,
{
    if i < s.len() && s[i] != c {
        lemma_index_from(s, c, i + 1);
    }
}

/// The value of a hexadecimal digit, 16 for any other character.
pub open spec fn hex_digit(c: char) -> int {
    let u = c as u32;
    if 0x30 <= u <= 0x39 {
        u - 0x30
    } else if 0x41 <= u <= 0x46 {
        u - 0x41 + 10
    } else if 0x61 <= u <= 0x66 {
        u - 0x61 + 10
    } else {
        16
    }
}

/// The value of hexadecimal digits.
pub open spec fn hex_value(s: Seq<char>) -> int
    decreases s.len(),
{
    if s.len() == 0 {
        0
    } else {
        hex_value(s.drop_last()) * 16 + hex_digit(s.last())
    }
}

/// Whether a text is one or more hexadecimal digits.
pub open spec fn is_hex(s: Seq<char>) -> bool {
    s.len() > 0 && forall|i: int| 0 <= i < s.len() ==> #[trigger] hex_digit(s[i]) < 16
}

/// The 32-bit number that a text stands for: hexadecimal digits, which a plus
/// sign may precede.
pub open spec fn hex_number(s: Seq<char>) -> Option<u32> {
    let digits = if s.len() > 0 && s[0] == '+' {
        s.subrange(1, s.len() as int)
    } else {
        s
    };
    if is_hex(digits) && hex_value(digits) <= u32::MAX {
        Some(hex_value(digits) as u32)
    } else {
        None
    }
}

/// A character's number with ASCII upper case taken as lower case.
pub open spec fn ascii_lower(c: char) -> int {
    let u = c as u32;
    if 0x41 <= u <= 0x5A {
        u + 32
    } else {
        u as int
    }
}

/// Whether a text has ASCII characters only.
pub open spec fn is_ascii_text(s: Seq<char>) -> bool {
    forall|i: int| 0 <= i < s.len() ==> (#[trigger] s[i] as u32) < 0x80
}

/// An ASCII letter in upper case; any other character as it is.
pub open spec fn ascii_upper(c: char) -> char {
    let u = c as u32;
    if 0x61 <= u <= 0x7A {
        (u - 32) as char
    } else {
        c
    }
}

/// Whether two texts are the same but for the case of ASCII letters.
pub open spec fn same_ignoring_case(a: Seq<char>, b: Seq<char>) -> bool {
    a.len() == b.len() && forall|i: int|
        0 <= i < a.len() ==> #[trigger] ascii_lower(a[i]) == ascii_lower(b[i])
}

/// The digit that stands for `d`, in upper case.
pub open spec fn digit_of(d: int) -> char {
    if d < 10 {
        (48 + d) as char
    } else {
        (55 + d) as char
    }
}

/// The digits of a number to a base, without leading zeros.
pub open spec fn digits(n: nat, base: nat) -> Seq<char>
    decreases n,
{
    if n < base || base < 2 {
        seq![digit_of(n as int)]
    } else {
        proof {
            vstd::arithmetic::div_mod::lemma_div_decreases(n as int, base as int);
        }
        digits(n / base, base).push(digit_of((n % base) as int))
    }
}

/// A text filled up with zeros in front to a width.
pub open spec fn zero_padded(s: Seq<char>, width: nat) -> Seq<char> {
    if s.len() < width {
        Seq::new((width - s.len()) as nat, |i: int| '0') + s
    } else {
        s
    }
}

/// A number in upper case hexadecimal with at least `width` digits.
pub open spec fn hex_text(n: nat, width: nat) -> Seq<char> {
    zero_padded(digits(n, 16), width)
}

/// A number in decimal.
pub open spec fn decimal_text(n: nat) -> Seq<char> {
    digits(n, 10)
}

/// Tells whether a character is white space.
fn is_whitespace(c: char) -> (r: bool)
    ensures
        r == is_white(c),
{
    let u: u32 = c as u32;
    (0x09 <= u && u <= 0x0D) || u == 0x20 || u == 0x85 || u == 0xA0 || u == 0x1680 || (0x2000 <= u
        && u <= 0x200A) || u == 0x2028 || u == 0x2029 || u == 0x202F || u == 0x205F || u == 0x3000
}

/// Calls `str::to_uppercase`: the text with its lower case letters mapped to
/// upper case by Unicode. The mapping is named, not listed, but for ASCII texts,
/// where `a` to `z` become `A` to `Z` and the other characters stay.
#[verifier::external_body]
pub(crate) fn to_upper(s: &str) -> (r: String)
    ensures
        r@ == uppercased(s@),
        is_ascii_text(s@) ==> r@ == s@.map_values(|c: char| ascii_upper(c)),
{
    s.to_uppercase()
}

/// Calls `std::str::from_utf8`: the text whose UTF-8 encoding the bytes are, if
/// they are one.
#[verifier::external_body]
pub(crate) fn decode(bytes: &[u8]) -> (r: Option<&str>)
    ensures
        r is Some <==> vstd::utf8::valid_utf8(bytes@),
        r is Some ==> r->0@ == vstd::utf8::decode_utf8(bytes@),
{
    std::str::from_utf8(bytes).ok()
}

/// Calls `String::from_utf8_lossy`: valid UTF-8 is taken as it is. What stands
/// for invalid parts is named, not stated.
#[verifier::external_body]
pub(crate) fn decode_lossy(bytes: &[u8]) -> (r: String)
    ensures
        r@ == lossy_text(bytes@),
        vstd::utf8::valid_utf8(bytes@) ==> r@ == vstd::utf8::decode_utf8(bytes@),
{
    String::from_utf8_lossy(bytes).into_owned()
}

/// Calls `String::from_iter`: the text made of the given characters.
#[verifier::external_body]
pub(crate) fn text_of(chars: &[char]) -> (r: String)
    ensures
        r@ == chars@,
{
    String::from_iter(chars)
}

/// The characters of a text.
pub fn chars_of(s: &str) -> (v: Vec<char>)
    ensures
        v@ == s@,
{
    let mut v: Vec<char> = Vec::new();
    for c in it: s.chars()
        invariant
            it.seq() == s@,
            v@ == s@.subrange(0, it.index() as int),
    {
        v.push(c);
        assert(s@.subrange(0, it.index() + 1) =~= s@.subrange(0, it.index() as int).push(c));
    }
    assert(s@.subrange(0, s@.len() as int) =~= s@);
    v
}

/// Appends a text.
pub fn push_text(out: &mut Vec<char>, s: &str)
    ensures
        final(out)@ == old(out)@ + s@,
{
    let mut chars: Vec<char> = chars_of(s);
    out.append(&mut chars);
}

/// Appends a number to a base.
fn push_digits(out: &mut Vec<char>, n: u64, base: u64)
    requires
        2 <= base <= 16,
    ensures
        final(out)@ == old(out)@ + digits(n as nat, base as nat),
    decreases n,
{
    if n >= base {
        proof {
            vstd::arithmetic::div_mod::lemma_div_decreases(n as int, base as int);
        }
        push_digits(out, n / base, base);
    }
    let d: u8 = (n % base) as u8;
    assert(n < base ==> n % base == n) by {
        if n < base {
            vstd::arithmetic::div_mod::lemma_small_mod(n as nat, base as nat);
        }
    }
    out.push(
        if d < 10 {
            (48 + d) as char
        } else {
            (55 + d) as char
        },
    );
}

/// Appends a number in upper case hexadecimal with at least `width` digits.
pub fn push_hex(out: &mut Vec<char>, n: u64, width: usize)
    ensures
        final(out)@ == old(out)@ + hex_text(n as nat, width as nat),
{
    let mut text: Vec<char> = Vec::new();
    push_digits(&mut text, n, 16);
    assert(text@ == digits(n as nat, 16));
    let ghost before = out@;
    let mut len: usize = text.len();
    while len < width
        invariant
            text.len() <= len,
            len <= width || len == text.len(),
            out@ == before + Seq::new((len - text.len()) as nat, |i: int| '0'),
        decreases width - len,
    {
        out.push('0');
        len += 1;
    }
    out.append(&mut text);
}

/// Appends a number in decimal.
pub fn push_decimal(out: &mut Vec<char>, n: u64)
    ensures
        final(out)@ == old(out)@ + decimal_text(n as nat),
{
    push_digits(out, n, 10);
}

/// Finds `c` from `from` on.
pub fn find_from(s: &[char], c: char, from: usize) -> (r: usize)
    requires
        from <= s@.len(),
    ensures
        r == index_from(s@, c, from as int),
        from <= r <= s@.len(),
{
    proof {
        lemma_index_from(s@, c, from as int);
    }
    let mut i: usize = from;
    while i < s.len() && s[i] != c
        invariant
            from <= i <= s@.len(),
            index_from(s@, c, i as int) == index_from(s@, c, from as int),
        decreases s@.len() - i,
    {
        i += 1;
    }
    i
}

/// What stands before the first `c`.
pub fn take_before(s: &[char], c: char) -> (r: &[char])
    ensures
        r@ == before(s@, c),
{
    let end: usize = find_from(s, c, 0);
    vstd::slice::slice_subrange(s, 0, end)
}

/// What stands between the first `c` and the next.
pub fn take_second_field(s: &[char], c: char) -> (r: Option<&[char]>)
    ensures
        r is Some <==> second_field(s@, c) is Some,
        r is Some ==> r->0@ == second_field(s@, c)->0,
{
    let i: usize = find_from(s, c, 0);
    if i < s.len() {
        let end: usize = find_from(s, c, i + 1);
        Some(vstd::slice::slice_subrange(s, i + 1, end))
    } else {
        None
    }
}

/// Removes the white space at the start.
fn trim_start(s: &[char]) -> (r: &[char])
    ensures
        r@ == trimmed_start(s@),
{
    let mut a: usize = 0;
    assert(s@.subrange(0, s@.len() as int) =~= s@);
    while a < s.len() && is_whitespace(s[a])
        invariant
            a <= s@.len(),
            trimmed_start(s@.subrange(a as int, s@.len() as int)) == trimmed_start(s@),
        decreases s@.len() - a,
    {
        proof {
            let rest = s@.subrange(a as int, s@.len() as int);
            assert(rest[0] == s@[a as int]);
            assert(rest.subrange(1, rest.len() as int) =~= s@.subrange(a + 1, s@.len() as int));
        }
        a += 1;
    }
    let rest: &[char] = vstd::slice::slice_subrange(s, a, s.len());
    assert(a < s@.len() ==> rest@[0] == s@[a as int]);
    rest
}

/// Removes the white space at both ends.
pub fn trim(s: &[char]) -> (r: &[char])
    ensures
        r@ == trimmed(s@),
{
    let t: &[char] = trim_start(s);
    let mut b: usize = t.len();
    assert(t@.subrange(0, b as int) =~= t@);
    while b > 0 && is_whitespace(t[b - 1])
        invariant
            b <= t@.len(),
            trimmed_end(t@.subrange(0, b as int)) == trimmed_end(t@),
        decreases b,
    {
        proof {
            let part = t@.subrange(0, b as int);
            assert(part[part.len() - 1] == t@[b - 1]);
            assert(part.subrange(0, part.len() - 1) =~= t@.subrange(0, b - 1));
        }
        b -= 1;
    }
    let r: &[char] = vstd::slice::slice_subrange(t, 0, b);
    assert(b > 0 ==> r@[r@.len() - 1] == t@[b - 1]);
    r
}

/// Finds the first white space.
fn find_white(s: &[char]) -> (r: usize)
    ensures
        r == white_from(s@, 0),
        r <= s@.len(),
{
    let mut i: usize = 0;
    while i < s.len() && !is_whitespace(s[i])
        invariant
            i <= s@.len(),
            white_from(s@, i as int) == white_from(s@, 0),
        decreases s@.len() - i,
    {
        i += 1;
    }
    i
}

/// The second word.
pub fn take_second_word(s: &[char]) -> (r: Option<&[char]>)
    ensures
        r is Some <==> second_word(s@) is Some,
        r is Some ==> r->0@ == second_word(s@)->0,
{
    let t: &[char] = trim_start(s);
    let end: usize = find_white(t);
    let rest: &[char] = trim_start(vstd::slice::slice_subrange(t, end, t.len()));
    if rest.len() > 0 {
        let stop: usize = find_white(rest);
        Some(vstd::slice::slice_subrange(rest, 0, stop))
    } else {
        None
    }
}

/// Tells whether `s` starts with `p`.
fn has_prefix(s: &[char], p: &[char]) -> (r: bool)
    ensures
        r == starts_with(s@, p@),
{
    if p.len() > s.len() {
        return false;
    }
    let mut i: usize = 0;
    while i < p.len()
        invariant
            i <= p@.len() <= s@.len(),
            forall|k: int| 0 <= k < i ==> s@[k] == p@[k],
        decreases p@.len() - i,
    {
        if s[i] != p[i] {
            assert(s@.subrange(0, p@.len() as int)[i as int] != p@[i as int]);
            return false;
        }
        i += 1;
    }
    assert(s@.subrange(0, p@.len() as int) =~= p@);
    true
}

/// What follows `p` at the start of `s`.
pub fn strip_prefix<'a>(s: &'a [char], p: &[char]) -> (r: Option<&'a [char]>)
    ensures
        r is Some <==> without_prefix(s@, p@) is Some,
        r is Some ==> r->0@ == without_prefix(s@, p@)->0,
{
    if has_prefix(s, p) {
        Some(vstd::slice::slice_subrange(s, p.len(), s.len()))
    } else {
        None
    }
}

/// Removes every repetition of `p` at the start of `s`.
pub fn strip_prefixes<'a>(s: &'a [char], p: &[char]) -> (r: &'a [char])
    ensures
        r@ == without_prefixes(s@, p@),
{
    if p.len() == 0 {
        return s;
    }
    let mut rest: &'a [char] = s;
    while has_prefix(rest, p)
        invariant
            p@.len() > 0,
            without_prefixes(rest@, p@) == without_prefixes(s@, p@),
        decreases rest@.len(),
    {
        rest = vstd::slice::slice_subrange(rest, p.len(), rest.len());
    }
    rest
}

/// Finds the first line that starts with `p`.
pub fn find_line<'a>(s: &'a [char], p: &[char], trimming: bool) -> (r: Option<&'a [char]>)
    ensures
        r is Some <==> line_starting(s@, p@, trimming, 0) is Some,
        r is Some ==> r->0@ == line_starting(s@, p@, trimming, 0)->0,
{
    let mut i: usize = 0;
    while i < s.len()
        invariant
            i <= s@.len(),
            line_starting(s@, p@, trimming, i as int) == line_starting(s@, p@, trimming, 0),
        decreases s@.len() - i,
    {
        let end: usize = find_from(s, '\n', i);
        let stop: usize = if end < s.len() && end > i && s[end - 1] == '\r' {
            end - 1
        } else {
            end
        };
        let whole: &[char] = vstd::slice::slice_subrange(s, i, stop);
        let line: &[char] = if trimming {
            trim(whole)
        } else {
            whole
        };
        if has_prefix(line, p) {
            return Some(line);
        }
        if end == s.len() {
            return None;
        }
        i = end + 1;
    }
    None
}

fn digit_value(c: char) -> (r: u32)
    ensures
        r == hex_digit(c),
        r <= 16,
{
    let u: u32 = c as u32;
    if 0x30 <= u && u <= 0x39 {
        u - 0x30
    } else if 0x41 <= u && u <= 0x46 {
        u - 0x41 + 10
    } else if 0x61 <= u && u <= 0x66 {
        u - 0x61 + 10
    } else {
        16
    }
}

/// More digits never make a number smaller.
proof fn lemma_hex_grows(s: Seq<char>, n: int)
    requires
        0 <= n <= s.len(),
    ensures
        0 <= hex_value(s.subrange(0, n)) <= hex_value(s),
    decreases s.len(),
{
    lemma_hex_nonnegative(s.subrange(0, n));
    if n < s.len() {
        lemma_hex_grows(s.drop_last(), n);
        assert(s.drop_last().subrange(0, n) =~= s.subrange(0, n));
        lemma_hex_nonnegative(s.drop_last());
    } else {
        assert(s.subrange(0, n) =~= s);
    }
}

proof fn lemma_hex_nonnegative(s: Seq<char>)
    ensures
        hex_value(s) >= 0,
    decreases s.len(),
{
    if s.len() > 0 {
        lemma_hex_nonnegative(s.drop_last());
    }
}

/// Reads a 32-bit hexadecimal number.
pub fn parse_hex(s: &[char]) -> (r: Option<u32>)
    ensures
        r == hex_number(s@),
{
    let start: usize = if s.len() > 0 && s[0] == '+' {
        1
    } else {
        0
    };
    let digits: &[char] = vstd::slice::slice_subrange(s, start, s.len());
    assert(start == 0 ==> digits@ =~= s@);
    if digits.len() == 0 {
        return None;
    }
    let mut value: u32 = 0;
    let mut i: usize = 0;
    while i < digits.len()
        invariant
            i <= digits@.len(),
            value == hex_value(digits@.subrange(0, i as int)),
            forall|k: int| 0 <= k < i ==> #[trigger] hex_digit(digits@[k]) < 16,
            hex_number(s@) == (if is_hex(digits@) && hex_value(digits@) <= u32::MAX {
                Some(hex_value(digits@) as u32)
            } else {
                None
            }),
        decreases digits@.len() - i,
    {
        let d: u32 = digit_value(digits[i]);
        if d >= 16 {
            assert(!is_hex(digits@));
            return None;
        }
        proof {
            let next = digits@.subrange(0, i + 1);
            assert(next.drop_last() =~= digits@.subrange(0, i as int));
            assert(next.last() == digits@[i as int]);
            lemma_hex_grows(digits@, i + 1);
        }
        if value > 0x0FFF_FFFF {
            return None;
        }
        value = value * 16 + d;
        i += 1;
    }
    assert(digits@.subrange(0, i as int) =~= digits@);
    Some(value)
}

fn lower_code(c: char) -> (r: u32)
    ensures
        r == ascii_lower(c),
{
    let u: u32 = c as u32;
    if 0x41 <= u && u <= 0x5A {
        u + 32
    } else {
        u
    }
}

/// Tells whether two texts are the same but for the case of ASCII letters.
pub fn eq_ignoring_case(a: &[char], b: &[char]) -> (r: bool)
    ensures
        r == same_ignoring_case(a@, b@),
{
    if a.len() != b.len() {
        return false;
    }
    let mut i: usize = 0;
    while i < a.len()
        invariant
            i <= a@.len() == b@.len(),
            forall|k: int| 0 <= k < i ==> #[trigger] ascii_lower(a@[k]) == ascii_lower(b@[k]),
        decreases a@.len() - i,
    {
        if lower_code(a[i]) != lower_code(b[i]) {
            assert(ascii_lower(a@[i as int]) != ascii_lower(b@[i as int]));
            return false;
        }
        i += 1;
    }
    true
}

} // verus!
