//! Laws of text: what fields, words, lines and numbers are, by how they are put together.

use crate::text::{
    before, decimal_text, digit_of, digits, hex_digit, hex_number, hex_text, hex_value, index_from,
    is_hex, is_white, line_at, line_starting, same_ignoring_case, ascii_lower, ascii_upper,
    second_field, second_word, starts_with, trimmed, trimmed_end, trimmed_start, white_from,
    without_prefix, without_prefixes,
};
use vstd::prelude::*;

verus! {

/// Whether a text has no `c`.
pub open spec fn lacks(s: Seq<char>, c: char) -> bool {
    forall|k: int| 0 <= k < s.len() ==> s[k] != c
}

/// Whether a text is white space only.
pub open spec fn blank(s: Seq<char>) -> bool {
    forall|k: int| 0 <= k < s.len() ==> is_white(#[trigger] s[k])
}

/// Whether a text has no white space.
pub open spec fn solid(s: Seq<char>) -> bool {
    forall|k: int| 0 <= k < s.len() ==> !is_white(#[trigger] s[k])
}

pub proof fn lemma_index(s: Seq<char>, c: char, i: int, at: int)
    requires
        0 <= i <= at <= s.len(),
        forall|k: int| i <= k < at ==> s[k] != c,
        at < s.len() ==> s[at] == c,
    ensures
        index_from(s, c, i) == at,
    decreases at - i,
{
    if i < at {
        lemma_index(s, c, i + 1, at);
    }
}

/// What stands before a mark: the text up to the first one, or all of it.
pub proof fn law_before(a: Seq<char>, rest: Seq<char>, c: char)
    requires
        lacks(a, c),
    ensures
        before(a + seq![c] + rest, c) == a,
        before(a, c) == a,
{
    let s = a + seq![c] + rest;
    assert(forall|k: int| 0 <= k < a.len() ==> s[k] == a[k]);
    lemma_index(s, c, 0, a.len() as int);
    lemma_index(a, c, 0, a.len() as int);
    assert(s.subrange(0, a.len() as int) =~= a);
    assert(a.subrange(0, a.len() as int) =~= a);
}

/// The second field: what stands between the first mark and the next, or the end.
pub proof fn law_second_field(a: Seq<char>, b: Seq<char>, rest: Seq<char>, c: char)
    requires
        lacks(a, c),
        lacks(b, c),
    ensures
        second_field(a, c) is None,
        second_field(a + seq![c] + b, c) == Some(b),
        second_field(a + seq![c] + b + seq![c] + rest, c) == Some(b),
{
    let n = a.len() as int;
    let s = a + seq![c] + b;
    let t = a + seq![c] + b + seq![c] + rest;
    assert(forall|k: int| 0 <= k < n ==> s[k] == a[k] && t[k] == a[k]);
    assert(s[n] == c && t[n] == c && t[n + 1 + b.len()] == c);
    assert forall|k: int| n + 1 <= k < n + 1 + b.len() implies s[k] != c && t[k] != c by {
        assert(s[k] == b[k - n - 1] && t[k] == b[k - n - 1]);
    }
    lemma_index(a, c, 0, n);
    lemma_index(s, c, 0, n);
    lemma_index(t, c, 0, n);
    lemma_index(s, c, n + 1, n + 1 + b.len());
    lemma_index(t, c, n + 1, n + 1 + b.len());
    assert(s.subrange(n + 1, n + 1 + b.len()) =~= b);
    assert(t.subrange(n + 1, n + 1 + b.len()) =~= b);
}

proof fn lemma_trimmed_start(a: Seq<char>, s: Seq<char>)
    requires
        blank(a),
        s.len() > 0 ==> !is_white(s[0]),
    ensures
        trimmed_start(a + s) == s,
    decreases a.len(),
{
    if a.len() > 0 {
        let rest = a.subrange(1, a.len() as int);
        assert((a + s)[0] == a[0]);
        assert forall|k: int| 0 <= k < rest.len() implies is_white(#[trigger] rest[k]) by {
            assert(rest[k] == a[k + 1]);
        }
        assert((a + s).subrange(1, (a + s).len() as int) =~= rest + s);
        lemma_trimmed_start(rest, s);
    } else {
        assert(a + s =~= s);
    }
}

proof fn lemma_trimmed_end(s: Seq<char>, b: Seq<char>)
    requires
        blank(b),
        s.len() > 0 ==> !is_white(s[s.len() - 1]),
    ensures
        trimmed_end(s + b) == s,
    decreases b.len(),
{
    if b.len() > 0 {
        let rest = b.subrange(0, b.len() - 1);
        assert((s + b)[(s + b).len() - 1] == b[b.len() - 1]);
        assert forall|k: int| 0 <= k < rest.len() implies is_white(#[trigger] rest[k]) by {
            assert(rest[k] == b[k]);
        }
        assert((s + b).subrange(0, (s + b).len() - 1) =~= s + rest);
        lemma_trimmed_end(s, rest);
    } else {
        assert(s + b =~= s);
    }
}

/// Trimming takes the white space off both ends and nothing else.
pub proof fn law_trimmed(a: Seq<char>, s: Seq<char>, b: Seq<char>)
    requires
        blank(a),
        blank(b),
        s.len() > 0,
        !is_white(s[0]),
        !is_white(s[s.len() - 1]),
    ensures
        trimmed(a + s + b) == s,
        trimmed(a) == Seq::<char>::empty(),
{
    assert(a + s + b =~= a + (s + b));
    lemma_trimmed_start(a, s + b);
    lemma_trimmed_end(s, b);
    let e = Seq::<char>::empty();
    assert(a + e =~= a);
    lemma_trimmed_start(a, e);
}

proof fn lemma_white(s: Seq<char>, i: int, at: int)
    requires
        0 <= i <= at <= s.len(),
        forall|k: int| i <= k < at ==> !is_white(#[trigger] s[k]),
        at < s.len() ==> is_white(s[at]),
    ensures
        white_from(s, i) == at,
    decreases at - i,
{
    if i < at {
        assert(!is_white(s[i]));
        lemma_white(s, i + 1, at);
    }
}

/// The second word is what white space sets off from the first and from what follows.
pub proof fn law_second_word(
    a: Seq<char>,
    first: Seq<char>,
    gap: Seq<char>,
    second: Seq<char>,
    rest: Seq<char>,
)
    requires
        blank(a),
        solid(first),
        first.len() > 0,
        blank(gap),
        gap.len() > 0,
        solid(second),
        second.len() > 0,
        rest.len() > 0 ==> is_white(rest[0]),
    ensures
        second_word(a + first + gap + second + rest) == Some(second),
        second_word(a + first + gap) is None,
        second_word(a + first) is None,
{
    let tail = second + rest;
    let t = first + (gap + tail);
    assert(a + first + gap + second + rest =~= a + t);
    assert(t[0] == first[0]);
    lemma_trimmed_start(a, t);
    let n = first.len() as int;
    assert forall|k: int| 0 <= k < n implies !is_white(#[trigger] t[k]) by {
        assert(t[k] == first[k]);
    }
    assert(t[n] == gap[0]);
    lemma_white(t, 0, n);
    assert(t.subrange(n, t.len() as int) =~= gap + tail);
    assert(tail[0] == second[0]);
    lemma_trimmed_start(gap, tail);
    let m = second.len() as int;
    assert forall|k: int| 0 <= k < m implies !is_white(#[trigger] tail[k]) by {
        assert(tail[k] == second[k]);
    }
    if rest.len() > 0 {
        assert(tail[m] == rest[0]);
    }
    lemma_white(tail, 0, m);
    assert(tail.subrange(0, m) =~= second);
    let e = Seq::<char>::empty();
    let u = first + gap;
    assert(a + first + gap =~= a + u);
    assert(u[0] == first[0] && u[n] == gap[0]);
    lemma_trimmed_start(a, u);
    assert forall|k: int| 0 <= k < n implies !is_white(#[trigger] u[k]) by {
        assert(u[k] == first[k]);
    }
    lemma_white(u, 0, n);
    assert(u.subrange(n, u.len() as int) =~= gap + e);
    lemma_trimmed_start(gap, e);
    lemma_trimmed_start(a, first);
    lemma_white(first, 0, n);
    assert(first.subrange(n, n) =~= e);
}

/// A prefix is taken off once, or as often as it is there.
pub proof fn law_prefix(p: Seq<char>, s: Seq<char>)
    requires
        p.len() > 0,
    ensures
        starts_with(p + s, p),
        without_prefix(p + s, p) == Some(s),
        without_prefixes(p + s, p) == without_prefixes(s, p),
        !starts_with(s, p) ==> without_prefix(s, p) is None && without_prefixes(s, p) == s,
{
    let t = p + s;
    assert(t.subrange(0, p.len() as int) =~= p);
    assert(t.subrange(p.len() as int, t.len() as int) =~= s);
}

proof fn lemma_index_shifted(a: Seq<char>, s: Seq<char>, c: char, i: int)
    requires
        0 <= i <= s.len(),
    ensures
        index_from(a + s, c, a.len() + i) == a.len() + index_from(s, c, i),
        i <= index_from(s, c, i) <= s.len(),
    decreases s.len() - i,
{
    if i < s.len() {
        assert((a + s)[a.len() + i] == s[i]);
        lemma_index_shifted(a, s, c, i + 1);
    }
}

/// Looking for a line in what follows a text.
proof fn lemma_lines_shifted(a: Seq<char>, s: Seq<char>, p: Seq<char>, trim: bool, i: int)
    requires
        0 <= i <= s.len(),
    ensures
        line_starting(a + s, p, trim, a.len() + i) == line_starting(s, p, trim, i),
    decreases s.len() - i,
{
    if i < s.len() {
        let n = a.len() as int;
        lemma_index_shifted(a, s, '\n', i);
        let end = index_from(s, '\n', i);
        assert((a + s).subrange(n + i, n + end) =~= s.subrange(i, end));
        if end > i {
            assert((a + s)[n + end - 1] == s[end - 1]);
            assert((a + s).subrange(n + i, n + end - 1) =~= s.subrange(i, end - 1));
        }
        assert(line_at(a + s, n + i) == line_at(s, i));
        if end < s.len() {
            lemma_lines_shifted(a, s, p, trim, end + 1);
        }
    }
}

/// The first line that starts with a text: the first line of all if it does, and
/// otherwise the first of the lines that follow. Lines end with a line feed, before which
/// a carriage return may stand. With `trim` the lines are trimmed first.
pub proof fn law_lines(
    line: Seq<char>,
    rest: Seq<char>,
    p: Seq<char>,
    trim: bool,
    returned: bool,
)
    requires
        lacks(line, '\n'),
        line.len() > 0 ==> line[line.len() - 1] != '\r',
        p.len() > 0,
    ensures
        ({
            let end = if returned {
                seq!['\r', '\n']
            } else {
                seq!['\n']
            };
            let shown = if trim {
                trimmed(line)
            } else {
                line
            };
            &&& line_starting(line + end + rest, p, trim, 0) == (if starts_with(shown, p) {
                Some(shown)
            } else {
                line_starting(rest, p, trim, 0)
            })
            &&& line.len() > 0 ==> line_starting(line, p, trim, 0) == (if starts_with(shown, p) {
                Some(shown)
            } else {
                None
            })
            &&& line_starting(Seq::empty(), p, trim, 0) is None
        }),
{
    let end = if returned {
        seq!['\r', '\n']
    } else {
        seq!['\n']
    };
    let n = line.len() as int;
    let head = line + end;
    let s = head + rest;
    assert(line + end + rest =~= s);
    let at = head.len() - 1;
    assert(s[at] == '\n');
    assert forall|k: int| 0 <= k < at implies s[k] != '\n' by {
        if k < n {
            assert(s[k] == line[k]);
        } else {
            assert(s[k] == '\r');
        }
    }
    lemma_index(s, '\n', 0, at);
    if at > 0 {
        assert(s[at - 1] == (if returned {
            '\r'
        } else {
            line[n - 1]
        }));
    }
    assert(s.subrange(0, n) =~= line);
    assert(line_at(s, 0) == line);
    lemma_lines_shifted(head, rest, p, trim, 0);
    lemma_index(line, '\n', 0, n);
    assert(line.subrange(0, n) =~= line);
}

/// The number that digits to a base stand for, each digit worth the base times the next.
pub open spec fn number_of(s: Seq<char>, base: int) -> int
    decreases s.len(),
{
    if s.len() == 0 {
        0
    } else {
        number_of(s.drop_last(), base) * base + hex_digit(s.last())
    }
}

pub proof fn lemma_digits(n: nat, base: nat)
    requires
        2 <= base <= 16,
    ensures
        number_of(digits(n, base), base as int) == n,
        digits(n, base).len() > 0,
        n > 0 ==> digits(n, base)[0] != '0',
        is_hex(digits(n, base)),
        digits(n, base)[0] != '+',
    decreases n,
{
    if n < base {
        let s = seq![digit_of(n as int)];
        assert(digits(n, base) == s);
        assert(s.drop_last() =~= Seq::empty());
        assert(hex_digit(s[0]) == n);
        assert(number_of(s.drop_last(), base as int) == 0);
        assert(0 * base == 0);
        assert forall|i: int| 0 <= i < s.len() implies #[trigger] hex_digit(s[i]) < 16 by {}
    } else {
        vstd::arithmetic::div_mod::lemma_div_decreases(n as int, base as int);
        vstd::arithmetic::div_mod::lemma_fundamental_div_mod(n as int, base as int);
        let (q, r) = (n / base, n % base);
        lemma_digits(q, base);
        let t = digits(q, base);
        let s = t.push(digit_of(r as int));
        assert(s.drop_last() =~= t);
        assert(q > 0) by (nonlinear_arith)
            requires
                n == base * q + r,
                r < base,
                n >= base,
        ;
        assert(q * base == base * q) by (nonlinear_arith);
        assert(hex_digit(s.last()) == r);
        assert forall|i: int| 0 <= i < s.len() implies #[trigger] hex_digit(s[i]) < 16 by {
            if i < t.len() {
                assert(s[i] == t[i]);
                assert(hex_digit(t[i]) < 16);
            }
        }
    }
}

/// A number in decimal stands for that number, without a zero in front.
pub proof fn law_decimal_text(n: nat)
    ensures
        number_of(decimal_text(n), 10) == n,
        n > 0 ==> decimal_text(n)[0] != '0',
        n == 0 ==> decimal_text(n) == seq!['0'],
{
    lemma_digits(n, 10);
}

proof fn lemma_hex_value(s: Seq<char>)
    ensures
        hex_value(s) == number_of(s, 16),
    decreases s.len(),
{
    if s.len() > 0 {
        lemma_hex_value(s.drop_last());
    }
}

proof fn lemma_zeros_in_front(k: nat, s: Seq<char>)
    ensures
        number_of(Seq::new(k, |i: int| '0') + s, 16) == number_of(s, 16),
    decreases s.len(), k,
{
    let z = Seq::new(k, |i: int| '0');
    if s.len() > 0 {
        assert((z + s).drop_last() =~= z + s.drop_last());
        assert((z + s).last() == s.last());
        lemma_zeros_in_front(k, s.drop_last());
    } else if k > 0 {
        let y = Seq::new((k - 1) as nat, |i: int| '0');
        assert((z + s).drop_last() =~= y + s);
        assert((z + s).last() == '0');
        lemma_zeros_in_front((k - 1) as nat, s);
        assert(number_of(s, 16) == 0);
    } else {
        assert(z + s =~= s);
    }
}

/// A number written in hexadecimal, at any width, reads back as that number, and is as
/// wide as asked for.
pub proof fn law_hex_read_back(n: u32, width: nat)
    ensures
        hex_number(hex_text(n as nat, width)) == Some(n),
        hex_text(n as nat, width).len() >= width,
        number_of(hex_text(n as nat, width), 16) == n,
{
    let d = digits(n as nat, 16);
    lemma_digits(n as nat, 16);
    let s = hex_text(n as nat, width);
    if d.len() < width {
        let k = (width - d.len()) as nat;
        lemma_zeros_in_front(k, d);
        assert forall|i: int| 0 <= i < s.len() implies #[trigger] hex_digit(s[i]) < 16 by {
            if i >= k {
                assert(s[i] == d[i - k]);
                assert(hex_digit(d[i - k]) < 16);
            } else {
                assert(s[i] == '0');
            }
        }
        assert(s[0] == '0');
    } else {
        assert(s == d);
    }
    lemma_hex_value(s);
}

/// A text that is no number: an empty one, and one with a character that is no digit.
pub proof fn law_no_hex(s: Seq<char>, i: int)
    requires
        0 <= i < s.len(),
        hex_digit(s[i]) == 16,
        i > 0 || s[i] != '+',
    ensures
        hex_number(s) is None,
        hex_number(Seq::empty()) is None,
{
    if s[0] == '+' {
        assert(s.subrange(1, s.len() as int)[i - 1] == s[i]);
        assert(hex_digit(s.subrange(1, s.len() as int)[i - 1]) == 16);
    } else {
        assert(hex_digit(s[i]) == 16);
    }
}

/// A name is the same as in upper case.
pub proof fn law_same_name(a: Seq<char>)
    ensures
        same_ignoring_case(a, a),
        same_ignoring_case(a, a.map_values(|c: char| ascii_upper(c))),
{
    let u = a.map_values(|c: char| ascii_upper(c));
    assert forall|i: int| 0 <= i < a.len() implies #[trigger] ascii_lower(a[i]) == ascii_lower(
        u[i],
    ) by {
        assert(u[i] == ascii_upper(a[i]));
    }
}

/// Two characters pass for the same if they are, or if they are the two cases of an
/// ASCII letter, which lie 32 apart.
pub proof fn law_same_letter(x: char, y: char)
    ensures
        same_ignoring_case(seq![x], seq![y]) <==> x == y || ('A' <= x <= 'Z' && y as u32 == x as u32
            + 32) || ('A' <= y <= 'Z' && x as u32 == y as u32 + 32),
{
    let (a, b) = (seq![x], seq![y]);
    assert(a[0] == x && b[0] == y);
    assert(same_ignoring_case(a, b) <==> ascii_lower(x) == ascii_lower(y)) by {
        if ascii_lower(x) == ascii_lower(y) {
            assert forall|i: int| 0 <= i < a.len() implies #[trigger] ascii_lower(a[i])
                == ascii_lower(b[i]) by {}
        } else if same_ignoring_case(a, b) {
            assert(ascii_lower(a[0]) == ascii_lower(b[0]));
        }
    }
}

} // verus!
