//! Text helpers: building, comparing, trimming, ordering and reading numbers
//! out of strings, each stated over the string's characters.

use crate::assoc::{place_is_first, place_of, place_unique};
use vstd::prelude::*;
use vstd::string::*;

verus! {

/// `String::push`: appends the given char to the end of the string.
pub assume_specification[ std::string::String::push ](s: &mut std::string::String, c: char)
    ensures
        final(s)@ == old(s)@.push(c),
;

/// `String::pop`: removes the last character and returns it, or returns
/// `None` and leaves the string alone when it is empty.
pub assume_specification[ std::string::String::pop ](s: &mut std::string::String) -> (r: Option<char>)
    ensures
        old(s)@.len() == 0 ==> r is None && final(s)@ == old(s)@,
        old(s)@.len() > 0 ==> r == Some(old(s)@.last()) && final(s)@ == old(s)@.drop_last(),
;

/// Whether a character has the Unicode `White_Space` property.
pub open spec fn white_space(c: char) -> bool {
    ||| '\u{9}' <= c <= '\u{d}'
    ||| c == ' '
    ||| c == '\u{85}'
    ||| c == '\u{a0}'
    ||| c == '\u{1680}'
    ||| '\u{2000}' <= c <= '\u{200a}'
    ||| c == '\u{2028}'
    ||| c == '\u{2029}'
    ||| c == '\u{202f}'
    ||| c == '\u{205f}'
    ||| c == '\u{3000}'
}

/// Whether a character is white space.
pub fn is_white_space(c: char) -> (r: bool)
    ensures
        r == white_space(c),
{
    ('\u{9}' <= c && c <= '\u{d}') || c == ' ' || c == '\u{85}' || c == '\u{a0}'
        || c == '\u{1680}' || ('\u{2000}' <= c && c <= '\u{200a}') || c == '\u{2028}'
        || c == '\u{2029}' || c == '\u{202f}' || c == '\u{205f}' || c == '\u{3000}'
}

/// Character-for-character equality.
pub fn same(a: &str, b: &str) -> (r: bool)
    ensures
        r == (a@ == b@),
{
    let x: String = a.to_owned();
    let y: String = b.to_owned();
    x == y
}

/// `a` followed by `b`.
pub fn join2(a: &str, b: &str) -> (r: String)
    ensures
        r@ == a@ + b@,
{
    let mut s: String = a.to_owned();
    s.append(b);
    s
}

/// `a` followed by `b` followed by `c`.
pub fn join3(a: &str, b: &str, c: &str) -> (r: String)
    ensures
        r@ == a@ + b@ + c@,
{
    let mut s: String = a.to_owned();
    s.append(b);
    s.append(c);
    s
}

/// The characters of a string, in order.
pub fn chars_of(s: &str) -> (r: Vec<char>)
    ensures
        r@ == s@,
{
    let mut v: Vec<char> = Vec::new();
    for c in it: s.chars()
        invariant
            v@ == it.seq().take(it.index() as int),
            it.seq() == s@,
    {
        v.push(c);
        proof {
            assert(v@ =~= it.seq().take(it.index() + 1));
        }
    }
    proof {
        assert(v@ =~= s@);
    }
    v
}

/// The string made of `cs[from..to]`.
pub fn text_of(cs: &Vec<char>, from: usize, to: usize) -> (r: String)
    requires
        from <= to <= cs@.len(),
    ensures
        r@ == cs@.subrange(from as int, to as int),
{
    let mut s: String = String::new();
    let mut i: usize = from;
    proof {
        assert(s@ =~= cs@.subrange(from as int, from as int));
    }
    while i < to
        invariant
            from <= i <= to <= cs@.len(),
            s@ == cs@.subrange(from as int, i as int),
        decreases to - i,
    {
        s.push(cs[i]);
        proof {
            assert(s@ =~= cs@.subrange(from as int, i as int + 1));
        }
        i += 1;
    }
    s
}

/// `s` without the white space at its end.
pub open spec fn trimmed_end(s: Seq<char>) -> Seq<char>
    decreases s.len(),
{
    if s.len() > 0 && white_space(s.last()) {
        trimmed_end(s.drop_last())
    } else {
        s
    }
}

/// `s` without the white space at its start.
pub open spec fn trimmed_start(s: Seq<char>) -> Seq<char>
    decreases s.len(),
{
    if s.len() > 0 && white_space(s[0]) {
        trimmed_start(s.subrange(1, s.len() as int))
    } else {
        s
    }
}

/// `s` without the white space at either end.
pub open spec fn trimmed(s: Seq<char>) -> Seq<char> {
    trimmed_start(trimmed_end(s))
}

/// The string without leading and trailing white space.
pub fn trim(s: &str) -> (r: String)
    ensures
        r@ == trimmed(s@),
{
    let cs: Vec<char> = chars_of(s);
    let mut end: usize = cs.len();
    proof {
        assert(cs@.subrange(0, end as int) =~= s@);
    }
    while end > 0 && is_white_space(cs[end - 1])
        invariant
            end <= cs@.len(),
            trimmed_end(cs@.subrange(0, end as int)) == trimmed_end(s@),
        decreases end,
    {
        proof {
            assert(cs@.subrange(0, end as int).drop_last() =~= cs@.subrange(0, end - 1));
        }
        end -= 1;
    }
    let ghost body = cs@.subrange(0, end as int);
    proof {
        assert(body.len() > 0 ==> body.last() == cs@[end - 1]);
        assert(trimmed_end(s@) == body);
    }
    let mut start: usize = 0;
    proof {
        assert(cs@.subrange(0, end as int) =~= body);
    }
    while start < end && is_white_space(cs[start])
        invariant
            start <= end <= cs@.len(),
            trimmed_start(cs@.subrange(start as int, end as int)) == trimmed_start(body),
        decreases end - start,
    {
        proof {
            let t = cs@.subrange(start as int, end as int);
            assert(t.subrange(1, t.len() as int) =~= cs@.subrange(start + 1, end as int));
        }
        start += 1;
    }
    text_of(&cs, start, end)
}

/// Trimming what is already trimmed changes nothing.
pub proof fn trim_is_idempotent(s: Seq<char>)
    ensures
        trimmed(trimmed(s)) == trimmed(s),
{
    lemma_end_of_trimmed_end(s);
    lemma_trimmed_start_shape(trimmed_end(s));
}

/// Whether a text is white space all through.
pub open spec fn blank(s: Seq<char>) -> bool {
    forall|i: int| 0 <= i < s.len() ==> white_space(#[trigger] s[i])
}

proof fn lemma_blank_end(s: Seq<char>, b: Seq<char>)
    requires
        blank(b),
        s.len() > 0 ==> !white_space(s.last()),
    ensures
        trimmed_end(s + b) == s,
    decreases b.len(),
{
    if b.len() > 0 {
        assert((s + b).last() == b[b.len() - 1]);
        assert((s + b).drop_last() =~= s + b.drop_last());
        assert(blank(b.drop_last())) by {
            assert forall|i: int| 0 <= i < b.drop_last().len() implies white_space(
                #[trigger] b.drop_last()[i],
            ) by {
                assert(b.drop_last()[i] == b[i]);
            }
        }
        lemma_blank_end(s, b.drop_last());
    } else {
        assert(s + b =~= s);
    }
}

proof fn lemma_blank_start(a: Seq<char>, m: Seq<char>)
    requires
        blank(a),
        m.len() > 0 ==> !white_space(m[0]),
    ensures
        trimmed_start(a + m) == m,
    decreases a.len(),
{
    if a.len() > 0 {
        let rest = a.subrange(1, a.len() as int);
        assert((a + m)[0] == a[0]);
        assert((a + m).subrange(1, (a + m).len() as int) =~= rest + m);
        assert forall|i: int| 0 <= i < rest.len() implies white_space(#[trigger] rest[i]) by {
            assert(rest[i] == a[i + 1]);
        }
        lemma_blank_start(rest, m);
    } else {
        assert(a + m =~= m);
    }
}

/// Trimming takes off the white space round a text, all of it and nothing else:
/// white space inside the text stays.
pub proof fn trimming_takes_off_what_is_round_a_text(a: Seq<char>, m: Seq<char>, b: Seq<char>)
    requires
        blank(a),
        blank(b),
        m.len() > 0 ==> !white_space(m[0]) && !white_space(m.last()),
    ensures
        trimmed(a + m + b) == m,
{
    if m.len() > 0 {
        assert((a + m).last() == m.last());
        lemma_blank_end(a + m, b);
        lemma_blank_start(a, m);
    } else {
        let none = Seq::<char>::empty();
        let all = a + b;
        assert forall|i: int| 0 <= i < all.len() implies white_space(#[trigger] all[i]) by {
            if i < a.len() {
                assert(all[i] == a[i]);
            } else {
                assert(all[i] == b[i - a.len()]);
            }
        }
        lemma_blank_end(none, all);
        assert(a + m + b =~= none + all);
        lemma_blank_start(none, none);
        assert(none + none =~= none);
    }
}

/// There is nothing to trim round a number.
pub proof fn numbers_are_trimmed(n: nat)
    ensures
        trimmed(decimal(n)) == decimal(n),
{
    let none = Seq::<char>::empty();
    let d = decimal(n);
    lemma_decimal_reads_back(n);
    assert(ascii_digit(d[0]));
    assert(ascii_digit(d[d.len() - 1]));
    trimming_takes_off_what_is_round_a_text(none, d, none);
    assert(none + d + none =~= d);
}

proof fn lemma_end_of_trimmed_end(s: Seq<char>)
    ensures
        trimmed_end(s).len() > 0 ==> !white_space(trimmed_end(s).last()),
    decreases s.len(),
{
    if s.len() > 0 && white_space(s.last()) {
        lemma_end_of_trimmed_end(s.drop_last());
    }
}

proof fn lemma_trimmed_start_shape(s: Seq<char>)
    requires
        s.len() > 0 ==> !white_space(s.last()),
    ensures
        trimmed_start(s).len() > 0 ==> !white_space(trimmed_start(s)[0]) && !white_space(
            trimmed_start(s).last(),
        ),
    decreases s.len(),
{
    if s.len() > 0 && white_space(s[0]) {
        let t = s.subrange(1, s.len() as int);
        if t.len() > 0 {
            assert(t.last() == s.last());
        }
        lemma_trimmed_start_shape(t);
    }
}

/// Whether `c` is one of `0`..`9`.
pub open spec fn ascii_digit(c: char) -> bool {
    '0' <= c <= '9'
}

/// Whether `c` is one of `0`..`9`.
pub fn is_ascii_digit(c: char) -> (r: bool)
    ensures
        r == ascii_digit(c),
{
    '0' <= c && c <= '9'
}

/// Whether `c` is a control character: one of the two blocks that hold them.
pub open spec fn control_char(c: char) -> bool {
    (c as u32) < 0x20 || 0x7f <= (c as u32) < 0xa0
}

/// Whether `c` is a control character.
pub fn is_control(c: char) -> (r: bool)
    ensures
        r == control_char(c),
{
    let n: u32 = c as u32;
    n < 0x20 || (0x7f <= n && n < 0xa0)
}

/// The number a decimal digit stands for.
pub open spec fn digit_value(c: char) -> nat {
    (c as u32 - '0' as u32) as nat
}

/// The number a run of decimal digits stands for.
pub open spec fn digits_value(s: Seq<char>) -> nat
    decreases s.len(),
{
    if s.len() == 0 {
        0
    } else {
        10 * digits_value(s.drop_last()) + digit_value(s.last())
    }
}

/// The digits of a numeral: what follows an optional plus sign.
pub open spec fn numeral_digits(s: Seq<char>) -> Seq<char> {
    if s.len() > 0 && s[0] == '+' {
        s.subrange(1, s.len() as int)
    } else {
        s
    }
}

/// The `u32` that `s` spells: an optional plus sign followed by at least one
/// decimal digit and nothing else, in range.
pub open spec fn spelled_u32(s: Seq<char>) -> Option<u32> {
    let d = numeral_digits(s);
    if d.len() > 0 && (forall|i: int| 0 <= i < d.len() ==> ascii_digit(#[trigger] d[i]))
        && digits_value(d) <= u32::MAX {
        Some(digits_value(d) as u32)
    } else {
        None
    }
}

proof fn lemma_digits_value_grows(s: Seq<char>, n: int)
    requires
        0 <= n <= s.len(),
    ensures
        digits_value(s.subrange(0, n)) <= digits_value(s),
    decreases s.len() - n,
{
    if n < s.len() {
        let t = s.subrange(0, n + 1);
        assert(t.drop_last() =~= s.subrange(0, n));
        lemma_digits_value_grows(s, n + 1);
    } else {
        assert(s.subrange(0, n) =~= s);
    }
}

/// Reads a `u32` out of its decimal spelling.
pub fn parse_u32(s: &str) -> (r: Option<u32>)
    ensures
        r == spelled_u32(s@),
{
    let cs: Vec<char> = chars_of(s);
    let start: usize = if cs.len() > 0 && cs[0] == '+' {
        1
    } else {
        0
    };
    let ghost d = numeral_digits(s@);
    proof {
        assert(d =~= cs@.subrange(start as int, cs@.len() as int));
    }
    if start == cs.len() {
        return None;
    }
    let mut value: u64 = 0;
    let mut i: usize = start;
    proof {
        assert(d.subrange(0, 0) =~= Seq::<char>::empty());
    }
    while i < cs.len()
        invariant
            start <= i <= cs@.len(),
            s@ == cs@,
            d == cs@.subrange(start as int, cs@.len() as int),
            d == numeral_digits(s@),
            value == digits_value(d.subrange(0, i - start)),
            value <= u32::MAX,
            forall|k: int| 0 <= k < i - start ==> ascii_digit(#[trigger] d[k]),
        decreases cs@.len() - i,
    {
        let c: char = cs[i];
        proof {
            assert(d[i - start] == c);
        }
        if !is_ascii_digit(c) {
            return None;
        }
        proof {
            let t = d.subrange(0, i - start + 1);
            assert(t.drop_last() =~= d.subrange(0, i - start));
            assert(t.last() == c);
            lemma_digits_value_grows(d, i - start + 1);
        }
        value = value * 10 + (c as u32 - '0' as u32) as u64;
        if value > u32::MAX as u64 {
            return None;
        }
        i += 1;
    }
    proof {
        assert(d.subrange(0, i - start) =~= d);
    }
    Some(value as u32)
}

/// The decimal digit for a number below ten.
pub open spec fn digit_char(d: nat) -> char {
    if d == 0 {
        '0'
    } else if d == 1 {
        '1'
    } else if d == 2 {
        '2'
    } else if d == 3 {
        '3'
    } else if d == 4 {
        '4'
    } else if d == 5 {
        '5'
    } else if d == 6 {
        '6'
    } else if d == 7 {
        '7'
    } else if d == 8 {
        '8'
    } else {
        '9'
    }
}

fn digit(d: u64) -> (r: char)
    requires
        d < 10,
    ensures
        r == digit_char(d as nat),
{
    if d == 0 {
        '0'
    } else if d == 1 {
        '1'
    } else if d == 2 {
        '2'
    } else if d == 3 {
        '3'
    } else if d == 4 {
        '4'
    } else if d == 5 {
        '5'
    } else if d == 6 {
        '6'
    } else if d == 7 {
        '7'
    } else if d == 8 {
        '8'
    } else {
        '9'
    }
}

/// The decimal spelling of a number, without leading zeros.
pub open spec fn decimal(n: nat) -> Seq<char>
    decreases n,
{
    if n < 10 {
        seq![digit_char(n)]
    } else {
        decimal(n / 10).push(digit_char(n % 10))
    }
}

/// The decimal spelling of `n`.
pub fn number_text(n: u64) -> (r: String)
    ensures
        r@ == decimal(n as nat),
    decreases n,
{
    if n < 10 {
        let mut s: String = String::new();
        s.push(digit(n));
        proof {
            assert(s@ =~= decimal(n as nat));
        }
        s
    } else {
        let mut s: String = number_text(n / 10);
        s.push(digit(n % 10));
        s
    }
}

proof fn lemma_decimal_reads_back(n: nat)
    ensures
        decimal(n).len() > 0,
        forall|i: int| 0 <= i < decimal(n).len() ==> ascii_digit(#[trigger] decimal(n)[i]),
        digits_value(decimal(n)) == n,
    decreases n,
{
    if n < 10 {
        let s = decimal(n);
        assert(s.drop_last() =~= Seq::<char>::empty());
        assert(digits_value(s.drop_last()) == 0);
        assert(digit_value(digit_char(n)) == n);
    } else {
        let s = decimal(n);
        lemma_decimal_reads_back(n / 10);
        assert(s.drop_last() =~= decimal(n / 10));
        assert(digit_value(digit_char(n % 10)) == n % 10);
    }
}

/// Different numbers have different decimal spellings, of digits alone.
pub proof fn decimals_differ(m: nat, n: nat)
    requires
        m != n,
    ensures
        decimal(m) != decimal(n),
        decimal(m).len() > 0,
        forall|i: int| 0 <= i < decimal(m).len() ==> ascii_digit(#[trigger] decimal(m)[i]),
{
    lemma_decimal_reads_back(m);
    lemma_decimal_reads_back(n);
}

/// A number's decimal spelling reads back as that number.
pub proof fn decimal_reads_back(n: u32)
    ensures
        spelled_u32(decimal(n as nat)) == Some(n),
{
    lemma_decimal_reads_back(n as nat);
    let s = decimal(n as nat);
    assert(ascii_digit(s[0]));
    assert(numeral_digits(s) == s);
}

/// Dictionary order on character sequences, by code point.
pub open spec fn precedes(a: Seq<char>, b: Seq<char>) -> bool
    decreases a.len(),
{
    if b.len() == 0 {
        false
    } else if a.len() == 0 {
        true
    } else if a[0] == b[0] {
        precedes(a.subrange(1, a.len() as int), b.subrange(1, b.len() as int))
    } else {
        a[0] < b[0]
    }
}

/// A text comes before whatever continues it, and of two texts that part after a
/// common start the one with the smaller character comes first.
pub proof fn first_difference_decides(
    common: Seq<char>,
    c: char,
    d: char,
    a: Seq<char>,
    b: Seq<char>,
)
    ensures
        precedes(common, common.push(c) + a),
        !precedes(common.push(c) + a, common),
        c < d ==> precedes(common.push(c) + a, common.push(d) + b),
        c < d ==> !precedes(common.push(d) + b, common.push(c) + a),
    decreases common.len(),
{
    let x = common.push(c) + a;
    let y = common.push(d) + b;
    if common.len() > 0 {
        let rest = common.subrange(1, common.len() as int);
        first_difference_decides(rest, c, d, a, b);
        assert(x.subrange(1, x.len() as int) =~= rest.push(c) + a);
        assert(y.subrange(1, y.len() as int) =~= rest.push(d) + b);
        assert(x[0] == common[0] && y[0] == common[0]);
    } else {
        assert(x[0] == c && y[0] == d);
    }
}

/// Blanks, tabs and line ends are white space; letters, digits and the other
/// visible characters of ASCII are not.
pub proof fn visible_characters_are_no_white_space(c: char)
    ensures
        white_space(' '),
        white_space('\t'),
        white_space('\n'),
        white_space('\r'),
        '!' <= c <= '~' ==> !white_space(c),
{
}

/// Only numerals are read as numbers: digits, and nothing else but a plus sign
/// in front. A plus sign changes nothing, and what is out of range is no number.
pub proof fn only_numerals_are_numbers(s: Seq<char>, n: nat)
    ensures
        spelled_u32(s) is Some ==> s.len() > 0 && ('0' <= s.last() <= '9') && forall|i: int|
            0 <= i < s.len() ==> '0' <= #[trigger] s[i] <= '9' || (i == 0 && s[i] == '+'),
        n <= u32::MAX ==> spelled_u32(decimal(n)) == Some(n as u32) && spelled_u32(
            seq!['+'] + decimal(n),
        ) == Some(n as u32),
        n > u32::MAX ==> spelled_u32(decimal(n)) is None && spelled_u32(seq!['+'] + decimal(n))
            is None,
{
    lemma_decimal_reads_back(n);
    let t = decimal(n);
    assert(ascii_digit(t[0]));
    assert(numeral_digits(t) == t);
    let p = seq!['+'] + t;
    assert(p[0] == '+');
    assert(p.subrange(1, p.len() as int) =~= t);
    if spelled_u32(s) is Some {
        let d = numeral_digits(s);
        assert(ascii_digit(d[d.len() - 1]));
        assert forall|i: int| 0 <= i < s.len() implies '0' <= #[trigger] s[i] <= '9' || (i == 0
            && s[i] == '+') by {
            if s[0] == '+' {
                if i > 0 {
                    assert(ascii_digit(d[i - 1]));
                }
            } else {
                assert(ascii_digit(d[i]));
            }
        }
    }
}

/// Whether `a` comes before `b` in dictionary order.
pub fn comes_before(a: &str, b: &str) -> (r: bool)
    ensures
        r == precedes(a@, b@),
{
    let x: Vec<char> = chars_of(a);
    let y: Vec<char> = chars_of(b);
    let mut i: usize = 0;
    proof {
        assert(x@.subrange(0, x@.len() as int) =~= a@);
        assert(y@.subrange(0, y@.len() as int) =~= b@);
    }
    while i < x.len() && i < y.len()
        invariant
            i <= x@.len(),
            i <= y@.len(),
            precedes(
                x@.subrange(i as int, x@.len() as int),
                y@.subrange(i as int, y@.len() as int),
            ) == precedes(a@, b@),
        decreases x@.len() - i,
    {
        let ghost xs = x@.subrange(i as int, x@.len() as int);
        let ghost ys = y@.subrange(i as int, y@.len() as int);
        if x[i] != y[i] {
            return x[i] < y[i];
        }
        proof {
            assert(xs.subrange(1, xs.len() as int) =~= x@.subrange(i + 1, x@.len() as int));
            assert(ys.subrange(1, ys.len() as int) =~= y@.subrange(i + 1, y@.len() as int));
        }
        i += 1;
    }
    i < y.len()
}

/// Nothing comes before itself.
pub proof fn precedes_irreflexive(a: Seq<char>)
    ensures
        !precedes(a, a),
    decreases a.len(),
{
    if a.len() > 0 {
        precedes_irreflexive(a.subrange(1, a.len() as int));
    }
}

/// Dictionary order is transitive.
pub proof fn precedes_transitive(a: Seq<char>, b: Seq<char>, c: Seq<char>)
    requires
        precedes(a, b),
        precedes(b, c),
    ensures
        precedes(a, c),
    decreases a.len(),
{
    if a.len() > 0 && a[0] == b[0] && b[0] == c[0] {
        precedes_transitive(
            a.subrange(1, a.len() as int),
            b.subrange(1, b.len() as int),
            c.subrange(1, c.len() as int),
        );
    }
}

/// Of two different sequences one comes before the other.
pub proof fn precedes_total(a: Seq<char>, b: Seq<char>)
    requires
        a != b,
    ensures
        precedes(a, b) || precedes(b, a),
    decreases a.len(),
{
    if a.len() == 0 {
        if b.len() == 0 {
            assert(a =~= b);
        }
    } else if b.len() > 0 && a[0] == b[0] {
        let x = a.subrange(1, a.len() as int);
        let y = b.subrange(1, b.len() as int);
        if x == y {
            assert(a =~= seq![a[0]] + x);
            assert(b =~= seq![b[0]] + y);
        }
        precedes_total(x, y);
    }
}

/// The characters of each string.
pub open spec fn texts(v: Seq<String>) -> Seq<Seq<char>> {
    Seq::new(v.len(), |i: int| v[i]@)
}

/// Each entry comes before the next, so no entry occurs twice.
pub open spec fn ascending(s: Seq<Seq<char>>) -> bool {
    forall|i: int, j: int| 0 <= i < j < s.len() ==> precedes(#[trigger] s[i], #[trigger] s[j])
}

/// Where `x` stands, or belongs, in the ascending sequence `s`: behind
/// everything that comes before it.
pub open spec fn rank(s: Seq<Seq<char>>, x: Seq<char>) -> nat
    decreases s.len(),
{
    if s.len() == 0 {
        0
    } else if precedes(s.last(), x) {
        s.len()
    } else {
        rank(s.drop_last(), x)
    }
}

/// `s` with `x` put at its place, or `s` itself where it already holds `x`.
pub open spec fn with_text(s: Seq<Seq<char>>, x: Seq<char>) -> Seq<Seq<char>> {
    if s.contains(x) {
        s
    } else {
        s.insert(rank(s, x) as int, x)
    }
}

/// The entries of `s`, each once, in dictionary order.
pub open spec fn sorted_texts(s: Seq<Seq<char>>) -> Seq<Seq<char>>
    decreases s.len(),
{
    if s.len() == 0 {
        Seq::empty()
    } else {
        with_text(sorted_texts(s.drop_last()), s.last())
    }
}

proof fn lemma_rank(s: Seq<Seq<char>>, x: Seq<char>)
    requires
        ascending(s),
    ensures
        rank(s, x) <= s.len(),
        forall|i: int| 0 <= i < rank(s, x) ==> precedes(#[trigger] s[i], x),
        forall|i: int| rank(s, x) <= i < s.len() ==> !precedes(#[trigger] s[i], x),
    decreases s.len(),
{
    if s.len() > 0 {
        let last = s.len() - 1;
        if precedes(s.last(), x) {
            assert forall|i: int| 0 <= i < s.len() implies precedes(#[trigger] s[i], x) by {
                if i < last {
                    precedes_transitive(s[i], s[last], x);
                }
            }
        } else {
            let t = s.drop_last();
            assert(ascending(t));
            lemma_rank(t, x);
            assert forall|i: int| rank(s, x) <= i < s.len() implies !precedes(#[trigger] s[i], x) by {
                if i < last {
                    assert(t[i] == s[i]);
                }
            }
            assert forall|i: int| 0 <= i < rank(s, x) implies precedes(#[trigger] s[i], x) by {
                assert(t[i] == s[i]);
            }
        }
    }
}

/// Putting a text into an ascending sequence keeps it ascending and adds that
/// text and nothing else.
pub proof fn with_text_keeps_order(s: Seq<Seq<char>>, x: Seq<char>)
    requires
        ascending(s),
    ensures
        ascending(with_text(s, x)),
        forall|y: Seq<char>| #[trigger] with_text(s, x).contains(y) <==> s.contains(y) || y == x,
        with_text(s, x).len() <= s.len() + 1,
{
    lemma_rank(s, x);
    let k = rank(s, x) as int;
    let r = with_text(s, x);
    if !s.contains(x) {
        assert forall|i: int, j: int| 0 <= i < j < r.len() implies precedes(
            #[trigger] r[i],
            #[trigger] r[j],
        ) by {
            let si = if i < k { i } else { i - 1 };
            let sj = if j < k { j } else { j - 1 };
            if i == k {
                assert(r[j] == s[sj]);
                assert(!precedes(s[sj], x));
                assert(s.contains(s[sj]));
                precedes_total(s[sj], x);
            } else if j == k {
                assert(r[i] == s[si]);
            } else {
                assert(r[i] == s[si] && r[j] == s[sj]);
            }
        }
        assert forall|y: Seq<char>| #[trigger] r.contains(y) <==> s.contains(y) || y == x by {
            if s.contains(y) {
                let i = choose|i: int| 0 <= i < s.len() && s[i] == y;
                if i < k {
                    assert(r[i] == y);
                } else {
                    assert(r[i + 1] == y);
                }
            }
            if y == x {
                assert(r[k] == x);
            }
            if r.contains(y) {
                let i = choose|i: int| 0 <= i < r.len() && r[i] == y;
                if i < k {
                    assert(s[i] == y);
                } else if i > k {
                    assert(s[i - 1] == y);
                }
            }
        }
    }
}

/// Sorting keeps every entry, adds none, and puts them in dictionary order.
pub proof fn sorting_is_ascending(s: Seq<Seq<char>>)
    ensures
        ascending(sorted_texts(s)),
        forall|y: Seq<char>| #[trigger] sorted_texts(s).contains(y) <==> s.contains(y),
    decreases s.len(),
{
    if s.len() > 0 {
        let t = s.drop_last();
        sorting_is_ascending(t);
        with_text_keeps_order(sorted_texts(t), s.last());
        assert forall|y: Seq<char>| #[trigger] sorted_texts(s).contains(y) <==> s.contains(y) by {
            assert(sorted_texts(t).contains(y) <==> t.contains(y));
            if s.contains(y) {
                let i = choose|i: int| 0 <= i < s.len() && s[i] == y;
                if i < t.len() {
                    assert(t[i] == y);
                }
            }
            if t.contains(y) {
                let i = choose|i: int| 0 <= i < t.len() && t[i] == y;
                assert(s[i] == y);
            }
            if y == s.last() {
                assert(s[s.len() - 1] == y);
            }
        }
    }
}

/// Whether `x` is one of the strings.
pub fn contains_text(v: &[String], x: &str) -> (r: bool)
    ensures
        r == texts(v@).contains(x@),
{
    let mut i: usize = 0;
    while i < v.len()
        invariant
            i <= v@.len(),
            forall|k: int| 0 <= k < i ==> v@[k]@ != x@,
        decreases v@.len() - i,
    {
        if same(v[i].as_str(), x) {
            proof {
                assert(texts(v@)[i as int] == x@);
            }
            return true;
        }
        i += 1;
    }
    proof {
        if texts(v@).contains(x@) {
            let k = choose|k: int| 0 <= k < texts(v@).len() && texts(v@)[k] == x@;
            assert(v@[k]@ == x@);
        }
    }
    false
}

/// The first place of `x` among the strings.
pub fn place_of_text(v: &[String], x: &str) -> (r: Option<usize>)
    ensures
        match r {
            Some(i) => i < v@.len() && place_of(texts(v@), x@) == Some(i as int),
            None => place_of(texts(v@), x@) is None,
        },
{
    let mut i: usize = 0;
    while i < v.len()
        invariant
            i <= v@.len(),
            forall|k: int| 0 <= k < i ==> #[trigger] texts(v@)[k] != x@,
        decreases v@.len() - i,
    {
        if same(v[i].as_str(), x) {
            proof {
                place_unique(texts(v@), x@, i as int);
            }
            return Some(i);
        }
        i += 1;
    }
    proof {
        place_is_first(texts(v@), x@);
    }
    None
}

/// Puts `x` at its place in an ascending list, once.
pub fn insert_text(v: &mut Vec<String>, x: &str)
    requires
        ascending(texts(old(v)@)),
    ensures
        texts(final(v)@) == with_text(texts(old(v)@), x@),
        ascending(texts(final(v)@)),
{
    let ghost s = texts(v@);
    proof {
        with_text_keeps_order(s, x@);
    }
    if contains_text(v.as_slice(), x) {
        return;
    }
    let mut k: usize = v.len();
    proof {
        assert(s.subrange(0, k as int) =~= s);
    }
    while k > 0 && !comes_before(v[k - 1].as_str(), x)
        invariant
            k <= v@.len(),
            s == texts(v@),
            rank(s.subrange(0, k as int), x@) == rank(s, x@),
        decreases k,
    {
        proof {
            let t = s.subrange(0, k as int);
            assert(t.last() == v@[k - 1]@);
            assert(t.drop_last() =~= s.subrange(0, k - 1));
        }
        k -= 1;
    }
    proof {
        let t = s.subrange(0, k as int);
        if k > 0 {
            assert(t.last() == v@[k - 1]@);
        }
        assert(rank(s, x@) == k);
    }
    v.insert(k, x.to_owned());
    proof {
        assert(texts(v@) =~= s.insert(k as int, x@));
    }
}

/// A copy of the list.
pub fn copy_texts(v: &Vec<String>) -> (r: Vec<String>)
    ensures
        texts(r@) == texts(v@),
        r@.len() == v@.len(),
{
    let mut out: Vec<String> = Vec::new();
    let mut i: usize = 0;
    while i < v.len()
        invariant
            i <= v@.len(),
            out@.len() == i,
            forall|k: int| 0 <= k < i ==> out@[k]@ == v@[k]@,
        decreases v@.len() - i,
    {
        out.push(v[i].clone());
        i += 1;
    }
    proof {
        assert(texts(out@) =~= texts(v@));
    }
    out
}

/// The entries of `v`, each once, in dictionary order.
pub fn sort_texts(v: &Vec<String>) -> (r: Vec<String>)
    ensures
        texts(r@) == sorted_texts(texts(v@)),
        ascending(texts(r@)),
{
    let mut out: Vec<String> = Vec::new();
    let ghost s = texts(v@);
    let mut i: usize = 0;
    proof {
        assert(texts(out@) =~= sorted_texts(s.subrange(0, 0)));
    }
    while i < v.len()
        invariant
            i <= v@.len(),
            s == texts(v@),
            texts(out@) == sorted_texts(s.subrange(0, i as int)),
            ascending(texts(out@)),
        decreases v@.len() - i,
    {
        insert_text(&mut out, v[i].as_str());
        proof {
            let t = s.subrange(0, i + 1);
            assert(t.drop_last() =~= s.subrange(0, i as int));
            assert(t.last() == v@[i as int]@);
        }
        i += 1;
    }
    proof {
        assert(s.subrange(0, i as int) =~= s);
    }
    out
}

} // verus!
