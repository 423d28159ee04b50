//! Character sequences: the primitives the configuration grammar is built from.
//!
//! Every function here is stated over `Seq<char>`. The executable versions work
//! on a line that was decoded once into a `Vec<char>` and hand back spans into
//! it, so that nothing is copied until a token is finally kept.

use vstd::prelude::*;

verus! {

/// The characters of `s`, in order.
pub fn chars_of(s: &str) -> (v: Vec<char>)
    ensures
        v@ == s@,
{
    let mut v: Vec<char> = Vec::new();
    for c in it: s.chars()
        invariant
            v@ == s@.take(it.index() as int),
            it.seq() == s@,
    {
        v.push(c);
    }
    v
}

/// Position of the first `c` in `s`, or `s.len()` where `s` holds none.
pub open spec fn first_index<A>(s: Seq<A>, c: A) -> nat
    decreases s.len(),
{
    if s.len() == 0 || s[0] == c {
        0
    } else {
        1 + first_index(s.drop_first(), c)
    }
}

/// The pieces of `s` between occurrences of `d`. There is always at least one
/// piece; a piece is empty where two delimiters touch or one stands at an end.
pub open spec fn split(s: Seq<char>, d: char) -> Seq<Seq<char>>
    decreases s.len(),
{
    let i = first_index(s, d) as int;
    if i >= s.len() {
        seq![s]
    } else {
        seq![s.take(i)] + split(s.skip(i + 1), d)
    }
}

/// A half-open range of positions in a line.
#[derive(Clone, Copy, Debug)]
pub struct Span {
    pub start: usize,
    pub end: usize,
}

impl Span {
    /// The span lies inside `from..to`.
    pub open spec fn within(self, from: int, to: int) -> bool {
        from <= self.start <= self.end <= to
    }

    /// The characters of `s` that the span covers.
    pub open spec fn cut(self, s: Seq<char>) -> Seq<char> {
        s.subrange(self.start as int, self.end as int)
    }
}

/// What a list of spans covers, piece by piece.
pub open spec fn cuts(s: Seq<char>, spans: Seq<Span>) -> Seq<Seq<char>> {
    Seq::new(spans.len(), |k: int| spans[k].cut(s))
}

/// `first_index` is the least position that holds `c`.
pub proof fn lemma_first_index<A>(s: Seq<A>, c: A)
    ensures
        first_index(s, c) <= s.len(),
        first_index(s, c) < s.len() ==> s[first_index(s, c) as int] == c,
        forall|j: int| 0 <= j < first_index(s, c) ==> s[j] != c,
    decreases s.len(),
{
    if s.len() == 0 || s[0] == c {
    } else {
        let rest = s.drop_first();
        lemma_first_index(rest, c);
        assert forall|j: int| 0 <= j < first_index(s, c) implies s[j] != c by {
            if j > 0 {
                assert(s[j] == rest[j - 1]);
            }
        }
    }
}

/// A position with no `c` before it, and `c` at it unless it is the end, is
/// the first index.
pub proof fn lemma_first_index_is<A>(s: Seq<A>, c: A, i: int)
    requires
        0 <= i <= s.len(),
        forall|j: int| 0 <= j < i ==> s[j] != c,
        i < s.len() ==> s[i] == c,
    ensures
        first_index(s, c) == i,
{
    lemma_first_index(s, c);
    let f = first_index(s, c) as int;
    if f < i {
        assert(s[f] != c);
    } else if f > i {
        assert(s[i] != c);
    }
}

/// `pieces` put together again, with `d` between one piece and the next.
pub open spec fn join(pieces: Seq<Seq<char>>, d: char) -> Seq<char>
    decreases pieces.len(),
{
    if pieces.len() == 0 {
        Seq::empty()
    } else if pieces.len() == 1 {
        pieces[0]
    } else {
        pieces[0] + seq![d] + join(pieces.drop_first(), d)
    }
}

/// Splitting loses nothing and leaves no delimiter behind: no piece holds
/// `d`, and the pieces joined by `d` are `s` again.
pub proof fn lemma_split(s: Seq<char>, d: char)
    ensures
        split(s, d).len() >= 1,
        forall|k: int, i: int|
            0 <= k < split(s, d).len() && 0 <= i < split(s, d)[k].len() ==> split(s, d)[k][i] != d,
        join(split(s, d), d) == s,
    decreases s.len(),
{
    lemma_first_index(s, d);
    let at = first_index(s, d) as int;
    if at < s.len() {
        let rest = s.skip(at + 1);
        let pieces = split(s, d);
        lemma_split(rest, d);
        assert(pieces.drop_first() == split(rest, d));
        assert(pieces[0] == s.take(at));
        assert forall|k: int, i: int|
            0 <= k < pieces.len() && 0 <= i < pieces[k].len() implies pieces[k][i] != d by {
            if k > 0 {
                assert(pieces[k] == split(rest, d)[k - 1]);
            }
        }
        assert(s.take(at) + seq![d] + rest == s);
    }
}

/// Finds the first `c` in `v[from..to]`; returns `to` when there is none.
pub fn find(v: &Vec<char>, from: usize, to: usize, c: char) -> (at: usize)
    requires
        from <= to <= v.len(),
    ensures
        at == from + first_index(v@.subrange(from as int, to as int), c),
        from <= at <= to,
{
    let mut i: usize = from;
    while i < to && v[i] != c
        invariant
            from <= i <= to <= v.len(),
            forall|j: int| from <= j < i ==> v@[j] != c,
        decreases to - i,
    {
        i += 1;
    }
    proof {
        lemma_first_index_is(v@.subrange(from as int, to as int), c, i - from);
    }
    i
}

/// Splits `v[from..to]` at every `d`, returning the span of each piece.
pub fn split_spans(v: &Vec<char>, from: usize, to: usize, d: char) -> (spans: Vec<Span>)
    requires
        from <= to <= v.len(),
    ensures
        cuts(v@, spans@) == split(v@.subrange(from as int, to as int), d),
        spans@.len() >= 1,
        forall|k: int| 0 <= k < spans@.len() ==> (#[trigger] spans@[k]).within(from as int, to as int),
{
    let mut spans: Vec<Span> = Vec::new();
    let mut start: usize = from;
    let ghost whole = v@.subrange(from as int, to as int);
    loop
        invariant_except_break
            split(whole, d) == cuts(v@, spans@) + split(v@.subrange(start as int, to as int), d),
        invariant
            from <= start <= to <= v.len(),
            whole == v@.subrange(from as int, to as int),
            forall|k: int| 0 <= k < spans@.len() ==> (#[trigger] spans@[k]).within(from as int, to as int),
        ensures
            cuts(v@, spans@) == split(whole, d),
            spans@.len() >= 1,
            forall|k: int| 0 <= k < spans@.len() ==> (#[trigger] spans@[k]).within(from as int, to as int),
        decreases to - start,
    {
        let at = find(v, start, to, d);
        let ghost rest = v@.subrange(start as int, to as int);
        let ghost before = cuts(v@, spans@);
        spans.push(Span { start, end: at });
        proof {
            assert(rest.take(at - start) == v@.subrange(start as int, at as int));
            if at < to {
                assert(rest.skip(at - start + 1) == v@.subrange(at + 1, to as int));
                assert(cuts(v@, spans@) == before + seq![rest.take(at - start)]);
            } else {
                assert(rest.take(at - start) == rest);
                assert(cuts(v@, spans@) == before + seq![rest]);
            }
        }
        if at >= to {
            break;
        }
        start = at + 1;
    }
    spans
}

/// Unicode white space, the characters that trimming removes.
pub open spec fn is_space(c: char) -> bool {
    let n = c as u32;
    ||| 0x09 <= n <= 0x0D
    ||| n == 0x20
    ||| n == 0x85
    ||| n == 0xA0
    ||| n == 0x1680
    ||| 0x2000 <= n <= 0x200A
    ||| n == 0x2028
    ||| n == 0x2029
    ||| n == 0x202F
    ||| n == 0x205F
    ||| n == 0x3000
}

/// `s` without its leading white space.
pub open spec fn trim_start(s: Seq<char>) -> Seq<char>
    decreases s.len(),
{
    if s.len() > 0 && is_space(s[0]) {
        trim_start(s.drop_first())
    } else {
        s
    }
}

/// `s` without its trailing white space.
pub open spec fn trim_end(s: Seq<char>) -> Seq<char>
    decreases s.len(),
{
    if s.len() > 0 && is_space(s.last()) {
        trim_end(s.drop_last())
    } else {
        s
    }
}

/// `s` without the white space around it.
pub open spec fn trim(s: Seq<char>) -> Seq<char> {
    trim_end(trim_start(s))
}

/// Tells whether `c` is white space.
pub fn is_space_char(c: char) -> (r: bool)
    ensures
        r == is_space(c),
{
    let n: u32 = c as u32;
    (0x09 <= n && n <= 0x0D) || n == 0x20 || n == 0x85 || n == 0xA0 || n == 0x1680 || (0x2000 <= n
        && n <= 0x200A) || n == 0x2028 || n == 0x2029 || n == 0x202F || n == 0x205F || n == 0x3000
}

/// Narrows `span` until no white space is left at either end.
pub fn trim_span(v: &Vec<char>, span: Span) -> (r: Span)
    requires
        span.within(0, v.len() as int),
    ensures
        r.within(span.start as int, span.end as int),
        r.cut(v@) == trim(span.cut(v@)),
{
    let mut a: usize = span.start;
    while a < span.end && is_space_char(v[a])
        invariant
            span.start <= a <= span.end <= v.len(),
            trim_start(span.cut(v@)) == trim_start(v@.subrange(a as int, span.end as int)),
        decreases span.end - a,
    {
        assert(v@.subrange(a as int, span.end as int).drop_first() == v@.subrange(
            a + 1,
            span.end as int,
        ));
        a += 1;
    }
    let mut b: usize = span.end;
    while b > a && is_space_char(v[b - 1])
        invariant
            a <= b <= span.end <= v.len(),
            trim(span.cut(v@)) == trim_end(v@.subrange(a as int, b as int)),
        decreases b,
    {
        assert(v@.subrange(a as int, b as int).drop_last() == v@.subrange(a as int, b - 1));
        b -= 1;
    }
    Span { start: a, end: b }
}

/// An ASCII decimal digit.
pub open spec fn is_digit(c: char) -> bool {
    0x30 <= c as u32 <= 0x39
}

/// The number a digit stands for.
pub open spec fn digit_value(c: char) -> int {
    c as u32 - 0x30
}

/// Every character of `s` is a digit.
pub open spec fn all_digits(s: Seq<char>) -> bool {
    forall|i: int| 0 <= i < s.len() ==> is_digit(#[trigger] s[i])
}

/// The number that the digits of `s` write in base ten; leading zeros count
/// for nothing.
pub open spec fn decimal_value(s: Seq<char>) -> int
    decreases s.len(),
{
    if s.len() == 0 {
        0
    } else {
        10 * decimal_value(s.drop_last()) + digit_value(s.last())
    }
}

/// The digits of a count token: the token itself, less one leading `+`.
pub open spec fn count_digits(s: Seq<char>) -> Seq<char> {
    if s.len() > 0 && s[0] == '+' {
        s.drop_first()
    } else {
        s
    }
}

/// A player count: one or more digits, optionally signed `+`, that write a
/// number from 1 to `i32::MAX`. Anything else is no count.
pub open spec fn parse_count(s: Seq<char>) -> Option<int> {
    let digits = count_digits(s);
    if digits.len() > 0 && all_digits(digits) && 1 <= decimal_value(digits) <= i32::MAX {
        Some(decimal_value(digits))
    } else {
        None
    }
}

/// A run of digits writes at least what any of its prefixes writes.
pub proof fn lemma_decimal_prefix(s: Seq<char>, k: int)
    requires
        all_digits(s),
        0 <= k <= s.len(),
    ensures
        0 <= decimal_value(s.take(k)) <= decimal_value(s),
    decreases s.len(),
{
    if s.len() == 0 {
        assert(s.take(k) == s);
    } else if k == s.len() {
        assert(s.take(k) == s);
        lemma_decimal_prefix(s.drop_last(), k - 1);
        assert(is_digit(s.last()));
    } else {
        assert(all_digits(s.drop_last())) by {
            assert forall|i: int| 0 <= i < s.drop_last().len() implies is_digit(
                #[trigger] s.drop_last()[i],
            ) by {
                assert(s.drop_last()[i] == s[i]);
            }
        }
        lemma_decimal_prefix(s.drop_last(), k);
        lemma_decimal_prefix(s.drop_last(), s.len() - 1);
        assert(s.drop_last().take(s.len() - 1) == s.drop_last());
        assert(s.drop_last().take(k) == s.take(k));
        assert(is_digit(s.last()));
    }
}

/// Tells whether `c` is a decimal digit.
pub fn is_digit_char(c: char) -> (r: bool)
    ensures
        r == is_digit(c),
{
    let n: u32 = c as u32;
    0x30 <= n && n <= 0x39
}

/// Reads the player count that `span` holds, if it holds one.
pub fn parse_count_span(v: &Vec<char>, span: Span) -> (r: Option<i32>)
    requires
        span.within(0, v.len() as int),
    ensures
        match r {
            Some(n) => parse_count(span.cut(v@)) == Some(n as int),
            None => parse_count(span.cut(v@)) is None,
        },
{
    let mut i: usize = span.start;
    if i < span.end && v[i] == '+' {
        i += 1;
    }
    let first: usize = i;
    let ghost digits = v@.subrange(first as int, span.end as int);
    assert(digits == count_digits(span.cut(v@)));
    let mut acc: i32 = 0;
    while i < span.end
        invariant
            span.start <= first <= i <= span.end <= v.len(),
            digits == v@.subrange(first as int, span.end as int),
            digits == count_digits(span.cut(v@)),
            all_digits(digits.take(i - first)),
            acc == decimal_value(digits.take(i - first)),
            0 <= acc,
        decreases span.end - i,
    {
        let c = v[i];
        assert(digits[i - first] == c);
        if !is_digit_char(c) {
            return None;
        }
        let d: i32 = (c as u32 - 0x30) as i32;
        proof {
            let longer = digits.take(i - first + 1);
            assert(longer.drop_last() == digits.take(i - first));
            assert(longer.last() == c);
            assert(all_digits(longer)) by {
                assert forall|j: int| 0 <= j < longer.len() implies is_digit(#[trigger] longer[j]) by {
                    if j < i - first {
                        assert(longer[j] == digits.take(i - first)[j]);
                    }
                }
            }
            if all_digits(digits) {
                lemma_decimal_prefix(digits, i - first + 1);
            }
        }
        if acc > (i32::MAX - d) / 10 {
            return None;
        }
        acc = acc * 10 + d;
        i += 1;
    }
    assert(digits.take(i - first) == digits);
    if first < span.end && acc >= 1 {
        Some(acc)
    } else {
        None
    }
}

/// `s` without one trailing carriage return.
pub open spec fn strip_cr(s: Seq<char>) -> Seq<char> {
    if s.len() > 0 && s.last() == '\r' {
        s.drop_last()
    } else {
        s
    }
}

/// The lines of a text. A line ends at a line feed, or at a carriage return
/// directly followed by one; neither belongs to the line. What follows the
/// last line feed is a line of its own unless it is empty.
pub open spec fn lines_of(text: Seq<char>) -> Seq<Seq<char>>
    decreases text.len(),
{
    if text.len() == 0 {
        Seq::empty()
    } else {
        let i = first_index(text, '\n') as int;
        if i >= text.len() {
            seq![text]
        } else {
            seq![strip_cr(text.take(i))] + lines_of(text.skip(i + 1))
        }
    }
}

/// Finds the lines of `v`, returning the span of each.
pub fn line_spans(v: &Vec<char>) -> (spans: Vec<Span>)
    ensures
        cuts(v@, spans@) == lines_of(v@),
        forall|k: int| 0 <= k < spans@.len() ==> (#[trigger] spans@[k]).within(0, v.len() as int),
{
    let n: usize = v.len();
    let mut spans: Vec<Span> = Vec::new();
    let mut start: usize = 0;
    assert(v@.subrange(0, n as int) == v@);
    while start < n
        invariant
            start <= n == v.len(),
            lines_of(v@) == cuts(v@, spans@) + lines_of(v@.subrange(start as int, n as int)),
            forall|k: int| 0 <= k < spans@.len() ==> (#[trigger] spans@[k]).within(0, n as int),
        decreases n - start,
    {
        let at = find(v, start, n, '\n');
        let ghost rest = v@.subrange(start as int, n as int);
        let ghost before = cuts(v@, spans@);
        assert(rest.take(at - start) == v@.subrange(start as int, at as int));
        if at >= n {
            spans.push(Span { start, end: n });
            assert(rest.take(at - start) == rest);
            assert(cuts(v@, spans@) == before + seq![rest]);
            assert(lines_of(v@.subrange(n as int, n as int)) == Seq::<Seq<char>>::empty());
            start = n;
        } else {
            let end: usize = if at > start && v[at - 1] == '\r' {
                at - 1
            } else {
                at
            };
            spans.push(Span { start, end });
            assert(v@.subrange(start as int, end as int) == strip_cr(rest.take(at - start))) by {
                if end < at {
                    assert(rest.take(at - start).drop_last() == v@.subrange(
                        start as int,
                        end as int,
                    ));
                }
            }
            assert(rest.skip(at - start + 1) == v@.subrange(at + 1, n as int));
            assert(cuts(v@, spans@) == before + seq![strip_cr(rest.take(at - start))]);
            start = at + 1;
        }
    }
    spans
}

/// Tells whether `span` covers exactly the characters of `word`.
pub fn span_is(v: &Vec<char>, span: Span, word: &str) -> (r: bool)
    requires
        span.within(0, v.len() as int),
    ensures
        r == (span.cut(v@) == word@),
{
    let w = chars_of(word);
    if w.len() != span.end - span.start {
        return false;
    }
    let mut k: usize = 0;
    while k < w.len()
        invariant
            span.within(0, v.len() as int),
            w.len() == span.end - span.start,
            w@ == word@,
            k <= w.len(),
            forall|j: int| 0 <= j < k ==> span.cut(v@)[j] == w@[j],
        decreases w.len() - k,
    {
        if v[span.start + k] != w[k] {
            assert(span.cut(v@)[k as int] != word@[k as int]);
            return false;
        }
        k += 1;
    }
    assert(span.cut(v@) =~= word@);
    true
}

/// Copies out the part of `text` that `span` covers.
pub fn keep(text: &str, span: Span) -> (r: String)
    requires
        span.within(0, text@.len() as int),
    ensures
        r@ == span.cut(text@),
{
    text.substring_char(span.start, span.end).to_owned()
}

/// The character that writes the digit `d`.
pub open spec fn digit_char(d: int) -> char {
    if d == 0 {
        '0'
    } else if d == 1 {
        '1'
    } else if d == 2 {
        '2'
    } else if d == 3 {
        '3'
    } else if d == 4 {
        '4'
    } else if d == 5 {
        '5'
    } else if d == 6 {
        '6'
    } else if d == 7 {
        '7'
    } else if d == 8 {
        '8'
    } else {
        '9'
    }
}

/// `n` written in base ten, without leading zeros.
pub open spec fn decimal_digits(n: nat) -> Seq<char>
    decreases n,
{
    if n < 10 {
        seq![digit_char(n as int)]
    } else {
        decimal_digits(n / 10).push(digit_char((n % 10) as int))
    }
}

/// `n` written in base ten, with a minus sign where it is negative.
pub open spec fn signed_digits(n: int) -> Seq<char> {
    if n < 0 {
        seq!['-'] + decimal_digits((-n) as nat)
    } else {
        decimal_digits(n as nat)
    }
}

fn digit_str(d: u64) -> (s: &'static str)
    requires
        d < 10,
    ensures
        s@ == seq![digit_char(d as int)],
{
    proof {
        reveal_strlit("0");
        reveal_strlit("1");
        reveal_strlit("2");
        reveal_strlit("3");
        reveal_strlit("4");
        reveal_strlit("5");
        reveal_strlit("6");
        reveal_strlit("7");
        reveal_strlit("8");
        reveal_strlit("9");
    }
    let s = if d == 0 {
        "0"
    } else if d == 1 {
        "1"
    } else if d == 2 {
        "2"
    } else if d == 3 {
        "3"
    } else if d == 4 {
        "4"
    } else if d == 5 {
        "5"
    } else if d == 6 {
        "6"
    } else if d == 7 {
        "7"
    } else if d == 8 {
        "8"
    } else {
        "9"
    };
    assert(s@ =~= seq![digit_char(d as int)]);
    s
}

/// Appends `n`, written in base ten, to `out`.
pub fn push_decimal(out: &mut String, n: u64)
    ensures
        final(out)@ == old(out)@ + decimal_digits(n as nat),
    decreases n,
{
    if n >= 10 {
        push_decimal(out, n / 10);
    }
    out.append(digit_str(n % 10));
    assert(out@ =~= old(out)@ + decimal_digits(n as nat));
}

/// Appends `n`, written in base ten with its sign, to `out`.
pub fn push_signed(out: &mut String, n: i32)
    ensures
        final(out)@ == old(out)@ + signed_digits(n as int),
{
    if n < 0 {
        out.append("-");
        proof {
            reveal_strlit("-");
        }
        push_decimal(out, (-(n as i64)) as u64);
        assert(out@ =~= old(out)@ + signed_digits(n as int));
    } else {
        push_decimal(out, n as u64);
    }
}

/// Decimal digits are digits, and there is one at least.
pub proof fn lemma_decimal_digits(n: nat)
    ensures
        decimal_digits(n).len() >= 1,
        all_digits(decimal_digits(n)),
    decreases n,
{
    if n >= 10 {
        lemma_decimal_digits(n / 10);
    }
}

/// A signed number is written with digits after at most one minus sign, and
/// ends in a digit.
pub proof fn lemma_signed_digits(n: int)
    ensures
        signed_digits(n).len() >= 1,
        is_digit(signed_digits(n).last()),
        forall|i: int|
            0 <= i < signed_digits(n).len() ==> is_digit(#[trigger] signed_digits(n)[i])
                || signed_digits(n)[i] == '-',
{
    if n < 0 {
        lemma_decimal_digits((-n) as nat);
        let digits = decimal_digits((-n) as nat);
        assert forall|i: int| 0 <= i < signed_digits(n).len() implies is_digit(
            #[trigger] signed_digits(n)[i],
        ) || signed_digits(n)[i] == '-' by {
            if i > 0 {
                assert(signed_digits(n)[i] == digits[i - 1]);
            }
        }
        assert(signed_digits(n).last() == digits.last());
    } else {
        lemma_decimal_digits(n as nat);
    }
}

/// Reading back what was written gives the number that was written.
pub proof fn lemma_decimal_round_trip(n: nat)
    ensures
        decimal_value(decimal_digits(n)) == n,
    decreases n,
{
    let digits = decimal_digits(n);
    let d = (n % 10) as int;
    assert(digit_value(digit_char(d)) == d);
    if n >= 10 {
        lemma_decimal_round_trip(n / 10);
        assert(digits.drop_last() == decimal_digits(n / 10));
        assert(digits.last() == digit_char(d));
    } else {
        assert(digits.drop_last() == Seq::<char>::empty());
        assert(digits.last() == digit_char(d));
        assert(decimal_value(digits.drop_last()) == 0);
    }
}

/// Different numbers are written differently.
pub proof fn lemma_signed_digits_differ(a: int, b: int)
    requires
        a != b,
    ensures
        signed_digits(a) != signed_digits(b),
{
    let da = decimal_digits((if a < 0 { -a } else { a }) as nat);
    let db = decimal_digits((if b < 0 { -b } else { b }) as nat);
    lemma_decimal_round_trip((if a < 0 { -a } else { a }) as nat);
    lemma_decimal_round_trip((if b < 0 { -b } else { b }) as nat);
    lemma_decimal_digits((if a < 0 { -a } else { a }) as nat);
    lemma_decimal_digits((if b < 0 { -b } else { b }) as nat);
    if a < 0 && b < 0 {
        if signed_digits(a) == signed_digits(b) {
            assert(signed_digits(a).drop_first() == da);
            assert(signed_digits(b).drop_first() == db);
        }
    } else if a < 0 {
        assert(signed_digits(a)[0] == '-');
        assert(is_digit(db[0]));
    } else if b < 0 {
        assert(signed_digits(b)[0] == '-');
        assert(is_digit(da[0]));
    }
}

} // verus!
