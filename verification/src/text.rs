//! Character-level building blocks: whitespace, trimming, splitting,
//! decimal numbers. Everything here is stated over `Seq<char>`, the view
//! of `str` and `String`.

use vstd::prelude::*;

verus! {

/// The characters of `s`, in order.
pub fn chars_of(s: &str) -> (out: Vec<char>)
    ensures
        out@ == s@,
{
    let mut out: Vec<char> = Vec::new();
    for c in it: s.chars()
        invariant
            out@ == it.seq().take(it.index() as int),
            it.seq() == s@,
    {
        out.push(c);
    }
    out
}

/// Whether two texts hold the same characters.
pub fn same_text(a: &str, b: &str) -> (r: bool)
    ensures
        r == (a@ == b@),
{
    let left = chars_of(a);
    let right = chars_of(b);
    if left.len() != right.len() {
        return false;
    }
    let mut i: usize = 0;
    while i < left.len()
        invariant
            i <= left.len(),
            left.len() == right.len(),
            left@ == a@,
            right@ == b@,
            forall|j: int| 0 <= j < i ==> left@[j] == right@[j],
        decreases left.len() - i,
    {
        if left[i] != right[i] {
            return false;
        }
        i += 1;
    }
    assert(left@ =~= right@);
    true
}

/// Whether `chars[start..end]` spells `word`.
pub fn range_is(chars: &Vec<char>, start: usize, end: usize, word: &str) -> (r: bool)
    requires
        start <= end <= chars@.len(),
    ensures
        r == (chars@.subrange(start as int, end as int) == word@),
{
    let wanted = chars_of(word);
    let ghost part = chars@.subrange(start as int, end as int);
    if wanted.len() != end - start {
        return false;
    }
    let mut i: usize = 0;
    while i < wanted.len()
        invariant
            i <= wanted.len(),
            wanted.len() == end - start,
            wanted@ == word@,
            start <= end <= chars@.len(),
            part == chars@.subrange(start as int, end as int),
            forall|j: int| 0 <= j < i ==> part[j] == wanted@[j],
        decreases wanted.len() - i,
    {
        assert(part[i as int] == chars@[start + i]);
        if chars[start + i] != wanted[i] {
            return false;
        }
        i += 1;
    }
    assert(part =~= wanted@);
    true
}

// ---------------------------------------------------------------------
// Whitespace and trimming
// ---------------------------------------------------------------------

/// The characters with the Unicode property `White_Space`.
pub open spec fn is_whitespace(c: char) -> bool {
    let u = c as u32;
    ||| 0x09 <= u <= 0x0D
    ||| u == 0x20
    ||| u == 0x85
    ||| u == 0xA0
    ||| u == 0x1680
    ||| 0x2000 <= u <= 0x200A
    ||| u == 0x2028
    ||| u == 0x2029
    ||| u == 0x202F
    ||| u == 0x205F
    ||| u == 0x3000
}

/// Whether `c` is whitespace.
pub fn char_is_whitespace(c: char) -> (r: bool)
    ensures
        r == is_whitespace(c),
{
    let u: u32 = c as u32;
    (0x09 <= u && u <= 0x0D) || u == 0x20 || u == 0x85 || u == 0xA0 || u == 0x1680 || (0x2000 <= u
        && u <= 0x200A) || u == 0x2028 || u == 0x2029 || u == 0x202F || u == 0x205F || u == 0x3000
}

/// How many whitespace characters `s` begins with.
pub open spec fn leading_whitespace(s: Seq<char>) -> nat
    decreases s.len(),
{
    if s.len() > 0 && is_whitespace(s[0]) {
        1 + leading_whitespace(s.drop_first())
    } else {
        0
    }
}

/// How many whitespace characters `s` ends with.
pub open spec fn trailing_whitespace(s: Seq<char>) -> nat
    decreases s.len(),
{
    if s.len() > 0 && is_whitespace(s.last()) {
        1 + trailing_whitespace(s.drop_last())
    } else {
        0
    }
}

/// Whether `s` holds nothing but whitespace.
pub open spec fn is_blank(s: Seq<char>) -> bool {
    leading_whitespace(s) == s.len()
}

/// `s` without the whitespace at either end.
pub open spec fn trimmed(s: Seq<char>) -> Seq<char> {
    if is_blank(s) {
        Seq::empty()
    } else {
        s.subrange(leading_whitespace(s) as int, s.len() - trailing_whitespace(s))
    }
}

/// `leading_whitespace(s)` is the position of the first character that is
/// not whitespace, or the length of `s`.
pub proof fn lemma_leading_whitespace(s: Seq<char>, k: int)
    requires
        0 <= k <= s.len(),
        forall|j: int| 0 <= j < k ==> is_whitespace(#[trigger] s[j]),
        k == s.len() || !is_whitespace(s[k]),
    ensures
        leading_whitespace(s) == k,
    decreases s.len(),
{
    if k > 0 {
        let rest = s.drop_first();
        assert forall|j: int| 0 <= j < k - 1 implies is_whitespace(#[trigger] rest[j]) by {
            assert(rest[j] == s[j + 1]);
        }
        if k - 1 < rest.len() {
            assert(rest[k - 1] == s[k]);
        }
        lemma_leading_whitespace(rest, k - 1);
    }
}

/// `trailing_whitespace(s)` counts back to the last character that is not
/// whitespace.
pub proof fn lemma_trailing_whitespace(s: Seq<char>, k: int)
    requires
        0 <= k <= s.len(),
        forall|j: int| k <= j < s.len() ==> is_whitespace(#[trigger] s[j]),
        k == 0 || !is_whitespace(s[k - 1]),
    ensures
        trailing_whitespace(s) == s.len() - k,
    decreases s.len(),
{
    if k < s.len() {
        let rest = s.drop_last();
        assert forall|j: int| k <= j < rest.len() implies is_whitespace(#[trigger] rest[j]) by {
            assert(rest[j] == s[j]);
        }
        if k > 0 {
            assert(rest[k - 1] == s[k - 1]);
        }
        lemma_trailing_whitespace(rest, k);
    }
}

/// A text that neither begins nor ends with whitespace is its own trim.
pub proof fn lemma_trimmed_tight(s: Seq<char>)
    requires
        s.len() == 0 || (!is_whitespace(s[0]) && !is_whitespace(s.last())),
    ensures
        trimmed(s) == s,
{
    if s.len() > 0 {
        lemma_leading_whitespace(s, 0);
        lemma_trailing_whitespace(s, s.len() as int);
        assert(s.subrange(0, s.len() as int) =~= s);
    } else {
        assert(trimmed(s) =~= s);
    }
}

/// A text in which some character is not whitespace is not blank.
pub proof fn lemma_not_blank(s: Seq<char>, at: int)
    requires
        0 <= at < s.len(),
        !is_whitespace(s[at]),
    ensures
        !is_blank(s),
    decreases s.len(),
{
    if at > 0 && is_whitespace(s[0]) {
        lemma_not_blank(s.drop_first(), at - 1);
    }
}

/// The bounds of `chars[start..end]` once trimmed.
pub fn trim_range(chars: &Vec<char>, start: usize, end: usize) -> (r: (usize, usize))
    requires
        start <= end <= chars@.len(),
    ensures
        start <= r.0 <= r.1 <= end,
        chars@.subrange(r.0 as int, r.1 as int) == trimmed(
            chars@.subrange(start as int, end as int),
        ),
        (r.0 == r.1) == is_blank(chars@.subrange(start as int, end as int)),
{
    let ghost part = chars@.subrange(start as int, end as int);
    let mut lo: usize = start;
    while lo < end && char_is_whitespace(chars[lo])
        invariant
            start <= lo <= end <= chars@.len(),
            part == chars@.subrange(start as int, end as int),
            forall|j: int| 0 <= j < lo - start ==> is_whitespace(#[trigger] part[j]),
        decreases end - lo,
    {
        lo += 1;
    }
    proof {
        if lo < end {
            assert(part[lo - start] == chars@[lo as int]);
        }
        lemma_leading_whitespace(part, lo - start);
    }
    if lo == end {
        assert(chars@.subrange(lo as int, lo as int) =~= Seq::<char>::empty());
        return (lo, lo);
    }
    let mut hi: usize = end;
    while hi > lo && char_is_whitespace(chars[hi - 1])
        invariant
            start <= lo < end <= chars@.len(),
            lo <= hi <= end,
            part == chars@.subrange(start as int, end as int),
            !is_whitespace(chars@[lo as int]),
            forall|j: int| hi - start <= j < part.len() ==> is_whitespace(#[trigger] part[j]),
        decreases hi - lo,
    {
        hi -= 1;
    }
    proof {
        assert(hi > lo);
        assert(part[hi - start - 1] == chars@[hi - 1]);
        lemma_trailing_whitespace(part, hi - start);
        assert(chars@.subrange(lo as int, hi as int) =~= part.subrange(
            lo - start,
            part.len() - (end - hi),
        ));
    }
    (lo, hi)
}

// ---------------------------------------------------------------------
// Splitting
// ---------------------------------------------------------------------

/// Position of the first `c` in `s`, or the length of `s` where there is
/// none.
pub open spec fn index_of(s: Seq<char>, c: char) -> nat
    decreases s.len(),
{
    if s.len() == 0 || s[0] == c {
        0
    } else {
        1 + index_of(s.drop_first(), c)
    }
}

/// Whether `c` occurs nowhere in `s`.
pub open spec fn lacks(s: Seq<char>, c: char) -> bool {
    forall|i: int| 0 <= i < s.len() ==> s[i] != c
}

/// `index_of(s, c)` is the first position that holds `c`.
pub proof fn lemma_index_of(s: Seq<char>, c: char, k: int)
    requires
        0 <= k <= s.len(),
        forall|j: int| 0 <= j < k ==> #[trigger] s[j] != c,
        k == s.len() || s[k] == c,
    ensures
        index_of(s, c) == k,
    decreases s.len(),
{
    if k > 0 {
        let rest = s.drop_first();
        assert forall|j: int| 0 <= j < k - 1 implies #[trigger] rest[j] != c by {
            assert(rest[j] == s[j + 1]);
        }
        if k - 1 < rest.len() {
            assert(rest[k - 1] == s[k]);
        }
        lemma_index_of(rest, c, k - 1);
    }
}

/// `index_of(s, c)` is within `s` or its length, holds `c` where it is
/// within, and no earlier position does.
pub proof fn lemma_index_of_bound(s: Seq<char>, c: char)
    ensures
        index_of(s, c) <= s.len(),
        index_of(s, c) < s.len() ==> s[index_of(s, c) as int] == c,
        forall|j: int| 0 <= j < index_of(s, c) ==> #[trigger] s[j] != c,
    decreases s.len(),
{
    if s.len() > 0 && s[0] != c {
        let rest = s.drop_first();
        lemma_index_of_bound(rest, c);
        assert forall|j: int| 0 <= j < index_of(s, c) implies #[trigger] s[j] != c by {
            if j > 0 {
                assert(rest[j - 1] == s[j]);
            }
        }
    }
}

/// The pieces of `s` between occurrences of `c`: one more piece than
/// there are occurrences.
pub open spec fn split_on(s: Seq<char>, c: char) -> Seq<Seq<char>>
    decreases s.len(),
{
    let i = index_of(s, c) as int;
    if i < s.len() {
        seq![s.take(i)] + split_on(s.skip(i + 1), c)
    } else {
        seq![s]
    }
}

/// `line` without one carriage return at its end.
pub open spec fn without_cr(line: Seq<char>) -> Seq<char> {
    if line.len() > 0 && line.last() == '\r' {
        line.drop_last()
    } else {
        line
    }
}

/// The lines of `s`. A line ends at a line feed, or at a carriage return
/// directly followed by one; neither belongs to the line. What follows
/// the last line feed is a line too, unless it is empty.
pub open spec fn lines_of(s: Seq<char>) -> Seq<Seq<char>>
    decreases s.len(),
{
    let i = index_of(s, '\n') as int;
    if s.len() == 0 {
        Seq::empty()
    } else if i < s.len() {
        seq![without_cr(s.take(i))] + lines_of(s.skip(i + 1))
    } else {
        seq![s]
    }
}

/// The first piece of a text ends where the separator first stands.
pub proof fn lemma_split_first(first: Seq<char>, rest: Seq<char>, c: char)
    requires
        lacks(first, c),
    ensures
        split_on(first + seq![c] + rest, c) == seq![first] + split_on(rest, c),
{
    let whole = first + seq![c] + rest;
    lemma_index_of(whole, c, first.len() as int);
    assert(whole.take(first.len() as int) =~= first);
    assert(whole.skip(first.len() as int + 1) =~= rest);
}

/// A text without the separator is one piece.
pub proof fn lemma_split_last(only: Seq<char>, c: char)
    requires
        lacks(only, c),
    ensures
        split_on(only, c) == seq![only],
{
    lemma_index_of(only, c, only.len() as int);
}

/// The lines of a text that ends a line, followed by more text, are the
/// lines of the one and then those of the other.
pub proof fn lemma_lines_of_concat(a: Seq<char>, b: Seq<char>)
    requires
        a.len() == 0 || a.last() == '\n',
    ensures
        lines_of(a + b) == lines_of(a) + lines_of(b),
    decreases a.len(),
{
    if a.len() == 0 {
        assert(a + b =~= b);
        assert(lines_of(a) + lines_of(b) =~= lines_of(b));
    } else {
        lemma_index_of_bound(a, '\n');
        let i = index_of(a, '\n') as int;
        assert(i < a.len());
        let whole = a + b;
        lemma_index_of(whole, '\n', i);
        assert(whole.take(i) =~= a.take(i));
        let tail = a.skip(i + 1);
        assert(whole.skip(i + 1) =~= tail + b);
        if tail.len() > 0 {
            assert(tail.last() == a.last());
        }
        lemma_lines_of_concat(tail, b);
        assert(seq![without_cr(a.take(i))] + (lines_of(tail) + lines_of(b)) =~= (seq![
            without_cr(a.take(i)),
        ] + lines_of(tail)) + lines_of(b));
    }
}

/// A line feed after a text without one makes it one line, which keeps
/// all its characters unless it ends in a carriage return.
pub proof fn lemma_lines_of_one(line: Seq<char>)
    requires
        lacks(line, '\n'),
        line.len() == 0 || line.last() != '\r',
    ensures
        lines_of(line + seq!['\n']) == seq![line],
{
    let whole = line + seq!['\n'];
    lemma_index_of(whole, '\n', line.len() as int);
    assert(whole.take(line.len() as int) =~= line);
    assert(whole.skip(line.len() as int + 1) =~= Seq::<char>::empty());
    assert(lines_of(Seq::<char>::empty()) =~= Seq::<Seq<char>>::empty());
    assert(without_cr(line) == line);
    assert(seq![line] + Seq::<Seq<char>>::empty() =~= seq![line]);
}

/// Where `chars[start..end]` first holds `c`, or `end`.
pub fn find_char(chars: &Vec<char>, start: usize, end: usize, c: char) -> (at: usize)
    requires
        start <= end <= chars@.len(),
    ensures
        start <= at <= end,
        at - start == index_of(chars@.subrange(start as int, end as int), c),
{
    let ghost part = chars@.subrange(start as int, end as int);
    let mut at: usize = start;
    while at < end && chars[at] != c
        invariant
            start <= at <= end <= chars@.len(),
            part == chars@.subrange(start as int, end as int),
            forall|j: int| 0 <= j < at - start ==> #[trigger] part[j] != c,
        decreases end - at,
    {
        at += 1;
    }
    proof {
        if at < end {
            assert(part[at - start] == chars@[at as int]);
        }
        lemma_index_of(part, c, at - start);
    }
    at
}

/// Whether `bounds` cuts `chars` into exactly the pieces `parts`.
pub open spec fn cut_as(
    chars: Seq<char>,
    bounds: Seq<(usize, usize)>,
    parts: Seq<Seq<char>>,
) -> bool {
    &&& bounds.len() == parts.len()
    &&& forall|k: int|
        0 <= k < bounds.len() ==> {
            &&& (#[trigger] bounds[k]).0 <= bounds[k].1 <= chars.len()
            &&& chars.subrange(bounds[k].0 as int, bounds[k].1 as int) == parts[k]
        }
}

/// Whether every one of `bounds` lies within `start..end`.
pub open spec fn all_within(bounds: Seq<(usize, usize)>, start: usize, end: usize) -> bool {
    forall|k: int|
        0 <= k < bounds.len() ==> start <= (#[trigger] bounds[k]).0 && bounds[k].1 <= end
}

/// The bounds of the pieces of `chars[start..end]` between occurrences
/// of `c`.
pub fn split_range(chars: &Vec<char>, start: usize, end: usize, c: char) -> (bounds: Vec<
    (usize, usize),
>)
    requires
        start <= end <= chars@.len(),
    ensures
        cut_as(chars@, bounds@, split_on(chars@.subrange(start as int, end as int), c)),
        all_within(bounds@, start, end),
{
    let ghost whole = chars@.subrange(start as int, end as int);
    let ghost mut done: Seq<Seq<char>> = Seq::empty();
    let mut bounds: Vec<(usize, usize)> = Vec::new();
    let mut pos: usize = start;
    loop
        invariant_except_break
            start <= pos <= end <= chars@.len(),
            whole == chars@.subrange(start as int, end as int),
            cut_as(chars@, bounds@, done),
            all_within(bounds@, start, end),
            split_on(whole, c) == done + split_on(chars@.subrange(pos as int, end as int), c),
        ensures
            cut_as(chars@, bounds@, split_on(whole, c)),
            all_within(bounds@, start, end),
        decreases end - pos,
    {
        let at = find_char(chars, pos, end, c);
        let ghost rest = chars@.subrange(pos as int, end as int);
        let ghost piece = chars@.subrange(pos as int, at as int);
        bounds.push((pos, at));
        proof {
            assert(rest.take(at - pos) =~= piece);
            if at < end {
                assert(rest.skip(at - pos + 1) =~= chars@.subrange(at + 1, end as int));
                assert(split_on(rest, c) == seq![piece] + split_on(
                    chars@.subrange(at + 1, end as int),
                    c,
                ));
                assert(done + (seq![piece] + split_on(chars@.subrange(at + 1, end as int), c))
                    =~= done.push(piece) + split_on(chars@.subrange(at + 1, end as int), c));
            } else {
                assert(rest =~= piece);
                assert(split_on(rest, c) == seq![piece]);
                assert(done + seq![piece] =~= done.push(piece));
            }
            done = done.push(piece);
        }
        if at == end {
            break;
        }
        pos = at + 1;
    }
    bounds
}

/// The bounds of the lines of `chars`.
pub fn line_ranges(chars: &Vec<char>) -> (bounds: Vec<(usize, usize)>)
    ensures
        cut_as(chars@, bounds@, lines_of(chars@)),
{
    let ghost mut done: Seq<Seq<char>> = Seq::empty();
    let mut bounds: Vec<(usize, usize)> = Vec::new();
    let end: usize = chars.len();
    let mut pos: usize = 0;
    assert(chars@.subrange(0, end as int) =~= chars@);
    while pos < end
        invariant
            pos <= end == chars@.len(),
            cut_as(chars@, bounds@, done),
            lines_of(chars@) == done + lines_of(chars@.subrange(pos as int, end as int)),
        decreases end - pos,
    {
        let at = find_char(chars, pos, end, '\n');
        let ghost rest = chars@.subrange(pos as int, end as int);
        let ghost piece = chars@.subrange(pos as int, at as int);
        proof {
            assert(rest.take(at - pos) =~= piece);
        }
        if at == end {
            bounds.push((pos, end));
            proof {
                assert(rest =~= piece);
                assert(lines_of(rest) == seq![piece]);
                assert(done + seq![piece] =~= done.push(piece));
                done = done.push(piece);
                assert(lines_of(chars@.subrange(end as int, end as int)) =~= Seq::<
                    Seq<char>,
                >::empty());
                assert(done + Seq::<Seq<char>>::empty() =~= done);
            }
            pos = end;
        } else {
            let stop: usize = if at > pos && chars[at - 1] == '\r' {
                at - 1
            } else {
                at
            };
            let ghost line = chars@.subrange(pos as int, stop as int);
            bounds.push((pos, stop));
            proof {
                if at > pos {
                    assert(piece.last() == chars@[at - 1]);
                }
                assert(without_cr(piece) =~= line);
                assert(rest.skip(at - pos + 1) =~= chars@.subrange(at + 1, end as int));
                assert(lines_of(rest) == seq![line] + lines_of(
                    chars@.subrange(at + 1, end as int),
                ));
                assert(done + (seq![line] + lines_of(chars@.subrange(at + 1, end as int)))
                    =~= done.push(line) + lines_of(chars@.subrange(at + 1, end as int)));
                done = done.push(line);
            }
            pos = at + 1;
        }
    }
    proof {
        assert(lines_of(chars@.subrange(pos as int, end as int)) =~= Seq::<Seq<char>>::empty());
        assert(done + Seq::<Seq<char>>::empty() =~= done);
    }
    bounds
}

// ---------------------------------------------------------------------
// Decimal numbers
// ---------------------------------------------------------------------

/// Whether `c` is one of the digits `0` to `9`.
pub open spec fn is_digit(c: char) -> bool {
    0x30 <= c as u32 <= 0x39
}

/// The number that the digit `c` writes.
pub open spec fn digit_value(c: char) -> nat {
    (c as u32 - 0x30) as nat
}

/// The character that writes the digit `d`.
pub open spec fn digit_char(d: nat) -> char {
    (0x30 + d) as u8 as char
}

/// Whether `s` holds digits only.
pub open spec fn all_digits(s: Seq<char>) -> bool {
    forall|i: int| 0 <= i < s.len() ==> is_digit(#[trigger] s[i])
}

/// The number that the digits of `s` write, the first digit weighing
/// most.
pub open spec fn digits_value(s: Seq<char>) -> nat
    decreases s.len(),
{
    if s.len() == 0 {
        0
    } else {
        digits_value(s.drop_last()) * 10 + digit_value(s.last())
    }
}

/// What `s` means as an unsigned decimal number of at most `max`: an
/// optional `+`, then one digit or more and nothing else.
pub open spec fn unsigned_value(s: Seq<char>, max: nat) -> Option<nat> {
    let body = if s.len() > 0 && s[0] == '+' {
        s.drop_first()
    } else {
        s
    };
    if body.len() > 0 && all_digits(body) && digits_value(body) <= max {
        Some(digits_value(body))
    } else {
        None
    }
}

/// The decimal digits of `n`, without leading zeros.
pub open spec fn decimal_digits(n: nat) -> Seq<char>
    decreases n,
{
    if n < 10 {
        seq![digit_char(n)]
    } else {
        decimal_digits(n / 10).push(digit_char(n % 10))
    }
}

/// A longer run of digits writes no smaller number than any of its
/// beginnings.
pub proof fn lemma_digits_value_grows(s: Seq<char>, k: int)
    requires
        0 <= k <= s.len(),
    ensures
        digits_value(s.take(k)) <= digits_value(s),
    decreases s.len() - k,
{
    if k < s.len() {
        lemma_digits_value_grows(s.drop_last(), k);
        assert(s.drop_last().take(k) =~= s.take(k));
    } else {
        assert(s.take(k) =~= s);
    }
}

/// The decimal digits of a number are digits, at least one, and write
/// that number.
pub proof fn lemma_decimal_digits(n: nat)
    ensures
        decimal_digits(n).len() > 0,
        all_digits(decimal_digits(n)),
        digits_value(decimal_digits(n)) == n,
    decreases n,
{
    if n < 10 {
        let s = decimal_digits(n);
        assert(s.drop_last() =~= Seq::<char>::empty());
        assert(digits_value(s.drop_last()) == 0);
    } else {
        lemma_decimal_digits(n / 10);
        let head = decimal_digits(n / 10);
        let s = head.push(digit_char(n % 10));
        assert(s.drop_last() =~= head);
        assert(s.last() == digit_char(n % 10));
        assert forall|i: int| 0 <= i < s.len() implies is_digit(#[trigger] s[i]) by {
            if i < head.len() {
                assert(s[i] == head[i]);
            }
        }
    }
}

/// Reading back the decimal digits of a number gives the number.
pub proof fn lemma_unsigned_value_of_digits(n: nat, max: nat)
    requires
        n <= max,
    ensures
        unsigned_value(decimal_digits(n), max) == Some(n),
{
    lemma_decimal_digits(n);
    let s = decimal_digits(n);
    assert(is_digit(s[0]));
}

/// The number that `chars[start..end]` writes, where it writes one that
/// fits.
pub fn parse_unsigned(chars: &Vec<char>, start: usize, end: usize) -> (r: Option<u128>)
    requires
        start <= end <= chars@.len(),
    ensures
        r == match unsigned_value(chars@.subrange(start as int, end as int), u128::MAX as nat) {
            Some(v) => Some(v as u128),
            None => None,
        },
{
    let ghost part = chars@.subrange(start as int, end as int);
    let from: usize = if start < end && chars[start] == '+' {
        start + 1
    } else {
        start
    };
    let ghost body = chars@.subrange(from as int, end as int);
    proof {
        if start < end {
            assert(part[0] == chars@[start as int]);
        }
        if from > start {
            assert(part.drop_first() =~= body);
        } else {
            assert(part =~= body);
        }
    }
    if from == end {
        return None;
    }
    let mut acc: u128 = 0;
    let mut i: usize = from;
    while i < end
        invariant
            start <= from <= i <= end <= chars@.len(),
            from < end,
            part == chars@.subrange(start as int, end as int),
            body == chars@.subrange(from as int, end as int),
            body == if part.len() > 0 && part[0] == '+' {
                part.drop_first()
            } else {
                part
            },
            all_digits(body.take(i - from)),
            acc == digits_value(body.take(i - from)),
        decreases end - i,
    {
        let c = chars[i];
        let ghost before = body.take(i - from);
        let ghost after = body.take(i - from + 1);
        proof {
            assert(body[i - from] == c);
            assert(after.drop_last() =~= before);
            assert(after.last() == c);
        }
        let u: u32 = c as u32;
        if u < 0x30 || u > 0x39 {
            assert(!is_digit(body[i - from]));
            return None;
        }
        let d: u128 = (u - 0x30) as u128;
        assert(digits_value(after) == acc * 10 + d);
        let next = match acc.checked_mul(10) {
            Some(t) => t.checked_add(d),
            None => None,
        };
        match next {
            Some(v) => {
                acc = v;
            },
            None => {
                proof {
                    lemma_digits_value_grows(body, i - from + 1);
                }
                return None;
            },
        }
        proof {
            assert forall|j: int| 0 <= j < after.len() implies is_digit(#[trigger] after[j]) by {
                if j < before.len() {
                    assert(after[j] == before[j]);
                }
            }
        }
        i += 1;
    }
    assert(body.take(end - from) =~= body);
    Some(acc)
}

/// The text of one decimal digit.
fn digit_text(d: u8) -> (out: &'static str)
    requires
        d < 10,
    ensures
        out@ == seq![digit_char(d as nat)],
{
    proof {
        reveal_strlit("0");
        reveal_strlit("1");
        reveal_strlit("2");
        reveal_strlit("3");
        reveal_strlit("4");
        reveal_strlit("5");
        reveal_strlit("6");
        reveal_strlit("7");
        reveal_strlit("8");
        reveal_strlit("9");
    }
    let out = match d {
        0 => "0",
        1 => "1",
        2 => "2",
        3 => "3",
        4 => "4",
        5 => "5",
        6 => "6",
        7 => "7",
        8 => "8",
        _ => "9",
    };
    assert(out@ =~= seq![digit_char(d as nat)]);
    out
}

/// Appends the decimal digits of `n` to `out`.
pub fn push_decimal(out: &mut String, n: u128)
    ensures
        final(out)@ == old(out)@ + decimal_digits(n as nat),
    decreases n,
{
    if n >= 10 {
        push_decimal(out, n / 10);
    }
    let d: u8 = (n % 10) as u8;
    out.append(digit_text(d));
    proof {
        let digit = seq![digit_char((n % 10) as nat)];
        if n >= 10 {
            assert(old(out)@ + decimal_digits((n / 10) as nat) + digit =~= old(out)@
                + decimal_digits((n / 10) as nat).push(digit_char((n % 10) as nat)));
        }
    }
}

/// The decimal digits of `n` as text.
pub fn decimal_text(n: u128) -> (out: String)
    ensures
        out@ == decimal_digits(n as nat),
{
    let mut out = String::new();
    push_decimal(&mut out, n);
    assert(Seq::<char>::empty() + decimal_digits(n as nat) =~= decimal_digits(n as nat));
    out
}

// ---------------------------------------------------------------------
// Building text
// ---------------------------------------------------------------------

/// `String::push`: the text grows by the one character at its end.
#[verifier::external_body]
fn push_char(out: &mut String, c: char)
    ensures
        final(out)@ == old(out)@.push(c),
{
    out.push(c);
}

/// The text with the characters `chars[start..end]`.
pub fn text_of_range(chars: &Vec<char>, start: usize, end: usize) -> (out: String)
    requires
        start <= end <= chars@.len(),
    ensures
        out@ == chars@.subrange(start as int, end as int),
{
    let mut out = String::new();
    let mut i: usize = start;
    while i < end
        invariant
            start <= i <= end <= chars@.len(),
            out@ == chars@.subrange(start as int, i as int),
        decreases end - i,
    {
        push_char(&mut out, chars[i]);
        assert(chars@.subrange(start as int, i as int).push(chars@[i as int]) =~= chars@.subrange(
            start as int,
            i + 1,
        ));
        i += 1;
    }
    out
}

// ---------------------------------------------------------------------
// Letter case
// ---------------------------------------------------------------------

/// What `str::to_lowercase` makes of `text`.
pub uninterp spec fn lowercase_of(text: Seq<char>) -> Seq<char>;

/// `str::to_lowercase`: the lowercase equivalent of the text, which is a
/// function of the text.
#[verifier::external_body]
pub(crate) fn to_lowercase(text: &str) -> (out: String)
    ensures
        out@ == lowercase_of(text@),
{
    text.to_lowercase()
}

} // verus!
