//! Character-level helpers shared by the modules that read or build text.

use vstd::prelude::*;
use vstd::string::StringSliceAdditionalSpecFns;
use vstd::utf8::encode_utf8_decode_utf8;

verus! {

/// `String::push` of the standard library: the character is appended to the
/// end of the string, and nothing else changes.
pub assume_specification[ String::push ](s: &mut String, c: char)
    ensures
        final(s)@ == old(s)@.push(c),
;

/// The characters of each string of a list.
pub open spec fn texts(list: Seq<String>) -> Seq<Seq<char>> {
    Seq::new(list.len(), |i: int| list[i]@)
}

/// Whether two strings hold the same characters.
pub fn same_text(a: &str, b: &str) -> (r: bool)
    ensures
        r == (a@ == b@),
{
    let x = a.as_bytes();
    let y = b.as_bytes();
    proof {
        encode_utf8_decode_utf8(a@);
        encode_utf8_decode_utf8(b@);
    }
    if x.len() != y.len() {
        return false;
    }
    let mut i: usize = 0;
    while i < x.len()
        invariant
            i <= x.len(),
            x.len() == y.len(),
            x@ == a.spec_bytes(),
            y@ == b.spec_bytes(),
            forall|j: int| 0 <= j < i ==> x@[j] == y@[j],
        decreases x.len() - i,
    {
        if x[i] != y[i] {
            assert(a@ != b@) by {
                if a@ == b@ {
                    assert(x@[i as int] == y@[i as int]);
                }
            }
            return false;
        }
        i += 1;
    }
    assert(x@ =~= y@);
    true
}

/// The characters of a string, in order.
pub fn chars_of(s: &str) -> (r: Vec<char>)
    ensures
        r@ == s@,
{
    let mut out: Vec<char> = Vec::new();
    for c in it: s.chars()
        invariant
            it.seq() == s@,
            out@ == s@.take(it.index() as int),
    {
        assert(s@.take(it.index() + 1) =~= s@.take(it.index() as int).push(c));
        out.push(c);
    }
    assert(s@.take(s@.len() as int) =~= s@);
    out
}

/// The string made of the characters `chars[from..to]`.
pub(crate) fn text_of(chars: &Vec<char>, from: usize, to: usize) -> (r: String)
    requires
        from <= to <= chars.len(),
    ensures
        r@ == chars@.subrange(from as int, to as int),
{
    let mut out = String::new();
    let mut i: usize = from;
    assert(chars@.subrange(from as int, from as int) =~= Seq::<char>::empty());
    while i < to
        invariant
            from <= i <= to <= chars.len(),
            out@ == chars@.subrange(from as int, i as int),
        decreases to - i,
    {
        assert(chars@.subrange(from as int, i + 1) =~= chars@.subrange(
            from as int,
            i as int,
        ).push(chars@[i as int]));
        out.push(chars[i]);
        i += 1;
    }
    out
}

/// The decimal digit that stands for `d`.
pub open spec fn digit(d: nat) -> char
    recommends
        d < 10,
{
    if d == 0 {
        '0'
    } else if d == 1 {
        '1'
    } else if d == 2 {
        '2'
    } else if d == 3 {
        '3'
    } else if d == 4 {
        '4'
    } else if d == 5 {
        '5'
    } else if d == 6 {
        '6'
    } else if d == 7 {
        '7'
    } else if d == 8 {
        '8'
    } else {
        '9'
    }
}

/// The decimal numeral of `n`, without sign or leading zeros.
pub open spec fn decimal(n: nat) -> Seq<char>
    decreases n,
{
    if n < 10 {
        seq![digit(n)]
    } else {
        decimal(n / 10).push(digit(n % 10))
    }
}

fn digit_char(d: u128) -> (c: char)
    requires
        d < 10,
    ensures
        c == digit(d as nat),
{
    if d == 0 {
        '0'
    } else if d == 1 {
        '1'
    } else if d == 2 {
        '2'
    } else if d == 3 {
        '3'
    } else if d == 4 {
        '4'
    } else if d == 5 {
        '5'
    } else if d == 6 {
        '6'
    } else if d == 7 {
        '7'
    } else if d == 8 {
        '8'
    } else {
        '9'
    }
}

/// The digits of `n` from the least significant to the most significant.
spec fn digits_backwards(n: nat) -> Seq<char>
    decreases n,
{
    if n < 10 {
        seq![digit(n)]
    } else {
        seq![digit(n % 10)] + digits_backwards(n / 10)
    }
}

proof fn lemma_digits_backwards(n: nat)
    ensures
        digits_backwards(n) =~= decimal(n).reverse(),
    decreases n,
{
    if n >= 10 {
        lemma_digits_backwards(n / 10);
    }
}

/// The decimal numeral of `n` as a string.
pub fn decimal_text(n: u128) -> (r: String)
    ensures
        r@ == decimal(n as nat),
{
    let mut low_first: Vec<char> = Vec::new();
    let mut rest: u128 = n;
    while rest >= 10
        invariant
            low_first@ + digits_backwards(rest as nat) == digits_backwards(n as nat),
        decreases rest,
    {
        let ghost before = low_first@;
        low_first.push(digit_char(rest % 10));
        assert(low_first@ + digits_backwards((rest / 10) as nat) =~= before + digits_backwards(
            rest as nat,
        ));
        rest = rest / 10;
    }
    low_first.push(digit_char(rest));
    assert(low_first@ =~= digits_backwards(n as nat));
    proof {
        lemma_digits_backwards(n as nat);
    }
    let ghost numeral = decimal(n as nat);
    assert(low_first@.len() == numeral.len());
    let mut out = String::new();
    let mut i: usize = low_first.len();
    while i > 0
        invariant
            i <= low_first.len(),
            low_first@ == numeral.reverse(),
            low_first@.len() == numeral.len(),
            out@ == numeral.take(low_first.len() - i),
        decreases i,
    {
        i -= 1;
        assert(numeral.take(low_first.len() - i) =~= numeral.take(low_first.len() - i - 1).push(
            low_first@[i as int],
        ));
        out.push(low_first[i]);
    }
    assert(numeral.take(numeral.len() as int) =~= numeral);
    out
}

/// The index of the first `c` in `s`, or the length of `s` if it holds none.
pub open spec fn first_index(s: Seq<char>, c: char) -> nat
    decreases s.len(),
{
    if s.len() == 0 || s[0] == c {
        0
    } else {
        1 + first_index(s.drop_first(), c)
    }
}

/// `first_index(s, c)` is `k` when no `c` stands before `k` and either one
/// stands at `k` or `s` ends there.
proof fn lemma_first_index(s: Seq<char>, c: char, k: nat)
    requires
        k <= s.len(),
        forall|j: int| 0 <= j < k ==> s[j] != c,
        k == s.len() || s[k as int] == c,
    ensures
        first_index(s, c) == k,
    decreases k,
{
    if k > 0 {
        let rest = s.drop_first();
        assert forall|j: int| 0 <= j < k - 1 implies rest[j] != c by {
            assert(rest[j] == s[j + 1]);
        }
        lemma_first_index(rest, c, (k - 1) as nat);
    }
}

/// The position of the first `c` in `chars[from..to]`, or `to` if there is
/// none.
pub(crate) fn find_char(chars: &Vec<char>, from: usize, to: usize, c: char) -> (r: usize)
    requires
        from <= to <= chars.len(),
    ensures
        from <= r <= to,
        r - from == first_index(chars@.subrange(from as int, to as int), c),
{
    let mut i: usize = from;
    while i < to && chars[i] != c
        invariant
            from <= i <= to <= chars.len(),
            forall|j: int| from <= j < i ==> chars@[j] != c,
        decreases to - i,
    {
        i += 1;
    }
    proof {
        lemma_first_index(chars@.subrange(from as int, to as int), c, (i - from) as nat);
    }
    i
}

/// The lines of a text: the pieces between line feeds. A text that ends in a
/// line feed has no empty last line, and the empty text has no line.
pub open spec fn lines(text: Seq<char>) -> Seq<Seq<char>>
    decreases text.len(),
{
    if text.len() == 0 {
        Seq::<Seq<char>>::empty()
    } else {
        let n = first_index(text, '\n');
        if n < text.len() {
            seq![text.take(n as int)] + lines(text.skip(n as int + 1))
        } else {
            seq![text]
        }
    }
}

/// Whether `range` is a range of positions in a sequence of length `len`.
pub open spec fn within(range: (usize, usize), len: nat) -> bool {
    range.0 <= range.1 <= len
}

/// The pieces of `chars` that `ranges` cuts out, in order.
pub open spec fn pieces(chars: Seq<char>, ranges: Seq<(usize, usize)>) -> Seq<Seq<char>> {
    Seq::new(ranges.len(), |i: int| chars.subrange(ranges[i].0 as int, ranges[i].1 as int))
}

/// The lines of `chars`, each as the range of positions it occupies.
pub fn line_ranges(chars: &Vec<char>) -> (r: Vec<(usize, usize)>)
    ensures
        forall|i: int| 0 <= i < r@.len() ==> within(#[trigger] r@[i], chars@.len()),
        pieces(chars@, r@) == lines(chars@),
{
    let mut out: Vec<(usize, usize)> = Vec::new();
    let mut start: usize = 0;
    assert(pieces(chars@, out@) + lines(chars@.skip(0)) =~= lines(chars@)) by {
        assert(chars@.skip(0) =~= chars@);
    }
    while start < chars.len()
        invariant
            start <= chars.len(),
            forall|i: int| 0 <= i < out@.len() ==> within(#[trigger] out@[i], chars@.len()),
            pieces(chars@, out@) + lines(chars@.skip(start as int)) == lines(chars@),
        decreases chars.len() - start,
    {
        let end = find_char(chars, start, chars.len(), '\n');
        proof {
            let rest = chars@.skip(start as int);
            let n = first_index(rest, '\n');
            assert(rest =~= chars@.subrange(start as int, chars@.len() as int));
            assert(n == end - start);
            let before = pieces(chars@, out@);
            let after = pieces(chars@, out@.push((start, end)));
            assert(after =~= before.push(chars@.subrange(start as int, end as int)));
            if n < rest.len() {
                assert(rest.take(n as int) =~= chars@.subrange(start as int, end as int));
                assert(rest.skip(n as int + 1) =~= chars@.skip(end + 1));
                assert(after + lines(chars@.skip(end + 1)) =~= before + lines(rest));
            } else {
                assert(rest =~= chars@.subrange(start as int, end as int));
                assert(lines(chars@.skip(chars@.len() as int)) =~= Seq::<Seq<char>>::empty());
                assert(after + lines(chars@.skip(chars@.len() as int)) =~= before + lines(rest));
            }
        }
        out.push((start, end));
        if end < chars.len() {
            start = end + 1;
        } else {
            start = end;
        }
    }
    assert(lines(chars@.skip(start as int)) =~= Seq::<Seq<char>>::empty());
    assert(pieces(chars@, out@) =~= lines(chars@));
    out
}

/// Whether `c` is ASCII white space: space, tab, line feed, form feed or
/// carriage return.
pub open spec fn is_blank(c: char) -> bool {
    c == ' ' || c == '\t' || c == '\n' || c == '\u{c}' || c == '\r'
}

/// The number of blank characters at the start of `s`.
pub open spec fn leading_blanks(s: Seq<char>) -> nat
    decreases s.len(),
{
    if s.len() > 0 && is_blank(s[0]) {
        1 + leading_blanks(s.drop_first())
    } else {
        0
    }
}

/// The number of blank characters at the end of `s`.
pub open spec fn trailing_blanks(s: Seq<char>) -> nat
    decreases s.len(),
{
    if s.len() > 0 && is_blank(s.last()) {
        1 + trailing_blanks(s.drop_last())
    } else {
        0
    }
}

/// `s` without the blank characters at its start and at its end.
pub open spec fn trimmed(s: Seq<char>) -> Seq<char> {
    let rest = s.skip(leading_blanks(s) as int);
    rest.take(rest.len() - trailing_blanks(rest))
}

/// `leading_blanks(s)` is `k` when the first `k` characters are blank and
/// the next one, if any, is not.
proof fn lemma_leading_blanks(s: Seq<char>, k: nat)
    requires
        k <= s.len(),
        forall|j: int| 0 <= j < k ==> is_blank(s[j]),
        k == s.len() || !is_blank(s[k as int]),
    ensures
        leading_blanks(s) == k,
    decreases k,
{
    if k > 0 {
        let rest = s.drop_first();
        assert forall|j: int| 0 <= j < k - 1 implies is_blank(rest[j]) by {
            assert(rest[j] == s[j + 1]);
        }
        lemma_leading_blanks(rest, (k - 1) as nat);
    }
}

/// `trailing_blanks(s)` is `k` when the last `k` characters are blank and
/// the one before them, if any, is not.
proof fn lemma_trailing_blanks(s: Seq<char>, k: nat)
    requires
        k <= s.len(),
        forall|j: int| s.len() - k <= j < s.len() ==> is_blank(s[j]),
        k == s.len() || !is_blank(s[s.len() - k - 1]),
    ensures
        trailing_blanks(s) == k,
    decreases k,
{
    if k > 0 {
        let rest = s.drop_last();
        assert forall|j: int| rest.len() - (k - 1) <= j < rest.len() implies is_blank(rest[j]) by {
            assert(rest[j] == s[j]);
        }
        lemma_trailing_blanks(rest, (k - 1) as nat);
    }
}

/// Whether `c` is ASCII white space.
pub fn blank(c: char) -> (r: bool)
    ensures
        r == is_blank(c),
{
    c == ' ' || c == '\t' || c == '\n' || c == '\u{c}' || c == '\r'
}

/// The range within `chars[from..to]` that is left when the blank
/// characters at both ends are dropped.
pub(crate) fn trim_range(chars: &Vec<char>, from: usize, to: usize) -> (r: (usize, usize))
    requires
        from <= to <= chars.len(),
    ensures
        from <= r.0 <= r.1 <= to,
        chars@.subrange(r.0 as int, r.1 as int) == trimmed(chars@.subrange(from as int, to as int)),
{
    let mut a: usize = from;
    while a < to && blank(chars[a])
        invariant
            from <= a <= to <= chars.len(),
            forall|j: int| from <= j < a ==> is_blank(chars@[j]),
        decreases to - a,
    {
        a += 1;
    }
    let mut b: usize = to;
    while b > a && blank(chars[b - 1])
        invariant
            a <= b <= to <= chars.len(),
            forall|j: int| b <= j < to ==> is_blank(chars@[j]),
        decreases b,
    {
        b -= 1;
    }
    proof {
        let s = chars@.subrange(from as int, to as int);
        lemma_leading_blanks(s, (a - from) as nat);
        let rest = s.skip((a - from) as int);
        assert(rest =~= chars@.subrange(a as int, to as int));
        lemma_trailing_blanks(rest, (to - b) as nat);
        assert(rest.take(rest.len() - (to - b)) =~= chars@.subrange(a as int, b as int));
    }
    (a, b)
}

/// Whether `chars[from..to]` holds exactly the characters of `word`.
pub(crate) fn range_is(chars: &Vec<char>, from: usize, to: usize, word: &str) -> (r: bool)
    requires
        from <= to <= chars.len(),
    ensures
        r == (chars@.subrange(from as int, to as int) == word@),
{
    let piece = text_of(chars, from, to);
    same_text(piece.as_str(), word)
}

/// Whether `c` is a decimal digit.
pub open spec fn is_digit(c: char) -> bool {
    48 <= c as u32 <= 57
}

/// Whether `s` is a decimal numeral: one digit or more, and nothing else.
pub open spec fn is_numeral(s: Seq<char>) -> bool {
    s.len() > 0 && forall|i: int| 0 <= i < s.len() ==> is_digit(#[trigger] s[i])
}

/// The number that the digits of `s` stand for.
pub open spec fn numeral_value(s: Seq<char>) -> nat
    decreases s.len(),
{
    if s.len() == 0 {
        0
    } else {
        numeral_value(s.drop_last()) * 10 + (s.last() as u32 - 48) as nat
    }
}

/// The digits read so far never stand for more than all the digits do.
proof fn lemma_numeral_value_grows(s: Seq<char>, i: int)
    requires
        0 <= i <= s.len(),
        forall|j: int| 0 <= j < s.len() ==> is_digit(#[trigger] s[j]),
    ensures
        numeral_value(s.take(i)) <= numeral_value(s),
    decreases s.len(),
{
    if i == s.len() {
        assert(s.take(i) =~= s);
    } else {
        let front = s.drop_last();
        assert(front.take(i) =~= s.take(i));
        assert forall|j: int| 0 <= j < front.len() implies is_digit(#[trigger] front[j]) by {
            assert(front[j] == s[j]);
        }
        lemma_numeral_value_grows(front, i);
        assert(is_digit(s[s.len() - 1]));
    }
}

/// The number that `chars[from..to]` stands for, if that is a decimal
/// numeral of a number up to `limit`.
pub(crate) fn read_numeral(chars: &Vec<char>, from: usize, to: usize, limit: u32) -> (r: Option<u32>)
    requires
        from <= to <= chars.len(),
    ensures
        r == if is_numeral(chars@.subrange(from as int, to as int)) && numeral_value(
            chars@.subrange(from as int, to as int),
        ) <= limit {
            Some(numeral_value(chars@.subrange(from as int, to as int)) as u32)
        } else {
            None
        },
{
    if from == to {
        return None;
    }
    let ghost all = chars@.subrange(from as int, to as int);
    let mut value: u64 = 0;
    let mut i: usize = from;
    assert(all.take(0) =~= Seq::<char>::empty());
    while i < to
        invariant
            from <= i <= to <= chars.len(),
            all == chars@.subrange(from as int, to as int),
            forall|j: int| 0 <= j < i - from ==> is_digit(#[trigger] all[j]),
            value == numeral_value(all.take(i - from)),
            value <= limit,
        decreases to - i,
    {
        let code = chars[i] as u32;
        assert(all[i - from] == chars@[i as int]);
        if code < 48 || code > 57 {
            return None;
        }
        proof {
            let read = all.take(i - from + 1);
            assert(read.drop_last() =~= all.take(i - from));
            assert(read.last() == chars@[i as int]);
        }
        value = value * 10 + (code - 48) as u64;
        i += 1;
        if value > limit as u64 {
            proof {
                if is_numeral(all) {
                    lemma_numeral_value_grows(all, i - from);
                }
            }
            return None;
        }
    }
    assert(all.take(to - from) =~= all);
    Some(value as u32)
}

} // verus!
