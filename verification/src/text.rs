//! Characters, strings and decimal numbers.

use vstd::prelude::*;
use vstd::string::StringExecFns;

verus! {

/// `String::push` of std: appends one character to the end of the string.
pub assume_specification[ String::push ](s: &mut String, c: char)
    ensures
        final(s)@ == old(s)@.push(c),
;

/// Whether `c` occurs nowhere in `s`.
pub open spec fn free_of(s: Seq<char>, c: char) -> bool {
    forall|i: int| 0 <= i < s.len() ==> s[i] != c
}

/// The characters of `s`, in order.
pub fn chars_of(s: &str) -> (v: Vec<char>)
    ensures
        v@ == s@,
{
    let mut v: Vec<char> = Vec::new();
    for c in it: s.chars()
        invariant
            it.seq() == s@,
            v@ == s@.take(it.index()),
    {
        v.push(c);
        assert(s@.take(it.index() + 1) == s@.take(it.index()).push(s@[it.index()]));
    }
    assert(s@.take(s@.len() as int) == s@);
    v
}

/// The string made of the characters `v[from..to]`.
pub fn string_of(v: &Vec<char>, from: usize, to: usize) -> (s: String)
    requires
        from <= to <= v.len(),
    ensures
        s@ == v@.subrange(from as int, to as int),
{
    let mut s = String::new();
    let mut i: usize = from;
    while i < to
        invariant
            from <= i <= to <= v.len(),
            s@ == v@.subrange(from as int, i as int),
        decreases to - i,
    {
        s.push(v[i]);
        i += 1;
        assert(v@.subrange(from as int, i as int) == v@.subrange(from as int, i - 1).push(v@[i - 1]));
    }
    s
}

/// The character that writes the digit `d`.
pub open spec fn digit_char(d: int) -> char {
    (48 + d) as u8 as char
}

/// `n` in decimal, most significant digit first, without leading zeros.
pub open spec fn decimal(n: nat) -> Seq<char>
    decreases n,
{
    if n < 10 {
        seq![digit_char(n as int)]
    } else {
        decimal(n / 10).push(digit_char((n % 10) as int))
    }
}

/// `n` in decimal, with a leading `-` when it is negative.
pub open spec fn signed_decimal(n: int) -> Seq<char> {
    if n < 0 {
        seq!['-'] + decimal((-n) as nat)
    } else {
        decimal(n as nat)
    }
}

/// Appends `n` in decimal to `out`.
pub fn push_decimal(n: u64, out: &mut String)
    ensures
        final(out)@ == old(out)@ + decimal(n as nat),
    decreases n,
{
    if n >= 10 {
        push_decimal(n / 10, out);
    }
    let d: u8 = (n % 10) as u8;
    out.push((48u8 + d) as char);
    proof {
        if n >= 10 {
            assert(final(out)@ == (old(out)@ + decimal((n / 10) as nat)).push(digit_char((n % 10) as int)));
        }
    }
}

/// `n` as text: its decimal digits, after a `-` when it is negative.
pub fn i64_text(n: i64) -> (s: String)
    ensures
        s@ == signed_decimal(n as int),
{
    let mut s = String::new();
    if n < 0 {
        s.push('-');
        let magnitude: u64 = if n == i64::MIN {
            9223372036854775808u64
        } else {
            (-n) as u64
        };
        push_decimal(magnitude, &mut s);
    } else {
        push_decimal(n as u64, &mut s);
    }
    s
}

/// The index just after the last `sep` of `s`, or 0 where `s` has none.
pub open spec fn last_piece_start(s: Seq<char>, sep: char) -> int
    decreases s.len(),
{
    if s.len() == 0 {
        0
    } else if s.last() == sep {
        s.len() as int
    } else {
        last_piece_start(s.drop_last(), sep)
    }
}

/// `last_piece_start` lies within the sequence, stands just after a `sep`
/// unless it is 0, and no `sep` follows it.
pub proof fn lemma_last_piece_start(s: Seq<char>, sep: char)
    ensures
        0 <= last_piece_start(s, sep) <= s.len(),
        last_piece_start(s, sep) > 0 ==> s[last_piece_start(s, sep) - 1] == sep,
        forall|i: int| last_piece_start(s, sep) <= i < s.len() ==> s[i] != sep,
    decreases s.len(),
{
    if s.len() > 0 && s.last() != sep {
        let t = s.drop_last();
        lemma_last_piece_start(t, sep);
        assert forall|i: int| last_piece_start(s, sep) <= i < s.len() implies s[i] != sep by {
            if i < t.len() {
                assert(s[i] == t[i]);
            }
        }
    }
}

/// Returns the start of the piece of `v[..end]` that follows its last `sep`.
pub fn piece_start_before(v: &Vec<char>, end: usize, sep: char) -> (start: usize)
    requires
        end <= v.len(),
    ensures
        start == last_piece_start(v@.take(end as int), sep),
        start <= end,
{
    let mut i: usize = end;
    while i > 0 && v[i - 1] != sep
        invariant
            i <= end <= v.len(),
            last_piece_start(v@.take(end as int), sep) == last_piece_start(v@.take(i as int), sep),
        decreases i,
    {
        assert(v@.take(i as int).drop_last() == v@.take(i - 1));
        i -= 1;
    }
    i
}

/// Whether `c` is a decimal digit.
pub open spec fn is_digit(c: char) -> bool {
    48 <= c as u32 && c as u32 <= 57
}

/// The number that the digits `s` write in decimal.
pub open spec fn digits_value(s: Seq<char>) -> int
    decreases s.len(),
{
    if s.len() == 0 {
        0
    } else {
        digits_value(s.drop_last()) * 10 + (s.last() as u32 - 48)
    }
}

/// Whether `s` holds nothing but decimal digits.
pub open spec fn all_digits(s: Seq<char>) -> bool {
    forall|i: int| 0 <= i < s.len() ==> is_digit(#[trigger] s[i])
}

/// The number written by digits grows, or stays, as digits are added.
pub proof fn lemma_digits_value_grows(s: Seq<char>, n: int)
    requires
        all_digits(s),
        0 <= n <= s.len(),
    ensures
        0 <= digits_value(s.take(n)) <= digits_value(s),
    decreases s.len() - n,
{
    lemma_digits_value_nonnegative(s.take(n));
    if n < s.len() {
        lemma_digits_value_grows(s, n + 1);
        assert(s.take(n + 1).drop_last() == s.take(n));
        assert(s.take(n + 1).last() == s[n]);
    } else {
        assert(s.take(n) == s);
    }
}

/// Digits write a number that is not negative.
pub proof fn lemma_digits_value_nonnegative(s: Seq<char>)
    requires
        all_digits(s),
    ensures
        0 <= digits_value(s),
    decreases s.len(),
{
    if s.len() > 0 {
        assert forall|i: int| 0 <= i < s.drop_last().len() implies is_digit(
            #[trigger] s.drop_last()[i],
        ) by {
            assert(s.drop_last()[i] == s[i]);
        }
        lemma_digits_value_nonnegative(s.drop_last());
    }
}

/// `decimal` writes digits only, and writes `n`.
pub proof fn lemma_decimal(n: nat)
    ensures
        decimal(n).len() >= 1,
        all_digits(decimal(n)),
        digits_value(decimal(n)) == n,
    decreases n,
{
    if n < 10 {
        let s = decimal(n);
        assert(s.drop_last() == Seq::<char>::empty());
        assert(digits_value(s.drop_last()) == 0);
    } else {
        lemma_decimal(n / 10);
        let head = decimal(n / 10);
        let s = head.push(digit_char((n % 10) as int));
        assert(s.drop_last() == head);
        assert forall|i: int| 0 <= i < s.len() implies is_digit(#[trigger] s[i]) by {
            if i < head.len() {
                assert(s[i] == head[i]);
            }
        }
    }
}

/// Two numbers that are written alike are the same number.
pub proof fn lemma_signed_decimal_injective(a: int, b: int)
    requires
        signed_decimal(a) == signed_decimal(b),
    ensures
        a == b,
{
    let x = if a < 0 { (-a) as nat } else { a as nat };
    let y = if b < 0 { (-b) as nat } else { b as nat };
    lemma_decimal(x);
    lemma_decimal(y);
    let dx = decimal(x);
    let dy = decimal(y);
    assert(is_digit(dx[0]) && is_digit(dy[0]));
    if a < 0 {
        assert(signed_decimal(a)[0] == '-');
        assert((seq!['-'] + dx).skip(1) == dx);
    } else {
        assert(signed_decimal(a)[0] == dx[0]);
    }
    if b < 0 {
        assert(signed_decimal(b)[0] == '-');
        assert((seq!['-'] + dy).skip(1) == dy);
    } else {
        assert(signed_decimal(b)[0] == dy[0]);
    }
}

/// A number is written without `/`.
pub proof fn lemma_signed_decimal_plain(a: int)
    ensures
        free_of(signed_decimal(a), '/'),
{
    let x = if a < 0 { (-a) as nat } else { a as nat };
    lemma_decimal(x);
    let dx = decimal(x);
    assert forall|i: int| 0 <= i < signed_decimal(a).len() implies signed_decimal(a)[i] != '/' by {
        if a < 0 {
            if i > 0 {
                assert(signed_decimal(a)[i] == dx[i - 1]);
                assert(is_digit(dx[i - 1]));
            }
        } else {
            assert(is_digit(dx[i]));
        }
    }
}

/// A text is cut at its first `sep` in one way only: where two texts
/// without `sep`, each followed by `sep` and a rest, make the same text, the
/// two texts are the same and so are the two rests.
pub proof fn lemma_cut_at_first(x: Seq<char>, r1: Seq<char>, y: Seq<char>, r2: Seq<char>, sep: char)
    requires
        free_of(x, sep),
        free_of(y, sep),
        x + seq![sep] + r1 == y + seq![sep] + r2,
    ensures
        x == y,
        r1 == r2,
{
    let left = x + seq![sep] + r1;
    let right = y + seq![sep] + r2;
    if x.len() < y.len() {
        assert(left[x.len() as int] == sep);
        assert(right[x.len() as int] == y[x.len() as int]);
    } else if y.len() < x.len() {
        assert(right[y.len() as int] == sep);
        assert(left[y.len() as int] == x[y.len() as int]);
    }
    assert(x =~= y) by {
        assert forall|i: int| 0 <= i < x.len() implies x[i] == y[i] by {
            assert(left[i] == x[i]);
            assert(right[i] == y[i]);
        }
    }
    assert(r1 =~= r2) by {
        assert(left.len() == right.len());
        assert forall|i: int| 0 <= i < r1.len() implies r1[i] == r2[i] by {
            assert(left[x.len() + 1 + i] == r1[i]);
            assert(right[y.len() + 1 + i] == r2[i]);
        }
    }
}

} // verus!
