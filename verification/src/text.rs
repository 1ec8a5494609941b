//! Comparison of strings by their characters.

use vstd::prelude::*;

verus! {

/// Whether two strings hold the same characters.
pub fn str_eq(a: &str, b: &str) -> (r: bool)
    ensures
        r == (a@ == b@),
{
    let n: usize = a.unicode_len();
    if n != b.unicode_len() {
        return false;
    }
    let mut i: usize = 0;
    while i < n
        invariant
            i <= n,
            n == a@.len(),
            n == b@.len(),
            forall|j: int| 0 <= j < i ==> a@[j] == b@[j],
        decreases n - i,
    {
        if a.get_char(i) != b.get_char(i) {
            return false;
        }
        i += 1;
    }
    assert(a@ =~= b@);
    true
}

/// Whether `c` occurs in `s`.
pub fn contains_char(s: &str, c: char) -> (r: bool)
    ensures
        r == s@.contains(c),
{
    let n: usize = s.unicode_len();
    let mut i: usize = 0;
    while i < n
        invariant
            i <= n,
            n == s@.len(),
            forall|j: int| 0 <= j < i ==> s@[j] != c,
        decreases n - i,
    {
        if s.get_char(i) == c {
            assert(s@[i as int] == c);
            return true;
        }
        i += 1;
    }
    false
}

/// Whether `s` ends with `suffix`.
pub fn ends_with(s: &str, suffix: &str) -> (r: bool)
    ensures
        r == (s@.len() >= suffix@.len() && s@.subrange(
            s@.len() - suffix@.len(),
            s@.len() as int,
        ) == suffix@),
{
    let n: usize = s.unicode_len();
    let m: usize = suffix.unicode_len();
    if n < m {
        return false;
    }
    str_eq(s.substring_char(n - m, n), suffix)
}

/// Whether a character is white space.
pub open spec fn is_white_space(c: char) -> bool {
    ||| 0x9 <= c as u32 <= 0xD
    ||| c as u32 == 0x20
    ||| c as u32 == 0x85
    ||| c as u32 == 0xA0
    ||| c as u32 == 0x1680
    ||| 0x2000 <= c as u32 <= 0x200A
    ||| c as u32 == 0x2028
    ||| c as u32 == 0x2029
    ||| c as u32 == 0x202F
    ||| c as u32 == 0x205F
    ||| c as u32 == 0x3000
}

/// Whether a character is white space.
pub fn white_space(c: char) -> (r: bool)
    ensures
        r == is_white_space(c),
{
    let n: u32 = c as u32;
    (0x9 <= n && n <= 0xD) || n == 0x20 || n == 0x85 || n == 0xA0 || n == 0x1680 || (0x2000 <= n
        && n <= 0x200A) || n == 0x2028 || n == 0x2029 || n == 0x202F || n == 0x205F || n == 0x3000
}

/// A text without white space at its start.
pub open spec fn trimmed_start(s: Seq<char>) -> Seq<char>
    decreases s.len(),
{
    if s.len() > 0 && is_white_space(s[0]) {
        trimmed_start(s.skip(1))
    } else {
        s
    }
}

/// A text without white space at its end.
pub open spec fn trimmed_end(s: Seq<char>) -> Seq<char>
    decreases s.len(),
{
    if s.len() > 0 && is_white_space(s.last()) {
        trimmed_end(s.drop_last())
    } else {
        s
    }
}

/// Trimming takes away white space at the ends of a text, all of it and nothing
/// else.
pub proof fn law_trimming_takes_white_space(s: Seq<char>)
    ensures
        trimmed_start(s).len() <= s.len(),
        trimmed_start(s) == s.skip(s.len() - trimmed_start(s).len()),
        trimmed_start(s).len() > 0 ==> !is_white_space(trimmed_start(s)[0]),
        forall|i: int|
            0 <= i < s.len() - trimmed_start(s).len() ==> is_white_space(#[trigger] s[i]),
        trimmed_end(s).len() <= s.len(),
        trimmed_end(s) == s.take(trimmed_end(s).len() as int),
        trimmed_end(s).len() > 0 ==> !is_white_space(trimmed_end(s).last()),
        forall|i: int| trimmed_end(s).len() <= i < s.len() ==> is_white_space(#[trigger] s[i]),
{
    lemma_trimmed_start(s);
    lemma_trimmed_end(s);
}

proof fn lemma_trimmed_start(s: Seq<char>)
    ensures
        trimmed_start(s).len() <= s.len(),
        trimmed_start(s) == s.skip(s.len() - trimmed_start(s).len()),
        trimmed_start(s).len() > 0 ==> !is_white_space(trimmed_start(s)[0]),
        forall|i: int|
            0 <= i < s.len() - trimmed_start(s).len() ==> is_white_space(#[trigger] s[i]),
    decreases s.len(),
{
    if s.len() > 0 && is_white_space(s[0]) {
        let rest = s.skip(1);
        lemma_trimmed_start(rest);
        let n = trimmed_start(rest).len();
        assert(rest.skip(rest.len() - n) =~= s.skip(s.len() - n));
        assert forall|i: int| 0 <= i < s.len() - n implies is_white_space(#[trigger] s[i]) by {
            if i > 0 {
                assert(rest[i - 1] == s[i]);
            }
        }
    } else {
        assert(s.skip(0) =~= s);
    }
}

proof fn lemma_trimmed_end(s: Seq<char>)
    ensures
        trimmed_end(s).len() <= s.len(),
        trimmed_end(s) == s.take(trimmed_end(s).len() as int),
        trimmed_end(s).len() > 0 ==> !is_white_space(trimmed_end(s).last()),
        forall|i: int| trimmed_end(s).len() <= i < s.len() ==> is_white_space(#[trigger] s[i]),
    decreases s.len(),
{
    if s.len() > 0 && is_white_space(s.last()) {
        let rest = s.drop_last();
        lemma_trimmed_end(rest);
        let n = trimmed_end(rest).len() as int;
        assert(rest.take(n) =~= s.take(n));
        assert forall|i: int| n <= i < s.len() implies is_white_space(#[trigger] s[i]) by {
            if i < rest.len() {
                assert(rest[i] == s[i]);
            }
        }
    } else {
        assert(s.take(s.len() as int) =~= s);
    }
}

/// Of the first characters, tabulators, line breaks and the blank are white
/// space, and no others.
pub proof fn law_white_space_of_ascii(c: char)
    requires
        (c as u32) < 0x80,
    ensures
        is_white_space(c) <==> (c == ' ' || ('\t' <= c && c <= '\r')),
{
}

/// A text without white space around it.
pub fn trim(s: &str) -> (r: &str)
    ensures
        r@ == trimmed_end(trimmed_start(s@)),
{
    let n: usize = s.unicode_len();
    let mut from: usize = 0;
    assert(s@.skip(0) =~= s@);
    while from < n && white_space(s.get_char(from))
        invariant
            n == s@.len(),
            from <= n,
            trimmed_start(s@) == trimmed_start(s@.skip(from as int)),
        decreases n - from,
    {
        assert(s@.skip(from as int).skip(1) =~= s@.skip(from + 1));
        from += 1;
    }
    let mut to: usize = n;
    assert(s@.subrange(from as int, n as int) =~= s@.skip(from as int));
    while from < to && white_space(s.get_char(to - 1))
        invariant
            n == s@.len(),
            from <= to <= n,
            trimmed_end(s@.skip(from as int)) == trimmed_end(s@.subrange(from as int, to as int)),
        decreases to - from,
    {
        assert(s@.subrange(from as int, to as int).drop_last() =~= s@.subrange(
            from as int,
            to - 1,
        ));
        to -= 1;
    }
    s.substring_char(from, to)
}

/// The part of a path behind its last separator, read from the left: `start`
/// is where the part begins that place `i` lies in.
pub open spec fn segment_from(s: Seq<char>, start: int, i: int) -> Seq<char>
    decreases s.len() - i,
{
    if i + 1 >= s.len() {
        s.skip(start)
    } else if s[i] == ':' && s[i + 1] == ':' {
        segment_from(s, i + 2, i + 2)
    } else {
        segment_from(s, start, i + 1)
    }
}

/// The bare name of a type is the end of its path. It begins with the path or
/// behind a separator, and holds none.
pub proof fn law_bare_names_hold_no_separator(s: Seq<char>)
    ensures
        segment_from(s, 0, 0).len() <= s.len(),
        segment_from(s, 0, 0) == s.skip(s.len() - segment_from(s, 0, 0).len()),
        segment_from(s, 0, 0).len() < s.len() ==> {
            let start = s.len() - segment_from(s, 0, 0).len();
            start >= 2 && s[start - 1] == ':' && s[start - 2] == ':'
        },
        forall|j: int, k: int|
            0 <= j && k == j + 1 && k < segment_from(s, 0, 0).len() ==> !(#[trigger] segment_from(
                s,
                0,
                0,
            )[j] == ':' && #[trigger] segment_from(s, 0, 0)[k] == ':'),
{
    lemma_segment(s, 0, 0);
}

proof fn lemma_segment(s: Seq<char>, start: int, i: int)
    requires
        0 <= start <= i <= s.len(),
        start == 0 || (start >= 2 && s[start - 1] == ':' && s[start - 2] == ':'),
        forall|j: int, k: int|
            start <= j && k == j + 1 && k <= i && k < s.len() ==> !(#[trigger] s[j] == ':'
                && #[trigger] s[k] == ':'),
    ensures
        segment_from(s, start, i).len() <= s.len(),
        segment_from(s, start, i) == s.skip(s.len() - segment_from(s, start, i).len()),
        segment_from(s, start, i).len() < s.len() ==> {
            let begin = s.len() - segment_from(s, start, i).len();
            begin >= 2 && s[begin - 1] == ':' && s[begin - 2] == ':'
        },
        forall|j: int, k: int|
            0 <= j && k == j + 1 && k < segment_from(s, start, i).len() ==> !(
            #[trigger] segment_from(s, start, i)[j] == ':' && #[trigger] segment_from(
                s,
                start,
                i,
            )[k] == ':'),
    decreases s.len() - i,
{
    if i + 1 >= s.len() {
        let r = s.skip(start);
        assert forall|j: int, k: int| 0 <= j && k == j + 1 && k < r.len() implies !(#[trigger] r[j]
            == ':' && #[trigger] r[k] == ':') by {
            assert(r[j] == s[start + j]);
            assert(r[k] == s[start + k]);
        }
    } else if s[i] == ':' && s[i + 1] == ':' {
        lemma_segment(s, i + 2, i + 2);
    } else {
        lemma_segment(s, start, i + 1);
    }
}

/// The last of the parts that `::` separates: the bare name of a type.
pub fn last_segment(s: &str) -> (r: &str)
    ensures
        r@ == segment_from(s@, 0, 0),
{
    let n: usize = s.unicode_len();
    let mut start: usize = 0;
    let mut i: usize = 0;
    while i < n && i + 1 < n
        invariant
            n == s@.len(),
            start <= i <= n,
            segment_from(s@, 0, 0) == segment_from(s@, start as int, i as int),
        decreases n - i,
    {
        if s.get_char(i) == ':' && s.get_char(i + 1) == ':' {
            i += 2;
            start = i;
        } else {
            i += 1;
        }
    }
    assert(s@.subrange(start as int, n as int) =~= s@.skip(start as int));
    s.substring_char(start, n)
}

/// A digit of a number with a base of at most 16.
pub open spec fn digit(d: int) -> char {
    "0123456789abcdef"@[d]
}

/// A number written in a base, without leading zeros.
pub open spec fn digits(n: nat, base: nat) -> Seq<char>
    decreases n,
{
    if base < 2 || n < base {
        seq![digit(n as int)]
    } else {
        proof {
            vstd::arithmetic::div_mod::lemma_div_decreases(n as int, base as int);
        }
        digits(n / base, base).push(digit((n % base) as int))
    }
}

/// The number that a digit stands for.
pub open spec fn digit_value(c: char) -> int {
    if '0' <= c && c <= '9' {
        c as int - '0' as int
    } else {
        c as int - 'a' as int + 10
    }
}

/// The number that digits stand for, the most significant one first.
pub open spec fn number_of(s: Seq<char>, base: nat) -> int
    decreases s.len(),
{
    if s.len() == 0 {
        0
    } else {
        number_of(s.drop_last(), base) * base + digit_value(s.last())
    }
}

/// A number can be read back from its digits, and has no zeros in front.
pub proof fn law_digits_are_read_back(n: nat, base: nat)
    requires
        2 <= base <= 16,
    ensures
        number_of(digits(n, base), base) == n,
        digits(n, base).len() > 0,
        n > 0 ==> digits(n, base)[0] != '0',
    decreases n,
{
    lemma_digit_value((n % base) as int);
    if n < base {
        lemma_digit_value(n as int);
        assert(digits(n, base).drop_last() =~= Seq::<char>::empty());
        assert(number_of(Seq::<char>::empty(), base) == 0);
        assert(0 * base == 0) by (nonlinear_arith);
        assert(number_of(digits(n, base), base) == n);
    } else {
        vstd::arithmetic::div_mod::lemma_div_decreases(n as int, base as int);
        vstd::arithmetic::div_mod::lemma_fundamental_div_mod(n as int, base as int);
        vstd::arithmetic::div_mod::lemma_div_non_zero(n as int, base as int);
        law_digits_are_read_back(n / base, base);
        assert(digits(n, base).drop_last() =~= digits(n / base, base));
        assert((n / base) * base == base * (n / base)) by (nonlinear_arith);
        assert(digits(n, base)[0] == digits(n / base, base)[0]);
    }
}

proof fn lemma_digit_value(d: int)
    requires
        0 <= d < 16,
    ensures
        digit_value(digit(d)) == d,
        d > 0 ==> digit(d) != '0',
{
    reveal_strlit("0123456789abcdef");
}

/// Writes a number in a base at the end of a text.
pub fn push_digits(out: &mut String, n: u64, base: u64)
    requires
        2 <= base <= 16,
    ensures
        final(out)@ == old(out)@ + digits(n as nat, base as nat),
    decreases n,
{
    let ghost before = out@;
    let d: u64 = n % base;
    if n >= base {
        proof {
            vstd::arithmetic::div_mod::lemma_div_decreases(n as int, base as int);
        }
        push_digits(out, n / base, base);
    } else {
        assert(d == n) by (nonlinear_arith)
            requires
                d == n % base,
                n < base,
        ;
    }
    let ghost between = out@;
    let all = "0123456789abcdef";
    proof {
        reveal_strlit("0123456789abcdef");
    }
    let one = all.substring_char(d as usize, d as usize + 1);
    assert(one@ =~= seq![digit(d as int)]);
    out.append(one);
    assert(out@ =~= before + digits(n as nat, base as nat));
}

} // verus!
