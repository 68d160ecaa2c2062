//! Text rendering used by the dashboard replies: decimal numbers,
//! zero-padded clock fields and substring tests.
use vstd::prelude::*;
use vstd::string::*;

verus! {

/// The character of a decimal digit.
pub open spec fn digit_char(d: nat) -> char {
    if d == 0 { '0' }
    else if d == 1 { '1' }
    else if d == 2 { '2' }
    else if d == 3 { '3' }
    else if d == 4 { '4' }
    else if d == 5 { '5' }
    else if d == 6 { '6' }
    else if d == 7 { '7' }
    else if d == 8 { '8' }
    else { '9' }
}

/// The decimal digits of a natural number, most significant first,
/// without leading zeros ("0" for zero).
pub open spec fn digits(n: nat) -> Seq<char>
    decreases n,
{
    if n < 10 {
        seq![digit_char(n)]
    } else {
        digits(n / 10) + seq![digit_char(n % 10)]
    }
}

/// The text `{}` gives for an integer: its digits, after a `-` when it is negative.
pub open spec fn decimal(n: int) -> Seq<char> {
    if n < 0 {
        seq!['-'] + digits((-n) as nat)
    } else {
        digits(n as nat)
    }
}

/// The text `{:02}` gives for a natural number: at least two digits,
/// padded on the left with `0`.
pub open spec fn two_digits(n: nat) -> Seq<char> {
    if n < 10 {
        seq!['0'] + digits(n)
    } else {
        digits(n)
    }
}

/// `needle` occurs in `hay` as a contiguous run of characters.
pub open spec fn contains_seq(hay: Seq<char>, needle: Seq<char>) -> bool {
    exists|i: int|
        0 <= i && i + needle.len() <= hay.len() && #[trigger] hay.subrange(i, i + needle.len())
            == needle
}

fn digit_str(d: u64) -> (s: &'static str)
    requires
        d < 10,
    ensures
        s@ == seq![digit_char(d as nat)],
{
    proof {
        reveal_strlit("0");
        reveal_strlit("1");
        reveal_strlit("2");
        reveal_strlit("3");
        reveal_strlit("4");
        reveal_strlit("5");
        reveal_strlit("6");
        reveal_strlit("7");
        reveal_strlit("8");
        reveal_strlit("9");
    }
    if d == 0 {
        "0"
    } else if d == 1 {
        "1"
    } else if d == 2 {
        "2"
    } else if d == 3 {
        "3"
    } else if d == 4 {
        "4"
    } else if d == 5 {
        "5"
    } else if d == 6 {
        "6"
    } else if d == 7 {
        "7"
    } else if d == 8 {
        "8"
    } else {
        "9"
    }
}

fn push_digits(out: &mut String, n: u64)
    ensures
        final(out)@ == old(out)@ + digits(n as nat),
    decreases n,
{
    if n >= 10 {
        push_digits(out, n / 10);
        out.append(digit_str(n % 10));
        assert(final(out)@ =~= old(out)@ + digits(n as nat));
    } else {
        out.append(digit_str(n));
    }
}

/// Renders an integer in decimal, as `format!("{}", n)` does.
pub fn format_i64(n: i64) -> (s: String)
    ensures
        s@ == decimal(n as int),
{
    let mut out = String::new();
    if n < 0 {
        proof {
            reveal_strlit("-");
        }
        out.append("-");
        let magnitude: u64 = if n == i64::MIN {
            9223372036854775808u64
        } else {
            (-n) as u64
        };
        push_digits(&mut out, magnitude);
    } else {
        push_digits(&mut out, n as u64);
    }
    out
}

/// Renders a number below one hundred with two digits, as `format!("{:02}", n)` does.
pub fn format_two_digits(n: u32) -> (s: String)
    requires
        n < 100,
    ensures
        s@ == two_digits(n as nat),
{
    let mut out = String::new();
    if n < 10 {
        proof {
            reveal_strlit("0");
        }
        out.append("0");
    }
    push_digits(&mut out, n as u64);
    out
}

/// The characters of a string slice, in order.
pub fn chars_of(s: &str) -> (v: Vec<char>)
    ensures
        v@ == s@,
{
    let mut v: Vec<char> = Vec::new();
    let n = s.unicode_len();
    let mut i: usize = 0;
    while i < n
        invariant
            n == s@.len(),
            i <= n,
            v@ == s@.subrange(0, i as int),
        decreases n - i,
    {
        v.push(s.get_char(i));
        i = i + 1;
        assert(v@ =~= s@.subrange(0, i as int));
    }
    assert(v@ =~= s@);
    v
}

fn matches_at(hay: &Vec<char>, needle: &Vec<char>, at: usize) -> (b: bool)
    requires
        at + needle.len() <= hay.len(),
    ensures
        b == (hay@.subrange(at as int, at + needle.len()) == needle@),
{
    let mut j: usize = 0;
    while j < needle.len()
        invariant
            at + needle.len() <= hay.len(),
            j <= needle.len(),
            forall|k: int| 0 <= k < j ==> hay@[at + k] == needle@[k],
        decreases needle.len() - j,
    {
        if hay[at + j] != needle[j] {
            assert(hay@.subrange(at as int, at + needle.len())[j as int] != needle@[j as int]);
            return false;
        }
        j = j + 1;
    }
    assert(hay@.subrange(at as int, at + needle.len()) =~= needle@);
    true
}

/// Whether `needle` occurs in `hay`, as `str::contains` answers for a string pattern.
pub fn contains_str(hay: &str, needle: &str) -> (b: bool)
    ensures
        b == contains_seq(hay@, needle@),
{
    let h = chars_of(hay);
    let p = chars_of(needle);
    if p.len() == 0 {
        assert(hay@.subrange(0int, 0int + needle@.len()) =~= needle@);
        return true;
    }
    if p.len() > h.len() {
        return false;
    }
    let last = h.len() - p.len();
    let mut i: usize = 0;
    while i <= last
        invariant
            h@ == hay@,
            p@ == needle@,
            last == h.len() - p.len(),
            1 <= p.len() <= h.len(),
            i <= last + 1,
            forall|k: int| 0 <= k < i ==> #[trigger] hay@.subrange(k, k + needle@.len()) != needle@,
        decreases last + 1 - i,
    {
        if matches_at(&h, &p, i) {
            return true;
        }
        i = i + 1;
    }
    false
}

/// The value of a decimal digit character; ten for any other character.
pub open spec fn digit_value(c: char) -> nat {
    if c == '0' { 0 }
    else if c == '1' { 1 }
    else if c == '2' { 2 }
    else if c == '3' { 3 }
    else if c == '4' { 4 }
    else if c == '5' { 5 }
    else if c == '6' { 6 }
    else if c == '7' { 7 }
    else if c == '8' { 8 }
    else if c == '9' { 9 }
    else { 10 }
}

/// The number a string of decimal digits stands for, read left to right.
pub open spec fn read_decimal(s: Seq<char>) -> int
    decreases s.len(),
{
    if s.len() == 0 {
        0
    } else {
        read_decimal(s.drop_last()) * 10 + digit_value(s.last())
    }
}

proof fn lemma_read_one_digit(prefix: Seq<char>, d: nat)
    requires
        d < 10,
    ensures
        digit_value(digit_char(d)) == d,
        read_decimal(prefix + seq![digit_char(d)]) == read_decimal(prefix) * 10 + d,
{
    let s = prefix + seq![digit_char(d)];
    assert(s.drop_last() =~= prefix);
    assert(s.last() == digit_char(d));
}

/// Rendered numbers read back as themselves: the digits of `n` are decimal
/// digits, the first is no `0` unless `n` is zero, and read left to right they
/// give `n`; a negative number is its magnitude after a `-`; the two-digit
/// rendering of a number below one hundred has exactly two digits and reads back
/// as the number.
pub proof fn law_decimal_reads_back(n: nat, i: int)
    ensures
        read_decimal(digits(n)) == n,
        0 <= i < digits(n).len() ==> digit_value(digits(n)[i]) < 10,
        digits(n).len() >= 1,
        n > 0 ==> digits(n)[0] != '0',
        n < 100 ==> two_digits(n).len() == 2 && read_decimal(two_digits(n)) == n,
        decimal(-(n as int)) == (if n == 0 { digits(0) } else { seq!['-'] + digits(n) }),
    decreases n,
{
    if n >= 10 {
        law_decimal_reads_back(n / 10, i);
        lemma_read_one_digit(digits(n / 10), n % 10);
        assert((n / 10) * 10 + n % 10 == n);
        if 0 <= i < digits(n).len() - 1 {
            assert(digits(n)[i] == digits(n / 10)[i]);
        }
        if i == digits(n).len() - 1 {
            assert(digits(n)[i] == digit_char(n % 10));
        }
        assert(digits(n)[0] == digits(n / 10)[0]);
    } else {
        lemma_read_one_digit(Seq::empty(), n);
        assert(Seq::<char>::empty() + seq![digit_char(n)] =~= digits(n));
    }
    if n < 100 {
        if n < 10 {
            lemma_read_one_digit(Seq::empty(), 0);
            assert(Seq::<char>::empty() + seq![digit_char(0)] =~= seq!['0']);
            lemma_read_one_digit(seq!['0'], n);
            assert(seq!['0'] + seq![digit_char(n)] =~= two_digits(n));
        } else {
            assert(two_digits(n) == digits(n));
            assert(digits(n / 10) == seq![digit_char(n / 10)]);
        }
    }
}

/// A run of characters placed inside a text is found in it, and a needle
/// longer than the text is never found.
pub proof fn law_contains_finds_inserted(a: Seq<char>, needle: Seq<char>, b: Seq<char>, hay: Seq<char>)
    ensures
        contains_seq(a + needle + b, needle),
        needle.len() > hay.len() ==> !contains_seq(hay, needle),
{
    let h = a + needle + b;
    assert(h.subrange(a.len() as int, a.len() + needle.len() as int) =~= needle);
}

} // verus!
