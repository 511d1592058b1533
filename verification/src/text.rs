//! Small text helpers: decimal numbers, substring search, ASCII case folding.
use vstd::prelude::*;

verus! {

/// The character of a decimal digit.
pub open spec fn digit_char(d: nat) -> char {
    (48 + d) as char
}

/// A natural number in decimal, without leading zeros.
pub open spec fn decimal(n: nat) -> Seq<char>
    decreases n,
{
    if n < 10 {
        seq![digit_char(n)]
    } else {
        decimal(n / 10).push(digit_char(n % 10))
    }
}

/// An integer in decimal, with a leading `-` where it is negative.
pub open spec fn signed_decimal(n: int) -> Seq<char> {
    if n < 0 {
        seq!['-'] + decimal((-n) as nat)
    } else {
        decimal(n as nat)
    }
}

/// `needle` occurs in `hay` as a run of consecutive characters.
pub open spec fn has_substring(hay: Seq<char>, needle: Seq<char>) -> bool {
    exists|i: int| #[trigger] occurs_at(hay, needle, i)
}

/// `needle` stands in `hay` at position `i`.
pub open spec fn occurs_at(hay: Seq<char>, needle: Seq<char>, i: int) -> bool {
    0 <= i && i + needle.len() <= hay.len() && hay.subrange(i, i + needle.len()) == needle
}

/// The lower-case form of an ASCII letter; any other character as it is.
pub open spec fn ascii_lower_char(c: char) -> char {
    if 'A' <= c && c <= 'Z' {
        (c as u32 + 32) as char
    } else {
        c
    }
}

/// A text with its ASCII letters in lower case.
pub open spec fn ascii_lower(s: Seq<char>) -> Seq<char> {
    s.map_values(|c: char| ascii_lower_char(c))
}

fn digit_text(d: u64) -> (r: &'static str)
    requires
        d < 10,
    ensures
        r@ == seq![digit_char(d as nat)],
{
    proof {
        reveal_strlit("0");
        reveal_strlit("1");
        reveal_strlit("2");
        reveal_strlit("3");
        reveal_strlit("4");
        reveal_strlit("5");
        reveal_strlit("6");
        reveal_strlit("7");
        reveal_strlit("8");
        reveal_strlit("9");
    }
    match d {
        0 => "0",
        1 => "1",
        2 => "2",
        3 => "3",
        4 => "4",
        5 => "5",
        6 => "6",
        7 => "7",
        8 => "8",
        _ => "9",
    }
}

/// Appends a number in decimal.
pub fn push_u64(out: &mut String, n: u64)
    ensures
        final(out)@ == old(out)@ + decimal(n as nat),
    decreases n,
{
    if n >= 10 {
        push_u64(out, n / 10);
    }
    out.append(digit_text(n % 10));
}

/// Appends a size in decimal.
pub fn push_usize(out: &mut String, n: usize)
    ensures
        final(out)@ == old(out)@ + decimal(n as nat),
{
    push_u64(out, n as u64);
}

/// Appends a signed number in decimal.
pub fn push_i32(out: &mut String, n: i32)
    ensures
        final(out)@ == old(out)@ + signed_decimal(n as int),
{
    if n < 0 {
        proof {
            reveal_strlit("-");
        }
        out.append("-");
        push_u64(out, (-(n as i64)) as u64);
    } else {
        push_u64(out, n as u64);
    }
}

/// The characters of a text, one by one.
pub fn chars_of(s: &str) -> (r: Vec<char>)
    ensures
        r@ == s@,
{
    let mut out: Vec<char> = Vec::new();
    for c in it: s.chars()
        invariant
            it.seq() == s@,
            out@ == s@.take(it.index()),
    {
        out.push(c);
    }
    out
}

/// Two texts are the same.
pub fn same_text(a: &str, b: &str) -> (r: bool)
    ensures
        r == (a@ == b@),
{
    a.to_owned() == b.to_owned()
}

/// Whether a text occurs within another.
pub fn contains_text(hay: &str, needle: &str) -> (r: bool)
    ensures
        r == has_substring(hay@, needle@),
{
    contains_chars(&chars_of(hay), &chars_of(needle))
}

fn chars_at(hay: &Vec<char>, needle: &Vec<char>, at: usize) -> (r: bool)
    requires
        at + needle@.len() <= hay@.len(),
    ensures
        r == occurs_at(hay@, needle@, at as int),
{
    let mut j: usize = 0;
    while j < needle.len()
        invariant
            at + needle.len() <= hay.len(),
            j <= needle.len(),
            forall|k: int| 0 <= k < j ==> hay@[at + k] == needle@[k],
        decreases needle@.len() - j,
    {
        if hay[at + j] != needle[j] {
            proof {
                if occurs_at(hay@, needle@, at as int) {
                    assert(hay@.subrange(at as int, at + needle@.len())[j as int] == needle@[j as int]);
                }
            }
            return false;
        }
        j = j + 1;
    }
    assert(hay@.subrange(at as int, at + needle@.len()) =~= needle@);
    true
}

fn contains_chars(hay: &Vec<char>, needle: &Vec<char>) -> (r: bool)
    ensures
        r == has_substring(hay@, needle@),
{
    let mut i: usize = 0;
    if needle.len() > hay.len() {
        return false;
    }
    let last: usize = hay.len() - needle.len();
    loop
        invariant
            i <= last,
            last == hay@.len() - needle@.len(),
            forall|k: int| 0 <= k < i ==> !occurs_at(hay@, needle@, k),
        decreases last - i,
    {
        if chars_at(hay, needle, i) {
            return true;
        }
        if i == last {
            return false;
        }
        i = i + 1;
    }
}

/// Whether a text, its ASCII letters taken in lower case, holds another.
pub fn contains_ascii_lower(hay: &str, needle: &str) -> (r: bool)
    ensures
        r == has_substring(ascii_lower(hay@), needle@),
{
    contains_chars(&ascii_lower_chars(hay), &chars_of(needle))
}

fn ascii_lower_chars(s: &str) -> (r: Vec<char>)
    ensures
        r@ == ascii_lower(s@),
{
    let mut out: Vec<char> = Vec::new();
    for c in it: s.chars()
        invariant
            it.seq() == s@,
            out@ == ascii_lower(s@.take(it.index())),
    {
        if 'A' <= c && c <= 'Z' {
            let code: u8 = c as u8;
            out.push((code + 32) as char);
        } else {
            out.push(c);
        }
        assert(s@.take(it.index() + 1) == s@.take(it.index()).push(c));
    }
    out
}

/// The value of a digit.
pub open spec fn digit_value(c: char) -> int {
    c as int - '0' as int
}

/// The number that decimal digits stand for.
pub open spec fn number_read(s: Seq<char>) -> int
    decreases s.len(),
{
    if s.len() == 0 {
        0
    } else {
        10 * number_read(s.drop_last()) + digit_value(s.last())
    }
}

/// A number is written in decimal digits, without leading zeros, that read back as the number.
pub proof fn law_decimal_reads_back(n: nat)
    ensures
        number_read(decimal(n)) == n,
        decimal(n).len() > 0,
        forall|i: int| 0 <= i < decimal(n).len() ==> '0' <= #[trigger] decimal(n)[i] <= '9',
        n > 0 ==> decimal(n)[0] != '0',
        n < 10 ==> decimal(n).len() == 1,
    decreases n,
{
    if n < 10 {
        let c = digit_char(n);
        assert(c as int == 48 + n);
        assert(decimal(n) =~= seq![c]);
        assert(decimal(n).drop_last() =~= seq![]);
        assert(number_read(decimal(n).drop_last()) == 0);
        assert(decimal(n).last() == c);
    } else {
        law_decimal_reads_back(n / 10);
        let c = digit_char(n % 10);
        assert(c as int == 48 + n % 10);
        assert(decimal(n).drop_last() =~= decimal(n / 10));
        assert(decimal(n).last() == c);
        assert(decimal(n)[0] == decimal(n / 10)[0]);
    }
}

/// A negative number is written as its magnitude behind a `-`, any other as it is.
pub proof fn law_sign_is_written(n: int)
    ensures
        n >= 0 ==> signed_decimal(n) == decimal(n as nat),
        n < 0 ==> signed_decimal(n).len() == 1 + decimal((-n) as nat).len() && signed_decimal(n)[0]
            == '-' && signed_decimal(n).drop_first() == decimal((-n) as nat),
{
    if n < 0 {
        assert(signed_decimal(n).drop_first() =~= decimal((-n) as nat));
    }
}

} // verus!
