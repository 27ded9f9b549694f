//! Plain text helpers: letter case and decimal numbers.

use vstd::prelude::*;
use vstd::string::StringExecFns;

verus! {

/// The lower-case form of an upper-case ASCII letter; any other character
/// is left as it is.
pub open spec fn lowercase_char(c: char) -> char {
    if 'A' <= c && c <= 'Z' {
        ((c as u8) + 32) as char
    } else {
        c
    }
}

/// `s` with each upper-case ASCII letter replaced by its lower-case form.
pub open spec fn lowercase(s: Seq<char>) -> Seq<char> {
    Seq::new(s.len(), |i: int| lowercase_char(s[i]))
}

/// Whether `c` is one of the ten ASCII digits.
pub open spec fn is_digit(c: char) -> bool {
    '0' <= c && c <= '9'
}

/// The number that the ASCII digit `c` stands for.
pub open spec fn digit_value(c: char) -> nat {
    ((c as u8) - 48) as nat
}

/// The ASCII digit that stands for `d`, a number below ten.
pub open spec fn digit_char(d: nat) -> char {
    ((d + 48) as u8) as char
}

/// Whether `s` holds ASCII digits only.
pub open spec fn all_digits(s: Seq<char>) -> bool {
    forall|i: int| 0 <= i < s.len() ==> is_digit(#[trigger] s[i])
}

/// The number that a sequence of ASCII digits writes in base ten; 0 for the
/// empty sequence.
pub open spec fn digits_value(s: Seq<char>) -> nat
    decreases s.len(),
{
    if s.len() == 0 {
        0
    } else {
        digits_value(s.drop_last()) * 10 + digit_value(s.last())
    }
}

/// The number written by an optional `+` and at least one digit.
pub open spec fn unsigned_value(s: Seq<char>) -> Option<nat> {
    let digits = if s.len() > 0 && s[0] == '+' {
        s.drop_first()
    } else {
        s
    };
    if digits.len() > 0 && all_digits(digits) {
        Some(digits_value(digits))
    } else {
        None
    }
}

/// The number written by an optional `+` or `-` and at least one digit.
pub open spec fn signed_value(s: Seq<char>) -> Option<int> {
    if s.len() > 0 && s[0] == '-' {
        let digits = s.drop_first();
        if digits.len() > 0 && all_digits(digits) {
            Some(-(digits_value(digits) as int))
        } else {
            None
        }
    } else {
        match unsigned_value(s) {
            Some(v) => Some(v as int),
            None => None,
        }
    }
}

/// The `usize` that `s` writes, if it writes one.
pub open spec fn usize_value(s: Seq<char>) -> Option<usize> {
    match unsigned_value(s) {
        Some(v) => if v <= usize::MAX {
            Some(v as usize)
        } else {
            None
        },
        None => None,
    }
}

/// The `isize` that `s` writes, if it writes one.
pub open spec fn isize_value(s: Seq<char>) -> Option<isize> {
    match signed_value(s) {
        Some(v) => if isize::MIN <= v <= isize::MAX {
            Some(v as isize)
        } else {
            None
        },
        None => None,
    }
}

/// The digits of `n` in base ten, without leading zeros.
pub open spec fn decimal_text(n: nat) -> Seq<char>
    decreases n,
{
    if n < 10 {
        seq![digit_char(n)]
    } else {
        decimal_text(n / 10).push(digit_char(n % 10))
    }
}

/// The characters of `s`, in order.
pub fn chars_of(s: &str) -> (chars: Vec<char>)
    ensures
        chars@ == s@,
{
    let mut chars: Vec<char> = Vec::new();
    for c in it: s.chars()
        invariant
            chars@ == it.seq().take(it.index()),
            it.seq() == s@,
    {
        chars.push(c);
    }
    chars
}

/// The lower-case form of `c` where `c` is an upper-case ASCII letter, else
/// `c`.
pub fn to_lowercase_char(c: char) -> (l: char)
    ensures
        l == lowercase_char(c),
{
    if 'A' <= c && c <= 'Z' {
        ((c as u8) + 32) as char
    } else {
        c
    }
}

/// The characters of `s` with ASCII letters in lower case.
pub fn lowercase_chars(s: &str) -> (chars: Vec<char>)
    ensures
        chars@ == lowercase(s@),
{
    let mut chars: Vec<char> = Vec::new();
    for c in it: s.chars()
        invariant
            it.seq() == s@,
            chars@.len() == it.index(),
            forall|i: int| 0 <= i < chars@.len() ==> chars@[i] == lowercase_char(s@[i]),
    {
        chars.push(to_lowercase_char(c));
    }
    assert(chars@ =~= lowercase(s@));
    chars
}

/// More digits never write a smaller number.
pub proof fn lemma_digits_value_grows(s: Seq<char>, n: int)
    requires
        0 <= n <= s.len(),
    ensures
        digits_value(s.take(n)) <= digits_value(s),
    decreases s.len(),
{
    if n < s.len() {
        assert(s.drop_last().take(n) =~= s.take(n));
        lemma_digits_value_grows(s.drop_last(), n);
        assert(digits_value(s.drop_last()) * 10 >= digits_value(s.drop_last())) by (nonlinear_arith);
    } else {
        assert(s.take(n) =~= s);
    }
}

/// A digit stands for the number that it was made for.
pub proof fn lemma_digit_reads_back(d: nat)
    requires
        d < 10,
    ensures
        is_digit(digit_char(d)),
        digit_value(digit_char(d)) == d,
        digit_char(d) != '+',
        digit_char(d) != '-',
{
}

/// The digits of a number write that number.
pub proof fn lemma_decimal_text_reads_back(n: nat)
    ensures
        decimal_text(n).len() > 0,
        all_digits(decimal_text(n)),
        digits_value(decimal_text(n)) == n,
        decimal_text(n)[0] != '+',
        decimal_text(n)[0] != '-',
    decreases n,
{
    let text = decimal_text(n);
    if n < 10 {
        lemma_digit_reads_back(n);
        assert(text.drop_last() =~= Seq::<char>::empty());
        assert(digits_value(text.drop_last()) == 0);
    } else {
        let head = decimal_text(n / 10);
        lemma_decimal_text_reads_back(n / 10);
        lemma_digit_reads_back(n % 10);
        assert(text.drop_last() =~= head);
        assert(text.last() == digit_char(n % 10));
        assert(text[0] == head[0]);
        assert forall|i: int| 0 <= i < text.len() implies is_digit(#[trigger] text[i]) by {
            if i < head.len() {
                assert(text[i] == head[i]);
            }
        }
    }
}

/// A number that is written in digits is read back from them, as an
/// unsigned and as a signed number.
pub proof fn lemma_number_reads_back(n: nat)
    ensures
        unsigned_value(decimal_text(n)) == Some(n),
        signed_value(decimal_text(n)) == Some(n as int),
{
    lemma_decimal_text_reads_back(n);
}

/// The largest magnitude that `read_magnitude` tells apart: every `usize`
/// and the magnitude of every `isize` lie below it.
pub const MAGNITUDE_LIMIT: u128 = 0x1_0000_0000_0000_0000;

/// Reads `chars[from..]` as a run of digits. Returns the number written where
/// the run is made of digits only and writes at most `MAGNITUDE_LIMIT`, and
/// `None` where it is not or the number is larger.
fn read_magnitude(chars: &Vec<char>, from: usize) -> (r: Option<u128>)
    requires
        from <= chars.len(),
    ensures
        r == (if all_digits(chars@.skip(from as int)) && digits_value(chars@.skip(from as int))
            <= MAGNITUDE_LIMIT {
            Some(digits_value(chars@.skip(from as int)) as u128)
        } else {
            None
        }),
{
    let ghost run = chars@.skip(from as int);
    let mut acc: u128 = 0;
    let mut i: usize = from;
    while i < chars.len()
        invariant
            from <= i <= chars.len(),
            run == chars@.skip(from as int),
            all_digits(run.take(i - from)),
            acc == digits_value(run.take(i - from)),
            acc <= MAGNITUDE_LIMIT,
        decreases chars.len() - i,
    {
        let c = chars[i];
        let ghost next = run.take(i - from + 1);
        proof {
            assert(next.drop_last() =~= run.take(i - from));
            assert(next.last() == c);
        }
        if !('0' <= c && c <= '9') {
            proof {
                assert(!is_digit(run[i - from]));
            }
            return None;
        }
        let d: u128 = ((c as u8) - 48) as u128;
        acc = acc * 10 + d;
        proof {
            assert(acc == digits_value(next));
            assert forall|k: int| 0 <= k < next.len() implies is_digit(#[trigger] next[k]) by {
                if k < i - from {
                    assert(next[k] == run.take(i - from)[k]);
                }
            }
        }
        if acc > MAGNITUDE_LIMIT {
            proof {
                lemma_digits_value_grows(run, i - from + 1);
            }
            return None;
        }
        i = i + 1;
    }
    proof {
        assert(run.take(i - from) =~= run);
    }
    Some(acc)
}

/// Reads `text` as a `usize`: an optional `+` and at least one digit.
pub fn parse_usize(text: &str) -> (r: Option<usize>)
    ensures
        r == usize_value(text@),
{
    let chars = chars_of(text);
    let from: usize = if chars.len() > 0 && chars[0] == '+' {
        1
    } else {
        0
    };
    proof {
        if from == 1 {
            assert(chars@.skip(1) =~= text@.drop_first());
        } else {
            assert(chars@.skip(0) =~= text@);
        }
    }
    if from == chars.len() {
        return None;
    }
    match read_magnitude(&chars, from) {
        Some(m) => if m <= usize::MAX as u128 {
            Some(m as usize)
        } else {
            None
        },
        None => None,
    }
}

/// Reads `text` as an `isize`: an optional `+` or `-` and at least one digit.
pub fn parse_isize(text: &str) -> (r: Option<isize>)
    ensures
        r == isize_value(text@),
{
    let chars = chars_of(text);
    let negative = chars.len() > 0 && chars[0] == '-';
    let from: usize = if chars.len() > 0 && (chars[0] == '+' || chars[0] == '-') {
        1
    } else {
        0
    };
    proof {
        if from == 1 {
            assert(chars@.skip(1) =~= text@.drop_first());
        } else {
            assert(chars@.skip(0) =~= text@);
        }
    }
    if from == chars.len() {
        return None;
    }
    match read_magnitude(&chars, from) {
        Some(m) => if negative {
            if m <= isize::MAX as u128 {
                Some(-(m as isize))
            } else if m == isize::MAX as u128 + 1 {
                Some(isize::MIN)
            } else {
                None
            }
        } else if m <= isize::MAX as u128 {
            Some(m as isize)
        } else {
            None
        },
        None => None,
    }
}

/// The one-character text of the digit `d`.
fn digit_text(d: u8) -> (s: &'static str)
    requires
        d < 10,
    ensures
        s@ == seq![digit_char(d as nat)],
{
    proof {
        reveal_strlit("0");
        reveal_strlit("1");
        reveal_strlit("2");
        reveal_strlit("3");
        reveal_strlit("4");
        reveal_strlit("5");
        reveal_strlit("6");
        reveal_strlit("7");
        reveal_strlit("8");
        reveal_strlit("9");
    }
    let s = match d {
        0 => "0",
        1 => "1",
        2 => "2",
        3 => "3",
        4 => "4",
        5 => "5",
        6 => "6",
        7 => "7",
        8 => "8",
        _ => "9",
    };
    assert(s@ =~= seq![digit_char(d as nat)]);
    s
}

/// Appends the digits of `n` in base ten to `out`.
pub fn append_decimal(out: &mut String, n: usize)
    ensures
        final(out)@ == old(out)@ + decimal_text(n as nat),
    decreases n,
{
    if n >= 10 {
        append_decimal(out, n / 10);
    }
    out.append(digit_text((n % 10) as u8));
    proof {
        if n >= 10 {
            assert(final(out)@ =~= old(out)@ + decimal_text(n as nat));
        } else {
            assert(final(out)@ =~= old(out)@ + decimal_text(n as nat));
        }
    }
}

} // verus!
