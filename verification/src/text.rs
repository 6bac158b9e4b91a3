//! Verified text utilities: decimal digit strings, bounded decimal parsing,
//! uppercase hexadecimal and zero-padded decimal formatting, and the
//! dot-to-plus mapping applied to UID strings.

use vstd::prelude::*;
use vstd::string::StrSliceExecFns;
use vstd::string::StringExecFns;

verus! {

/// A decimal digit, `'0'` through `'9'`.
pub open spec fn is_digit_char(c: char) -> bool {
    48 <= c as int && c as int <= 57
}

/// Every character of `s` is a decimal digit.
pub open spec fn is_digit_seq(s: Seq<char>) -> bool {
    forall|i: int| 0 <= i < s.len() ==> is_digit_char(#[trigger] s[i])
}

/// The value of a digit string read in base 10; partial digits contribute
/// their code point offset from `'0'`.
pub open spec fn dec_value(s: Seq<char>) -> int
    decreases s.len(),
{
    if s.len() == 0 {
        0
    } else {
        dec_value(s.drop_last()) * 10 + (s.last() as int - 48)
    }
}

pub proof fn lemma_dec_value_nonneg(s: Seq<char>)
    requires
        is_digit_seq(s),
    ensures
        dec_value(s) >= 0,
    decreases s.len(),
{
    if s.len() > 0 {
        assert(is_digit_seq(s.drop_last()));
        lemma_dec_value_nonneg(s.drop_last());
    }
}

/// Taking one more character multiplies the prefix value by ten and adds
/// the new digit.
pub proof fn lemma_dec_value_take_succ(s: Seq<char>, i: int)
    requires
        0 <= i < s.len(),
    ensures
        dec_value(s.take(i + 1)) == dec_value(s.take(i)) * 10 + (s[i] as int - 48),
{
    assert(s.take(i + 1).drop_last() =~= s.take(i));
    assert(s.take(i + 1).last() == s[i]);
}

/// For an all-digit string, the value of any prefix is at most the value of
/// the whole string.
pub proof fn lemma_dec_value_prefix_le(s: Seq<char>, j: int)
    requires
        is_digit_seq(s),
        0 <= j <= s.len(),
    ensures
        dec_value(s.take(j)) <= dec_value(s),
    decreases s.len() - j,
{
    if j == s.len() {
        assert(s.take(j) =~= s);
    } else {
        lemma_dec_value_take_succ(s, j);
        assert(is_digit_seq(s.take(j)));
        lemma_dec_value_nonneg(s.take(j));
        lemma_dec_value_prefix_le(s, j + 1);
    }
}

/// True iff every character of `s` is a decimal digit.
pub fn all_digits(s: &str) -> (r: bool)
    ensures
        r == is_digit_seq(s@),
{
    let n = s.unicode_len();
    let mut i: usize = 0;
    while i < n
        invariant
            i <= n,
            n == s@.len(),
            forall|j: int| 0 <= j < i ==> is_digit_char(#[trigger] s@[j]),
        decreases n - i,
    {
        let u = s.get_char(i) as u32;
        if !(48 <= u && u <= 57) {
            return false;
        }
        i += 1;
    }
    true
}

/// Parses `s` as an unsigned base-10 integer.  Returns the value exactly
/// when `s` is a non-empty digit string whose value does not exceed `max`.
pub fn parse_decimal(s: &str, max: u64) -> (r: Option<u64>)
    ensures
        r is Some <==> (s@.len() > 0 && is_digit_seq(s@) && dec_value(s@) <= max),
        r is Some ==> r->0 as int == dec_value(s@),
{
    let n = s.unicode_len();
    if n == 0 {
        return None;
    }
    let mut acc: u64 = 0;
    let mut i: usize = 0;
    while i < n
        invariant
            i <= n,
            n == s@.len(),
            n > 0,
            acc <= max,
            is_digit_seq(s@.take(i as int)),
            acc as int == dec_value(s@.take(i as int)),
        decreases n - i,
    {
        let c = s.get_char(i);
        let u = c as u32;
        if !(48 <= u && u <= 57) {
            assert(!is_digit_char(s@[i as int]));
            return None;
        }
        let d = (u - 48) as u64;
        if acc > max / 10 || (acc == max / 10 && d > max % 10) {
            proof {
                lemma_dec_value_take_succ(s@, i as int);
                if is_digit_seq(s@) {
                    lemma_dec_value_prefix_le(s@, i as int + 1);
                }
            }
            return None;
        }
        proof {
            lemma_dec_value_take_succ(s@, i as int);
            assert(s@.take(i as int + 1) =~= s@.take(i as int).push(s@[i as int]));
        }
        acc = acc * 10 + d;
        i += 1;
    }
    proof {
        assert(s@.take(n as int) =~= s@);
    }
    Some(acc)
}

/// The character standing for the value `d` in base 16, upper case.
pub open spec fn digit_char(d: int) -> char {
    if d == 0 {
        '0'
    } else if d == 1 {
        '1'
    } else if d == 2 {
        '2'
    } else if d == 3 {
        '3'
    } else if d == 4 {
        '4'
    } else if d == 5 {
        '5'
    } else if d == 6 {
        '6'
    } else if d == 7 {
        '7'
    } else if d == 8 {
        '8'
    } else if d == 9 {
        '9'
    } else if d == 10 {
        'A'
    } else if d == 11 {
        'B'
    } else if d == 12 {
        'C'
    } else if d == 13 {
        'D'
    } else if d == 14 {
        'E'
    } else {
        'F'
    }
}

/// An upper-case hexadecimal digit: `'0'`..`'9'` or `'A'`..`'F'`.
pub open spec fn is_upper_hex_digit(c: char) -> bool {
    (48 <= c as int && c as int <= 57) || (65 <= c as int && c as int <= 70)
}

/// The upper-case hexadecimal rendering of `n`, without any prefix;
/// `0` renders as `"0"`.
pub open spec fn spec_hex_upper(n: nat) -> Seq<char>
    decreases n,
{
    if n < 16 {
        seq![digit_char(n as int)]
    } else {
        spec_hex_upper(n / 16) + seq![digit_char((n % 16) as int)]
    }
}

/// A rendered hexadecimal number is never empty and consists of upper-case
/// hexadecimal digits only; in particular it carries no `0x` prefix.
pub proof fn lemma_hex_upper_valid(n: nat)
    ensures
        spec_hex_upper(n).len() >= 1,
        forall|i: int|
            0 <= i < spec_hex_upper(n).len() ==> is_upper_hex_digit(
                #[trigger] spec_hex_upper(n)[i],
            ),
    decreases n,
{
    if n < 16 {
        assert(is_upper_hex_digit(digit_char(n as int)));
    } else {
        lemma_hex_upper_valid(n / 16);
        assert(is_upper_hex_digit(digit_char((n % 16) as int)));
        assert forall|i: int| 0 <= i < spec_hex_upper(n).len() implies is_upper_hex_digit(
            #[trigger] spec_hex_upper(n)[i],
        ) by {
            if i < spec_hex_upper(n / 16).len() {
                assert(spec_hex_upper(n)[i] == spec_hex_upper(n / 16)[i]);
            } else {
                assert(spec_hex_upper(n)[i] == digit_char((n % 16) as int));
            }
        }
    }
}

/// The one-character string for the digit value `d`, upper case.
fn digit_str(d: u64) -> (r: &'static str)
    requires
        d < 16,
    ensures
        r@ == seq![digit_char(d as int)],
{
    proof {
        reveal_strlit("0");
        reveal_strlit("1");
        reveal_strlit("2");
        reveal_strlit("3");
        reveal_strlit("4");
        reveal_strlit("5");
        reveal_strlit("6");
        reveal_strlit("7");
        reveal_strlit("8");
        reveal_strlit("9");
        reveal_strlit("A");
        reveal_strlit("B");
        reveal_strlit("C");
        reveal_strlit("D");
        reveal_strlit("E");
        reveal_strlit("F");
    }
    let r: &'static str = if d == 0 {
        "0"
    } else if d == 1 {
        "1"
    } else if d == 2 {
        "2"
    } else if d == 3 {
        "3"
    } else if d == 4 {
        "4"
    } else if d == 5 {
        "5"
    } else if d == 6 {
        "6"
    } else if d == 7 {
        "7"
    } else if d == 8 {
        "8"
    } else if d == 9 {
        "9"
    } else if d == 10 {
        "A"
    } else if d == 11 {
        "B"
    } else if d == 12 {
        "C"
    } else if d == 13 {
        "D"
    } else if d == 14 {
        "E"
    } else {
        "F"
    };
    proof {
        assert(r@ =~= seq![digit_char(d as int)]);
    }
    r
}

/// Renders `n` in upper-case hexadecimal, without any prefix.
pub fn to_hex_upper(n: u64) -> (r: String)
    ensures
        r@ == spec_hex_upper(n as nat),
    decreases n,
{
    if n < 16 {
        String::from_str(digit_str(n))
    } else {
        let mut s = to_hex_upper(n / 16);
        s.append(digit_str(n % 16));
        s
    }
}

/// The decimal rendering of `n`; `0` renders as `"0"`.
pub open spec fn spec_dec_chars(n: nat) -> Seq<char>
    decreases n,
{
    if n < 10 {
        seq![digit_char(n as int)]
    } else {
        spec_dec_chars(n / 10) + seq![digit_char((n % 10) as int)]
    }
}

/// The decimal rendering of `n`, left-padded with `'0'` up to `width`
/// characters; longer renderings are kept whole.
pub open spec fn spec_dec_padded(n: nat, width: int) -> Seq<char> {
    let s = spec_dec_chars(n);
    if s.len() >= width {
        s
    } else {
        Seq::new((width - s.len()) as nat, |i: int| '0') + s
    }
}

/// Renders `n` in decimal.
pub fn to_dec_chars(n: u64) -> (r: String)
    ensures
        r@ == spec_dec_chars(n as nat),
    decreases n,
{
    if n < 10 {
        String::from_str(digit_str(n))
    } else {
        let mut s = to_dec_chars(n / 10);
        s.append(digit_str(n % 10));
        s
    }
}

/// Renders `n` in decimal, left-padded with zeros to at least `width`
/// characters.
pub fn to_dec_padded(n: u64, width: usize) -> (r: String)
    ensures
        r@ == spec_dec_padded(n as nat, width as int),
{
    let digits = to_dec_chars(n);
    let dl = digits.as_str().unicode_len();
    if dl >= width {
        return digits;
    }
    proof {
        reveal_strlit("0");
    }
    let mut out = String::new();
    let mut k: usize = 0;
    while k < width - dl
        invariant
            k <= width - dl,
            dl < width,
            dl == digits@.len(),
            out@ =~= Seq::new(k as nat, |i: int| '0'),
            "0"@ =~= seq!['0'],
        decreases width - dl - k,
    {
        out.append("0");
        proof {
            assert(out@ =~= Seq::new((k + 1) as nat, |i: int| '0'));
        }
        k += 1;
    }
    out.append(digits.as_str());
    out
}

/// `s` with every `'.'` replaced by `'+'` and all other characters kept.
pub open spec fn plus_mapped(s: Seq<char>) -> Seq<char> {
    s.map_values(|c: char| if c == '.' { '+' } else { c })
}

/// Replaces every dot in `s` with a plus sign.
pub fn replace_dots_with_plus(s: &str) -> (r: String)
    ensures
        r@ == plus_mapped(s@),
{
    let n = s.unicode_len();
    let mut out = String::new();
    let mut i: usize = 0;
    while i < n
        invariant
            i <= n,
            n == s@.len(),
            out@ =~= plus_mapped(s@.take(i as int)),
        decreases n - i,
    {
        let c = s.get_char(i);
        if c == '.' {
            proof {
                reveal_strlit("+");
            }
            out.append("+");
        } else {
            let piece = s.substring_char(i, i + 1);
            out.append(piece);
        }
        proof {
            assert(out@ =~= plus_mapped(s@.take(i as int + 1)));
        }
        i += 1;
    }
    proof {
        assert(s@.take(n as int) =~= s@);
    }
    out
}

/// The position of the first occurrence of `c` in `s` at or after `i`.
pub open spec fn spec_find_from(s: Seq<char>, i: int, c: char) -> Option<int>
    decreases s.len() - i,
{
    if i < 0 || i >= s.len() {
        None
    } else if s[i] == c {
        Some(i)
    } else {
        spec_find_from(s, i + 1, c)
    }
}

/// Finds the first occurrence of `c` in `s` at or after position `from`.
pub fn find_char_from(s: &str, from: usize, c: char) -> (r: Option<usize>)
    requires
        from <= s@.len(),
    ensures
        match r {
            Some(k) => spec_find_from(s@, from as int, c) == Some(k as int),
            None => spec_find_from(s@, from as int, c) is None,
        },
{
    let n = s.unicode_len();
    let mut i: usize = from;
    while i < n
        invariant
            from <= i <= n,
            n == s@.len(),
            spec_find_from(s@, from as int, c) == spec_find_from(s@, i as int, c),
        decreases n - i,
    {
        if s.get_char(i) == c {
            return Some(i);
        }
        i += 1;
    }
    None
}

} // verus!
