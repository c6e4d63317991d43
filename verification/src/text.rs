//! Text helpers shared by the parsers: the characters of a string, unsigned
//! numerals in radix 10 and 16, words compared without regard to ASCII case,
//! path segments and substring replacement.

use vstd::prelude::*;

verus! {

/// The characters of `s`, in order.
pub fn chars_of(s: &str) -> (chars: Vec<char>)
    ensures
        chars@ == s@,
{
    let mut chars: Vec<char> = Vec::new();
    for c in it: s.chars()
        invariant
            chars@ == it.seq().subrange(0, it.index() as int),
            it.seq() == s@,
    {
        chars.push(c);
    }
    chars
}

/// Collects characters into a `String` with std's `String::from_iter`. The
/// contract claims that the string reads exactly the characters given, in
/// their order.
#[verifier::external_body]
pub(crate) fn text_of(chars: &Vec<char>) -> (text: String)
    ensures
        text@ == chars@,
{
    String::from_iter(chars.iter())
}

/// The text `first` followed by `second`.
pub fn joined(first: &str, second: &str) -> (text: String)
    ensures
        text@ == first@ + second@,
{
    let mut text = String::from_str(first);
    text.append(second);
    assert(text@ =~= first@ + second@);
    text
}

/// The value of the character `c` as a digit of the given radix, if it is
/// one: `0` to `9`, and in radix 16 also `a` to `f` in either case.
pub open spec fn digit_of(c: char, radix: int) -> Option<int> {
    let code = c as int;
    if 48 <= code <= 57 {
        Some(code - 48)
    } else if radix == 16 && 97 <= code <= 102 {
        Some(code - 87)
    } else if radix == 16 && 65 <= code <= 70 {
        Some(code - 55)
    } else {
        None
    }
}

/// Every character of `s` is a digit of the radix.
pub open spec fn all_digits(s: Seq<char>, radix: int) -> bool {
    forall|i: int| 0 <= i < s.len() ==> (#[trigger] digit_of(s[i], radix)) is Some
}

/// The number that the digits `s` write in the radix, most significant first.
pub open spec fn numeral_value(s: Seq<char>, radix: int) -> int
    decreases s.len(),
{
    if s.len() == 0 {
        0
    } else {
        numeral_value(s.drop_last(), radix) * radix + match digit_of(s.last(), radix) {
            Some(d) => d,
            None => 0,
        }
    }
}

/// The digits of a numeral that may begin with one `+`.
pub open spec fn unsigned_digits(s: Seq<char>) -> Seq<char> {
    if s.len() > 0 && s[0] == '+' {
        s.drop_first()
    } else {
        s
    }
}

/// The number that `s` writes as an unsigned numeral no greater than `max`:
/// an optional `+`, then at least one digit and nothing else. `None` for any
/// other text, and for a number above `max`.
pub open spec fn unsigned_numeral(s: Seq<char>, radix: int, max: int) -> Option<int> {
    let digits = unsigned_digits(s);
    if digits.len() > 0 && all_digits(digits, radix) && numeral_value(digits, radix) <= max {
        Some(numeral_value(digits, radix))
    } else {
        None
    }
}

/// A numeral is never negative.
pub proof fn lemma_numeral_nonnegative(s: Seq<char>, radix: int)
    requires
        radix == 10 || radix == 16,
    ensures
        numeral_value(s, radix) >= 0,
    decreases s.len(),
{
    if s.len() > 0 {
        lemma_numeral_nonnegative(s.drop_last(), radix);
        assert(numeral_value(s.drop_last(), radix) * radix >= 0) by (nonlinear_arith)
            requires
                numeral_value(s.drop_last(), radix) >= 0,
                radix > 0,
        ;
    }
}

/// A numeral is at least as large as each of its prefixes.
pub proof fn lemma_numeral_prefix(s: Seq<char>, k: int, radix: int)
    requires
        radix == 10 || radix == 16,
        0 <= k <= s.len(),
    ensures
        numeral_value(s.subrange(0, k), radix) <= numeral_value(s, radix),
    decreases s.len(),
{
    if k == s.len() {
        assert(s.subrange(0, k) =~= s);
    } else {
        lemma_numeral_prefix(s.drop_last(), k, radix);
        lemma_numeral_nonnegative(s.drop_last(), radix);
        assert(s.drop_last().subrange(0, k) =~= s.subrange(0, k));
        assert(numeral_value(s.drop_last(), radix) * radix >= numeral_value(
            s.drop_last(),
            radix,
        )) by (nonlinear_arith)
            requires
                numeral_value(s.drop_last(), radix) >= 0,
                radix >= 1,
        ;
    }
}

fn digit(c: char, radix: u64) -> (d: Option<u64>)
    requires
        radix == 10 || radix == 16,
    ensures
        match d {
            Some(v) => digit_of(c, radix as int) == Some(v as int) && v < radix,
            None => digit_of(c, radix as int) is None,
        },
{
    let code: u32 = c as u32;
    if 48 <= code && code <= 57 {
        Some((code - 48) as u64)
    } else if radix == 16 && 97 <= code && code <= 102 {
        Some((code - 87) as u64)
    } else if radix == 16 && 65 <= code && code <= 70 {
        Some((code - 55) as u64)
    } else {
        None
    }
}

/// Reads the characters of `chars` from position `from` on as an unsigned
/// numeral of radix 10 or 16 that is no greater than `max`.
pub fn parse_unsigned(chars: &Vec<char>, from: usize, radix: u64, max: u64) -> (number: Option<u64>)
    requires
        from <= chars.len(),
        radix == 10 || radix == 16,
    ensures
        match number {
            Some(n) => unsigned_numeral(chars@.skip(from as int), radix as int, max as int)
                == Some(n as int),
            None => unsigned_numeral(chars@.skip(from as int), radix as int, max as int) is None,
        },
{
    let len: usize = chars.len();
    let mut start: usize = from;
    if start < len && chars[start] == '+' {
        start = start + 1;
    }
    let ghost digits = chars@.skip(start as int);
    assert(digits =~= unsigned_digits(chars@.skip(from as int)));
    if start == len {
        return None;
    }
    let mut value: u64 = 0;
    let mut i: usize = start;
    while i < len
        invariant
            start <= i <= len,
            len == chars.len(),
            radix == 10 || radix == 16,
            digits == chars@.skip(start as int),
            digits == unsigned_digits(chars@.skip(from as int)),
            all_digits(digits.subrange(0, i - start), radix as int),
            value == numeral_value(digits.subrange(0, i - start), radix as int),
            value <= max,
        decreases len - i,
    {
        let ghost prefix = digits.subrange(0, i - start);
        let ghost longer = digits.subrange(0, i + 1 - start);
        proof {
            assert(longer.drop_last() =~= prefix);
            assert(longer.last() == chars@[i as int]);
            assert(digits[i - start] == chars@[i as int]);
        }
        let place: Option<u64> = digit(chars[i], radix);
        let next: Option<u64> = match place {
            None => None,
            Some(d) => match value.checked_mul(radix) {
                None => None,
                Some(shifted) => shifted.checked_add(d),
            },
        };
        match next {
            Some(n) if n <= max => {
                proof {
                    assert forall|k: int| 0 <= k < longer.len() implies (#[trigger] digit_of(
                        longer[k],
                        radix as int,
                    )) is Some by {
                        if k < prefix.len() {
                            assert(longer[k] == prefix[k]);
                        }
                    }
                }
                value = n;
            },
            _ => {
                proof {
                    if place is Some {
                        lemma_numeral_prefix(digits, i + 1 - start, radix as int);
                        assert(numeral_value(longer, radix as int) > max);
                    } else {
                        assert(digit_of(digits[i - start], radix as int) is None);
                    }
                }
                return None;
            },
        }
        i = i + 1;
    }
    proof {
        assert(digits.subrange(0, i - start) =~= digits);
    }
    Some(value)
}

/// `s` without the `0x` that it begins with, as often as it begins with one.
pub open spec fn without_hex_prefixes(s: Seq<char>) -> Seq<char>
    decreases s.len(),
{
    if s.len() >= 2 && s[0] == '0' && s[1] == 'x' {
        without_hex_prefixes(s.skip(2))
    } else {
        s
    }
}

/// The number that a hexadecimal quantity writes: any number of `0x` in
/// front, then an unsigned numeral of radix 16 within 64 bits.
pub open spec fn hex_quantity(s: Seq<char>) -> Option<int> {
    unsigned_numeral(without_hex_prefixes(s), 16, u64::MAX as int)
}

/// Reads a hexadecimal quantity.
pub fn parse_hex_quantity(text: &str) -> (number: Option<u64>)
    ensures
        match number {
            Some(n) => hex_quantity(text@) == Some(n as int),
            None => hex_quantity(text@) is None,
        },
{
    let chars: Vec<char> = chars_of(text);
    let mut start: usize = 0;
    assert(chars@.skip(0) =~= chars@);
    while chars.len() - start >= 2 && chars[start] == '0' && chars[start + 1] == 'x'
        invariant
            start <= chars.len(),
            without_hex_prefixes(chars@) == without_hex_prefixes(chars@.skip(start as int)),
        decreases chars.len() - start,
    {
        assert(chars@.skip(start as int).skip(2) =~= chars@.skip(start + 2));
        start = start + 2;
    }
    parse_unsigned(&chars, start, 16, u64::MAX)
}

/// The code of `c` with the ASCII capitals mapped to their small letters.
pub open spec fn lower_code(c: char) -> int {
    if 65 <= c as int <= 90 {
        c as int + 32
    } else {
        c as int
    }
}

/// `s` reads `word` once its ASCII capitals are made small.
pub open spec fn reads_as(s: Seq<char>, word: Seq<char>) -> bool {
    &&& s.len() == word.len()
    &&& forall|i: int| 0 <= i < s.len() ==> lower_code(#[trigger] s[i]) == word[i] as int
}

fn code_of(c: char) -> (code: u32)
    ensures
        code == c as int,
{
    c as u32
}

fn lowered(c: char) -> (code: u32)
    ensures
        code == lower_code(c),
{
    let code: u32 = c as u32;
    if 65 <= code && code <= 90 {
        code + 32
    } else {
        code
    }
}

/// Tells whether `s` reads `word` once its ASCII capitals are made small.
pub fn reads_as_word(s: &Vec<char>, word: &str) -> (same: bool)
    ensures
        same == reads_as(s@, word@),
{
    let letters: Vec<char> = chars_of(word);
    if s.len() != letters.len() {
        return false;
    }
    let mut i: usize = 0;
    while i < s.len()
        invariant
            i <= s.len(),
            s.len() == letters.len(),
            letters@ == word@,
            forall|k: int| 0 <= k < i ==> lower_code(#[trigger] s@[k]) == word@[k] as int,
        decreases s.len() - i,
    {
        if lowered(s[i]) != code_of(letters[i]) {
            return false;
        }
        i = i + 1;
    }
    true
}

/// The part of `s` behind its last `/`; all of `s` where it has none.
pub open spec fn last_segment(s: Seq<char>) -> Seq<char>
    decreases s.len(),
{
    if s.len() == 0 || s.last() == '/' {
        Seq::empty()
    } else {
        last_segment(s.drop_last()).push(s.last())
    }
}

/// Where the last segment of `chars` begins.
pub fn last_segment_start(chars: &Vec<char>) -> (start: usize)
    ensures
        start <= chars.len(),
        chars@.skip(start as int) == last_segment(chars@),
{
    let mut start: usize = 0;
    let mut i: usize = 0;
    assert(chars@.subrange(0, 0) =~= Seq::<char>::empty());
    while i < chars.len()
        invariant
            start <= i <= chars.len(),
            chars@.subrange(start as int, i as int) == last_segment(chars@.subrange(0, i as int)),
        decreases chars.len() - i,
    {
        let ghost longer = chars@.subrange(0, i + 1);
        assert(longer.drop_last() =~= chars@.subrange(0, i as int));
        if chars[i] == '/' {
            start = i + 1;
            assert(chars@.subrange(start as int, i + 1) =~= last_segment(longer));
        } else {
            assert(chars@.subrange(start as int, i + 1) =~= last_segment(longer));
        }
        i = i + 1;
    }
    assert(chars@.subrange(0, i as int) =~= chars@);
    assert(chars@.subrange(start as int, i as int) =~= chars@.skip(start as int));
    start
}

/// `s` with every occurrence of the non-empty `pattern` replaced by `with`,
/// the occurrences taken from the left and not overlapping.
pub open spec fn replaced(s: Seq<char>, pattern: Seq<char>, with: Seq<char>) -> Seq<char>
    decreases s.len(),
{
    if pattern.len() == 0 || s.len() < pattern.len() {
        s
    } else if s.subrange(0, pattern.len() as int) == pattern {
        with + replaced(s.skip(pattern.len() as int), pattern, with)
    } else {
        seq![s[0]] + replaced(s.skip(1), pattern, with)
    }
}

fn occurs_at(chars: &Vec<char>, at: usize, pattern: &Vec<char>) -> (found: bool)
    requires
        at + pattern.len() <= chars.len(),
    ensures
        found == (chars@.subrange(at as int, at + pattern.len()) == pattern@),
{
    let mut k: usize = 0;
    while k < pattern.len()
        invariant
            k <= pattern.len(),
            at + pattern.len() <= chars.len(),
            forall|j: int| 0 <= j < k ==> chars@[at + j] == pattern@[j],
        decreases pattern.len() - k,
    {
        if chars[at + k] != pattern[k] {
            assert(chars@.subrange(at as int, at + pattern.len())[k as int] != pattern@[k as int]);
            return false;
        }
        k = k + 1;
    }
    assert(chars@.subrange(at as int, at + pattern.len()) =~= pattern@);
    true
}

/// Replaces every occurrence of the non-empty `pattern` in `chars` by `with`.
pub fn replace_all(chars: &Vec<char>, pattern: &Vec<char>, with: &Vec<char>) -> (out: Vec<char>)
    requires
        pattern.len() > 0,
    ensures
        out@ == replaced(chars@, pattern@, with@),
{
    let mut out: Vec<char> = Vec::new();
    let mut i: usize = 0;
    assert(chars@.skip(0) =~= chars@);
    while i < chars.len()
        invariant
            i <= chars.len(),
            pattern.len() > 0,
            replaced(chars@, pattern@, with@) == out@ + replaced(
                chars@.skip(i as int),
                pattern@,
                with@,
            ),
        decreases chars.len() - i,
    {
        let ghost rest = chars@.skip(i as int);
        let ghost before = out@;
        if chars.len() - i >= pattern.len() && occurs_at(chars, i, pattern) {
            assert(rest.subrange(0, pattern.len() as int) =~= chars@.subrange(
                i as int,
                i + pattern.len(),
            ));
            assert(rest.skip(pattern.len() as int) =~= chars@.skip(i + pattern.len()));
            let mut k: usize = 0;
            while k < with.len()
                invariant
                    k <= with.len(),
                    out@ == before + with@.subrange(0, k as int),
                decreases with.len() - k,
            {
                out.push(with[k]);
                assert(out@ =~= before + with@.subrange(0, k + 1));
                k = k + 1;
            }
            assert(with@.subrange(0, k as int) =~= with@);
            i = i + pattern.len();
            assert(out@ + replaced(chars@.skip(i as int), pattern@, with@) =~= before + (with@
                + replaced(chars@.skip(i as int), pattern@, with@)));
        } else {
            if chars.len() - i >= pattern.len() {
                assert(rest.subrange(0, pattern.len() as int) =~= chars@.subrange(
                    i as int,
                    i + pattern.len(),
                ));
                assert(rest.skip(1) =~= chars@.skip(i + 1));
                out.push(chars[i]);
                i = i + 1;
                assert(out@ + replaced(chars@.skip(i as int), pattern@, with@) =~= before + (
                seq![rest[0]] + replaced(chars@.skip(i as int), pattern@, with@)));
            } else {
                let ghost tail_from = i;
                while i < chars.len()
                    invariant
                        tail_from <= i <= chars.len(),
                        out@ == before + chars@.subrange(tail_from as int, i as int),
                    decreases chars.len() - i,
                {
                    out.push(chars[i]);
                    assert(out@ =~= before + chars@.subrange(tail_from as int, i + 1));
                    i = i + 1;
                }
                assert(chars@.subrange(tail_from as int, i as int) =~= rest);
                assert(chars@.skip(i as int) =~= Seq::<char>::empty());
                assert(out@ + replaced(chars@.skip(i as int), pattern@, with@) =~= before + rest);
            }
        }
    }
    assert(chars@.skip(i as int) =~= Seq::<char>::empty());
    assert(out@ + Seq::<char>::empty() =~= out@);
    out
}

/// Tells whether `c` occurs in `chars`.
pub fn has_char(chars: &Vec<char>, c: char) -> (found: bool)
    ensures
        found == chars@.contains(c),
{
    let mut i: usize = 0;
    while i < chars.len()
        invariant
            i <= chars.len(),
            forall|k: int| 0 <= k < i ==> chars@[k] != c,
        decreases chars.len() - i,
    {
        if chars[i] == c {
            return true;
        }
        i = i + 1;
    }
    false
}

/// The decimal digits of `n`, most significant first, without leading zeros.
pub open spec fn decimal_digits(n: nat) -> Seq<char>
    decreases n,
{
    if n < 10 {
        seq![(48 + n) as char]
    } else {
        decimal_digits(n / 10).push((48 + n % 10) as char)
    }
}

fn push_decimal(n: u64, out: &mut Vec<char>)
    ensures
        final(out)@ == old(out)@ + decimal_digits(n as nat),
    decreases n,
{
    if n >= 10 {
        push_decimal(n / 10, out);
    }
    let low: u8 = (n % 10) as u8;
    out.push((48 + low) as char);
    proof {
        if n >= 10 {
            assert(final(out)@ =~= old(out)@ + decimal_digits(n as nat));
        } else {
            assert(final(out)@ =~= old(out)@ + decimal_digits(n as nat));
        }
    }
}

/// `n` written in decimal.
pub fn decimal(n: u64) -> (text: String)
    ensures
        text@ == decimal_digits(n as nat),
{
    let mut digits: Vec<char> = Vec::new();
    push_decimal(n, &mut digits);
    assert(digits@ =~= decimal_digits(n as nat));
    text_of(&digits)
}

} // verus!
