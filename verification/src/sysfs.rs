use vstd::prelude::*;
use vstd::string::*;
use crate::error::Error;

verus! {

/// White space as `str::trim` understands it: the code points that
/// Unicode classes as White_Space.
pub open spec fn is_space(c: char) -> bool {
    let u = c as u32;
    ||| 0x09 <= u <= 0x0D
    ||| u == 0x20
    ||| u == 0x85
    ||| u == 0xA0
    ||| u == 0x1680
    ||| 0x2000 <= u <= 0x200A
    ||| u == 0x2028
    ||| u == 0x2029
    ||| u == 0x202F
    ||| u == 0x205F
    ||| u == 0x3000
}

/// `s` without the white space it begins with.
pub open spec fn trim_start(s: Seq<char>) -> Seq<char>
    decreases s.len(),
{
    if s.len() > 0 && is_space(s[0]) {
        trim_start(s.drop_first())
    } else {
        s
    }
}

/// `s` without the white space it ends with.
pub open spec fn trim_end(s: Seq<char>) -> Seq<char>
    decreases s.len(),
{
    if s.len() > 0 && is_space(s.last()) {
        trim_end(s.drop_last())
    } else {
        s
    }
}

/// `s` without the white space around it.
pub open spec fn trim(s: Seq<char>) -> Seq<char> {
    trim_end(trim_start(s))
}

/// `s` without any `0x` it begins with, however often that is repeated.
pub open spec fn strip_0x(s: Seq<char>) -> Seq<char>
    decreases s.len(),
{
    if s.len() >= 2 && s[0] == '0' && s[1] == 'x' {
        strip_0x(s.skip(2))
    } else {
        s
    }
}

/// What a character is worth as a digit of the given radix (ten or
/// sixteen), if it is one. Letters count in either case.
pub open spec fn digit_value(c: char, radix: nat) -> Option<nat> {
    let u = c as u32;
    if 0x30 <= u <= 0x39 {
        Some((u - 0x30) as nat)
    } else if radix == 16 && 0x61 <= u <= 0x66 {
        Some((u - 0x61 + 10) as nat)
    } else if radix == 16 && 0x41 <= u <= 0x46 {
        Some((u - 0x41 + 10) as nat)
    } else {
        None
    }
}

/// The number a run of digits denotes, most significant digit first; `None`
/// where a character is no digit. The empty run denotes zero.
pub open spec fn digits_value(s: Seq<char>, radix: nat) -> Option<nat>
    decreases s.len(),
{
    if s.len() == 0 {
        Some(0)
    } else {
        match (digits_value(s.drop_last(), radix), digit_value(s.last(), radix)) {
            (Some(high), Some(low)) => Some(high * radix + low),
            _ => None,
        }
    }
}

/// The number a text denotes: one optional `+`, then at least one digit and
/// nothing else.
pub open spec fn number(s: Seq<char>, radix: nat) -> Option<nat> {
    let digits = if s.len() > 0 && s[0] == '+' {
        s.drop_first()
    } else {
        s
    };
    if digits.len() == 0 {
        None
    } else {
        digits_value(digits, radix)
    }
}

/// What an attribute holds that the kernel prints in hexadecimal: white
/// space around it and `0x` before it are passed over.
pub open spec fn hex_attr(text: Seq<char>) -> Option<nat> {
    number(strip_0x(trim(text)), 16)
}

/// What an attribute holds that the kernel prints in decimal.
pub open spec fn decimal_attr(text: Seq<char>) -> Option<nat> {
    number(trim(text), 10)
}

/// What a flag attribute holds: off where it reads `0`, on otherwise.
pub open spec fn flag_attr(text: Seq<char>) -> bool {
    trim(text) != seq!['0']
}

/// A number as a machine word, where it fits in one.
pub open spec fn as_word(value: Option<nat>) -> Result<usize, Error> {
    match value {
        Some(v) if v <= usize::MAX => Ok(v as usize),
        _ => Err(Error::Parse),
    }
}

/// The character that stands for a digit below sixteen; letters in lower
/// case.
pub open spec fn digit_char(d: nat) -> char {
    if d < 10 {
        (0x30 + d) as char
    } else {
        (0x61 + d - 10) as char
    }
}

/// A number written out in radix sixteen, or else ten, without leading
/// zeros.
pub open spec fn numeral(n: nat, radix: nat) -> Seq<char>
    decreases n,
{
    if radix == 16 {
        if n < 16 {
            seq![digit_char(n)]
        } else {
            numeral(n / 16, radix).push(digit_char(n % 16))
        }
    } else {
        if n < 10 {
            seq![digit_char(n)]
        } else {
            numeral(n / 10, radix).push(digit_char(n % 10))
        }
    }
}

/// Every character of the text is white space.
pub open spec fn all_space(s: Seq<char>) -> bool {
    forall|i: int| 0 <= i < s.len() ==> is_space(#[trigger] s[i])
}

/// Every character of the text is the digit zero.
pub open spec fn all_zero(s: Seq<char>) -> bool {
    forall|i: int| 0 <= i < s.len() ==> #[trigger] s[i] == '0'
}

proof fn lemma_trim_start_skip(s: Seq<char>, from: int)
    requires
        0 <= from <= s.len(),
        forall|i: int| 0 <= i < from ==> is_space(s[i]),
    ensures
        trim_start(s) == trim_start(s.skip(from)),
    decreases from,
{
    if from == 0 {
        assert(s.skip(0) =~= s);
    } else {
        lemma_trim_start_skip(s, from - 1);
        let t = s.skip(from - 1);
        assert(t.drop_first() =~= s.skip(from));
    }
}

proof fn lemma_trim_end_take(s: Seq<char>, to: int)
    requires
        0 <= to <= s.len(),
        forall|i: int| to <= i < s.len() ==> is_space(s[i]),
    ensures
        trim_end(s) == trim_end(s.take(to)),
    decreases s.len() - to,
{
    if to == s.len() {
        assert(s.take(to) =~= s);
    } else {
        lemma_trim_end_take(s, to + 1);
        let t = s.take(to + 1);
        assert(t.drop_last() =~= s.take(to));
    }
}

/// A run of digits that has a prefix which is worth nothing, or too much,
/// is itself worth nothing or at least as much.
proof fn lemma_digits_prefix(s: Seq<char>, k: int, radix: nat)
    requires
        0 <= k <= s.len(),
        radix >= 1,
    ensures
        digits_value(s.take(k), radix) is None ==> digits_value(s, radix) is None,
        digits_value(s, radix) matches Some(v) ==> digits_value(s.take(k), radix).unwrap() <= v,
    decreases s.len() - k,
{
    if k == s.len() {
        assert(s.take(k) =~= s);
    } else {
        lemma_digits_prefix(s, k + 1, radix);
        let t = s.take(k + 1);
        assert(t.drop_last() =~= s.take(k));
        if let (Some(high), Some(low)) = (
            digits_value(s.take(k), radix),
            digit_value(t.last(), radix),
        ) {
            assert(high * radix >= high) by (nonlinear_arith)
                requires
                    radix >= 1,
                    high >= 0,
            ;
        }
    }
}

fn space(c: char) -> (b: bool)
    ensures
        b == is_space(c),
{
    let u: u32 = c as u32;
    (0x09 <= u && u <= 0x0D) || u == 0x20 || u == 0x85 || u == 0xA0 || u == 0x1680 || (0x2000 <= u
        && u <= 0x200A) || u == 0x2028 || u == 0x2029 || u == 0x202F || u == 0x205F || u == 0x3000
}

fn digit(c: char, radix: usize) -> (d: Option<usize>)
    requires
        radix == 10 || radix == 16,
    ensures
        d matches Some(v) ==> v < radix && digit_value(c, radix as nat) == Some(v as nat),
        d is None ==> digit_value(c, radix as nat) is None,
{
    let u: u32 = c as u32;
    if 0x30 <= u && u <= 0x39 {
        Some((u - 0x30) as usize)
    } else if radix == 16 && 0x61 <= u && u <= 0x66 {
        Some((u - 0x61 + 10) as usize)
    } else if radix == 16 && 0x41 <= u && u <= 0x46 {
        Some((u - 0x41 + 10) as usize)
    } else {
        None
    }
}

/// Finds the part of `text` that `trim` leaves: its first and one past its
/// last character.
fn trim_bounds(text: &str) -> (bounds: (usize, usize))
    ensures
        bounds.0 <= bounds.1 <= text@.len(),
        text@.subrange(bounds.0 as int, bounds.1 as int) == trim(text@),
{
    let n: usize = text.unicode_len();
    let mut start: usize = 0;
    while start < n && space(text.get_char(start))
        invariant
            start <= n == text@.len(),
            forall|i: int| 0 <= i < start ==> is_space(text@[i]),
        decreases n - start,
    {
        start += 1;
    }
    let ghost rest = text@.skip(start as int);
    proof {
        lemma_trim_start_skip(text@, start as int);
        assert(trim_start(rest) == rest);
    }
    let mut end: usize = n;
    while end > start && space(text.get_char(end - 1))
        invariant
            start <= end <= n == text@.len(),
            forall|i: int| end <= i < n ==> is_space(text@[i]),
        decreases end,
    {
        end -= 1;
    }
    proof {
        lemma_trim_end_take(rest, end - start);
        assert(rest.take(end - start) =~= text@.subrange(start as int, end as int));
        let kept = text@.subrange(start as int, end as int);
        assert(kept.len() > 0 ==> kept.last() == text@[end - 1]);
        assert(trim_end(kept) == kept);
    }
    (start, end)
}

/// Steps over every `0x` at `start`.
fn skip_0x(text: &str, start: usize, end: usize) -> (from: usize)
    requires
        start <= end <= text@.len(),
    ensures
        start <= from <= end,
        text@.subrange(from as int, end as int) == strip_0x(
            text@.subrange(start as int, end as int),
        ),
{
    let mut from: usize = start;
    while end - from >= 2 && text.get_char(from) == '0' && text.get_char(from + 1) == 'x'
        invariant
            start <= from <= end <= text@.len(),
            strip_0x(text@.subrange(from as int, end as int)) == strip_0x(
                text@.subrange(start as int, end as int),
            ),
        decreases end - from,
    {
        proof {
            let here = text@.subrange(from as int, end as int);
            assert(here.skip(2) =~= text@.subrange(from + 2, end as int));
        }
        from += 2;
    }
    from
}

/// Reads the number that stands between `start` and `end`.
fn read_number(text: &str, start: usize, end: usize, radix: usize) -> (r: Result<usize, Error>)
    requires
        start <= end <= text@.len(),
        radix == 10 || radix == 16,
    ensures
        r == as_word(number(text@.subrange(start as int, end as int), radix as nat)),
{
    let ghost whole = text@.subrange(start as int, end as int);
    let mut at: usize = start;
    if at < end && text.get_char(at) == '+' {
        at += 1;
    }
    let ghost digits = text@.subrange(at as int, end as int);
    proof {
        if at > start {
            assert(whole.drop_first() =~= digits);
        }
    }
    if at == end {
        return Err(Error::Parse);
    }
    let first: usize = at;
    let mut value: usize = 0;
    assert(number(whole, radix as nat) == digits_value(digits, radix as nat));
    while at < end
        invariant
            start <= first <= at <= end <= text@.len(),
            whole == text@.subrange(start as int, end as int),
            number(whole, radix as nat) == digits_value(digits, radix as nat),
            radix == 10 || radix == 16,
            digits == text@.subrange(first as int, end as int),
            digits_value(digits.take(at - first), radix as nat) == Some(value as nat),
        decreases end - at,
    {
        proof {
            let next = digits.take(at - first + 1);
            assert(next.drop_last() =~= digits.take(at - first));
            assert(next.last() == text@[at as int]);
            lemma_digits_prefix(digits, at - first + 1, radix as nat);
        }
        match digit(text.get_char(at), radix) {
            None => {
                return Err(Error::Parse);
            },
            Some(low) => {
                if value > (usize::MAX - low) / radix {
                    assert(value * radix + low > usize::MAX) by (nonlinear_arith)
                        requires
                            value > (usize::MAX - low) / (radix as int),
                            radix >= 1,
                            low <= usize::MAX,
                    ;
                    return Err(Error::Parse);
                }
                assert(value * radix + low <= usize::MAX) by (nonlinear_arith)
                    requires
                        value <= (usize::MAX - low) / (radix as int),
                        radix >= 1,
                        low <= usize::MAX,
                ;
                value = value * radix + low;
            },
        }
        at += 1;
    }
    proof {
        assert(digits.take(end - first) =~= digits);
    }
    Ok(value)
}

/// Reads an attribute that the kernel prints in hexadecimal, such as a
/// physical address or the size of a register window.
pub fn parse_hex(text: &str) -> (r: Result<usize, Error>)
    ensures
        r == as_word(hex_attr(text@)),
{
    let (start, end) = trim_bounds(text);
    let from: usize = skip_0x(text, start, end);
    read_number(text, from, end, 16)
}

/// Reads an attribute that the kernel prints in decimal, such as the size
/// of a buffer.
pub fn parse_decimal(text: &str) -> (r: Result<usize, Error>)
    ensures
        r == as_word(decimal_attr(text@)),
{
    let (start, end) = trim_bounds(text);
    read_number(text, start, end, 10)
}

/// Reads a flag attribute.
pub fn parse_flag(text: &str) -> (on: bool)
    ensures
        on == flag_attr(text@),
{
    let (start, end) = trim_bounds(text);
    let off: bool = end - start == 1 && text.get_char(start) == '0';
    proof {
        let kept = text@.subrange(start as int, end as int);
        if off {
            assert(kept =~= seq!['0']);
        } else if kept == seq!['0'] {
            assert(kept.len() == 1 && kept[0] == '0');
        }
    }
    !off
}

/// In a run that denotes a number every character is a digit.
proof fn lemma_digits_are_digits(s: Seq<char>, radix: nat, i: int)
    requires
        digits_value(s, radix) is Some,
        0 <= i < s.len(),
    ensures
        digit_value(s[i], radix) is Some,
    decreases s.len(),
{
    if i < s.len() - 1 {
        lemma_digits_are_digits(s.drop_last(), radix, i);
    }
}

/// Digits that follow a run of digits count after it.
proof fn lemma_digits_concat(a: Seq<char>, b: Seq<char>, radix: nat)
    requires
        all_zero(a),
        radix == 10 || radix == 16,
    ensures
        digits_value(a + b, radix) == digits_value(b, radix),
    decreases b.len(),
{
    if b.len() == 0 {
        assert(a + b =~= a);
        lemma_zeros(a, radix);
    } else {
        assert((a + b).drop_last() =~= a + b.drop_last());
        assert((a + b).last() == b.last());
        lemma_digits_concat(a, b.drop_last(), radix);
    }
}

/// A run of zeros denotes zero.
proof fn lemma_zeros(a: Seq<char>, radix: nat)
    requires
        all_zero(a),
        radix == 10 || radix == 16,
    ensures
        digits_value(a, radix) == Some(0nat),
    decreases a.len(),
{
    if a.len() > 0 {
        assert(a.last() == '0');
        lemma_zeros(a.drop_last(), radix);
    }
}

/// A numeral denotes the number it was written for, also behind zeros.
pub proof fn lemma_numeral_value(zeros: Seq<char>, n: nat, radix: nat)
    requires
        all_zero(zeros),
        radix == 10 || radix == 16,
    ensures
        digits_value(zeros + numeral(n, radix), radix) == Some(n),
        numeral(n, radix).len() > 0,
    decreases n,
{
    lemma_digits_concat(zeros, numeral(n, radix), radix);
    let text = numeral(n, radix);
    if n < radix {
        assert(text.drop_last() =~= Seq::<char>::empty());
        assert(text.last() == digit_char(n));
        assert(digits_value(text.drop_last(), radix) == Some(0nat));
    } else {
        lemma_numeral_value(Seq::empty(), n / radix, radix);
        assert(Seq::<char>::empty() + numeral(n / radix, radix) =~= numeral(n / radix, radix));
        assert(text.drop_last() =~= numeral(n / radix, radix));
        assert(text.last() == digit_char(n % radix));
        assert((n / radix) * radix + n % radix == n) by (nonlinear_arith)
            requires
                radix > 0,
        ;
    }
}

/// White space around a run of digits does not count.
proof fn lemma_trim_digits(left: Seq<char>, digits: Seq<char>, right: Seq<char>, radix: nat)
    requires
        all_space(left),
        all_space(right),
        digits.len() > 0,
        digits_value(digits, radix) is Some,
    ensures
        trim(left + digits + right) == digits,
{
    let s = left + digits + right;
    lemma_digits_are_digits(digits, radix, 0);
    lemma_digits_are_digits(digits, radix, digits.len() - 1);
    lemma_trim_start_skip(s, left.len() as int);
    let t = s.skip(left.len() as int);
    assert(t =~= digits + right);
    assert(t[0] == digits[0]);
    assert(trim_start(t) == t);
    lemma_trim_end_take(t, digits.len() as int);
    assert(t.take(digits.len() as int) =~= digits);
    assert(trim_end(digits) == digits);
}

/// An attribute in hexadecimal holds what its digits denote, with or
/// without `0x` before them and whatever white space stands around.
pub proof fn lemma_hex_attr_reads(left: Seq<char>, digits: Seq<char>, right: Seq<char>)
    requires
        all_space(left),
        all_space(right),
        digits.len() > 0,
        digits_value(digits, 16) is Some,
    ensures
        hex_attr(left + seq!['0', 'x'] + digits + right) == digits_value(digits, 16),
        hex_attr(left + digits + right) == digits_value(digits, 16),
{
    let prefixed = seq!['0', 'x'] + digits;
    lemma_digits_are_digits(digits, 16, 0);
    if digits.len() > 1 {
        lemma_digits_are_digits(digits, 16, 1);
    }
    assert(strip_0x(digits) == digits);
    assert(number(digits, 16) == digits_value(digits, 16));
    lemma_trim_digits(left, digits, right, 16);
    // with the prefix, the text between the white space is `0x` and the digits
    let s = left + seq!['0', 'x'] + digits + right;
    assert(s =~= left + prefixed + right);
    lemma_trim_start_skip(s, left.len() as int);
    let t = s.skip(left.len() as int);
    assert(t =~= prefixed + right);
    assert(t[0] == '0');
    assert(trim_start(t) == t);
    lemma_trim_end_take(t, prefixed.len() as int);
    assert(t.take(prefixed.len() as int) =~= prefixed);
    assert(prefixed.last() == digits.last());
    lemma_digits_are_digits(digits, 16, digits.len() - 1);
    assert(trim_end(prefixed) == prefixed);
    assert(prefixed.skip(2) =~= digits);
    assert(prefixed[0] == '0' && prefixed[1] == 'x');
    assert(strip_0x(prefixed) == strip_0x(digits));
}

/// An attribute in decimal holds what its digits denote, whatever white
/// space stands around.
pub proof fn lemma_decimal_attr_reads(left: Seq<char>, digits: Seq<char>, right: Seq<char>)
    requires
        all_space(left),
        all_space(right),
        digits.len() > 0,
        digits_value(digits, 10) is Some,
    ensures
        decimal_attr(left + digits + right) == digits_value(digits, 10),
{
    lemma_digits_are_digits(digits, 10, 0);
    lemma_trim_digits(left, digits, right, 10);
}

/// An address that the kernel prints as `0x`, zeros to fill, its digits and
/// a line feed is read as that address; so is a size printed in decimal.
pub proof fn lemma_attr_round_trip(value: usize, zeros: Seq<char>)
    requires
        all_zero(zeros),
    ensures
        as_word(hex_attr(seq!['0', 'x'] + (zeros + numeral(value as nat, 16)) + seq!['\n']))
            == Ok::<usize, Error>(value),
        as_word(decimal_attr(numeral(value as nat, 10) + seq!['\n'])) == Ok::<usize, Error>(
            value,
        ),
{
    let line = seq!['\n'];
    let none = Seq::<char>::empty();
    assert(all_space(line));
    lemma_numeral_value(zeros, value as nat, 16);
    lemma_numeral_value(none, value as nat, 10);
    let hex = zeros + numeral(value as nat, 16);
    let dec = numeral(value as nat, 10);
    assert(none + dec =~= dec);
    lemma_hex_attr_reads(none, hex, line);
    assert(none + seq!['0', 'x'] + hex + line =~= seq!['0', 'x'] + hex + line);
    lemma_decimal_attr_reads(none, dec, line);
    assert(none + dec + line =~= dec + line);
}

} // verus!
