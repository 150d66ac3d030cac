//! Unsigned numbers as text, in decimal and in hexadecimal.

use crate::text;
use vstd::prelude::*;

verus! {

/// The digit for `d`, letters in lower case.
pub open spec fn digit_char(d: int) -> char {
    if d < 10 {
        ('0' as int + d) as char
    } else {
        ('a' as int + d - 10) as char
    }
}

/// The number that the digit `c` stands for; letters count in either case.
pub open spec fn digit_value(c: char, radix: int) -> Option<int> {
    let d = if '0' <= c <= '9' {
        c as int - '0' as int
    } else if 'a' <= c <= 'f' {
        c as int - 'a' as int + 10
    } else if 'A' <= c <= 'F' {
        c as int - 'A' as int + 10
    } else {
        16
    };
    if d < radix {
        Some(d)
    } else {
        None
    }
}

/// The numeral of `n`, without leading zeros.
pub open spec fn numeral(n: int, radix: int) -> Seq<char>
    decreases n,
{
    if n < radix || radix < 2 {
        seq![digit_char(n)]
    } else {
        proof {
            assert(0 <= n / radix < n) by (nonlinear_arith)
                requires
                    n >= radix,
                    radix >= 2,
            ;
        }
        numeral(n / radix, radix).push(digit_char(n % radix))
    }
}

/// The decimal numeral of `n`.
pub open spec fn decimal(n: int) -> Seq<char> {
    numeral(n, 10)
}

/// Whether every character of `s` is a digit.
pub open spec fn all_digits(s: Seq<char>, radix: int) -> bool {
    forall|i: int| 0 <= i < s.len() ==> digit_value(#[trigger] s[i], radix) is Some
}

/// The number that the digits of `s` stand for.
pub open spec fn digits_value(s: Seq<char>, radix: int) -> int
    decreases s.len(),
{
    if s.len() == 0 {
        0
    } else {
        digits_value(s.drop_last(), radix) * radix + digit_value(s.last(), radix).unwrap()
    }
}

/// Why a text is not a number of the type that was asked for.
#[derive(Clone, Copy, Debug, PartialEq, Eq, Structural)]
pub enum NumberError {
    /// The text is empty.
    Empty,
    /// The text holds a character that is no digit, or a sign alone.
    InvalidDigit,
    /// The number is larger than the type can hold.
    PosOverflow,
}

impl NumberError {
    /// What is wrong, in words.
    pub open spec fn words(self) -> Seq<char> {
        match self {
            NumberError::Empty => "cannot parse integer from empty string"@,
            NumberError::InvalidDigit => "invalid digit found in string"@,
            NumberError::PosOverflow => "number too large to fit in target type"@,
        }
    }

    /// What is wrong, in words.
    pub fn message(&self) -> (message: String)
        ensures
            message@ == self.words(),
    {
        match self {
            NumberError::Empty => "cannot parse integer from empty string".to_owned(),
            NumberError::InvalidDigit => "invalid digit found in string".to_owned(),
            NumberError::PosOverflow => "number too large to fit in target type".to_owned(),
        }
    }
}

/// What reading decimal digits from left to right gives: the first character that is
/// no digit, or that takes the number above `max`, decides the error.
pub open spec fn digits_read(s: Seq<char>, max: int) -> Result<int, NumberError>
    decreases s.len(),
{
    if s.len() == 0 {
        Ok(0)
    } else {
        match digits_read(s.drop_last(), max) {
            Err(error) => Err(error),
            Ok(value) => match digit_value(s.last(), 10) {
                None => Err(NumberError::InvalidDigit),
                Some(digit) => if value * 10 + digit > max {
                    Err(NumberError::PosOverflow)
                } else {
                    Ok(value * 10 + digit)
                },
            },
        }
    }
}

/// The text behind an optional plus sign.
pub open spec fn unsigned_digits(s: Seq<char>) -> Seq<char> {
    if s.len() > 0 && s[0] == '+' {
        s.drop_first()
    } else {
        s
    }
}

/// What a text is as an unsigned number of at most `max`: an optional plus sign, then
/// decimal digits.
pub open spec fn number_read(s: Seq<char>, max: int) -> Result<int, NumberError> {
    if s.len() == 0 {
        Err(NumberError::Empty)
    } else if unsigned_digits(s).len() == 0 {
        Err(NumberError::InvalidDigit)
    } else {
        digits_read(unsigned_digits(s), max)
    }
}

/// The result of a parse, its number seen as an integer.
pub open spec fn as_read(result: Result<u64, NumberError>) -> Result<int, NumberError> {
    match result {
        Ok(value) => Ok(value as int),
        Err(error) => Err(error),
    }
}

/// The digit for `d`.
fn digit(d: u64) -> (c: char)
    requires
        d < 16,
    ensures
        c == digit_char(d as int),
{
    if d < 10 {
        (48u8 + d as u8) as char
    } else {
        (97u8 + (d as u8 - 10u8)) as char
    }
}

/// Writes the numeral of `n` behind `out`.
pub fn push_numeral(out: &mut String, n: u64, radix: u64)
    requires
        2 <= radix <= 16,
    ensures
        final(out)@ == old(out)@ + numeral(n as int, radix as int),
    decreases n,
{
    if n >= radix {
        assert(n / radix < n) by (nonlinear_arith)
            requires
                n >= radix,
                radix >= 2,
        ;
        push_numeral(out, n / radix, radix);
    }
    out.push(digit(n % radix));
    proof {
        let d = digit_char(n as int % radix as int);
        if n >= radix {
            let init = numeral(n as int / radix as int, radix as int);
            assert((old(out)@ + init).push(d) == old(out)@ + init.push(d));
        } else {
            assert(n as int % radix as int == n) by (nonlinear_arith)
                requires
                    0 <= n < radix,
            ;
            assert(old(out)@.push(d) == old(out)@ + seq![d]);
        }
    }
}

/// The decimal numeral of `n`.
pub fn decimal_text(n: u64) -> (text: String)
    ensures
        text@ == decimal(n as int),
{
    let mut text = String::new();
    push_numeral(&mut text, n, 10);
    assert(Seq::<char>::empty() + decimal(n as int) == decimal(n as int));
    text
}

/// The number that the digit `c` stands for.
pub fn digit_number(c: char, radix: u64) -> (d: Option<u64>)
    requires
        radix <= 16,
    ensures
        d is Some <==> digit_value(c, radix as int) is Some,
        d is Some ==> d.unwrap() == digit_value(c, radix as int).unwrap(),
{
    let d: u64 = if '0' <= c && c <= '9' {
        c as u64 - 48
    } else if 'a' <= c && c <= 'f' {
        c as u64 - 87
    } else if 'A' <= c && c <= 'F' {
        c as u64 - 55
    } else {
        16
    };
    if d < radix {
        Some(d)
    } else {
        None
    }
}

/// The unsigned number that `text` stands for, of at most `max`: an optional plus
/// sign, then decimal digits.
pub fn parse_number(text: &str, max: u64) -> (result: Result<u64, NumberError>)
    ensures
        as_read(result) == number_read(text@, max as int),
{
    let chars = text::characters(text);
    if chars.len() == 0 {
        return Err(NumberError::Empty);
    }
    let start: usize = if chars[0] == '+' {
        1
    } else {
        0
    };
    let ghost digits = unsigned_digits(text@);
    assert(digits == text@.skip(start as int));
    if start == chars.len() {
        return Err(NumberError::InvalidDigit);
    }
    let mut value: u64 = 0;
    let mut i: usize = start;
    assert(digits.take(0) == Seq::<char>::empty());
    while i < chars.len()
        invariant
            start <= i <= chars.len(),
            chars@ == text@,
            text@.len() > 0,
            digits.len() > 0,
            digits == unsigned_digits(text@),
            digits == text@.skip(start as int),
            value <= max,
            digits_read(digits.take(i - start), max as int) == Ok::<int, NumberError>(value as int),
        decreases chars.len() - i,
    {
        proof {
            let k = i - start;
            assert(digits.take(k + 1).drop_last() == digits.take(k));
            assert(digits.take(k + 1).last() == chars@[i as int]);
        }
        match digit_number(chars[i], 10) {
            None => {
                proof {
                    lemma_first_fault_decides(digits, i - start + 1, max as int);
                }
                return Err(NumberError::InvalidDigit);
            },
            Some(d) => {
                let next: u128 = value as u128 * 10 + d as u128;
                if next > max as u128 {
                    proof {
                        lemma_first_fault_decides(digits, i - start + 1, max as int);
                    }
                    return Err(NumberError::PosOverflow);
                }
                value = next as u64;
            },
        }
        i = i + 1;
    }
    assert(digits.take(digits.len() as int) == digits);
    Ok(value)
}

/// Once the digits read so far give an error, the whole text gives it.
proof fn lemma_first_fault_decides(s: Seq<char>, n: int, max: int)
    requires
        0 <= n <= s.len(),
        digits_read(s.take(n), max) is Err,
    ensures
        digits_read(s, max) == digits_read(s.take(n), max),
    decreases s.len(),
{
    if n == s.len() {
        assert(s.take(n) == s);
    } else {
        assert(s.drop_last().take(n) == s.take(n));
        lemma_first_fault_decides(s.drop_last(), n, max);
    }
}

/// Reading digits succeeds exactly where all characters are digits and the number is
/// small enough, and gives that number.
proof fn lemma_digits_read(s: Seq<char>, max: int)
    requires
        max >= 0,
    ensures
        digits_read(s, max) is Ok <==> all_digits(s, 10) && digits_value(s, 10) <= max,
        digits_read(s, max) is Ok ==> digits_read(s, max) == Ok::<int, NumberError>(
            digits_value(s, 10),
        ),
        all_digits(s, 10) ==> digits_value(s, 10) >= 0,
    decreases s.len(),
{
    if s.len() > 0 {
        let init = s.drop_last();
        lemma_digits_read(init, max);
        if all_digits(s, 10) {
            assert forall|i: int| 0 <= i < init.len() implies digit_value(
                #[trigger] init[i],
                10,
            ) is Some by {
                assert(init[i] == s[i]);
            }
            assert(digit_value(s[s.len() - 1], 10) is Some);
        }
        if all_digits(init, 10) && digit_value(s.last(), 10) is Some {
            assert forall|i: int| 0 <= i < s.len() implies digit_value(
                #[trigger] s[i],
                10,
            ) is Some by {
                if i < init.len() {
                    assert(init[i] == s[i]);
                }
            }
        }
    }
}

/// Digits stand for no negative number.
pub proof fn lemma_digits_value_is_natural(s: Seq<char>)
    requires
        all_digits(s, 10),
    ensures
        digits_value(s, 10) >= 0,
{
    lemma_digits_read(s, 0);
}

/// A text is an unsigned number of at most `max` exactly if it is at least one digit
/// behind an optional plus sign and the digits stand for such a number.
pub proof fn number_read_accepts(s: Seq<char>, max: int, value: int)
    requires
        max >= 0,
    ensures
        number_read(s, max) == Ok::<int, NumberError>(value) <==> {
            let digits = unsigned_digits(s);
            &&& digits.len() > 0
            &&& all_digits(digits, 10)
            &&& digits_value(digits, 10) == value
            &&& value <= max
        },
{
    lemma_digits_read(unsigned_digits(s), max);
}

/// The numeral of a number is digits, begins with zero only for zero itself, and stands
/// for the number.
pub proof fn lemma_numeral(n: int, radix: int)
    requires
        0 <= n,
        2 <= radix <= 16,
    ensures
        numeral(n, radix).len() > 0,
        all_digits(numeral(n, radix), radix),
        digits_value(numeral(n, radix), radix) == n,
        n > 0 ==> numeral(n, radix)[0] != '0',
        n == 0 ==> numeral(n, radix) == seq!['0'],
        forall|i: int| 0 <= i < numeral(n, radix).len() ==> is_digit_char(
            #[trigger] numeral(n, radix)[i],
        ),
    decreases n,
{
    let s = numeral(n, radix);
    if n < radix {
        assert(s.drop_last() == Seq::<char>::empty());
        assert(digits_value(s.drop_last(), radix) == 0);
    } else {
        assert(0 <= n / radix < n && n / radix > 0 && 0 <= n % radix < radix && (n / radix) * radix
            + n % radix == n) by (nonlinear_arith)
            requires
                n >= radix,
                radix >= 2,
        ;
        lemma_numeral(n / radix, radix);
        let init = numeral(n / radix, radix);
        assert(s.drop_last() == init);
        assert(s.last() == digit_char(n % radix));
        assert forall|i: int| 0 <= i < s.len() implies digit_value(
            #[trigger] s[i],
            radix,
        ) is Some && is_digit_char(s[i]) by {
            if i < init.len() {
                assert(s[i] == init[i]);
            }
        }
        assert(s[0] == init[0]);
    }
}

/// A character that a numeral may hold.
pub open spec fn is_digit_char(c: char) -> bool {
    '0' <= c <= '9' || 'a' <= c <= 'f'
}

/// A numeral holds digits only.
pub proof fn lemma_numeral_lacks(n: int, radix: int, c: char)
    requires
        0 <= n,
        2 <= radix <= 16,
        !is_digit_char(c),
    ensures
        text::lacks(numeral(n, radix), c),
{
    lemma_numeral(n, radix);
    let s = numeral(n, radix);
    assert forall|i: int| 0 <= i < s.len() implies #[trigger] s[i] != c by {
        assert(is_digit_char(s[i]));
    }
}

/// Two numbers with the same decimal numeral are the same number.
pub proof fn decimal_is_injective(a: int, b: int)
    requires
        0 <= a,
        0 <= b,
        decimal(a) == decimal(b),
    ensures
        a == b,
{
    lemma_numeral(a, 10);
    lemma_numeral(b, 10);
}

/// Reading the decimal numeral of a number gives the number back.
pub proof fn decimal_reads_back(n: int, max: int)
    requires
        0 <= n <= max,
    ensures
        number_read(decimal(n), max) == Ok::<int, NumberError>(n),
{
    lemma_numeral(n, 10);
    assert(is_digit_char(decimal(n)[0]));
    number_read_accepts(decimal(n), max, n);
}

/// The numeral of a digit is that digit, and the numeral of any other number is that of
/// its quotient with one more digit behind it: a digit up to nine is the character so far
/// behind `0`, one above is the lower-case letter so far behind `a`.
pub proof fn numerals_grow_by_a_digit(n: int, d: int, radix: int)
    requires
        0 < n,
        0 <= d < radix,
        2 <= radix <= 16,
    ensures
        numeral(d, radix).len() == 1,
        numeral(n * radix + d, radix) == numeral(n, radix) + numeral(d, radix),
        d < 10 ==> numeral(d, radix)[0] as int == '0' as int + d,
        d >= 10 ==> numeral(d, radix)[0] as int == 'a' as int + d - 10,
{
    let sum = n * radix + d;
    assert(sum >= radix && sum / radix == n && sum % radix == d) by (nonlinear_arith)
        requires
            0 < n,
            0 <= d < radix,
            2 <= radix,
            sum == n * radix + d,
    ;
    assert(numeral(d, radix) == seq![digit_char(d)]);
    assert(numeral(sum, radix) == numeral(n, radix).push(digit_char(d)));
}

/// A digit stands for what it is the numeral of, letters in either case alike, and no
/// other character is a digit.
pub proof fn digits_stand_for_numbers(c: char, d: int, radix: int)
    requires
        2 <= radix <= 16,
        0 <= d,
    ensures
        digit_value(c, radix) == Some(d) <==> d < radix && (c == numeral(d, radix)[0] || (d >= 10
            && c as int == numeral(d, radix)[0] as int - 32)),
        digit_value(c, radix) is Some ==> 0 <= digit_value(c, radix).unwrap() < radix,
{
    if d < radix {
        assert(numeral(d, radix) == seq![digit_char(d)]);
    }
}

/// Digits stand for the number that the digits before the last stand for, so many times as
/// the radix says, and the last digit.
pub proof fn digits_count_in_places(s: Seq<char>, c: char, radix: int)
    ensures
        digits_value(Seq::empty(), radix) == 0,
        digits_value(s.push(c), radix) == digits_value(s, radix) * radix + digit_value(
            c,
            radix,
        ).unwrap(),
        all_digits(s.push(c), radix) <==> all_digits(s, radix) && digit_value(c, radix) is Some,
{
    let longer = s.push(c);
    assert(longer.drop_last() == s);
    if all_digits(longer, radix) {
        assert(digit_value(longer[s.len() as int], radix) is Some);
        assert forall|i: int| 0 <= i < s.len() implies digit_value(
            #[trigger] s[i],
            radix,
        ) is Some by {
            assert(digit_value(longer[i], radix) is Some);
        }
    }
}

/// A text is read as a number one character after the other. Nothing is no number, and
/// neither is a sign alone; a plus sign in front changes nothing. Each digit behind a
/// number makes ten times the number and the digit of it, unless that is too large, and
/// any other character makes it no number. What is wrong once stays wrong.
pub proof fn numbers_are_read_digit_by_digit(s: Seq<char>, c: char, max: int)
    requires
        max >= 0,
    ensures
        number_read(Seq::empty(), max) == Err::<int, NumberError>(NumberError::Empty),
        number_read(seq![c], max) == (if !('0' <= c <= '9') {
            Err::<int, NumberError>(NumberError::InvalidDigit)
        } else if c as int - '0' as int > max {
            Err(NumberError::PosOverflow)
        } else {
            Ok(c as int - '0' as int)
        }),
        s.len() > 0 && s != seq!['+'] ==> number_read(s.push(c), max) == (match number_read(s, max) {
            Err(error) => Err::<int, NumberError>(error),
            Ok(value) => if !('0' <= c <= '9') {
                Err(NumberError::InvalidDigit)
            } else if 10 * value + (c as int - '0' as int) > max {
                Err(NumberError::PosOverflow)
            } else {
                Ok(10 * value + (c as int - '0' as int))
            },
        }),
        s.len() > 0 ==> number_read(seq!['+'] + s, max) == (if s[0] == '+' {
            Err::<int, NumberError>(NumberError::InvalidDigit)
        } else {
            number_read(s, max)
        }),
{
    assert(seq![c].drop_last() == Seq::<char>::empty());
    assert(digits_read(Seq::<char>::empty(), max) == Ok::<int, NumberError>(0));
    assert(seq![c].drop_first() == Seq::<char>::empty());
    if s.len() > 0 {
        let signed = seq!['+'] + s;
        assert(signed.drop_first() == s);
        if s[0] == '+' {
            assert(s.take(1).drop_last() == Seq::<char>::empty());
            assert(digits_read(s.take(1), max) is Err);
            lemma_first_fault_decides(s, 1, max);
        }
        if s != seq!['+'] {
            let digits = unsigned_digits(s);
            if s[0] == '+' {
                assert(s.push(c).drop_first() == s.drop_first().push(c));
                if digits.len() == 0 {
                    assert(s == seq!['+']);
                }
            }
            assert(unsigned_digits(s.push(c)) == digits.push(c));
            assert(digits.push(c).drop_last() == digits);
        }
    }
}

/// Whether the word is the decimal numeral of the number: it is read as the number, and
/// has no sign and no zero in front of other digits.
pub open spec fn is_numeral_of(word: Seq<char>, n: int) -> bool {
    &&& number_read(word, n) == Ok::<int, NumberError>(n)
    &&& word[0] != '+'
    &&& word.len() == 1 || word[0] != '0'
}

/// Digits without a zero in front are the numeral of the number that they stand for.
pub proof fn lemma_digits_are_numeral(word: Seq<char>)
    requires
        word.len() > 0,
        all_digits(word, 10),
        word.len() == 1 || word[0] != '0',
    ensures
        digits_value(word, 10) >= 0,
        word[0] != '0' ==> digits_value(word, 10) > 0,
        decimal(digits_value(word, 10)) == word,
    decreases word.len(),
{
    let init = word.drop_last();
    assert(digit_value(word[word.len() - 1], 10) is Some);
    let d = digit_value(word.last(), 10).unwrap();
    assert(digit_char(d) == word.last());
    if init.len() == 0 {
        assert(digits_value(init, 10) == 0);
        assert(decimal(d) == word);
    } else {
        assert forall|i: int| 0 <= i < init.len() implies digit_value(
            #[trigger] init[i],
            10,
        ) is Some by {
            assert(init[i] == word[i]);
        }
        lemma_digits_are_numeral(init);
        numerals_grow_by_a_digit(digits_value(init, 10), d, 10);
        assert(init + seq![word.last()] == word);
    }
}

/// Every number has exactly one decimal numeral.
pub proof fn decimal_is_the_only_numeral(word: Seq<char>, n: int)
    requires
        0 <= n,
    ensures
        is_numeral_of(word, n) <==> word == decimal(n),
{
    decimal_reads_back(n, n);
    lemma_numeral(n, 10);
    assert(is_digit_char(decimal(n)[0]));
    if n == 0 {
        assert(decimal(n) == seq!['0']);
    }
    if is_numeral_of(word, n) {
        number_read_accepts(word, n, n);
        lemma_digits_are_numeral(word);
    }
}

/// A parse is seen as what it gave, a number or the fault.
pub proof fn parsed_number_is_seen_as_it_is(value: u64, error: NumberError)
    ensures
        as_read(Ok(value)) == Ok::<int, NumberError>(value as int),
        as_read(Err(error)) == Err::<int, NumberError>(error),
{
}

} // verus!
