//! What the tokens of the format are, stated on sequences of characters.
//!
//! Each function here takes the text that is still to be read and says what a
//! token at its front is and what text is left behind it. Nothing here runs:
//! these are the terms in which the token readers and the grammar are
//! specified.

use vstd::prelude::*;

verus! {

/// The text left behind `key`, where `s` begins with `key`.
pub open spec fn after_literal(s: Seq<char>, key: Seq<char>) -> Option<Seq<char>> {
    if key.is_prefix_of(s) {
        Some(s.skip(key.len() as int))
    } else {
        None
    }
}

/// The text left behind an end of line, which is a line feed, or a carriage
/// return and a line feed.
pub open spec fn after_line_ending(s: Seq<char>) -> Option<Seq<char>> {
    if s.len() >= 1 && s[0] == '\n' {
        Some(s.skip(1))
    } else if s.len() >= 2 && s[0] == '\r' && s[1] == '\n' {
        Some(s.skip(2))
    } else {
        None
    }
}

/// The first character and the text behind it, where that character is not
/// `excluded`.
pub open spec fn after_char_except(s: Seq<char>, excluded: char) -> Option<(char, Seq<char>)> {
    if s.len() >= 1 && s[0] != excluded {
        Some((s[0], s.skip(1)))
    } else {
        None
    }
}

/// The text from the first place at which `key` stands, if there is one.
pub open spec fn from_first(s: Seq<char>, key: Seq<char>) -> Option<Seq<char>>
    decreases s.len(),
{
    if key.is_prefix_of(s) {
        Some(s)
    } else if s.len() == 0 {
        None
    } else {
        from_first(s.skip(1), key)
    }
}

/// Whether `c` is one of the ten digits of ASCII.
pub open spec fn is_digit(c: char) -> bool {
    '0' <= c && c <= '9'
}

/// Whether `c` is a digit or a letter of ASCII.
pub open spec fn is_alphanumeric(c: char) -> bool {
    is_digit(c) || ('a' <= c && c <= 'z') || ('A' <= c && c <= 'Z')
}

/// How many digits stand at the front of `s`.
pub open spec fn digit_run(s: Seq<char>) -> nat
    decreases s.len(),
{
    if s.len() > 0 && is_digit(s[0]) {
        1 + digit_run(s.skip(1))
    } else {
        0
    }
}

/// How many letters and digits stand at the front of `s`.
pub open spec fn alphanumeric_run(s: Seq<char>) -> nat
    decreases s.len(),
{
    if s.len() > 0 && is_alphanumeric(s[0]) {
        1 + alphanumeric_run(s.skip(1))
    } else {
        0
    }
}

/// The number that a sequence of digits writes in base ten.
pub open spec fn digits_value(s: Seq<char>) -> nat
    decreases s.len(),
{
    if s.len() == 0 {
        0
    } else {
        10 * digits_value(s.drop_last()) + (s.last() as nat - '0' as nat) as nat
    }
}

/// The length of the unsigned integer literal at the front of `s`, or 0 where
/// none stands there. A literal is a lone `0`, or a run of digits that does
/// not begin with `0`: of `007` only the first character is read.
pub open spec fn unsigned_literal_len(s: Seq<char>) -> nat {
    if s.len() > 0 && s[0] == '0' {
        1
    } else {
        digit_run(s)
    }
}

/// The unsigned integer at the front of `s` and the text behind it. There is
/// none where no literal stands there or where its value is above `u64::MAX`.
pub open spec fn dec_uint(s: Seq<char>) -> Option<(u64, Seq<char>)> {
    let n = unsigned_literal_len(s) as int;
    let value = digits_value(s.take(n));
    if n > 0 && value <= u64::MAX {
        Some((value as u64, s.skip(n)))
    } else {
        None
    }
}

/// The signed integer at the front of `s` and the text behind it. A literal
/// is a lone `0`, or an optional sign and a run of digits that does not begin
/// with `0`. There is none where no literal stands there or where its value
/// does not fit an `i64`.
pub open spec fn dec_int(s: Seq<char>) -> Option<(i64, Seq<char>)> {
    if s.len() > 0 && s[0] == '0' {
        Some((0i64, s.skip(1)))
    } else {
        let signed = s.len() > 0 && (s[0] == '+' || s[0] == '-');
        let digits = if signed { s.skip(1) } else { s };
        let n = digit_run(digits) as int;
        let magnitude = digits_value(digits.take(n)) as int;
        let value = if signed && s[0] == '-' { -magnitude } else { magnitude };
        if n > 0 && digits[0] != '0' && i64::MIN <= value <= i64::MAX {
            Some((value as i64, digits.skip(n)))
        } else {
            None
        }
    }
}

/// The run of letters and digits at the front of `s`, which has to hold at
/// least one, and the text behind it.
pub open spec fn alphanumeric_word(s: Seq<char>) -> Option<(Seq<char>, Seq<char>)> {
    let n = alphanumeric_run(s) as int;
    if n > 0 {
        Some((s.take(n), s.skip(n)))
    } else {
        None
    }
}

/// Whether `c` is the given letter of ASCII, in its lower or its upper case.
pub open spec fn is_letter(c: char, lower: char, upper: char) -> bool {
    c == lower || c == upper
}

/// Whether `s` begins with `nan`, in any case of its letters.
pub open spec fn begins_nan(s: Seq<char>) -> bool {
    s.len() >= 3 && is_letter(s[0], 'n', 'N') && is_letter(s[1], 'a', 'A') && is_letter(
        s[2],
        'n',
        'N',
    )
}

/// Whether `s` begins with `inf`, in any case of its letters.
pub open spec fn begins_inf(s: Seq<char>) -> bool {
    s.len() >= 3 && is_letter(s[0], 'i', 'I') && is_letter(s[1], 'n', 'N') && is_letter(
        s[2],
        'f',
        'F',
    )
}

/// Whether `s` begins with `inity`, in any case of its letters.
pub open spec fn begins_inity(s: Seq<char>) -> bool {
    s.len() >= 5 && is_letter(s[0], 'i', 'I') && is_letter(s[1], 'n', 'N') && is_letter(
        s[2],
        'i',
        'I',
    ) && is_letter(s[3], 't', 'T') && is_letter(s[4], 'y', 'Y')
}

/// The length of the exponent at the front of `s`. Where `s` does not begin
/// with `e` or `E` there is none, of length 0. Where it does, an optional
/// sign and at least one digit have to follow: `e` alone is an error.
pub open spec fn exponent_len(s: Seq<char>) -> Option<nat> {
    if s.len() > 0 && is_letter(s[0], 'e', 'E') {
        let mark: int = if s.len() > 1 && (s[1] == '+' || s[1] == '-') {
            2
        } else {
            1
        };
        let digits = digit_run(s.skip(mark));
        if digits > 0 {
            Some((mark + digits) as nat)
        } else {
            None
        }
    } else {
        Some(0)
    }
}

/// The length of the floating-point literal without sign at the front of
/// `s`. By its first character it is `inf` or `infinity`; or a point, digits
/// and an exponent; or digits, an optional point with optional digits, and
/// an exponent.
pub open spec fn unsigned_float_len(s: Seq<char>) -> Option<nat> {
    if s.len() > 0 && is_letter(s[0], 'i', 'I') {
        if !begins_inf(s) {
            None
        } else if begins_inity(s.skip(3)) {
            Some(8)
        } else {
            Some(3)
        }
    } else if s.len() > 0 && s[0] == '.' {
        let fraction = digit_run(s.skip(1));
        match exponent_len(s.skip(1 + fraction as int)) {
            Some(exponent) if fraction > 0 => Some(1 + fraction + exponent),
            _ => None,
        }
    } else {
        let whole = digit_run(s);
        let behind = s.skip(whole as int);
        let fraction = if behind.len() > 0 && behind[0] == '.' {
            1 + digit_run(behind.skip(1))
        } else {
            0
        };
        match exponent_len(behind.skip(fraction as int)) {
            Some(exponent) if whole > 0 => Some(whole + fraction + exponent),
            _ => None,
        }
    }
}

/// The length of the floating-point literal at the front of `s`, as
/// `winnow::ascii::float` takes it: `nan`; or a sign and a literal without
/// sign; or a literal without sign.
pub open spec fn float_literal_len(s: Seq<char>) -> Option<nat> {
    if s.len() > 0 && is_letter(s[0], 'n', 'N') {
        if begins_nan(s) {
            Some(3)
        } else {
            None
        }
    } else if s.len() > 0 && (s[0] == '+' || s[0] == '-') {
        match unsigned_float_len(s.skip(1)) {
            Some(n) => Some(1 + n),
            None => None,
        }
    } else {
        unsigned_float_len(s)
    }
}

/// The floating-point literal at the front of `s` and the text behind it.
pub open spec fn float_literal(s: Seq<char>) -> Option<(Seq<char>, Seq<char>)> {
    match float_literal_len(s) {
        Some(n) => Some((s.take(n as int), s.skip(n as int))),
        None => None,
    }
}

/// Whether `s` is, from its first character to its last, digits with one
/// point at most among them, and one digit at least. The point may stand
/// anywhere: `5`, `5.25`, `5.` and `.25` are of this form, and a lone point
/// is not.
pub open spec fn is_unsigned_decimal(s: Seq<char>) -> bool {
    let whole = digit_run(s);
    let behind = s.skip(whole as int);
    if behind.len() == 0 {
        whole > 0
    } else {
        behind[0] == '.' && digit_run(behind.skip(1)) == behind.len() - 1 && whole + behind.len()
            > 1
    }
}

/// Whether `s` is a decimal literal from its first character to its last:
/// an optional sign, and then digits with one point at most among them, one
/// digit at least. The part before the point and the part behind it may each
/// be empty, not both. Nothing else is a decimal literal: no exponent form,
/// no `inf`, no `nan`.
pub open spec fn is_decimal_literal(s: Seq<char>) -> bool {
    if s.len() > 0 && (s[0] == '+' || s[0] == '-') {
        is_unsigned_decimal(s.skip(1))
    } else {
        is_unsigned_decimal(s)
    }
}

/// A decimal number at the front of `s` and the text behind it: the
/// floating-point literal that stands there, where it is a decimal literal.
pub open spec fn decimal_number(s: Seq<char>) -> Option<(Seq<char>, Seq<char>)> {
    match float_literal(s) {
        Some((literal, rest)) if is_decimal_literal(literal) => Some((literal, rest)),
        _ => None,
    }
}

/// A run of digits is no longer than the text it stands in.
pub proof fn lemma_digit_run_bound(s: Seq<char>)
    ensures
        digit_run(s) <= s.len(),
    decreases s.len(),
{
    if s.len() > 0 && is_digit(s[0]) {
        lemma_digit_run_bound(s.skip(1));
    }
}

/// An exponent is no longer than the text it stands in.
pub proof fn lemma_exponent_bound(s: Seq<char>)
    ensures
        exponent_len(s) matches Some(n) ==> n <= s.len(),
{
    if s.len() > 0 && is_letter(s[0], 'e', 'E') {
        if s.len() > 1 && (s[1] == '+' || s[1] == '-') {
            lemma_digit_run_bound(s.skip(2));
        } else {
            lemma_digit_run_bound(s.skip(1));
        }
    }
}

/// A floating-point literal holds at least one character and is no longer
/// than the text it stands in.
pub proof fn lemma_float_literal_bound(s: Seq<char>)
    ensures
        float_literal_len(s) matches Some(n) ==> 1 <= n <= s.len(),
{
    lemma_unsigned_float_bound(s);
    if s.len() > 0 && (s[0] == '+' || s[0] == '-') {
        lemma_unsigned_float_bound(s.skip(1));
    }
}

/// A floating-point literal without sign holds at least one character and
/// is no longer than the text it stands in.
pub proof fn lemma_unsigned_float_bound(s: Seq<char>)
    ensures
        unsigned_float_len(s) matches Some(n) ==> 1 <= n <= s.len(),
{
    if s.len() > 0 && is_letter(s[0], 'i', 'I') {
    } else if s.len() > 0 && s[0] == '.' {
        lemma_digit_run_bound(s.skip(1));
        lemma_exponent_bound(s.skip(1 + digit_run(s.skip(1)) as int));
    } else {
        lemma_digit_run_bound(s);
        let behind = s.skip(digit_run(s) as int);
        if behind.len() > 0 && behind[0] == '.' {
            lemma_digit_run_bound(behind.skip(1));
            lemma_exponent_bound(behind.skip(1 + digit_run(behind.skip(1)) as int));
        } else {
            lemma_exponent_bound(behind.skip(0));
        }
    }
}

/// A run of letters and digits is no longer than the text it stands in.
pub proof fn lemma_alphanumeric_run_bound(s: Seq<char>)
    ensures
        alphanumeric_run(s) <= s.len(),
    decreases s.len(),
{
    if s.len() > 0 && is_alphanumeric(s[0]) {
        lemma_alphanumeric_run_bound(s.skip(1));
    }
}

/// An unsigned integer takes at least one character, and what it leaves is a
/// tail of the text.
pub proof fn lemma_dec_uint_consumes(s: Seq<char>)
    ensures
        dec_uint(s) matches Some((_, rest)) ==> rest.len() < s.len() && rest == s.skip(
            s.len() - rest.len(),
        ),
{
    lemma_digit_run_bound(s);
}

/// A signed integer takes at least one character, and what it leaves is a
/// tail of the text.
pub proof fn lemma_dec_int_consumes(s: Seq<char>)
    ensures
        dec_int(s) matches Some((_, rest)) ==> rest.len() < s.len() && rest == s.skip(
            s.len() - rest.len(),
        ),
{
    if s.len() > 0 && s[0] != '0' {
        let signed = s[0] == '+' || s[0] == '-';
        let digits = if signed { s.skip(1) } else { s };
        lemma_digit_run_bound(digits);
        if signed {
            let n = digit_run(digits) as int;
            assert(s.skip(1).skip(n) =~= s.skip(1 + n));
        }
    }
}

/// What `from_first` finds begins with the key and is a tail of the text.
pub proof fn lemma_from_first_is_tail(s: Seq<char>, key: Seq<char>)
    ensures
        from_first(s, key) matches Some(rest) ==> key.is_prefix_of(rest) && rest.len() <= s.len()
            && rest == s.skip(s.len() - rest.len()),
    decreases s.len(),
{
    if key.is_prefix_of(s) {
        assert(s.skip(0) =~= s);
    } else if s.len() > 0 {
        lemma_from_first_is_tail(s.skip(1), key);
        match from_first(s, key) {
            Some(rest) => {
                assert(s.skip(1).skip(s.len() - 1 - rest.len()) =~= s.skip(s.len() - rest.len()));
            },
            None => {},
        }
    }
}

/// What `from_first` finds is the first place: the key stands at no place
/// before it.
pub proof fn lemma_from_first_is_first(s: Seq<char>, key: Seq<char>, i: int)
    requires
        from_first(s, key) matches Some(rest) && 0 <= i < s.len() - rest.len(),
    ensures
        !key.is_prefix_of(s.skip(i)),
    decreases s.len(),
{
    if key.is_prefix_of(s) {
    } else if s.len() > 0 {
        if i == 0 {
            assert(s.skip(0) =~= s);
        } else {
            lemma_from_first_is_first(s.skip(1), key, i - 1);
            assert(s.skip(1).skip(i - 1) =~= s.skip(i));
        }
    }
}

/// Where `from_first` finds nothing, the key stands at no place of the text.
pub proof fn lemma_from_first_finds(s: Seq<char>, key: Seq<char>, i: int)
    requires
        from_first(s, key) is None,
        0 <= i <= s.len(),
    ensures
        !key.is_prefix_of(s.skip(i)),
    decreases s.len(),
{
    if i == 0 {
        assert(s.skip(0) =~= s);
    } else {
        lemma_from_first_finds(s.skip(1), key, i - 1);
        assert(s.skip(1).skip(i - 1) =~= s.skip(i));
    }
}

/// The characters of a run of digits are digits.
pub proof fn lemma_digit_run_holds_digits(s: Seq<char>, i: int)
    requires
        0 <= i < digit_run(s),
    ensures
        i < s.len(),
        is_digit(s[i]),
    decreases s.len(),
{
    if i > 0 {
        lemma_digit_run_holds_digits(s.skip(1), i - 1);
    }
}

/// Digits followed by a text: the run of digits goes on into the text.
pub proof fn lemma_digit_run_goes_on(digits: Seq<char>, rest: Seq<char>)
    requires
        digit_run(digits) == digits.len(),
    ensures
        digit_run(digits + rest) == digits.len() + digit_run(rest),
    decreases digits.len(),
{
    if digits.len() == 0 {
        assert(digits + rest =~= rest);
    } else {
        lemma_digit_run_bound(digits.skip(1));
        lemma_digit_run_goes_on(digits.skip(1), rest);
        assert((digits + rest).skip(1) =~= digits.skip(1) + rest);
    }
}

/// The run of digits at the front of a text is a run of digits by itself.
pub proof fn lemma_digit_run_alone(s: Seq<char>)
    ensures
        digit_run(s) <= s.len(),
        digit_run(s.take(digit_run(s) as int)) == digit_run(s),
    decreases s.len(),
{
    lemma_digit_run_bound(s);
    if s.len() > 0 && is_digit(s[0]) {
        lemma_digit_run_alone(s.skip(1));
        lemma_digit_run_bound(s.skip(1));
        assert(s.take(digit_run(s) as int).skip(1) =~= s.skip(1).take(digit_run(s.skip(1)) as int));
    }
}

/// A decimal literal without sign is made of digits and one point at most.
pub proof fn lemma_unsigned_decimal_characters(s: Seq<char>, i: int)
    requires
        is_unsigned_decimal(s),
        0 <= i < s.len(),
    ensures
        is_digit(s[i]) || s[i] == '.',
{
    let whole = digit_run(s) as int;
    lemma_digit_run_bound(s);
    let behind = s.skip(whole);
    if i < whole {
        lemma_digit_run_holds_digits(s, i);
    } else if i > whole {
        lemma_digit_run_holds_digits(behind.skip(1), i - whole - 1);
        assert(behind.skip(1)[i - whole - 1] == s[i]);
    } else {
        assert(behind[0] == s[i]);
    }
}

/// A decimal literal is made of digits, one point at most, and one sign at
/// most, which is its first character. So it holds no letter: it is no
/// exponent form, not `inf`, and not `nan`.
pub proof fn lemma_decimal_literal_characters(s: Seq<char>, i: int)
    requires
        is_decimal_literal(s),
        0 <= i < s.len(),
    ensures
        is_digit(s[i]) || s[i] == '.' || (i == 0 && (s[0] == '+' || s[0] == '-')),
{
    if s[0] == '+' || s[0] == '-' {
        if i > 0 {
            lemma_unsigned_decimal_characters(s.skip(1), i - 1);
        }
    } else {
        lemma_unsigned_decimal_characters(s, i);
    }
}

/// The decimal number at the front of a text is a decimal literal, and the
/// text is that literal and what is left behind it.
pub proof fn lemma_decimal_number_splits(s: Seq<char>)
    ensures
        decimal_number(s) matches Some((literal, rest)) ==> is_decimal_literal(literal) && s
            == literal + rest && literal.len() >= 1,
{
    lemma_float_literal_bound(s);
    match float_literal_len(s) {
        Some(n) => {
            assert(s =~= s.take(n as int) + s.skip(n as int));
        },
        None => {},
    }
}

/// A decimal literal without sign is read in full where the text behind it
/// does not go on with a digit, a point or an exponent.
pub proof fn lemma_unsigned_decimal_is_read(literal: Seq<char>, rest: Seq<char>)
    requires
        is_unsigned_decimal(literal),
        rest.len() > 0 ==> !is_digit(rest[0]) && rest[0] != '.' && !is_letter(rest[0], 'e', 'E'),
    ensures
        unsigned_float_len(literal + rest) == Some(literal.len()),
        literal.len() > 0,
        is_digit(literal[0]) || literal[0] == '.',
{
    let s = literal + rest;
    let whole = digit_run(literal) as int;
    lemma_digit_run_alone(literal);
    let behind = literal.skip(whole);
    assert(digit_run(rest) == 0);
    assert(exponent_len(rest) == Some(0nat));
    if whole == 0 {
        // The literal begins with its point.
        assert(behind =~= literal);
        let fraction = literal.skip(1);
        assert(s.skip(1) =~= fraction + rest);
        lemma_digit_run_goes_on(fraction, rest);
        assert(s.skip(1 + fraction.len() as int) =~= rest);
    } else {
        lemma_digit_run_holds_digits(literal, 0);
        assert(s =~= literal.take(whole) + (behind + rest));
        lemma_digit_run_goes_on(literal.take(whole), behind + rest);
        assert(digit_run(behind + rest) == 0) by {
            if behind.len() == 0 {
                assert(behind + rest =~= rest);
            }
        }
        assert(digit_run(s) == whole);
        assert(s.skip(whole) =~= behind + rest);
        if behind.len() == 0 {
            assert(behind + rest =~= rest);
            assert(rest.skip(0) =~= rest);
        } else {
            let fraction = behind.skip(1);
            assert((behind + rest).skip(1) =~= fraction + rest);
            lemma_digit_run_goes_on(fraction, rest);
            assert((behind + rest).skip(1 + fraction.len() as int) =~= rest);
        }
    }
}

/// A decimal literal is read in full where the text behind it does not go
/// on with a digit, a point or an exponent.
pub proof fn lemma_decimal_literal_is_read(literal: Seq<char>, rest: Seq<char>)
    requires
        is_decimal_literal(literal),
        rest.len() > 0 ==> !is_digit(rest[0]) && rest[0] != '.' && !is_letter(rest[0], 'e', 'E'),
    ensures
        decimal_number(literal + rest) == Some((literal, rest)),
{
    let s = literal + rest;
    if literal.len() > 0 && (literal[0] == '+' || literal[0] == '-') {
        lemma_unsigned_decimal_is_read(literal.skip(1), rest);
        assert(s.skip(1) =~= literal.skip(1) + rest);
    } else {
        lemma_unsigned_decimal_is_read(literal, rest);
    }
    assert(float_literal_len(s) == Some(literal.len()));
    assert(s.take(literal.len() as int) =~= literal);
    assert(s.skip(literal.len() as int) =~= rest);
}

} // verus!
