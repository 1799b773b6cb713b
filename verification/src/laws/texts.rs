//! Texts, character by character.

use crate::db::names::normalized;
use crate::text::{
    ascii_lower, decimal, digit, digits_value, is_digit, is_white, lower_case, parsed_u32,
    smaller_at, text_lt, text_lt_asymmetric, trimmed, unicode_lower, without_leading_white,
    without_trailing_white,
};
use vstd::prelude::*;

verus! {

// ── White space ────────────────────────────────────────────────────────────

/// No visible ASCII character is white space; the space and the line controls are,
/// and so are the other characters with the property `White_Space`, which are these
/// and no others.
pub proof fn what_white_space_is(c: char)
    ensures
        '!' <= c <= '~' ==> !is_white(c),
        c == ' ' || c == '\t' || c == '\n' || c == '\r' ==> is_white(c),
        is_white(c) <==> (c as u32 == 0x20 || 0x09 <= c as u32 <= 0x0D || c as u32 == 0x85 || c
            as u32 == 0xA0 || c as u32 == 0x1680 || 0x2000 <= c as u32 <= 0x200A || c as u32
            == 0x2028 || c as u32 == 0x2029 || c as u32 == 0x202F || c as u32 == 0x205F || c as u32
            == 0x3000),
{
}

/// Trimming takes off nothing but white space: a text that begins and ends with a
/// visible ASCII character is its own trimmed form.
pub proof fn visible_ends_stay(s: Seq<char>)
    requires
        s.len() > 0,
        '!' <= s[0] <= '~',
        '!' <= s[s.len() - 1] <= '~',
    ensures
        trimmed(s) == s,
{
}

/// Trimming takes off white space at both ends, as much as there is: spaces and line
/// controls around a text make no difference.
pub proof fn white_ends_go(before: Seq<char>, s: Seq<char>, after: Seq<char>)
    requires
        forall|i: int|
            0 <= i < before.len() ==> (#[trigger] before[i]) == ' ' || '\t' <= before[i] <= '\r',
        forall|i: int|
            0 <= i < after.len() ==> (#[trigger] after[i]) == ' ' || '\t' <= after[i] <= '\r',
        s.len() > 0,
        '!' <= s[0] <= '~',
        '!' <= s[s.len() - 1] <= '~',
    ensures
        trimmed(before + s + after) == s,
{
    leading_goes(before, s + after);
    assert(before + s + after =~= before + (s + after));
    assert((s + after)[0] == s[0]);
    trailing_goes(s, after);
}

proof fn leading_goes(before: Seq<char>, s: Seq<char>)
    requires
        forall|i: int|
            0 <= i < before.len() ==> (#[trigger] before[i]) == ' ' || '\t' <= before[i] <= '\r',
        s.len() > 0,
        !is_white(s[0]),
    ensures
        without_leading_white(before + s) == s,
    decreases before.len(),
{
    if before.len() > 0 {
        let rest = before.drop_first();
        assert(rest + s =~= (before + s).drop_first());
        assert((before + s)[0] == before[0]);
        assert forall|i: int| 0 <= i < rest.len() implies (#[trigger] rest[i]) == ' ' || '\t'
            <= rest[i] <= '\r' by {
            assert(rest[i] == before[i + 1]);
        }
        leading_goes(rest, s);
    } else {
        assert(before + s =~= s);
    }
}

proof fn trailing_goes(s: Seq<char>, after: Seq<char>)
    requires
        forall|i: int|
            0 <= i < after.len() ==> (#[trigger] after[i]) == ' ' || '\t' <= after[i] <= '\r',
        s.len() > 0,
        !is_white(s[s.len() - 1]),
    ensures
        without_trailing_white(s + after) == s,
    decreases after.len(),
{
    if after.len() > 0 {
        let rest = after.drop_last();
        assert(s + rest =~= (s + after).drop_last());
        assert((s + after).last() == after[after.len() - 1]);
        trailing_goes(s, rest);
    } else {
        assert(s + after =~= s);
    }
}

/// Whatever is trimmed off is white space, what is left neither begins nor ends with
/// any, and it stands in the text as it is.
pub proof fn trimmed_text_is_inside(s: Seq<char>) -> (cut: (int, int))
    ensures
        0 <= cut.0 <= cut.1 <= s.len(),
        trimmed(s) == s.subrange(cut.0, cut.1),
        forall|i: int| 0 <= i < cut.0 ==> is_white(#[trigger] s[i]),
        forall|i: int| cut.1 <= i < s.len() ==> is_white(#[trigger] s[i]),
        cut.0 < cut.1 ==> !is_white(s[cut.0]) && !is_white(s[cut.1 - 1]),
{
    let a = leading_cut(s);
    let rest = without_leading_white(s);
    assert(rest =~= s.skip(a));
    let b = trailing_cut(rest);
    assert(rest.take(b) =~= s.subrange(a, a + b));
    assert forall|i: int| a + b <= i < s.len() implies is_white(#[trigger] s[i]) by {
        assert(rest[i - a] == s[i]);
    }
    if b > 0 {
        assert(rest[0] == s[a]);
        assert(rest[b - 1] == s[a + b - 1]);
    }
    (a, a + b)
}

proof fn leading_cut(s: Seq<char>) -> (a: int)
    ensures
        0 <= a <= s.len(),
        without_leading_white(s) == s.skip(a),
        forall|i: int| 0 <= i < a ==> is_white(#[trigger] s[i]),
        a < s.len() ==> !is_white(s[a]),
    decreases s.len(),
{
    if s.len() > 0 && is_white(s.first()) {
        let rest = s.drop_first();
        let a = leading_cut(rest);
        assert(rest.skip(a) =~= s.skip(a + 1));
        assert forall|i: int| 0 <= i < a + 1 implies is_white(#[trigger] s[i]) by {
            if i > 0 {
                assert(rest[i - 1] == s[i]);
            }
        }
        if a < rest.len() {
            assert(rest[a] == s[a + 1]);
        }
        a + 1
    } else {
        assert(s.skip(0) =~= s);
        0
    }
}

proof fn trailing_cut(s: Seq<char>) -> (b: int)
    ensures
        0 <= b <= s.len(),
        without_trailing_white(s) == s.take(b),
        forall|i: int| b <= i < s.len() ==> is_white(#[trigger] s[i]),
        b > 0 ==> !is_white(s[b - 1]),
    decreases s.len(),
{
    if s.len() > 0 && is_white(s.last()) {
        let rest = s.drop_last();
        let b = trailing_cut(rest);
        assert(rest.take(b) =~= s.take(b));
        assert forall|i: int| b <= i < s.len() implies is_white(#[trigger] s[i]) by {
            if i < rest.len() {
                assert(rest[i] == s[i]);
            }
        }
        b
    } else {
        assert(s.take(s.len() as int) =~= s);
        s.len() as int
    }
}

// ── Case ───────────────────────────────────────────────────────────────────

/// In lower case an ASCII text has the same length; each of its letters `A` to `Z` is
/// the letter 32 places on, and every other character stays.
pub proof fn ascii_letters_are_lowered(s: Seq<char>, i: int)
    requires
        forall|j: int| 0 <= j < s.len() ==> (#[trigger] s[j]) <= '\u{7f}',
        0 <= i < s.len(),
    ensures
        lower_case(s).len() == s.len(),
        'A' <= s[i] <= 'Z' ==> lower_case(s)[i] as u32 == s[i] as u32 + 32,
        !('A' <= s[i] <= 'Z') ==> lower_case(s)[i] == s[i],
{
}

/// Other texts are lowered by the mapping of Unicode.
pub proof fn other_texts_are_lowered(s: Seq<char>, i: int)
    requires
        0 <= i < s.len(),
        s[i] > '\u{7f}',
    ensures
        lower_case(s) == unicode_lower(s),
{
}

/// Header names and names of players are lowered alike: see what becomes of each
/// character.
pub proof fn lowered_characters(s: Seq<char>, i: int)
    requires
        0 <= i < s.len(),
    ensures
        ascii_lower(s).len() == s.len(),
        'A' <= s[i] <= 'Z' ==> ascii_lower(s)[i] as u32 == s[i] as u32 + 32,
        !('A' <= s[i] <= 'Z') ==> ascii_lower(s)[i] == s[i],
{
}

/// Whether two characters are the same but for the case of an ASCII letter.
pub open spec fn same_letter(a: char, b: char) -> bool {
    ||| a == b
    ||| 'A' <= a <= 'Z' && b as u32 == a as u32 + 32
    ||| 'A' <= b <= 'Z' && a as u32 == b as u32 + 32
}

proof fn same_when_lowered(a: char, b: char)
    ensures
        ascii_lower(seq![a])[0] == ascii_lower(seq![b])[0] <==> same_letter(a, b),
{
}

/// Two ASCII names that begin and end with visible characters are normalized alike
/// exactly if they are equally long and differ at most in the case of letters.
pub proof fn different_names_stay_different(a: Seq<char>, b: Seq<char>)
    requires
        a.len() > 0,
        b.len() > 0,
        forall|i: int| 0 <= i < a.len() ==> (#[trigger] a[i]) <= '\u{7f}',
        forall|i: int| 0 <= i < b.len() ==> (#[trigger] b[i]) <= '\u{7f}',
        '!' <= a[0] <= '~',
        '!' <= a[a.len() - 1] <= '~',
        '!' <= b[0] <= '~',
        '!' <= b[b.len() - 1] <= '~',
    ensures
        normalized(a) == normalized(b) <==> a.len() == b.len() && forall|i: int|
            0 <= i < a.len() ==> same_letter(#[trigger] a[i], b[i]),
{
    visible_ends_stay(a);
    visible_ends_stay(b);
    assert(normalized(a) == ascii_lower(a));
    assert(normalized(b) == ascii_lower(b));
    assert(ascii_lower(a).len() == a.len() && ascii_lower(b).len() == b.len());
    if normalized(a) == normalized(b) {
        assert forall|i: int| 0 <= i < a.len() implies same_letter(#[trigger] a[i], b[i]) by {
            assert(ascii_lower(a)[i] == ascii_lower(b)[i]);
            assert(ascii_lower(a)[i] == ascii_lower(seq![a[i]])[0]);
            assert(ascii_lower(b)[i] == ascii_lower(seq![b[i]])[0]);
            same_when_lowered(a[i], b[i]);
        }
    }
    if a.len() == b.len() && forall|i: int|
        0 <= i < a.len() ==> same_letter(#[trigger] a[i], b[i]) {
        assert forall|i: int| 0 <= i < a.len() implies normalized(a)[i] == normalized(b)[i] by {
            assert(ascii_lower(a)[i] == ascii_lower(seq![a[i]])[0]);
            assert(ascii_lower(b)[i] == ascii_lower(seq![b[i]])[0]);
            same_when_lowered(a[i], b[i]);
        }
        assert(normalized(a) =~= normalized(b));
    }
}

/// The normalized form of any name is its trimmed form in lower case.
pub proof fn names_are_trimmed_and_lowered(name: Seq<char>)
    ensures
        normalized(name) == lower_case(trimmed(name)),
{
}

/// The normalized form of an ASCII name with spaces or line controls around it is the
/// name in lower case, without them.
pub proof fn normalized_name(before: Seq<char>, name: Seq<char>, after: Seq<char>, i: int)
    requires
        forall|j: int|
            0 <= j < before.len() ==> (#[trigger] before[j]) == ' ' || '\t' <= before[j] <= '\r',
        forall|j: int|
            0 <= j < after.len() ==> (#[trigger] after[j]) == ' ' || '\t' <= after[j] <= '\r',
        name.len() > 0,
        '!' <= name[0] <= '~',
        '!' <= name[name.len() - 1] <= '~',
        forall|j: int| 0 <= j < name.len() ==> (#[trigger] name[j]) <= '\u{7f}',
        0 <= i < name.len(),
    ensures
        normalized(before + name + after).len() == name.len(),
        'A' <= name[i] <= 'Z' ==> normalized(before + name + after)[i] as u32 == name[i] as u32 + 32,
        !('A' <= name[i] <= 'Z') ==> normalized(before + name + after)[i] == name[i],
{
    white_ends_go(before, name, after);
}

// ── Order ──────────────────────────────────────────────────────────────────

/// The first difference decides: of two texts with a common beginning the one with the
/// smaller next character is the smaller, and one that ends there is smaller than any
/// that goes on. The other way round neither is.
pub proof fn first_difference_decides(
    common: Seq<char>,
    c: char,
    d: char,
    x: Seq<char>,
    y: Seq<char>,
)
    requires
        c < d,
    ensures
        text_lt(common.push(c) + x, common.push(d) + y),
        !text_lt(common.push(d) + y, common.push(c) + x),
        text_lt(common, common.push(c) + x),
        !text_lt(common.push(c) + x, common),
        !text_lt(common, common),
{
    let a = common.push(c) + x;
    let b = common.push(d) + y;
    let n = common.len() as int;
    assert(smaller_at(a, b, n));
    text_lt_asymmetric(a, b);
    assert(smaller_at(common, a, n));
    text_lt_asymmetric(common, a);
    if text_lt(common, common) {
        text_lt_asymmetric(common, common);
    }
}

// ── Decimal numbers ────────────────────────────────────────────────────────

/// The digits are the ten characters from `0` on.
pub proof fn digits_are_ten(c: char)
    ensures
        is_digit(c) <==> 48 <= c as u32 <= 57,
{
}

/// A row of digits stands for ten times what it does without its last digit, and that
/// digit.
pub proof fn digits_weigh(s: Seq<char>, c: char)
    requires
        '0' <= c <= '9',
    ensures
        digits_value(Seq::empty()) == 0,
        digits_value(s.push(c)) == 10 * digits_value(s) + (c as u32 - 48),
{
    assert(s.push(c).drop_last() =~= s);
}

/// The character of a digit stands for it.
pub proof fn digit_weighs(n: nat)
    requires
        n < 10,
    ensures
        is_digit(digit(n)),
        digit(n) as u32 - 48 == n,
{
}

/// A number written in decimal is made of digits, begins with no zero unless it is
/// zero, and stands for the number.
pub proof fn decimal_stands_for_the_number(n: nat)
    ensures
        decimal(n).len() > 0,
        forall|i: int| 0 <= i < decimal(n).len() ==> is_digit(#[trigger] decimal(n)[i]),
        decimal(n)[0] == '0' ==> n == 0 && decimal(n).len() == 1,
        digits_value(decimal(n)) == n,
    decreases n,
{
    if n >= 10 {
        decimal_stands_for_the_number(n / 10);
        let d = decimal(n / 10);
        assert(decimal(n).drop_last() =~= d);
        assert(decimal(n)[0] == d[0]);
        digit_weighs(n % 10);
        assert(decimal(n).last() == digit(n % 10));
    } else {
        assert(decimal(n).drop_last() =~= Seq::<char>::empty());
        digit_weighs(n);
        assert(digits_value(Seq::<char>::empty()) == 0);
        assert(decimal(n).last() == digit(n));
    }
}

/// A number of 32 bits that is written in decimal is read back, with or without a plus
/// sign; a larger one is not read.
pub proof fn decimal_is_read_back(n: nat)
    ensures
        n <= u32::MAX ==> parsed_u32(decimal(n)) == Some(n as u32),
        n <= u32::MAX ==> parsed_u32(seq!['+'] + decimal(n)) == Some(n as u32),
        n > u32::MAX ==> parsed_u32(decimal(n)) is None,
{
    decimal_stands_for_the_number(n);
    assert(is_digit(decimal(n)[0]));
    assert((seq!['+'] + decimal(n)).drop_first() =~= decimal(n));
}

/// Digits that stand for a number of 32 bits are read, leading zeros and all.
pub proof fn digits_are_read(s: Seq<char>)
    requires
        s.len() > 0,
        forall|i: int| 0 <= i < s.len() ==> '0' <= (#[trigger] s[i]) <= '9',
    ensures
        digits_value(s) <= u32::MAX ==> parsed_u32(s) == Some(digits_value(s) as u32),
        digits_value(s) > u32::MAX ==> parsed_u32(s) is None,
{
    assert(forall|i: int| 0 <= i < s.len() ==> is_digit(#[trigger] s[i]));
}

/// What is read is digits, at least one of them, after at most one plus sign; it is
/// what they stand for. Anything else is not read.
pub proof fn only_digits_are_read(s: Seq<char>)
    ensures
        s.len() == 0 ==> parsed_u32(s) is None,
        s.len() == 1 && s[0] == '+' ==> parsed_u32(s) is None,
        forall|i: int|
            0 <= i < s.len() && !(48 <= (#[trigger] s[i]) as u32 <= 57) && !(i == 0 && s[i] == '+')
                ==> parsed_u32(s) is None,
        s.len() > 0 && s[0] != '+' && parsed_u32(s) is Some ==> parsed_u32(s)->0 == digits_value(s),
        s.len() > 0 && s[0] == '+' && parsed_u32(s) is Some ==> parsed_u32(s)->0 == digits_value(
            s.skip(1),
        ),
{
    assert forall|i: int|
        0 <= i < s.len() && !(48 <= (#[trigger] s[i]) as u32 <= 57) && !(i == 0 && s[i] == '+')
        implies parsed_u32(s) is None by {
        if s[0] == '+' {
            let rest = s.drop_first();
            assert(rest[i - 1] == s[i]);
            assert(!is_digit(rest[i - 1]));
        } else {
            assert(!is_digit(s[i]));
        }
    }
    if s.len() > 0 {
        assert(s.drop_first() =~= s.skip(1));
    }
}

} // verus!
