//! Building, printing and trimming text.

use vstd::prelude::*;
use vstd::utf8::{decode_utf8, valid_utf8};

verus! {

/// `String::push` puts one character behind the text.
pub assume_specification[ String::push ](text: &mut String, c: char)
    ensures
        final(text)@ == old(text)@.push(c),
;

// ---------------------------------------------------------------------------
// Characters and slices of text
// ---------------------------------------------------------------------------

/// The characters of a text, one by one.
pub fn chars_of(text: &str) -> (chars: Vec<char>)
    ensures
        chars@ == text@,
{
    let mut chars: Vec<char> = Vec::new();
    for c in it: text.chars()
        invariant
            chars@ == text@.take(it.index() as int),
            it.seq() == text@,
    {
        chars.push(c);
    }
    assert(text@.take(text@.len() as int) =~= text@);
    chars
}

/// The text made of the characters `from..to`.
pub fn string_of(chars: &[char], from: usize, to: usize) -> (text: String)
    requires
        from <= to <= chars@.len(),
    ensures
        text@ == chars@.subrange(from as int, to as int),
{
    let mut text = String::new();
    let mut i: usize = from;
    while i < to
        invariant
            from <= i <= to <= chars@.len(),
            text@ == chars@.subrange(from as int, i as int),
        decreases to - i,
    {
        text.push(chars[i]);
        i += 1;
    }
    text
}

/// Tells whether two texts are the same.
pub fn same_text(a: &str, b: &str) -> (same: bool)
    ensures
        same == (a@ == b@),
{
    let left = chars_of(a);
    let right = chars_of(b);
    if left.len() != right.len() {
        return false;
    }
    let mut i: usize = 0;
    while i < left.len()
        invariant
            i <= left@.len(),
            left@ == a@,
            right@ == b@,
            left@.len() == right@.len(),
            forall|j: int| 0 <= j < i ==> left@[j] == right@[j],
        decreases left@.len() - i,
    {
        if left[i] != right[i] {
            assert(left@ != right@);
            return false;
        }
        i += 1;
    }
    assert(left@ =~= right@);
    true
}

/// Does a text hold another one?
pub open spec fn holds_text(text: Seq<char>, part: Seq<char>) -> bool {
    exists|at: int|
        0 <= at <= text.len() - part.len() && #[trigger] text.subrange(at, at + part.len()) == part
}

/// Tells whether a text holds another one.
pub fn contains_text(text: &str, part: &str) -> (found: bool)
    ensures
        found == holds_text(text@, part@),
{
    let chars = chars_of(text);
    let wanted = chars_of(part);
    let n: usize = wanted.len();
    let count: usize = chars.len();
    if n > count {
        return false;
    }
    let last: usize = count - n;
    let mut at: usize = 0;
    loop
        invariant
            chars@ == text@,
            wanted@ == part@,
            n == wanted@.len(),
            count == chars@.len(),
            last == count - n,
            at <= last,
            forall|k: int| 0 <= k < at ==> #[trigger] text@.subrange(k, k + n) != part@,
        decreases last - at,
    {
        if same_text(string_of(chars.as_slice(), at, at + n).as_str(), part) {
            assert(text@.subrange(at as int, at + n) == part@);
            return true;
        }
        if at == last {
            return false;
        }
        at += 1;
    }
}

/// What each of several texts says.
pub open spec fn texts_view(texts: Seq<String>) -> Seq<Seq<char>> {
    texts.map_values(|t: String| t@)
}

/// Tells whether a text is one of several.
pub fn is_one_of(texts: &Vec<String>, wanted: &str) -> (found: bool)
    ensures
        found == texts_view(texts@).contains(wanted@),
{
    let ghost view = texts_view(texts@);
    let mut i: usize = 0;
    while i < texts.len()
        invariant
            i <= texts@.len(),
            view == texts_view(texts@),
            forall|j: int| 0 <= j < i ==> #[trigger] view[j] != wanted@,
        decreases texts@.len() - i,
    {
        if same_text(texts[i].as_str(), wanted) {
            assert(view[i as int] == wanted@);
            return true;
        }
        i += 1;
    }
    false
}

/// The text that some bytes are read as, where what is not UTF-8 is replaced.
pub uninterp spec fn utf8_lossy(bytes: Seq<u8>) -> Seq<char>;

/// Reads bytes as text, whatever they are.
///
/// It calls `String::from_utf8_lossy`, whose result depends on the bytes alone and
/// is what they encode where they are UTF-8. What stands for other bytes is not
/// said here.
#[verifier::external_body]
pub(crate) fn lossy_text(bytes: &[u8]) -> (text: String)
    ensures
        text@ == utf8_lossy(bytes@),
        valid_utf8(bytes@) ==> text@ == decode_utf8(bytes@),
{
    String::from_utf8_lossy(bytes).into_owned()
}

// ---------------------------------------------------------------------------
// Numbers
// ---------------------------------------------------------------------------

/// The character of a decimal digit.
pub open spec fn digit(d: nat) -> char {
    (('0' as int) + d) as char
}

/// A natural number in decimal, without leading zeros.
pub open spec fn decimal(n: nat) -> Seq<char>
    decreases n,
{
    if n < 10 {
        seq![digit(n)]
    } else {
        decimal(n / 10).push(digit(n % 10))
    }
}

/// An integer in decimal, with a sign only where it is negative.
pub open spec fn signed_decimal(n: int) -> Seq<char> {
    if n < 0 {
        seq!['-'] + decimal((-n) as nat)
    } else {
        decimal(n as nat)
    }
}

/// Prints a natural number in decimal.
pub fn decimal_text(n: u128) -> (text: String)
    ensures
        text@ == decimal(n as nat),
    decreases n,
{
    let mut text = if n < 10 {
        String::new()
    } else {
        decimal_text(n / 10)
    };
    let d: u8 = (n % 10) as u8;
    text.push((0x30u8 + d) as char);
    assert(text@ =~= decimal(n as nat));
    text
}

/// Prints an integer in decimal.
pub fn signed_decimal_text(n: i64) -> (text: String)
    ensures
        text@ == signed_decimal(n as int),
{
    if n < 0 {
        let mut text = String::new();
        text.push('-');
        let digits = decimal_text((-(n as i128)) as u128);
        text.append(digits.as_str());
        assert(text@ =~= signed_decimal(n as int));
        text
    } else {
        decimal_text(n as u128)
    }
}

/// A text is made of decimal digits.
pub open spec fn all_digits(text: Seq<char>) -> bool {
    forall|i: int| 0 <= i < text.len() ==> '0' <= #[trigger] text[i] <= '9'
}

/// The number that decimal digits stand for.
pub open spec fn digits_value(digits: Seq<char>) -> nat
    decreases digits.len(),
{
    if digits.len() == 0 {
        0
    } else {
        digits_value(digits.drop_last()) * 10 + (digits.last() as int - '0' as int) as nat
    }
}

/// The digits of a number that may have a plus sign.
pub open spec fn without_plus(text: Seq<char>) -> Seq<char> {
    if text.len() > 0 && text[0] == '+' {
        text.skip(1)
    } else {
        text
    }
}

/// The number of 32 bits that a text stands for.
pub open spec fn parsed_u32(text: Seq<char>) -> Option<u32> {
    let digits = without_plus(text);
    if digits.len() > 0 && all_digits(digits) && digits_value(digits) <= u32::MAX {
        Some(digits_value(digits) as u32)
    } else {
        None
    }
}

proof fn lemma_digits_grow(digits: Seq<char>, n: int)
    requires
        all_digits(digits),
        0 <= n <= digits.len(),
    ensures
        digits_value(digits.take(n)) <= digits_value(digits),
    decreases digits.len(),
{
    if n == digits.len() {
        assert(digits.take(n) =~= digits);
    } else {
        let front = digits.drop_last();
        assert(all_digits(front)) by {
            assert forall|i: int| 0 <= i < front.len() implies '0' <= #[trigger] front[i] <= '9' by {
                assert(front[i] == digits[i]);
            }
        }
        lemma_digits_grow(front, n);
        assert(front.take(n) =~= digits.take(n));
    }
}

/// Reads a number of 32 bits in decimal, which may have a plus sign.
pub fn parse_u32(text: &str) -> (number: Option<u32>)
    ensures
        number == parsed_u32(text@),
{
    let chars = chars_of(text);
    let n: usize = chars.len();
    let from: usize = if n > 0 && chars[0] == '+' {
        1
    } else {
        0
    };
    let ghost digits = without_plus(text@);
    assert(digits =~= chars@.subrange(from as int, n as int));
    if from == n {
        return None;
    }
    let mut value: u64 = 0;
    let mut i: usize = from;
    assert(digits.take(0) =~= Seq::empty());
    while i < n
        invariant
            from <= i <= n,
            n == chars@.len(),
            chars@ == text@,
            digits == without_plus(text@),
            digits == chars@.subrange(from as int, n as int),
            forall|j: int| 0 <= j < i - from ==> '0' <= #[trigger] digits[j] <= '9',
            value == digits_value(digits.take(i - from)),
            value <= u32::MAX,
        decreases n - i,
    {
        let c = chars[i];
        assert(digits[i - from] == c);
        if c < '0' || c > '9' {
            return None;
        }
        let d: u64 = (c as u32 - '0' as u32) as u64;
        value = value * 10 + d;
        assert(digits.take(i + 1 - from).drop_last() =~= digits.take(i - from));
        i += 1;
        if value > 0xffff_ffff {
            proof {
                if all_digits(digits) {
                    lemma_digits_grow(digits, i - from);
                }
            }
            return None;
        }
    }
    assert(digits.take(n - from) =~= digits);
    Some(value as u32)
}

/// `n` zeros.
pub open spec fn zeros(n: int) -> Seq<char> {
    Seq::new(
        if n < 0 {
            0
        } else {
            n as nat
        },
        |i: int| '0',
    )
}

/// An integer in decimal, with zeros behind its sign up to a width.
pub open spec fn zero_padded(n: int, width: int) -> Seq<char> {
    if n < 0 {
        let digits = decimal((-n) as nat);
        seq!['-'] + zeros(width - 1 - digits.len()) + digits
    } else {
        let digits = decimal(n as nat);
        zeros(width - digits.len()) + digits
    }
}

/// Prints an integer with zeros up to a width.
pub fn zero_padded_text(n: i64, width: usize) -> (text: String)
    ensures
        text@ == zero_padded(n as int, width as int),
{
    let mut text = String::new();
    let digits = if n < 0 {
        text.push('-');
        decimal_text((-(n as i128)) as u128)
    } else {
        decimal_text(n as u128)
    };
    let ghost sign = text@;
    let mut used: usize = digits.as_str().unicode_len();
    if n < 0 && used < width {
        used += 1;
    }
    let ghost first = used as int;
    while used < width
        invariant
            first <= used,
            used <= width || used == first,
            text@ == sign + zeros(used - first),
        decreases width - used,
    {
        text.push('0');
        used += 1;
        assert(text@ =~= sign + zeros(used - first));
    }
    text.append(digits.as_str());
    assert(text@ =~= zero_padded(n as int, width as int));
    text
}

// ---------------------------------------------------------------------------
// White space
// ---------------------------------------------------------------------------

/// The characters that Unicode gives the property `White_Space`.
pub open spec fn is_white_space(c: char) -> bool {
    let u = c as int;
    ||| 0x09 <= u <= 0x0d
    ||| u == 0x20
    ||| u == 0x85
    ||| u == 0xa0
    ||| u == 0x1680
    ||| 0x2000 <= u <= 0x200a
    ||| u == 0x2028
    ||| u == 0x2029
    ||| u == 0x202f
    ||| u == 0x205f
    ||| u == 0x3000
}

/// `char::is_whitespace` tells whether a character has the property `White_Space`.
pub assume_specification[ char::is_whitespace ](c: char) -> (white: bool)
    ensures
        white == is_white_space(c),
;

/// The text without the white space that it starts with.
pub open spec fn trim_start(text: Seq<char>) -> Seq<char>
    decreases text.len(),
{
    if text.len() > 0 && is_white_space(text[0]) {
        trim_start(text.drop_first())
    } else {
        text
    }
}

/// The text without the white space that it ends with.
pub open spec fn trim_end(text: Seq<char>) -> Seq<char>
    decreases text.len(),
{
    if text.len() > 0 && is_white_space(text.last()) {
        trim_end(text.drop_last())
    } else {
        text
    }
}

/// The text without the white space at its two ends.
pub open spec fn trimmed(text: Seq<char>) -> Seq<char> {
    trim_end(trim_start(text))
}

/// What is left starts with no white space, and holds nothing else than the text.
pub proof fn lemma_trim_start(text: Seq<char>)
    ensures
        trim_start(text).len() > 0 ==> !is_white_space(trim_start(text)[0]),
        forall|c: char| #[trigger] trim_start(text).contains(c) ==> text.contains(c),
    decreases text.len(),
{
    if text.len() > 0 && is_white_space(text[0]) {
        lemma_trim_start(text.drop_first());
        assert forall|c: char| #[trigger] trim_start(text).contains(c) implies text.contains(c) by {
            assert(text.drop_first().contains(c));
            let i = choose|i: int| 0 <= i < text.drop_first().len() && text.drop_first()[i] == c;
            assert(text[i + 1] == c);
        }
    }
}

/// What is left ends with no white space, and starts as the text does.
pub proof fn lemma_trim_end(text: Seq<char>)
    ensures
        trim_end(text).len() > 0 ==> !is_white_space(trim_end(text).last()) && trim_end(text)[0]
            == text[0],
        forall|c: char| #[trigger] trim_end(text).contains(c) ==> text.contains(c),
    decreases text.len(),
{
    if text.len() > 0 && is_white_space(text.last()) {
        lemma_trim_end(text.drop_last());
        assert forall|c: char| #[trigger] trim_end(text).contains(c) implies text.contains(c) by {
            assert(text.drop_last().contains(c));
            let i = choose|i: int| 0 <= i < text.drop_last().len() && text.drop_last()[i] == c;
            assert(text[i] == c);
        }
    }
}

/// Nothing more comes off a text whose ends are clean.
pub proof fn law_trimmed_twice(text: Seq<char>)
    ensures
        trimmed(trimmed(text)) == trimmed(text),
{
    lemma_trim_start(text);
    lemma_trim_end(trim_start(text));
}

/// Takes the white space off the two ends of a run of characters.
pub fn trim_chars(chars: &[char]) -> (text: String)
    ensures
        text@ == trimmed(chars@),
{
    let n: usize = chars.len();
    let mut from: usize = 0;
    assert(chars@.subrange(0, n as int) =~= chars@);
    while from < n && chars[from].is_whitespace()
        invariant
            from <= n,
            n == chars@.len(),
            trim_start(chars@) == trim_start(chars@.subrange(from as int, n as int)),
        decreases n - from,
    {
        assert(chars@.subrange(from as int, n as int).drop_first() =~= chars@.subrange(
            from + 1,
            n as int,
        ));
        from += 1;
    }
    let ghost core = chars@.subrange(from as int, n as int);
    assert(trim_start(chars@) == core);
    let mut to: usize = n;
    while to > from && chars[to - 1].is_whitespace()
        invariant
            from <= to <= n,
            n == chars@.len(),
            trim_end(core) == trim_end(chars@.subrange(from as int, to as int)),
        decreases to - from,
    {
        assert(chars@.subrange(from as int, to as int).drop_last() =~= chars@.subrange(
            from as int,
            to - 1,
        ));
        to -= 1;
    }
    string_of(chars, from, to)
}

/// Takes the white space off the two ends of a text.
pub fn trim(text: &str) -> (core: String)
    ensures
        core@ == trimmed(text@),
{
    let chars = chars_of(text);
    trim_chars(chars.as_slice())
}

// ---------------------------------------------------------------------------
// What holds of texts
// ---------------------------------------------------------------------------

/// A number that is printed in decimal is read back as it was. Its text has digits
/// only, and no zero before them.
pub proof fn law_decimal_is_read_back(n: nat)
    ensures
        all_digits(decimal(n)),
        digits_value(decimal(n)) == n,
        decimal(n).len() > 0,
        n > 0 ==> decimal(n)[0] != '0',
    decreases n,
{
    reveal_with_fuel(digits_value, 2);
    if n >= 10 {
        let front = decimal(n / 10);
        law_decimal_is_read_back(n / 10);
        assert(decimal(n).drop_last() =~= front);
        assert forall|i: int| 0 <= i < decimal(n).len() implies '0' <= #[trigger] decimal(n)[i]
            <= '9' by {
            if i < front.len() {
                assert(decimal(n)[i] == front[i]);
            }
        }
    } else {
        assert(decimal(n).drop_last() =~= Seq::empty());
    }
}

/// Different numbers have different texts.
pub proof fn law_decimals_differ(a: nat, b: nat)
    ensures
        decimal(a) == decimal(b) ==> a == b,
{
    law_decimal_is_read_back(a);
    law_decimal_is_read_back(b);
}

/// A signed number is read back as it was: a minus sign stands before the digits
/// of a negative one, and nothing before those of another.
pub proof fn law_signed_decimal_is_read_back(n: int)
    ensures
        n >= 0 ==> all_digits(signed_decimal(n)) && digits_value(signed_decimal(n)) == n,
        n < 0 ==> signed_decimal(n)[0] == '-' && all_digits(signed_decimal(n).skip(1))
            && digits_value(signed_decimal(n).skip(1)) == -n,
{
    if n < 0 {
        law_decimal_is_read_back((-n) as nat);
        assert(signed_decimal(n).skip(1) =~= decimal((-n) as nat));
    } else {
        law_decimal_is_read_back(n as nat);
    }
}

/// Zeros before digits do not count.
pub proof fn law_zeros_do_not_count(n: int, digits: Seq<char>)
    requires
        0 <= n,
    ensures
        digits_value(zeros(n) + digits) == digits_value(digits),
    decreases digits.len() + n,
{
    let whole = zeros(n) + digits;
    if digits.len() > 0 {
        law_zeros_do_not_count(n, digits.drop_last());
        assert(whole.drop_last() =~= zeros(n) + digits.drop_last());
    } else if n > 0 {
        law_zeros_do_not_count(n - 1, digits);
        assert(whole.drop_last() =~= zeros(n - 1) + digits);
    } else {
        assert(whole =~= digits);
    }
}

/// A number with zeros up to a width is read back as it was, and is at least as
/// wide; it is wider only where its digits are.
pub proof fn law_zero_padded_is_read_back(n: int, width: int)
    ensures
        n >= 0 ==> {
            &&& all_digits(zero_padded(n, width))
            &&& digits_value(zero_padded(n, width)) == n
            &&& zero_padded(n, width).len() == if decimal(n as nat).len() >= width {
                decimal(n as nat).len() as int
            } else {
                width
            }
        },
        n < 0 ==> {
            &&& zero_padded(n, width)[0] == '-'
            &&& all_digits(zero_padded(n, width).skip(1))
            &&& digits_value(zero_padded(n, width).skip(1)) == -n
            &&& zero_padded(n, width).len() == if decimal((-n) as nat).len() + 1 >= width {
                decimal((-n) as nat).len() as int + 1
            } else {
                width
            }
        },
{
    let size = if n < 0 {
        (-n) as nat
    } else {
        n as nat
    };
    let digits = decimal(size);
    law_decimal_is_read_back(size);
    let room = if n < 0 {
        width - 1 - digits.len()
    } else {
        width - digits.len()
    };
    let count: int = if room < 0 {
        0
    } else {
        room
    };
    assert(zeros(room) =~= zeros(count));
    law_zeros_do_not_count(count, digits);
    let padded = zeros(count) + digits;
    assert forall|i: int| 0 <= i < padded.len() implies '0' <= #[trigger] padded[i] <= '9' by {
        if i >= count {
            assert(padded[i] == digits[i - count]);
        }
    }
    if n < 0 {
        assert(zero_padded(n, width).skip(1) =~= padded);
    }
}

/// Every number of 32 bits is read from its decimal digits, with a plus sign or
/// without, and with zeros before them. A larger one is not read.
pub proof fn law_parsed_u32(n: nat, places: int)
    requires
        0 <= places,
    ensures
        ({
            let text = zeros(places) + decimal(n);
            let number = if n <= u32::MAX {
                Some(n as u32)
            } else {
                None
            };
            parsed_u32(text) == number && parsed_u32(seq!['+'] + text) == number
        }),
{
    let text = zeros(places) + decimal(n);
    law_decimal_is_read_back(n);
    law_zeros_do_not_count(places, decimal(n));
    assert forall|i: int| 0 <= i < text.len() implies '0' <= #[trigger] text[i] <= '9' by {
        if i >= places {
            assert(text[i] == decimal(n)[i - places]);
        }
    }
    assert('0' <= text[0] <= '9');
    assert((seq!['+'] + text).skip(1) =~= text);
}

/// What is read as a number is digits behind at most one plus sign.
pub proof fn law_only_digits_are_read(text: Seq<char>, i: int)
    requires
        0 <= i < text.len(),
        parsed_u32(text) is Some,
    ensures
        '0' <= text[i] <= '9' || i == 0 && text[i] == '+' && text.len() > 1,
{
    if text[0] == '+' {
        if i > 0 {
            assert(text.skip(1)[i - 1] == text[i]);
        }
    }
}

/// Only white space comes off a text, and only at its ends: what is left is the
/// text between two places, with nothing but white space before the first and
/// behind the second, and neither starts nor ends with white space.
pub proof fn law_trimmed(text: Seq<char>) -> (ends: (int, int))
    ensures
        0 <= ends.0 <= ends.1 <= text.len(),
        trimmed(text) == text.subrange(ends.0, ends.1),
        forall|i: int| 0 <= i < ends.0 ==> is_white_space(#[trigger] text[i]),
        forall|i: int| ends.1 <= i < text.len() ==> is_white_space(#[trigger] text[i]),
        trimmed(text).len() > 0 ==> !is_white_space(trimmed(text).first()) && !is_white_space(
            trimmed(text).last(),
        ),
{
    let from = lemma_trim_start_place(text);
    let core = trim_start(text);
    let to = lemma_trim_end_place(core);
    lemma_trim_start(text);
    lemma_trim_end(core);
    assert(core.take(to) =~= text.subrange(from, from + to));
    assert forall|i: int| from + to <= i < text.len() implies is_white_space(#[trigger] text[i]) by {
        assert(core[i - from] == text[i]);
    }
    (from, from + to)
}

proof fn lemma_trim_start_place(text: Seq<char>) -> (from: int)
    ensures
        0 <= from <= text.len(),
        trim_start(text) == text.skip(from),
        forall|i: int| 0 <= i < from ==> is_white_space(#[trigger] text[i]),
    decreases text.len(),
{
    if text.len() > 0 && is_white_space(text[0]) {
        let rest = text.drop_first();
        let from = lemma_trim_start_place(rest);
        assert(rest.skip(from) =~= text.skip(from + 1));
        assert forall|i: int| 0 <= i < from + 1 implies is_white_space(#[trigger] text[i]) by {
            if i > 0 {
                assert(rest[i - 1] == text[i]);
            }
        }
        from + 1
    } else {
        assert(text.skip(0) =~= text);
        0
    }
}

proof fn lemma_trim_end_place(text: Seq<char>) -> (to: int)
    ensures
        0 <= to <= text.len(),
        trim_end(text) == text.take(to),
        forall|i: int| to <= i < text.len() ==> is_white_space(#[trigger] text[i]),
    decreases text.len(),
{
    if text.len() > 0 && is_white_space(text.last()) {
        let front = text.drop_last();
        let to = lemma_trim_end_place(front);
        assert(front.take(to) =~= text.take(to));
        assert forall|i: int| to <= i < text.len() implies is_white_space(#[trigger] text[i]) by {
            if i < front.len() {
                assert(front[i] == text[i]);
            }
        }
        to
    } else {
        assert(text.take(text.len() as int) =~= text);
        text.len() as int
    }
}

/// A text is held by every text that has something before it and behind it, and by
/// no other.
pub proof fn law_holds_text(before: Seq<char>, part: Seq<char>, behind: Seq<char>)
    ensures
        holds_text(before + part + behind, part),
        forall|text: Seq<char>| #[trigger]
            holds_text(text, part) ==> exists|a: Seq<char>, b: Seq<char>| text == #[trigger]
                (a + part + b),
{
    let whole = before + part + behind;
    let at = before.len() as int;
    assert(whole.subrange(at, at + part.len()) =~= part);
    assert forall|text: Seq<char>| #[trigger] holds_text(text, part) implies exists|
        a: Seq<char>,
        b: Seq<char>,
    | text == #[trigger] (a + part + b) by {
        let at = choose|at: int|
            0 <= at <= text.len() - part.len() && #[trigger] text.subrange(at, at + part.len())
                == part;
        let a = text.take(at);
        let b = text.skip(at + part.len());
        assert(text =~= a + text.subrange(at, at + part.len()) + b);
        assert(text == a + part + b);
    }
}

/// Several texts say what each of them says, in their order.
pub proof fn law_texts_view(texts: Seq<String>, i: int)
    requires
        0 <= i < texts.len(),
    ensures
        texts_view(texts).len() == texts.len(),
        texts_view(texts)[i] == texts[i]@,
{
}

/// Two texts that have a minus sign behind digits and are the same have the same
/// digits before it, and the same text behind it.
proof fn lemma_split_at_minus(a: Seq<char>, b: Seq<char>, x: Seq<char>, y: Seq<char>)
    requires
        all_digits(a),
        all_digits(b),
        a + seq!['-'] + x == b + seq!['-'] + y,
    ensures
        a == b,
        x == y,
{
    let whole = a + seq!['-'] + x;
    let other = b + seq!['-'] + y;
    assert(whole[a.len() as int] == '-');
    assert(other[b.len() as int] == '-');
    if a.len() < b.len() {
        assert(other[a.len() as int] == b[a.len() as int]);
    }
    if b.len() < a.len() {
        assert(whole[b.len() as int] == a[b.len() as int]);
    }
    assert(a =~= b) by {
        assert forall|i: int| 0 <= i < a.len() implies a[i] == b[i] by {
            assert(whole[i] == other[i]);
        }
    }
    assert(whole.len() == a.len() + 1 + x.len());
    assert(other.len() == b.len() + 1 + y.len());
    assert(x =~= y) by {
        assert forall|i: int| 0 <= i < x.len() implies x[i] == y[i] by {
            assert(whole[a.len() + 1 + i] == other[a.len() + 1 + i]);
        }
    }
}

proof fn lemma_three_numbers(
    word: Seq<char>,
    a: (Seq<char>, Seq<char>, Seq<char>),
    b: (Seq<char>, Seq<char>, Seq<char>),
)
    requires
        all_digits(a.0),
        all_digits(a.1),
        all_digits(b.0),
        all_digits(b.1),
        word + a.0 + seq!['-'] + a.1 + seq!['-'] + a.2 == word + b.0 + seq!['-'] + b.1 + seq!['-']
            + b.2,
    ensures
        a == b,
{
    let left = word + a.0 + seq!['-'] + a.1 + seq!['-'] + a.2;
    let right = word + b.0 + seq!['-'] + b.1 + seq!['-'] + b.2;
    let x = a.1 + seq!['-'] + a.2;
    let y = b.1 + seq!['-'] + b.2;
    let n = word.len() as int;
    assert(left.skip(n) =~= a.0 + seq!['-'] + x);
    assert(right.skip(n) =~= b.0 + seq!['-'] + y);
    lemma_split_at_minus(a.0, b.0, x, y);
    lemma_split_at_minus(a.1, b.1, a.2, b.2);
}

/// Names that are made of a word and three numbers with minus signs between them
/// are the same only where the numbers are.
pub proof fn law_numbered_names_differ(word: Seq<char>, a: (nat, nat, nat), b: (nat, nat, nat))
    ensures
        word + decimal(a.0) + "-"@ + decimal(a.1) + "-"@ + decimal(a.2) == word + decimal(b.0)
            + "-"@ + decimal(b.1) + "-"@ + decimal(b.2) ==> a == b,
{
    let left = word + decimal(a.0) + "-"@ + decimal(a.1) + "-"@ + decimal(a.2);
    let right = word + decimal(b.0) + "-"@ + decimal(b.1) + "-"@ + decimal(b.2);
    if left == right {
        assert("-"@ =~= seq!['-']) by {
            reveal_strlit("-");
        }
        assert(all_digits(decimal(a.0)) && all_digits(decimal(a.1)) && all_digits(decimal(b.0))
            && all_digits(decimal(b.1))) by {
            law_decimal_is_read_back(a.0);
            law_decimal_is_read_back(a.1);
            law_decimal_is_read_back(b.0);
            law_decimal_is_read_back(b.1);
        }
        lemma_three_numbers(
            word,
            (decimal(a.0), decimal(a.1), decimal(a.2)),
            (decimal(b.0), decimal(b.1), decimal(b.2)),
        );
        law_decimals_differ(a.0, b.0);
        law_decimals_differ(a.1, b.1);
        law_decimals_differ(a.2, b.2);
    }
}

/// Whatever white space stands before a text and behind it, exactly that comes off.
pub proof fn law_trimmed_core(before: Seq<char>, core: Seq<char>, behind: Seq<char>)
    requires
        forall|i: int| 0 <= i < before.len() ==> is_white_space(#[trigger] before[i]),
        forall|i: int| 0 <= i < behind.len() ==> is_white_space(#[trigger] behind[i]),
        core.len() > 0 ==> !is_white_space(core.first()) && !is_white_space(core.last()),
    ensures
        trimmed(before + core + behind) == core,
{
    let text = before + core + behind;
    let (from, to) = law_trimmed(text);
    let a = before.len() as int;
    let b = (before.len() + core.len()) as int;
    let left = text.subrange(from, to);
    if core.len() > 0 {
        assert(text[a] == core.first());
        assert(text[b - 1] == core.last());
        assert(from <= a);
        assert(to >= b);
        if from < a {
            assert(left.first() == text[from]);
            assert(text[from] == before[from]);
        }
        if b < to {
            assert(left.last() == text[to - 1]);
            assert(text[to - 1] == behind[to - 1 - b]);
        }
        assert(left =~= core);
    } else {
        if left.len() > 0 {
            assert(left.first() == text[from]);
            if from < a {
                assert(text[from] == before[from]);
            } else {
                assert(text[from] == behind[from - a]);
            }
        }
        assert(left =~= core);
    }
}

/// Nothing is read as a number where there is no digit.
pub proof fn law_no_digits_no_number()
    ensures
        parsed_u32(Seq::empty()) is None,
        parsed_u32(seq!['+']) is None,
{
    assert(seq!['+'].skip(1).len() == 0);
}

} // verus!
