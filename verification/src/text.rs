//! Text: white space, decimal numbers, substrings.

use vstd::prelude::*;

verus! {

/// The characters with Unicode's `White_Space` property.
pub open spec fn is_white_space(c: char) -> bool {
    let code = c as u32;
    ||| 0x9 <= code <= 0xd
    ||| code == 0x20
    ||| code == 0x85
    ||| code == 0xa0
    ||| code == 0x1680
    ||| 0x2000 <= code <= 0x200a
    ||| code == 0x2028
    ||| code == 0x2029
    ||| code == 0x202f
    ||| code == 0x205f
    ||| code == 0x3000
}

/// `text` without the white space that it starts with.
pub open spec fn trimmed_start(text: Seq<char>) -> Seq<char>
    decreases text.len(),
{
    if text.len() > 0 && is_white_space(text.first()) {
        trimmed_start(text.drop_first())
    } else {
        text
    }
}

/// `text` without the white space that it ends with.
pub open spec fn trimmed_end(text: Seq<char>) -> Seq<char>
    decreases text.len(),
{
    if text.len() > 0 && is_white_space(text.last()) {
        trimmed_end(text.drop_last())
    } else {
        text
    }
}

/// `text` without the white space at either end.
pub open spec fn trimmed(text: Seq<char>) -> Seq<char> {
    trimmed_end(trimmed_start(text))
}

/// Whether `text` holds nothing but white space.
pub open spec fn blank(text: Seq<char>) -> bool {
    forall|i: int| 0 <= i < text.len() ==> is_white_space(#[trigger] text[i])
}

/// `str::trim`: the text without leading and trailing white space, which is what has Unicode's
/// `White_Space` property.
#[verifier::external_body]
pub(crate) fn trim(text: &str) -> (rest: &str)
    ensures
        rest@ == trimmed(text@),
{
    text.trim()
}

proof fn lemma_trimmed_start(text: Seq<char>)
    ensures
        trimmed_start(text).len() == 0 <==> blank(text),
        trimmed_start(text).len() > 0 ==> !is_white_space(trimmed_start(text).first()),
    decreases text.len(),
{
    if text.len() > 0 && is_white_space(text.first()) {
        let rest = text.drop_first();
        lemma_trimmed_start(rest);
        assert(blank(rest) ==> blank(text)) by {
            if blank(rest) {
                assert forall|i: int| 0 <= i < text.len() implies is_white_space(
                    #[trigger] text[i],
                ) by {
                    if i > 0 {
                        assert(text[i] == rest[i - 1]);
                    }
                }
            }
        }
        assert(blank(text) ==> blank(rest)) by {
            if blank(text) {
                assert forall|i: int| 0 <= i < rest.len() implies is_white_space(
                    #[trigger] rest[i],
                ) by {
                    assert(rest[i] == text[i + 1]);
                }
            }
        }
    } else if text.len() > 0 {
        assert(!is_white_space(text[0]));
    }
}

proof fn lemma_trimmed_end_keeps_first(text: Seq<char>)
    requires
        text.len() > 0,
        !is_white_space(text.first()),
    ensures
        trimmed_end(text).len() > 0,
    decreases text.len(),
{
    if is_white_space(text.last()) {
        assert(text.len() > 1);
        assert(text.drop_last().first() == text.first());
        lemma_trimmed_end_keeps_first(text.drop_last());
    }
}

/// Nothing is left of a text by trimming exactly where it is blank.
pub proof fn trimmed_is_empty_iff_blank(text: Seq<char>)
    ensures
        trimmed(text).len() == 0 <==> blank(text),
{
    lemma_trimmed_start(text);
    let rest = trimmed_start(text);
    if rest.len() > 0 {
        lemma_trimmed_end_keeps_first(rest);
    }
}

/// Whether `text` holds nothing but white space.
pub fn is_blank(text: &str) -> (is: bool)
    ensures
        is == blank(text@),
{
    proof {
        trimmed_is_empty_iff_blank(text@);
    }
    trim(text).is_empty()
}

/// The character of a decimal digit.
pub open spec fn digit_char(digit: int) -> char {
    ('0' as u32 + digit) as char
}

/// Whether `c` is one of `0` to `9`.
pub open spec fn is_digit(c: char) -> bool {
    '0' <= c <= '9'
}

/// A number in decimal, without a sign and without leading zeros.
pub open spec fn decimal(number: nat) -> Seq<char>
    decreases number,
{
    if number < 10 {
        seq![digit_char(number as int)]
    } else {
        decimal(number / 10).push(digit_char((number % 10) as int))
    }
}

/// The number that a run of digits stands for.
pub open spec fn decimal_value(digits: Seq<char>) -> nat
    decreases digits.len(),
{
    if digits.len() == 0 {
        0
    } else {
        decimal_value(digits.drop_last()) * 10 + (digits.last() as nat - '0' as nat) as nat
    }
}

/// A text without the one plus sign that it may start with.
pub open spec fn unsigned_digits(text: Seq<char>) -> Seq<char> {
    if text.len() > 0 && text.first() == '+' {
        text.drop_first()
    } else {
        text
    }
}

/// How an unsigned number of at most `max` is read: an optional plus sign, then digits, at
/// least one, and nothing else.
pub open spec fn parsed(text: Seq<char>, max: nat) -> Option<nat> {
    let digits = unsigned_digits(text);
    if digits.len() > 0 && (forall|i: int|
        0 <= i < digits.len() ==> is_digit(#[trigger] digits[i])) && decimal_value(digits) <= max {
        Some(decimal_value(digits))
    } else {
        None
    }
}

fn digit_text(digit: u64) -> (text: &'static str)
    requires
        digit < 10,
    ensures
        text@ == seq![digit_char(digit as int)],
{
    proof {
        reveal_strlit("0");
        reveal_strlit("1");
        reveal_strlit("2");
        reveal_strlit("3");
        reveal_strlit("4");
        reveal_strlit("5");
        reveal_strlit("6");
        reveal_strlit("7");
        reveal_strlit("8");
        reveal_strlit("9");
    }
    if digit == 0 {
        "0"
    } else if digit == 1 {
        "1"
    } else if digit == 2 {
        "2"
    } else if digit == 3 {
        "3"
    } else if digit == 4 {
        "4"
    } else if digit == 5 {
        "5"
    } else if digit == 6 {
        "6"
    } else if digit == 7 {
        "7"
    } else if digit == 8 {
        "8"
    } else {
        "9"
    }
}

/// `number` in decimal.
pub fn decimal_text(number: u64) -> (text: String)
    ensures
        text@ == decimal(number as nat),
    decreases number,
{
    if number < 10 {
        digit_text(number).to_owned()
    } else {
        let mut text = decimal_text(number / 10);
        text.append(digit_text(number % 10));
        proof {
            assert(text@ =~= decimal((number / 10) as nat).push(digit_char((number % 10) as int)));
        }
        text
    }
}

proof fn lemma_prefix_value(digits: Seq<char>, len: int)
    requires
        0 <= len <= digits.len(),
    ensures
        decimal_value(digits.take(len)) <= decimal_value(digits),
    decreases digits.len() - len,
{
    if len == digits.len() {
        assert(digits.take(len) =~= digits);
    } else {
        lemma_prefix_value(digits, len + 1);
        assert(digits.take(len + 1).drop_last() =~= digits.take(len));
    }
}

/// The characters of `text`.
pub(crate) fn chars_of(text: &str) -> (chars: Vec<char>)
    ensures
        chars@ == text@,
{
    let mut chars: Vec<char> = Vec::new();
    for c in it: text.chars()
        invariant
            it.seq() == text@,
            chars@ == text@.take(it.index() as int),
    {
        chars.push(c);
        proof {
            assert(chars@ =~= text@.take(it.index() + 1));
        }
    }
    proof {
        assert(text@.take(text@.len() as int) =~= text@);
    }
    chars
}

/// The unsigned number of at most `max` that `text` spells, if it spells one.
pub fn parse_decimal(text: &str, max: u64) -> (number: Option<u64>)
    ensures
        match parsed(text@, max as nat) {
            Some(value) => number matches Some(found) && found == value,
            None => number is None,
        },
{
    let chars = chars_of(text);
    let ghost digits = unsigned_digits(text@);
    let start: usize = if chars.len() > 0 && chars[0] == '+' {
        1
    } else {
        0
    };
    if start == chars.len() {
        return None;
    }
    let mut value: u64 = 0;
    let mut i: usize = start;
    proof {
        assert(digits.take(0) =~= Seq::<char>::empty());
    }
    while i < chars.len()
        invariant
            start <= i <= chars.len(),
            chars@ == text@,
            digits == unsigned_digits(text@),
            digits.len() == chars.len() - start,
            forall|j: int| start <= j < chars.len() ==> chars@[j] == #[trigger] digits[j - start],
            forall|j: int| 0 <= j < i - start ==> is_digit(#[trigger] digits[j]),
            value == decimal_value(digits.take(i - start)),
            value <= max,
        decreases chars.len() - i,
    {
        let c = chars[i];
        proof {
            assert(chars@[i as int] == digits[i - start]);
            assert(digits.take(i - start + 1).drop_last() =~= digits.take(i - start));
        }
        if c < '0' || c > '9' {
            return None;
        }
        let digit: u32 = c as u32 - '0' as u32;
        let next: u128 = value as u128 * 10 + digit as u128;
        proof {
            assert(next == decimal_value(digits.take(i - start + 1)));
        }
        if next > max as u128 {
            proof {
                lemma_prefix_value(digits, i - start + 1);
            }
            return None;
        }
        value = next as u64;
        i = i + 1;
    }
    proof {
        assert(digits.take(i - start) =~= digits);
    }
    Some(value)
}

/// A number spelled in decimal is read back as itself.
pub proof fn decimal_reads_back(number: nat, max: nat)
    requires
        number <= max,
    ensures
        parsed(decimal(number), max) == Some(number),
{
    lemma_decimal(number);
    assert(is_digit(decimal(number)[0]));
    assert(unsigned_digits(decimal(number)) == decimal(number));
}

proof fn lemma_decimal(number: nat)
    ensures
        decimal(number).len() > 0,
        forall|i: int| 0 <= i < decimal(number).len() ==> is_digit(#[trigger] decimal(number)[i]),
        decimal_value(decimal(number)) == number,
    decreases number,
{
    if number < 10 {
        let text = decimal(number);
        assert(text.drop_last() =~= Seq::<char>::empty());
        assert(decimal_value(text.drop_last()) == 0);
    } else {
        let rest = decimal(number / 10);
        lemma_decimal(number / 10);
        assert(decimal(number).drop_last() =~= rest);
        assert(decimal(number).last() == digit_char((number % 10) as int));
    }
}

/// Two different numbers are spelled differently.
pub proof fn decimal_is_injective(a: nat, b: nat)
    requires
        decimal(a) == decimal(b),
    ensures
        a == b,
{
    lemma_decimal(a);
    lemma_decimal(b);
}

/// Whether `part` stands in `text` at the position `at`.
pub open spec fn occurs_at(part: Seq<char>, text: Seq<char>, at: int) -> bool {
    0 <= at <= text.len() - part.len() && text.subrange(at, at + part.len()) == part
}

/// Whether `part` occurs in `text`.
pub open spec fn occurs_in(part: Seq<char>, text: Seq<char>) -> bool {
    exists|at: int| #[trigger] occurs_at(part, text, at)
}

/// Whether `part` occurs in `text`.
pub fn contains_text(text: &str, part: &str) -> (does: bool)
    ensures
        does == occurs_in(part@, text@),
{
    let text_chars = chars_of(text);
    let part_chars = chars_of(part);
    if part_chars.len() > text_chars.len() {
        return false;
    }
    let last: usize = text_chars.len() - part_chars.len();
    let mut at: usize = 0;
    loop
        invariant
            text_chars@ == text@,
            part_chars@ == part@,
            last == text_chars.len() - part_chars.len(),
            at <= last,
            forall|k: int| 0 <= k < at ==> !#[trigger] occurs_at(part@, text@, k),
        decreases last - at,
    {
        let mut len: usize = 0;
        while len < part_chars.len() && text_chars[at + len] == part_chars[len]
            invariant
                text_chars@ == text@,
                part_chars@ == part@,
                last == text_chars.len() - part_chars.len(),
                at <= last,
                len <= part@.len(),
                forall|k: int| 0 <= k < len ==> text@[at + k] == #[trigger] part@[k],
            decreases part_chars.len() - len,
        {
            len = len + 1;
        }
        if len == part_chars.len() {
            proof {
                assert(text@.subrange(at as int, at + part@.len()) =~= part@);
                assert(occurs_at(part@, text@, at as int));
            }
            return true;
        }
        proof {
            assert(text@.subrange(at as int, at + part@.len())[len as int] != part@[len as int]);
        }
        if at == last {
            return false;
        }
        at = at + 1;
    }
}

/// Whether two texts are the same.
pub(crate) fn same_text(a: &str, b: &str) -> (same: bool)
    ensures
        same == (a@ == b@),
{
    a.to_owned() == b.to_owned()
}

/// White space is the tabulator, the line and page breaks, the space, and Unicode's other blanks.
pub proof fn white_space_is_listed(c: char)
    ensures
        is_white_space(c) <==> {
            ||| c == '\u{9}'
            ||| c == '\u{a}'
            ||| c == '\u{b}'
            ||| c == '\u{c}'
            ||| c == '\u{d}'
            ||| c == '\u{20}'
            ||| c == '\u{85}'
            ||| c == '\u{a0}'
            ||| c == '\u{1680}'
            ||| '\u{2000}' <= c <= '\u{200a}'
            ||| c == '\u{2028}'
            ||| c == '\u{2029}'
            ||| c == '\u{202f}'
            ||| c == '\u{205f}'
            ||| c == '\u{3000}'
        },
{
}

proof fn lemma_trimmed_start_skips(before: Seq<char>, rest: Seq<char>)
    requires
        forall|i: int| 0 <= i < before.len() ==> is_white_space(#[trigger] before[i]),
    ensures
        trimmed_start(before + rest) == trimmed_start(rest),
    decreases before.len(),
{
    if before.len() == 0 {
        assert(before + rest =~= rest);
    } else {
        let fewer = before.drop_first();
        assert forall|i: int| 0 <= i < fewer.len() implies is_white_space(#[trigger] fewer[i]) by {
            assert(fewer[i] == before[i + 1]);
        }
        assert((before + rest).first() == before[0]);
        assert((before + rest).drop_first() =~= fewer + rest);
        lemma_trimmed_start_skips(fewer, rest);
    }
}

proof fn lemma_trimmed_end_skips(rest: Seq<char>, after: Seq<char>)
    requires
        forall|i: int| 0 <= i < after.len() ==> is_white_space(#[trigger] after[i]),
    ensures
        trimmed_end(rest + after) == trimmed_end(rest),
    decreases after.len(),
{
    if after.len() == 0 {
        assert(rest + after =~= rest);
    } else {
        let fewer = after.drop_last();
        assert forall|i: int| 0 <= i < fewer.len() implies is_white_space(#[trigger] fewer[i]) by {
            assert(fewer[i] == after[i]);
        }
        assert((rest + after).last() == after[after.len() - 1]);
        assert((rest + after).drop_last() =~= rest + fewer);
        lemma_trimmed_end_skips(rest, fewer);
    }
}

/// Trimming takes away the white space around a text and nothing of the text itself.
pub proof fn trimming_keeps_the_text(before: Seq<char>, text: Seq<char>, after: Seq<char>)
    requires
        forall|i: int| 0 <= i < before.len() ==> is_white_space(#[trigger] before[i]),
        forall|i: int| 0 <= i < after.len() ==> is_white_space(#[trigger] after[i]),
        text.len() > 0,
        !is_white_space(text[0]),
        !is_white_space(text[text.len() - 1]),
    ensures
        trimmed(before + text + after) == text,
{
    assert(before + text + after =~= before + (text + after));
    lemma_trimmed_start_skips(before, text + after);
    assert((text + after).first() == text[0]);
    assert(trimmed_start(text + after) == text + after);
    lemma_trimmed_end_skips(text, after);
}

/// A number is spelled digit by digit: the digits of a tenth of it, and then its last digit.
pub proof fn decimal_is_positional(number: nat, digit: nat)
    requires
        digit < 10,
    ensures
        decimal(digit) == seq![(48 + digit) as char],
        number > 0 ==> decimal(number * 10 + digit) == decimal(number).push((48 + digit) as char),
        decimal(number).len() > 0,
        forall|i: int|
            0 <= i < decimal(number).len() ==> '0' <= #[trigger] decimal(number)[i] <= '9',
{
    lemma_decimal(number);
    assert((number * 10 + digit) / 10 == number);
    assert((number * 10 + digit) % 10 == digit);
}

/// A number is read digit by digit: one more digit makes it ten times as large and adds the digit,
/// unless it becomes too large. A plus sign in front does not matter, and nothing else than a digit
/// may stand in a number.
pub proof fn parsing_is_positional(digits: Seq<char>, digit: nat, max: nat)
    requires
        digit < 10,
        forall|i: int| 0 <= i < digits.len() ==> '0' <= #[trigger] digits[i] <= '9',
    ensures
        parsed(Seq::<char>::empty(), max) is None,
        parsed(seq!['+'], max) is None,
        parsed(seq![(48 + digit) as char], max) == if digit <= max {
            Some(digit)
        } else {
            None
        },
        digits.len() > 0 ==> parsed(seq!['+'] + digits, max) == parsed(digits, max),
        digits.len() > 0 ==> parsed(digits.push((48 + digit) as char), max) == match parsed(
            digits,
            max,
        ) {
            Some(value) => if value * 10 + digit <= max {
                Some(value * 10 + digit)
            } else {
                None
            },
            None => None,
        },
{
    let c = (48 + digit) as char;
    assert('0' <= c <= '9');
    assert(c as nat - '0' as nat == digit);
    assert(seq!['+'].drop_first() =~= Seq::<char>::empty());
    let one = seq![c];
    assert(one.drop_last() =~= Seq::<char>::empty());
    assert(decimal_value(one.drop_last()) == 0);
    assert(unsigned_digits(one) == one);
    assert(is_digit(one[0]));
    if digits.len() > 0 {
        assert('0' <= digits[0] <= '9');
        assert((seq!['+'] + digits).drop_first() =~= digits);
        assert(unsigned_digits(digits) == digits);
        let more = digits.push(c);
        assert(more[0] == digits[0]);
        assert(unsigned_digits(more) == more);
        assert(more.drop_last() =~= digits);
        assert(decimal_value(more) == decimal_value(digits) * 10 + digit);
        assert forall|i: int| 0 <= i < more.len() implies is_digit(#[trigger] more[i]) by {
            if i < digits.len() {
                assert(more[i] == digits[i]);
            }
        }
        assert(forall|i: int| 0 <= i < digits.len() ==> is_digit(#[trigger] digits[i]));
    }
}

/// A text with anything else than digits behind its first character is no number, nor is one that
/// starts with anything but a digit or a plus sign.
pub proof fn only_digits_make_a_number(text: Seq<char>, at: int, max: nat)
    requires
        0 <= at < text.len(),
        !('0' <= text[at] <= '9'),
        at > 0 || text[at] != '+',
    ensures
        parsed(text, max) is None,
{
    let digits = unsigned_digits(text);
    if text[0] == '+' {
        assert(digits[at - 1] == text[at]);
        assert(!is_digit(digits[at - 1]));
    } else {
        assert(digits[at] == text[at]);
        assert(!is_digit(digits[at]));
    }
}

/// A part occurs in a text exactly where the text is something, then the part, then something.
pub proof fn occurring_is_standing_within(part: Seq<char>, text: Seq<char>)
    ensures
        occurs_in(part, text) <==> exists|before: Seq<char>, after: Seq<char>| #[trigger]
            (before + part + after) == text,
{
    if occurs_in(part, text) {
        let at = choose|at: int| #[trigger] occurs_at(part, text, at);
        let before = text.take(at);
        let after = text.skip(at + part.len());
        assert(before + part + after =~= text);
    }
    if exists|before: Seq<char>, after: Seq<char>| #[trigger] (before + part + after) == text {
        let (before, after) = choose|before: Seq<char>, after: Seq<char>| #[trigger]
            (before + part + after) == text;
        let at = before.len() as int;
        assert(text.subrange(at, at + part.len()) =~= part);
        assert(occurs_at(part, text, at));
    }
}

/// A number is read from its spelling where it is not too large, and two texts are told by whether
/// one stands within the other; a text is blank where it is empty or white space throughout.
pub proof fn texts_are_read_as_they_are(
    text: &str,
    number: nat,
    max: u64,
    read: Option<u64>,
    part: &str,
    found: bool,
    blank: bool,
)
    requires
        call_ensures(parse_decimal, (text, max), read),
        call_ensures(contains_text, (text, part), found),
        call_ensures(is_blank, (text,), blank),
    ensures
        text@ == decimal(number) ==> match read {
            Some(value) => number <= max && value == number,
            None => number > max,
        },
        read is Some <==> parsed(text@, max as nat) is Some,
        read is Some ==> parsed(text@, max as nat) == Some(read->0 as nat),
        found <==> exists|before: Seq<char>, after: Seq<char>| #[trigger]
            (before + part@ + after) == text@,
        blank <==> forall|i: int| 0 <= i < text@.len() ==> is_white_space(#[trigger] text@[i]),
{
    lemma_decimal(number);
    assert(is_digit(decimal(number)[0]));
    assert(unsigned_digits(decimal(number)) == decimal(number));
    occurring_is_standing_within(part@, text@);
}

}
