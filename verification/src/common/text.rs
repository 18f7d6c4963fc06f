//! Text building blocks: decimal and hexadecimal numbers, trimming.

use vstd::prelude::*;

verus! {

/// `String::push`: appends one character, leaving the rest of the text as it was.
pub assume_specification[ String::push ](string: &mut String, character: char)
    ensures
        final(string)@ == old(string)@.push(character),
;

/// The digit that stands for `value` in decimal notation.
pub open spec fn digit(value: nat) -> char {
    ('0' as nat + value) as char
}

/// Decimal notation of a number, without leading zeros.
pub open spec fn decimal(value: nat) -> Seq<char>
    decreases value,
{
    if value < 10 {
        seq![digit(value)]
    } else {
        decimal(value / 10).push(digit(value % 10))
    }
}

/// The decimal digit for a value below ten.
fn digit_char(value: u128) -> (character: char)
    requires
        value < 10,
    ensures
        character == digit(value as nat),
{
    (48u8 + value as u8) as char
}

/// Formats a number in decimal notation.
pub fn decimal_text(value: u128) -> (text: String)
    ensures
        text@ == decimal(value as nat),
    decreases value,
{
    let mut text = if value < 10 {
        String::new()
    } else {
        decimal_text(value / 10)
    };
    text.push(digit_char(value % 10));
    proof {
        if value < 10 {
            assert(text@ =~= seq![digit(value as nat)]);
        }
    }
    text
}

/// The digit that stands for `value` in hexadecimal notation.
pub open spec fn hex_digit(value: nat) -> char {
    if value < 10 {
        digit(value)
    } else {
        ('a' as nat + (value - 10) as nat) as char
    }
}

/// The lowest `width` hexadecimal digits of a number.
pub open spec fn hex(value: nat, width: nat) -> Seq<char>
    decreases width,
{
    if width == 0 {
        Seq::empty()
    } else {
        hex(value / 16, (width - 1) as nat).push(hex_digit(value % 16))
    }
}

/// Formats the lowest `width` hexadecimal digits of a number.
pub fn hex_text(value: u64, width: usize) -> (text: String)
    ensures
        text@ == hex(value as nat, width as nat),
    decreases width,
{
    if width == 0 {
        return String::new();
    }
    let mut text = hex_text(value / 16, width - 1);
    let low: u64 = value % 16;
    if low < 10 {
        text.push(digit_char(low as u128));
    } else {
        text.push((97u8 + (low - 10) as u8) as char);
    }
    text
}

/// Joins two pieces of text.
pub fn joined(left: &str, right: &str) -> (text: String)
    ensures
        text@ == left@ + right@,
{
    let mut text = left.to_owned();
    text.append(right);
    text
}

/// White space as Unicode has it (the property `White_Space`).
pub open spec fn is_white_space(character: char) -> bool {
    let code = character as u32;
    9 <= code <= 13 || code == 32 || code == 0x85 || code == 0xA0 || code == 0x1680 || 0x2000
        <= code <= 0x200A || code == 0x2028 || code == 0x2029 || code == 0x202F || code == 0x205F
        || code == 0x3000
}

/// A text without the white space at its start.
pub open spec fn trimmed_start(content: Seq<char>) -> Seq<char>
    decreases content.len(),
{
    if content.len() > 0 && is_white_space(content[0]) {
        trimmed_start(content.skip(1))
    } else {
        content
    }
}

/// A text without the white space at its end.
pub open spec fn trimmed_end(content: Seq<char>) -> Seq<char>
    decreases content.len(),
{
    if content.len() > 0 && is_white_space(content.last()) {
        trimmed_end(content.drop_last())
    } else {
        content
    }
}

/// A text without the white space around it.
pub open spec fn trimmed(content: Seq<char>) -> Seq<char> {
    trimmed_end(trimmed_start(content))
}

/// `str::trim`: the text without leading and trailing white space.
pub assume_specification[ str::trim ](string: &str) -> (result: &str)
    ensures
        result@ == trimmed(string@),
;

/// Trimming leaves a text alone that neither starts nor ends with white space.
pub proof fn lemma_trimmed_stays(content: Seq<char>)
    requires
        content.len() > 0,
        !is_white_space(content[0]),
        !is_white_space(content.last()),
    ensures
        trimmed(content) == content,
{
}

/// Whether the words stand at this place of a text.
pub open spec fn stands_at(content: Seq<char>, words: Seq<char>, place: int) -> bool {
    0 <= place && place + words.len() <= content.len() && content.subrange(
        place,
        place + words.len(),
    ) == words
}

/// Whether the words stand anywhere in a text.
pub open spec fn holds_words(content: Seq<char>, words: Seq<char>) -> bool {
    exists|place: int| #[trigger] stands_at(content, words, place)
}

fn words_stand_at(content: &str, words: &str, place: usize, length: usize) -> (standing: bool)
    requires
        length == words@.len(),
        place + length <= content@.len(),
        content@.len() <= usize::MAX,
    ensures
        standing == stands_at(content@, words@, place as int),
{
    let mut index: usize = 0;
    while index < length
        invariant
            index <= length,
            length == words@.len(),
            place + length <= content@.len(),
            content@.len() <= usize::MAX,
            forall|i: int| 0 <= i < index ==> content@[place + i] == words@[i],
        decreases length - index,
    {
        if content.get_char(place + index) != words.get_char(index) {
            assert(content@.subrange(place as int, place + length)[index as int]
                != words@[index as int]);
            return false;
        }
        index += 1;
    }
    assert(content@.subrange(place as int, place + length) =~= words@);
    true
}

/// Whether the words stand anywhere in a text.
pub fn contains_words(content: &str, words: &str) -> (held: bool)
    ensures
        held == holds_words(content@, words@),
{
    let total: usize = content.unicode_len();
    let length: usize = words.unicode_len();
    if length > total {
        return false;
    }
    let mut place: usize = 0;
    while place <= total - length
        invariant
            length <= total,
            total == content@.len(),
            length == words@.len(),
            place <= total - length + 1,
            forall|i: int| 0 <= i < place ==> !stands_at(content@, words@, i),
        decreases total - length + 1 - place,
    {
        if words_stand_at(content, words, place, length) {
            return true;
        }
        if place == total - length {
            return false;
        }
        place += 1;
    }
    false
}

/// A text holds what it was built around.
pub proof fn lemma_holds_its_parts(before: Seq<char>, words: Seq<char>, after: Seq<char>)
    ensures
        holds_words(before + words + after, words),
{
    let content = before + words + after;
    assert(content.subrange(before.len() as int, (before.len() + words.len()) as int) =~= words);
    assert(stands_at(content, words, before.len() as int));
}

/// The number that a row of digits stands for in a positional notation with this base.
pub open spec fn read_digits(digits: Seq<char>, base: nat) -> nat
    decreases digits.len(),
{
    if digits.len() == 0 {
        0
    } else {
        let code = digits.last() as nat;
        read_digits(digits.drop_last(), base) * base + (if 48 <= code <= 57 {
            (code - 48) as nat
        } else {
            (code - 87) as nat
        })
    }
}

/// A number in decimal notation reads back as itself, holds nothing but digits, and starts with a
/// zero only where it is zero.
pub proof fn law_decimals_read_back(value: nat)
    ensures
        read_digits(decimal(value), 10) == value,
        decimal(value).len() >= 1,
        value > 0 ==> decimal(value)[0] != '0',
        forall|i: int| 0 <= i < decimal(value).len() ==> '0' <= #[trigger] decimal(value)[i] <= '9',
    decreases value,
{
    reveal_with_fuel(read_digits, 2);
    if value >= 10 {
        law_decimals_read_back(value / 10);
        let whole = decimal(value);
        let head = decimal(value / 10);
        assert(whole.drop_last() == head);
        assert(whole[0] == head[0]);
        assert forall|i: int| 0 <= i < whole.len() implies '0' <= #[trigger] whole[i] <= '9' by {
            if i < head.len() {
                assert(whole[i] == head[i]);
            }
        }
    } else {
        assert(decimal(value).drop_last() == Seq::<char>::empty());
    }
}

/// The hexadecimal digits of a number read back as its lowest digits, of which there are as many
/// as were asked for.
pub proof fn law_hexadecimals_read_back(value: nat, width: nat)
    ensures
        hex(value, width).len() == width,
        value < vstd::arithmetic::power::pow(16, width) ==> read_digits(hex(value, width), 16)
            == value,
    decreases width,
{
    reveal_with_fuel(read_digits, 2);
    reveal(vstd::arithmetic::power::pow);
    if width > 0 {
        let rest = (width - 1) as nat;
        law_hexadecimals_read_back(value / 16, rest);
        assert(hex(value, width).drop_last() == hex(value / 16, rest));
        let limit = vstd::arithmetic::power::pow(16, rest);
        assert(vstd::arithmetic::power::pow(16, width) == 16 * limit);
    }
}

/// Two texts that are split at their first colon alike are alike before and after it.
pub proof fn lemma_split_at_colon(a: Seq<char>, b: Seq<char>, c: Seq<char>, d: Seq<char>)
    requires
        forall|i: int| 0 <= i < a.len() ==> #[trigger] a[i] != ':',
        forall|i: int| 0 <= i < c.len() ==> #[trigger] c[i] != ':',
        a + seq![':'] + b == c + seq![':'] + d,
    ensures
        a == c,
        b == d,
{
    let first = a + seq![':'] + b;
    let second = c + seq![':'] + d;
    assert(first[a.len() as int] == ':');
    assert(second[c.len() as int] == ':');
    if a.len() < c.len() {
        assert(second[a.len() as int] == c[a.len() as int]);
    } else if c.len() < a.len() {
        assert(first[c.len() as int] == a[c.len() as int]);
    }
    assert(a == first.take(a.len() as int));
    assert(c == second.take(c.len() as int));
    assert(b == first.skip(a.len() as int + 1));
    assert(d == second.skip(c.len() as int + 1));
}

/// Trimming takes white space off both ends and nothing else: what is left neither starts nor ends
/// with any, and only white space stood around it.
pub proof fn law_trimming_takes_white_space_off(content: Seq<char>)
    ensures
        trimmed(content).len() > 0 ==> !is_white_space(trimmed(content)[0]) && !is_white_space(
            trimmed(content).last(),
        ),
        exists|from: int, to: int|
            0 <= from <= to <= content.len() && #[trigger] content.subrange(from, to) == trimmed(
                content,
            ) && (forall|i: int|
                0 <= i < from || to <= i < content.len() ==> is_white_space(#[trigger] content[i])),
{
    let start = lemma_trimmed_start(content);
    let middle = content.skip(start);
    let end = lemma_trimmed_end(middle);
    assert(content.subrange(start, start + end) == trimmed(content));
    assert forall|i: int|
        0 <= i < start || start + end <= i < content.len() implies is_white_space(
        #[trigger] content[i],
    ) by {
        if i >= start {
            assert(middle[i - start] == content[i]);
        }
    }
    if end > 0 {
        assert(trimmed(content)[0] == middle[0]);
    }
}

proof fn lemma_trimmed_start(content: Seq<char>) -> (start: int)
    ensures
        0 <= start <= content.len(),
        trimmed_start(content) == content.skip(start),
        forall|i: int| 0 <= i < start ==> is_white_space(#[trigger] content[i]),
        start < content.len() ==> !is_white_space(content[start]),
    decreases content.len(),
{
    if content.len() > 0 && is_white_space(content[0]) {
        let rest = content.skip(1);
        let start = lemma_trimmed_start(rest);
        assert(rest.skip(start) == content.skip(start + 1));
        assert forall|i: int| 0 <= i < start + 1 implies is_white_space(#[trigger] content[i]) by {
            if i > 0 {
                assert(rest[i - 1] == content[i]);
            }
        }
        start + 1
    } else {
        assert(content.skip(0) == content);
        0
    }
}

proof fn lemma_trimmed_end(content: Seq<char>) -> (end: int)
    ensures
        0 <= end <= content.len(),
        trimmed_end(content) == content.take(end),
        forall|i: int| end <= i < content.len() ==> is_white_space(#[trigger] content[i]),
        end > 0 ==> !is_white_space(content[end - 1]),
    decreases content.len(),
{
    if content.len() > 0 && is_white_space(content.last()) {
        let rest = content.drop_last();
        let end = lemma_trimmed_end(rest);
        assert(rest.take(end) == content.take(end));
        assert forall|i: int| end <= i < content.len() implies is_white_space(
            #[trigger] content[i],
        ) by {
            if i < rest.len() {
                assert(rest[i] == content[i]);
            }
        }
        end
    } else {
        assert(content.take(content.len() as int) == content);
        content.len() as int
    }
}

} // verus!
