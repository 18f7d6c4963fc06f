//! Icon outlines: the path data of an SVG picture as drawing steps.

use vstd::prelude::*;

verus! {

/// What a drawing step does.
#[derive(Debug, Clone, Copy, PartialEq, Eq, Structural)]
pub enum SegmentKind {
    MoveTo,
    LineTo,
    CubicTo,
    Close,
}

/// A drawing step with its coordinates as they are written.
#[derive(Debug, PartialEq, Eq)]
pub struct PathSegment {
    pub kind: SegmentKind,
    pub numbers: Vec<String>,
}

/// A drawing step by the characters of its coordinates.
pub ghost struct SegmentText {
    pub kind: SegmentKind,
    pub numbers: Seq<Seq<char>>,
}

/// The characters of a list of texts.
pub open spec fn texts(strings: Seq<String>) -> Seq<Seq<char>> {
    strings.map_values(|string: String| string@)
}

pub open spec fn segment_text(segment: PathSegment) -> SegmentText {
    SegmentText { kind: segment.kind, numbers: texts(segment.numbers@) }
}

pub open spec fn segment_texts(segments: Seq<PathSegment>) -> Seq<SegmentText> {
    segments.map_values(|segment: PathSegment| segment_text(segment))
}

/// White space of ASCII.
pub open spec fn is_blank(character: char) -> bool {
    character == ' ' || character == '\t' || character == '\n' || character == '\r' || character
        == '\x0C'
}

/// What may stand between numbers and commands.
pub open spec fn is_separator(character: char) -> bool {
    is_blank(character) || character == ','
}

pub open spec fn is_letter(character: char) -> bool {
    'a' <= character <= 'z' || 'A' <= character <= 'Z'
}

pub open spec fn is_digit(character: char) -> bool {
    '0' <= character <= '9'
}

/// The first position from `at` on that holds no separator.
pub open spec fn after_separators(data: Seq<char>, at: int) -> int
    decreases data.len() - at,
{
    if 0 <= at < data.len() && is_separator(data[at]) {
        after_separators(data, at + 1)
    } else {
        at
    }
}

/// The end of the number that starts at `start`, read up to `at`: a sign may lead, digits and
/// points follow.
pub open spec fn number_end(data: Seq<char>, start: int, at: int) -> int
    decreases data.len() - at,
{
    if 0 <= at < data.len() && (is_digit(data[at]) || data[at] == '.' || (at == start && (data[at]
        == '+' || data[at] == '-'))) {
        number_end(data, start, at + 1)
    } else {
        at
    }
}

/// How many points a text has.
pub open spec fn points(text: Seq<char>) -> nat
    decreases text.len(),
{
    if text.len() == 0 {
        0
    } else {
        points(text.drop_last()) + if text.last() == '.' {
            1nat
        } else {
            0nat
        }
    }
}

/// Whether a text is a number: it has a digit and at most one point.
pub open spec fn is_number(text: Seq<char>) -> bool {
    points(text) <= 1 && exists|i: int| 0 <= i < text.len() && is_digit(#[trigger] text[i])
}

/// The number at `at`, after separators, and the position behind it.
pub open spec fn number_at(data: Seq<char>, at: int) -> Option<(Seq<char>, int)> {
    let start = after_separators(data, at);
    let end = number_end(data, start, start);
    let text = data.subrange(start, end);
    if is_number(text) {
        Some((text, end))
    } else {
        None
    }
}

/// The next `count` numbers and the position behind them.
pub open spec fn numbers_at(data: Seq<char>, at: int, count: nat) -> Option<(Seq<Seq<char>>, int)>
    decreases count,
{
    if count == 0 {
        Some((Seq::empty(), at))
    } else {
        match numbers_at(data, at, (count - 1) as nat) {
            Some((numbers, end)) => match number_at(data, end) {
                Some((number, next)) => Some((numbers.push(number), next)),
                None => None,
            },
            None => None,
        }
    }
}

/// What a command letter stands for: the step, how many numbers it takes, and the command that
/// holds for numbers that follow without a letter.
pub open spec fn command_meaning(command: char) -> Option<(SegmentKind, nat, Option<char>)> {
    if command == 'M' {
        Some((SegmentKind::MoveTo, 2, Some('L')))
    } else if command == 'L' {
        Some((SegmentKind::LineTo, 2, Some('L')))
    } else if command == 'C' {
        Some((SegmentKind::CubicTo, 6, Some('C')))
    } else if command == 'Z' || command == 'z' {
        Some((SegmentKind::Close, 0, None))
    } else {
        None
    }
}

/// The steps from `at` on, where `command` holds for numbers without a letter.
pub open spec fn segments_from(data: Seq<char>, at: int, command: Option<char>) -> Option<
    Seq<SegmentText>,
>
    decreases data.len() - at,
{
    let start = after_separators(data, at);
    if start >= data.len() {
        Some(Seq::empty())
    } else {
        let lettered = is_letter(data[start]);
        let active = if lettered {
            Some(data[start])
        } else {
            command
        };
        let begin = if lettered {
            start + 1
        } else {
            start
        };
        match active {
            None => None,
            Some(letter) => match command_meaning(letter) {
                None => None,
                Some((kind, count, next)) => match numbers_at(data, begin, count) {
                    None => None,
                    Some((numbers, end)) => if at < end && end <= data.len() {
                        match segments_from(data, end, next) {
                            Some(rest) => Some(seq![SegmentText { kind, numbers }] + rest),
                            None => None,
                        }
                    } else {
                        None
                    },
                },
            },
        }
    }
}

/// The position of the first occurrence of `needle` at or after `from`.
pub open spec fn find(data: Seq<char>, needle: Seq<char>, from: int) -> Option<int>
    decreases data.len() + 1 - from,
{
    if from < 0 || from + needle.len() > data.len() {
        None
    } else if data.subrange(from, from + needle.len()) == needle {
        Some(from)
    } else {
        find(data, needle, from + 1)
    }
}

/// The characters of a text.
fn characters(text: &str) -> (chars: Vec<char>)
    ensures
        chars@ == text@,
{
    let mut chars: Vec<char> = Vec::new();
    for character in iter: text.chars()
        invariant
            chars@ == iter.seq().take(iter.index() as int),
            iter.seq() == text@,
    {
        chars.push(character);
        assert(chars@ =~= iter.seq().take(iter.index() + 1));
    }
    assert(chars@ =~= text@);
    chars
}

/// The text of a run of characters.
fn text_of(chars: &[char]) -> (text: String)
    ensures
        text@ == chars@,
{
    let mut text = String::new();
    let mut index: usize = 0;
    while index < chars.len()
        invariant
            index <= chars@.len(),
            text@ == chars@.take(index as int),
        decreases chars@.len() - index,
    {
        text.push(chars[index]);
        index += 1;
        assert(text@ =~= chars@.take(index as int));
    }
    assert(text@ =~= chars@);
    text
}

fn find_from(data: &Vec<char>, needle: &Vec<char>, from: usize) -> (found: Option<usize>)
    requires
        from <= data@.len(),
    ensures
        match find(data@, needle@, from as int) {
            Some(position) => (found matches Some(at) && at == position) && from <= position
                && position + needle@.len() <= data@.len() <= usize::MAX,
            None => found is None,
        },
{
    let length: usize = data.len();
    let width: usize = needle.len();
    let mut at: usize = from;
    while width <= length - at
        invariant
            from <= at <= length,
            length == data@.len(),
            width == needle@.len(),
            find(data@, needle@, from as int) == find(data@, needle@, at as int),
        decreases length + 1 - at,
    {
        let mut matched: usize = 0;
        while matched < width && data[at + matched] == needle[matched]
            invariant
                matched <= width,
                width == needle@.len(),
                length == data@.len(),
                at + width <= length,
                forall|i: int| 0 <= i < matched ==> data@[at + i] == needle@[i],
            decreases width - matched,
        {
            matched += 1;
        }
        if matched == width {
            assert(data@.subrange(at as int, at + width) =~= needle@);
            return Some(at);
        }
        assert(data@.subrange(at as int, at + width)[matched as int] != needle@[matched as int]);
        at += 1;
    }
    None
}

/// The path data of a picture: the `d` attribute of its first path.
pub open spec fn path_data(svg: Seq<char>) -> Option<Seq<char>> {
    match find(svg, "<path"@, 0) {
        None => None,
        Some(path) => match find(svg, seq!['d', '=', '"'], path) {
            None => None,
            Some(attribute) => match find(svg, seq!['"'], attribute + 3) {
                None => None,
                Some(end) => Some(svg.subrange(attribute + 3, end)),
            },
        },
    }
}

/// Finds the path data of a picture.
pub fn extract_path_data(svg: &str) -> (data: Option<String>)
    ensures
        match (data, path_data(svg@)) {
            (Some(data), Some(expected)) => data@ == expected,
            (None, None) => true,
            _ => false,
        },
{
    let chars = characters(svg);
    let path = match find_from(&chars, &characters("<path"), 0) {
        Some(path) => path,
        None => {
            return None;
        },
    };
    let opening: Vec<char> = vec!['d', '=', '"'];
    let quote: Vec<char> = vec!['"'];
    assert(opening@ =~= seq!['d', '=', '"']);
    assert(quote@ =~= seq!['"']);
    let attribute = match find_from(&chars, &opening, path) {
        Some(attribute) => attribute,
        None => {
            return None;
        },
    };
    let start: usize = attribute + 3;
    match find_from(&chars, &quote, start) {
        Some(end) => Some(text_of(vstd::slice::slice_subrange(chars.as_slice(), start, end))),
        None => None,
    }
}

/// The end of the word that goes on at `at`.
pub open spec fn word_end(text: Seq<char>, at: int) -> int
    decreases text.len() - at,
{
    if 0 <= at < text.len() && !is_blank(text[at]) {
        word_end(text, at + 1)
    } else {
        at
    }
}

/// The start of the next word from `at` on.
pub open spec fn word_start(text: Seq<char>, at: int) -> int
    decreases text.len() - at,
{
    if 0 <= at < text.len() && is_blank(text[at]) {
        word_start(text, at + 1)
    } else {
        at
    }
}

/// The first `count` words from `at` on, and the position behind them.
pub open spec fn words(text: Seq<char>, at: int, count: nat) -> Option<(Seq<Seq<char>>, int)>
    decreases count,
{
    if count == 0 {
        Some((Seq::empty(), at))
    } else {
        match words(text, at, (count - 1) as nat) {
            Some((found, end)) => {
                let start = word_start(text, end);
                if start >= text.len() {
                    None
                } else {
                    Some((found.push(text.subrange(start, word_end(text, start))), word_end(text, start)))
                }
            },
            None => None,
        }
    }
}

/// The four fields of a picture's view box.
pub open spec fn viewbox_texts(svg: Seq<char>) -> Option<Seq<Seq<char>>> {
    match find(svg, "viewBox="@.push('"'), 0) {
        None => None,
        Some(attribute) => match find(svg, seq!['"'], attribute + 9) {
            None => None,
            Some(end) => match words(svg.subrange(attribute + 9, end), 0, 4) {
                Some((fields, _)) => Some(fields),
                None => None,
            },
        },
    }
}

fn next_word(chars: &[char], at: usize) -> (word: Option<(usize, usize)>)
    requires
        at <= chars@.len(),
    ensures
        ({
            let start = word_start(chars@, at as int);
            match word {
                Some((from, to)) => start < chars@.len() && from == start && to == word_end(
                    chars@,
                    start,
                ) && from <= to <= chars@.len(),
                None => start >= chars@.len(),
            }
        }),
{
    let mut start: usize = at;
    while start < chars.len() && blank(chars[start])
        invariant
            start <= chars@.len(),
            word_start(chars@, at as int) == word_start(chars@, start as int),
        decreases chars@.len() - start,
    {
        start += 1;
    }
    if start >= chars.len() {
        return None;
    }
    let mut end: usize = start;
    while end < chars.len() && !blank(chars[end])
        invariant
            start <= end <= chars@.len(),
            word_end(chars@, start as int) == word_end(chars@, end as int),
        decreases chars@.len() - end,
    {
        end += 1;
    }
    Some((start, end))
}

fn blank(character: char) -> (result: bool)
    ensures
        result == is_blank(character),
{
    character == ' ' || character == '\t' || character == '\n' || character == '\r' || character
        == '\x0C'
}

/// Finds the four fields of a picture's view box.
pub fn extract_viewbox(svg: &str) -> (fields: Option<Vec<String>>)
    ensures
        match (fields, viewbox_texts(svg@)) {
            (Some(fields), Some(expected)) => texts(fields@) == expected,
            (None, None) => true,
            _ => false,
        },
{
    proof {
        reveal_strlit("viewBox=");
    }
    let chars = characters(svg);
    let mut opening = characters("viewBox=");
    opening.push('"');
    let quote: Vec<char> = vec!['"'];
    assert(quote@ =~= seq!['"']);
    let attribute = match find_from(&chars, &opening, 0) {
        Some(attribute) => attribute,
        None => {
            return None;
        },
    };
    let start: usize = attribute + 9;
    let end = match find_from(&chars, &quote, start) {
        Some(end) => end,
        None => {
            return None;
        },
    };
    let content = vstd::slice::slice_subrange(chars.as_slice(), start, end);
    let mut fields: Vec<String> = Vec::new();
    let mut at: usize = 0;
    let mut count: usize = 0;
    assert(texts(fields@) =~= Seq::<Seq<char>>::empty());
    while count < 4
        invariant
            count <= 4,
            at <= content@.len(),
            viewbox_texts(svg@) == match words(content@, 0, 4) {
                Some((fields, _)) => Some(fields),
                None => None,
            },
            words(content@, 0, count as nat) == Some((texts(fields@), at as int)),
        decreases 4 - count,
    {
        match next_word(content, at) {
            Some((from, to)) => {
                let field = text_of(vstd::slice::slice_subrange(content, from, to));
                let ghost before = fields@;
                fields.push(field);
                proof {
                    assert(texts(fields@) =~= texts(before).push(field@));
                }
                at = to;
                count += 1;
            },
            None => {
                proof {
                    lemma_words_missing(content@, count as nat, 4);
                }
                return None;
            },
        }
    }
    Some(fields)
}

proof fn lemma_words_missing(text: Seq<char>, found: nat, count: nat)
    requires
        found < count,
        words(text, 0, found + 1) is None,
    ensures
        words(text, 0, count) is None,
    decreases count,
{
    if found + 1 < count {
        lemma_words_missing(text, found, (count - 1) as nat);
    }
}

/// A reader of path data.
struct PathParser {
    data: Vec<char>,
    index: usize,
}

impl PathParser {
    spec fn wf(&self) -> bool {
        self.index <= self.data@.len()
    }

    fn skip_separators(&mut self) -> (more: bool)
        requires
            old(self).wf(),
        ensures
            final(self).wf(),
            final(self).data@ == old(self).data@,
            final(self).index == after_separators(old(self).data@, old(self).index as int),
            more == (final(self).index < final(self).data@.len()),
            final(self).index >= old(self).index,
    {
        while self.index < self.data.len() && (blank(self.data[self.index])
            || self.data[self.index] == ',')
            invariant
                self.wf(),
                self.data@ == old(self).data@,
                self.index >= old(self).index,
                after_separators(self.data@, old(self).index as int) == after_separators(
                    self.data@,
                    self.index as int,
                ),
            decreases self.data@.len() - self.index,
        {
            self.index = self.index + 1;
        }
        self.index < self.data.len()
    }

    fn consume_command(&mut self) -> (command: Option<char>)
        requires
            old(self).wf(),
        ensures
            final(self).wf(),
            final(self).data@ == old(self).data@,
            ({
                let at = old(self).index as int;
                if at < old(self).data@.len() && is_letter(old(self).data@[at]) {
                    command == Some(old(self).data@[at]) && final(self).index == at + 1
                } else {
                    command is None && final(self).index == at
                }
            }),
    {
        if self.index >= self.data.len() {
            return None;
        }
        let character = self.data[self.index];
        if 'a' <= character && character <= 'z' || 'A' <= character && character <= 'Z' {
            self.index = self.index + 1;
            Some(character)
        } else {
            None
        }
    }

    fn parse_number(&mut self) -> (number: Option<String>)
        requires
            old(self).wf(),
        ensures
            final(self).wf(),
            final(self).data@ == old(self).data@,
            match number_at(old(self).data@, old(self).index as int) {
                Some((text, end)) => final(self).index == end && (number matches Some(found)
                    && found@ == text),
                None => number is None,
            },
            number is Some ==> final(self).index > old(self).index,
    {
        let _ = self.skip_separators();
        let start: usize = self.index;
        let mut seen_digit = false;
        let mut seen_points: usize = 0;
        let mut done = false;
        assert(self.data@.subrange(start as int, start as int) =~= Seq::<char>::empty());
        while !done
            invariant
                self.wf(),
                self.data@ == old(self).data@,
                start <= self.index,
                seen_points <= self.index - start,
                seen_points == points(self.data@.subrange(start as int, self.index as int)),
                seen_digit <==> exists|i: int|
                    start <= i < self.index && is_digit(#[trigger] self.data@[i]),
                number_end(self.data@, start as int, start as int) == number_end(
                    self.data@,
                    start as int,
                    self.index as int,
                ),
                done ==> number_end(self.data@, start as int, self.index as int) == self.index,
            decreases self.data@.len() - self.index + if done {
                0int
            } else {
                1int
            },
        {
            if self.index >= self.data.len() {
                done = true;
            } else {
                let character = self.data[self.index];
                let digit = '0' <= character && character <= '9';
                let sign = character == '+' || character == '-';
                if digit || character == '.' || (sign && self.index == start) {
                    let ghost before = self.data@.subrange(start as int, self.index as int);
                    let ghost at = self.index as int;
                    if digit {
                        seen_digit = true;
                    }
                    if character == '.' {
                        seen_points = seen_points + 1;
                    }
                    self.index = self.index + 1;
                    proof {
                        let now = self.data@.subrange(start as int, self.index as int);
                        assert(now.drop_last() =~= before);
                        assert(now.last() == character);
                        if digit {
                            assert(is_digit(self.data@[at]));
                        }
                    }
                } else {
                    done = true;
                }
            }
        }
        let ghost text = self.data@.subrange(start as int, self.index as int);
        proof {
            if seen_digit {
                let i = choose|i: int|
                    start <= i < self.index && is_digit(#[trigger] self.data@[i]);
                assert(text[i - start] == self.data@[i]);
            } else {
                assert forall|i: int| 0 <= i < text.len() implies !is_digit(#[trigger] text[i]) by {
                    assert(!is_digit(self.data@[start + i]));
                }
            }
        }
        if !seen_digit || seen_points > 1 {
            return None;
        }
        Some(text_of(vstd::slice::slice_subrange(self.data.as_slice(), start, self.index)))
    }

    fn parse_numbers(&mut self, count: usize) -> (numbers: Option<Vec<String>>)
        requires
            old(self).wf(),
        ensures
            final(self).wf(),
            final(self).data@ == old(self).data@,
            match numbers_at(old(self).data@, old(self).index as int, count as nat) {
                Some((expected, end)) => final(self).index == end && (numbers matches Some(found)
                    && texts(found@) == expected),
                None => numbers is None,
            },
            numbers is Some && count > 0 ==> final(self).index > old(self).index,
            numbers is Some ==> final(self).index >= old(self).index,
    {
        let mut numbers: Vec<String> = Vec::new();
        let mut done: usize = 0;
        assert(texts(numbers@) =~= Seq::<Seq<char>>::empty());
        while done < count
            invariant
                done <= count,
                self.wf(),
                self.data@ == old(self).data@,
                self.index >= old(self).index,
                done > 0 ==> self.index > old(self).index,
                numbers_at(self.data@, old(self).index as int, done as nat) == Some(
                    (texts(numbers@), self.index as int),
                ),
            decreases count - done,
        {
            let ghost before = numbers@;
            match self.parse_number() {
                Some(number) => {
                    numbers.push(number);
                    assert(texts(numbers@) =~= texts(before).push(number@));
                    done += 1;
                },
                None => {
                    proof {
                        lemma_numbers_missing(
                            self.data@,
                            old(self).index as int,
                            done as nat,
                            count as nat,
                        );
                    }
                    return None;
                },
            }
        }
        Some(numbers)
    }
}

proof fn lemma_numbers_missing(data: Seq<char>, at: int, found: nat, count: nat)
    requires
        found < count,
        numbers_at(data, at, found + 1) is None,
    ensures
        numbers_at(data, at, count) is None,
    decreases count,
{
    if found + 1 < count {
        lemma_numbers_missing(data, at, found, (count - 1) as nat);
    }
}

/// What the steps so far and the rest make.
spec fn with_rest(found: Seq<SegmentText>, rest: Option<Seq<SegmentText>>) -> Option<
    Seq<SegmentText>,
> {
    match rest {
        Some(rest) => Some(found + rest),
        None => None,
    }
}

/// Reads path data. Nothing comes of data that is not well-formed.
pub fn parse_path_data(data: &str) -> (segments: Option<Vec<PathSegment>>)
    ensures
        match (segments, segments_from(data@, 0, None)) {
            (Some(segments), Some(expected)) => segment_texts(segments@) == expected,
            (None, None) => true,
            _ => false,
        },
{
    let mut parser = PathParser { data: characters(data), index: 0 };
    let mut segments: Vec<PathSegment> = Vec::new();
    let mut command: Option<char> = None;
    let ghost whole = segments_from(data@, 0, None);
    proof {
        assert(segment_texts(segments@) =~= Seq::<SegmentText>::empty());
        if let Some(rest) = whole {
            assert(segment_texts(segments@) + rest =~= rest);
        }
    }
    loop
        invariant
            parser.wf(),
            parser.data@ == data@,
            command != Some('Z'),
            command != Some('z'),
            whole == segments_from(data@, 0, None),
            whole == with_rest(
                segment_texts(segments@),
                segments_from(data@, parser.index as int, command),
            ),
        decreases data@.len() - parser.index,
    {
        let ghost at = parser.index as int;
        let ghost before = command;
        let ghost found = segments@;
        if !parser.skip_separators() {
            proof {
                assert(segment_texts(segments@) + Seq::<SegmentText>::empty() =~= segment_texts(
                    segments@,
                ));
            }
            return Some(segments);
        }
        if let Some(next_command) = parser.consume_command() {
            command = Some(next_command);
        }
        let letter = match command {
            Some(letter) => letter,
            None => {
                return None;
            },
        };
        let (kind, count, next): (SegmentKind, usize, Option<char>) = match letter {
            'M' => (SegmentKind::MoveTo, 2, Some('L')),
            'L' => (SegmentKind::LineTo, 2, Some('L')),
            'C' => (SegmentKind::CubicTo, 6, Some('C')),
            'Z' | 'z' => (SegmentKind::Close, 0, None),
            _ => {
                return None;
            },
        };
        let numbers = match parser.parse_numbers(count) {
            Some(numbers) => numbers,
            None => {
                return None;
            },
        };
        command = next;
        let segment = PathSegment { kind, numbers };
        segments.push(segment);
        proof {
            let step = segment_text(segment);
            assert(segment_texts(segments@) =~= segment_texts(found).push(step));
            if at < parser.index {
                if let Some(rest) = segments_from(data@, parser.index as int, next) {
                    assert(segment_texts(found) + (seq![step] + rest) =~= segment_texts(segments@)
                        + rest);
                }
            }
        }
    }
}

/// A text is found where it first occurs from the given place on, and only where it occurs.
pub proof fn law_first_occurrence_is_found(data: Seq<char>, needle: Seq<char>, from: int, at: int)
    requires
        0 <= from,
    ensures
        find(data, needle, from) matches Some(found) ==> {
            &&& from <= found && found + needle.len() <= data.len()
            &&& data.subrange(found, found + needle.len()) == needle
            &&& from <= at < found ==> data.subrange(at, at + needle.len()) != needle
        },
        find(data, needle, from) is None && from <= at && at + needle.len() <= data.len()
            ==> data.subrange(at, at + needle.len()) != needle,
    decreases data.len() + 1 - from,
{
    if from + needle.len() <= data.len() && data.subrange(from, from + needle.len()) != needle {
        law_first_occurrence_is_found(data, needle, from + 1, at);
    }
}

/// The path data of a picture stands between quotes behind a path's mark, and holds no quote.
pub proof fn law_path_data_stands_between_quotes(svg: Seq<char>, start: int, i: int)
    ensures
        path_data(svg) matches Some(data) ==> {
            &&& exists|at: int|
                8 <= at && at + data.len() < svg.len() && #[trigger] svg.subrange(
                    at,
                    at + data.len(),
                ) == data && svg[at - 3] == 'd' && svg[at - 2] == '=' && svg[at - 1] == '"' && svg[at
                    + data.len()] == '"'
            &&& 0 <= i < data.len() ==> data[i] != '"'
        },
        path_data(svg) is Some ==> find(svg, seq!['<', 'p', 'a', 't', 'h'], 0) is Some,
{
    reveal_strlit("<path");
    assert("<path"@ == seq!['<', 'p', 'a', 't', 'h']);
    if let Some(data) = path_data(svg) {
        let mark = seq!['d', '=', '"'];
        let path = find(svg, "<path"@, 0)->0;
        let attribute = find(svg, mark, path)->0;
        let end = find(svg, seq!['"'], attribute + 3)->0;
        law_first_occurrence_is_found(svg, "<path"@, 0, 0);
        law_first_occurrence_is_found(svg, mark, path, 0);
        law_first_occurrence_is_found(svg, seq!['"'], attribute + 3, attribute + 3 + i);
        let at = attribute + 3;
        assert(data == svg.subrange(at, end));
        assert(end == at + data.len());
        assert(svg.subrange(at, at + data.len()) == data);
        let marked = svg.subrange(attribute, attribute + 3);
        assert(marked[0] == 'd' && marked[1] == '=' && marked[2] == '"');
        if attribute < path + 5 {
            let opened = svg.subrange(path, path + 5);
            assert(opened == "<path"@);
            assert(opened[0] == '<' && opened[1] == 'p' && opened[2] == 'a' && opened[3] == 't'
                && opened[4] == 'h');
            assert(svg[attribute] == opened[attribute - path]);
            assert(svg[attribute] == marked[0]);
        }
        let quote = svg.subrange(end, end + 1);
        assert(quote[0] == '"');
        assert(svg[at - 3] == marked[0] && svg[at - 2] == marked[1] && svg[at - 1] == marked[2]);
        assert(svg[end] == quote[0]);
        if 0 <= i < data.len() {
            let single = svg.subrange(at + i, at + i + 1);
            if data[i] == '"' {
                assert(single == seq!['"']);
            }
        }
    }
}

/// A number reads to where it ends: it is the digits, points and leading sign that stand there, in
/// full, and the character after it is no digit and no point.
pub proof fn law_numbers_are_read_in_full(data: Seq<char>, at: int, i: int)
    requires
        0 <= at <= data.len(),
    ensures
        number_at(data, at) matches Some((number, end)) ==> {
            let start = end - number.len();
            &&& at <= start <= end <= data.len()
            &&& data.subrange(start, end) == number
            &&& at <= i < start ==> data[i] == ' ' || data[i] == '\t' || data[i] == '\n' || data[i]
                == '\r' || data[i] == '\x0C' || data[i] == ','
            &&& start <= i < end ==> '0' <= data[i] <= '9' || data[i] == '.' || (i == start && (
            data[i] == '+' || data[i] == '-'))
            &&& end < data.len() ==> !('0' <= data[end] <= '9') && data[end] != '.'
        },
{
    lemma_separators(data, at, i);
    let start = after_separators(data, at);
    lemma_number_end(data, start, start, i);
}

proof fn lemma_separators(data: Seq<char>, at: int, i: int)
    requires
        0 <= at <= data.len(),
    ensures
        at <= after_separators(data, at) <= data.len(),
        at <= i < after_separators(data, at) ==> is_separator(data[i]),
    decreases data.len() - at,
{
    if at < data.len() && is_separator(data[at]) {
        lemma_separators(data, at + 1, i);
    }
}

proof fn lemma_number_end(data: Seq<char>, start: int, at: int, i: int)
    requires
        0 <= start <= at <= data.len(),
    ensures
        at <= number_end(data, start, at) <= data.len(),
        at <= i < number_end(data, start, at) ==> is_digit(data[i]) || data[i] == '.' || (i == start
            && (data[i] == '+' || data[i] == '-')),
        number_end(data, start, at) < data.len() ==> !is_digit(
            data[number_end(data, start, at)],
        ) && data[number_end(data, start, at)] != '.',
    decreases data.len() - at,
{
    if at < data.len() && (is_digit(data[at]) || data[at] == '.' || (at == start && (data[at] == '+'
        || data[at] == '-'))) {
        lemma_number_end(data, start, at + 1, i);
    }
}

proof fn lemma_numbers_at(data: Seq<char>, at: int, count: nat)
    ensures
        numbers_at(data, at, count) matches Some((numbers, _)) ==> numbers.len() == count
            && forall|i: int| 0 <= i < numbers.len() ==> is_number(#[trigger] numbers[i]),
    decreases count,
{
    if count > 0 {
        lemma_numbers_at(data, at, (count - 1) as nat);
    }
}

/// A path moves and draws lines by two numbers each, draws curves by six and closes by none; every
/// number has a digit and one point at most.
pub proof fn law_segments_have_their_numbers(data: Seq<char>, at: int, command: Option<char>, i: int)
    ensures
        segments_from(data, at, command) matches Some(segments) ==> (0 <= i < segments.len() ==> {
            &&& segments[i].numbers.len() == match segments[i].kind {
                SegmentKind::MoveTo => 2nat,
                SegmentKind::LineTo => 2nat,
                SegmentKind::CubicTo => 6nat,
                SegmentKind::Close => 0nat,
            }
            &&& forall|n: int|
                0 <= n < segments[i].numbers.len() ==> is_number(
                    #[trigger] segments[i].numbers[n],
                )
        }),
    decreases data.len() - at,
{
    let start = after_separators(data, at);
    if start < data.len() {
        let lettered = is_letter(data[start]);
        let active = if lettered {
            Some(data[start])
        } else {
            command
        };
        let begin = if lettered {
            start + 1
        } else {
            start
        };
        if let Some(letter) = active {
            if let Some((kind, count, next)) = command_meaning(letter) {
                lemma_numbers_at(data, begin, count);
                if let Some((numbers, end)) = numbers_at(data, begin, count) {
                    if at < end && end <= data.len() {
                        law_segments_have_their_numbers(data, end, next, i - 1);
                    }
                }
            }
        }
    }
}

/// Letters mean what they stand for: a point to move to, whose further points are lines, a line, a
/// curve, or the end of an outline, which nothing follows without a letter. No other letter has a
/// meaning.
pub proof fn law_letters_mean_their_segments(letter: char)
    ensures
        command_meaning('M') == Some((SegmentKind::MoveTo, 2nat, Some('L'))),
        command_meaning('L') == Some((SegmentKind::LineTo, 2nat, Some('L'))),
        command_meaning('C') == Some((SegmentKind::CubicTo, 6nat, Some('C'))),
        command_meaning('Z') == Some((SegmentKind::Close, 0nat, None::<char>)),
        command_meaning('z') == command_meaning('Z'),
        command_meaning(letter) is Some <==> seq!['M', 'L', 'C', 'Z', 'z'].contains(letter),
{
    let letters = seq!['M', 'L', 'C', 'Z', 'z'];
    assert(letters[0] == 'M' && letters[1] == 'L' && letters[2] == 'C' && letters[3] == 'Z'
        && letters[4] == 'z');
}

/// A view box is four words without blanks in them, from the first quotes behind its mark.
pub proof fn law_view_box_has_four_words(svg: Seq<char>, field: int, i: int)
    ensures
        viewbox_texts(svg) matches Some(fields) ==> {
            &&& fields.len() == 4
            &&& 0 <= field < 4 ==> fields[field].len() > 0
            &&& 0 <= field < 4 && 0 <= i < fields[field].len() ==> ({
                let character = fields[field][i];
                character != ' ' && character != '\t' && character != '\n' && character != '\r'
                    && character != '\x0C'
            })
        },
        find(svg, "viewBox="@.push('"'), 0) is None ==> viewbox_texts(svg) is None,
{
    if let Some(attribute) = find(svg, "viewBox="@.push('"'), 0) {
        if let Some(end) = find(svg, seq!['"'], attribute + 9) {
            lemma_words(svg.subrange(attribute + 9, end), 4, field, i);
        }
    }
}

proof fn lemma_words(text: Seq<char>, count: nat, field: int, i: int)
    ensures
        words(text, 0, count) matches Some((found, end)) ==> {
            &&& found.len() == count
            &&& 0 <= end <= text.len()
            &&& 0 <= field < count ==> found[field].len() > 0
            &&& 0 <= field < count && 0 <= i < found[field].len() ==> !is_blank(found[field][i])
        },
    decreases count,
{
    if count > 0 {
        lemma_words(text, (count - 1) as nat, field, i);
        if let Some((found, end)) = words(text, 0, (count - 1) as nat) {
            lemma_word_start(text, end);
            let start = word_start(text, end);
            if start < text.len() {
                lemma_word_end(text, start, start + i);
            }
        }
    }
}

proof fn lemma_word_start(text: Seq<char>, at: int)
    requires
        0 <= at <= text.len(),
    ensures
        at <= word_start(text, at) <= text.len(),
        word_start(text, at) < text.len() ==> !is_blank(text[word_start(text, at)]),
    decreases text.len() - at,
{
    if at < text.len() && is_blank(text[at]) {
        lemma_word_start(text, at + 1);
    }
}

proof fn lemma_word_end(text: Seq<char>, at: int, i: int)
    requires
        0 <= at <= text.len(),
    ensures
        at <= word_end(text, at) <= text.len(),
        at < text.len() && !is_blank(text[at]) ==> at < word_end(text, at),
        at <= i < word_end(text, at) ==> !is_blank(text[i]),
    decreases text.len() - at,
{
    if at < text.len() && !is_blank(text[at]) {
        lemma_word_end(text, at + 1, i);
    }
}

} // verus!
