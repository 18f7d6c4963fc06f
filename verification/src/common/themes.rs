//! The list of themes that come with the program.

use crate::common::config;
use crate::common::config::validate_theme_name;
use crate::common::error::{Result, VeilaError};
use crate::common::path::FilePath;
use vstd::prelude::*;
use vstd::utf8;

verus! {

/// The bytes of `.toml`.
pub open spec fn theme_suffix() -> Seq<u8> {
    seq![46u8, 116u8, 111u8, 109u8, 108u8]
}

/// The name of the theme a file holds: the file name without `.toml`, where that leaves anything
/// and is text.
pub open spec fn theme_stem(file_name: Seq<u8>) -> Option<Seq<char>> {
    if file_name.len() > 5 && file_name.skip(file_name.len() - 5) == theme_suffix() {
        let stem = file_name.take(file_name.len() - 5);
        if utf8::valid_utf8(stem) {
            Some(utf8::decode_utf8(stem))
        } else {
            None
        }
    } else {
        None
    }
}

/// The themes that files hold, in the order of the files.
pub open spec fn theme_stems(files: Seq<FilePath>) -> Seq<Seq<char>>
    decreases files.len(),
{
    if files.len() == 0 {
        Seq::empty()
    } else {
        let rest = theme_stems(files.drop_last());
        match theme_stem(files.last()@) {
            Some(stem) => rest.push(stem),
            None => rest,
        }
    }
}

/// Whether a text comes before another one, by its first characters that differ; a text comes
/// after its own beginning.
pub open spec fn comes_before(a: Seq<char>, b: Seq<char>) -> bool
    decreases a.len(),
{
    if b.len() == 0 {
        false
    } else if a.len() == 0 {
        true
    } else if a[0] != b[0] {
        a[0] < b[0]
    } else {
        comes_before(a.skip(1), b.skip(1))
    }
}

pub open spec fn texts(names: Seq<String>) -> Seq<Seq<char>> {
    names.map_values(|name: String| name@)
}

/// Whether no name stands behind one that it comes before.
pub open spec fn in_order(names: Seq<Seq<char>>) -> bool {
    forall|i: int, j: int|
        0 <= i < j < names.len() ==> !comes_before(#[trigger] names[j], #[trigger] names[i])
}

proof fn lemma_order_is_asymmetric(a: Seq<char>, b: Seq<char>)
    ensures
        !(comes_before(a, b) && comes_before(b, a)),
    decreases a.len(),
{
    if a.len() > 0 && b.len() > 0 && a[0] == b[0] {
        lemma_order_is_asymmetric(a.skip(1), b.skip(1));
    }
}

/// If `b` does not come before `a`, and `c` does not come before `b`, then `c` does not come
/// before `a`.
proof fn lemma_order_is_transitive(a: Seq<char>, b: Seq<char>, c: Seq<char>)
    requires
        !comes_before(b, a),
        !comes_before(c, b),
    ensures
        !comes_before(c, a),
    decreases a.len(),
{
    if a.len() > 0 && b.len() > 0 && c.len() > 0 && a[0] == b[0] && b[0] == c[0] {
        lemma_order_is_transitive(a.skip(1), b.skip(1), c.skip(1));
    }
}

fn is_before(a: &str, b: &str) -> (before: bool)
    ensures
        before == comes_before(a@, b@),
{
    let a_length: usize = a.unicode_len();
    let b_length: usize = b.unicode_len();
    let mut index: usize = 0;
    assert(a@.skip(0) =~= a@);
    assert(b@.skip(0) =~= b@);
    while index < a_length && index < b_length
        invariant
            index <= a_length,
            index <= b_length,
            a_length == a@.len(),
            b_length == b@.len(),
            comes_before(a@, b@) == comes_before(a@.skip(index as int), b@.skip(index as int)),
        decreases a_length - index,
    {
        let ghost a_rest = a@.skip(index as int);
        let ghost b_rest = b@.skip(index as int);
        let first = a.get_char(index);
        let second = b.get_char(index);
        assert(a_rest[0] == first && b_rest[0] == second);
        if first != second {
            return first < second;
        }
        assert(a_rest.skip(1) =~= a@.skip(index + 1));
        assert(b_rest.skip(1) =~= b@.skip(index + 1));
        index += 1;
    }
    index < b_length
}

/// Puts a name where it belongs.
fn insert_in_order(names: &mut Vec<String>, name: String)
    requires
        in_order(texts(old(names)@)),
    ensures
        in_order(texts(final(names)@)),
        texts(final(names)@).to_multiset() == texts(old(names)@).to_multiset().insert(name@),
{
    let ghost before = names@;
    let ghost known = texts(before);
    let mut place: usize = names.len();
    while place > 0 && is_before(name.as_str(), names[place - 1].as_str())
        invariant
            place <= names@.len(),
            names@ == before,
            known == texts(before),
            in_order(known),
            forall|i: int| place <= i < known.len() ==> comes_before(name@, #[trigger] known[i]),
        decreases place,
    {
        assert(known[place - 1] == names@[place - 1]@);
        place -= 1;
    }
    proof {
        if place > 0 {
            assert(known[place - 1] == names@[place - 1]@);
            assert forall|i: int| 0 <= i < place implies !comes_before(
                name@,
                #[trigger] known[i],
            ) by {
                if i < place - 1 {
                    lemma_order_is_transitive(known[i], known[place - 1], name@);
                }
            }
        }
    }
    names.insert(place, name);
    proof {
        let after = texts(names@);
        assert(after =~= known.insert(place as int, name@));
        assert forall|i: int, j: int| 0 <= i < j < after.len() implies !comes_before(
            #[trigger] after[j],
            #[trigger] after[i],
        ) by {
            let at = place as int;
            if i == at {
                assert(after[j] == known[j - 1]);
                lemma_order_is_asymmetric(name@, known[j - 1]);
            } else if j == at {
                assert(after[i] == known[i]);
            } else {
                let left = if i < at {
                    i
                } else {
                    i - 1
                };
                let right = if j < at {
                    j
                } else {
                    j - 1
                };
                assert(after[i] == known[left] && after[j] == known[right]);
            }
        }
        vstd::seq_lib::to_multiset_insert(known, place as int, name@);
    }
}

fn read_stem(file_name: &FilePath) -> (stem: Option<String>)
    ensures
        match (stem, theme_stem(file_name@)) {
            (Some(stem), Some(words)) => stem@ == words,
            (None, None) => true,
            _ => false,
        },
{
    let length: usize = file_name.bytes.len();
    if length <= 5 {
        return None;
    }
    let start: usize = length - 5;
    let bytes = &file_name.bytes;
    let ghost suffix = file_name@.skip(start as int);
    assert(suffix.len() == 5);
    if bytes[start] != 46 || bytes[start + 1] != 116 || bytes[start + 2] != 111 || bytes[start + 3]
        != 109 || bytes[start + 4] != 108 {
        assert(suffix != theme_suffix()) by {
            assert(suffix[0] == bytes@[start as int]);
            assert(suffix[1] == bytes@[start + 1]);
            assert(suffix[2] == bytes@[start + 2]);
            assert(suffix[3] == bytes@[start + 3]);
            assert(suffix[4] == bytes@[start + 4]);
        }
        return None;
    }
    assert(suffix =~= theme_suffix());
    let mut stem: Vec<u8> = Vec::new();
    let mut index: usize = 0;
    while index < start
        invariant
            index <= start,
            start <= file_name@.len(),
            stem@ == file_name@.take(index as int),
            bytes@ == file_name@,
        decreases start - index,
    {
        stem.push(bytes[index]);
        assert(stem@ =~= file_name@.take(index + 1));
        index += 1;
    }
    match String::from_utf8(stem) {
        Ok(stem) => Some(stem),
        Err(_) => None,
    }
}

/// Whether every theme has a name that themes may have.
pub open spec fn all_valid(stems: Seq<Seq<char>>) -> bool {
    forall|i: int| 0 <= i < stems.len() ==> config::valid_theme_name(#[trigger] stems[i])
}

/// Whether the theme at this place is the first one of a name that themes may not have.
pub open spec fn first_invalid(stems: Seq<Seq<char>>, at: int) -> bool {
    &&& 0 <= at < stems.len()
    &&& !config::valid_theme_name(stems[at])
    &&& forall|i: int| 0 <= i < at ==> config::valid_theme_name(#[trigger] stems[i])
}

/// The themes among the files of a directory, in order; a theme of a name that themes may not
/// have is an error.
pub fn bundled_theme_names(files: &Vec<FilePath>) -> (result: Result<Vec<String>>)
    ensures
        match result {
            Ok(names) => all_valid(theme_stems(files@)) && in_order(texts(names@)) && texts(
                names@,
            ).to_multiset() == theme_stems(files@).to_multiset(),
            Err(error) => error matches VeilaError::InvalidThemeName(name) && exists|at: int|
                first_invalid(theme_stems(files@), at) && #[trigger] theme_stems(files@)[at] == name@,
        },
{
    let mut names: Vec<String> = Vec::new();
    let mut index: usize = 0;
    assert(files@.take(0) =~= Seq::empty());
    assert(texts(names@) =~= Seq::empty());
    while index < files.len()
        invariant
            index <= files@.len(),
            in_order(texts(names@)),
            all_valid(theme_stems(files@.take(index as int))),
            texts(names@).to_multiset() == theme_stems(files@.take(index as int)).to_multiset(),
        decreases files@.len() - index,
    {
        let ghost part = files@.take(index + 1);
        let ghost known = theme_stems(files@.take(index as int));
        assert(part.drop_last() =~= files@.take(index as int));
        if let Some(stem) = read_stem(&files[index]) {
            match validate_theme_name(stem.as_str()) {
                Ok(()) => {},
                Err(error) => {
                    proof {
                        lemma_stems_grow(files@, index + 1, files@.len() as int, known.len() as int);
                        assert(files@.take(files@.len() as int) =~= files@);
                        assert(theme_stems(part)[known.len() as int] == stem@);
                        assert forall|i: int| 0 <= i < known.len() implies
                            config::valid_theme_name(#[trigger] theme_stems(files@)[i]) by {
                            lemma_stems_grow(files@, index as int, files@.len() as int, i);
                            assert(config::valid_theme_name(known[i]));
                        }
                        assert(first_invalid(theme_stems(files@), known.len() as int));
                    }
                    return Err(error);
                },
            }
            proof {
                vstd::seq_lib::to_multiset_build(known, stem@);
                assert(theme_stems(part) == known.push(stem@));
                assert forall|i: int| 0 <= i < theme_stems(part).len() implies
                    config::valid_theme_name(#[trigger] theme_stems(part)[i]) by {
                    if i < known.len() {
                        assert(config::valid_theme_name(known[i]));
                    }
                }
            }
            insert_in_order(&mut names, stem);
        }
        index += 1;
    }
    assert(files@.take(index as int) =~= files@);
    Ok(names)
}

/// Themes that are found stay at their place as more files are looked at.
proof fn lemma_stems_grow(files: Seq<FilePath>, some: int, more: int, at: int)
    requires
        0 <= some <= more <= files.len(),
        0 <= at < theme_stems(files.take(some)).len(),
    ensures
        at < theme_stems(files.take(more)).len(),
        theme_stems(files.take(more))[at] == theme_stems(files.take(some))[at],
    decreases more - some,
{
    if some < more {
        lemma_stems_grow(files, some, more - 1, at);
        assert(files.take(more).drop_last() =~= files.take(more - 1));
    }
}

/// A file is a theme's where its name is the theme's name and the ending of a configuration file;
/// the theme goes by the rest of the name.
pub proof fn law_theme_files_are_named_after_their_theme(name: Seq<char>, file_name: Seq<u8>)
    ensures
        utf8::encode_utf8(name).len() > 0 ==> theme_stem(
            utf8::encode_utf8(name) + seq![46u8, 116u8, 111u8, 109u8, 108u8],
        ) == Some(name),
        theme_stem(file_name) == Some(name) ==> file_name == utf8::encode_utf8(name) + seq![
            46u8,
            116u8,
            111u8,
            109u8,
            108u8,
        ],
{
    let ending = seq![46u8, 116u8, 111u8, 109u8, 108u8];
    let stem = utf8::encode_utf8(name);
    let file = stem + ending;
    utf8::encode_utf8_valid_utf8(name);
    utf8::encode_utf8_decode_utf8(name);
    assert(file.skip(file.len() - 5) == ending);
    assert(file.take(file.len() - 5) == stem);
    if theme_stem(file_name) == Some(name) {
        let head = file_name.take(file_name.len() - 5);
        utf8::decode_utf8_encode_utf8(head);
        assert(file_name == head + file_name.skip(file_name.len() - 5));
    }
}

/// Names are in the order of their first difference; of two different names one comes first, and
/// the beginning of a name comes before it.
pub proof fn law_names_have_one_order(a: Seq<char>, b: Seq<char>, same: Seq<char>)
    ensures
        a != b ==> comes_before(a, b) != comes_before(b, a),
        !comes_before(a, a),
        comes_before(same + a, same + b) == comes_before(a, b),
        b.len() > 0 ==> comes_before(Seq::empty(), b),
    decreases a.len() + same.len(),
{
    lemma_order_is_asymmetric(a, a);
    if same.len() > 0 {
        law_names_have_one_order(a, b, same.skip(1));
        assert((same + a).skip(1) == same.skip(1) + a);
        assert((same + b).skip(1) == same.skip(1) + b);
    } else {
        assert(same + a == a);
        assert(same + b == b);
        if a.len() > 0 && b.len() > 0 {
            law_names_have_one_order(a.skip(1), b.skip(1), Seq::empty());
            law_names_have_one_order(a.skip(1), a.skip(1), Seq::empty());
            if a[0] == b[0] && a.skip(1) == b.skip(1) {
                assert(a == seq![a[0]] + a.skip(1));
                assert(b == seq![b[0]] + b.skip(1));
            }
        } else if a.len() == 0 && b.len() == 0 {
            assert(a == b);
        }
    }
}

} // verus!
