//! File paths as the bytes the system knows them by, and when two of them are the same.

use vstd::prelude::*;
use vstd::utf8;

verus! {

const SEPARATOR: u8 = 47;

const DOT: u8 = 46;

/// A file path. Two of them are equal where they have the same parts.
#[derive(Debug, Eq)]
pub struct FilePath {
    pub bytes: Vec<u8>,
}

/// Whether a path starts at the root.
pub open spec fn is_rooted(path: Seq<u8>) -> bool {
    path.len() > 0 && path[0] == 47u8
}

/// The number of bytes before the first separator.
pub open spec fn piece_len(path: Seq<u8>) -> nat
    decreases path.len(),
{
    if is_rooted(path) || path.len() == 0 {
        0
    } else {
        1 + piece_len(path.skip(1))
    }
}

/// Whether a piece between separators is a part of the path: an empty one is none, and a dot is
/// one only where a path begins with it.
pub open spec fn is_part(piece: Seq<u8>, leading: bool) -> bool {
    piece.len() > 0 && (leading || piece != seq![46u8])
}

/// The parts of a path below its root.
pub open spec fn pieces(path: Seq<u8>, leading: bool) -> Seq<Seq<u8>>
    decreases path.len(),
{
    let len = piece_len(path) as int;
    let rest = if 0 <= len < path.len() {
        pieces(path.skip(len + 1), false)
    } else {
        Seq::empty()
    };
    if is_part(path.take(len), leading) {
        seq![path.take(len)] + rest
    } else {
        rest
    }
}

/// Whether a path starts at the root, and its parts from there on.
pub open spec fn path_parts(path: Seq<u8>) -> (bool, Seq<Seq<u8>>) {
    (is_rooted(path), pieces(path, !is_rooted(path)))
}

/// Whether two paths are the same: repeated and closing separators make no difference, nor do
/// dots but one at the start.
pub open spec fn same_place(a: Seq<u8>, b: Seq<u8>) -> bool {
    path_parts(a) == path_parts(b)
}

/// Whether both paths are missing, or both are there and the same.
pub open spec fn same_places(a: Option<Seq<u8>>, b: Option<Seq<u8>>) -> bool {
    match (a, b) {
        (Some(a), Some(b)) => same_place(a, b),
        (None, None) => true,
        _ => false,
    }
}

proof fn lemma_piece_len(path: Seq<u8>)
    ensures
        piece_len(path) <= path.len(),
        piece_len(path) < path.len() ==> path[piece_len(path) as int] == 47u8,
        forall|i: int| 0 <= i < piece_len(path) ==> path[i] != 47u8,
    decreases path.len(),
{
    if !(is_rooted(path) || path.len() == 0) {
        lemma_piece_len(path.skip(1));
        assert forall|i: int| 0 <= i < piece_len(path) implies path[i] != 47u8 by {
            if i > 0 {
                assert(path.skip(1)[i - 1] == path[i]);
            }
        }
    }
}

proof fn lemma_piece_len_is(path: Seq<u8>, len: int)
    requires
        0 <= len <= path.len(),
        forall|i: int| 0 <= i < len ==> path[i] != 47u8,
        len < path.len() ==> path[len] == 47u8,
    ensures
        piece_len(path) == len,
{
    lemma_piece_len(path);
}

/// A path with another one appended: an absolute one takes its place, a relative one follows
/// after one separator.
pub open spec fn path_join(base: Seq<u8>, part: Seq<u8>) -> Seq<u8> {
    if part.len() > 0 && part[0] == 47u8 {
        part
    } else if base.len() > 0 && base.last() != 47u8 {
        base.push(47u8) + part
    } else {
        base + part
    }
}

/// A path without what closes it: separators, and dots behind them.
pub open spec fn trimmed(path: Seq<u8>) -> Seq<u8>
    decreases path.len(),
{
    if path.len() > 1 && (path.last() == 47u8 || (path.last() == 46u8 && path[path.len() - 2]
        == 47u8)) {
        trimmed(path.drop_last())
    } else {
        path
    }
}

/// A path up to its last separator, which is kept.
pub open spec fn up_to_separator(path: Seq<u8>) -> Seq<u8>
    decreases path.len(),
{
    if path.len() > 0 && path.last() != 47u8 {
        up_to_separator(path.drop_last())
    } else {
        path
    }
}

/// The path of the directory that holds a path; the root and the empty path lie in none.
pub open spec fn directory_of(path: Seq<u8>) -> Option<Seq<u8>> {
    if trimmed(path).len() == 0 || trimmed(path) == seq![47u8] {
        None
    } else {
        Some(trimmed(up_to_separator(trimmed(path))))
    }
}

/// The last part of a path, where that is a name.
pub open spec fn file_name_of(path: Seq<u8>) -> Option<Seq<u8>> {
    let name = trimmed(path).skip(up_to_separator(trimmed(path)).len() as int);
    if name.len() == 0 || name == seq![46u8] || name == seq![46u8, 46u8] {
        None
    } else {
        Some(name)
    }
}

/// A path of another name in the same directory; one that ends in no name has it appended.
pub open spec fn renamed(path: Seq<u8>, name: Seq<u8>) -> Seq<u8> {
    match (file_name_of(path), directory_of(path)) {
        (Some(_), Some(directory)) => path_join(directory, name),
        _ => path_join(path, name),
    }
}

proof fn lemma_trimmed_once(path: Seq<u8>)
    ensures
        trimmed(trimmed(path)) == trimmed(path),
        trimmed(path).len() <= path.len(),
    decreases path.len(),
{
    if path.len() > 1 && (path.last() == 47u8 || (path.last() == 46u8 && path[path.len() - 2]
        == 47u8)) {
        lemma_trimmed_once(path.drop_last());
    }
}

proof fn lemma_up_to_separator(path: Seq<u8>)
    ensures
        up_to_separator(path).len() <= path.len(),
        up_to_separator(path) == path.take(up_to_separator(path).len() as int),
        forall|i: int| up_to_separator(path).len() <= i < path.len() ==> path[i] != 47u8,
    decreases path.len(),
{
    if path.len() > 0 && path.last() != 47u8 {
        let shorter = path.drop_last();
        lemma_up_to_separator(shorter);
        assert(shorter.take(up_to_separator(path).len() as int) =~= path.take(
            up_to_separator(path).len() as int,
        ));
        assert forall|i: int| up_to_separator(path).len() <= i < path.len() implies path[i]
            != 47u8 by {
            if i < shorter.len() {
                assert(shorter[i] == path[i]);
            }
        }
    } else {
        assert(path.take(path.len() as int) =~= path);
    }
}

proof fn lemma_up_to_name(base: Seq<u8>, name: Seq<u8>)
    requires
        base.len() == 0 || base.last() == 47u8,
        forall|i: int| 0 <= i < name.len() ==> name[i] != 47u8,
    ensures
        up_to_separator(base + name) == base,
    decreases name.len(),
{
    if name.len() == 0 {
        assert(base + name =~= base);
    } else {
        assert((base + name).drop_last() =~= base + name.drop_last());
        assert((base + name).last() == name.last());
        lemma_up_to_name(base, name.drop_last());
    }
}

/// The last part of a path holds no separator.
pub proof fn lemma_file_name(path: Seq<u8>)
    requires
        file_name_of(path) is Some,
    ensures
        file_name_of(path)->0.len() > 0,
        forall|i: int|
            0 <= i < file_name_of(path)->0.len() ==> #[trigger] file_name_of(path)->0[i] != 47u8,
        directory_of(path) is Some,
        trimmed(directory_of(path)->0) == directory_of(path)->0,
{
    let end = trimmed(path);
    lemma_up_to_separator(end);
    lemma_trimmed_once(up_to_separator(end));
    if end == seq![47u8] {
        assert(end.last() == 47u8);
        assert(up_to_separator(end) == end);
    }
}

/// A name that is put into a directory is the file name there, and the directory holds it.
pub proof fn law_joined_name_lies_in_its_directory(directory: Seq<u8>, name: Seq<u8>)
    requires
        name.len() > 0,
        name != seq![46u8],
        name != seq![46u8, 46u8],
        forall|i: int| 0 <= i < name.len() ==> #[trigger] name[i] != 47u8,
    ensures
        directory_of(path_join(directory, name)) == Some(trimmed(directory)),
        file_name_of(path_join(directory, name)) == Some(name),
{
    let base = if directory.len() > 0 && directory.last() != 47u8 {
        directory.push(47u8)
    } else {
        directory
    };
    let path = base + name;
    assert(path_join(directory, name) == path);
    assert(path.last() == name.last() && name.last() != 47u8);
    if path.len() > 1 && path.last() == 46u8 {
        if name.len() == 1 {
            assert(name =~= seq![46u8]);
        } else {
            assert(path[path.len() - 2] == name[name.len() - 2]);
        }
    }
    assert(trimmed(path) == path);
    assert(path != seq![47u8]) by {
        assert(seq![47u8].last() == 47u8);
    }
    lemma_up_to_name(base, name);
    assert(path.skip(base.len() as int) =~= name);
    if base != directory {
        assert(base.drop_last() =~= directory);
    }
}

impl View for FilePath {
    type V = Seq<u8>;

    open spec fn view(&self) -> Seq<u8> {
        self.bytes@
    }
}

impl Clone for FilePath {
    fn clone(&self) -> (path: Self)
        ensures
            path@ == self@,
    {
        let mut bytes: Vec<u8> = Vec::new();
        bytes.extend_from_slice(self.bytes.as_slice());
        assert(bytes@ =~= self.bytes@);
        FilePath { bytes }
    }
}

impl FilePath {
    pub fn new(path: &str) -> (result: Self)
        ensures
            result@ == utf8::encode_utf8(path@),
    {
        let mut bytes: Vec<u8> = Vec::new();
        bytes.extend_from_slice(path.as_bytes());
        assert(bytes@ =~= utf8::encode_utf8(path@));
        FilePath { bytes }
    }

    /// Whether two paths are the same.
    pub fn same_as(&self, other: &FilePath) -> (same: bool)
        ensures
            same == same_place(self@, other@),
    {
        let rooted = self.bytes.len() > 0 && self.bytes[0] == SEPARATOR;
        let other_rooted = other.bytes.len() > 0 && other.bytes[0] == SEPARATOR;
        if rooted != other_rooted {
            return false;
        }
        let mut own: usize = 0;
        let mut its: usize = 0;
        let mut leading = !rooted;
        assert(self@.skip(0) =~= self@);
        assert(other@.skip(0) =~= other@);
        loop
            invariant
                own <= self@.len(),
                its <= other@.len(),
                rooted == is_rooted(self@),
                rooted == is_rooted(other@),
                (pieces(self@, !rooted) == pieces(other@, !rooted)) == (pieces(
                    self@.skip(own as int),
                    leading,
                ) == pieces(other@.skip(its as int), leading)),
            decreases self@.len() - own,
        {
            match (next_part(&self.bytes, own, leading), next_part(&other.bytes, its, leading)) {
                (None, None) => {
                    return true;
                },
                (Some(first), Some(second)) => {
                    let same = same_bytes(
                        &self.bytes,
                        first.0,
                        first.1,
                        &other.bytes,
                        second.0,
                        second.1,
                    );
                    proof {
                        lemma_first_parts(
                            self@.subrange(first.0 as int, first.1 as int),
                            pieces(self@.skip(first.1 as int), false),
                            other@.subrange(second.0 as int, second.1 as int),
                            pieces(other@.skip(second.1 as int), false),
                        );
                    }
                    if !same {
                        return false;
                    }
                    own = first.1;
                    its = second.1;
                    leading = false;
                },
                (Some(first), None) => {
                    assert(pieces(self@.skip(own as int), leading).len() > 0);
                    return false;
                },
                (None, Some(second)) => {
                    assert(pieces(other@.skip(its as int), leading).len() > 0);
                    return false;
                },
            }
        }
    }

    /// The length of the beginning of this path without what closes it.
    fn trimmed_len(&self, from: usize) -> (len: usize)
        requires
            from <= self@.len(),
        ensures
            len <= from,
            self@.take(len as int) == trimmed(self@.take(from as int)),
    {
        let mut len: usize = from;
        while len > 1 && (self.bytes[len - 1] == SEPARATOR || (self.bytes[len - 1] == DOT
            && self.bytes[len - 2] == SEPARATOR))
            invariant
                len <= from <= self@.len(),
                trimmed(self@.take(len as int)) == trimmed(self@.take(from as int)),
            decreases len,
        {
            assert(self@.take(len as int).drop_last() =~= self@.take(len - 1));
            len -= 1;
        }
        len
    }

    /// Where the last part of this path without what closes it starts and ends.
    fn last_part(&self) -> (place: (usize, usize))
        ensures
            place.0 <= place.1 <= self@.len(),
            self@.take(place.1 as int) == trimmed(self@),
            self@.take(place.0 as int) == up_to_separator(trimmed(self@)),
    {
        let end: usize = self.trimmed_len(self.bytes.len());
        assert(self@.take(self@.len() as int) =~= self@);
        let mut start: usize = end;
        while start > 0 && self.bytes[start - 1] != SEPARATOR
            invariant
                start <= end <= self@.len(),
                up_to_separator(self@.take(start as int)) == up_to_separator(
                    self@.take(end as int),
                ),
            decreases start,
        {
            assert(self@.take(start as int).drop_last() =~= self@.take(start - 1));
            start -= 1;
        }
        (start, end)
    }

    fn part(&self, start: usize, end: usize) -> (bytes: Vec<u8>)
        requires
            start <= end <= self@.len(),
        ensures
            bytes@ == self@.subrange(start as int, end as int),
    {
        let mut bytes: Vec<u8> = Vec::new();
        let mut index: usize = start;
        while index < end
            invariant
                start <= index <= end <= self@.len(),
                bytes@ == self@.subrange(start as int, index as int),
            decreases end - index,
        {
            bytes.push(self.bytes[index]);
            assert(bytes@ =~= self@.subrange(start as int, index + 1));
            index += 1;
        }
        bytes
    }

    /// The directory that holds this path.
    pub fn parent(&self) -> (directory: Option<FilePath>)
        ensures
            viewed(directory) == directory_of(self@),
    {
        let (start, end) = self.last_part();
        if end == 0 || (end == 1 && self.bytes[0] == SEPARATOR) {
            assert(end == 1 ==> trimmed(self@) =~= seq![47u8]);
            return None;
        }
        assert(trimmed(self@) != seq![47u8]) by {
            assert(trimmed(self@).len() == end);
            assert(end == 1 ==> trimmed(self@)[0] == self@[0]);
        }
        let len: usize = self.trimmed_len(start);
        let bytes = self.part(0, len);
        assert(bytes@ =~= self@.take(len as int));
        Some(FilePath { bytes })
    }

    /// The last part of this path, where that is a name.
    pub fn file_name(&self) -> (name: Option<Vec<u8>>)
        ensures
            match (name, file_name_of(self@)) {
                (Some(name), Some(bytes)) => name@ == bytes,
                (None, None) => true,
                _ => false,
            },
    {
        let (start, end) = self.last_part();
        let name = self.part(start, end);
        assert(name@ =~= trimmed(self@).skip(start as int));
        if name.len() == 0 || (name.len() == 1 && name[0] == DOT) || (name.len() == 2 && name[0]
            == DOT && name[1] == DOT) {
            assert(name@.len() == 1 ==> name@ =~= seq![46u8]);
            assert(name@.len() == 2 ==> name@ =~= seq![46u8, 46u8]);
            return None;
        }
        assert(name@ != seq![46u8] && name@ != seq![46u8, 46u8]) by {
            assert(seq![46u8][0] == 46u8);
            assert(seq![46u8, 46u8][0] == 46u8 && seq![46u8, 46u8][1] == 46u8);
        }
        Some(name)
    }

    /// A path of another name in the same directory.
    pub fn with_file_name(&self, name: &[u8]) -> (path: FilePath)
        ensures
            path@ == renamed(self@, name@),
    {
        match (self.file_name(), self.parent()) {
            (Some(_), Some(directory)) => directory.join_bytes(name),
            _ => self.join_bytes(name),
        }
    }

    /// Appends a path given as bytes.
    pub fn join_bytes(&self, part: &[u8]) -> (result: Self)
        ensures
            result@ == path_join(self@, part@),
    {
        let mut bytes: Vec<u8> = Vec::new();
        if !(part.len() > 0 && part[0] == SEPARATOR) {
            bytes.extend_from_slice(self.bytes.as_slice());
            if self.bytes.len() > 0 && self.bytes[self.bytes.len() - 1] != SEPARATOR {
                bytes.push(SEPARATOR);
            }
        }
        bytes.extend_from_slice(part);
        assert(bytes@ =~= path_join(self@, part@));
        FilePath { bytes }
    }

    /// Appends a path given as text.
    pub fn join(&self, part: &str) -> (result: Self)
        ensures
            result@ == path_join(self@, utf8::encode_utf8(part@)),
    {
        self.join_bytes(part.as_bytes())
    }
}

/// A path that may be missing, by its bytes.
pub open spec fn viewed(path: Option<FilePath>) -> Option<Seq<u8>> {
    match path {
        Some(path) => Some(path@),
        None => None,
    }
}

/// A path that may be missing, by its bytes.
pub open spec fn optional_bytes(path: Option<&FilePath>) -> Option<Seq<u8>> {
    match path {
        Some(path) => Some(path@),
        None => None,
    }
}

/// Finds the first part of a path from a place on: where it starts and where it ends.
fn next_part(path: &Vec<u8>, from: usize, leading: bool) -> (found: Option<(usize, usize)>)
    requires
        from <= path@.len(),
    ensures
        match found {
            Some((start, end)) => from <= start < end <= path@.len() && pieces(
                path@.skip(from as int),
                leading,
            ) == seq![path@.subrange(start as int, end as int)] + pieces(
                path@.skip(end as int),
                false,
            ),
            None => pieces(path@.skip(from as int), leading) == Seq::<Seq<u8>>::empty(),
        },
{
    let length: usize = path.len();
    let mut start: usize = from;
    let mut first = leading;
    loop
        invariant
            from <= start <= length,
            length == path@.len(),
            pieces(path@.skip(from as int), leading) == pieces(path@.skip(start as int), first),
        decreases length - start,
    {
        let mut end: usize = start;
        while end < length && path[end] != SEPARATOR
            invariant
                start <= end <= length,
                length == path@.len(),
                forall|i: int| start <= i < end ==> path@[i] != 47u8,
            decreases length - end,
        {
            end += 1;
        }
        let ghost rest = path@.skip(start as int);
        proof {
            assert forall|i: int| 0 <= i < end - start implies rest[i] != 47u8 by {
                assert(rest[i] == path@[start + i]);
            }
            lemma_piece_len_is(rest, end - start);
            assert(rest.take(end - start) =~= path@.subrange(start as int, end as int));
            lemma_after_part(path@, end as int);
            if end < length {
                assert(rest.skip(end - start + 1) =~= path@.skip(end + 1));
            }
        }
        let dot = end - start == 1 && path[start] == DOT;
        proof {
            let piece = path@.subrange(start as int, end as int);
            if dot {
                assert(piece =~= seq![46u8]);
            } else if piece == seq![46u8] {
                assert(piece.len() == 1 && piece[0] == 46u8);
            }
        }
        if end > start && (first || !dot) {
            return Some((start, end));
        }
        if end == length {
            return None;
        }
        start = end + 1;
        first = false;
    }
}

/// Behind a part there is a separator or nothing, which adds no part.
proof fn lemma_after_part(path: Seq<u8>, end: int)
    requires
        0 <= end <= path.len(),
        end < path.len() ==> path[end] == 47u8,
    ensures
        pieces(path.skip(end), false) == if end < path.len() {
            pieces(path.skip(end + 1), false)
        } else {
            Seq::empty()
        },
{
    let rest = path.skip(end);
    lemma_piece_len_is(rest, 0);
    assert(rest.take(0).len() == 0);
    if end < path.len() {
        assert(rest.skip(1) =~= path.skip(end + 1));
    }
}

proof fn lemma_first_parts(a: Seq<u8>, rest: Seq<Seq<u8>>, b: Seq<u8>, others: Seq<Seq<u8>>)
    ensures
        (seq![a] + rest == seq![b] + others) == (a == b && rest == others),
{
    if seq![a] + rest == seq![b] + others {
        assert((seq![a] + rest)[0] == a);
        assert((seq![b] + others)[0] == b);
        assert(rest =~= (seq![a] + rest).skip(1));
        assert(others =~= (seq![b] + others).skip(1));
    }
}

fn same_bytes(
    a: &Vec<u8>,
    start: usize,
    end: usize,
    b: &Vec<u8>,
    other_start: usize,
    other_end: usize,
) -> (same: bool)
    requires
        start <= end <= a@.len(),
        other_start <= other_end <= b@.len(),
    ensures
        same == (a@.subrange(start as int, end as int) == b@.subrange(
            other_start as int,
            other_end as int,
        )),
{
    let ghost left = a@.subrange(start as int, end as int);
    let ghost right = b@.subrange(other_start as int, other_end as int);
    if end - start != other_end - other_start {
        assert(left.len() != right.len());
        return false;
    }
    let length: usize = end - start;
    let mut index: usize = 0;
    while index < length
        invariant
            index <= length,
            length == end - start,
            length == other_end - other_start,
            start <= end <= a@.len(),
            other_start <= other_end <= b@.len(),
            left == a@.subrange(start as int, end as int),
            right == b@.subrange(other_start as int, other_end as int),
            forall|i: int| 0 <= i < index ==> left[i] == right[i],
        decreases length - index,
    {
        if a[start + index] != b[other_start + index] {
            assert(left[index as int] != right[index as int]);
            return false;
        }
        index += 1;
    }
    assert(left =~= right);
    true
}

/// Whether both paths are missing, or both are there and the same.
pub fn same_optional(a: Option<&FilePath>, b: Option<&FilePath>) -> (same: bool)
    ensures
        same == same_places(optional_bytes(a), optional_bytes(b)),
{
    match (a, b) {
        (Some(a), Some(b)) => a.same_as(b),
        (None, None) => true,
        _ => false,
    }
}

impl PartialEq for FilePath {
    fn eq(&self, other: &Self) -> (same: bool) {
        self.same_as(other)
    }
}

impl vstd::std_specs::cmp::PartialEqSpecImpl for FilePath {
    open spec fn obeys_eq_spec() -> bool {
        true
    }

    open spec fn eq_spec(&self, other: &Self) -> bool {
        same_place(self@, other@)
    }
}

/// A name is joined behind one separator; a part that starts at the root stands for itself.
pub proof fn law_names_are_joined_behind_one_separator(base: Seq<u8>, part: Seq<u8>)
    requires
        part.len() > 0,
    ensures
        part[0] == 47u8 ==> path_join(base, part) == part,
        part[0] != 47u8 && base.len() > 0 && base.last() != 47u8 ==> path_join(base, part) == base
            + seq![47u8] + part,
        part[0] != 47u8 && base.len() > 0 && base.last() == 47u8 ==> path_join(base, part) == base
            + part,
        part[0] != 47u8 && base.len() == 0 ==> path_join(base, part) == part,
{
}

/// A file that is renamed stays in its directory, under its new name.
pub proof fn law_renamed_file_stays_in_its_directory(path: Seq<u8>, name: Seq<u8>)
    requires
        file_name_of(path) is Some,
        name.len() > 0,
        name != seq![46u8],
        name != seq![46u8, 46u8],
        forall|i: int| 0 <= i < name.len() ==> #[trigger] name[i] != 47u8,
    ensures
        directory_of(renamed(path, name)) == directory_of(path),
        file_name_of(renamed(path, name)) == Some(name),
{
    lemma_file_name(path);
    law_joined_name_lies_in_its_directory(directory_of(path)->0, name);
}

/// Further separators, and points that stand for the same directory, between the parts of a path do
/// not change the place; whether it starts at the root does.
pub proof fn law_empty_parts_do_not_matter(head: Seq<u8>, tail: Seq<u8>)
    ensures
        same_place(head + seq![47u8, 47u8] + tail, head + seq![47u8] + tail),
        same_place(head + seq![47u8, 46u8, 47u8] + tail, head + seq![47u8] + tail),
        same_place(head, tail) ==> is_rooted(head) == is_rooted(tail),
{
    let plain = head + seq![47u8] + tail;
    lemma_empty_parts(head, tail, !is_rooted(plain));
    if head.len() > 0 {
        assert(plain[0] == head[0]);
    }
}

proof fn lemma_empty_parts(head: Seq<u8>, tail: Seq<u8>, leading: bool)
    ensures
        pieces(head + seq![47u8, 47u8] + tail, leading) == pieces(head + seq![47u8] + tail, leading),
        pieces(head + seq![47u8, 46u8, 47u8] + tail, leading) == pieces(
            head + seq![47u8] + tail,
            leading,
        ),
    decreases head.len(),
{
    let plain = head + seq![47u8] + tail;
    let doubled = head + seq![47u8, 47u8] + tail;
    let dotted = head + seq![47u8, 46u8, 47u8] + tail;
    lemma_piece_len(head);
    let len = piece_len(head) as int;
    lemma_piece_len_is(plain, len);
    lemma_piece_len_is(doubled, len);
    lemma_piece_len_is(dotted, len);
    assert(plain.take(len) == head.take(len));
    assert(doubled.take(len) == head.take(len));
    assert(dotted.take(len) == head.take(len));
    if len < head.len() {
        let rest = head.skip(len + 1);
        assert(plain.skip(len + 1) == rest + seq![47u8] + tail);
        assert(doubled.skip(len + 1) == rest + seq![47u8, 47u8] + tail);
        assert(dotted.skip(len + 1) == rest + seq![47u8, 46u8, 47u8] + tail);
        lemma_empty_parts(rest, tail, false);
    } else {
        let one = seq![47u8] + tail;
        let two = seq![46u8, 47u8] + tail;
        assert(plain.skip(len + 1) == tail);
        assert(doubled.skip(len + 1) == one);
        assert(dotted.skip(len + 1) == two);
        lemma_piece_len_is(one, 0);
        lemma_piece_len_is(two, 1);
        assert(one.skip(1) == tail);
        assert(two.skip(2) == tail);
        assert(two.take(1) == seq![46u8]);
        assert(pieces(one, false) == pieces(tail, false));
        assert(pieces(two, false) == pieces(tail, false));
    }
}

} // verus!
