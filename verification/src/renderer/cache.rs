//! The form in which decoded pictures are kept on disk, and the names of their files.

use crate::common::path;
use crate::common::path::FilePath;
use crate::common::text;
use crate::renderer::frame;
use crate::renderer::frame::{FrameSize, RendererError, Result};
use vstd::prelude::*;
use vstd::utf8;

verus! {

/// A picture as straight RGBA bytes.
#[derive(Debug, PartialEq, Eq)]
pub struct RgbaPixels {
    pub width: u32,
    pub height: u32,
    pub data: Vec<u8>,
}

impl RgbaPixels {
    pub open spec fn size_spec(&self) -> FrameSize {
        FrameSize { width: self.width, height: self.height }
    }

    /// There are four bytes for each pixel.
    pub open spec fn wf(&self) -> bool {
        self.data@.len() == frame::frame_bytes(self.size_spec())
    }
}

/// A number as four bytes, the lowest first.
pub open spec fn le_bytes(value: u32) -> Seq<u8> {
    seq![
        (value % 256) as u8,
        (value / 256 % 256) as u8,
        (value / 65_536 % 256) as u8,
        (value / 16_777_216) as u8,
    ]
}

/// The number that four bytes hold, the lowest first.
pub open spec fn le_value(bytes: Seq<u8>) -> u32 {
    (bytes[0] + bytes[1] * 256 + bytes[2] * 65_536 + bytes[3] * 16_777_216) as u32
}

/// A picture as it stands in a cache file: the mark of the format, the size and the pixels.
pub open spec fn cache_bytes(magic: Seq<u8>, width: u32, height: u32, data: Seq<u8>) -> Seq<u8> {
    magic + le_bytes(width) + le_bytes(height) + data
}

/// The mark of a cached source picture.
pub open spec fn source_magic() -> Seq<u8> {
    seq![75u8, 87u8, 89u8, 73u8, 77u8, 71u8, 48u8, 49u8]
}

/// The mark of a cached avatar.
pub open spec fn avatar_magic() -> Seq<u8> {
    seq![86u8, 69u8, 73u8, 76u8, 65u8, 86u8, 65u8, 49u8]
}

/// The size that a cache file states.
pub open spec fn cached_size(file: Seq<u8>) -> FrameSize {
    FrameSize {
        width: le_value(file.subrange(8, 12)),
        height: le_value(file.subrange(12, 16)),
    }
}

fn push_le_bytes(bytes: &mut Vec<u8>, value: u32)
    ensures
        final(bytes)@ == old(bytes)@ + le_bytes(value),
{
    bytes.push((value % 256) as u8);
    bytes.push((value / 256 % 256) as u8);
    bytes.push((value / 65_536 % 256) as u8);
    bytes.push((value / 16_777_216) as u8);
    assert(bytes@ =~= old(bytes)@ + le_bytes(value));
}

fn read_le_bytes(bytes: &[u8], at: usize) -> (value: u32)
    requires
        at + 4 <= bytes@.len(),
    ensures
        value == le_value(bytes@.subrange(at as int, at + 4)),
{
    let length: usize = bytes.len();
    let ghost part = bytes@.subrange(at as int, at + 4);
    assert(part[0] == bytes@[at as int] && part[1] == bytes@[at + 1] && part[2] == bytes@[at + 2]
        && part[3] == bytes@[at + 3]);
    bytes[at] as u32 + bytes[at + 1] as u32 * 256 + bytes[at + 2] as u32 * 65_536 + bytes[at + 3]
        as u32 * 16_777_216
}

/// Four bytes hold the number that was written into them.
pub proof fn lemma_le_round_trip(value: u32)
    ensures
        le_value(le_bytes(value)) == value,
{
    let a = value % 256;
    let b = value / 256 % 256;
    let c = value / 65_536 % 256;
    let d = value / 16_777_216;
    assert(a + b * 256 + c * 65_536 + d * 16_777_216 == value);
}

/// The bytes of a cache file.
fn encode_cached(magic: &[u8], width: u32, height: u32, data: &[u8]) -> (file: Vec<u8>)
    ensures
        file@ == cache_bytes(magic@, width, height, data@),
{
    let mut file: Vec<u8> = Vec::new();
    file.extend_from_slice(magic);
    push_le_bytes(&mut file, width);
    push_le_bytes(&mut file, height);
    file.extend_from_slice(data);
    assert(file@ =~= cache_bytes(magic@, width, height, data@));
    file
}

/// What a cache file turns out to be.
#[derive(Debug, PartialEq, Eq)]
pub enum CacheRead {
    /// A picture.
    Picture(RgbaPixels),
    /// Another format: it is not used.
    Foreign,
    /// A size that no frame can have.
    Unusable(FrameSize),
    /// The file ends too early.
    Truncated,
}

/// The message for a file that ends too early.
pub const TRUNCATED_MESSAGE: &'static str = "failed to fill whole buffer";

/// Whether a cache file was read as it has to be.
pub open spec fn reads_as(read: CacheRead, magic: Seq<u8>, file: Seq<u8>) -> bool {
    if file.len() < 16 {
        read is Truncated
    } else if file.take(8) != magic {
        read is Foreign
    } else {
        let size = cached_size(file);
        let len = frame::frame_bytes(size);
        if len > usize::MAX {
            read == CacheRead::Unusable(size)
        } else if file.len() < 16 + len {
            read is Truncated
        } else {
            read matches CacheRead::Picture(picture) && picture.width == size.width
                && picture.height == size.height && picture.data@ == file.subrange(
                16,
                16 + len as int,
            )
        }
    }
}

/// Reads a cache file.
fn decode_cached(magic: &[u8], file: &[u8]) -> (read: CacheRead)
    requires
        magic@.len() == 8,
    ensures
        reads_as(read, magic@, file@),
{
    let total: usize = file.len();
    if total < 16 {
        return CacheRead::Truncated;
    }
    let mut index: usize = 0;
    while index < 8
        invariant
            index <= 8,
            magic@.len() == 8,
            total == file@.len(),
            total >= 16,
            forall|i: int| 0 <= i < index ==> file@[i] == magic@[i],
        decreases 8 - index,
    {
        if file[index] != magic[index] {
            assert(file@.take(8)[index as int] != magic@[index as int]);
            return CacheRead::Foreign;
        }
        index += 1;
    }
    assert(file@.take(8) =~= magic@);
    let size = FrameSize::new(read_le_bytes(file, 8), read_le_bytes(file, 12));
    let byte_len: usize = match size.byte_len() {
        Some(byte_len) => byte_len,
        None => {
            return CacheRead::Unusable(size);
        },
    };
    if total - 16 < byte_len {
        return CacheRead::Truncated;
    }
    let data = vstd::slice::slice_to_vec(
        vstd::slice::slice_subrange(file, 16, 16 + byte_len),
    );
    CacheRead::Picture(RgbaPixels { width: size.width, height: size.height, data })
}

/// The bytes of the cache file for a decoded source picture.
pub fn encode_source_cache(image: &RgbaPixels) -> (file: Vec<u8>)
    ensures
        file@ == cache_bytes(source_magic(), image.width, image.height, image.data@),
{
    let magic: [u8; 8] = [75, 87, 89, 73, 77, 71, 48, 49];
    assert(magic@ =~= source_magic());
    encode_cached(magic.as_slice(), image.width, image.height, image.data.as_slice())
}

/// The picture in a cache file, nothing where the file is of another format.
pub fn decode_source_cache(file: &[u8]) -> (result: Result<Option<RgbaPixels>>)
    ensures
        exists|read: CacheRead|
            #![trigger reads_as(read, source_magic(), file@)]
            reads_as(read, source_magic(), file@) && match read {
                CacheRead::Picture(picture) => result == Ok::<Option<RgbaPixels>, RendererError>(
                    Some(picture),
                ),
                CacheRead::Foreign => result == Ok::<Option<RgbaPixels>, RendererError>(None),
                CacheRead::Unusable(size) => result == Err::<Option<RgbaPixels>, RendererError>(
                    RendererError::InvalidFrameSize(size),
                ),
                CacheRead::Truncated => result matches Err(RendererError::Image(message))
                    && message@ == TRUNCATED_MESSAGE@,
            },
{
    let magic: [u8; 8] = [75, 87, 89, 73, 77, 71, 48, 49];
    assert(magic@ =~= source_magic());
    let read = decode_cached(magic.as_slice(), file);
    assert(reads_as(read, source_magic(), file@));
    match read {
        CacheRead::Picture(picture) => Ok(Some(picture)),
        CacheRead::Foreign => Ok(None),
        CacheRead::Unusable(size) => Err(RendererError::InvalidFrameSize(size)),
        CacheRead::Truncated => Err(RendererError::Image(TRUNCATED_MESSAGE.to_owned())),
    }
}

/// The bytes of the cache file for an avatar.
pub(crate) fn encode_avatar_cache(width: u32, height: u32, data: &[u8]) -> (file: Vec<u8>)
    ensures
        file@ == cache_bytes(avatar_magic(), width, height, data@),
{
    let magic: [u8; 8] = [86, 69, 73, 76, 65, 86, 65, 49];
    assert(magic@ =~= avatar_magic());
    encode_cached(magic.as_slice(), width, height, data)
}

/// Reads the cache file of an avatar.
pub(crate) fn read_avatar_cache(file: &[u8]) -> (read: CacheRead)
    ensures
        reads_as(read, avatar_magic(), file@),
{
    let magic: [u8; 8] = [86, 69, 73, 76, 65, 86, 65, 49];
    assert(magic@ =~= avatar_magic());
    decode_cached(magic.as_slice(), file)
}

/// A picture that was written to a cache file is read back as it was.
pub proof fn law_cached_picture_is_read_back(
    magic: Seq<u8>,
    width: u32,
    height: u32,
    data: Seq<u8>,
    read: CacheRead,
)
    requires
        magic.len() == 8,
        data.len() == frame::frame_bytes(FrameSize { width, height }),
        data.len() <= usize::MAX,
        reads_as(read, magic, cache_bytes(magic, width, height, data)),
    ensures
        read matches CacheRead::Picture(picture) && picture.width == width && picture.height
            == height && picture.data@ == data,
{
    let file = cache_bytes(magic, width, height, data);
    assert(file.take(8) =~= magic);
    assert(file.subrange(8, 12) =~= le_bytes(width));
    assert(file.subrange(12, 16) =~= le_bytes(height));
    lemma_le_round_trip(width);
    lemma_le_round_trip(height);
    assert(file.subrange(16, 16 + data.len() as int) =~= data);
}

/// The hash of the bytes so far, with one more byte taken in.
pub open spec fn hash_step(hash: u64, byte: u8) -> u64 {
    (((hash ^ (byte as u64)) as int * 0x100000001b3) % 0x1_0000_0000_0000_0000) as u64
}

/// The 64-bit FNV-1a hash.
pub open spec fn fnv1a(bytes: Seq<u8>) -> u64
    decreases bytes.len(),
{
    if bytes.len() == 0 {
        0xcbf29ce484222325u64
    } else {
        hash_step(fnv1a(bytes.drop_last()), bytes.last())
    }
}

/// A hash that stays the same from run to run.
pub fn stable_hash(input: &str) -> (hash: u64)
    ensures
        hash == fnv1a(utf8::encode_utf8(input@)),
{
    let bytes: &[u8] = input.as_bytes();
    let mut hash: u64 = 0xcbf29ce484222325;
    let mut index: usize = 0;
    assert(bytes@.take(0) =~= Seq::<u8>::empty());
    while index < bytes.len()
        invariant
            index <= bytes@.len(),
            hash == fnv1a(bytes@.take(index as int)),
        decreases bytes@.len() - index,
    {
        let byte: u8 = bytes[index];
        let mixed: u64 = hash ^ (byte as u64);
        let product: u128 = mixed as u128 * 0x100000001b3;
        hash = (product % 0x1_0000_0000_0000_0000) as u64;
        index += 1;
        proof {
            assert(bytes@.take(index as int).drop_last() =~= bytes@.take(index - 1));
            assert(bytes@.take(index as int).last() == byte);
        }
    }
    assert(bytes@.take(index as int) =~= bytes@);
    hash
}

/// What tells a cached source picture apart: its path, its length and its age.
pub open spec fn source_cache_key(path: Seq<char>, len: nat, modified: nat) -> Seq<char> {
    path + ":"@ + text::decimal(len) + ":"@ + text::decimal(modified)
}

/// The file name for a cache key.
pub open spec fn cache_file_name(key: Seq<char>) -> Seq<char> {
    text::hex(fnv1a(utf8::encode_utf8(key)) as nat, 16) + ".rgba"@
}

fn cache_file_for(key: &str) -> (name: String)
    ensures
        name@ == cache_file_name(key@),
{
    let mut name = text::hex_text(stable_hash(key), 16);
    name.append(".rgba");
    name
}

/// The file name under which a source picture is cached.
pub fn source_cache_name(path: &str, len: u64, modified: u64) -> (name: String)
    ensures
        name@ == cache_file_name(source_cache_key(path@, len as nat, modified as nat)),
{
    let mut key = text::joined(path, ":");
    key.append(text::decimal_text(len as u128).as_str());
    key.append(":");
    key.append(text::decimal_text(modified as u128).as_str());
    cache_file_for(key.as_str())
}

/// The file name under which an avatar is cached; the largest prepared size is part of the key.
pub fn avatar_cache_name(path: &str, len: u64, modified: u64, max_size: u32) -> (name: String)
    ensures
        name@ == cache_file_name(
            source_cache_key(path@, len as nat, modified as nat) + ":"@ + text::decimal(
                max_size as nat,
            ),
        ),
{
    let mut key = text::joined(path, ":");
    key.append(text::decimal_text(len as u128).as_str());
    key.append(":");
    key.append(text::decimal_text(modified as u128).as_str());
    key.append(":");
    key.append(text::decimal_text(max_size as u128).as_str());
    cache_file_for(key.as_str())
}

/// The directory that caches go into: below an explicit root, else the cache root of the
/// environment, else the home directory.
pub open spec fn cache_directory(
    explicit: Option<Seq<u8>>,
    cache_home: Option<Seq<u8>>,
    home: Option<Seq<u8>>,
    name: Seq<char>,
) -> Option<Seq<u8>> {
    let base = match (explicit, cache_home, home) {
        (Some(base), _, _) => Some(base),
        (None, Some(base), _) => Some(base),
        (None, None, Some(home)) => Some(
            path::path_join(home, utf8::encode_utf8(".cache"@)),
        ),
        (None, None, None) => None,
    };
    match base {
        Some(base) => Some(
            path::path_join(
                path::path_join(base, utf8::encode_utf8("veila"@)),
                utf8::encode_utf8(name),
            ),
        ),
        None => None,
    }
}

pub open spec fn viewed(path: Option<FilePath>) -> Option<Seq<u8>> {
    match path {
        Some(path) => Some(path@),
        None => None,
    }
}

/// The directory of a cache; `name` is its own part. Without any root there is none.
pub fn cache_root(
    explicit: Option<FilePath>,
    cache_home: Option<FilePath>,
    home: Option<FilePath>,
    name: &str,
) -> (root: core::result::Result<FilePath, String>)
    ensures
        match (
            root,
            cache_directory(viewed(explicit), viewed(cache_home), viewed(home), name@),
        ) {
            (Ok(path), Some(bytes)) => path@ == bytes,
            (Err(message), None) => message@ == "failed to resolve XDG cache directory"@,
            _ => false,
        },
{
    let base = match explicit {
        Some(base) => base,
        None => match cache_home {
            Some(base) => base,
            None => match home {
                Some(home) => home.join(".cache"),
                None => {
                    return Err("failed to resolve XDG cache directory".to_owned());
                },
            },
        },
    };
    Ok(base.join("veila").join(name))
}

/// The name under which a cache file is written before it takes its place; the fallback stands
/// for a file name that is missing or no text.
pub open spec fn temporary_cache_name(path: Seq<u8>, fallback: Seq<char>) -> Seq<char> {
    "."@ + match path::file_name_of(path) {
        Some(name) => if utf8::valid_utf8(name) {
            utf8::decode_utf8(name)
        } else {
            fallback
        },
        None => fallback,
    } + ".tmp"@
}

/// Where a cache file is written before it takes its place in the same directory. A path without
/// a directory has no such place.
pub fn temporary_cache_path(cache_path: &FilePath, fallback: &str) -> (path: Option<FilePath>)
    ensures
        path::viewed(path) == match path::directory_of(cache_path@) {
            Some(directory) => Some(
                path::path_join(
                    directory,
                    utf8::encode_utf8(temporary_cache_name(cache_path@, fallback@)),
                ),
            ),
            None => None,
        },
{
    let directory = match cache_path.parent() {
        Some(directory) => directory,
        None => {
            return None;
        },
    };
    let mut name = match cache_path.file_name() {
        Some(name) => match String::from_utf8(name) {
            Ok(name) => text::joined(".", name.as_str()),
            Err(_) => text::joined(".", fallback),
        },
        None => text::joined(".", fallback),
    };
    name.append(".tmp");
    Some(directory.join(name.as_str()))
}

/// Sizes are written with the lowest byte first, after the eight bytes that tell the format, and
/// the pixels follow; the two formats are told apart by the first bytes.
pub proof fn law_cached_picture_is_laid_out(
    magic: Seq<u8>,
    width: u32,
    height: u32,
    data: Seq<u8>,
)
    requires
        magic.len() == 8,
    ensures
        ({
            let file = cache_bytes(magic, width, height, data);
            &&& file.len() == 16 + data.len()
            &&& file.take(8) == magic
            &&& file[8] + file[9] * 256 + file[10] * 65_536 + file[11] * 16_777_216 == width
            &&& file[12] + file[13] * 256 + file[14] * 65_536 + file[15] * 16_777_216 == height
            &&& file.skip(16) == data
        }),
        source_magic() != avatar_magic(),
        source_magic().len() == 8,
        avatar_magic().len() == 8,
{
    let file = cache_bytes(magic, width, height, data);
    assert(source_magic()[0] != avatar_magic()[0]);
    assert(file.take(8) == magic);
    assert(file.skip(16) == data);
    let w = le_bytes(width);
    let h = le_bytes(height);
    assert(file[8] == w[0] && file[9] == w[1] && file[10] == w[2] && file[11] == w[3]);
    assert(file[12] == h[0] && file[13] == h[1] && file[14] == h[2] && file[15] == h[3]);
}

/// A file that is cut short is not read as a picture, and neither is one of the other format.
pub proof fn law_damaged_cache_is_not_used(
    magic: Seq<u8>,
    other: Seq<u8>,
    width: u32,
    height: u32,
    data: Seq<u8>,
    cut: int,
    read: CacheRead,
)
    requires
        magic.len() == 8,
        other.len() == 8,
        data.len() == frame::frame_bytes(FrameSize { width, height }),
        data.len() <= usize::MAX,
    ensures
        0 <= cut < 16 + data.len() && reads_as(
            read,
            magic,
            cache_bytes(magic, width, height, data).take(cut),
        ) ==> read is Truncated,
        other != magic && reads_as(read, magic, cache_bytes(other, width, height, data))
            ==> read is Foreign,
{
    let file = cache_bytes(magic, width, height, data);
    if 0 <= cut < 16 + data.len() {
        let part = file.take(cut);
        if cut >= 16 {
            assert(part.take(8) == magic);
            assert(part.subrange(8, 12) == le_bytes(width));
            assert(part.subrange(12, 16) == le_bytes(height));
            lemma_le_round_trip(width);
            lemma_le_round_trip(height);
            assert(cached_size(part) == (FrameSize { width, height }));
        }
    }
    assert(cache_bytes(other, width, height, data).take(8) == other);
}

/// The name for a file's picture goes by a key that changes with the file's size and its time.
pub proof fn law_changed_files_go_by_another_key(
    path: Seq<char>,
    len: nat,
    modified: nat,
    other_len: nat,
    other_modified: nat,
)
    ensures
        source_cache_key(path, len, modified) == source_cache_key(path, other_len, other_modified)
            ==> len == other_len && modified == other_modified,
        path.is_prefix_of(source_cache_key(path, len, modified)),
{
    reveal_strlit(":");
    assert(":"@ == seq![':']);
    text::law_decimals_read_back(len);
    text::law_decimals_read_back(modified);
    text::law_decimals_read_back(other_len);
    text::law_decimals_read_back(other_modified);
    let first = source_cache_key(path, len, modified);
    let second = source_cache_key(path, other_len, other_modified);
    let a = text::decimal(len);
    let b = text::decimal(modified);
    let c = text::decimal(other_len);
    let d = text::decimal(other_modified);
    let skipped = path.len() + 1;
    assert(first.skip(skipped as int) == a + seq![':'] + b);
    assert(second.skip(skipped as int) == c + seq![':'] + d);
    assert(first.subrange(0, path.len() as int) == path);
    if first == second {
        text::lemma_split_at_colon(a, b, c, d);
    }
}

/// The name of a cached picture is sixteen hexadecimal digits that read as the hash of its key,
/// and an ending.
pub proof fn law_cached_pictures_are_named_by_hash(key: Seq<char>)
    ensures
        cache_file_name(key).len() == 21,
        text::read_digits(cache_file_name(key).take(16), 16) == fnv1a(utf8::encode_utf8(key)),
        cache_file_name(key).skip(16) == seq!['.', 'r', 'g', 'b', 'a'],
{
    reveal_strlit(".rgba");
    let hash = fnv1a(utf8::encode_utf8(key));
    assert(vstd::arithmetic::power::pow(16, 16) == 0x1_0000_0000_0000_0000) by {
        reveal_with_fuel(vstd::arithmetic::power::pow, 17);
    }
    text::law_hexadecimals_read_back(hash as nat, 16);
    assert(cache_file_name(key).take(16) == text::hex(hash as nat, 16));
    assert(cache_file_name(key).skip(16) == seq!['.', 'r', 'g', 'b', 'a']);
}

/// The hash starts at its fixed value, and takes in a byte by joining it to the lowest bits and
/// multiplying.
pub proof fn law_hash_takes_in_byte_by_byte(bytes: Seq<u8>, byte: u8)
    ensures
        fnv1a(Seq::empty()) == 14_695_981_039_346_656_037,
        fnv1a(bytes.push(byte)) == ((fnv1a(bytes) ^ (byte as u64)) * 1_099_511_628_211)
            % 18_446_744_073_709_551_616,
{
    assert(bytes.push(byte).drop_last() == bytes);
}

/// Pictures are kept under the directory that was asked for, else the user's cache directory, else
/// one in the home directory; only without any of them there is no place.
pub proof fn law_cache_directory_that_was_asked_for_comes_first(
    explicit: Seq<u8>,
    cache_home: Option<Seq<u8>>,
    home: Option<Seq<u8>>,
    name: Seq<char>,
)
    ensures
        cache_directory(Some(explicit), cache_home, home, name) == cache_directory(
            None,
            Some(explicit),
            None,
            name,
        ),
        cache_home is Some ==> cache_directory(None, cache_home, home, name) == cache_directory(
            cache_home,
            None,
            None,
            name,
        ),
        home is Some ==> cache_directory(None, None, home, name) == cache_directory(
            Some(path::path_join(home->0, utf8::encode_utf8(".cache"@))),
            None,
            None,
            name,
        ),
        cache_directory(None, None, None, name) is None,
        cache_directory(Some(explicit), cache_home, home, name) is Some,
{
}

/// A picture is written beside its place first, under a hidden name that ends in its own way and
/// tells the final one.
pub proof fn law_temporary_name_is_hidden(path: Seq<u8>, fallback: Seq<char>)
    ensures
        ({
            let name = temporary_cache_name(path, fallback);
            &&& name.len() >= 5
            &&& name[0] == '.'
            &&& name.skip(name.len() - 4) == seq!['.', 't', 'm', 'p']
            &&& path::file_name_of(path) is None ==> name.subrange(1, name.len() - 4) == fallback
            &&& path::file_name_of(path) matches Some(own) ==> (utf8::valid_utf8(own)
                ==> utf8::encode_utf8(name.subrange(1, name.len() - 4)) == own)
        }),
{
    reveal_strlit(".");
    reveal_strlit(".tmp");
    let name = temporary_cache_name(path, fallback);
    assert(name.skip(name.len() - 4) == seq!['.', 't', 'm', 'p']);
    if let Some(own) = path::file_name_of(path) {
        if utf8::valid_utf8(own) {
            assert(name.subrange(1, name.len() - 4) == utf8::decode_utf8(own));
            utf8::decode_utf8_encode_utf8(own);
        }
    } else {
        assert(name.subrange(1, name.len() - 4) == fallback);
    }
}

} // verus!
