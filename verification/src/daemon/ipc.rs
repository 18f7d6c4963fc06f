//! Safety of the daemon's sockets and the names of their files.

use crate::common::path;
use crate::common::path::FilePath;
use crate::common::text;
use vstd::prelude::*;
use vstd::utf8;

verus! {

/// Permissions of a socket: its owner reads and writes it.
pub const SOCKET_MODE: u32 = 0o600;

/// Permissions of the runtime directory: its owner alone enters it.
pub const RUNTIME_DIR_MODE: u32 = 0o700;

/// Bytes set aside for a line that may hold a password.
pub const SECRET_LINE_CAPACITY: usize = 2 * 1024;

/// What has to be known of a directory before it is trusted.
#[derive(Debug, Clone, Copy, PartialEq, Eq, Structural)]
pub struct DirectoryFacts {
    pub is_dir: bool,
    pub uid: u32,
    pub mode: u32,
}

/// What is to be done about a socket path before it is bound.
#[derive(Debug, Clone, Copy, PartialEq, Eq, Structural)]
pub enum BindPlan {
    /// Nothing is in the way.
    Bind,
    /// A socket that nobody listens on is removed first.
    RemoveStale,
    /// Another instance listens on it.
    AlreadyRunning,
}

/// Decides what to do about the socket of the only instance.
pub fn single_instance_plan(present: bool, answers: bool) -> (plan: BindPlan)
    ensures
        plan == if !present {
            BindPlan::Bind
        } else if answers {
            BindPlan::AlreadyRunning
        } else {
            BindPlan::RemoveStale
        },
{
    if !present {
        BindPlan::Bind
    } else if answers {
        BindPlan::AlreadyRunning
    } else {
        BindPlan::RemoveStale
    }
}

/// The name under which a socket is bound before it is published: a hidden file beside the
/// target, of this process alone.
pub open spec fn staging_name(path: Seq<u8>, fallback: Seq<char>, process_id: nat) -> Seq<u8> {
    utf8::encode_utf8("."@) + match path::file_name_of(path) {
        Some(name) => name,
        None => utf8::encode_utf8(fallback),
    } + utf8::encode_utf8("."@ + text::decimal(process_id) + ".staging"@)
}

/// The path under which a socket is bound before it is published.
pub fn staging_socket_path(path: &FilePath, process_id: u32) -> (staging: FilePath)
    ensures
        staging@ == path::renamed(path@, staging_name(path@, "socket"@, process_id as nat)),
{
    staged(path, "socket", process_id)
}

/// The path under which a socket is bound before it is published; the fallback stands for a file
/// name that is missing.
pub fn staged(path: &FilePath, fallback: &str, process_id: u32) -> (staging: FilePath)
    ensures
        staging@ == path::renamed(path@, staging_name(path@, fallback@, process_id as nat)),
{
    let mut name: Vec<u8> = Vec::new();
    name.extend_from_slice(".".as_bytes());
    match path.file_name() {
        Some(file_name) => name.extend_from_slice(file_name.as_slice()),
        None => name.extend_from_slice(fallback.as_bytes()),
    }
    let mut suffix = text::joined(".", text::decimal_text(process_id as u128).as_str());
    suffix.append(".staging");
    name.extend_from_slice(suffix.as_str().as_bytes());
    proof {
        assert(name@ =~= staging_name(path@, fallback@, process_id as nat));
    }
    path.with_file_name(name.as_slice())
}

/// The socket on which one lock's passwords arrive; the stamp tells locks apart.
pub fn auth_socket_path(runtime_dir: &FilePath, stamp_micros: u128) -> (path: FilePath)
    ensures
        path@ == path::path_join(
            runtime_dir@,
            utf8::encode_utf8("veila-auth-"@ + text::decimal(stamp_micros as nat) + ".sock"@),
        ),
{
    let mut name = text::joined("veila-auth-", text::decimal_text(stamp_micros).as_str());
    name.append(".sock");
    runtime_dir.join(name.as_str())
}

/// The socket on which the daemon takes control messages.
pub fn daemon_socket_path(runtime_dir: &FilePath) -> (path: FilePath)
    ensures
        path@ == path::path_join(runtime_dir@, utf8::encode_utf8("veilad.sock"@)),
{
    runtime_dir.join("veilad.sock")
}

/// A socket for one purpose; the stamp tells uses apart.
pub fn transient_socket_path(runtime_dir: &FilePath, label: &str, stamp_micros: u128) -> (path:
    FilePath)
    ensures
        path@ == path::path_join(
            runtime_dir@,
            utf8::encode_utf8(
                "veila-"@ + label@ + "-"@ + text::decimal(stamp_micros as nat) + ".sock"@,
            ),
        ),
{
    let mut name = text::joined("veila-", label);
    name.append("-");
    name.append(text::decimal_text(stamp_micros).as_str());
    name.append(".sock");
    runtime_dir.join(name.as_str())
}

/// The root of the runtime directory. Without one there is no private place for sockets.
pub fn runtime_root_from_env(value: Option<FilePath>) -> (result: Result<FilePath, String>)
    ensures
        match (result, value) {
            (Ok(root), Some(value)) => root == value,
            (Err(message), None) => message@
                == "XDG_RUNTIME_DIR is not set; refusing to create Veila IPC sockets in a shared temporary directory"@,
            _ => false,
        },
{
    match value {
        Some(root) => Ok(root),
        None => Err(
            "XDG_RUNTIME_DIR is not set; refusing to create Veila IPC sockets in a shared temporary directory".to_owned(),
        ),
    }
}

/// Where the project's own files go below the runtime root.
pub fn veila_runtime_dir(runtime_root: &FilePath) -> (path: FilePath)
    ensures
        path@ == path::path_join(runtime_root@, utf8::encode_utf8("veila"@)),
{
    runtime_root.join("veila")
}

/// Whether a directory is one that only this user can get into.
pub open spec fn is_private_dir(facts: DirectoryFacts, current_uid: u32) -> bool {
    facts.is_dir && facts.uid == current_uid && facts.mode & 0o077 == 0
}

/// The report on a directory that is not private, the first reason that applies.
pub open spec fn private_dir_problem(
    path: Seq<char>,
    facts: DirectoryFacts,
    current_uid: u32,
    label: Seq<char>,
) -> Seq<char> {
    let start = label + " "@ + path;
    if !facts.is_dir {
        start + " is not a directory"@
    } else if facts.uid != current_uid {
        start + " is owned by uid "@ + text::decimal(facts.uid as nat) + ", expected uid "@
            + text::decimal(current_uid as nat)
    } else {
        start + " must not be readable, writable, or executable by group/other users"@
    }
}

/// Accepts a directory that only this user can get into, or reports what is wrong with it.
pub fn validate_private_dir(path: &str, facts: DirectoryFacts, current_uid: u32, label: &str) -> (result:
    Result<(), String>)
    ensures
        match result {
            Ok(()) => is_private_dir(facts, current_uid),
            Err(message) => !is_private_dir(facts, current_uid) && message@ == private_dir_problem(
                path@,
                facts,
                current_uid,
                label@,
            ),
        },
{
    let mut message = text::joined(label, " ");
    message.append(path);
    if !facts.is_dir {
        message.append(" is not a directory");
        return Err(message);
    }
    if facts.uid != current_uid {
        message.append(" is owned by uid ");
        message.append(text::decimal_text(facts.uid as u128).as_str());
        message.append(", expected uid ");
        message.append(text::decimal_text(current_uid as u128).as_str());
        return Err(message);
    }
    if facts.mode & 0o077 != 0 {
        message.append(" must not be readable, writable, or executable by group/other users");
        return Err(message);
    }
    Ok(())
}

/// Accepts a peer that runs as the same user.
pub fn verify_peer_uid(peer_uid: u32, expected_uid: u32) -> (result: Result<(), String>)
    ensures
        match result {
            Ok(()) => peer_uid == expected_uid,
            Err(message) => peer_uid != expected_uid && message@ == "peer uid "@ + text::decimal(
                peer_uid as nat,
            ) + " does not match daemon uid "@ + text::decimal(expected_uid as nat),
        },
{
    if peer_uid != expected_uid {
        let mut message = text::joined("peer uid ", text::decimal_text(peer_uid as u128).as_str());
        message.append(" does not match daemon uid ");
        message.append(text::decimal_text(expected_uid as u128).as_str());
        return Err(message);
    }
    Ok(())
}

/// The permissions given to the runtime directory keep everybody else out of it.
pub proof fn law_restricted_runtime_dir_is_private(uid: u32)
    ensures
        is_private_dir(DirectoryFacts { is_dir: true, uid, mode: RUNTIME_DIR_MODE }, uid),
        SOCKET_MODE & 0o077 == 0,
{
    assert(0o700u32 & 0o077u32 == 0u32) by (bit_vector);
    assert(0o600u32 & 0o077u32 == 0u32) by (bit_vector);
}

proof fn lemma_decimal_is_plain(value: nat)
    ensures
        text::decimal(value).len() > 0,
        forall|i: int|
            0 <= i < text::decimal(value).len() ==> '0' <= #[trigger] text::decimal(value)[i]
                <= '9',
    decreases value,
{
    if value >= 10 {
        lemma_decimal_is_plain(value / 10);
    }
}

/// A socket is staged under a hidden name in the directory of its target, so that publishing it
/// is a rename within one directory.
pub proof fn law_staging_path_is_a_sibling(path: Seq<u8>, fallback: Seq<char>, process_id: nat)
    requires
        path::file_name_of(path) is Some,
    ensures
        ({
            let name = staging_name(path, fallback, process_id);
            &&& name.len() > 0 && name[0] == 46u8
            &&& path::directory_of(path) is Some
            &&& path::directory_of(path::renamed(path, name)) == path::directory_of(path)
            &&& path::file_name_of(path::renamed(path, name)) == Some(name)
        }),
{
    let name = staging_name(path, fallback, process_id);
    let own = path::file_name_of(path)->0;
    let suffix = "."@ + text::decimal(process_id) + ".staging"@;
    reveal_strlit(".");
    reveal_strlit(".staging");
    lemma_decimal_is_plain(process_id);
    path::lemma_file_name(path);
    assert(utf8::is_ascii_chars("."@));
    utf8::is_ascii_chars_encode_utf8("."@);
    let dot = utf8::encode_utf8("."@);
    let digits = text::decimal(process_id);
    assert forall|i: int| 0 <= i < suffix.len() implies '\0' <= #[trigger] suffix[i] <= '\u{7f}'
        && suffix[i] != '/' by {
        if i == 0 {
            assert(suffix[i] == "."@[0]);
        } else if i <= digits.len() {
            assert(suffix[i] == digits[i - 1]);
        } else {
            assert(suffix[i] == ".staging"@[i - 1 - digits.len()]);
        }
    }
    assert(utf8::is_ascii_chars(suffix));
    utf8::is_ascii_chars_encode_utf8(suffix);
    let end = utf8::encode_utf8(suffix);
    assert(name == dot + own + end);
    assert(name.len() > 2);
    assert forall|i: int| 0 <= i < name.len() implies #[trigger] name[i] != 47u8 by {
        if i == 0 {
            assert(name[i] == dot[0]);
        } else if i <= own.len() {
            assert(name[i] == own[i - 1]);
        } else {
            let at = i - 1 - own.len();
            assert(name[i] == end[at]);
            assert(end[at] == suffix[at] as u8);
        }
    }
    assert(name[0] == dot[0]);
    path::law_joined_name_lies_in_its_directory(path::directory_of(path)->0, name);
}

/// A directory is private where it is a directory of this user and its lowest six permission bits
/// are all off; its other bits do not matter.
pub proof fn law_private_directory_is_closed_to_others(facts: DirectoryFacts, current_uid: u32)
    ensures
        is_private_dir(facts, current_uid) <==> facts.is_dir && facts.uid == current_uid
            && facts.mode % 64 == 0,
{
    let mode = facts.mode;
    assert(mode & 0o077 == mode % 64) by (bit_vector);
}

/// Two processes stage their sockets under different names.
pub proof fn law_processes_stage_apart(
    path: Seq<u8>,
    fallback: Seq<char>,
    process_id: nat,
    other_id: nat,
)
    ensures
        staging_name(path, fallback, process_id) == staging_name(path, fallback, other_id)
            ==> process_id == other_id,
{
    let first = staging_name(path, fallback, process_id);
    let second = staging_name(path, fallback, other_id);
    let a = "."@ + text::decimal(process_id) + ".staging"@;
    let b = "."@ + text::decimal(other_id) + ".staging"@;
    let head = utf8::encode_utf8("."@) + match path::file_name_of(path) {
        Some(name) => name,
        None => utf8::encode_utf8(fallback),
    };
    assert(first.skip(head.len() as int) == utf8::encode_utf8(a));
    assert(second.skip(head.len() as int) == utf8::encode_utf8(b));
    if first == second {
        utf8::encode_utf8_decode_utf8(a);
        utf8::encode_utf8_decode_utf8(b);
        reveal_strlit(".");
        reveal_strlit(".staging");
        assert(a.len() == b.len());
        assert(text::decimal(process_id) == a.subrange(1, a.len() - 8));
        assert(text::decimal(other_id) == b.subrange(1, b.len() - 8));
        text::law_decimals_read_back(process_id);
        text::law_decimals_read_back(other_id);
    }
}

} // verus!
