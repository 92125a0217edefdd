//! Names and paths of the virtual filesystem, and the tree that a new one
//! starts with.

use vstd::prelude::*;
use vstd::string::*;
use crate::services::FileSystemError;

verus! {

/// The position of the last `/` before position `end`, or -1 if there is
/// none.
pub open spec fn last_slash_before(path: Seq<char>, end: int) -> int
    decreases end,
{
    if end <= 0 {
        -1
    } else if path[end - 1] == '/' {
        end - 1
    } else {
        last_slash_before(path, end - 1)
    }
}

/// The last `/` before `end` is a `/` before `end`.
pub proof fn lemma_last_slash_before(path: Seq<char>, end: int)
    requires
        0 <= end <= path.len(),
    ensures
        -1 <= last_slash_before(path, end) < end,
        last_slash_before(path, end) >= 0 ==> path[last_slash_before(path, end)] == '/',
        forall|k: int| last_slash_before(path, end) < k < end ==> path[k] != '/',
    decreases end,
{
    if end > 0 && path[end - 1] != '/' {
        lemma_last_slash_before(path, end - 1);
    }
}

/// Finds the last `/` before position `end`.
pub fn find_last_slash(path: &str, end: usize) -> (res: Option<usize>)
    requires
        end <= path@.len(),
    ensures
        match res {
            Some(i) => i as int == last_slash_before(path@, end as int),
            None => last_slash_before(path@, end as int) == -1,
        },
{
    let mut i: usize = end;
    while i > 0
        invariant
            i <= end <= path@.len(),
            last_slash_before(path@, end as int) == last_slash_before(path@, i as int),
        decreases i,
    {
        if path.get_char(i - 1) == '/' {
            return Some(i - 1);
        }
        i -= 1;
    }
    None
}

/// The name of a file and the directory that holds it: the name is what
/// follows the last `/`, and the directory what stands up to and with it.
/// A path without `/` names a file of the root.
pub open spec fn file_name(full_path: Seq<char>) -> (Seq<char>, Seq<char>) {
    let slash = last_slash_before(full_path, full_path.len() as int);
    (
        full_path.subrange(slash + 1, full_path.len() as int),
        if slash < 0 {
            seq!['/']
        } else {
            full_path.subrange(0, slash + 1)
        },
    )
}

/// See [`file_name`].
pub fn make_file_name(full_path: &str) -> (res: (String, String))
    ensures
        res.0@ == file_name(full_path@).0,
        res.1@ == file_name(full_path@).1,
{
    proof {
        reveal_strlit("/");
        lemma_last_slash_before(full_path@, full_path@.len() as int);
    }
    let len = full_path.unicode_len();
    match find_last_slash(full_path, len) {
        Some(slash) => (
            full_path.substring_char(slash + 1, len).to_owned(),
            full_path.substring_char(0, slash + 1).to_owned(),
        ),
        None => {
            let root = "/".to_owned();
            assert(root@ =~= seq!['/']);
            (full_path.substring_char(0, len).to_owned(), root)
        },
    }
}

/// The name of a directory and the directory that holds it. The path of a
/// directory ends with `/`; whatever follows the last `/` is left aside.
/// The name is what stands between the last two `/`, with the `/` that
/// ends it, and the parent what stands up to and with the `/` before. The
/// root is its own name and has no parent.
pub open spec fn dir_name(full_path: Seq<char>) -> (Seq<char>, Seq<char>) {
    if full_path == seq!['/'] {
        (seq!['/'], Seq::empty())
    } else {
        let last = last_slash_before(full_path, full_path.len() as int);
        let before = last_slash_before(full_path, last);
        (
            full_path.subrange(before + 1, last + 1),
            if before < 0 {
                seq!['/']
            } else {
                full_path.subrange(0, before + 1)
            },
        )
    }
}

/// See [`dir_name`]. The path must hold a `/`.
pub fn make_dir_name(full_path: &str) -> (res: (String, String))
    requires
        last_slash_before(full_path@, full_path@.len() as int) >= 0,
    ensures
        res.0@ == dir_name(full_path@).0,
        res.1@ == dir_name(full_path@).1,
{
    proof {
        reveal_strlit("/");
        lemma_last_slash_before(full_path@, full_path@.len() as int);
    }
    let len = full_path.unicode_len();
    if len == 1 && full_path.get_char(0) == '/' {
        assert(full_path@ =~= seq!['/']);
        let root = "/".to_owned();
        assert(root@ =~= seq!['/']);
        let none = String::new();
        return (root, none);
    }
    assert(full_path@ != seq!['/']) by {
        if full_path@ == seq!['/'] {
            assert(seq!['/'].len() == 1);
            assert(seq!['/'][0] == '/');
        }
    }
    match find_last_slash(full_path, len) {
        Some(last) => {
            proof {
                lemma_last_slash_before(full_path@, last as int);
            }
            match find_last_slash(full_path, last) {
                Some(before) => (
                    full_path.substring_char(before + 1, last + 1).to_owned(),
                    full_path.substring_char(0, before + 1).to_owned(),
                ),
                None => {
                    let root = "/".to_owned();
                    assert(root@ =~= seq!['/']);
                    (full_path.substring_char(0, last + 1).to_owned(), root)
                },
            }
        },
        None => (String::new(), String::new()),
    }
}

/// Tells whether a path holds a `/`, which is what [`make_dir_name`] asks
/// of it.
pub fn has_slash(full_path: &str) -> (res: bool)
    ensures
        res == (last_slash_before(full_path@, full_path@.len() as int) >= 0),
{
    let len = full_path.unicode_len();
    find_last_slash(full_path, len).is_some()
}

/// Calls `std::path::Path::join` on the two strings and gives the result
/// back as a string where it is one. How two paths join depends on the
/// platform, so nothing is promised of the text.
#[verifier::external_body]
fn path_join(base_path: &String, relative_path: &String) -> Option<String> {
    std::path::Path::new(base_path).join(relative_path).to_str().map(|s| s.to_owned())
}

/// What joining two paths ends with, given what the join gave: the joined
/// path, or the complaint that the two could not be joined.
pub fn joined_or_error(base_path: String, relative_path: String, joined: Option<String>) -> (res:
    Result<String, FileSystemError>)
    ensures
        match joined {
            Some(path) => res matches Ok(p) && p@ == path@,
            None => res matches Err(FileSystemError::BadPathJoin { base_path: b, addend: a }) && b@
                == base_path@ && a@ == relative_path@,
        },
{
    match joined {
        Some(path) => Ok(path),
        None => Err(FileSystemError::BadPathJoin { base_path, addend: relative_path }),
    }
}

/// Joins a path to a base path as the platform does. Where it fails, the
/// error names the two paths.
pub fn join_paths(base_path: String, relative_path: String) -> (res: Result<
    String,
    FileSystemError,
>)
    ensures
        res matches Err(e) ==> (e matches FileSystemError::BadPathJoin { base_path: b, addend: a }
            && b@ == base_path@ && a@ == relative_path@),
{
    let joined = path_join(&base_path, &relative_path);
    joined_or_error(base_path, relative_path, joined)
}

/// What an entry of the tree is known by.
#[derive(Debug, Clone, Copy, PartialEq, Eq, Hash, Structural)]
#[allow(inconsistent_fields)]
pub enum Key {
    Dir { id: u64 },
    File { id: u128 },
}

/// What an entry of the tree is: a directory with its parent and its
/// children, or a file with its parent.
#[derive(Debug, PartialEq, Eq)]
pub enum EntryType {
    Dir { parent: Key, children: Vec<Key> },
    File { parent: Key },
}

/// An entry of the tree: its name, its full path, which ends with `/` for a
/// directory, and what it is.
#[derive(Debug, PartialEq, Eq)]
pub struct Entry {
    pub name: String,
    pub full_path: String,
    pub entry_type: EntryType,
}

/// The tree of one virtual filesystem: the entries by key, and the keys by
/// path.
#[derive(Debug, PartialEq, Eq)]
pub struct Vfs {
    pub key_to_entry: Vec<(Key, Entry)>,
    pub path_to_key: Vec<(String, Key)>,
}

/// The key of the root directory.
pub open spec fn root_key() -> Key {
    Key::Dir { id: 0 }
}

/// Whether an entry is the root directory of an empty tree: it is named
/// `/`, its path is `/`, it is its own parent, and it has no children.
pub open spec fn is_empty_root(entry: Entry) -> bool {
    &&& entry.name@ == seq!['/']
    &&& entry.full_path@ == seq!['/']
    &&& entry.entry_type matches EntryType::Dir { parent, children }
    &&& parent == root_key()
    &&& children@.len() == 0
}

impl Vfs {
    /// A tree that holds the root directory and nothing else.
    pub fn new() -> (res: Self)
        ensures
            res.key_to_entry@.len() == 1,
            res.key_to_entry@[0].0 == root_key(),
            is_empty_root(res.key_to_entry@[0].1),
            res.path_to_key@.len() == 1,
            res.path_to_key@[0].0@ == seq!['/'],
            res.path_to_key@[0].1 == root_key(),
    {
        proof {
            reveal_strlit("/");
        }
        let root = Key::Dir { id: 0 };
        let name = "/".to_owned();
        let full_path = "/".to_owned();
        let path = "/".to_owned();
        assert(name@ =~= seq!['/']);
        let entry = Entry {
            name,
            full_path,
            entry_type: EntryType::Dir { parent: root, children: Vec::new() },
        };
        let mut key_to_entry: Vec<(Key, Entry)> = Vec::new();
        key_to_entry.push((root, entry));
        let mut path_to_key: Vec<(String, Key)> = Vec::new();
        path_to_key.push((path, root));
        Vfs { key_to_entry, path_to_key }
    }
}

} // verus!
