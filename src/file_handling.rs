//! File and folder entries as the editor's file tree shows them, and path
//! manipulation. Reading and writing files is left to the application.
use vstd::prelude::*;
use core::cmp::Ordering;
use crate::text::utf8;

verus! {

/// What `std::path::Path::file_name` gives for a path: its last component,
/// or empty where there is none.
pub uninterp spec fn file_name_of(path: Seq<char>) -> Seq<char>;

/// What `std::path::Path::strip_prefix` gives for `path` and `base`: the
/// rest of `path`, where `base` is a prefix of it component by component.
pub uninterp spec fn stripped_path_of(path: Seq<char>, base: Seq<char>) -> Option<Seq<char>>;

/// What `std::path::Path::parent` gives for a path: the path without its
/// last component, where it has one.
pub uninterp spec fn parent_path_of(path: Seq<char>) -> Option<Seq<char>>;

/// What `std::path::PathBuf::push` makes of `start` extended by `end`.
pub uninterp spec fn joined_path_of(start: Seq<char>, end: Seq<char>) -> Seq<char>;

/// The extension of a file name: what follows its last dot, where that dot
/// is not the name's first character; empty otherwise.
pub open spec fn extension_of(name: Seq<u8>) -> Seq<u8> {
    if exists|i: int| 0 < i < name.len() && name[i] == DOT {
        let i = choose|i: int|
            0 < i < name.len() && name[i] == DOT && forall|j: int| i < j < name.len() ==> name[j] != DOT;
        name.skip(i + 1)
    } else {
        Seq::empty()
    }
}

/// What `str::to_lowercase` gives for a string.
pub uninterp spec fn lower_of(s: Seq<char>) -> Seq<char>;

/// Byte strings in lexicographic order, as `str`'s `Ord` compares them.
pub open spec fn lex_cmp(a: Seq<u8>, b: Seq<u8>) -> Ordering
    decreases a.len(),
{
    if a.len() == 0 {
        if b.len() == 0 {
            Ordering::Equal
        } else {
            Ordering::Less
        }
    } else if b.len() == 0 {
        Ordering::Greater
    } else if a[0] < b[0] {
        Ordering::Less
    } else if a[0] > b[0] {
        Ordering::Greater
    } else {
        lex_cmp(a.drop_first(), b.drop_first())
    }
}

/// The order of folder entries: folders before files, then by the
/// lowercase form of the name.
pub open spec fn entry_order(a: FolderEntry, b: FolderEntry) -> Ordering {
    if a.is_dir != b.is_dir {
        if a.is_dir {
            Ordering::Less
        } else {
            Ordering::Greater
        }
    } else {
        lex_cmp(utf8(lower_of(a.name@)), utf8(lower_of(b.name@)))
    }
}

/// Swapping the arguments swaps less and greater.
pub proof fn lemma_lex_cmp_flip(a: Seq<u8>, b: Seq<u8>)
    ensures
        (lex_cmp(a, b) == Ordering::Greater) <==> (lex_cmp(b, a) == Ordering::Less),
    decreases a.len(),
{
    if a.len() > 0 && b.len() > 0 && a[0] == b[0] {
        lemma_lex_cmp_flip(a.drop_first(), b.drop_first());
    }
}

/// Not greater is transitive.
pub proof fn lemma_lex_cmp_trans(a: Seq<u8>, b: Seq<u8>, c: Seq<u8>)
    requires
        lex_cmp(a, b) != Ordering::Greater,
        lex_cmp(b, c) != Ordering::Greater,
    ensures
        lex_cmp(a, c) != Ordering::Greater,
    decreases a.len(),
{
    if a.len() > 0 && b.len() > 0 && c.len() > 0 && a[0] == b[0] && b[0] == c[0] {
        lemma_lex_cmp_trans(a.drop_first(), b.drop_first(), c.drop_first());
    }
}

/// The order of folder entries is total and transitive.
pub proof fn lemma_entry_order(a: FolderEntry, b: FolderEntry, c: FolderEntry)
    ensures
        (entry_order(a, b) == Ordering::Greater) <==> (entry_order(b, a) == Ordering::Less),
        entry_order(a, b) != Ordering::Greater && entry_order(b, c) != Ordering::Greater
            ==> entry_order(a, c) != Ordering::Greater,
{
    let (ka, kb, kc) = (utf8(lower_of(a.name@)), utf8(lower_of(b.name@)), utf8(lower_of(c.name@)));
    lemma_lex_cmp_flip(ka, kb);
    if entry_order(a, b) != Ordering::Greater && entry_order(b, c) != Ordering::Greater {
        if a.is_dir == b.is_dir && b.is_dir == c.is_dir {
            lemma_lex_cmp_trans(ka, kb, kc);
        }
    }
}

/// The dot byte.
pub const DOT: u8 = 46;

/// Why a path operation failed.
#[derive(Clone, Copy, Debug, PartialEq, Eq, Structural)]
pub enum PathError {
    /// The base path is not a prefix of the path.
    NotAPrefix,
    /// The path has no parent.
    NoParent,
}

/// An entry of a folder listing.
pub struct FolderEntry {
    pub path: String,
    pub is_dir: bool,
    pub name: String,
    pub extension: String,
}

/// A file, with its name and extension.
pub struct FileEntry {
    pub path: String,
    pub name: String,
    pub extension: String,
}

/// Relies on `str::to_lowercase`: the lowercase form depends on the
/// characters alone.
#[verifier::external_body]
fn lowercase(s: &str) -> (r: String)
    ensures
        r@ == lower_of(s@),
{
    s.to_lowercase()
}

/// Compares byte strings in lexicographic order.
fn compare_bytes(a: &[u8], b: &[u8]) -> (r: Ordering)
    ensures
        r == lex_cmp(a@, b@),
{
    let mut i: usize = 0;
    assert(a@.skip(0) =~= a@);
    assert(b@.skip(0) =~= b@);
    while i < a.len() && i < b.len() && a[i] == b[i]
        invariant
            i <= a@.len(),
            i <= b@.len(),
            lex_cmp(a@, b@) == lex_cmp(a@.skip(i as int), b@.skip(i as int)),
        decreases a@.len() - i,
    {
        assert(a@.skip(i as int).drop_first() =~= a@.skip(i as int + 1));
        assert(b@.skip(i as int).drop_first() =~= b@.skip(i as int + 1));
        i += 1;
    }
    let ghost (x, y) = (a@.skip(i as int), b@.skip(i as int));
    if i == a.len() {
        if i == b.len() {
            Ordering::Equal
        } else {
            Ordering::Less
        }
    } else if i == b.len() {
        Ordering::Greater
    } else if a[i] < b[i] {
        assert(x[0] == a@[i as int] && y[0] == b@[i as int]);
        Ordering::Less
    } else {
        assert(x[0] == a@[i as int] && y[0] == b@[i as int]);
        Ordering::Greater
    }
}

/// Relies on `std::path::Path::file_name`: the last component of the path,
/// empty where there is none.
#[verifier::external_body]
fn path_file_name(path: &str) -> (r: String)
    ensures
        r@ == file_name_of(path@),
{
    std::path::Path::new(path).file_name().and_then(|n| n.to_str()).unwrap_or("").to_string()
}

/// Relies on `std::path::Path::strip_prefix`: the rest of `path` below
/// `base`, where `base` is a prefix of it.
#[verifier::external_body]
fn path_strip_prefix(path: &str, base: &str) -> (r: Option<String>)
    ensures
        r matches Some(s) ==> stripped_path_of(path@, base@) == Some(s@),
        r is None ==> stripped_path_of(path@, base@) is None,
{
    match std::path::Path::new(path).strip_prefix(base) {
        Ok(rest) => rest.to_str().map(|s| s.to_string()),
        Err(_) => None,
    }
}

/// Relies on `std::path::Path::parent`: the path without its last
/// component, where it has one.
#[verifier::external_body]
fn path_parent(path: &str) -> (r: Option<String>)
    ensures
        r matches Some(s) ==> parent_path_of(path@) == Some(s@),
        r is None ==> parent_path_of(path@) is None,
{
    std::path::Path::new(path).parent().and_then(|p| p.to_str()).map(|s| s.to_string())
}

/// Relies on `std::path::PathBuf::push`: `start` extended by `end` (an
/// absolute `end` replaces `start`).
#[verifier::external_body]
fn path_join(start: &str, end: &str) -> (r: String)
    ensures
        r@ == joined_path_of(start@, end@),
{
    let mut path = std::path::PathBuf::from(start);
    path.push(end);
    path.to_str().unwrap_or("").to_string()
}

/// The extension of the file name `name`, as `extension_of` gives it.
pub fn file_extension(name: &str) -> (r: String)
    ensures
        utf8(r@) == extension_of(utf8(name@)),
{
    let b = name.as_bytes();
    let n = b.len();
    let mut i: usize = n;
    while i > 0
        invariant
            i <= n,
            n == b@.len(),
            b@ == utf8(name@),
            forall|j: int| i <= j < n ==> b@[j] != DOT,
        decreases i,
    {
        if b[i - 1] == DOT {
            let dot = i - 1;
            if dot == 0 {
                proof {
                    assert(!exists|k: int| 0 < k < b@.len() && b@[k] == DOT);
                }
                return String::new();
            }
            proof {
                let k = choose|k: int|
                    0 < k < b@.len() && b@[k] == DOT && forall|j: int| k < j < b@.len() ==> b@[j] != DOT;
                assert(k == dot) by {
                    if k < dot {
                        assert(b@[dot as int] == DOT);
                    } else if k > dot {
                        assert(b@[k] != DOT);
                    }
                }
                vstd::utf8::encode_utf8_valid_utf8(name@);
                crate::text::lemma_after_ascii(b@, dot as int);
            }
            let rest = crate::text::slice_bytes(name, i, n);
            assert(b@.subrange(i as int, n as int) =~= b@.skip(i as int));
            return rest;
        }
        i -= 1;
    }
    let r = String::new();
    assert(utf8(r@) =~= Seq::<u8>::empty());
    r
}

impl FolderEntry {
    /// Folders before files, then by the lowercase form of the name.
    pub fn cmp(&self, other: &Self) -> (r: Ordering)
        ensures
            r == entry_order(*self, *other),
    {
        if self.is_dir != other.is_dir {
            return if self.is_dir {
                Ordering::Less
            } else {
                Ordering::Greater
            };
        }
        let a = lowercase(self.name.as_str());
        let b = lowercase(other.name.as_str());
        compare_bytes(a.as_str().as_bytes(), b.as_str().as_bytes())
    }

    /// The order of `cmp`, which is total.
    pub fn partial_cmp(&self, other: &Self) -> (r: Option<Ordering>)
        ensures
            r == Some(entry_order(*self, *other)),
    {
        Some(self.cmp(other))
    }
}

/// `entries` in the order of `entry_order`.
pub fn sort_folder_entries(entries: Vec<FolderEntry>) -> (r: Vec<FolderEntry>)
    ensures
        r@.to_multiset() == entries@.to_multiset(),
        forall|i: int, j: int|
            0 <= i < j < r@.len() ==> entry_order(#[trigger] r@[i], #[trigger] r@[j])
                != Ordering::Greater,
{
    broadcast use vstd::seq_lib::group_to_multiset_ensures;

    let mut rest = entries;
    let mut out: Vec<FolderEntry> = Vec::new();
    while rest.len() > 0
        invariant
            out@.to_multiset().add(rest@.to_multiset()) == entries@.to_multiset(),
            forall|i: int, j: int|
                0 <= i < j < out@.len() ==> entry_order(#[trigger] out@[i], #[trigger] out@[j])
                    != Ordering::Greater,
        decreases rest@.len(),
    {
        let ghost before_rest = rest@;
        let x = rest.pop().unwrap();
        assert(before_rest =~= rest@.push(x));
        proof {
            rest@.to_multiset_ensures();
        }
        let mut p: usize = 0;
        while p < out.len()
            invariant
                p <= out@.len(),
                forall|q: int| 0 <= q < p ==> entry_order(#[trigger] out@[q], x) != Ordering::Greater,
            ensures
                p <= out@.len(),
                forall|q: int| 0 <= q < p ==> entry_order(#[trigger] out@[q], x) != Ordering::Greater,
                p < out@.len() ==> entry_order(out@[p as int], x) == Ordering::Greater,
            decreases out@.len() - p,
        {
            let c = out[p].cmp(&x);
            if matches!(c, Ordering::Greater) {
                break;
            }
            p += 1;
        }
        let ghost before = out@;
        let ghost old_rest = rest@;
        out.insert(p, x);
        assert(out@.remove(p as int) =~= before);
        assert(out@.to_multiset() =~= before.to_multiset().insert(x)) by {
            assert(out@[p as int] == x);
            assert(out@.contains(x));
            out@.to_multiset_ensures();
            assert(out@.remove(p as int).to_multiset() =~= out@.to_multiset().remove(x));
        }
        assert(out@.to_multiset().add(rest@.to_multiset()) =~= before.to_multiset().add(
            before_rest.to_multiset(),
        ));
        assert forall|i: int, j: int| 0 <= i < j < out@.len() implies entry_order(
            #[trigger] out@[i],
            #[trigger] out@[j],
        ) != Ordering::Greater by {
            if j == p {
                assert(out@[i] == before[i]);
            } else if i == p {
                assert(out@[j] == before[j - 1]);
                lemma_entry_order(before[p as int], x, x);
                lemma_entry_order(x, before[p as int], before[j - 1]);
                if j - 1 > p {
                    assert(entry_order(before[p as int], before[j - 1]) != Ordering::Greater);
                }
            } else {
                let bi = if i < p { i } else { i - 1 };
                let bj = if j < p { j } else { j - 1 };
                assert(out@[i] == before[bi] && out@[j] == before[bj]);
                assert(bi < bj);
            }
        }
    }
    assert(rest@ =~= Seq::<FolderEntry>::empty());
    out
}

impl FileEntry {
    /// The entry for the file at `path_str`: its name is the path's last
    /// component, and its extension that of the name.
    pub fn new(path_str: String) -> (r: Self)
        ensures
            r.path@ == path_str@,
            r.name@ == file_name_of(path_str@),
            utf8(r.extension@) == extension_of(utf8(file_name_of(path_str@))),
    {
        let name = path_file_name(path_str.as_str());
        let extension = file_extension(name.as_str());
        FileEntry { path: path_str, name, extension }
    }
}

/// `to` relative to `from`; fails where `from` is not a prefix of `to`.
pub fn get_relative_path(from: &str, to: &str) -> (r: Result<String, PathError>)
    ensures
        match r {
            Ok(s) => stripped_path_of(to@, from@) == Some(s@),
            Err(e) => e == PathError::NotAPrefix && stripped_path_of(to@, from@) is None,
        },
{
    match path_strip_prefix(to, from) {
        Some(rest) => Ok(rest),
        None => Err(PathError::NotAPrefix),
    }
}

/// The folder that holds `path`; fails where `path` has no parent.
pub fn get_parent(path: &str) -> (r: Result<String, PathError>)
    ensures
        match r {
            Ok(s) => parent_path_of(path@) == Some(s@),
            Err(e) => e == PathError::NoParent && parent_path_of(path@) is None,
        },
{
    match path_parent(path) {
        Some(p) => Ok(p),
        None => Err(PathError::NoParent),
    }
}

/// `start` extended by `end`.
pub fn join_paths(start: &str, end: &str) -> (r: Result<String, PathError>)
    ensures
        r matches Ok(s) && s@ == joined_path_of(start@, end@),
{
    Ok(path_join(start, end))
}

} // verus!
