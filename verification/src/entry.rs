//! Directory entries, and which of them the sweep looks at.
//!
//! An entry is a candidate when it is a regular file whose name has the
//! extension `png`, in any mix of upper and lower case.

use vstd::prelude::*;
use vstd::slice::slice_subrange;

verus! {

/// The byte that separates a file name from its extension.
pub const DOT: u8 = 0x2e;

/// What kind of thing a directory entry is. A symbolic link is a `Symlink`
/// whatever it points to.
#[derive(Clone, Copy, PartialEq, Eq, Debug, Structural)]
pub enum FileKind {
    Regular,
    Directory,
    Symlink,
    Other,
}

/// One entry found in the tree: the last component of its path, as the bytes
/// the platform stores, and its kind.
#[derive(Clone, Debug, PartialEq, Eq)]
pub struct FileEntry {
    pub name: Vec<u8>,
    pub kind: FileKind,
}

/// The mathematical value of a [`FileEntry`].
pub struct EntryView {
    pub name: Seq<u8>,
    pub kind: FileKind,
}

impl View for FileEntry {
    type V = EntryView;

    open spec fn view(&self) -> EntryView {
        EntryView { name: self.name@, kind: self.kind }
    }
}

/// The extension that selects a file, in lower case: `png`.
pub open spec fn png() -> Seq<u8> {
    seq![0x70u8, 0x6eu8, 0x67u8]
}

/// The name of the parent directory, `..`, which is no file name.
pub open spec fn parent_dir() -> Seq<u8> {
    seq![DOT, DOT]
}

/// An ASCII upper-case letter as its lower-case letter; any other byte as itself.
pub open spec fn ascii_lower(b: u8) -> u8 {
    if 0x41 <= b <= 0x5a {
        (b + 0x20) as u8
    } else {
        b
    }
}

/// Two byte strings are equal once their ASCII letters are put in lower case.
pub open spec fn same_ignoring_case(a: Seq<u8>, b: Seq<u8>) -> bool {
    &&& a.len() == b.len()
    &&& forall|i: int| 0 <= i < a.len() ==> ascii_lower(a[i]) == ascii_lower(b[i])
}

/// The index of the last `.` in `name`, or -1 where it has none.
pub open spec fn last_dot(name: Seq<u8>) -> int
    decreases name.len(),
{
    if name.len() == 0 {
        -1
    } else if name.last() == DOT {
        name.len() - 1
    } else {
        last_dot(name.drop_last())
    }
}

/// The extension of a file name: what follows its last `.`, provided that a
/// `.` occurs after the first byte. A name without a `.`, a name whose only
/// `.` is its first byte, and `..` have none.
pub open spec fn extension_of(name: Seq<u8>) -> Option<Seq<u8>> {
    let dot = last_dot(name);
    if dot <= 0 || name == parent_dir() {
        None
    } else {
        Some(name.skip(dot + 1))
    }
}

/// The name has the extension `png`, in any case.
pub open spec fn png_named(name: Seq<u8>) -> bool {
    extension_of(name) matches Some(ext) && same_ignoring_case(ext, png())
}

/// The entry is one that the sweep looks at: a regular file named `*.png`.
pub open spec fn candidate(entry: EntryView) -> bool {
    entry.kind == FileKind::Regular && png_named(entry.name)
}

/// `last_dot` finds a `.` that no other `.` follows, and is -1 only where
/// the name has no `.` at all.
pub proof fn lemma_last_dot(name: Seq<u8>)
    ensures
        -1 <= last_dot(name) < name.len(),
        last_dot(name) >= 0 ==> name[last_dot(name)] == DOT,
        forall|j: int| last_dot(name) < j < name.len() ==> name[j] != DOT,
    decreases name.len(),
{
    if name.len() > 0 && name.last() != DOT {
        let front = name.drop_last();
        lemma_last_dot(front);
        assert forall|j: int| last_dot(name) < j < name.len() implies name[j] != DOT by {
            if j < front.len() {
                assert(front[j] == name[j]);
            }
        }
    }
}

/// A `.` at `i` that no other `.` follows is the last one.
pub proof fn lemma_last_dot_unique(name: Seq<u8>, i: int)
    requires
        0 <= i < name.len(),
        name[i] == DOT,
        forall|j: int| i < j < name.len() ==> name[j] != DOT,
    ensures
        last_dot(name) == i,
{
    lemma_last_dot(name);
}

/// Names that differ only in the case of their ASCII letters have their last
/// `.` at the same place.
pub proof fn lemma_last_dot_ignores_case(a: Seq<u8>, b: Seq<u8>)
    requires
        same_ignoring_case(a, b),
    ensures
        last_dot(a) == last_dot(b),
        (a == parent_dir()) == (b == parent_dir()),
{
    lemma_last_dot(a);
    lemma_last_dot(b);
    assert forall|j: int| 0 <= j < a.len() implies (a[j] == DOT) == (b[j] == DOT) by {
        assert(ascii_lower(a[j]) == ascii_lower(b[j]));
    }
    if last_dot(a) >= 0 {
        lemma_last_dot_unique(b, last_dot(a));
    } else if last_dot(b) >= 0 {
        lemma_last_dot_unique(a, last_dot(b));
    }
    if a == parent_dir() {
        assert(a[0] == DOT && a[1] == DOT);
        assert(b =~= parent_dir());
    }
    if b == parent_dir() {
        assert(b[0] == DOT && b[1] == DOT);
        assert(a =~= parent_dir());
    }
}

/// Matching is case-insensitive: two entries of one kind whose names differ
/// only in the case of their ASCII letters are candidates together or not at
/// all. So `a.PNG`, `a.Png` and `a.png` are all looked at, or none is.
pub proof fn law_candidate_ignores_case(a: EntryView, b: EntryView)
    requires
        a.kind == b.kind,
        same_ignoring_case(a.name, b.name),
    ensures
        candidate(a) == candidate(b),
{
    lemma_last_dot_ignores_case(a.name, b.name);
    lemma_last_dot(a.name);
    let dot = last_dot(a.name);
    if dot > 0 && a.name != parent_dir() {
        let ext_a = a.name.skip(dot + 1);
        let ext_b = b.name.skip(dot + 1);
        assert(same_ignoring_case(ext_a, ext_b)) by {
            assert forall|i: int| 0 <= i < ext_a.len() implies ascii_lower(ext_a[i])
                == ascii_lower(ext_b[i]) by {
                assert(ascii_lower(a.name[dot + 1 + i]) == ascii_lower(b.name[dot + 1 + i]));
            }
        }
        assert(same_ignoring_case(ext_a, png()) == same_ignoring_case(ext_b, png())) by {
            if ext_a.len() == 3 {
                assert(ascii_lower(ext_a[0]) == ascii_lower(ext_b[0]));
                assert(ascii_lower(ext_a[1]) == ascii_lower(ext_b[1]));
                assert(ascii_lower(ext_a[2]) == ascii_lower(ext_b[2]));
            }
        }
    }
}

/// The candidates in closed form: the regular files whose name is longer than
/// four bytes and ends in `.png`, in any case. A file named `a.jpg` is none,
/// whatever it holds.
pub proof fn law_candidate_has_png_suffix(entry: EntryView)
    ensures
        candidate(entry) <==> {
            let len = entry.name.len() as int;
            &&& entry.kind == FileKind::Regular
            &&& len > 4
            &&& entry.name[len - 4] == DOT
            &&& same_ignoring_case(entry.name.skip(len - 3), png())
        },
{
    let name = entry.name;
    let len = name.len() as int;
    lemma_last_dot(name);
    if candidate(entry) {
        let dot = last_dot(name);
        let ext = name.skip(dot + 1);
        assert(ext.len() == 3);
        assert(dot == len - 4);
    }
    if len > 4 && name[len - 4] == DOT && same_ignoring_case(name.skip(len - 3), png()) {
        let ext = name.skip(len - 3);
        assert forall|j: int| len - 4 < j < len implies name[j] != DOT by {
            assert(ascii_lower(ext[j - (len - 3)]) == ascii_lower(png()[j - (len - 3)]));
            assert(name[j] == ext[j - (len - 3)]);
        }
        lemma_last_dot_unique(name, len - 4);
    }
}

/// The lower-case form of `b`.
pub fn to_ascii_lower(b: u8) -> (lower: u8)
    ensures
        lower == ascii_lower(b),
{
    if 0x41 <= b && b <= 0x5a {
        b + 0x20
    } else {
        b
    }
}

/// Whether `a` and `b` are equal up to the case of their ASCII letters.
pub fn eq_ignore_ascii_case(a: &[u8], b: &[u8]) -> (same: bool)
    ensures
        same == same_ignoring_case(a@, b@),
{
    if a.len() != b.len() {
        return false;
    }
    let mut i: usize = 0;
    while i < a.len()
        invariant
            i <= a.len(),
            a.len() == b.len(),
            forall|j: int| 0 <= j < i ==> ascii_lower(a[j]) == ascii_lower(b[j]),
        decreases a.len() - i,
    {
        if to_ascii_lower(a[i]) != to_ascii_lower(b[i]) {
            return false;
        }
        i += 1;
    }
    true
}

/// The extension of the file name `name`, if it has one.
pub fn extension(name: &[u8]) -> (ext: Option<&[u8]>)
    ensures
        match ext {
            Some(e) => extension_of(name@) == Some(e@),
            None => extension_of(name@) is None,
        },
{
    let len = name.len();
    let mut i: usize = len;
    while i > 0
        invariant
            i <= len,
            len == name.len(),
            forall|j: int| i <= j < len ==> name[j] != DOT,
        decreases i,
    {
        i -= 1;
        if name[i] == DOT {
            proof {
                lemma_last_dot_unique(name@, i as int);
            }
            if i == 0 || (len == 2 && name[0] == DOT) {
                assert(i != 0 ==> name@ =~= parent_dir());
                return None;
            }
            assert(name@ != parent_dir());
            return Some(slice_subrange(name, i + 1, len));
        }
    }
    proof {
        lemma_last_dot(name@);
        if last_dot(name@) >= 0 {
            assert(name[last_dot(name@)] == DOT);
        }
    }
    None
}

/// Whether the file name `name` has the extension `png`, in any case.
pub fn has_png_extension(name: &[u8]) -> (named: bool)
    ensures
        named == png_named(name@),
{
    let lower: [u8; 3] = [0x70, 0x6e, 0x67];
    assert(lower@ =~= png());
    match extension(name) {
        Some(ext) => eq_ignore_ascii_case(ext, lower.as_slice()),
        None => false,
    }
}

impl FileEntry {
    /// An entry with the given name and kind.
    pub fn new(name: Vec<u8>, kind: FileKind) -> (entry: FileEntry)
        ensures
            entry@ == (EntryView { name: name@, kind }),
    {
        FileEntry { name, kind }
    }

    /// Whether the sweep looks at this entry: it is a regular file and its
    /// name has the extension `png`, in any case.
    pub fn is_candidate(&self) -> (selected: bool)
        ensures
            selected == candidate(self@),
    {
        match self.kind {
            FileKind::Regular => has_png_extension(self.name.as_slice()),
            _ => false,
        }
    }
}

} // verus!
