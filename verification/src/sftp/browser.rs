//! Remote file browsing: entries, errors, transfer progress and permission strings.
use vstd::prelude::*;

use std::sync::atomic::AtomicU64;
use std::sync::Arc;

use crate::text::{chars_lt, lemma_chars_lt_asym, lemma_chars_lt_total, lemma_chars_lt_trans, push_char, str_eq, str_lt};

verus! {

/// Errors of remote file operations.
#[derive(Debug)]
pub enum SftpError {
    NotConnected,
    Sftp(String),
    Io(std::io::Error),
    NotFound(String),
    PermissionDenied(String),
}

/// The kind of a directory entry.
#[derive(Debug, Clone, Copy, PartialEq, Eq, Structural)]
pub enum EntryType {
    File,
    Directory,
    Symlink,
    Unknown,
}

/// A directory entry.
#[derive(Debug, Clone)]
pub struct DirEntry {
    pub name: String,
    pub entry_type: EntryType,
    /// Size in bytes.
    pub size: u64,
    /// Last change, in seconds since the Unix epoch.
    pub modified: u64,
    /// Permissions as `rwxr-xr-x`.
    pub permissions: String,
}

/// The progress of a file transfer.
#[derive(Debug, Clone)]
pub struct TransferProgress {
    /// The file's name.
    pub name: String,
    /// Total bytes.
    pub total: u64,
    /// Bytes transferred so far, updated while the transfer runs.
    pub transferred: Arc<AtomicU64>,
    pub complete: bool,
    /// The error, if the transfer failed.
    pub error: Option<String>,
}

impl TransferProgress {
    /// The progress of a transfer that has not started.
    pub fn new(name: String, total: u64) -> (p: Self)
        ensures
            p.name == name,
            p.total == total,
            !p.complete,
            p.error is None,
    {
        TransferProgress { name, total, transferred: Arc::new(AtomicU64::new(0)), complete: false, error: None }
    }
}

/// The permission character for a bit: `c` when set, `-` otherwise.
pub open spec fn perm_char(mode: u32, bit: u32, c: char) -> char {
    if mode & bit != 0 { c } else { '-' }
}

/// The `rwxrwxrwx` string of a mode's owner, group and other permission bits.
pub open spec fn permission_text(mode: u32) -> Seq<char> {
    seq![
        perm_char(mode, 0o400, 'r'), perm_char(mode, 0o200, 'w'), perm_char(mode, 0o100, 'x'),
        perm_char(mode, 0o040, 'r'), perm_char(mode, 0o020, 'w'), perm_char(mode, 0o010, 'x'),
        perm_char(mode, 0o004, 'r'), perm_char(mode, 0o002, 'w'), perm_char(mode, 0o001, 'x'),
    ]
}

/// Law: the permission text has nine characters, three for the owner, then three for the
/// group, then three for others; character `i` is set exactly when bit `8 - i` of the mode
/// is (owner read 0o400 down to other execute 0o001), and then it is `r`, `w` or `x` as
/// `i` is the first, second or third of its triple; an unset bit shows `-`.
pub proof fn lemma_permission_bits(mode: u32, i: int)
    requires
        0 <= i < 9,
    ensures
        permission_text(mode).len() == 9,
        permission_text(mode)[i] == if (mode >> ((8 - i) as u32)) & 1u32 == 1u32 {
            if i % 3 == 0 { 'r' } else if i % 3 == 1 { 'w' } else { 'x' }
        } else {
            '-'
        },
{
    assert(
        ((mode & 0o400u32 != 0) == ((mode >> 8u32) & 1u32 == 1u32))
        && ((mode & 0o200u32 != 0) == ((mode >> 7u32) & 1u32 == 1u32))
        && ((mode & 0o100u32 != 0) == ((mode >> 6u32) & 1u32 == 1u32))
        && ((mode & 0o040u32 != 0) == ((mode >> 5u32) & 1u32 == 1u32))
        && ((mode & 0o020u32 != 0) == ((mode >> 4u32) & 1u32 == 1u32))
        && ((mode & 0o010u32 != 0) == ((mode >> 3u32) & 1u32 == 1u32))
        && ((mode & 0o004u32 != 0) == ((mode >> 2u32) & 1u32 == 1u32))
        && ((mode & 0o002u32 != 0) == ((mode >> 1u32) & 1u32 == 1u32))
        && ((mode & 0o001u32 != 0) == ((mode >> 0u32) & 1u32 == 1u32))
    ) by (bit_vector);
}

fn perm(mode: u32, bit: u32, c: char) -> (r: char)
    ensures
        r == perm_char(mode, bit, c),
{
    if mode & bit != 0 { c } else { '-' }
}

/// The `rwxrwxrwx` string of a file mode.
pub fn format_permissions(mode: u32) -> (s: String)
    ensures
        s@ == permission_text(mode),
{
    let mut s = String::new();
    push_char(&mut s, perm(mode, 0o400, 'r'));
    push_char(&mut s, perm(mode, 0o200, 'w'));
    push_char(&mut s, perm(mode, 0o100, 'x'));
    push_char(&mut s, perm(mode, 0o040, 'r'));
    push_char(&mut s, perm(mode, 0o020, 'w'));
    push_char(&mut s, perm(mode, 0o010, 'x'));
    push_char(&mut s, perm(mode, 0o004, 'r'));
    push_char(&mut s, perm(mode, 0o002, 'w'));
    push_char(&mut s, perm(mode, 0o001, 'x'));
    assert(s@ =~= permission_text(mode));
    s
}

/// One item of a remote directory as the server reports it: its name, what its file type says
/// it is, and the size, modification time and mode that its attributes hold, where they hold one.
pub struct ListedItem {
    pub name: String,
    pub is_dir: bool,
    pub is_symlink: bool,
    pub is_file: bool,
    pub size: Option<u64>,
    pub mtime: Option<u32>,
    pub permissions: Option<u32>,
}

/// A directory entry as plain values: name, type, size, modification time, permission text.
pub type EntryView = (Seq<char>, EntryType, u64, u64, Seq<char>);

impl View for DirEntry {
    type V = EntryView;

    open spec fn view(&self) -> EntryView {
        (self.name@, self.entry_type, self.size, self.modified, self.permissions@)
    }
}

/// The entry type of an item: a directory, else a symbolic link, else a regular file.
pub open spec fn entry_type_of(is_dir: bool, is_symlink: bool, is_file: bool) -> EntryType {
    if is_dir {
        EntryType::Directory
    } else if is_symlink {
        EntryType::Symlink
    } else if is_file {
        EntryType::File
    } else {
        EntryType::Unknown
    }
}

/// The names `.` and `..`, which a listing leaves out.
pub open spec fn is_dot_name(name: Seq<char>) -> bool {
    name == seq!['.'] || name == seq!['.', '.']
}

/// The entry that an item becomes; a missing attribute counts as zero.
pub open spec fn item_entry(item: ListedItem) -> EntryView {
    (
        item.name@,
        entry_type_of(item.is_dir, item.is_symlink, item.is_file),
        match item.size {
            Some(n) => n,
            None => 0,
        },
        match item.mtime {
            Some(t) => t as u64,
            None => 0,
        },
        permission_text(
            match item.permissions {
                Some(m) => m,
                None => 0,
            },
        ),
    )
}

/// The entries of a listing in the server's order: every item but `.` and `..`.
pub open spec fn listing(items: Seq<ListedItem>) -> Seq<EntryView>
    decreases items.len(),
{
    if items.len() == 0 {
        seq![]
    } else if is_dot_name(items.last().name@) {
        listing(items.drop_last())
    } else {
        listing(items.drop_last()).push(item_entry(items.last()))
    }
}

/// Whether an entry is a directory.
pub open spec fn is_dir_entry(e: EntryView) -> bool {
    e.1 == EntryType::Directory
}

/// Whether `a` is listed before `b`: directories first, then by name.
pub open spec fn entry_before(a: EntryView, b: EntryView) -> bool {
    (is_dir_entry(a) && !is_dir_entry(b)) || (is_dir_entry(a) == is_dir_entry(b) && chars_lt(a.0, b.0))
}

/// Whether entries stand in listing order: none comes before one that precedes it.
pub open spec fn in_listing_order(s: Seq<EntryView>) -> bool {
    forall|i: int, j: int| 0 <= i < j < s.len() ==> !#[trigger] entry_before(s[j], s[i])
}

/// The plain values of a sequence of entries.
pub open spec fn entry_views(s: Seq<DirEntry>) -> Seq<EntryView> {
    s.map_values(|e: DirEntry| e@)
}

/// The listing order is asymmetric.
pub proof fn lemma_entry_before_asym(a: EntryView, b: EntryView)
    ensures
        entry_before(a, b) ==> !entry_before(b, a),
{
    lemma_chars_lt_asym(a.0, b.0);
}

/// Not coming before is transitive: if `b` is not before `a` and `c` not before `b`, then `c`
/// is not before `a`.
pub proof fn lemma_entry_not_before_trans(a: EntryView, b: EntryView, c: EntryView)
    requires
        !entry_before(b, a),
        !entry_before(c, b),
    ensures
        !entry_before(c, a),
{
    lemma_chars_lt_total(a.0, b.0);
    if chars_lt(c.0, a.0) && chars_lt(a.0, b.0) {
        lemma_chars_lt_trans(c.0, a.0, b.0);
    }
}

proof fn lemma_insert_to_multiset<A>(s: Seq<A>, p: int, x: A)
    requires
        0 <= p <= s.len(),
    ensures
        s.insert(p, x).to_multiset() =~= s.to_multiset().insert(x),
{
    broadcast use vstd::seq_lib::group_to_multiset_ensures, vstd::multiset::group_multiset_axioms;
    let t = s.insert(p, x);
    assert(t.remove(p) =~= s);
    assert(t[p] == x);
    assert(t.contains(x));
    assert(t.to_multiset().count(x) > 0);
}

fn is_dot(name: &String) -> (b: bool)
    ensures
        b == is_dot_name(name@),
{
    proof {
        reveal_strlit(".");
        reveal_strlit("..");
        assert(".".view() =~= seq!['.']);
        assert("..".view() =~= seq!['.', '.']);
    }
    str_eq(name.as_str(), ".") || str_eq(name.as_str(), "..")
}

fn before(a: &DirEntry, b: &DirEntry) -> (r: bool)
    ensures
        r == entry_before(a@, b@),
{
    let a_dir = a.entry_type == EntryType::Directory;
    let b_dir = b.entry_type == EntryType::Directory;
    (a_dir && !b_dir) || (a_dir == b_dir && str_lt(a.name.as_str(), b.name.as_str()))
}

/// Where an entry goes in a listing in order: after every entry that comes before it.
fn insertion_point(sorted: &Vec<DirEntry>, e: &DirEntry) -> (p: usize)
    ensures
        p <= sorted.len(),
        forall|k: int| 0 <= k < p ==> entry_before(#[trigger] sorted@[k]@, e@),
        p < sorted.len() ==> !entry_before(sorted@[p as int]@, e@),
{
    let mut p: usize = 0;
    while p < sorted.len() && before(&sorted[p], e)
        invariant
            p <= sorted.len(),
            forall|k: int| 0 <= k < p ==> entry_before(#[trigger] sorted@[k]@, e@),
        decreases sorted.len() - p,
    {
        p += 1;
    }
    p
}

fn insert_in_order(sorted: &mut Vec<DirEntry>, e: DirEntry)
    requires
        in_listing_order(entry_views(old(sorted)@)),
    ensures
        in_listing_order(entry_views(final(sorted)@)),
        entry_views(final(sorted)@).to_multiset() == entry_views(old(sorted)@).to_multiset().insert(e@),
{
    let p = insertion_point(sorted, &e);
    let ghost before_views = entry_views(sorted@);
    let ghost x = e@;
    sorted.insert(p, e);
    proof {
        let v = entry_views(sorted@);
        assert(v =~= before_views.insert(p as int, x));
        lemma_insert_to_multiset(before_views, p as int, x);
        assert forall|i: int, j: int| 0 <= i < j < v.len() implies !#[trigger] entry_before(v[j], v[i]) by {
            if j < p {
                assert(v[i] == before_views[i] && v[j] == before_views[j]);
            } else if j == p {
                assert(v[i] == before_views[i]);
                assert(entry_before(before_views[i], x));
                lemma_entry_before_asym(before_views[i], x);
            } else if i == p {
                assert(v[j] == before_views[j - 1]);
                if j - 1 > p {
                    assert(!entry_before(before_views[j - 1], before_views[p as int]));
                    lemma_entry_not_before_trans(x, before_views[p as int], before_views[j - 1]);
                }
            } else if i < p {
                assert(v[i] == before_views[i] && v[j] == before_views[j - 1]);
            } else {
                assert(v[i] == before_views[i - 1] && v[j] == before_views[j - 1]);
            }
        }
    }
}

/// The entries of a directory listing: every item but `.` and `..`, each with its type, size,
/// modification time and permission text, directories first and then by name.
pub fn directory_entries(items: &Vec<ListedItem>) -> (r: Vec<DirEntry>)
    ensures
        in_listing_order(entry_views(r@)),
        entry_views(r@).to_multiset() == listing(items@).to_multiset(),
{
    let mut entries: Vec<DirEntry> = Vec::new();
    let mut i: usize = 0;
    while i < items.len()
        invariant
            i <= items.len(),
            entry_views(entries@) =~= listing(items@.take(i as int)),
        decreases items.len() - i,
    {
        let item = &items[i];
        assert(items@.take(i + 1).drop_last() =~= items@.take(i as int));
        if !is_dot(&item.name) {
            let entry_type = if item.is_dir {
                EntryType::Directory
            } else if item.is_symlink {
                EntryType::Symlink
            } else if item.is_file {
                EntryType::File
            } else {
                EntryType::Unknown
            };
            let size: u64 = match item.size {
                Some(n) => n,
                None => 0,
            };
            let modified: u64 = match item.mtime {
                Some(t) => t as u64,
                None => 0,
            };
            let mode: u32 = match item.permissions {
                Some(m) => m,
                None => 0,
            };
            let permissions = format_permissions(mode);
            let entry = DirEntry { name: item.name.clone(), entry_type, size, modified, permissions };
            let ghost old_views = entry_views(entries@);
            entries.push(entry);
            assert(entry_views(entries@) =~= old_views.push(entry@));
        }
        i += 1;
    }
    assert(items@.take(items.len() as int) =~= items@);
    let ghost total = listing(items@).to_multiset();
    let mut sorted: Vec<DirEntry> = Vec::new();
    proof {
        broadcast use vstd::seq_lib::group_to_multiset_ensures, vstd::multiset::group_multiset_axioms;
        assert(entry_views(sorted@) =~= Seq::<EntryView>::empty());
        assert(entry_views(sorted@).to_multiset() =~= vstd::multiset::Multiset::empty());
        assert(entry_views(sorted@).to_multiset().add(entry_views(entries@).to_multiset()) =~= total);
    }
    while entries.len() > 0
        invariant
            in_listing_order(entry_views(sorted@)),
            entry_views(sorted@).to_multiset().add(entry_views(entries@).to_multiset()) == total,
        decreases entries.len(),
    {
        let ghost views = entry_views(entries@);
        let e = entries.pop().unwrap();
        proof {
            broadcast use vstd::seq_lib::group_to_multiset_ensures, vstd::multiset::group_multiset_axioms;
            assert(entry_views(entries@) =~= views.drop_last());
            assert(views.drop_last().push(views.last()) =~= views);
            assert(views.last() == e@);
        }
        let ghost sorted_before = entry_views(sorted@).to_multiset();
        insert_in_order(&mut sorted, e);
        proof {
            broadcast use vstd::seq_lib::group_to_multiset_ensures, vstd::multiset::group_multiset_axioms;
            assert(entry_views(sorted@).to_multiset().add(entry_views(entries@).to_multiset()) =~= total);
        }
    }
    proof {
        broadcast use vstd::seq_lib::group_to_multiset_ensures, vstd::multiset::group_multiset_axioms;
        assert(entry_views(entries@) =~= Seq::<EntryView>::empty());
        assert(entry_views(sorted@).to_multiset() =~= total);
    }
    sorted
}

} // verus!
