//! What is known of an item's metadata, and the order in which a folder's
//! items are listed when sorted by a column. Times are nanoseconds from the
//! Unix epoch; names are compared by their rank in the locale's order.

use vstd::prelude::*;
use crate::tab::HeadingOptions;

verus! {

/// The size of an item in the trash: entries for a folder, bytes for a file.
#[derive(Clone, Copy, Debug, PartialEq, Eq, Structural)]
pub enum TrashItemSize {
    Entries(usize),
    Bytes(u64),
}

/// The metadata of an item, by where it was read from.
#[derive(Clone, Copy, Debug, PartialEq, Eq, Structural)]
pub enum ItemMetadata {
    /// A local path: whether it is a folder, its length, its modification
    /// time where the platform gives one, and its number of children once
    /// counted.
    Path { is_dir: bool, len: u64, modified: Option<i128>, children_opt: Option<usize> },
    /// An item in the trash, with the time at which it was deleted (seconds).
    Trash { size: TrashItemSize, time_deleted: i64 },
    /// A folder known by its number of entries.
    SimpleDir { entries: u64 },
    /// A file known by its size.
    SimpleFile { size: u64 },
    /// A path of a virtual file system: modification time in seconds, size
    /// where known, number of children for a folder.
    GvfsPath { mtime: u64, size_opt: Option<u64>, children_opt: Option<usize> },
}

impl ItemMetadata {
    pub open spec fn spec_is_dir(self) -> bool {
        match self {
            ItemMetadata::Path { is_dir, .. } => is_dir,
            ItemMetadata::Trash { size, .. } => size is Entries,
            ItemMetadata::SimpleDir { .. } => true,
            ItemMetadata::SimpleFile { .. } => false,
            ItemMetadata::GvfsPath { children_opt, .. } => children_opt is Some,
        }
    }

    pub open spec fn spec_modified(self) -> Option<i128> {
        match self {
            ItemMetadata::Path { modified, .. } => modified,
            ItemMetadata::GvfsPath { mtime, .. } => Some((mtime * 1_000_000_000) as i128),
            _ => None,
        }
    }

    pub open spec fn spec_file_size(self) -> Option<u64> {
        match self {
            ItemMetadata::Path { is_dir, len, .. } => if is_dir {
                None
            } else {
                Some(len)
            },
            ItemMetadata::Trash { size, .. } => match size {
                TrashItemSize::Bytes(b) => Some(b),
                TrashItemSize::Entries(_) => None,
            },
            ItemMetadata::GvfsPath { size_opt, .. } => size_opt,
            _ => None,
        }
    }

    /// What the size column compares: whether the item counts entries (a
    /// folder), and the count or the size in bytes (zero where unknown).
    pub open spec fn spec_sort_size(self) -> (bool, u64) {
        match self {
            ItemMetadata::Path { is_dir, len, children_opt, .. } => if is_dir {
                (
                    true,
                    match children_opt {
                        Some(c) => c as u64,
                        None => 0,
                    },
                )
            } else {
                (false, len)
            },
            ItemMetadata::Trash { size, .. } => match size {
                TrashItemSize::Entries(e) => (true, e as u64),
                TrashItemSize::Bytes(b) => (false, b),
            },
            ItemMetadata::SimpleDir { entries } => (true, entries),
            ItemMetadata::SimpleFile { size } => (false, size),
            ItemMetadata::GvfsPath { size_opt, children_opt, .. } => match children_opt {
                Some(c) => (true, c as u64),
                None => (
                    false,
                    match size_opt {
                        Some(s) => s,
                        None => 0,
                    },
                ),
            },
        }
    }

    pub open spec fn spec_time_deleted(self) -> Option<i64> {
        match self {
            ItemMetadata::Trash { time_deleted, .. } => Some(time_deleted),
            _ => None,
        }
    }

    /// Whether the item is a folder.
    pub fn is_dir(&self) -> (r: bool)
        ensures
            r == self.spec_is_dir(),
    {
        match self {
            ItemMetadata::Path { is_dir, .. } => *is_dir,
            ItemMetadata::Trash { size, .. } => match size {
                TrashItemSize::Entries(_) => true,
                TrashItemSize::Bytes(_) => false,
            },
            ItemMetadata::SimpleDir { .. } => true,
            ItemMetadata::SimpleFile { .. } => false,
            ItemMetadata::GvfsPath { children_opt, .. } => children_opt.is_some(),
        }
    }

    /// When the item was last modified, where known.
    pub fn modified(&self) -> (r: Option<i128>)
        ensures
            r == self.spec_modified(),
    {
        match self {
            ItemMetadata::Path { modified, .. } => *modified,
            ItemMetadata::GvfsPath { mtime, .. } => {
                let m: i128 = *mtime as i128;
                assert(0 <= m * 1_000_000_000 < 0x1_0000_0000_0000_0000 * 1_000_000_000) by (nonlinear_arith)
                    requires
                        0 <= m < 0x1_0000_0000_0000_0000,
                ;
                Some(m * 1_000_000_000)
            },
            _ => None,
        }
    }

    /// The size of a file in bytes; none for a folder or where unknown.
    pub fn file_size(&self) -> (r: Option<u64>)
        ensures
            r == self.spec_file_size(),
    {
        match self {
            ItemMetadata::Path { is_dir, len, .. } => if *is_dir {
                None
            } else {
                Some(*len)
            },
            ItemMetadata::Trash { size, .. } => match size {
                TrashItemSize::Bytes(b) => Some(*b),
                TrashItemSize::Entries(_) => None,
            },
            ItemMetadata::GvfsPath { size_opt, .. } => *size_opt,
            _ => None,
        }
    }

    /// What the size column compares.
    pub fn sort_size(&self) -> (r: (bool, u64))
        ensures
            r == self.spec_sort_size(),
    {
        match self {
            ItemMetadata::Path { is_dir, len, children_opt, .. } => if *is_dir {
                (
                    true,
                    match children_opt {
                        Some(c) => *c as u64,
                        None => 0,
                    },
                )
            } else {
                (false, *len)
            },
            ItemMetadata::Trash { size, .. } => match size {
                TrashItemSize::Entries(e) => (true, *e as u64),
                TrashItemSize::Bytes(b) => (false, *b),
            },
            ItemMetadata::SimpleDir { entries } => (true, *entries),
            ItemMetadata::SimpleFile { size } => (false, *size),
            ItemMetadata::GvfsPath { size_opt, children_opt, .. } => match children_opt {
                Some(c) => (true, *c as u64),
                None => (
                    false,
                    match size_opt {
                        Some(s) => *s,
                        None => 0,
                    },
                ),
            },
        }
    }

    /// When the item was put in the trash, for an item in the trash.
    pub fn time_deleted(&self) -> (r: Option<i64>)
        ensures
            r == self.spec_time_deleted(),
    {
        match self {
            ItemMetadata::Trash { time_deleted, .. } => Some(*time_deleted),
            _ => None,
        }
    }
}

/// An item as the sort sees it: its metadata and the rank of its displayed
/// name in the locale's order of names (equal names, equal ranks).
#[derive(Clone, Copy, Debug, PartialEq, Eq, Structural)]
pub struct SortEntry {
    pub metadata: ItemMetadata,
    pub name_rank: u64,
}

/// What an item is compared by: a group that comes first whatever the
/// direction (0 before 1), then a value, absent values first.
#[derive(Clone, Copy, Debug, PartialEq, Eq, Structural)]
pub struct SortKey {
    pub group: u8,
    pub value: Option<i128>,
}

/// The key of an item under a sort. Sorting by size puts the folders
/// first; the other columns put them first only with `folders_first`.
pub open spec fn spec_sort_key(e: SortEntry, heading: HeadingOptions, folders_first: bool) -> SortKey {
    let group: u8 = match heading {
        HeadingOptions::Size => if e.metadata.spec_sort_size().0 {
            0
        } else {
            1
        },
        _ => if folders_first && !e.metadata.spec_is_dir() {
            1
        } else {
            0
        },
    };
    let value: Option<i128> = match heading {
        HeadingOptions::Name => Some(e.name_rank as i128),
        HeadingOptions::Modified => e.metadata.spec_modified(),
        HeadingOptions::Size => Some(e.metadata.spec_sort_size().1 as i128),
        HeadingOptions::TrashedOn => match e.metadata.spec_time_deleted() {
            Some(t) => Some(t as i128),
            None => None,
        },
    };
    SortKey { group, value }
}

/// Whether values are compared in ascending order: in the sort's direction,
/// except that deletion times without `folders_first` go against it.
pub open spec fn spec_ascending(heading: HeadingOptions, dir: bool, folders_first: bool) -> bool {
    if heading == HeadingOptions::TrashedOn && !folders_first {
        !dir
    } else {
        dir
    }
}

/// The comparison of two optional values, absent first: -1, 0 or 1.
pub open spec fn spec_value_order(a: Option<i128>, b: Option<i128>) -> int {
    match (a, b) {
        (None, None) => 0,
        (None, Some(_)) => -1,
        (Some(_), None) => 1,
        (Some(x), Some(y)) => if x < y {
            -1
        } else if x > y {
            1
        } else {
            0
        },
    }
}

/// The comparison of two keys: by group, then by value in the given order.
pub open spec fn spec_key_order(a: SortKey, b: SortKey, asc: bool) -> int {
    if a.group < b.group {
        -1
    } else if a.group > b.group {
        1
    } else if asc {
        spec_value_order(a.value, b.value)
    } else {
        spec_value_order(b.value, a.value)
    }
}

/// Whether item `a` is listed before item `b`: its key is smaller, or the
/// keys are equal and it came first (the sort is stable).
pub open spec fn spec_before(keys: Seq<SortKey>, asc: bool, a: usize, b: usize) -> bool {
    let c = spec_key_order(keys[a as int], keys[b as int], asc);
    c < 0 || (c == 0 && a < b)
}

/// The listing order is transitive.
pub proof fn lemma_before_transitive(keys: Seq<SortKey>, asc: bool, a: usize, b: usize, c: usize)
    requires
        spec_before(keys, asc, a, b),
        spec_before(keys, asc, b, c),
    ensures
        spec_before(keys, asc, a, c),
{
}

/// The listing order is irreflexive and total.
pub proof fn lemma_before_total(keys: Seq<SortKey>, asc: bool, a: usize, b: usize)
    ensures
        !spec_before(keys, asc, a, a),
        a != b ==> (spec_before(keys, asc, a, b) <==> !spec_before(keys, asc, b, a)),
{
}

/// Whether `r` lists the indices of `keys`, each once, in the listing order.
pub open spec fn sorted_listing(keys: Seq<SortKey>, asc: bool, r: Seq<usize>) -> bool {
    &&& r.len() == keys.len()
    &&& forall|i: int| 0 <= i < r.len() ==> #[trigger] r[i] < keys.len()
    &&& forall|i: int, j: int| 0 <= i < j < r.len() ==> spec_before(keys, asc, #[trigger] r[i], #[trigger] r[j])
}

/// A listing holds every index.
proof fn lemma_listing_complete(keys: Seq<SortKey>, asc: bool, r: Seq<usize>, x: int)
    requires
        sorted_listing(keys, asc, r),
        0 <= x < keys.len(),
    ensures
        exists|i: int| 0 <= i < r.len() && r[i] == x,
{
    let s = r.map_values(|v: usize| v as int);
    assert forall|a: int, b: int| 0 <= a < s.len() && 0 <= b < s.len() && a != b implies s[a] != s[b] by {
        lemma_before_total(keys, asc, r[a], r[a]);
        if a < b {
            assert(spec_before(keys, asc, r[a], r[b]));
        } else {
            assert(spec_before(keys, asc, r[b], r[a]));
        }
    }
    assert(s.no_duplicates());
    s.unique_seq_to_set();
    let full = vstd::set_lib::set_int_range(0, keys.len() as int);
    vstd::set_lib::lemma_int_range(0, keys.len() as int);
    assert(s.to_set().subset_of(full)) by {
        assert forall|v: int| s.to_set().contains(v) implies full.contains(v) by {
            assert(s.contains(v));
            let i = choose|i: int| 0 <= i < s.len() && s[i] == v;
            assert(r[i] < keys.len());
        }
    }
    vstd::set_lib::lemma_subset_equality(s.to_set(), full);
    assert(full.contains(x));
    assert(s.to_set().contains(x));
    assert(s.contains(x));
    let i = choose|i: int| 0 <= i < s.len() && s[i] == x;
    assert(r[i] == x);
}

/// Two listings agree up to position `i`.
proof fn lemma_listings_agree(keys: Seq<SortKey>, asc: bool, r1: Seq<usize>, r2: Seq<usize>, i: int)
    requires
        sorted_listing(keys, asc, r1),
        sorted_listing(keys, asc, r2),
        0 <= i < r1.len(),
    ensures
        forall|j: int| 0 <= j <= i ==> r1[j] == r2[j],
    decreases i,
{
    if i > 0 {
        lemma_listings_agree(keys, asc, r1, r2, i - 1);
    }
    let x = r1[i];
    let y = r2[i];
    if x != y {
        lemma_listing_complete(keys, asc, r1, y as int);
        let p = choose|p: int| 0 <= p < r1.len() && r1[p] == y;
        lemma_listing_complete(keys, asc, r2, x as int);
        let q = choose|q: int| 0 <= q < r2.len() && r2[q] == x;
        lemma_before_total(keys, asc, y, y);
        lemma_before_total(keys, asc, x, x);
        if p < i {
            assert(r2[p] == y);
            assert(spec_before(keys, asc, r2[p], r2[i]));
        }
        if q < i {
            assert(r1[q] == x);
            assert(spec_before(keys, asc, r1[q], r1[i]));
        }
        assert(spec_before(keys, asc, r1[i], r1[p]));
        assert(spec_before(keys, asc, r2[i], r2[q]));
        lemma_before_total(keys, asc, x, y);
    }
}

/// The listing order leaves no choice: two listings of the same keys in the
/// listing order are the same.
pub proof fn lemma_listing_unique(keys: Seq<SortKey>, asc: bool, r1: Seq<usize>, r2: Seq<usize>)
    requires
        sorted_listing(keys, asc, r1),
        sorted_listing(keys, asc, r2),
    ensures
        r1 == r2,
{
    if r1.len() > 0 {
        lemma_listings_agree(keys, asc, r1, r2, r1.len() - 1);
    }
    assert(r1 =~= r2);
}

/// The key of an item under a sort.
pub fn sort_key(e: &SortEntry, heading: HeadingOptions, folders_first: bool) -> (r: SortKey)
    ensures
        r == spec_sort_key(*e, heading, folders_first),
{
    let group: u8 = match heading {
        HeadingOptions::Size => if e.metadata.sort_size().0 {
            0
        } else {
            1
        },
        _ => if folders_first && !e.metadata.is_dir() {
            1
        } else {
            0
        },
    };
    let value: Option<i128> = match heading {
        HeadingOptions::Name => Some(e.name_rank as i128),
        HeadingOptions::Modified => e.metadata.modified(),
        HeadingOptions::Size => Some(e.metadata.sort_size().1 as i128),
        HeadingOptions::TrashedOn => match e.metadata.time_deleted() {
            Some(t) => Some(t as i128),
            None => None,
        },
    };
    SortKey { group, value }
}

/// The comparison of two keys: -1, 0 or 1.
pub fn key_order(a: &SortKey, b: &SortKey, asc: bool) -> (r: i8)
    ensures
        r == spec_key_order(*a, *b, asc),
{
    if a.group < b.group {
        return -1;
    }
    if a.group > b.group {
        return 1;
    }
    let (x, y) = if asc {
        (a.value, b.value)
    } else {
        (b.value, a.value)
    };
    match (x, y) {
        (None, None) => 0,
        (None, Some(_)) => -1,
        (Some(_), None) => 1,
        (Some(p), Some(q)) => if p < q {
            -1
        } else if p > q {
            1
        } else {
            0
        },
    }
}

/// Lists the indices of `keys` in the listing order: each index once,
/// ordered by key, equal keys in their original order.
pub fn stable_sort_indices(keys: &Vec<SortKey>, asc: bool) -> (r: Vec<usize>)
    ensures
        sorted_listing(keys@, asc, r@),
{
    let n = keys.len();
    let mut r: Vec<usize> = Vec::new();
    let mut x: usize = 0;
    while x < n
        invariant
            n == keys@.len(),
            x <= n,
            r@.len() == x,
            forall|i: int| 0 <= i < r@.len() ==> #[trigger] r@[i] < x,
            forall|i: int, j: int|
                0 <= i < j < r@.len() ==> spec_before(keys@, asc, #[trigger] r@[i], #[trigger] r@[j]),
        decreases n - x,
    {
        let mut j: usize = r.len();
        while j > 0 && key_order(&keys[r[j - 1]], &keys[x], asc) > 0
            invariant
                n == keys@.len(),
                x < n,
                j <= r@.len(),
                r@.len() == x,
                forall|i: int| 0 <= i < r@.len() ==> #[trigger] r@[i] < x,
                forall|m: int| j <= m < r@.len() ==> spec_before(keys@, asc, x, #[trigger] r@[m]),
            decreases j,
        {
            j = j - 1;
        }
        let ghost old_r = r@;
        proof {
            if j > 0 {
                assert(spec_before(keys@, asc, old_r[j - 1], x));
            }
        }
        r.insert(j, x);
        proof {
            let s = r@;
            assert(s == old_r.insert(j as int, x));
            assert forall|i: int| 0 <= i < s.len() implies #[trigger] s[i] < x + 1 by {
                if i < j {
                    assert(s[i] == old_r[i]);
                } else if i > j {
                    assert(s[i] == old_r[i - 1]);
                }
            }
            assert forall|p: int, q: int| 0 <= p < q < s.len() implies spec_before(
                keys@,
                asc,
                #[trigger] s[p],
                #[trigger] s[q],
            ) by {
                if q < j {
                    assert(s[p] == old_r[p] && s[q] == old_r[q]);
                } else if p > j {
                    assert(s[p] == old_r[p - 1] && s[q] == old_r[q - 1]);
                } else if q == j {
                    assert(s[p] == old_r[p]);
                    assert(s[q] == x);
                    if p < j - 1 {
                        assert(spec_before(keys@, asc, old_r[p], old_r[j - 1]));
                        lemma_before_transitive(keys@, asc, old_r[p], old_r[j - 1], x);
                    }
                } else if p == j {
                    assert(s[p] == x);
                    assert(s[q] == old_r[q - 1]);
                } else {
                    assert(s[p] == old_r[p] && s[q] == old_r[q - 1]);
                }
            }
        }
        x = x + 1;
    }
    r
}

/// Whether `r` lists the indices of `entries` in the order of a sort
/// (column, direction, folders first).
pub open spec fn sorted_by(entries: Seq<SortEntry>, options: (HeadingOptions, bool, bool), r: Seq<usize>) -> bool {
    let (heading, dir, folders_first) = options;
    sorted_listing(
        Seq::new(entries.len(), |i: int| spec_sort_key(entries[i], heading, folders_first)),
        spec_ascending(heading, dir, folders_first),
        r,
    )
}

/// The order in which items are listed under a sort (column, direction,
/// folders first): the indices of `entries`, each once, by key, equal keys
/// in the order of `entries`.
pub fn column_sort(entries: &Vec<SortEntry>, options: (HeadingOptions, bool, bool)) -> (r: Vec<usize>)
    ensures
        sorted_by(entries@, options, r@),
{
    let (heading, dir, folders_first) = options;
    let mut keys: Vec<SortKey> = Vec::new();
    let mut i: usize = 0;
    while i < entries.len()
        invariant
            i <= entries@.len(),
            keys@.len() == i,
            forall|k: int| 0 <= k < i ==> #[trigger] keys@[k] == spec_sort_key(entries@[k], heading, folders_first),
        decreases entries@.len() - i,
    {
        keys.push(sort_key(&entries[i], heading, folders_first));
        i = i + 1;
    }
    let asc = if heading == HeadingOptions::TrashedOn && !folders_first {
        !dir
    } else {
        dir
    };
    let r = stable_sort_indices(&keys, asc);
    assert(keys@ =~= Seq::new(entries@.len(), |k: int| spec_sort_key(entries@[k], heading, folders_first)));
    r
}


/// With folders first, under any column but size, every folder is listed
/// before every file, whatever their names, dates or deletion times: in a
/// sorted listing `r`, a file at position `i` and a folder at position `j`
/// have `j < i`.
pub proof fn lemma_folders_listed_first(
    entries: Seq<SortEntry>,
    options: (HeadingOptions, bool, bool),
    r: Seq<usize>,
    i: int,
    j: int,
)
    requires
        sorted_by(entries, options, r),
        options.0 != HeadingOptions::Size,
        options.2,
        0 <= i < r.len(),
        0 <= j < r.len(),
        !entries[r[i] as int].metadata.spec_is_dir(),
        entries[r[j] as int].metadata.spec_is_dir(),
    ensures
        j < i,
{
    let (heading, dir, folders_first) = options;
    let keys = Seq::new(entries.len(), |k: int| spec_sort_key(entries[k], heading, folders_first));
    let asc = spec_ascending(heading, dir, folders_first);
    assert(r[i] < keys.len() && r[j] < keys.len());
    assert(keys[r[i] as int].group == 1);
    assert(keys[r[j] as int].group == 0);
    if i < j {
        assert(spec_before(keys, asc, r[i], r[j]));
    }
}


/// `a` comes no later than `b` where unknown values come first.
pub open spec fn unknown_first_le(a: Option<i128>, b: Option<i128>) -> bool {
    match (a, b) {
        (None, _) => true,
        (Some(_), None) => false,
        (Some(x), Some(y)) => x <= y,
    }
}

/// Whether two items are sorted against each other by the column's value:
/// always where folders do not come first, else where both are folders or
/// both are files.
pub open spec fn same_kind(entries: Seq<SortEntry>, folders_first: bool, a: int, b: int) -> bool {
    !folders_first || entries[a].metadata.spec_is_dir() == entries[b].metadata.spec_is_dir()
}

/// Under the name column, items sorted against each other are listed by the
/// rank of their names, ascending or descending with the direction, items
/// with equal names in their original order.
pub proof fn lemma_listed_by_name(
    entries: Seq<SortEntry>,
    options: (HeadingOptions, bool, bool),
    r: Seq<usize>,
    i: int,
    j: int,
)
    requires
        sorted_by(entries, options, r),
        options.0 == HeadingOptions::Name,
        0 <= i < j < r.len(),
        same_kind(entries, options.2, r[i] as int, r[j] as int),
    ensures
        options.1 ==> entries[r[i] as int].name_rank <= entries[r[j] as int].name_rank,
        !options.1 ==> entries[r[i] as int].name_rank >= entries[r[j] as int].name_rank,
        entries[r[i] as int].name_rank == entries[r[j] as int].name_rank ==> r[i] < r[j],
{
    let (heading, dir, folders_first) = options;
    let keys = Seq::new(entries.len(), |k: int| spec_sort_key(entries[k], heading, folders_first));
    let asc = spec_ascending(heading, dir, folders_first);
    assert(r[i] < keys.len() && r[j] < keys.len());
    assert(spec_before(keys, asc, r[i], r[j]));
    assert(keys[r[i] as int].group == keys[r[j] as int].group);
}

/// Under the modified column, items sorted against each other are listed by
/// modification time, ascending or descending with the direction, unknown
/// times counting as the earliest.
pub proof fn lemma_listed_by_date(
    entries: Seq<SortEntry>,
    options: (HeadingOptions, bool, bool),
    r: Seq<usize>,
    i: int,
    j: int,
)
    requires
        sorted_by(entries, options, r),
        options.0 == HeadingOptions::Modified,
        0 <= i < j < r.len(),
        same_kind(entries, options.2, r[i] as int, r[j] as int),
    ensures
        options.1 ==> unknown_first_le(
            entries[r[i] as int].metadata.spec_modified(),
            entries[r[j] as int].metadata.spec_modified(),
        ),
        !options.1 ==> unknown_first_le(
            entries[r[j] as int].metadata.spec_modified(),
            entries[r[i] as int].metadata.spec_modified(),
        ),
{
    let (heading, dir, folders_first) = options;
    let keys = Seq::new(entries.len(), |k: int| spec_sort_key(entries[k], heading, folders_first));
    let asc = spec_ascending(heading, dir, folders_first);
    assert(r[i] < keys.len() && r[j] < keys.len());
    assert(spec_before(keys, asc, r[i], r[j]));
    assert(keys[r[i] as int].group == keys[r[j] as int].group);
}

/// Under the size column, folders (and other entries counted by their
/// entries) always come before files, whatever the direction; items of the
/// same kind are listed by size (entry count for folders), ascending or
/// descending with the direction.
pub proof fn lemma_listed_by_size(
    entries: Seq<SortEntry>,
    options: (HeadingOptions, bool, bool),
    r: Seq<usize>,
    i: int,
    j: int,
)
    requires
        sorted_by(entries, options, r),
        options.0 == HeadingOptions::Size,
        0 <= i < j < r.len(),
    ensures
        entries[r[i] as int].metadata.spec_sort_size().0 || !entries[r[j] as int].metadata.spec_sort_size().0,
        entries[r[i] as int].metadata.spec_sort_size().0 == entries[r[j] as int].metadata.spec_sort_size().0 ==> {
            &&& options.1 ==> entries[r[i] as int].metadata.spec_sort_size().1
                <= entries[r[j] as int].metadata.spec_sort_size().1
            &&& !options.1 ==> entries[r[i] as int].metadata.spec_sort_size().1
                >= entries[r[j] as int].metadata.spec_sort_size().1
        },
{
    let (heading, dir, folders_first) = options;
    let keys = Seq::new(entries.len(), |k: int| spec_sort_key(entries[k], heading, folders_first));
    let asc = spec_ascending(heading, dir, folders_first);
    assert(r[i] < keys.len() && r[j] < keys.len());
    assert(spec_before(keys, asc, r[i], r[j]));
}

/// Under the trashed-on column, items sorted against each other are listed
/// by deletion time (unknown first), ascending with the direction where
/// folders come first, and against the direction where they do not.
pub proof fn lemma_listed_by_deletion(
    entries: Seq<SortEntry>,
    options: (HeadingOptions, bool, bool),
    r: Seq<usize>,
    i: int,
    j: int,
)
    requires
        sorted_by(entries, options, r),
        options.0 == HeadingOptions::TrashedOn,
        0 <= i < j < r.len(),
        same_kind(entries, options.2, r[i] as int, r[j] as int),
    ensures
        ({
            let a = match entries[r[i] as int].metadata.spec_time_deleted() {
                Some(t) => Some(t as i128),
                None => None,
            };
            let b = match entries[r[j] as int].metadata.spec_time_deleted() {
                Some(t) => Some(t as i128),
                None => None,
            };
            &&& options.1 == options.2 ==> unknown_first_le(a, b)
            &&& options.1 != options.2 ==> unknown_first_le(b, a)
        }),
{
    let (heading, dir, folders_first) = options;
    let keys = Seq::new(entries.len(), |k: int| spec_sort_key(entries[k], heading, folders_first));
    let asc = spec_ascending(heading, dir, folders_first);
    assert(r[i] < keys.len() && r[j] < keys.len());
    assert(spec_before(keys, asc, r[i], r[j]));
    assert(keys[r[i] as int].group == keys[r[j] as int].group);
}

} // verus!
