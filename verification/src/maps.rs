//! The typed key/value map family: the only state that survives across
//! packet invocations.
//!
//! One generic array type and one generic hash type are parameterized by a
//! [`MapKind`] tag; the familiar named shapes (`Array`, `PerCpuArray`,
//! `ProgArray`, `ArrayOfMaps`, `HashMap`, `PerCpuHashMap`, `LruHashMap`,
//! `LruPerCpuHashMap`) are thin aliases over them. A map's descriptor —
//! kind, key size, value size, capacity — is fixed at construction and
//! immutable afterward. Per-CPU kinds keep one independent value row per
//! CPU; shared kinds keep a single row that every CPU observes. LRU kinds
//! order each row by recency (least recently used first) and evict from
//! the front when full; ordinary hash kinds refuse the insert instead.

use vstd::prelude::*;
use vstd::std_specs::vec::vec_index_mut;

use crate::error::Errno;

verus! {

/// Host status code for an update refused for capacity or range reasons,
/// following the host's negative-errno convention.
pub const RET_FULL: i32 = -7;

/// Host status code for deleting a key that is not present.
pub const RET_NO_ENTRY: i32 = -2;

/// The closed set of map kinds the host can allocate.
#[derive(Clone, Copy, Debug, PartialEq, Eq, Structural)]
pub enum MapKind {
    Array,
    ProgArray,
    PerCpuArray,
    ArrayOfMaps,
    Hash,
    PerCpuHash,
    LruHash,
    LruPerCpuHash,
}

impl MapKind {
    /// Kinds indexed by a dense unsigned integer key.
    pub open spec fn is_array_kind(self) -> bool {
        self == MapKind::Array || self == MapKind::ProgArray || self == MapKind::PerCpuArray
            || self == MapKind::ArrayOfMaps
    }

    /// Kinds keyed by arbitrary fixed-size keys.
    pub open spec fn is_hash_kind(self) -> bool {
        self == MapKind::Hash || self == MapKind::PerCpuHash || self == MapKind::LruHash
            || self == MapKind::LruPerCpuHash
    }

    /// Kinds that give each CPU its own independent value per key.
    pub open spec fn is_percpu(self) -> bool {
        self == MapKind::PerCpuArray || self == MapKind::PerCpuHash || self
            == MapKind::LruPerCpuHash
    }

    /// Kinds that evict the least-recently-used entry when full.
    pub open spec fn is_lru(self) -> bool {
        self == MapKind::LruHash || self == MapKind::LruPerCpuHash
    }

    /// Executable mirror of [`MapKind::is_percpu`].
    pub fn percpu(&self) -> (r: bool)
        ensures
            r == self.is_percpu(),
    {
        match self {
            MapKind::PerCpuArray => true,
            MapKind::PerCpuHash => true,
            MapKind::LruPerCpuHash => true,
            _ => false,
        }
    }

    /// Executable mirror of [`MapKind::is_lru`].
    pub fn lru(&self) -> (r: bool)
        ensures
            r == self.is_lru(),
    {
        match self {
            MapKind::LruHash => true,
            MapKind::LruPerCpuHash => true,
            _ => false,
        }
    }
}

/// The map descriptor: the create-time configuration the host reads to
/// allocate the real map. Populated fully at construction and never
/// mutated afterward.
#[derive(Clone, Copy, Debug, PartialEq, Eq, Structural)]
pub struct MapDef {
    pub kind: MapKind,
    pub key_size: u32,
    pub value_size: u32,
    pub max_entries: u32,
    pub map_flags: u32,
}

/// A key a typed map can compare: equality at run time must coincide with
/// mathematical equality of the values.
pub trait MapKey: Sized {
    fn key_eq(&self, other: &Self) -> (r: bool)
        ensures
            r == (self == other),
    ;
}

impl MapKey for u8 {
    fn key_eq(&self, other: &Self) -> bool {
        *self == *other
    }
}

impl MapKey for u16 {
    fn key_eq(&self, other: &Self) -> bool {
        *self == *other
    }
}

impl MapKey for u32 {
    fn key_eq(&self, other: &Self) -> bool {
        *self == *other
    }
}

impl MapKey for u64 {
    fn key_eq(&self, other: &Self) -> bool {
        *self == *other
    }
}

impl MapKey for i32 {
    fn key_eq(&self, other: &Self) -> bool {
        *self == *other
    }
}

impl MapKey for i64 {
    fn key_eq(&self, other: &Self) -> bool {
        *self == *other
    }
}

/// The row of `rows` that the CPU context `cpu` observes: per-CPU kinds
/// give each CPU its own row, every other kind shares row zero.
pub open spec fn row_for(kind: MapKind, cpu: int) -> int {
    if kind.is_percpu() {
        cpu
    } else {
        0
    }
}

/// An array-shaped map: a dense table of `max_entries` values per row,
/// indexed by an unsigned integer key, with every slot populated from
/// construction on.
pub struct GenericArray<T> {
    /// The fixed create-time descriptor.
    pub def: MapDef,
    /// One value row per CPU for per-CPU kinds; a single shared row
    /// otherwise.
    pub rows: Vec<Vec<T>>,
}

impl<T: Copy> GenericArray<T> {
    /// The rows as a mathematical sequence of sequences.
    pub open spec fn view_rows(&self) -> Seq<Seq<T>> {
        self.rows@.map_values(|r: Vec<T>| r@)
    }

    /// Well-formedness fixed at construction: an array kind, integer keys,
    /// one row per CPU (or exactly one shared row), and every row fully
    /// populated.
    pub open spec fn wf(&self) -> bool {
        &&& self.def.kind.is_array_kind()
        &&& self.def.key_size == 4
        &&& (if self.def.kind.is_percpu() {
            self.rows@.len() >= 1
        } else {
            self.rows@.len() == 1
        })
        &&& forall|c: int|
            0 <= c < self.rows@.len() ==> (#[trigger] self.rows@[c])@.len()
                == self.def.max_entries
    }

    /// The value the CPU context `cpu` observes at `index`.
    pub open spec fn value_at(&self, cpu: int, index: int) -> T {
        self.view_rows()[row_for(self.def.kind, cpu)][index]
    }

    /// Whether `cpu` is a CPU context this map can be driven from.
    pub open spec fn cpu_ok(&self, cpu: int) -> bool {
        self.def.kind.is_percpu() ==> 0 <= cpu < self.rows@.len()
    }

    /// Creates an array map of the given kind with `max_entries` slots per
    /// row, every slot holding `init` — the host populates every slot of
    /// an array map at creation. Per-CPU kinds get one row per CPU,
    /// `ncpus` in all; other kinds a single shared row.
    pub fn with_max_entries(kind: MapKind, max_entries: u32, ncpus: u32, init: T) -> (r: Self)
        requires
            kind.is_array_kind(),
            ncpus >= 1,
        ensures
            r.wf(),
            r.def == (MapDef {
                kind,
                key_size: 4,
                value_size: core::mem::size_of::<T>() as u32,
                max_entries,
                map_flags: 0,
            }),
            r.rows@.len() == (if kind.is_percpu() {
                ncpus as int
            } else {
                1int
            }),
            forall|c: int, i: int|
                0 <= c < r.rows@.len() && 0 <= i < max_entries ==> r.view_rows()[c][i] == init,
    {
        let nrows: u32 = if kind.percpu() {
            ncpus
        } else {
            1
        };
        let mut rows: Vec<Vec<T>> = Vec::new();
        let mut c: u32 = 0;
        while c < nrows
            invariant
                c <= nrows,
                rows@.len() == c,
                forall|k: int|
                    0 <= k < c ==> (#[trigger] rows@[k])@ == Seq::new(
                        max_entries as nat,
                        |i: int| init,
                    ),
            decreases nrows - c,
        {
            let mut row: Vec<T> = Vec::new();
            let mut i: u32 = 0;
            while i < max_entries
                invariant
                    i <= max_entries,
                    row@ == Seq::new(i as nat, |k: int| init),
                decreases max_entries - i,
            {
                row.push(init);
                proof {
                    assert(row@ =~= Seq::new(i as nat + 1, |k: int| init));
                }
                i = i + 1;
            }
            rows.push(row);
            c = c + 1;
        }
        #[verifier::truncate]
        let vsize = core::mem::size_of::<T>() as u32;
        let r = GenericArray {
            def: MapDef { kind, key_size: 4, value_size: vsize, max_entries, map_flags: 0 },
            rows,
        };
        proof {
            assert forall|c2: int, i: int|
                0 <= c2 < r.rows@.len() && 0 <= i < max_entries implies r.view_rows()[c2][i]
                == init by {
                assert(r.rows@[c2]@ == Seq::new(max_entries as nat, |k: int| init));
            }
        }
        r
    }

    /// Looks the slot up: a view of the value for every in-range index,
    /// nothing for an out-of-range one. An absent index is an expected
    /// outcome, not an error.
    pub fn get(&self, cpu: u32, index: u32) -> (r: Option<&T>)
        requires
            self.wf(),
            self.cpu_ok(cpu as int),
        ensures
            (r is Some <==> index < self.def.max_entries),
            (r matches Some(v) ==> *v == self.value_at(cpu as int, index as int)),
    {
        if index < self.def.max_entries {
            let row: usize = if self.def.kind.percpu() {
                cpu as usize
            } else {
                0
            };
            Some(&self.rows[row][index as usize])
        } else {
            None
        }
    }

    /// Looks the slot up mutably; a write through the view is visible to
    /// every later lookup of the same slot from the same CPU context.
    pub fn get_mut(&mut self, cpu: u32, index: u32) -> (r: Option<&mut T>)
        requires
            old(self).wf(),
            old(self).cpu_ok(cpu as int),
        ensures
            (r is Some <==> index < old(self).def.max_entries),
            final(self).def == old(self).def,
            final(self).rows@.len() == old(self).rows@.len(),
            (r matches Some(v) ==> {
                let row = row_for(old(self).def.kind, cpu as int);
                &&& *v == old(self).value_at(cpu as int, index as int)
                &&& final(self).view_rows() == old(self).view_rows().update(
                    row,
                    old(self).view_rows()[row].update(index as int, *final(v)),
                )
            }),
            (r is None ==> *final(self) == *old(self)),
    {
        if index < self.def.max_entries {
            let row: usize = if self.def.kind.percpu() {
                cpu as usize
            } else {
                0
            };
            let rowv = vec_index_mut(&mut self.rows, row);
            let v = vec_index_mut(rowv, index as usize);
            proof {
                assert(old(self).view_rows()[row as int] == old(self).rows@[row as int]@);
            }
            Some(v)
        } else {
            None
        }
    }

    /// A direct index: the caller asserts the index is in range, and the
    /// slot is always populated.
    pub fn index(&self, cpu: u32, index: u32) -> (r: &T)
        requires
            self.wf(),
            self.cpu_ok(cpu as int),
            index < self.def.max_entries,
        ensures
            *r == self.value_at(cpu as int, index as int),
    {
        let row: usize = if self.def.kind.percpu() {
            cpu as usize
        } else {
            0
        };
        &self.rows[row][index as usize]
    }

    /// A direct mutable index: the caller asserts the index is in range.
    pub fn index_mut(&mut self, cpu: u32, index: u32) -> (r: &mut T)
        requires
            old(self).wf(),
            old(self).cpu_ok(cpu as int),
            index < old(self).def.max_entries,
        ensures
            *r == old(self).value_at(cpu as int, index as int),
            final(self).def == old(self).def,
            final(self).rows@.len() == old(self).rows@.len(),
            ({
                let row = row_for(old(self).def.kind, cpu as int);
                final(self).view_rows() == old(self).view_rows().update(
                    row,
                    old(self).view_rows()[row].update(index as int, *final(r)),
                )
            }),
    {
        let row: usize = if self.def.kind.percpu() {
            cpu as usize
        } else {
            0
        };
        let rowv = vec_index_mut(&mut self.rows, row);
        proof {
            assert(old(self).view_rows()[row as int] == old(self).rows@[row as int]@);
        }
        vec_index_mut(rowv, index as usize)
    }

    /// Sets the slot at `index` to `value` for the CPU context `cpu`:
    /// succeeds exactly for an in-range index, leaving every other slot —
    /// and every other CPU's row — untouched; an out-of-range index is
    /// refused by the host with `RET_FULL` and nothing changes.
    pub fn set(&mut self, cpu: u32, index: u32, value: &T) -> (r: Result<(), Errno>)
        requires
            old(self).wf(),
            old(self).cpu_ok(cpu as int),
        ensures
            final(self).wf(),
            final(self).def == old(self).def,
            final(self).rows@.len() == old(self).rows@.len(),
            (r is Ok <==> index < old(self).def.max_entries),
            (r is Ok ==> {
                let row = row_for(old(self).def.kind, cpu as int);
                final(self).view_rows() == old(self).view_rows().update(
                    row,
                    old(self).view_rows()[row].update(index as int, *value),
                )
            }),
            (r is Err ==> r == Err::<(), Errno>(Errno(RET_FULL)) && *final(self) == *old(self)),
    {
        if index < self.def.max_entries {
            let row: usize = if self.def.kind.percpu() {
                cpu as usize
            } else {
                0
            };
            let rowv = vec_index_mut(&mut self.rows, row);
            proof {
                assert(old(self).view_rows()[row as int] == old(self).rows@[row as int]@);
            }
            rowv[index as usize] = *value;
            proof {
                assert(self.view_rows() =~= old(self).view_rows().update(
                    row as int,
                    old(self).view_rows()[row as int].update(index as int, *value),
                ));
            }
            Ok(())
        } else {
            Err(Errno(RET_FULL))
        }
    }
}

/// Plain shared array map.
pub type Array<T> = GenericArray<T>;

/// Array of program references, for tail calls dispatched by the host.
pub type ProgArray<T> = GenericArray<T>;

/// Array map with one independent value per CPU and slot.
pub type PerCpuArray<T> = GenericArray<T>;

/// Array whose slots reference other maps by handle. Reinterpreting a
/// looked-up handle as a map of a caller-chosen shape is an unchecked,
/// caller-verified step that lives outside this library.
pub type ArrayOfMaps = GenericArray<u32>;

/// The index of the first entry of `row` whose key is `key`, or `-1` if no
/// entry carries it.
pub open spec fn find_key<K, V>(row: Seq<(K, V)>, key: K) -> int
    decreases row.len(),
{
    if row.len() == 0 {
        -1
    } else if row[0].0 == key {
        0
    } else {
        let r = find_key(row.subrange(1, row.len() as int), key);
        if r < 0 {
            -1
        } else {
            r + 1
        }
    }
}

/// Whether some entry of `row` carries `key`.
pub open spec fn contains_key<K, V>(row: Seq<(K, V)>, key: K) -> bool {
    find_key(row, key) >= 0
}

/// The value stored under `key` in `row`, if any entry carries it.
pub open spec fn lookup_key<K, V>(row: Seq<(K, V)>, key: K) -> Option<V> {
    if find_key(row, key) >= 0 {
        Some(row[find_key(row, key)].1)
    } else {
        None
    }
}

/// No two entries of `row` carry the same key.
pub open spec fn distinct_keys<K, V>(row: Seq<(K, V)>) -> bool {
    forall|i: int, j: int| 0 <= i < j < row.len() ==> (#[trigger] row[i]).0 != (#[trigger] row[j]).0
}

/// What `find_key` finds: an index in range whose entry carries `key` and
/// before which no entry does, or `-1` exactly when no entry carries it.
pub proof fn lemma_find_key_props<K, V>(row: Seq<(K, V)>, key: K)
    ensures
        -1 <= find_key(row, key) < row.len(),
        find_key(row, key) >= 0 ==> row[find_key(row, key)].0 == key,
        forall|m: int|
            0 <= m < row.len() && (#[trigger] row[m]).0 == key ==> find_key(row, key) >= 0
                && find_key(row, key) <= m,
    decreases row.len(),
{
    if row.len() > 0 && row[0].0 != key {
        let tail = row.subrange(1, row.len() as int);
        lemma_find_key_props(tail, key);
        assert forall|m: int|
            0 <= m < row.len() && (#[trigger] row[m]).0 == key implies find_key(row, key) >= 0
            && find_key(row, key) <= m by {
            assert(tail[m - 1] == row[m]);
        }
        if find_key(tail, key) >= 0 {
            assert(row[find_key(row, key)] == tail[find_key(tail, key)]);
        }
    }
}

/// The hash-shaped map: per row, a recency-ordered association list of at
/// most `max_entries` entries with pairwise distinct keys, least recently
/// used first.
pub struct GenericHashMap<K, V> {
    /// The fixed create-time descriptor.
    pub def: MapDef,
    /// One entry row per CPU for per-CPU kinds; a single shared row
    /// otherwise.
    pub rows: Vec<Vec<(K, V)>>,
}

impl<K: MapKey + Copy, V: Copy> GenericHashMap<K, V> {
    /// The rows as a mathematical sequence of entry sequences.
    pub open spec fn view_rows(&self) -> Seq<Seq<(K, V)>> {
        self.rows@.map_values(|r: Vec<(K, V)>| r@)
    }

    /// Well-formedness fixed at construction: a hash kind with at least
    /// one slot, one row per CPU (or exactly one shared row), and every
    /// row within capacity with pairwise distinct keys.
    pub open spec fn wf(&self) -> bool {
        &&& self.def.kind.is_hash_kind()
        &&& self.def.max_entries >= 1
        &&& (if self.def.kind.is_percpu() {
            self.rows@.len() >= 1
        } else {
            self.rows@.len() == 1
        })
        &&& forall|c: int|
            0 <= c < self.rows@.len() ==> distinct_keys(#[trigger] self.view_rows()[c])
                && self.view_rows()[c].len() <= self.def.max_entries
    }

    /// Whether `cpu` is a CPU context this map can be driven from.
    pub open spec fn cpu_ok(&self, cpu: int) -> bool {
        self.def.kind.is_percpu() ==> 0 <= cpu < self.rows@.len()
    }

    /// The entry row the CPU context `cpu` observes.
    pub open spec fn row_view(&self, cpu: int) -> Seq<(K, V)> {
        self.view_rows()[row_for(self.def.kind, cpu)]
    }

    /// The value the CPU context `cpu` observes under `key`.
    pub open spec fn spec_get(&self, cpu: int, key: K) -> Option<V> {
        lookup_key(self.row_view(cpu), key)
    }

    /// Creates a hash map of the given kind with room for `max_entries`
    /// entries per row, initially empty. Per-CPU kinds get one row per
    /// CPU, `ncpus` in all; other kinds a single shared row.
    pub fn with_max_entries(kind: MapKind, max_entries: u32, ncpus: u32) -> (r: Self)
        requires
            kind.is_hash_kind(),
            max_entries >= 1,
            ncpus >= 1,
        ensures
            r.wf(),
            r.def == (MapDef {
                kind,
                key_size: core::mem::size_of::<K>() as u32,
                value_size: core::mem::size_of::<V>() as u32,
                max_entries,
                map_flags: 0,
            }),
            r.rows@.len() == (if kind.is_percpu() {
                ncpus as int
            } else {
                1int
            }),
            forall|c: int| 0 <= c < r.rows@.len() ==> (#[trigger] r.view_rows()[c]).len() == 0,
    {
        let nrows: u32 = if kind.percpu() {
            ncpus
        } else {
            1
        };
        let mut rows: Vec<Vec<(K, V)>> = Vec::new();
        let mut c: u32 = 0;
        while c < nrows
            invariant
                c <= nrows,
                rows@.len() == c,
                forall|k: int| 0 <= k < c ==> (#[trigger] rows@[k])@.len() == 0,
            decreases nrows - c,
        {
            rows.push(Vec::new());
            c = c + 1;
        }
        #[verifier::truncate]
        let ksize = core::mem::size_of::<K>() as u32;
        #[verifier::truncate]
        let vsize = core::mem::size_of::<V>() as u32;
        GenericHashMap {
            def: MapDef { kind, key_size: ksize, value_size: vsize, max_entries, map_flags: 0 },
            rows,
        }
    }

    /// Scans `row` for `key`, returning the index `find_key` names.
    fn find(row: &Vec<(K, V)>, key: &K) -> (r: Option<usize>)
        ensures
            (r is Some <==> contains_key(row@, *key)),
            (r matches Some(j) ==> j as int == find_key(row@, *key)),
    {
        let n = row.len();
        let mut j: usize = 0;
        while j < n
            invariant
                n == row@.len(),
                j <= n,
                forall|m: int| 0 <= m < j ==> (#[trigger] row@[m]).0 != *key,
            decreases n - j,
        {
            let k0 = row[j].0;
            if k0.key_eq(key) {
                proof {
                    lemma_find_key_props(row@, *key);
                }
                return Some(j);
            }
            j = j + 1;
        }
        proof {
            lemma_find_key_props(row@, *key);
        }
        None
    }

    /// Looks `key` up: a view of its value exactly when some entry carries
    /// it; an absent key is an expected outcome, not an error. A shared
    /// lookup does not refresh recency; a refreshing lookup goes through
    /// `get_mut`.
    pub fn get(&self, cpu: u32, key: &K) -> (r: Option<&V>)
        requires
            self.wf(),
            self.cpu_ok(cpu as int),
        ensures
            (r is Some <==> contains_key(self.row_view(cpu as int), *key)),
            (r matches Some(v) ==> self.spec_get(cpu as int, *key) == Some(*v)),
    {
        let row: usize = if self.def.kind.percpu() {
            cpu as usize
        } else {
            0
        };
        proof {
            assert(self.row_view(cpu as int) == self.rows@[row as int]@);
        }
        match Self::find(&self.rows[row], key) {
            Some(j) => {
                proof {
                    lemma_find_key_props(self.rows@[row as int]@, *key);
                }
                Some(&self.rows[row][j].1)
            },
            None => None,
        }
    }

    /// Looks `key` up mutably; the write is visible to any later lookup of
    /// the same key from the same CPU context. The entry is edited in
    /// place; recency, in this model, is refreshed by `set`.
    pub fn get_mut(&mut self, cpu: u32, key: &K) -> (r: Option<&mut V>)
        requires
            old(self).wf(),
            old(self).cpu_ok(cpu as int),
        ensures
            (r is Some <==> contains_key(old(self).row_view(cpu as int), *key)),
            (r is None ==> *final(self) == *old(self)),
            (r matches Some(v) ==> {
                let rs = old(self).row_view(cpu as int);
                let row = row_for(old(self).def.kind, cpu as int);
                let j = find_key(rs, *key);
                &&& *v == rs[j].1
                &&& final(self).def == old(self).def
                &&& final(self).rows@.len() == old(self).rows@.len()
                &&& final(self).view_rows() == old(self).view_rows().update(
                    row,
                    rs.update(j, (*key, *final(v))),
                )
            }),
    {
        let row: usize = if self.def.kind.percpu() {
            cpu as usize
        } else {
            0
        };
        proof {
            assert(self.row_view(cpu as int) == self.rows@[row as int]@);
            lemma_find_key_props(self.rows@[row as int]@, *key);
        }
        match Self::find(&self.rows[row], key) {
            Some(j) => {
                let rowv = vec_index_mut(&mut self.rows, row);
                let slot = vec_index_mut(rowv, j);
                Some(&mut slot.1)
            },
            None => None,
        }
    }

    /// Stores `value` under `key` for the CPU context `cpu`, with
    /// update-or-insert, always-overwrite semantics. An existing entry is
    /// overwritten in place (LRU kinds also refresh it to most recently
    /// used); a fresh key is appended while room remains; at capacity the
    /// LRU kinds evict the least-recently-used entry — the front — to make
    /// room, and the other hash kinds refuse the insert with `RET_FULL`,
    /// changing nothing.
    pub fn set(&mut self, cpu: u32, key: &K, value: &V) -> (r: Result<(), Errno>)
        requires
            old(self).wf(),
            old(self).cpu_ok(cpu as int),
        ensures
            final(self).wf(),
            final(self).def == old(self).def,
            final(self).rows@.len() == old(self).rows@.len(),
            ({
                let rs = old(self).row_view(cpu as int);
                let row = row_for(old(self).def.kind, cpu as int);
                let j = find_key(rs, *key);
                let lru = old(self).def.kind.is_lru();
                let full = rs.len() >= old(self).def.max_entries;
                &&& (r is Ok <==> (j >= 0 || !full || lru))
                &&& (r is Ok ==> final(self).view_rows() == old(self).view_rows().update(
                    row,
                    if j >= 0 {
                        if lru {
                            rs.remove(j).push((*key, *value))
                        } else {
                            rs.update(j, (*key, *value))
                        }
                    } else if !full {
                        rs.push((*key, *value))
                    } else {
                        rs.subrange(1, rs.len() as int).push((*key, *value))
                    },
                ))
                &&& (r is Err ==> r == Err::<(), Errno>(Errno(RET_FULL)) && *final(self) == *old(
                    self,
                ))
            }),
    {
        let row: usize = if self.def.kind.percpu() {
            cpu as usize
        } else {
            0
        };
        proof {
            assert(self.row_view(cpu as int) == self.rows@[row as int]@);
            lemma_find_key_props(self.rows@[row as int]@, *key);
        }
        let ghost rs = self.rows@[row as int]@;
        let max = self.def.max_entries;
        let lru = self.def.kind.lru();
        let found = Self::find(&self.rows[row], key);
        let r = match found {
            Some(j) => {
                proof {
                    lemma_find_key_props(rs, *key);
                }
                let rowv = vec_index_mut(&mut self.rows, row);
                if lru {
                    rowv.remove(j);
                    rowv.push((*key, *value));
                } else {
                    let slot = vec_index_mut(rowv, j);
                    *slot = (*key, *value);
                }
                Ok(())
            },
            None => {
                let rowlen = self.rows[row].len();
                if (rowlen as u64) < (max as u64) {
                    let rowv = vec_index_mut(&mut self.rows, row);
                    rowv.push((*key, *value));
                    Ok(())
                } else if lru {
                    let rowv = vec_index_mut(&mut self.rows, row);
                    rowv.remove(0);
                    rowv.push((*key, *value));
                    proof {
                        assert(rs.remove(0) =~= rs.subrange(1, rs.len() as int));
                    }
                    Ok(())
                } else {
                    Err(Errno(RET_FULL))
                }
            },
        };
        proof {
            if r is Ok {
                let j = find_key(rs, *key);
                lemma_row_update_keeps_wf(rs, *key, *value, j, old(self).def.max_entries as nat);
                assert(self.view_rows() =~= old(self).view_rows().update(
                    row as int,
                    self.rows@[row as int]@,
                ));
            }
        }
        r
    }

    /// Removes the entry carrying `key`: succeeds exactly when one is
    /// present, leaving every other entry in place and in order; deleting
    /// an absent key is refused by the host with `RET_NO_ENTRY` and
    /// nothing changes.
    pub fn delete(&mut self, cpu: u32, key: &K) -> (r: Result<(), Errno>)
        requires
            old(self).wf(),
            old(self).cpu_ok(cpu as int),
        ensures
            final(self).wf(),
            final(self).def == old(self).def,
            final(self).rows@.len() == old(self).rows@.len(),
            ({
                let rs = old(self).row_view(cpu as int);
                let row = row_for(old(self).def.kind, cpu as int);
                let j = find_key(rs, *key);
                &&& (r is Ok <==> contains_key(rs, *key))
                &&& (r is Ok ==> final(self).view_rows() == old(self).view_rows().update(
                    row,
                    rs.remove(j),
                ))
                &&& (r is Err ==> r == Err::<(), Errno>(Errno(RET_NO_ENTRY)) && *final(self)
                    == *old(self))
            }),
    {
        let row: usize = if self.def.kind.percpu() {
            cpu as usize
        } else {
            0
        };
        proof {
            assert(self.row_view(cpu as int) == self.rows@[row as int]@);
            lemma_find_key_props(self.rows@[row as int]@, *key);
        }
        let ghost rs = self.rows@[row as int]@;
        let found = Self::find(&self.rows[row], key);
        match found {
            Some(j) => {
                proof {
                    lemma_find_key_props(rs, *key);
                }
                let rowv = vec_index_mut(&mut self.rows, row);
                rowv.remove(j);
                proof {
                    let jj = find_key(rs, *key);
                    assert(self.view_rows() =~= old(self).view_rows().update(
                        row as int,
                        rs.remove(jj),
                    ));
                    assert forall|a: int, b: int|
                        0 <= a < b < rs.remove(jj).len() implies (#[trigger] rs.remove(jj)[a]).0
                        != (#[trigger] rs.remove(jj)[b]).0 by {
                        assert(rs.remove(jj)[a] == (if a < jj {
                            rs[a]
                        } else {
                            rs[a + 1]
                        }));
                        assert(rs.remove(jj)[b] == (if b < jj {
                            rs[b]
                        } else {
                            rs[b + 1]
                        }));
                    }
                }
                Ok(())
            },
            None => Err(Errno(RET_NO_ENTRY)),
        }
    }
}

/// Every row shape a successful store can produce is again within
/// capacity and keeps its keys pairwise distinct.
proof fn lemma_row_update_keeps_wf<K, V>(rs: Seq<(K, V)>, key: K, value: V, j: int, max: nat)
    requires
        distinct_keys(rs),
        rs.len() <= max,
        max >= 1,
        j == find_key(rs, key),
    ensures
        j >= 0 ==> distinct_keys(rs.update(j, (key, value))) && rs.update(
            j,
            (key, value),
        ).len() <= max,
        j >= 0 ==> distinct_keys(rs.remove(j).push((key, value))) && rs.remove(j).push(
            (key, value),
        ).len() <= max,
        j < 0 && rs.len() < max ==> distinct_keys(rs.push((key, value))) && rs.push(
            (key, value),
        ).len() <= max,
        j < 0 && rs.len() >= 1 ==> distinct_keys(
            rs.subrange(1, rs.len() as int).push((key, value)),
        ) && rs.subrange(1, rs.len() as int).push((key, value)).len() <= max,
{
    lemma_find_key_props(rs, key);
    if j >= 0 {
        let up = rs.update(j, (key, value));
        assert forall|a: int, b: int| 0 <= a < b < up.len() implies (#[trigger] up[a]).0
            != (#[trigger] up[b]).0 by {
            assert(rs[a].0 != rs[b].0);
        }
        let mv = rs.remove(j).push((key, value));
        assert forall|a: int, b: int| 0 <= a < b < mv.len() implies (#[trigger] mv[a]).0
            != (#[trigger] mv[b]).0 by {
            let ra = if a < j {
                a
            } else {
                a + 1
            };
            let rb = if b < j {
                b
            } else {
                b + 1
            };
            if b < mv.len() - 1 {
                assert(mv[a] == rs[ra] && mv[b] == rs[rb]);
            } else {
                assert(mv[b] == (key, value) && mv[a] == rs[ra] && ra != j);
            }
        }
    } else {
        let pu = rs.push((key, value));
        assert forall|a: int, b: int| 0 <= a < b < pu.len() implies (#[trigger] pu[a]).0
            != (#[trigger] pu[b]).0 by {
            if b < pu.len() - 1 {
                assert(pu[a] == rs[a] && pu[b] == rs[b]);
            } else {
                assert(pu[b] == (key, value) && pu[a] == rs[a]);
            }
        }
        if rs.len() >= 1 {
            let ev = rs.subrange(1, rs.len() as int).push((key, value));
            assert forall|a: int, b: int| 0 <= a < b < ev.len() implies (#[trigger] ev[a]).0
                != (#[trigger] ev[b]).0 by {
                if b < ev.len() - 1 {
                    assert(ev[a] == rs[a + 1] && ev[b] == rs[b + 1]);
                } else {
                    assert(ev[b] == (key, value) && ev[a] == rs[a + 1]);
                }
            }
        }
    }
}

/// Map round trip, array kinds: after a successful store of `v` at
/// `index`, the CPU context that stored it reads back exactly `v`.
pub proof fn lemma_array_set_then_get<T>(rows: Seq<Seq<T>>, row: int, index: int, v: T)
    requires
        0 <= row < rows.len(),
        0 <= index < rows[row].len(),
    ensures
        rows.update(row, rows[row].update(index, v))[row][index] == v,
{
}

/// Map round trip, hash kinds: after a successful store of `v` under
/// `key`, a lookup of `key` finds exactly `v` — whichever of the four row
/// shapes the store produced: overwrite in place, overwrite with a
/// recency refresh, append into free room, or append after an LRU
/// eviction.
pub proof fn lemma_hash_set_then_get<K, V>(rs: Seq<(K, V)>, key: K, v: V)
    requires
        distinct_keys(rs),
    ensures
        find_key(rs, key) >= 0 ==> lookup_key(rs.update(find_key(rs, key), (key, v)), key)
            == Some(v),
        find_key(rs, key) >= 0 ==> lookup_key(rs.remove(find_key(rs, key)).push((key, v)), key)
            == Some(v),
        find_key(rs, key) < 0 ==> lookup_key(rs.push((key, v)), key) == Some(v),
        find_key(rs, key) < 0 && rs.len() >= 1 ==> lookup_key(
            rs.subrange(1, rs.len() as int).push((key, v)),
            key,
        ) == Some(v),
{
    lemma_find_key_props(rs, key);
    let j = find_key(rs, key);
    if j >= 0 {
        let up = rs.update(j, (key, v));
        lemma_find_key_props(up, key);
        assert(up[j].0 == key);
        let f = find_key(up, key);
        assert(f >= 0 && f <= j);
        if f < j {
            assert(up[f] == rs[f]);
            assert(rs[f].0 == key);
            assert(false);
        }
        assert(lookup_key(up, key) == Some(v));
        let mv = rs.remove(j).push((key, v));
        lemma_find_key_props(mv, key);
        assert(mv[mv.len() - 1].0 == key);
        let g = find_key(mv, key);
        assert(g >= 0 && g <= mv.len() - 1);
        if g < mv.len() - 1 {
            assert(mv[g] == (if g < j {
                rs[g]
            } else {
                rs[g + 1]
            }));
            assert(false);
        }
        assert(lookup_key(mv, key) == Some(v));
    } else {
        let pu = rs.push((key, v));
        lemma_find_key_props(pu, key);
        assert(pu[pu.len() - 1].0 == key);
        let f = find_key(pu, key);
        assert(f >= 0 && f <= pu.len() - 1);
        if f < pu.len() - 1 {
            assert(pu[f] == rs[f]);
            assert(false);
        }
        assert(lookup_key(pu, key) == Some(v));
        if rs.len() >= 1 {
            let ev = rs.subrange(1, rs.len() as int).push((key, v));
            lemma_find_key_props(ev, key);
            assert(ev[ev.len() - 1].0 == key);
            let g = find_key(ev, key);
            assert(g >= 0 && g <= ev.len() - 1);
            if g < ev.len() - 1 {
                assert(ev[g] == rs[g + 1]);
                assert(false);
            }
            assert(lookup_key(ev, key) == Some(v));
        }
    }
}

/// After a delete removes the entry carrying `key`, a lookup of `key`
/// finds nothing.
pub proof fn lemma_delete_then_get<K, V>(rs: Seq<(K, V)>, key: K)
    requires
        distinct_keys(rs),
        contains_key(rs, key),
    ensures
        lookup_key(rs.remove(find_key(rs, key)), key) == None::<V>,
{
    lemma_find_key_props(rs, key);
    let j = find_key(rs, key);
    let rm = rs.remove(j);
    lemma_find_key_props(rm, key);
    let f = find_key(rm, key);
    if f >= 0 {
        assert(rm[f] == (if f < j {
            rs[f]
        } else {
            rs[f + 1]
        }));
    }
}

/// A store under one key never disturbs what is found under another: for
/// every row shape a successful store can produce short of an eviction, a
/// lookup of any other key finds exactly what it found before. (What an
/// eviction does is stated by `lemma_lru_eviction`.)
pub proof fn lemma_set_preserves_other_keys<K, V>(rs: Seq<(K, V)>, key: K, v: V, other: K)
    requires
        distinct_keys(rs),
        other != key,
    ensures
        find_key(rs, key) >= 0 ==> lookup_key(rs.update(find_key(rs, key), (key, v)), other)
            == lookup_key(rs, other),
        find_key(rs, key) >= 0 ==> lookup_key(
            rs.remove(find_key(rs, key)).push((key, v)),
            other,
        ) == lookup_key(rs, other),
        find_key(rs, key) < 0 ==> lookup_key(rs.push((key, v)), other) == lookup_key(rs, other),
{
    lemma_find_key_props(rs, key);
    lemma_find_key_props(rs, other);
    let j = find_key(rs, key);
    let f = find_key(rs, other);
    if j >= 0 {
        let up = rs.update(j, (key, v));
        lemma_find_key_props(up, other);
        let g = find_key(up, other);
        if f >= 0 {
            assert(up[f] == rs[f]);
            assert(up[f].0 == other);
            if 0 <= g < f {
                assert(up[g].0 == other);
                if g != j {
                    assert(rs[g].0 == other);
                }
                assert(false);
            }
        } else {
            if g >= 0 {
                assert(up[g].0 == other);
                if g != j {
                    assert(rs[g].0 == other);
                }
                assert(false);
            }
        }
        let mv = rs.remove(j).push((key, v));
        lemma_find_key_props(mv, other);
        let h = find_key(mv, other);
        if f >= 0 {
            let fp = if f < j {
                f
            } else {
                f - 1
            };
            assert(mv[fp] == rs[f]);
            assert(mv[fp].0 == other);
            if 0 <= h < fp {
                assert(mv[h].0 == other);
                assert(mv[h] == (if h < j {
                    rs[h]
                } else {
                    rs[h + 1]
                }));
                assert(false);
            }
            assert(lookup_key(mv, other) == lookup_key(rs, other));
        } else {
            if h >= 0 {
                assert(mv[h].0 == other);
                if h < mv.len() - 1 {
                    assert(mv[h] == (if h < j {
                        rs[h]
                    } else {
                        rs[h + 1]
                    }));
                }
                assert(false);
            }
        }
    } else {
        let pu = rs.push((key, v));
        lemma_find_key_props(pu, other);
        let g = find_key(pu, other);
        if f >= 0 {
            assert(pu[f] == rs[f]);
            assert(pu[f].0 == other);
            if 0 <= g < f {
                assert(pu[g].0 == other);
                assert(pu[g] == rs[g]);
                assert(false);
            }
        } else {
            if g >= 0 {
                assert(pu[g].0 == other);
                if g < pu.len() - 1 {
                    assert(pu[g] == rs[g]);
                }
                assert(false);
            }
        }
    }
}

/// A delete of one key never disturbs what is found under another.
pub proof fn lemma_delete_preserves_other_keys<K, V>(rs: Seq<(K, V)>, key: K, other: K)
    requires
        distinct_keys(rs),
        contains_key(rs, key),
        other != key,
    ensures
        lookup_key(rs.remove(find_key(rs, key)), other) == lookup_key(rs, other),
{
    lemma_find_key_props(rs, key);
    lemma_find_key_props(rs, other);
    let j = find_key(rs, key);
    let f = find_key(rs, other);
    let rm = rs.remove(j);
    lemma_find_key_props(rm, other);
    let h = find_key(rm, other);
    if f >= 0 {
        let fp = if f < j {
            f
        } else {
            f - 1
        };
        assert(rm[fp] == rs[f]);
        assert(rm[fp].0 == other);
        if 0 <= h < fp {
            assert(rm[h].0 == other);
            assert(rm[h] == (if h < j {
                rs[h]
            } else {
                rs[h + 1]
            }));
            assert(false);
        }
        assert(lookup_key(rm, other) == lookup_key(rs, other));
    } else {
        if h >= 0 {
            assert(rm[h].0 == other);
            assert(rm[h] == (if h < j {
                rs[h]
            } else {
                rs[h + 1]
            }));
            assert(false);
        }
    }
}

/// LRU eviction: storing one more distinct key into a full row evicts
/// exactly the least-recently-used entry — the front of the row. The
/// evicted key alone stops being found; every other entry keeps its
/// value, and the fresh key is found with its value.
pub proof fn lemma_lru_eviction<K, V>(rs: Seq<(K, V)>, key: K, v: V)
    requires
        distinct_keys(rs),
        rs.len() >= 1,
        !contains_key(rs, key),
    ensures
        lookup_key(rs.subrange(1, rs.len() as int).push((key, v)), rs[0].0) == None::<V>,
        lookup_key(rs.subrange(1, rs.len() as int).push((key, v)), key) == Some(v),
        forall|m: int|
            1 <= m < rs.len() ==> lookup_key(
                rs.subrange(1, rs.len() as int).push((key, v)),
                (#[trigger] rs[m]).0,
            ) == Some(rs[m].1),
{
    lemma_find_key_props(rs, key);
    lemma_hash_set_then_get(rs, key, v);
    let ev = rs.subrange(1, rs.len() as int).push((key, v));
    lemma_find_key_props(ev, rs[0].0);
    let f0 = find_key(ev, rs[0].0);
    if f0 >= 0 {
        if f0 < ev.len() - 1 {
            assert(ev[f0] == rs[f0 + 1]);
        }
        assert(false);
    }
    assert forall|m: int|
        1 <= m < rs.len() implies lookup_key(ev, (#[trigger] rs[m]).0) == Some(rs[m].1) by {
        lemma_find_key_props(ev, rs[m].0);
        let f = find_key(ev, rs[m].0);
        assert(ev[m - 1] == rs[m]);
        assert(f >= 0 && f <= m - 1);
        if f < m - 1 {
            assert(ev[f] == rs[f + 1]);
        }
    }
}

/// Per-CPU isolation: a store from one CPU context rewrites only that
/// context's row, so no other CPU context can observe it through its own;
/// kinds that are not per-CPU route every context to the single shared
/// row, so every context observes the same row.
pub proof fn lemma_percpu_isolation<R>(rows: Seq<R>, kind: MapKind, a: int, b: int, newrow: R)
    requires
        0 <= a < rows.len(),
        0 <= b < rows.len(),
    ensures
        kind.is_percpu() && a != b ==> rows.update(row_for(kind, a), newrow)[row_for(kind, b)]
            == rows[b],
        !kind.is_percpu() ==> row_for(kind, a) == row_for(kind, b),
{
}

/// General-purpose hash map.
pub type HashMap<K, V> = GenericHashMap<K, V>;

/// Hash map with one independent value per CPU and key.
pub type PerCpuHashMap<K, V> = GenericHashMap<K, V>;

/// Hash map that evicts the least-recently-used entry when full.
pub type LruHashMap<K, V> = GenericHashMap<K, V>;

/// Per-CPU hash map with least-recently-used eviction.
pub type LruPerCpuHashMap<K, V> = GenericHashMap<K, V>;

} // verus!
