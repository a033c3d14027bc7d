//! Bidirectional mapping between file paths and compact [`FileId`] values.
//!
//! The table never touches the file system: paths are normalized lexically
//! (a leading `./` dropped, `..` collapsed) and two paths are the same file
//! exactly when their normalized components agree.
use rustc_hash::FxHashMap;
use crate::fx_map::{fx_get, fx_insert, fx_remove};
use vstd::prelude::*;
use vstd::string::StrSliceExecFns;
use vstd::string::StringSliceAdditionalSpecFns;
use vstd::utf8::encode_utf8;

use crate::lexical::{fx_hash, fxhash_bytes};
use crate::text::bytes_eq;
use crate::types::error::{QueryError, SearchError};
use crate::types::file_id::FileId;
use crate::types::path::{
    located_start_with, normalize_located, normalized, parts_absolute, parts_from_source,
    parts_in_bounds, parts_view, parts_view_in, path_key, path_parts, render, render_display,
    split_parts, stays_within, stored_form, needs_normalization, lemma_parts_single_source,
    part_in_bounds, Part, PartKind, PathPart,
};

verus! {

broadcast use vstd::std_specs::hash::group_hash_axioms;

/// Maximum number of entries accepted when a table is rebuilt from a list
/// of paths.
pub const MAX_FILE_TABLE_ENTRIES: usize = 10_000_000;

/// Why a list of paths could not be turned into a table.
#[derive(Debug, Clone, Copy, PartialEq, Eq, Structural)]
pub enum FileTableError {
    /// The list holds more than [`MAX_FILE_TABLE_ENTRIES`] paths.
    TooManyEntries { count: usize },
    /// The path at `index` normalizes to the same file as an earlier one.
    DuplicatePath { index: usize },
}

/// A path normalized: the form in which it is kept, and its key.
pub struct NormalizedPath {
    pub display: String,
    pub key: Vec<u8>,
    pub parts: Vec<Part>,
}

/// Normalize a path, returning the kept form, the key and the normalized
/// components (located in `path`).
fn normalize_full(path: &str) -> (r: NormalizedPath)
    ensures
        encode_utf8(r.display@) == stored_form(path.spec_bytes()),
        r.key@ == path_key(path.spec_bytes()),
        r.key@ == path_key(encode_utf8(r.display@)),
        stored_form(encode_utf8(r.display@)) == encode_utf8(r.display@),
        parts_view_in(r.parts@, path.spec_bytes()) == normalized(path.spec_bytes()),
        parts_from_source(r.parts@, false),
        forall|k: int|
            0 <= k < r.parts@.len() ==> part_in_bounds(#[trigger] r.parts@[k], path.spec_bytes()),
{
    let bytes = path.as_bytes();
    let ghost b = bytes@;
    let parts = split_parts(bytes, false);
    proof {
        lemma_parts_single_source(parts@, b, Seq::empty(), false);
    }
    let np = normalize_located(&parts, Ghost(b), Ghost(Seq::empty()));
    proof {
        assert forall|k: int| 0 <= k < np@.len() implies (#[trigger] np@[k]).in_root == false
            && part_in_bounds(np@[k], b) by {
            let j = choose|j: int| 0 <= j < parts@.len() && np@[k] == parts@[j];
            assert(parts@[j].in_root == false);
            assert(part_in_bounds(parts@[j], b));
        }
        lemma_parts_single_source(np@, b, Seq::empty(), false);
    }
    let key_str = render_display(&np, path);
    let key = key_str.as_str().as_bytes_vec();
    let mut needs = false;
    let mut i: usize = 0;
    while i < parts.len()
        invariant
            i <= parts@.len(),
            parts_view_in(parts@, b) == path_parts(b),
            needs == exists|j: int|
                0 <= j < i && (#[trigger] path_parts(b)[j] is Current || path_parts(b)[j] is Parent),
        decreases parts@.len() - i,
    {
        let k = parts[i].kind;
        assert(path_parts(b)[i as int] == parts_view_in(parts@, b)[i as int]);
        if k == PartKind::Current || k == PartKind::Parent {
            needs = true;
        }
        i = i + 1;
    }
    assert(needs == needs_normalization(path_parts(b)));
    let display = if needs {
        key_str
    } else {
        path.to_owned()
    };
    proof {
        crate::types::path::lemma_stored_form_fixed(b);
    }
    NormalizedPath { display, key, parts: np }
}

/// The form in which a path is kept: unchanged when it has no `.` or `..`
/// component, else its components with `.` dropped and `..` collapsed.
pub fn normalize_path(path: &str) -> (r: String)
    ensures
        encode_utf8(r@) == stored_form(path.spec_bytes()),
{
    normalize_full(path).display
}

/// The hash under which a key is indexed.
#[verifier::opaque]
pub open spec fn key_hash(k: Seq<u8>) -> u64 {
    fx_hash(k)
}

/// The positions among the first `n` keys whose hash is `h`, in order.
pub open spec fn key_positions(keys: Seq<Seq<u8>>, n: int, h: u64) -> Seq<usize>
    decreases n,
{
    if n <= 0 {
        Seq::empty()
    } else if key_hash(keys[n - 1]) == h {
        key_positions(keys, n - 1, h).push((n - 1) as usize)
    } else {
        key_positions(keys, n - 1, h)
    }
}

/// No key occurs twice.
pub open spec fn keys_distinct(keys: Seq<Seq<u8>>) -> bool {
    forall|i: int, j: int| 0 <= i < j < keys.len() ==> keys[i] != keys[j]
}

/// Whether some key equals `k`.
pub open spec fn key_known(keys: Seq<Seq<u8>>, k: Seq<u8>) -> bool {
    exists|i: int| 0 <= i < keys.len() && keys[i] == k
}

/// The id a path with key `k` gets: that of the equal key when known,
/// else the next one.
pub open spec fn id_for(keys: Seq<Seq<u8>>, k: Seq<u8>) -> int {
    if key_known(keys, k) {
        choose|i: int| 0 <= i < keys.len() && keys[i] == k
    } else {
        keys.len() as int
    }
}

/// The effect of registering a path with key `k`, kept as `shown`, on a
/// table of `keys` and `paths` (as bytes): the id of an already known key
/// and nothing changed, or the next id with the path appended.
pub open spec fn registered(
    keys: Seq<Seq<u8>>,
    paths: Seq<Seq<u8>>,
    k: Seq<u8>,
    shown: Seq<u8>,
    new_keys: Seq<Seq<u8>>,
    new_paths: Seq<Seq<u8>>,
    id: u64,
) -> bool {
    if key_known(keys, k) {
        &&& id < keys.len()
        &&& keys[id as int] == k
        &&& new_keys == keys
        &&& new_paths == paths
    } else {
        &&& id == keys.len()
        &&& new_keys == keys.push(k)
        &&& new_paths == paths.push(shown)
    }
}

/// The keys of a list of paths.
pub open spec fn raw_keys(raw: Seq<String>) -> Seq<Seq<u8>> {
    raw.map_values(|s: String| path_key(encode_utf8(s@)))
}

/// The kept forms of a list of paths, as bytes.
pub open spec fn raw_stored(raw: Seq<String>) -> Seq<Seq<u8>> {
    raw.map_values(|s: String| stored_form(encode_utf8(s@)))
}

/// Bidirectional mapping between paths and [`FileId`]s. The index of a path
/// in the table is its id.
pub struct FileTable {
    paths: Vec<String>,
    keys: Vec<Vec<u8>>,
    index: FxHashMap<u64, Vec<usize>>,
}

impl View for FileTable {
    type V = Seq<Seq<char>>;

    /// The registered paths, in id order, as kept.
    closed spec fn view(&self) -> Seq<Seq<char>> {
        self.paths@.map_values(|s: String| s@)
    }
}

impl FileTable {
    /// The registered paths, in id order, as UTF-8 bytes.
    pub closed spec fn path_bytes(self) -> Seq<Seq<u8>> {
        self.paths@.map_values(|s: String| encode_utf8(s@))
    }

    /// The keys of the registered paths, in id order.
    pub closed spec fn keys(self) -> Seq<Seq<u8>> {
        self.keys@.map_values(|k: Vec<u8>| k@)
    }

    spec fn index_covers(keys: Seq<Seq<u8>>, index: Map<u64, Vec<usize>>) -> bool {
        forall|h: u64|
            #![trigger index.contains_key(h)]
            (index.contains_key(h) ==> index[h]@ == key_positions(keys, keys.len() as int, h)) && (
            !index.contains_key(h) ==> key_positions(keys, keys.len() as int, h).len() == 0)
    }

    /// The table is well formed: one key per path, keys distinct, and the
    /// hash index lists exactly the positions of each hash.
    pub closed spec fn wf(self) -> bool {
        &&& self.paths@.len() == self.keys@.len()
        &&& keys_distinct(self.keys())
        &&& Self::index_covers(self.keys(), self.index@)
        &&& forall|i: int| 0 <= i < self.keys().len() ==> #[trigger] self.keys()[i] == path_key(self.path_bytes()[i])
        &&& forall|i: int| 0 <= i < self.keys().len() ==> stored_form(#[trigger] self.path_bytes()[i]) == self.path_bytes()[i]
    }

    /// A well-formed table's keys are distinct.
    pub proof fn lemma_keys_distinct(self)
        requires
            self.wf(),
        ensures
            keys_distinct(self.keys()),
    {
    }

    /// In a well-formed table every key is the key of its path, and every
    /// path is in its kept form.
    pub proof fn lemma_wf_facts(self)
        requires
            self.wf(),
        ensures
            self.keys().len() == self.path_bytes().len(),
            self@.len() == self.keys().len(),
            forall|i: int| 0 <= i < self.keys().len() ==> #[trigger] self.keys()[i] == path_key(self.path_bytes()[i]),
            forall|i: int| 0 <= i < self.keys().len() ==> stored_form(#[trigger] self.path_bytes()[i]) == self.path_bytes()[i],
    {
    }

    /// The bytes of a path are the encoding of its characters.
    pub proof fn lemma_view_bytes(self, i: int)
        requires
            0 <= i < self@.len(),
        ensures
            self.path_bytes()[i] == encode_utf8(self@[i]),
            self.path_bytes().len() == self@.len(),
    {
    }

    /// An empty table.
    pub fn new() -> (r: Self)
        ensures
            r.wf(),
            r@.len() == 0,
            r.keys().len() == 0,
    {
        let r = FileTable { paths: Vec::new(), keys: Vec::new(), index: FxHashMap::default() };
        assert(r.keys() =~= Seq::<Seq<u8>>::empty());
        assert(r.path_bytes() =~= Seq::<Seq<u8>>::empty());
        r
    }

    proof fn lemma_key_positions(keys: Seq<Seq<u8>>, n: int, h: u64)
        requires
            0 <= n <= keys.len(),
            n <= usize::MAX,
        ensures
            forall|k: int|
                0 <= k < key_positions(keys, n, h).len() ==> {
                    let p = #[trigger] key_positions(keys, n, h)[k];
                    p < n && key_hash(keys[p as int]) == h
                },
            forall|i: int|
                0 <= i < n && key_hash(keys[i]) == h ==> exists|k: int|
                    0 <= k < key_positions(keys, n, h).len() && #[trigger] key_positions(
                        keys,
                        n,
                        h,
                    )[k] == i as usize,
        decreases n,
    {
        if n > 0 {
            Self::lemma_key_positions(keys, n - 1, h);
            let prev = key_positions(keys, n - 1, h);
            if key_hash(keys[n - 1]) == h {
                let cur = prev.push((n - 1) as usize);
                assert(key_positions(keys, n, h) == cur);
                assert forall|k: int| 0 <= k < cur.len() implies {
                    let p = #[trigger] cur[k];
                    p < n && key_hash(keys[p as int]) == h
                } by {
                    if k < prev.len() {
                        assert(cur[k] == prev[k]);
                    }
                }
                assert forall|i: int| 0 <= i < n && key_hash(keys[i]) == h implies exists|k: int|
                    0 <= k < cur.len() && #[trigger] cur[k] == i as usize by {
                    if i < n - 1 {
                        let k = choose|k: int| 0 <= k < prev.len() && prev[k] == i as usize;
                        assert(cur[k] == i as usize);
                    } else {
                        assert(cur[prev.len() as int] == i as usize);
                    }
                }
            } else {
                assert(key_positions(keys, n, h) == prev);
            }
        }
    }

    /// The id of the path whose key is `key`, if any.
    fn find_key(&self, key: &[u8]) -> (r: Option<usize>)
        requires
            self.wf(),
        ensures
            match r {
                Some(i) => i < self.keys().len() && self.keys()[i as int] == key@,
                None => !key_known(self.keys(), key@),
            },
    {
        let h = fxhash_bytes(key);
        let ghost keys = self.keys();
        let count = self.keys.len();
        proof {
            reveal(key_hash);
            assert(h == key_hash(key@));
            Self::lemma_key_positions(keys, keys.len() as int, h);
        }
        match fx_get(&self.index, &h) {
            None => {
                assert forall|i: int| 0 <= i < keys.len() implies keys[i] != key@ by {
                    if keys[i] == key@ {
                        assert(key_hash(keys[i]) == h);
                        let k = choose|k: int|
                            0 <= k < key_positions(keys, keys.len() as int, h).len()
                                && key_positions(keys, keys.len() as int, h)[k] == i as usize;
                        assert(false);
                    }
                }
                None
            },
            Some(bucket) => {
                let mut j: usize = 0;
                while j < bucket.len()
                    invariant
                        j <= bucket@.len(),
                        bucket@ == key_positions(keys, keys.len() as int, h),
                        keys == self.keys(),
                        keys.len() == count,
                        self.wf(),
                        h == key_hash(key@),
                        forall|k: int|
                            0 <= k < bucket@.len() ==> {
                                let p = #[trigger] bucket@[k];
                                p < keys.len() && key_hash(keys[p as int]) == h
                            },
                        forall|k: int| 0 <= k < j ==> keys[bucket@[k] as int] != key@,
                    decreases bucket@.len() - j,
                {
                    let p = bucket[j];
                    assert(keys[p as int] == self.keys@[p as int]@);
                    if bytes_eq(self.keys[p].as_slice(), key) {
                        return Some(p);
                    }
                    j = j + 1;
                }
                assert forall|i: int| 0 <= i < keys.len() implies keys[i] != key@ by {
                    if keys[i] == key@ {
                        assert(key_hash(keys[i]) == h);
                        let k = choose|k: int| 0 <= k < bucket@.len() && bucket@[k] == i as usize;
                        assert(keys[bucket@[k] as int] != key@);
                    }
                }
                None
            },
        }
    }

    /// Add a path whose key is not yet known, as the next id.
    fn push_new(&mut self, display: String, key: Vec<u8>)
        requires
            old(self).wf(),
            !key_known(old(self).keys(), key@),
            key@ == path_key(encode_utf8(display@)),
            stored_form(encode_utf8(display@)) == encode_utf8(display@),
        ensures
            final(self).wf(),
            final(self).keys() == old(self).keys().push(key@),
            final(self).path_bytes() == old(self).path_bytes().push(encode_utf8(display@)),
            final(self)@ == old(self)@.push(display@),
    {
        let h = fxhash_bytes(key.as_slice());
        proof {
            reveal(key_hash);
        }
        assert(h == key_hash(key@));
        let pos = self.keys.len();
        let ghost old_keys = self.keys();
        let ghost old_index = self.index@;
        let ghost kv = key@;
        let mut bucket = match fx_remove(&mut self.index, &h) {
            Some(v) => v,
            None => Vec::new(),
        };
        let ghost before = bucket@;
        bucket.push(pos);
        fx_insert(&mut self.index, h, bucket);
        self.keys.push(key);
        self.paths.push(display);
        let ghost new_keys = self.keys();
        assert(new_keys =~= old_keys.push(kv));
        assert(self.path_bytes() =~= old(self).path_bytes().push(encode_utf8(display@)));
        assert(self@ =~= old(self)@.push(display@));
        proof {
            assert(new_keys.drop_last() =~= old_keys);
            assert forall|g: u64| #![trigger self.index@.contains_key(g)]
                (self.index@.contains_key(g) ==> self.index@[g]@ == key_positions(
                    new_keys,
                    new_keys.len() as int,
                    g,
                )) && (!self.index@.contains_key(g) ==> key_positions(
                    new_keys,
                    new_keys.len() as int,
                    g,
                ).len() == 0) by {
                Self::lemma_key_positions_prefix(old_keys, kv, g);
                if g == h {
                    assert(before == key_positions(old_keys, old_keys.len() as int, g));
                } else {
                    assert(self.index@.contains_key(g) == old_index.contains_key(g));
                }
            }
            assert forall|i: int, j: int| 0 <= i < j < new_keys.len() implies new_keys[i]
                != new_keys[j] by {
                if j == old_keys.len() {
                    assert(new_keys[i] == old_keys[i]);
                }
            }
            let pb = self.path_bytes();
            let old_pb = old(self).path_bytes();
            assert forall|i: int| 0 <= i < new_keys.len() implies #[trigger] new_keys[i] == path_key(pb[i]) && stored_form(pb[i]) == pb[i] by {
                if i < old_keys.len() {
                    assert(new_keys[i] == old_keys[i]);
                    assert(pb[i] == old_pb[i]);
                }
            }
        }
    }

    proof fn lemma_key_positions_prefix(keys: Seq<Seq<u8>>, k: Seq<u8>, h: u64)
        ensures
            key_positions(keys.push(k), keys.len() + 1int, h) == if key_hash(k) == h {
                key_positions(keys, keys.len() as int, h).push(keys.len() as usize)
            } else {
                key_positions(keys, keys.len() as int, h)
            },
    {
        Self::lemma_key_positions_same(keys, keys.push(k), keys.len() as int, h);
    }

    proof fn lemma_key_positions_same(a: Seq<Seq<u8>>, b: Seq<Seq<u8>>, n: int, h: u64)
        requires
            0 <= n <= a.len(),
            n <= b.len(),
            forall|i: int| 0 <= i < n ==> a[i] == b[i],
        ensures
            key_positions(a, n, h) == key_positions(b, n, h),
        decreases n,
    {
        if n > 0 {
            Self::lemma_key_positions_same(a, b, n - 1, h);
        }
    }

    /// Register a normalized path: the id of its key when known, else the
    /// next id.
    fn register_normalized(&mut self, np: NormalizedPath) -> (r: FileId)
        requires
            old(self).wf(),
            np.key@ == path_key(encode_utf8(np.display@)),
            stored_form(encode_utf8(np.display@)) == encode_utf8(np.display@),
        ensures
            final(self).wf(),
            registered(
                old(self).keys(),
                old(self).path_bytes(),
                np.key@,
                encode_utf8(np.display@),
                final(self).keys(),
                final(self).path_bytes(),
                r@,
            ),
            key_known(old(self).keys(), np.key@) ==> final(self)@ == old(self)@,
            !key_known(old(self).keys(), np.key@) ==> final(self)@ == old(self)@.push(
                np.display@,
            ),
    {
        match self.find_key(np.key.as_slice()) {
            Some(i) => FileId::new(i as u64),
            None => {
                let id = self.keys.len() as u64;
                self.push_new(np.display, np.key);
                FileId::new(id)
            },
        }
    }

    /// Register `path` and return its id. Registering a path whose
    /// normalized form is already known returns the existing id.
    pub fn register(&mut self, path: &str) -> (r: FileId)
        requires
            old(self).wf(),
        ensures
            final(self).wf(),
            registered(
                old(self).keys(),
                old(self).path_bytes(),
                path_key(path.spec_bytes()),
                stored_form(path.spec_bytes()),
                final(self).keys(),
                final(self).path_bytes(),
                r@,
            ),
    {
        let np = normalize_full(path);
        self.register_normalized(np)
    }

    /// Register `path` after checking that it is relative and stays inside
    /// `root` once both are normalized.
    pub fn register_within(&mut self, path: &str, root: &str) -> (r: Result<FileId, SearchError>)
        requires
            old(self).wf(),
        ensures
            final(self).wf(),
            parts_absolute(normalized(path.spec_bytes())) ==> r == Err::<FileId, SearchError>(
                SearchError::InvalidQuery(QueryError::AbsolutePath),
            ),
            !parts_absolute(normalized(path.spec_bytes())) && !stays_within(
                path.spec_bytes(),
                root.spec_bytes(),
            ) ==> r == Err::<FileId, SearchError>(
                SearchError::InvalidQuery(QueryError::EscapesRoot),
            ),
            r is Err ==> final(self)@ == old(self)@ && final(self).keys() == old(self).keys()
                && final(self).path_bytes() == old(self).path_bytes(),
            !parts_absolute(normalized(path.spec_bytes())) && stays_within(
                path.spec_bytes(),
                root.spec_bytes(),
            ) ==> (r matches Ok(id) && registered(
                old(self).keys(),
                old(self).path_bytes(),
                path_key(path.spec_bytes()),
                stored_form(path.spec_bytes()),
                final(self).keys(),
                final(self).path_bytes(),
                id@,
            )),
    {
        let np = normalize_full(path);
        let pb = path.as_bytes();
        let rb = root.as_bytes();
        let ghost p = pb@;
        let ghost q = rb@;
        proof {
            lemma_parts_single_source(np.parts@, p, q, false);
        }
        if np.parts.len() > 0 && np.parts[0].kind == PartKind::Root {
            assert(parts_view(np.parts@, p, q)[0] is Root);
            return Err(SearchError::InvalidQuery(QueryError::AbsolutePath));
        }
        assert(!parts_absolute(normalized(p))) by {
            if np.parts@.len() > 0 {
                assert(parts_view_in(np.parts@, p)[0] == crate::types::path::part_view_in(
                    np.parts@[0],
                    p,
                ));
            }
        }
        let root_parts = split_parts(rb, true);
        proof {
            lemma_parts_single_source(root_parts@, p, q, true);
        }
        let nr = normalize_located(&root_parts, Ghost(p), Ghost(q));
        let mut joined: Vec<Part> = Vec::new();
        let mut i: usize = 0;
        while i < nr.len()
            invariant
                i <= nr@.len(),
                joined@ == nr@.take(i as int),
            decreases nr@.len() - i,
        {
            joined.push(nr[i]);
            assert(nr@.take(i + 1) =~= nr@.take(i as int).push(nr@[i as int]));
            i = i + 1;
        }
        let mut j: usize = 0;
        while j < np.parts.len()
            invariant
                j <= np.parts@.len(),
                joined@ == nr@ + np.parts@.take(j as int),
            decreases np.parts@.len() - j,
        {
            joined.push(np.parts[j]);
            assert(nr@ + np.parts@.take(j + 1) =~= (nr@ + np.parts@.take(j as int)).push(
                np.parts@[j as int],
            ));
            j = j + 1;
        }
        assert(nr@.take(nr@.len() as int) =~= nr@);
        assert(np.parts@.take(np.parts@.len() as int) =~= np.parts@);
        let jn = normalize_located(&joined, Ghost(p), Ghost(q));
        proof {
            assert(parts_view(joined@, p, q) =~= parts_view(nr@, p, q) + parts_view(
                np.parts@,
                p,
                q,
            ));
            assert forall|k: int| 0 <= k < nr@.len() implies part_in_bounds(
                #[trigger] nr@[k],
                crate::types::path::part_source(nr@[k], p, q),
            ) by {
                let m = choose|m: int| 0 <= m < root_parts@.len() && nr@[k] == root_parts@[m];
                assert(root_parts@[m].in_root);
                assert(part_in_bounds(root_parts@[m], q));
            }
            assert forall|k: int| 0 <= k < jn@.len() implies part_in_bounds(
                #[trigger] jn@[k],
                crate::types::path::part_source(jn@[k], p, q),
            ) by {
                let m = choose|m: int| 0 <= m < joined@.len() && jn@[k] == joined@[m];
                if m < nr@.len() {
                    assert(joined@[m] == nr@[m]);
                } else {
                    assert(joined@[m] == np.parts@[m - nr@.len()]);
                }
            }
        }
        if !located_start_with(&jn, &nr, pb, rb) {
            return Err(SearchError::InvalidQuery(QueryError::EscapesRoot));
        }
        Ok(self.register_normalized(np))
    }

    /// Rebuild a table from its list of paths, normalizing each one. Fails
    /// when the list is longer than [`MAX_FILE_TABLE_ENTRIES`], or when two
    /// paths normalize to the same file (reporting the later one).
    pub fn from_paths(raw: &Vec<String>) -> (r: Result<Self, FileTableError>)
        ensures
            raw@.len() > MAX_FILE_TABLE_ENTRIES ==> r == Err::<Self, FileTableError>(
                FileTableError::TooManyEntries { count: raw@.len() as usize },
            ),
            raw@.len() <= MAX_FILE_TABLE_ENTRIES && keys_distinct(raw_keys(raw@)) ==> (r matches Ok(
                t,
            ) && t.wf() && t.keys() == raw_keys(raw@) && t.path_bytes() == raw_stored(raw@)),
            raw@.len() <= MAX_FILE_TABLE_ENTRIES && !keys_distinct(raw_keys(raw@)) ==> (r matches Err(
                FileTableError::DuplicatePath { index },
            ) && index < raw@.len() && keys_distinct(raw_keys(raw@).take(index as int))
                && key_known(raw_keys(raw@).take(index as int), raw_keys(raw@)[index as int])),
    {
        let count = raw.len();
        if count > MAX_FILE_TABLE_ENTRIES {
            return Err(FileTableError::TooManyEntries { count });
        }
        let ghost keys = raw_keys(raw@);
        let mut table = FileTable::new();
        let mut i: usize = 0;
        while i < count
            invariant
                count == raw@.len(),
                count <= MAX_FILE_TABLE_ENTRIES,
                i <= count,
                keys == raw_keys(raw@),
                table.wf(),
                table.keys() == keys.take(i as int),
                table.path_bytes() == raw_stored(raw@).take(i as int),
            decreases count - i,
        {
            let np = normalize_full(raw[i].as_str());
            assert(np.key@ == keys[i as int]);
            match table.find_key(np.key.as_slice()) {
                Some(j) => {
                    assert(keys.take(i as int)[j as int] == keys[i as int]);
                    proof {
                        assert(!keys_distinct(keys)) by {
                            assert(keys[j as int] == keys[i as int]);
                        }
                    }
                    return Err(FileTableError::DuplicatePath { index: i });
                },
                None => {
                    table.push_new(np.display, np.key);
                    assert(keys.take(i + 1) =~= keys.take(i as int).push(keys[i as int]));
                    assert(raw_stored(raw@).take(i + 1) =~= raw_stored(raw@).take(i as int).push(
                        raw_stored(raw@)[i as int],
                    ));
                },
            }
            i = i + 1;
        }
        assert(keys.take(count as int) =~= keys);
        assert(raw_stored(raw@).take(count as int) =~= raw_stored(raw@));
        Ok(table)
    }

    /// The path registered under `id`, if any.
    pub fn lookup(&self, id: FileId) -> (r: Option<&str>)
        requires
            self.wf(),
        ensures
            id@ < self@.len() ==> (r matches Some(s) && s@ == self@[id@ as int]),
            id@ >= self@.len() ==> r is None,
    {
        let raw = id.as_u64();
        if raw < self.paths.len() as u64 {
            Some(self.paths[raw as usize].as_str())
        } else {
            None
        }
    }

    /// The number of registered paths.
    pub fn len(&self) -> (r: usize)
        ensures
            r == self@.len(),
            self.wf() ==> r == self.keys().len() && r == self.path_bytes().len(),
    {
        self.paths.len()
    }

    /// Whether no path is registered.
    pub fn is_empty(&self) -> (r: bool)
        ensures
            r == (self@.len() == 0),
    {
        self.paths.len() == 0
    }

    /// The registered paths in id order, as kept.
    pub fn to_paths(&self) -> (r: Vec<String>)
        ensures
            r@.map_values(|s: String| s@) == self@,
    {
        let mut out: Vec<String> = Vec::new();
        let mut i: usize = 0;
        while i < self.paths.len()
            invariant
                i <= self.paths@.len(),
                out@.map_values(|s: String| s@) == self@.take(i as int),
            decreases self.paths@.len() - i,
        {
            let c = self.paths[i].clone();
            assert(c@ == self.paths@[i as int]@);
            let ghost before = out@;
            out.push(c);
            assert(out@.map_values(|s: String| s@) =~= before.map_values(|s: String| s@).push(c@));
            assert(self@.take(i + 1) =~= self@.take(i as int).push(self@[i as int]));
            i = i + 1;
        }
        assert(self@.take(self.paths@.len() as int) =~= self@);
        out
    }
}

impl Default for FileTable {
    fn default() -> (r: Self)
        ensures
            r.wf(),
            r@.len() == 0,
    {
        FileTable::new()
    }
}

/// Registering a path keeps the keys distinct, and the id it returns is
/// the one under which the path's key now stands.
pub proof fn lemma_registered_key_at_id(
    keys: Seq<Seq<u8>>,
    paths: Seq<Seq<u8>>,
    k: Seq<u8>,
    shown: Seq<u8>,
    new_keys: Seq<Seq<u8>>,
    new_paths: Seq<Seq<u8>>,
    id: u64,
)
    requires
        keys_distinct(keys),
        registered(keys, paths, k, shown, new_keys, new_paths, id),
    ensures
        keys_distinct(new_keys),
        id < new_keys.len(),
        new_keys[id as int] == k,
{
    if !key_known(keys, k) {
        assert forall|i: int, j: int| 0 <= i < j < new_keys.len() implies new_keys[i]
            != new_keys[j] by {
            if j == keys.len() {
                assert(new_keys[i] == keys[i]);
            }
        }
    }
}

/// Two registrations of paths with the same normalized form (the same
/// path twice, or `./src/main.rs` then `src/main.rs`) return the same id,
/// and the second one leaves the table as it was.
pub proof fn lemma_register_same_file_same_id(
    keys0: Seq<Seq<u8>>,
    paths0: Seq<Seq<u8>>,
    k: Seq<u8>,
    shown_a: Seq<u8>,
    shown_b: Seq<u8>,
    keys1: Seq<Seq<u8>>,
    paths1: Seq<Seq<u8>>,
    id1: u64,
    keys2: Seq<Seq<u8>>,
    paths2: Seq<Seq<u8>>,
    id2: u64,
)
    requires
        keys_distinct(keys0),
        registered(keys0, paths0, k, shown_a, keys1, paths1, id1),
        registered(keys1, paths1, k, shown_b, keys2, paths2, id2),
    ensures
        id2 == id1,
        keys2 == keys1,
        paths2 == paths1,
{
    lemma_registered_key_at_id(keys0, paths0, k, shown_a, keys1, paths1, id1);
    assert(key_known(keys1, k)) by {
        assert(keys1[id1 as int] == k);
    }
    assert(keys1[id2 as int] == k);
}

/// Registering paths with different normalized forms gives different ids.
pub proof fn lemma_register_different_files_different_ids(
    keys0: Seq<Seq<u8>>,
    paths0: Seq<Seq<u8>>,
    ka: Seq<u8>,
    kb: Seq<u8>,
    shown_a: Seq<u8>,
    shown_b: Seq<u8>,
    keys1: Seq<Seq<u8>>,
    paths1: Seq<Seq<u8>>,
    id1: u64,
    keys2: Seq<Seq<u8>>,
    paths2: Seq<Seq<u8>>,
    id2: u64,
)
    requires
        keys_distinct(keys0),
        ka != kb,
        registered(keys0, paths0, ka, shown_a, keys1, paths1, id1),
        registered(keys1, paths1, kb, shown_b, keys2, paths2, id2),
    ensures
        id1 != id2,
{
    lemma_registered_key_at_id(keys0, paths0, ka, shown_a, keys1, paths1, id1);
    lemma_registered_key_at_id(keys1, paths1, kb, shown_b, keys2, paths2, id2);
    if key_known(keys1, kb) {
        assert(keys2 == keys1);
    } else {
        assert(keys2[id1 as int] == keys1[id1 as int]);
    }
}

/// With distinct keys, the id a registration returns is the one
/// [`id_for`] names.
pub proof fn lemma_registered_id(
    keys: Seq<Seq<u8>>,
    paths: Seq<Seq<u8>>,
    k: Seq<u8>,
    shown: Seq<u8>,
    new_keys: Seq<Seq<u8>>,
    new_paths: Seq<Seq<u8>>,
    id: u64,
)
    requires
        keys_distinct(keys),
        registered(keys, paths, k, shown, new_keys, new_paths, id),
    ensures
        id == id_for(keys, k),
{
}

/// The list of kept paths of a table rebuilds the same table: the paths
/// have the same keys, pairwise distinct, and keeping them leaves them as
/// they are, so looking up and registering behave as before.
pub proof fn lemma_paths_rebuild_same_table(t: FileTable, raw: Seq<String>)
    requires
        t.wf(),
        raw.map_values(|s: String| s@) == t@,
    ensures
        raw_keys(raw) == t.keys(),
        raw_stored(raw) == t.path_bytes(),
        keys_distinct(raw_keys(raw)),
{
    t.lemma_wf_facts();
    assert forall|i: int| 0 <= i < raw.len() implies encode_utf8(#[trigger] raw[i]@) == t.path_bytes()[i] by {
        assert(raw.map_values(|s: String| s@)[i] == raw[i]@);
        t.lemma_view_bytes(i);
    }
    assert(raw_keys(raw) =~= t.keys());
    assert(raw_stored(raw) =~= t.path_bytes());
}

} // verus!
