//! The typed memory one workflow execution owns: a key-value cache with
//! last-write-wins semantics, keyed stacks in insertion order, and a file
//! store of text chunks searched by similarity scores. The similarity scores
//! themselves are computed outside (embeddings are network calls); the store
//! receives them in millionths of cosine similarity and makes the verified
//! decisions: ordering, top-k selection, and threshold checks.

use vstd::prelude::*;
use vstd::map::*;
use vstd::pervasive::VecAdditionalExecFns;
use vstd::string::StrSliceExecFns;
use vstd::string::StringExecFns;
use crate::entry::{Entry, EntryModel};
use crate::errors::FileSystemError;
use crate::jsontext::{json_quote, json_quote_str};
use crate::numbers::{sim_render, render_similarity};
use crate::outside::{chunks_of, split_chunks, json_text_content, json_as_text};
use crate::strings::{str_eq, concat2};

pub use crate::entry::MemoryReturnType;

verus! {

/// First index in `ks` (from `i` on) whose view equals `k`, or -1.
pub open spec fn idx_of(ks: Seq<Seq<char>>, k: Seq<char>, i: int) -> int
    decreases ks.len() - i,
{
    if i < 0 || i >= ks.len() {
        -1
    } else if ks[i] == k {
        i
    } else {
        idx_of(ks, k, i + 1)
    }
}

/// The views of a list of key strings.
pub open spec fn key_views(ks: Seq<String>) -> Seq<Seq<char>> {
    Seq::new(ks.len(), |i: int| ks[i]@)
}

pub proof fn lemma_idx_of(ks: Seq<Seq<char>>, k: Seq<char>, i: int)
    requires
        0 <= i <= ks.len(),
    ensures
        ({
            let r = idx_of(ks, k, i);
            (r == -1 ==> forall|j: int| i <= j < ks.len() ==> ks[j] != k) && (r != -1 ==> i <= r
                < ks.len() && ks[r] == k && forall|j: int| i <= j < r ==> ks[j] != k)
        }),
    decreases ks.len() - i,
{
    if i < ks.len() && ks[i] != k {
        lemma_idx_of(ks, k, i + 1);
    }
}

/// Appending a fresh key: the first hit for `k` is unchanged if present,
/// the new slot if the appended key is `k`, absent otherwise.
pub proof fn lemma_idx_push(ks: Seq<Seq<char>>, x: Seq<char>, k: Seq<char>, i: int)
    requires
        0 <= i <= ks.len(),
    ensures
        idx_of(ks.push(x), k, i) == if idx_of(ks, k, i) != -1 {
            idx_of(ks, k, i)
        } else if x == k {
            ks.len() as int
        } else {
            -1
        },
    decreases ks.len() - i,
{
    let kp = ks.push(x);
    if i < ks.len() {
        assert(kp[i] == ks[i]);
        if ks[i] != k {
            lemma_idx_push(ks, x, k, i + 1);
        }
    } else {
        assert(kp[i] == x);
        assert(idx_of(ks, k, i) == -1);
        if x == k {
            assert(idx_of(kp, k, i) == i);
        } else {
            assert(idx_of(kp, k, i + 1) == -1);
            assert(idx_of(kp, k, i) == -1);
        }
    }
}

/// Scan for the first slot holding key `k`.
fn find_key(keys: &Vec<String>, k: &str) -> (r: Option<usize>)
    ensures
        ({
            let idx = idx_of(key_views(keys@), k@, 0);
            match r {
                Some(i) => idx == i as int && i < keys@.len(),
                None => idx == -1,
            }
        }),
{
    proof {
        lemma_idx_of(key_views(keys@), k@, 0);
    }
    let n = keys.len();
    let mut i: usize = 0;
    while i < n
        invariant
            n == keys@.len(),
            i <= n,
            forall|j: int| 0 <= j < i ==> key_views(keys@)[j] != k@,
        decreases n - i,
    {
        if str_eq(keys[i].as_str(), k) {
            proof {
                lemma_idx_of(key_views(keys@), k@, 0);
                let idx = idx_of(key_views(keys@), k@, 0);
                assert(key_views(keys@)[i as int] == k@);
                if idx == -1 {
                    assert(false);
                }
                if idx < i {
                    assert(key_views(keys@)[idx] != k@);
                }
                if i < idx {
                    assert(key_views(keys@)[i as int] != k@);
                }
            }
            return Some(i);
        }
        i += 1;
    }
    proof {
        lemma_idx_of(key_views(keys@), k@, 0);
        let idx = idx_of(key_views(keys@), k@, 0);
        if idx != -1 {
            assert(key_views(keys@)[idx] != k@);
        }
    }
    None
}

/// The abstract state of one execution's memory.
#[verifier::ext_equal]
pub struct MemModel {
    pub cache: Map<Seq<char>, EntryModel>,
    pub stacks: Map<Seq<char>, Seq<EntryModel>>,
    pub files: Seq<Seq<char>>,
}

/// The stack page under `k`, empty when the key is unknown.
pub open spec fn stack_page(m: MemModel, k: Seq<char>) -> Seq<EntryModel> {
    if m.stacks.contains_key(k) {
        m.stacks[k]
    } else {
        Seq::empty()
    }
}

/// The number of entries stacked under `k`; 0 for unknown keys.
pub open spec fn stack_size(m: MemModel, k: Seq<char>) -> int {
    stack_page(m, k).len() as int
}

/// Key-to-entry store with overwrite-on-write semantics.
pub struct Cache {
    keys: Vec<String>,
    vals: Vec<Entry>,
}

impl Cache {
    pub closed spec fn wf(&self) -> bool {
        self.keys@.len() == self.vals@.len()
    }

    /// The cache as a map from key text to entry value.
    pub closed spec fn view(&self) -> Map<Seq<char>, EntryModel> {
        Map::new(
            |k: Seq<char>| idx_of(key_views(self.keys@), k, 0) != -1,
            |k: Seq<char>| self.vals@[idx_of(key_views(self.keys@), k, 0)]@,
        )
    }

    pub fn new() -> (r: Cache)
        ensures
            r.wf(),
            r.view() =~= Map::empty(),
    {
        let r = Cache { keys: Vec::new(), vals: Vec::new() };
        proof {
            assert forall|k: Seq<char>| !r.view().contains_key(k) by {
                lemma_idx_of(key_views(r.keys@), k, 0);
            }
        }
        r
    }

    /// Read the entry under `key`, if any.
    pub fn get(&self, key: &str) -> (r: Option<Entry>)
        requires
            self.wf(),
        ensures
            match r {
                Some(e) => self.view().contains_key(key@) && e@ == self.view()[key@],
                None => !self.view().contains_key(key@),
            },
    {
        match find_key(&self.keys, key) {
            Some(i) => Some(self.vals[i].duplicate()),
            None => None,
        }
    }

    /// Write `value` under `key`, replacing any earlier value.
    pub fn set(&mut self, key: &str, value: Entry)
        requires
            old(self).wf(),
        ensures
            final(self).wf(),
            final(self).view() =~= old(self).view().insert(key@, value@),
    {
        let ghost ks = key_views(self.keys@);
        match find_key(&self.keys, key) {
            Some(i) => {
                let ghost v = value@;
                self.vals.set(i, value);
                proof {
                    assert_maps_equal!(final(self).view(), old(self).view().insert(key@, v), q => {
                        lemma_idx_of(ks, q, 0);
                        lemma_idx_of(ks, key@, 0);
                        if q != key@ && idx_of(ks, q, 0) != -1 {
                            assert(ks[idx_of(ks, q, 0)] == q);
                        }
                    });
                }
            },
            None => {
                let ghost v = value@;
                self.keys.push(key.to_owned());
                self.vals.push(value);
                proof {
                    assert(key_views(self.keys@) =~= ks.push(key@));
                    assert_maps_equal!(final(self).view(), old(self).view().insert(key@, v), q => {
                        lemma_idx_push(ks, key@, q, 0);
                        lemma_idx_of(ks, q, 0);
                        lemma_idx_of(ks.push(key@), q, 0);
                    });
                }
            },
        }
    }
}

/// Keyed stacks of entries, insertion-ordered.
pub struct Stack {
    keys: Vec<String>,
    pages: Vec<Vec<Entry>>,
}

impl Stack {
    pub closed spec fn wf(&self) -> bool {
        self.keys@.len() == self.pages@.len()
    }

    /// One stored page as a sequence of abstract entries.
    pub open spec fn page_view(page: Vec<Entry>) -> Seq<EntryModel> {
        Seq::new(page@.len(), |i: int| page@[i]@)
    }

    /// The stacks as a map from key text to entry sequence.
    pub closed spec fn view(&self) -> Map<Seq<char>, Seq<EntryModel>> {
        Map::new(
            |k: Seq<char>| idx_of(key_views(self.keys@), k, 0) != -1,
            |k: Seq<char>| Self::page_view(self.pages@[idx_of(key_views(self.keys@), k, 0)]),
        )
    }

    pub fn new() -> (r: Stack)
        ensures
            r.wf(),
            r.view() =~= Map::empty(),
    {
        let r = Stack { keys: Vec::new(), pages: Vec::new() };
        proof {
            assert forall|k: Seq<char>| !r.view().contains_key(k) by {
                lemma_idx_of(key_views(r.keys@), k, 0);
            }
        }
        r
    }

    /// Append `value` to the stack under `key`, creating it if absent.
    pub fn push(&mut self, key: &str, value: Entry)
        requires
            old(self).wf(),
        ensures
            final(self).wf(),
            final(self).view() =~= old(self).view().insert(
                key@,
                stack_page_of(old(self).view(), key@).push(value@),
            ),
    {
        let ghost ks = key_views(self.keys@);
        let ghost v = value@;
        match find_key(&self.keys, key) {
            Some(i) => {
                let ghost oldpage = self.pages@[i as int];
                let page = &mut self.pages[i];
                page.push(value);
                proof {
                    assert(Self::page_view(self.pages@[i as int]) =~= Self::page_view(oldpage)
                        .push(v));
                    assert_maps_equal!(final(self).view(), old(self).view().insert(
                        key@,
                        stack_page_of(old(self).view(), key@).push(v),
                    ), q => {
                        lemma_idx_of(ks, q, 0);
                        lemma_idx_of(ks, key@, 0);
                        if q != key@ && idx_of(ks, q, 0) != -1 {
                            assert(ks[idx_of(ks, q, 0)] == q);
                        }
                    });
                }
            },
            None => {
                let mut page: Vec<Entry> = Vec::new();
                page.push(value);
                self.keys.push(key.to_owned());
                self.pages.push(page);
                proof {
                    assert(key_views(self.keys@) =~= ks.push(key@));
                    assert(Self::page_view(self.pages@[ks.len() as int]) =~= Seq::<
                        EntryModel,
                    >::empty().push(v));
                    assert_maps_equal!(final(self).view(), old(self).view().insert(
                        key@,
                        stack_page_of(old(self).view(), key@).push(v),
                    ), q => {
                        lemma_idx_push(ks, key@, q, 0);
                        lemma_idx_of(ks, q, 0);
                        lemma_idx_of(ks.push(key@), q, 0);
                    });
                }
            },
        }
    }

    /// Remove and return the last entry under `key`; nothing for a missing
    /// or empty stack, which stay as they were.
    pub fn pop(&mut self, key: &str) -> (r: Option<Entry>)
        requires
            old(self).wf(),
        ensures
            final(self).wf(),
            ({
                let page = stack_page_of(old(self).view(), key@);
                if page.len() > 0 {
                    r is Some && r->0@ == page.last() && final(self).view() =~= old(
                        self,
                    ).view().insert(key@, page.drop_last())
                } else {
                    r is None && final(self).view() =~= old(self).view()
                }
            }),
    {
        let ghost ks = key_views(self.keys@);
        match find_key(&self.keys, key) {
            Some(i) => {
                let ghost oldpage = self.pages@[i as int];
                if self.pages[i].len() == 0 {
                    proof {
                        assert(final(self).view() =~= old(self).view());
                    }
                    return None;
                }
                let page = &mut self.pages[i];
                let e = page.pop().unwrap();
                proof {
                    assert(Self::page_view(self.pages@[i as int]) =~= Self::page_view(oldpage)
                        .drop_last());
                    assert(e@ == Self::page_view(oldpage).last());
                    assert_maps_equal!(final(self).view(), old(self).view().insert(
                        key@,
                        stack_page_of(old(self).view(), key@).drop_last(),
                    ), q => {
                        lemma_idx_of(ks, q, 0);
                        lemma_idx_of(ks, key@, 0);
                        if q != key@ && idx_of(ks, q, 0) != -1 {
                            assert(ks[idx_of(ks, q, 0)] == q);
                        }
                    });
                }
                Some(e)
            },
            None => None,
        }
    }

    /// Read the entry at `index` without removing it; nothing past the end
    /// or for a missing stack.
    pub fn peek(&self, key: &str, index: usize) -> (r: Option<Entry>)
        requires
            self.wf(),
        ensures
            ({
                let page = stack_page_of(self.view(), key@);
                if index < page.len() {
                    r is Some && r->0@ == page[index as int]
                } else {
                    r is None
                }
            }),
    {
        match find_key(&self.keys, key) {
            Some(i) => {
                let page = &self.pages[i];
                if index < page.len() {
                    Some(page[index].duplicate())
                } else {
                    None
                }
            },
            None => None,
        }
    }

    /// Snapshot of the whole stack under `key`, if present.
    pub fn get_all(&self, key: &str) -> (r: Option<Vec<Entry>>)
        requires
            self.wf(),
        ensures
            ({
                let page = stack_page_of(self.view(), key@);
                match r {
                    Some(v) => self.view().contains_key(key@) && v@.len() == page.len() && forall|
                        j: int,
                    | 0 <= j < page.len() ==> v@[j]@ == page[j],
                    None => !self.view().contains_key(key@),
                }
            }),
    {
        match find_key(&self.keys, key) {
            Some(i) => {
                let page = &self.pages[i];
                let mut out: Vec<Entry> = Vec::new();
                let mut j: usize = 0;
                let n = page.len();
                while j < n
                    invariant
                        n == page@.len(),
                        j <= n,
                        out@.len() == j,
                        forall|t: int| 0 <= t < j ==> out@[t]@ == page@[t]@,
                    decreases n - j,
                {
                    out.push(page[j].duplicate());
                    j += 1;
                }
                Some(out)
            },
            None => None,
        }
    }
}

/// The stack page under `k` in a raw stacks map, empty when unknown.
pub open spec fn stack_page_of(m: Map<Seq<char>, Seq<EntryModel>>, k: Seq<char>) -> Seq<
    EntryModel,
> {
    if m.contains_key(k) {
        m[k]
    } else {
        Seq::empty()
    }
}

/// Whether a chunk is long enough to store: at least 25 bytes of text.
pub open spec fn chunk_kept(c: Seq<char>) -> bool {
    (vstd::utf8::encode_utf8(c).len() as usize) >= 25
}

/// The chunks from index `i` on that are long enough to store, in order.
pub open spec fn kept_from(cs: Seq<Seq<char>>, i: int) -> Seq<Seq<char>>
    decreases cs.len() - i,
{
    if i < 0 || i >= cs.len() {
        Seq::empty()
    } else {
        (if chunk_kept(cs[i]) {
            seq![cs[i]]
        } else {
            Seq::empty()
        }) + kept_from(cs, i + 1)
    }
}

/// The text an entry contributes to the file store: a text entry contributes
/// its content, a JSON entry only the content of a JSON string literal.
pub open spec fn insert_content(e: EntryModel) -> Option<Seq<char>> {
    match e {
        EntryModel::Text(s) => Option::Some(s),
        EntryModel::Json(j) => json_text_content(j),
    }
}

/// The earliest index in `[0, i)` with a maximal score that is not yet used;
/// -1 when there is none.
pub open spec fn best_pre(sc: Seq<i64>, used: Seq<bool>, i: int) -> int
    decreases i,
{
    if i <= 0 || i > sc.len() || i > used.len() {
        -1
    } else {
        let p = best_pre(sc, used, i - 1);
        if used[i - 1] {
            p
        } else if p == -1 {
            i - 1
        } else if sc[i - 1] > sc[p] {
            i - 1
        } else {
            p
        }
    }
}

/// The indices of the top `k` scores, best first, earliest index winning
/// ties; stops early when all indices are used.
pub open spec fn top_sel(sc: Seq<i64>, used: Seq<bool>, k: int) -> Seq<int>
    decreases k,
{
    if k <= 0 {
        Seq::empty()
    } else {
        let b = best_pre(sc, used, sc.len() as int);
        if b == -1 {
            Seq::empty()
        } else {
            seq![b] + top_sel(sc, used.update(b, true), k - 1)
        }
    }
}

/// A score clamped into [-1000000, 1000000] for rendering.
pub open spec fn clamp_ppm(s: int) -> int {
    if s < -1000000 {
        -1000000
    } else if s > 1000000 {
        1000000
    } else {
        s
    }
}

/// The JSON rendering of one search hit.
pub open spec fn passage_json(p: Seq<char>, ppm: int) -> Seq<char> {
    "{\"passage\":"@ + json_quote(p) + ",\"similarity\":"@ + sim_render(ppm) + "}"@
}

/// The file store: text chunks in insertion order. Embeddings for the chunks
/// live with the caller; similarity scores come in as plain numbers in
/// millionths of cosine similarity, aligned with the chunk order.
pub struct FileSystem {
    files: Vec<String>,
}

impl FileSystem {
    /// The stored chunks in order.
    pub closed spec fn view(&self) -> Seq<Seq<char>> {
        self.files.deep_view()
    }

    pub fn new() -> (r: FileSystem)
        ensures
            r.view() =~= Seq::<Seq<char>>::empty(),
    {
        FileSystem { files: Vec::new() }
    }

    /// The chunks, for the caller to embed.
    pub fn chunks(&self) -> (r: &Vec<String>)
        ensures
            r.deep_view() == self.view(),
    {
        &self.files
    }

    /// Chunk the entry's text and append every chunk of at least 25 bytes;
    /// an entry without text (a JSON document that is not a string literal)
    /// is rejected and changes nothing.
    pub fn add(&mut self, entry: &Entry) -> (r: Result<(), FileSystemError>)
        ensures
            match insert_content(entry@) {
                Option::Some(c) => r is Ok && final(self).view() =~= old(self).view()
                    + kept_from(chunks_of(c), 0),
                Option::None => r is Err && final(self).view() == old(self).view(),
            },
    {
        let content: String = match entry {
            Entry::Text(s) => s.clone(),
            Entry::Json(j) => match json_as_text(j.as_str()) {
                Some(t) => t,
                None => {
                    return Err(FileSystemError::InsertionFailed(j.clone()));
                },
            },
        };
        let chunks = split_chunks(content.as_str());
        let ghost cs = chunks_of(content@);
        let ghost base = self.view();
        let n = chunks.len();
        let mut i: usize = 0;
        while i < n
            invariant
                cs == chunks.deep_view(),
                n == chunks@.len(),
                cs.len() == n,
                i <= n,
                base + kept_from(cs, 0) =~= self.view() + kept_from(cs, i as int),
            decreases n - i,
        {
            let c = chunks[i].clone();
            proof {
                assert(c@ == cs[i as int]);
            }
            if c.as_str().len() >= 25 {
                let ghost prev = self.view();
                self.files.push(c);
                proof {
                    assert(self.view() =~= prev.push(cs[i as int]));
                    assert(kept_from(cs, i as int) == seq![cs[i as int]] + kept_from(cs, i + 1));
                    assert(prev + kept_from(cs, i as int) =~= prev.push(cs[i as int])
                        + kept_from(cs, i + 1));
                    assert(base + kept_from(cs, 0) =~= self.view() + kept_from(cs, i + 1));
                }
            } else {
                proof {
                    assert(kept_from(cs, i as int) =~= kept_from(cs, i + 1));
                    assert(base + kept_from(cs, 0) =~= self.view() + kept_from(cs, i + 1));
                }
            }
            i += 1;
        }
        proof {
            assert(kept_from(cs, n as int) =~= Seq::<Seq<char>>::empty());
            assert(base == old(self).view());
            assert(final(self).view() =~= old(self).view() + kept_from(cs, 0));
        }
        Ok(())
    }

    /// The top three stored chunks by descending score, each rendered as a
    /// JSON object `{"passage": ..., "similarity": ...}`. `scores[i]` is the
    /// caller-computed similarity of chunk `i` in millionths; chunks beyond
    /// the scored prefix are not considered.
    pub fn search(&self, scores: &Vec<i64>) -> (r: Vec<Entry>)
        ensures
            ({
                let m = if self.view().len() < scores@.len() {
                    self.view().len() as int
                } else {
                    scores@.len() as int
                };
                let sc = scores@.subrange(0, m);
                let sel = top_sel(sc, Seq::new(m as nat, |j: int| false), 3);
                r@.len() == sel.len() && forall|j: int|
                    0 <= j < sel.len() ==> r@[j]@ == EntryModel::Json(
                        passage_json(self.view()[sel[j]], clamp_ppm(sc[sel[j]] as int)),
                    )
            }),
    {
        self.search_top(scores, 3)
    }

    /// The top `k` stored chunks by descending score, rendered as JSON hits.
    pub fn search_top(&self, scores: &Vec<i64>, k: usize) -> (r: Vec<Entry>)
        ensures
            ({
                let m = if self.view().len() < scores@.len() {
                    self.view().len() as int
                } else {
                    scores@.len() as int
                };
                let sc = scores@.subrange(0, m);
                let sel = top_sel(sc, Seq::new(m as nat, |j: int| false), k as int);
                r@.len() == sel.len() && forall|j: int|
                    0 <= j < sel.len() ==> r@[j]@ == EntryModel::Json(
                        passage_json(self.view()[sel[j]], clamp_ppm(sc[sel[j]] as int)),
                    )
            }),
    {
        proof {
            assert(self.view().len() == self.files@.len());
        }
        let m: usize = if self.files.len() < scores.len() {
            self.files.len()
        } else {
            scores.len()
        };
        let ghost sc = scores@.subrange(0, m as int);
        let mut used: Vec<bool> = Vec::new();
        let mut t: usize = 0;
        while t < m
            invariant
                t <= m,
                used@.len() == t,
                forall|j: int| 0 <= j < t ==> used@[j] == false,
            decreases m - t,
        {
            used.push(false);
            t += 1;
        }
        proof {
            assert(used@ =~= Seq::new(m as nat, |j: int| false));
        }
        let mut out: Vec<Entry> = Vec::new();
        let mut taken: usize = 0;
        let ghost used0 = used@;
        while taken < k
            invariant
                m <= self.files@.len(),
                m <= scores@.len(),
                self.view().len() == self.files@.len(),
                m as int == if self.view().len() < scores@.len() {
                    self.view().len() as int
                } else {
                    scores@.len() as int
                },
                sc == scores@.subrange(0, m as int),
                sc.len() == m,
                used0 =~= Seq::new(m as nat, |j: int| false),
                used@.len() == m,
                taken <= k,
                ({
                    let full = top_sel(sc, used0, k as int);
                    let rest = top_sel(sc, used@, k - taken);
                    full.len() == out@.len() + rest.len() && (forall|j: int|
                        0 <= j < out@.len() ==> out@[j]@ == EntryModel::Json(
                            passage_json(
                                self.view()[full[j]],
                                clamp_ppm(sc[full[j]] as int),
                            ),
                        )) && (forall|j: int|
                        0 <= j < rest.len() ==> full[out@.len() + j] == rest[j])
                }),
            decreases k - taken,
        {
            let b = self.scan_best(scores, &used, m);
            proof {
                assert(top_sel(sc, used@, k - taken) == if best_pre(sc, used@, m as int) == -1 {
                    Seq::<int>::empty()
                } else {
                    seq![best_pre(sc, used@, m as int)] + top_sel(
                        sc,
                        used@.update(best_pre(sc, used@, m as int), true),
                        k - taken - 1,
                    )
                });
            }
            match b {
                Some(bi) => {
                    let ghost used_pre = used@;
                    let ghost out_pre = out@;
                    let ghost full = top_sel(sc, used0, k as int);
                    let ghost rest = top_sel(sc, used_pre, k - taken);
                    let passage = self.files[bi].clone();
                    let score = scores[bi];
                    let clamped: i64 = if score < -1000000 {
                        -1000000
                    } else if score > 1000000 {
                        1000000
                    } else {
                        score
                    };
                    let mut text = "{\"passage\":".to_owned();
                    let q = json_quote_str(passage.as_str());
                    text.append(q.as_str());
                    text.append(",\"similarity\":");
                    let srend = render_similarity(clamped);
                    text.append(srend.as_str());
                    text.append("}");
                    proof {
                        assert(passage@ == self.view()[bi as int]);
                        assert(sc[bi as int] == scores@[bi as int]);
                        assert(text@ =~= passage_json(
                            self.view()[bi as int],
                            clamp_ppm(sc[bi as int] as int),
                        ));
                    }
                    out.push(Entry::Json(text));
                    used.set(bi, true);
                    taken += 1;
                    proof {
                        assert(rest == seq![bi as int] + top_sel(
                            sc,
                            used_pre.update(bi as int, true),
                            k - taken,
                        ));
                        assert(rest[0] == bi as int);
                        assert(full[out_pre.len() as int] == bi as int);
                        let rest2 = top_sel(sc, used@, k - taken);
                        assert(rest2 == top_sel(sc, used_pre.update(bi as int, true), k - taken));
                        assert forall|j: int| 0 <= j < rest2.len() implies full[out@.len() + j]
                            == rest2[j] by {
                            assert(rest[j + 1] == rest2[j]);
                            assert(full[out_pre.len() + (j + 1)] == rest[j + 1]);
                        }
                    }
                },
                None => {
                    proof {
                        assert(top_sel(sc, used@, k - taken) =~= Seq::<int>::empty());
                    }
                    return out;
                },
            }
        }
        proof {
            assert(top_sel(sc, used@, 0) =~= Seq::<int>::empty());
        }
        out
    }

    /// The earliest unused index with maximal score among the first `m`.
    fn scan_best(&self, scores: &Vec<i64>, used: &Vec<bool>, m: usize) -> (r: Option<usize>)
        requires
            m <= scores@.len(),
            m <= used@.len(),
            m <= self.view().len(),
        ensures
            ({
                let sc = scores@.subrange(0, m as int);
                let b = best_pre(sc, used@, m as int);
                match r {
                    Some(i) => b == i as int && i < m,
                    None => b == -1,
                }
            }),
    {
        let ghost sc = scores@.subrange(0, m as int);
        let mut best: Option<usize> = None;
        let mut i: usize = 0;
        while i < m
            invariant
                m <= scores@.len(),
                m <= used@.len(),
                sc == scores@.subrange(0, m as int),
                i <= m,
                match best {
                    Some(bi) => best_pre(sc, used@, i as int) == bi as int && bi < m,
                    None => best_pre(sc, used@, i as int) == -1,
                },
            decreases m - i,
        {
            if !used[i] {
                match best {
                    Some(bi) => {
                        if scores[i] > scores[bi] {
                            best = Some(i);
                        }
                    },
                    None => {
                        best = Some(i);
                    },
                }
            }
            i += 1;
        }
        best
    }

    /// Whether any scored chunk lies strictly above the threshold. The
    /// threshold is given in millionths (default 850000) and must lie in
    /// [0, 1000000]; anything above is rejected as invalid.
    pub fn have_similar(&self, scores: &Vec<i64>, threshold: Option<u64>) -> (r: Result<
        bool,
        FileSystemError,
    >)
        ensures
            ({
                let t = if threshold is Some {
                    threshold->0
                } else {
                    850000u64
                };
                let m = if self.view().len() < scores@.len() {
                    self.view().len() as int
                } else {
                    scores@.len() as int
                };
                if t > 1000000 {
                    r matches Err(FileSystemError::InvalidThreshold(x)) && x == t
                } else {
                    r matches Ok(b) && b == exists|i: int|
                        0 <= i < m && scores@[i] > t as i64
                }
            }),
    {
        let t: u64 = match threshold {
            Some(x) => x,
            None => 850000,
        };
        if t > 1000000 {
            return Err(FileSystemError::InvalidThreshold(t));
        }
        proof {
            assert(self.view().len() == self.files@.len());
        }
        let m: usize = if self.files.len() < scores.len() {
            self.files.len()
        } else {
            scores.len()
        };
        let mut i: usize = 0;
        while i < m
            invariant
                m <= scores@.len(),
                self.view().len() == self.files@.len(),
                m as int == if self.view().len() < scores@.len() {
                    self.view().len() as int
                } else {
                    scores@.len() as int
                },
                t == if threshold is Some {
                    threshold->0
                } else {
                    850000u64
                },
                i <= m,
                t <= 1000000,
                forall|j: int| 0 <= j < i ==> !(scores@[j] > t as i64),
            decreases m - i,
        {
            if scores[i] > t as i64 {
                return Ok(true);
            }
            i += 1;
        }
        Ok(false)
    }
}

/// A value seeding the memory before the first step: one entry for the
/// cache, or a page of entries for a stack.
pub enum MemoryInputType {
    Entry(Entry),
    Page(Vec<Entry>),
}

/// The views of a page of entries.
pub open spec fn page_views(p: Seq<Entry>) -> Seq<EntryModel> {
    Seq::new(p.len(), |i: int| p[i]@)
}

/// The memory after one external-memory item is applied: an entry is written
/// to the cache, a page is pushed entry by entry onto the stack under the
/// key.
pub open spec fn seed_item(m: MemModel, k: Seq<char>, item: MemoryInputType) -> MemModel {
    match item {
        MemoryInputType::Entry(e) => MemModel { cache: m.cache.insert(k, e@), ..m },
        MemoryInputType::Page(p) => if p@.len() == 0 {
            m
        } else {
            MemModel { stacks: m.stacks.insert(k, stack_page(m, k) + page_views(p@)), ..m }
        },
    }
}

/// The memory after the external-memory items from index `i` on are applied
/// in order.
pub open spec fn seed_from(
    m: MemModel,
    items: Seq<(String, MemoryInputType)>,
    i: int,
) -> MemModel
    decreases items.len() - i,
{
    if i < 0 || i >= items.len() {
        m
    } else {
        seed_from(seed_item(m, items[i].0@, items[i].1), items, i + 1)
    }
}

/// One execution's memory: cache, stacks and file store behind one facade.
pub struct ProgramMemory {
    cache: Cache,
    stack: Stack,
    file_system: FileSystem,
}

impl View for ProgramMemory {
    type V = MemModel;

    closed spec fn view(&self) -> MemModel {
        MemModel {
            cache: self.cache.view(),
            stacks: self.stack.view(),
            files: self.file_system.view(),
        }
    }
}

impl ProgramMemory {
    pub closed spec fn wf(&self) -> bool {
        self.cache.wf() && self.stack.wf()
    }

    pub fn new() -> (r: ProgramMemory)
        ensures
            r.wf(),
            r@.cache =~= Map::empty(),
            r@.stacks =~= Map::empty(),
            r@.files =~= Seq::<Seq<char>>::empty(),
    {
        ProgramMemory { cache: Cache::new(), stack: Stack::new(), file_system: FileSystem::new() }
    }

    /// Read from the cache.
    pub fn read(&self, key: &str) -> (r: Option<Entry>)
        requires
            self.wf(),
        ensures
            match r {
                Some(e) => self@.cache.contains_key(key@) && e@ == self@.cache[key@],
                None => !self@.cache.contains_key(key@),
            },
    {
        self.cache.get(key)
    }

    /// Write to the cache, replacing any earlier value.
    pub fn write(&mut self, key: &str, value: Entry)
        requires
            old(self).wf(),
        ensures
            final(self).wf(),
            final(self)@.cache =~= old(self)@.cache.insert(key@, value@),
            final(self)@.stacks == old(self)@.stacks,
            final(self)@.files == old(self)@.files,
    {
        self.cache.set(key, value)
    }

    /// Push onto the stack under `key`.
    pub fn push(&mut self, key: &str, value: Entry)
        requires
            old(self).wf(),
        ensures
            final(self).wf(),
            final(self)@.stacks =~= old(self)@.stacks.insert(
                key@,
                stack_page(old(self)@, key@).push(value@),
            ),
            final(self)@.cache == old(self)@.cache,
            final(self)@.files == old(self)@.files,
    {
        self.stack.push(key, value)
    }

    /// Pop the last entry from the stack under `key`; a missing or empty
    /// stack yields nothing and stays as it was.
    pub fn pop(&mut self, key: &str) -> (r: Option<Entry>)
        requires
            old(self).wf(),
        ensures
            final(self).wf(),
            final(self)@.cache == old(self)@.cache,
            final(self)@.files == old(self)@.files,
            ({
                let page = stack_page(old(self)@, key@);
                if page.len() > 0 {
                    r is Some && r->0@ == page.last() && final(self)@.stacks =~= old(
                        self,
                    )@.stacks.insert(key@, page.drop_last())
                } else {
                    r is None && final(self)@.stacks =~= old(self)@.stacks
                }
            }),
    {
        self.stack.pop(key)
    }

    /// Read the stack entry at `index` without removing it; nothing past the
    /// end or for a missing stack.
    pub fn peek(&self, key: &str, index: usize) -> (r: Option<Entry>)
        requires
            self.wf(),
        ensures
            ({
                let page = stack_page(self@, key@);
                if index < page.len() {
                    r is Some && r->0@ == page[index as int]
                } else {
                    r is None
                }
            }),
    {
        self.stack.peek(key, index)
    }

    /// Snapshot of the whole stack under `key`, if present.
    pub fn get_all(&self, key: &str) -> (r: Option<Vec<Entry>>)
        requires
            self.wf(),
        ensures
            ({
                let page = stack_page(self@, key@);
                match r {
                    Some(v) => self@.stacks.contains_key(key@) && v@.len() == page.len()
                        && forall|j: int| 0 <= j < page.len() ==> v@[j]@ == page[j],
                    None => !self@.stacks.contains_key(key@),
                }
            }),
    {
        self.stack.get_all(key)
    }

    /// The number of entries stacked under `key`; 0 for unknown keys.
    pub fn size(&self, key: &str) -> (r: usize)
        requires
            self.wf(),
        ensures
            r as int == stack_size(self@, key@),
    {
        match self.stack.get_all(key) {
            Some(v) => v.len(),
            None => 0,
        }
    }

    /// Chunk the entry and store what is long enough; see
    /// [`FileSystem::add`].
    pub fn insert(&mut self, doc: &Entry) -> (r: Result<(), FileSystemError>)
        requires
            old(self).wf(),
        ensures
            final(self).wf(),
            final(self)@.cache == old(self)@.cache,
            final(self)@.stacks == old(self)@.stacks,
            match insert_content(doc@) {
                Option::Some(c) => r is Ok && final(self)@.files =~= old(self)@.files
                    + kept_from(chunks_of(c), 0),
                Option::None => r is Err && final(self)@.files == old(self)@.files,
            },
    {
        self.file_system.add(doc)
    }

    /// The stored chunks, for the caller to embed.
    pub fn chunks(&self) -> (r: &Vec<String>)
        ensures
            r.deep_view() == self@.files,
    {
        self.file_system.chunks()
    }

    /// The top three chunks by the given scores; see [`FileSystem::search`].
    pub fn search(&self, scores: &Vec<i64>) -> (r: Vec<Entry>)
        ensures
            ({
                let m = if self@.files.len() < scores@.len() {
                    self@.files.len() as int
                } else {
                    scores@.len() as int
                };
                let sc = scores@.subrange(0, m);
                let sel = top_sel(sc, Seq::new(m as nat, |j: int| false), 3);
                r@.len() == sel.len() && forall|j: int|
                    0 <= j < sel.len() ==> r@[j]@ == EntryModel::Json(
                        passage_json(self@.files[sel[j]], clamp_ppm(sc[sel[j]] as int)),
                    )
            }),
    {
        self.file_system.search(scores)
    }

    /// Threshold check over the given scores; see [`FileSystem::have_similar`].
    /// Errors are folded to nothing, as the caller of a condition sees them.
    pub fn have_similar(&self, scores: &Vec<i64>, threshold: Option<u64>) -> (r: Option<bool>)
        ensures
            ({
                let t = if threshold is Some {
                    threshold->0
                } else {
                    850000u64
                };
                let m = if self@.files.len() < scores@.len() {
                    self@.files.len() as int
                } else {
                    scores@.len() as int
                };
                if t > 1000000 {
                    r is None
                } else {
                    r matches Some(b) && b == exists|i: int|
                        0 <= i < m && scores@[i] > t as i64
                }
            }),
    {
        match self.file_system.have_similar(scores, threshold) {
            Ok(b) => Some(b),
            Err(_) => None,
        }
    }

    /// Seed cache and stacks from an external-memory map, in order: single
    /// entries are written, pages are pushed entry by entry.
    pub fn read_external_memory(&mut self, external_memory: &Vec<(String, MemoryInputType)>)
        requires
            old(self).wf(),
        ensures
            final(self).wf(),
            final(self)@ =~= seed_from(old(self)@, external_memory@, 0),
    {
        let n = external_memory.len();
        let mut i: usize = 0;
        while i < n
            invariant
                old(self).wf(),
                self.wf(),
                n == external_memory@.len(),
                i <= n,
                seed_from(old(self)@, external_memory@, 0) == seed_from(
                    self@,
                    external_memory@,
                    i as int,
                ),
            decreases n - i,
        {
            let ghost pre = self@;
            let item = &external_memory[i];
            let key: &str = item.0.as_str();
            proof {
                assert(key@ == external_memory@[i as int].0@);
            }
            match &item.1 {
                MemoryInputType::Entry(e) => {
                    self.write(key, e.duplicate());
                    proof {
                        assert(self@ =~= seed_item(
                            pre,
                            external_memory@[i as int].0@,
                            external_memory@[i as int].1,
                        ));
                    }
                },
                MemoryInputType::Page(page) => {
                    let pn = page.len();
                    let mut j: usize = 0;
                    while j < pn
                        invariant
                            self.wf(),
                            pn == page@.len(),
                            j <= pn,
                            self@.cache == pre.cache,
                            self@.files == pre.files,
                            j == 0 ==> self@ == pre,
                            j > 0 ==> self@.stacks =~= pre.stacks.insert(
                                key@,
                                stack_page(pre, key@) + page_views(page@).subrange(
                                    0,
                                    j as int,
                                ),
                            ),
                        decreases pn - j,
                    {
                        let ghost mid = self@;
                        self.push(key, page[j].duplicate());
                        proof {
                            if j == 0 {
                                assert(stack_page(mid, key@).push(page@[0]@) =~= stack_page(
                                    pre,
                                    key@,
                                ) + page_views(page@).subrange(0, 1));
                            } else {
                                assert(stack_page(mid, key@) =~= stack_page(pre, key@)
                                    + page_views(page@).subrange(0, j as int));
                                assert(stack_page(mid, key@).push(page@[j as int]@)
                                    =~= stack_page(pre, key@) + page_views(page@).subrange(
                                    0,
                                    j + 1,
                                ));
                            }
                            assert(self@.stacks =~= pre.stacks.insert(
                                key@,
                                stack_page(pre, key@) + page_views(page@).subrange(
                                    0,
                                    j + 1,
                                ),
                            ));
                        }
                        j += 1;
                    }
                    proof {
                        assert(page_views(page@).subrange(0, pn as int) =~= page_views(page@));
                        if pn == 0 {
                            assert(self@ == pre);
                        }
                        assert(self@ =~= seed_item(
                            pre,
                            external_memory@[i as int].0@,
                            external_memory@[i as int].1,
                        ));
                    }
                },
            }
            proof {
                assert(seed_from(self@, external_memory@, i + 1) == seed_from(
                    seed_item(
                        pre,
                        external_memory@[i as int].0@,
                        external_memory@[i as int].1,
                    ),
                    external_memory@,
                    i + 1,
                ));
            }
            i += 1;
        }
    }
}

/// Build the query text the embedder receives for a search query.
pub fn transform_query(query: &str) -> (r: String)
    ensures
        r@ == "Represent this sentence for searching relevant passages: "@ + query@,
{
    concat2("Represent this sentence for searching relevant passages: ", query)
}

/// Law: a read after a write returns the written value. Writing `v` under
/// `k` makes the cache map `k` to `v`, which is what a read returns.
pub proof fn lemma_read_after_write(m: MemModel, k: Seq<char>, v: EntryModel)
    ensures
        m.cache.insert(k, v).contains_key(k),
        m.cache.insert(k, v)[k] == v,
{
}

/// Law: stacks are last-in first-out. After pushing `a` then `b`, the first
/// pop yields `b` and leaves the stack with `a` on top, and the second pop
/// yields `a` and restores the original page.
pub proof fn lemma_stack_lifo(page: Seq<EntryModel>, a: EntryModel, b: EntryModel)
    ensures
        page.push(a).push(b).len() > 0,
        page.push(a).push(b).last() == b,
        page.push(a).push(b).drop_last() =~= page.push(a),
        page.push(a).len() > 0,
        page.push(a).last() == a,
        page.push(a).drop_last() =~= page,
{
}

/// Law: the size of a stack counts pushes minus successful pops. A fresh
/// memory has size 0 under every key, a push raises the size under its key
/// by one, and a successful pop lowers it by one; no other memory operation
/// touches it.
pub proof fn lemma_stack_size_counts(m: MemModel, k: Seq<char>, v: EntryModel)
    ensures
        stack_size(MemModel { stacks: Map::empty(), ..m }, k) == 0,
        stack_size(
            MemModel { stacks: m.stacks.insert(k, stack_page(m, k).push(v)), ..m },
            k,
        ) == stack_size(m, k) + 1,
        stack_page(m, k).len() > 0 ==> stack_size(
            MemModel { stacks: m.stacks.insert(k, stack_page(m, k).drop_last()), ..m },
            k,
        ) == stack_size(m, k) - 1,
{
}

} // verus!

