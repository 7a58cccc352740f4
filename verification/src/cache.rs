//! The resolver cache: a capacity-bounded mapping from file path to a
//! parsed-binary backend, validated against the file's on-disk identity on
//! every lookup.
//!
//! A `find` that sees an entry whose stored identity equals the freshly
//! captured one returns the stored backend (and marks the entry most
//! recently used). Anything else — no entry, or a stale identity — builds a
//! new backend from the supplied parse and stores it, evicting the least
//! recently used entry if the insertion would exceed capacity. Capturing the
//! identity and parsing the file are the caller's work: both need the opened
//! file, and this module decides only from their results.
//!
//! The bounded mapping itself is the outside least-recently-used map behind
//! the trusted interface of [`crate::lru_store`]; beside it sits a slot
//! vector holding the entries, with the map's values indexing into it.

use std::rc::Rc;

use lru::LruCache;

use vstd::prelude::*;

use crate::backend::is_backend_for;
use crate::backend::DwarfResolver;
use crate::backend::ElfBackend;
use crate::backend::ElfParser;
use crate::identity::FileIdentity;
use crate::meta::bytes_dup;
use crate::lru_store::has_key;
use crate::lru_store::key_index;
use crate::lru_store::keys_distinct;
use crate::lru_store::lru_bound;
use crate::lru_store::lru_get;
use crate::lru_store::lru_len;
use crate::lru_store::lru_new;
use crate::lru_store::lru_pop;
use crate::lru_store::lru_push;
use crate::lru_store::lru_rep;
use crate::lru_store::values_distinct;

verus! {

/// Default maximum number of entries a bounded cache holds.
pub const DFL_CACHE_MAX: usize = 1024;

/// One cache entry: the identity the backing file had when it was parsed,
/// and the backend built from that parse.
#[derive(Debug)]
pub struct ElfCacheEntry {
    /// Identity of the file at the moment it was opened for parsing.
    pub identity: FileIdentity,
    /// The backend built from the parse.
    pub backend: ElfBackend,
}

impl ElfCacheEntry {
    /// Build an entry from a freshly captured identity and parse, wrapping
    /// the parse with debug-format resolution when `debug_format` is set.
    pub fn new(
        identity: FileIdentity,
        parser: ElfParser,
        debug_format: bool,
        line_number_info: bool,
        debug_info_symbols: bool,
    ) -> (e: ElfCacheEntry)
        ensures
            e.identity == identity,
            is_backend_for(e.backend, parser, debug_format, line_number_info, debug_info_symbols),
    {
        let backend = if debug_format {
            ElfBackend::Dwarf(
                Rc::new(DwarfResolver::from_parser(Rc::new(parser), line_number_info, debug_info_symbols)),
            )
        } else {
            ElfBackend::Elf(Rc::new(parser))
        };
        ElfCacheEntry { identity, backend }
    }

    /// Whether the stored identity exactly matches a freshly captured one.
    pub fn is_valid(&self, current: &FileIdentity) -> (r: bool)
        ensures
            r == (self.identity == *current),
    {
        self.identity.matches(current)
    }

    /// A new shared handle to the stored backend.
    pub fn get_backend(&self) -> (b: ElfBackend)
        ensures
            b == self.backend,
    {
        self.backend.share()
    }
}

/// Whether `s` holds an entry for `path` whose stored identity equals `id`.
pub open spec fn cache_hit(s: Seq<(Seq<u8>, ElfCacheEntry)>, path: Seq<u8>, id: FileIdentity) -> bool {
    has_key(s, path) && s[key_index(s, path)].1.identity == id
}

/// `s` with the pair at `i` moved to the front (most recently used).
pub open spec fn promote<V>(s: Seq<(Seq<u8>, V)>, i: int) -> Seq<(Seq<u8>, V)> {
    s.remove(i).insert(0, s[i])
}

/// `s` after storing a newly built value `v` for `path`: an existing entry
/// for the path is replaced and moved to the front; otherwise the pair is
/// put in front, evicting the least recently used entry if `s` is at
/// capacity `cap`.
pub open spec fn rebuild<V>(s: Seq<(Seq<u8>, V)>, path: Seq<u8>, v: V, cap: nat) -> Seq<
    (Seq<u8>, V),
> {
    if has_key(s, path) {
        s.remove(key_index(s, path)).insert(0, (path, v))
    } else if s.len() >= cap {
        s.drop_last().insert(0, (path, v))
    } else {
        s.insert(0, (path, v))
    }
}

/// How one `find` call relates its result `b` and the entries after, `post`,
/// to the entries before, `pre`, and its inputs: a hit on a bounded cache
/// returns the stored backend and only touches recency; everything else
/// returns a backend newly built from `parser`, stored unless the cache is
/// unbounded (which stores nothing and re-parses every time).
pub open spec fn find_post(
    pre: Seq<(Seq<u8>, ElfCacheEntry)>,
    cap: nat,
    bounded: bool,
    debug_format: bool,
    line_number_info: bool,
    debug_info_symbols: bool,
    path: Seq<u8>,
    id: FileIdentity,
    parser: ElfParser,
    b: ElfBackend,
    post: Seq<(Seq<u8>, ElfCacheEntry)>,
) -> bool {
    if bounded && cache_hit(pre, path, id) {
        b == pre[key_index(pre, path)].1.backend && post == promote(pre, key_index(pre, path))
    } else {
        is_backend_for(b, parser, debug_format, line_number_info, debug_info_symbols) && if bounded {
            post == rebuild(pre, path, ElfCacheEntry { identity: id, backend: b }, cap)
        } else {
            post == pre
        }
    }
}

/// How one hit-only `lookup` call relates its result `r` and the entries
/// after, `post`, to the entries before, `pre`: a hit returns the stored
/// backend; a stored entry with a stale identity stays (only its recency
/// changes) and nothing is returned; a path never stored changes nothing.
pub open spec fn lookup_post(
    pre: Seq<(Seq<u8>, ElfCacheEntry)>,
    bounded: bool,
    path: Seq<u8>,
    id: FileIdentity,
    r: Option<ElfBackend>,
    post: Seq<(Seq<u8>, ElfCacheEntry)>,
) -> bool {
    if bounded && has_key(pre, path) {
        (if pre[key_index(pre, path)].1.identity == id {
            r == Some(pre[key_index(pre, path)].1.backend)
        } else {
            r is None
        }) && post == promote(pre, key_index(pre, path))
    } else {
        r is None && post == pre
    }
}

/// Pointwise description of `promote`: the pair at `i` moves to the front,
/// everything before it shifts back by one, everything after it stays.
proof fn lemma_promote_index<V>(s: Seq<(Seq<u8>, V)>, i: int)
    requires
        0 <= i < s.len(),
    ensures
        promote(s, i).len() == s.len(),
        promote(s, i)[0] == s[i],
        forall|j: int| 1 <= j <= i ==> #[trigger] promote(s, i)[j] == s[j - 1],
        forall|j: int| i < j < s.len() ==> #[trigger] promote(s, i)[j] == s[j],
{
}

/// `promote` permutes, so it keeps keys and values distinct.
proof fn lemma_promote_distinct<V>(s: Seq<(Seq<u8>, V)>, i: int)
    requires
        0 <= i < s.len(),
        keys_distinct(s),
        values_distinct(s),
    ensures
        keys_distinct(promote(s, i)),
        values_distinct(promote(s, i)),
{
    lemma_promote_index(s, i);
    let p = promote(s, i);
    assert forall|a: int, b: int| 0 <= a < b < p.len() implies (#[trigger] p[a]).0 != (
    #[trigger] p[b]).0 && p[a].1 != p[b].1 by {
        let fa: int = if a == 0 { i } else if a <= i { a - 1 } else { a };
        let fb: int = if b == 0 { i } else if b <= i { b - 1 } else { b };
        assert(p[a] == s[fa]);
        assert(p[b] == s[fb]);
        assert(fa != fb);
        if fa < fb {
            assert(s[fa].0 != s[fb].0 && s[fa].1 != s[fb].1);
        } else {
            assert(s[fb].0 != s[fa].0 && s[fb].1 != s[fa].1);
        }
    }
}

/// The mutable cache object: the least-recently-used map from path to slot
/// index, the slots holding the entries, and the construction-time options,
/// fixed for the cache's lifetime.
pub struct _ElfCache {
    lru: LruCache<Vec<u8>, usize>,
    slots: Vec<ElfCacheEntry>,
    cap: usize,
    bounded: bool,
    debug_format: bool,
    line_number_info: bool,
    debug_info_symbols: bool,
}

impl _ElfCache {
    /// The cached entries with their paths, most recently used first.
    pub closed spec fn entries(&self) -> Seq<(Seq<u8>, ElfCacheEntry)> {
        lru_rep(&self.lru).map_values(|p: (Seq<u8>, usize)| (p.0, self.slots@[p.1 as int]))
    }

    /// The maximum number of entries this cache holds.
    pub closed spec fn bound(&self) -> nat {
        lru_bound(&self.lru)
    }

    /// Whether this cache stores entries at all.
    pub closed spec fn is_bounded(&self) -> bool {
        self.bounded
    }

    /// Whether new backends are built with debug-format resolution.
    pub closed spec fn debug_format_on(&self) -> bool {
        self.debug_format
    }

    /// Whether new backends are built with line-number information.
    pub closed spec fn line_number_info_on(&self) -> bool {
        self.line_number_info
    }

    /// Whether new backends are built with debug-format symbol information.
    pub closed spec fn debug_info_symbols_on(&self) -> bool {
        self.debug_info_symbols
    }

    /// The construction-time options, compared between two cache states.
    pub open spec fn same_config(&self, other: &_ElfCache) -> bool {
        &&& self.bound() == other.bound()
        &&& self.is_bounded() == other.is_bounded()
        &&& self.debug_format_on() == other.debug_format_on()
        &&& self.line_number_info_on() == other.line_number_info_on()
        &&& self.debug_info_symbols_on() == other.debug_info_symbols_on()
    }

    /// Internal well-formedness: paths and slot indices in the map are
    /// distinct, every index lands in the slot vector, the slot vector is
    /// exactly as long as the map, and the map never exceeds its capacity.
    pub closed spec fn wf(&self) -> bool {
        &&& keys_distinct(lru_rep(&self.lru))
        &&& values_distinct(lru_rep(&self.lru))
        &&& forall|i: int|
            0 <= i < lru_rep(&self.lru).len() ==> (#[trigger] lru_rep(&self.lru)[i]).1
                < self.slots@.len()
        &&& self.slots@.len() == lru_rep(&self.lru).len()
        &&& lru_rep(&self.lru).len() <= lru_bound(&self.lru)
        &&& 1 <= lru_bound(&self.lru)
        &&& self.cap == lru_bound(&self.lru)
    }

    /// A cache with the default bounded capacity and debug-format
    /// resolution, building backends with the two given options.
    pub fn new(line_number_info: bool, debug_info_symbols: bool) -> (c: _ElfCache)
        ensures
            c.wf(),
            c.entries() == Seq::<(Seq<u8>, ElfCacheEntry)>::empty(),
            c.bound() == DFL_CACHE_MAX,
            c.is_bounded(),
            c.debug_format_on(),
            c.line_number_info_on() == line_number_info,
            c.debug_info_symbols_on() == debug_info_symbols,
    {
        Self::with_config(line_number_info, debug_info_symbols, true, true, DFL_CACHE_MAX)
    }

    /// A cache with every recognized option explicit: the two backend
    /// build options, whether backends carry debug-format resolution,
    /// whether the cache stores anything at all, and its capacity.
    pub fn with_config(
        line_number_info: bool,
        debug_info_symbols: bool,
        debug_format: bool,
        bounded: bool,
        capacity: usize,
    ) -> (c: _ElfCache)
        requires
            1 <= capacity,
        ensures
            c.wf(),
            c.entries() == Seq::<(Seq<u8>, ElfCacheEntry)>::empty(),
            c.bound() == capacity,
            c.is_bounded() == bounded,
            c.debug_format_on() == debug_format,
            c.line_number_info_on() == line_number_info,
            c.debug_info_symbols_on() == debug_info_symbols,
    {
        let c = _ElfCache {
            lru: lru_new(capacity),
            slots: Vec::new(),
            cap: capacity,
            bounded,
            debug_format,
            line_number_info,
            debug_info_symbols,
        };
        proof {
            assert(c.entries() =~= Seq::<(Seq<u8>, ElfCacheEntry)>::empty());
        }
        c
    }

    /// Pointwise description of `entries()`: each pair keeps its path and
    /// maps its slot index through the slot vector.
    proof fn lemma_entries_index(&self)
        ensures
            self.entries().len() == lru_rep(&self.lru).len(),
            forall|j: int|
                0 <= j < lru_rep(&self.lru).len() ==> #[trigger] self.entries()[j] == (
                lru_rep(&self.lru)[j].0,
                self.slots@[lru_rep(&self.lru)[j].1 as int],
                ),
    {
    }

    /// The entries carry the same keys, at the same positions, as the
    /// underlying map.
    proof fn lemma_key_correspond(&self, k: Seq<u8>)
        requires
            keys_distinct(lru_rep(&self.lru)),
        ensures
            has_key(self.entries(), k) == has_key(lru_rep(&self.lru), k),
            has_key(lru_rep(&self.lru), k) ==> key_index(self.entries(), k) == key_index(
                lru_rep(&self.lru),
                k,
            ),
            keys_distinct(self.entries()),
    {
        self.lemma_entries_index();
        let rep = lru_rep(&self.lru);
        let es = self.entries();
        if has_key(rep, k) {
            let i = key_index(rep, k);
            assert(es[i].0 == k);
            assert(has_key(es, k));
        }
        if has_key(es, k) {
            let i = key_index(es, k);
            assert(rep[i].0 == k);
            assert(has_key(rep, k));
        }
        if has_key(rep, k) {
            let i = key_index(rep, k);
            let j = key_index(es, k);
            assert(rep[j].0 == k);
            assert(i == j);
        }
    }

    /// Find the backend for a file, or build one: a stored entry whose
    /// identity equals the freshly captured one yields its backend; anything
    /// else builds a new backend from the supplied parse and, on a bounded
    /// cache, stores it, evicting the least recently used entry if the
    /// insertion would exceed capacity.
    pub fn find_or_create_backend(
        &mut self,
        file_name: &Vec<u8>,
        identity: FileIdentity,
        parser: ElfParser,
    ) -> (b: ElfBackend)
        requires
            old(self).wf(),
        ensures
            final(self).wf(),
            final(self).same_config(old(self)),
            final(self).entries().len() <= old(self).bound(),
            keys_distinct(final(self).entries()),
            find_post(
                old(self).entries(),
                old(self).bound(),
                old(self).is_bounded(),
                old(self).debug_format_on(),
                old(self).line_number_info_on(),
                old(self).debug_info_symbols_on(),
                file_name@,
                identity,
                parser,
                b,
                final(self).entries(),
            ),
    {
        if !self.bounded {
            let entry = ElfCacheEntry::new(
                identity,
                parser,
                self.debug_format,
                self.line_number_info,
                self.debug_info_symbols,
            );
            proof {
                self.lemma_key_correspond(seq![]);
            }
            return entry.get_backend();
        }
        let ghost pre = *self;
        let got = lru_get(&mut self.lru, file_name);
        proof {
            pre.lemma_key_correspond(file_name@);
        }
        match got {
            Some(idx) => {
                let ghost rep0 = lru_rep(&pre.lru);
                let ghost i = key_index(rep0, file_name@);
                proof {
                    assert(has_key(rep0, file_name@));
                    assert(idx == rep0[i].1);
                    assert(idx < self.slots@.len());
                    assert(lru_rep(&self.lru) == promote(rep0, i));
                }
                if self.slots[idx].is_valid(&identity) {
                    let b = self.slots[idx].get_backend();
                    proof {
                        pre.lemma_entries_index();
                        self.lemma_entries_index();
                        let es0 = pre.entries();
                        assert(es0[i] == (file_name@, pre.slots@[idx as int]));
                        assert(cache_hit(es0, file_name@, identity));
                        assert(self.entries() =~= promote(es0, i));
                        assert(self.wf()) by {
                            lemma_promote_distinct(rep0, i);
                        }
                        self.lemma_key_correspond(file_name@);
                    }
                    return b;
                }
                // The stored identity is stale: rebuild the entry in place.
                let entry = ElfCacheEntry::new(
                    identity,
                    parser,
                    self.debug_format,
                    self.line_number_info,
                    self.debug_info_symbols,
                );
                let b = entry.get_backend();
                self.slots[idx] = entry;
                proof {
                    pre.lemma_entries_index();
                    self.lemma_entries_index();
                    let es0 = pre.entries();
                    assert(es0[i] == (file_name@, pre.slots@[idx as int]));
                    assert(!cache_hit(es0, file_name@, identity));
                    assert(has_key(es0, file_name@));
                    assert(key_index(es0, file_name@) == i);
                    assert forall|j: int| 0 <= j < lru_rep(&self.lru).len() implies #[trigger] self.entries()[j]
                        == rebuild(
                        es0,
                        file_name@,
                        ElfCacheEntry { identity, backend: b },
                        pre.bound(),
                    )[j] by {
                        assert(lru_rep(&self.lru) == promote(rep0, i));
                        if j == 0 {
                            assert(lru_rep(&self.lru)[0] == rep0[i]);
                        } else if j <= i {
                            assert(lru_rep(&self.lru)[j] == rep0[j - 1]);
                            assert(rep0[j - 1].1 != idx);
                        } else {
                            assert(lru_rep(&self.lru)[j] == rep0[j]);
                            assert(rep0[j].1 != idx);
                        }
                    }
                    assert(self.entries() =~= rebuild(
                        es0,
                        file_name@,
                        ElfCacheEntry { identity, backend: b },
                        pre.bound(),
                    ));
                    assert(self.wf()) by {
                        lemma_promote_distinct(rep0, i);
                    }
                    self.lemma_key_correspond(file_name@);
                }
                return b;
            },
            None => {
                let entry = ElfCacheEntry::new(
                    identity,
                    parser,
                    self.debug_format,
                    self.line_number_info,
                    self.debug_info_symbols,
                );
                let b = entry.get_backend();
                let ghost rep0 = lru_rep(&pre.lru);
                let n = lru_len(&self.lru);
                if n == self.cap {
                    // At capacity: evict the least recently used entry and
                    // reuse its slot.
                    let evicted = lru_pop(&mut self.lru);
                    match evicted {
                        Some(pair) => {
                            let old_idx = pair.1;
                            proof {
                                assert(old_idx == rep0.last().1);
                                assert(rep0[rep0.len() - 1].1 == old_idx);
                                assert(old_idx < self.slots@.len());
                            }
                            self.slots[old_idx] = entry;
                            let ghost rep1 = lru_rep(&self.lru);
                            let key = bytes_dup(file_name);
                            let _prev = lru_push(&mut self.lru, key, old_idx);
                            proof {
                                assert(!has_key(rep1, file_name@)) by {
                                    assert forall|j: int|
                                        0 <= j < rep1.len() implies (#[trigger] rep1[j]).0
                                        != file_name@ by {
                                        assert(rep1[j] == rep0[j]);
                                    }
                                }
                                assert(rep1.len() < lru_bound(&self.lru));
                                assert(lru_rep(&self.lru) == rep1.insert(0, (file_name@, old_idx)));
                                pre.lemma_entries_index();
                                self.lemma_entries_index();
                                let es0 = pre.entries();
                                assert(!has_key(es0, file_name@));
                                assert(es0.len() >= pre.bound());
                                let target = rebuild(
                                    es0,
                                    file_name@,
                                    ElfCacheEntry { identity, backend: b },
                                    pre.bound(),
                                );
                                assert forall|j: int|
                                    0 <= j < lru_rep(&self.lru).len() implies #[trigger] self.entries()[j]
                                    == target[j] by {
                                    if j == 0 {
                                    } else {
                                        assert(lru_rep(&self.lru)[j] == rep1[j - 1] && rep1[j - 1]
                                            == rep0[j - 1]);
                                        assert(rep0[j - 1].1 != old_idx);
                                        assert(target[j] == es0.drop_last()[j - 1]);
                                        assert(es0.drop_last()[j - 1] == es0[j - 1]);
                                    }
                                }
                                assert(self.entries() =~= target);
                                assert(self.wf());
                                self.lemma_key_correspond(file_name@);
                            }
                            return b;
                        },
                        None => {
                            // Unreachable: a cache at capacity holds at
                            // least one entry, so the pop returns it.
                            proof {
                                assert(rep0.len() == 0);
                                assert(false);
                            }
                            return b;
                        },
                    }
                } else {
                    let idx = self.slots.len();
                    self.slots.push(entry);
                    let key = bytes_dup(file_name);
                    let _prev = lru_push(&mut self.lru, key, idx);
                    proof {
                        assert(lru_rep(&self.lru) == rep0.insert(0, (file_name@, idx as usize)));
                        pre.lemma_entries_index();
                        self.lemma_entries_index();
                        let es0 = pre.entries();
                        assert(!has_key(es0, file_name@));
                        assert(es0.len() < pre.bound());
                        let target = rebuild(
                            es0,
                            file_name@,
                            ElfCacheEntry { identity, backend: b },
                            pre.bound(),
                        );
                        assert forall|j: int|
                            0 <= j < lru_rep(&self.lru).len() implies #[trigger] self.entries()[j]
                            == target[j] by {
                            if j == 0 {
                            } else {
                                assert(lru_rep(&self.lru)[j] == rep0[j - 1]);
                                assert(rep0[j - 1].1 < rep0.len());
                                assert(target[j] == es0[j - 1]);
                            }
                        }
                        assert(self.entries() =~= target);
                        assert(self.wf());
                        self.lemma_key_correspond(file_name@);
                    }
                    return b;
                }
            },
        }
    }

    /// Look up a file and validate its identity, without storing anything:
    /// the hit half of [`Self::find_or_create_backend`], for callers that
    /// want to parse only when they must.
    pub fn lookup(&mut self, file_name: &Vec<u8>, identity: FileIdentity) -> (r: Option<
        ElfBackend,
    >)
        requires
            old(self).wf(),
        ensures
            final(self).wf(),
            final(self).same_config(old(self)),
            keys_distinct(final(self).entries()),
            lookup_post(
                old(self).entries(),
                old(self).is_bounded(),
                file_name@,
                identity,
                r,
                final(self).entries(),
            ),
    {
        if !self.bounded {
            proof {
                self.lemma_key_correspond(file_name@);
            }
            return None;
        }
        let ghost pre = *self;
        let got = lru_get(&mut self.lru, file_name);
        proof {
            pre.lemma_key_correspond(file_name@);
        }
        match got {
            Some(idx) => {
                let ghost rep0 = lru_rep(&pre.lru);
                let ghost i = key_index(rep0, file_name@);
                proof {
                    assert(has_key(rep0, file_name@));
                    assert(idx == rep0[i].1);
                    assert(idx < self.slots@.len());
                    assert(lru_rep(&self.lru) == promote(rep0, i));
                    pre.lemma_entries_index();
                    self.lemma_entries_index();
                    lemma_promote_index(rep0, i);
                    let es0 = pre.entries();
                    assert(es0[i] == (file_name@, pre.slots@[idx as int]));
                    assert forall|j: int|
                        0 <= j < lru_rep(&self.lru).len() implies #[trigger] self.entries()[j]
                        == promote(es0, i)[j] by {
                        lemma_promote_index(es0, i);
                        if j == 0 {
                        } else if j <= i {
                            assert(lru_rep(&self.lru)[j] == rep0[j - 1]);
                        } else {
                            assert(lru_rep(&self.lru)[j] == rep0[j]);
                        }
                    }
                    assert(self.entries() =~= promote(es0, i));
                    lemma_promote_distinct(rep0, i);
                    assert(self.wf());
                    self.lemma_key_correspond(file_name@);
                }
                if self.slots[idx].is_valid(&identity) {
                    Some(self.slots[idx].get_backend())
                } else {
                    None
                }
            },
            None => {
                proof {
                    pre.lemma_entries_index();
                    self.lemma_entries_index();
                    assert(self.entries() =~= pre.entries());
                    assert(self.wf());
                    self.lemma_key_correspond(file_name@);
                }
                None
            },
        }
    }

    /// Serve a request for the backend of the file at `path`, whose freshly
    /// captured identity is `identity` and whose current parse is `parser`.
    pub fn find(&mut self, path: &Vec<u8>, identity: FileIdentity, parser: ElfParser) -> (b:
        ElfBackend)
        requires
            old(self).wf(),
        ensures
            final(self).wf(),
            final(self).same_config(old(self)),
            final(self).entries().len() <= old(self).bound(),
            keys_distinct(final(self).entries()),
            find_post(
                old(self).entries(),
                old(self).bound(),
                old(self).is_bounded(),
                old(self).debug_format_on(),
                old(self).line_number_info_on(),
                old(self).debug_info_symbols_on(),
                path@,
                identity,
                parser,
                b,
                final(self).entries(),
            ),
    {
        self.find_or_create_backend(path, identity, parser)
    }

    /// The number of entries currently held.
    pub fn len(&self) -> (n: usize)
        ensures
            n == self.entries().len(),
    {
        lru_len(&self.lru)
    }

    /// The maximum number of entries this cache will hold.
    pub fn capacity(&self) -> (n: usize)
        requires
            self.wf(),
        ensures
            n == self.bound(),
    {
        self.cap
    }
}

/// The resolver cache as handed to users: the mutable cache object behind
/// the methods that serialize all mutation.
pub struct ElfCache {
    cache: _ElfCache,
}

impl ElfCache {
    /// The cached entries with their paths, most recently used first.
    pub closed spec fn entries(&self) -> Seq<(Seq<u8>, ElfCacheEntry)> {
        self.cache.entries()
    }

    /// The maximum number of entries this cache holds.
    pub closed spec fn bound(&self) -> nat {
        self.cache.bound()
    }

    /// Whether this cache stores entries at all.
    pub closed spec fn is_bounded(&self) -> bool {
        self.cache.is_bounded()
    }

    /// Whether new backends are built with debug-format resolution.
    pub closed spec fn debug_format_on(&self) -> bool {
        self.cache.debug_format_on()
    }

    /// Whether new backends are built with line-number information.
    pub closed spec fn line_number_info_on(&self) -> bool {
        self.cache.line_number_info_on()
    }

    /// Whether new backends are built with debug-format symbol information.
    pub closed spec fn debug_info_symbols_on(&self) -> bool {
        self.cache.debug_info_symbols_on()
    }

    /// The construction-time options, compared between two cache states.
    pub open spec fn same_config(&self, other: &ElfCache) -> bool {
        &&& self.bound() == other.bound()
        &&& self.is_bounded() == other.is_bounded()
        &&& self.debug_format_on() == other.debug_format_on()
        &&& self.line_number_info_on() == other.line_number_info_on()
        &&& self.debug_info_symbols_on() == other.debug_info_symbols_on()
    }

    /// Well-formedness of the cache object.
    pub closed spec fn wf(&self) -> bool {
        self.cache.wf()
    }

    /// A cache with the default bounded capacity and debug-format
    /// resolution, building backends with the two given options.
    pub fn new(line_number_info: bool, debug_info_symbols: bool) -> (c: ElfCache)
        ensures
            c.wf(),
            c.entries() == Seq::<(Seq<u8>, ElfCacheEntry)>::empty(),
            c.bound() == DFL_CACHE_MAX,
            c.is_bounded(),
            c.debug_format_on(),
            c.line_number_info_on() == line_number_info,
            c.debug_info_symbols_on() == debug_info_symbols,
    {
        ElfCache { cache: _ElfCache::new(line_number_info, debug_info_symbols) }
    }

    /// A cache with every recognized option explicit.
    pub fn with_config(
        line_number_info: bool,
        debug_info_symbols: bool,
        debug_format: bool,
        bounded: bool,
        capacity: usize,
    ) -> (c: ElfCache)
        requires
            1 <= capacity,
        ensures
            c.wf(),
            c.entries() == Seq::<(Seq<u8>, ElfCacheEntry)>::empty(),
            c.bound() == capacity,
            c.is_bounded() == bounded,
            c.debug_format_on() == debug_format,
            c.line_number_info_on() == line_number_info,
            c.debug_info_symbols_on() == debug_info_symbols,
    {
        ElfCache {
            cache: _ElfCache::with_config(
                line_number_info,
                debug_info_symbols,
                debug_format,
                bounded,
                capacity,
            ),
        }
    }

    /// Serve a request for the backend of the file at `path`, whose freshly
    /// captured identity is `identity` and whose current parse is `parser`.
    pub fn find(&mut self, path: &Vec<u8>, identity: FileIdentity, parser: ElfParser) -> (b:
        ElfBackend)
        requires
            old(self).wf(),
        ensures
            final(self).wf(),
            final(self).same_config(old(self)),
            final(self).entries().len() <= old(self).bound(),
            keys_distinct(final(self).entries()),
            find_post(
                old(self).entries(),
                old(self).bound(),
                old(self).is_bounded(),
                old(self).debug_format_on(),
                old(self).line_number_info_on(),
                old(self).debug_info_symbols_on(),
                path@,
                identity,
                parser,
                b,
                final(self).entries(),
            ),
    {
        self.cache.find(path, identity, parser)
    }

    /// Look up a file and validate its identity, without storing anything:
    /// the hit half of [`Self::find`], for callers that want to parse only
    /// when they must.
    pub fn lookup(&mut self, path: &Vec<u8>, identity: FileIdentity) -> (r: Option<ElfBackend>)
        requires
            old(self).wf(),
        ensures
            final(self).wf(),
            final(self).same_config(old(self)),
            keys_distinct(final(self).entries()),
            lookup_post(
                old(self).entries(),
                old(self).is_bounded(),
                path@,
                identity,
                r,
                final(self).entries(),
            ),
    {
        self.cache.lookup(path, identity)
    }

    /// The number of entries currently held.
    pub fn len(&self) -> (n: usize)
        ensures
            n == self.entries().len(),
    {
        self.cache.len()
    }

    /// The maximum number of entries this cache will hold.
    pub fn capacity(&self) -> (n: usize)
        requires
            self.wf(),
        ensures
            n == self.bound(),
    {
        self.cache.capacity()
    }
}

/// Law: while a file's identity is unchanged, two consecutive `find` calls
/// return the same backend — the stored parse is reused, not rebuilt. Both
/// calls report the backend stored for the path before the first call.
pub proof fn lemma_cache_hit_reuses_backend(
    pre: Seq<(Seq<u8>, ElfCacheEntry)>,
    mid: Seq<(Seq<u8>, ElfCacheEntry)>,
    post: Seq<(Seq<u8>, ElfCacheEntry)>,
    cap: nat,
    debug_format: bool,
    line_number_info: bool,
    debug_info_symbols: bool,
    path: Seq<u8>,
    id: FileIdentity,
    parser1: ElfParser,
    b1: ElfBackend,
    parser2: ElfParser,
    b2: ElfBackend,
)
    requires
        keys_distinct(pre),
        keys_distinct(mid),
        cache_hit(pre, path, id),
        find_post(
            pre,
            cap,
            true,
            debug_format,
            line_number_info,
            debug_info_symbols,
            path,
            id,
            parser1,
            b1,
            mid,
        ),
        find_post(
            mid,
            cap,
            true,
            debug_format,
            line_number_info,
            debug_info_symbols,
            path,
            id,
            parser2,
            b2,
            post,
        ),
    ensures
        b1 == b2,
        b1 == pre[key_index(pre, path)].1.backend,
{
    let i = key_index(pre, path);
    lemma_promote_index(pre, i);
    assert(mid[0] == pre[i]);
    assert(has_key(mid, path));
    let j = key_index(mid, path);
    assert(mid[j].0 == path);
    assert(j == 0);
    assert(cache_hit(mid, path, id));
}

/// Law: after the file stored for `path` changed identity on disk, `find`
/// returns a backend built from the fresh parse — never the stale stored
/// one — and the entry now in front carries the new identity and backend.
pub proof fn lemma_cache_invalidation(
    pre: Seq<(Seq<u8>, ElfCacheEntry)>,
    post: Seq<(Seq<u8>, ElfCacheEntry)>,
    cap: nat,
    debug_format: bool,
    line_number_info: bool,
    debug_info_symbols: bool,
    path: Seq<u8>,
    id_new: FileIdentity,
    parser: ElfParser,
    b: ElfBackend,
)
    requires
        keys_distinct(pre),
        has_key(pre, path),
        pre[key_index(pre, path)].1.identity != id_new,
        find_post(
            pre,
            cap,
            true,
            debug_format,
            line_number_info,
            debug_info_symbols,
            path,
            id_new,
            parser,
            b,
            post,
        ),
    ensures
        is_backend_for(b, parser, debug_format, line_number_info, debug_info_symbols),
        post.len() >= 1,
        post[0] == (path, ElfCacheEntry { identity: id_new, backend: b }),
{
    assert(!cache_hit(pre, path, id_new));
    let i = key_index(pre, path);
    let e = ElfCacheEntry { identity: id_new, backend: b };
    assert(post == pre.remove(i).insert(0, (path, e)));
    assert(post[0] == (path, e));
}

/// Law: a `find` for a path not in a cache that is at capacity evicts
/// exactly the least recently used entry: the new entry stands in front
/// carrying the given identity and backend, every other entry survives
/// shifted back by one, and the old least recently used entry is gone.
pub proof fn lemma_lru_evicts_last(
    pre: Seq<(Seq<u8>, ElfCacheEntry)>,
    post: Seq<(Seq<u8>, ElfCacheEntry)>,
    cap: nat,
    debug_format: bool,
    line_number_info: bool,
    debug_info_symbols: bool,
    path: Seq<u8>,
    id: FileIdentity,
    parser: ElfParser,
    b: ElfBackend,
)
    requires
        1 <= cap,
        pre.len() == cap,
        !has_key(pre, path),
        find_post(
            pre,
            cap,
            true,
            debug_format,
            line_number_info,
            debug_info_symbols,
            path,
            id,
            parser,
            b,
            post,
        ),
    ensures
        post.len() == cap,
        post[0] == (path, ElfCacheEntry { identity: id, backend: b }),
        forall|q: int| 1 <= q < cap ==> post[q] == pre[q - 1],
{
    assert(!cache_hit(pre, path, id));
    let e = ElfCacheEntry { identity: id, backend: b };
    assert(post == pre.drop_last().insert(0, (path, e)));
    assert forall|q: int| 1 <= q < cap implies post[q] == pre[q - 1] by {
        assert(pre.drop_last().insert(0, (path, e))[q] == pre.drop_last()[q - 1]);
        assert(pre.drop_last()[q - 1] == pre[q - 1]);
    }
}

/// Law: serving a request never grows the cache beyond its capacity bound,
/// whatever the request was.
pub proof fn lemma_eviction_bound(
    pre: Seq<(Seq<u8>, ElfCacheEntry)>,
    post: Seq<(Seq<u8>, ElfCacheEntry)>,
    cap: nat,
    bounded: bool,
    debug_format: bool,
    line_number_info: bool,
    debug_info_symbols: bool,
    path: Seq<u8>,
    id: FileIdentity,
    parser: ElfParser,
    b: ElfBackend,
)
    requires
        1 <= cap,
        pre.len() <= cap,
        find_post(
            pre,
            cap,
            bounded,
            debug_format,
            line_number_info,
            debug_info_symbols,
            path,
            id,
            parser,
            b,
            post,
        ),
    ensures
        post.len() <= cap,
{
    if bounded && cache_hit(pre, path, id) {
        lemma_promote_index(pre, key_index(pre, path));
    }
}

} // verus!
