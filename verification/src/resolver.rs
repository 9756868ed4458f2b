//! The destination resolver: maps a calendar date to the directory that
//! holds that date's files under the output root, reusing an existing
//! bucket when one is already on disk, and memoizing the answer per date
//! for the run.
//!
//! The resolver itself never touches the filesystem. The unverified shell
//! reports, for a date not yet in the cache, whether the year directory
//! exists and which directories stand directly below it; the functions
//! here turn those observations into the resolved path and a flag saying
//! whether the canonical directory still has to be created.

use std::collections::HashMap;
use vstd::prelude::*;

use crate::date::{date_seq, CalendarDate};
use crate::digits::int_dec_seq;
use crate::paths::{is_prefix_of, join_path, join_seq, starts_with};

verus! {

broadcast use vstd::std_specs::hash::group_hash_axioms;

/// One directory found directly below the year directory: its full path
/// and its path relative to the output root.
pub struct ChildDir {
    pub full: String,
    pub rel: String,
}

/// The canonical bucket path for a date, relative to the output root:
/// `year/year-month-day`.
pub open spec fn canonical_rel_seq(d: CalendarDate) -> Seq<char> {
    int_dec_seq(d.year as int) + seq!['/'] + date_seq(d)
}

/// The canonical bucket path for a date below `root`.
pub open spec fn canonical_full_seq(root: Seq<char>, d: CalendarDate) -> Seq<char> {
    join_seq(root, canonical_rel_seq(d))
}

/// The full path of the first child whose relative path starts with
/// `prefix`, if any.
pub open spec fn scan_children(children: Seq<ChildDir>, prefix: Seq<char>) -> Option<Seq<char>>
    decreases children.len(),
{
    if children.len() == 0 {
        Option::None
    } else if is_prefix_of(prefix, children[0].rel@) {
        Option::Some(children[0].full@)
    } else {
        scan_children(children.drop_first(), prefix)
    }
}

/// What resolution answers for a date that is not in the cache: the
/// resolved path, and whether the canonical directory still has to be
/// created. With no year directory on disk, or no matching child below
/// it, the canonical path is the answer and creation is due; otherwise
/// the first child whose relative path starts with the canonical prefix
/// is reused as it stands.
pub open spec fn resolve_path_spec(
    root: Seq<char>,
    d: CalendarDate,
    year_exists: bool,
    children: Seq<ChildDir>,
) -> (Seq<char>, bool) {
    if !year_exists {
        (canonical_full_seq(root, d), true)
    } else {
        match scan_children(children, canonical_rel_seq(d)) {
            Option::Some(p) => (p, false),
            Option::None => (canonical_full_seq(root, d), true),
        }
    }
}

/// Builds the canonical relative bucket path `year/year-month-day`.
pub fn canonical_rel_path(d: &CalendarDate) -> (r: String)
    requires
        d.wf(),
    ensures
        r@ == canonical_rel_seq(*d),
{
    proof {
        reveal_strlit("/");
        assert("/"@ =~= seq!['/']);
    }
    let mut r = String::new();
    crate::digits::push_i32_dec(&mut r, d.year);
    r.append("/");
    let ds = crate::date::date_string(d);
    let r = r.concat(ds.as_str());
    assert(r@ =~= canonical_rel_seq(*d));
    r
}

/// The per-run cache from dates to resolved destination directories,
/// together with the output root it resolves under.
pub struct DestinationCache {
    root: String,
    entries: HashMap<u64, String>,
}

impl DestinationCache {
    /// The output root the cache resolves under.
    pub closed spec fn root_spec(self) -> Seq<char> {
        self.root@
    }

    /// The memoized date-to-path mapping, keyed by the date encoding.
    pub closed spec fn cache_spec(self) -> Map<u64, Seq<char>> {
        Map::new(
            |k: u64| self.entries@.dom().contains(k),
            |k: u64| self.entries@[k]@,
        )
    }

    /// A fresh cache for one run: no date resolved yet.
    pub fn new(root: String) -> (c: DestinationCache)
        ensures
            c.root_spec() == root@,
            c.cache_spec() == Map::<u64, Seq<char>>::empty(),
    {
        let c = DestinationCache { root, entries: HashMap::new() };
        proof {
            assert(c.cache_spec() =~= Map::<u64, Seq<char>>::empty());
        }
        c
    }

    /// The memoized path for `d`, when one is there: no filesystem
    /// observation is needed or consulted.
    pub fn cached(&self, d: &CalendarDate) -> (r: Option<String>)
        requires
            d.wf(),
        ensures
            match r {
                Option::Some(p) => self.cache_spec().contains_key(d.key_spec()) && p@
                    == self.cache_spec()[d.key_spec()],
                Option::None => !self.cache_spec().contains_key(d.key_spec()),
            },
    {
        let k = d.key();
        match self.entries.get(&k) {
            Option::Some(p) => Option::Some(p.clone()),
            Option::None => Option::None,
        }
    }

    /// The path of the year directory for `d` below the root: the
    /// directory whose children are scanned for an existing bucket.
    pub fn year_dir(&self, d: &CalendarDate) -> (r: String)
        requires
            d.wf(),
        ensures
            r@ == join_seq(self.root_spec(), int_dec_seq(d.year as int)),
    {
        let mut y = String::new();
        crate::digits::push_i32_dec(&mut y, d.year);
        join_path(self.root.as_str(), y.as_str())
    }

    /// Resolves a date that was not in the cache, from the shell's two
    /// filesystem observations, and memoizes the answer. Returns the
    /// resolved path and whether the canonical directory still has to be
    /// created on disk.
    pub fn resolve_miss(&mut self, d: &CalendarDate, year_exists: bool, children: &Vec<ChildDir>)
        -> (r: (String, bool))
        requires
            d.wf(),
        ensures
            (r.0@, r.1) == resolve_path_spec(old(self).root_spec(), *d, year_exists, children@),
            final(self).cache_spec() == old(self).cache_spec().insert(d.key_spec(), r.0@),
            final(self).root_spec() == old(self).root_spec(),
            !old(self).cache_spec().contains_key(d.key_spec()) ==> (
            r.0@,
            final(self).cache_spec(),
            r.1,
            ) == get_or_create_spec(
                old(self).cache_spec(),
                old(self).root_spec(),
                *d,
                year_exists,
                children@,
            ),
    {
        let prefix = canonical_rel_path(d);
        let path: String;
        let create: bool;
        if !year_exists {
            path = join_path(self.root.as_str(), prefix.as_str());
            create = true;
        } else {
            let mut found: Option<String> = Option::None;
            let mut i: usize = 0;
            proof {
                assert(children@.skip(0) =~= children@);
            }
            while i < children.len() && found.is_none()
                invariant
                    0 <= i <= children@.len(),
                    prefix@ == canonical_rel_seq(*d),
                    match found {
                        Option::Some(p) => scan_children(children@, prefix@) == Option::Some(p@),
                        Option::None => scan_children(children@, prefix@) == scan_children(
                            children@.skip(i as int),
                            prefix@,
                        ),
                    },
                decreases children@.len() - i + (if found is Some { 0int } else { 1int }),
            {
                proof {
                    assert(children@.skip(i as int).drop_first() =~= children@.skip(i + 1));
                    assert(children@.skip(i as int)[0] == children@[i as int]);
                }
                if starts_with(children[i].rel.as_str(), prefix.as_str()) {
                    found = Option::Some(children[i].full.clone());
                } else {
                    i += 1;
                }
            }
            match found {
                Option::Some(p) => {
                    path = p;
                    create = false;
                },
                Option::None => {
                    proof {
                        assert(children@.skip(children@.len() as int) =~= Seq::<ChildDir>::empty());
                    }
                    path = join_path(self.root.as_str(), prefix.as_str());
                    create = true;
                },
            }
        }
        let k = d.key();
        self.entries.insert(k, path.clone());
        proof {
            assert(self.cache_spec() =~= old(self).cache_spec().insert(d.key_spec(), path@));
        }
        (path, create)
    }
}

/// Whether the canonical directory is actually to be created on disk:
/// only when resolution asked for it, and never on a dry run.
pub open spec fn create_spec(create_needed: bool, dry_run: bool) -> bool {
    create_needed && !dry_run
}

/// Decides whether to create the canonical directory on disk.
pub fn should_create(create_needed: bool, dry_run: bool) -> (r: bool)
    ensures
        r == create_spec(create_needed, dry_run),
{
    create_needed && !dry_run
}

/// Dry-run purity on the resolver side: resolution takes no notice of
/// the dry-run flag — the path is the one a real run would resolve — and
/// a dry run never has a directory created on disk.
pub proof fn lemma_dry_run_creates_nothing(create_needed: bool)
    ensures
        !create_spec(create_needed, true),
{
}

/// One full resolution step over the model: a cache hit answers from the
/// cache, leaves it unchanged and asks for no directory creation; a miss
/// resolves from the filesystem observations and memoizes the answer.
/// Yields the resolved path, the cache afterwards, and whether the
/// canonical directory still has to be created.
pub open spec fn get_or_create_spec(
    m: Map<u64, Seq<char>>,
    root: Seq<char>,
    d: CalendarDate,
    year_exists: bool,
    children: Seq<ChildDir>,
) -> (Seq<char>, Map<u64, Seq<char>>, bool) {
    if m.contains_key(d.key_spec()) {
        (m[d.key_spec()], m, false)
    } else {
        let (p, create) = resolve_path_spec(root, d, year_exists, children);
        (p, m.insert(d.key_spec(), p), create)
    }
}

/// Idempotence of resolution: resolving the same date a second time in
/// the same run returns the identical path, whatever the filesystem looks
/// like by then, leaves the cache unchanged and creates nothing — the
/// second resolution is answered from the cache alone, so scanning and
/// creation happen at most once per date.
pub proof fn lemma_resolution_idempotent(
    m: Map<u64, Seq<char>>,
    root: Seq<char>,
    d: CalendarDate,
    year_exists1: bool,
    children1: Seq<ChildDir>,
    year_exists2: bool,
    children2: Seq<ChildDir>,
)
    ensures
        ({
            let (p1, m1, _) = get_or_create_spec(m, root, d, year_exists1, children1);
            let (p2, m2, create2) = get_or_create_spec(m1, root, d, year_exists2, children2);
            &&& p2 == p1
            &&& m2 == m1
            &&& !create2
            &&& m1.contains_key(d.key_spec())
        }),
{
}

/// When some child of the year directory already has the canonical date
/// prefix, scanning returns the full path of such a child.
proof fn lemma_scan_some(children: Seq<ChildDir>, prefix: Seq<char>)
    requires
        exists|i: int| 0 <= i < children.len() && is_prefix_of(prefix, children[i].rel@),
    ensures
        exists|i: int|
            0 <= i < children.len() && is_prefix_of(prefix, children[i].rel@) && scan_children(
                children,
                prefix,
            ) == Option::Some(children[i].full@),
    decreases children.len(),
{
    if is_prefix_of(prefix, children[0].rel@) {
        assert(scan_children(children, prefix) == Option::Some(children[0].full@));
    } else {
        let w = choose|i: int| 0 <= i < children.len() && is_prefix_of(prefix, children[i].rel@);
        assert(children.drop_first()[w - 1] == children[w]);
        lemma_scan_some(children.drop_first(), prefix);
        let j = choose|i: int|
            0 <= i < children.drop_first().len() && is_prefix_of(
                prefix,
                children.drop_first()[i].rel@,
            ) && scan_children(children.drop_first(), prefix) == Option::Some(
                children.drop_first()[i].full@,
            );
        assert(children.drop_first()[j] == children[j + 1]);
        assert(0 <= j + 1 < children.len() && is_prefix_of(prefix, children[j + 1].rel@)
            && scan_children(children, prefix) == Option::Some(children[j + 1].full@));
    }
}

/// No duplicate buckets: when the year directory already holds a child
/// whose path relative to the root starts with the canonical date prefix,
/// resolution reuses such an existing child as it stands and asks for no
/// directory creation.
pub proof fn lemma_no_duplicate_bucket(root: Seq<char>, d: CalendarDate, children: Seq<ChildDir>)
    requires
        exists|i: int|
            0 <= i < children.len() && is_prefix_of(canonical_rel_seq(d), children[i].rel@),
    ensures
        ({
            let (p, create) = resolve_path_spec(root, d, true, children);
            &&& !create
            &&& exists|i: int|
                0 <= i < children.len() && children[i].full@ == p && is_prefix_of(
                    canonical_rel_seq(d),
                    children[i].rel@,
                )
        }),
{
    lemma_scan_some(children, canonical_rel_seq(d));
}

/// Fresh year: with no year directory on disk, resolution yields exactly
/// the canonical `root/year/year-month-day` path, and that single
/// directory is the one whose creation is asked for.
pub proof fn lemma_fresh_year(root: Seq<char>, d: CalendarDate, children: Seq<ChildDir>)
    ensures
        resolve_path_spec(root, d, false, children) == (canonical_full_seq(root, d), true),
{
}

} // verus!
