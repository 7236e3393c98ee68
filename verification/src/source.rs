//! Flat configuration values keyed by path, the merge of several sources,
//! and the nesting of flat paths into one value tree.
use vstd::prelude::*;

use crate::assoc::{
    assoc_map, assoc_find, assoc_get, assoc_insert, keyed, lemma_get_index, lemma_map_vals_insert,
    lemma_sorted_insert, map_vals, sorted_insert, sorted_keys,
};
use crate::text::{
    chars_of, contains_spec, contains_str, ends_with_spec, ends_with_str, parse_usize,
    parse_usize_spec, slice_string, string_of,
};
use crate::text::lemma_key_index_bounds;
use crate::env::ConfigEnv;
use crate::error::ConfigErrors;
use crate::value::{
    lemma_list_view, lemma_pairs_view, lemma_table_index, list_view, pairs_view, table_index,
    ConfigValue, ConfigValueV, Value, ValueV,
};
use crate::text::find_key;

verus! {

/// The view of one stored entry.
pub open spec fn cv_view(c: ConfigValue) -> ConfigValueV {
    c@
}

/// Intermediate representation of configuration values: values stored by
/// their dot-notation path (e.g. "database.host"), in path order.
#[derive(Debug)]
pub struct ConfigValues {
    values: Vec<(String, ConfigValue)>,
}

impl ConfigValues {
    #[verifier::type_invariant]
    spec fn wf(self) -> bool {
        sorted_keys(keyed(self.values@))
    }

    /// The entries, in strictly increasing path order.
    pub closed spec fn entries(self) -> Seq<(Seq<char>, ConfigValueV)> {
        map_vals(keyed(self.values@), |c: ConfigValue| cv_view(c))
    }
}

impl View for ConfigValues {
    type V = Map<Seq<char>, ConfigValueV>;

    closed spec fn view(&self) -> Map<Seq<char>, ConfigValueV> {
        assoc_map(self.entries())
    }
}

/// The map of values is the one its entries stand for.
pub proof fn lemma_values_view(v: ConfigValues)
    ensures
        v@ == assoc_map(v.entries()),
{
}

pub proof fn lemma_get_map_vals<V, W>(s: Seq<(Seq<char>, V)>, k: Seq<char>, f: spec_fn(V) -> W)
    ensures
        assoc_get(map_vals(s, f), k) == match assoc_get(s, k) {
            Some(v) => Some(f(v)),
            None => None,
        },
    decreases s.len(),
{
    if s.len() > 0 {
        assert(map_vals(s, f).drop_first() =~= map_vals(s.drop_first(), f));
        lemma_get_map_vals(s.drop_first(), k, f);
    }
}

proof fn lemma_sorted_map_vals<V, W>(s: Seq<(Seq<char>, V)>, f: spec_fn(V) -> W)
    requires
        sorted_keys(s),
    ensures
        sorted_keys(map_vals(s, f)),
{
    assert forall|i: int, j: int| 0 <= i < j < map_vals(s, f).len() implies crate::text::seq_lt(
        #[trigger] map_vals(s, f)[i].0,
        #[trigger] map_vals(s, f)[j].0,
    ) by {
        assert(map_vals(s, f)[i].0 == s[i].0);
        assert(map_vals(s, f)[j].0 == s[j].0);
    }
}

impl ConfigValues {
    proof fn lemma_entries_sorted(self)
        requires
            sorted_keys(keyed(self.values@)),
        ensures
            sorted_keys(self.entries()),
    {
        lemma_sorted_map_vals(keyed(self.values@), |c: ConfigValue| cv_view(c));
    }

    /// Create an empty ConfigValues container.
    pub fn empty() -> (r: Self)
        ensures
            r@ == Map::<Seq<char>, ConfigValueV>::empty(),
            r.entries() == Seq::<(Seq<char>, ConfigValueV)>::empty(),
    {
        let r = ConfigValues { values: Vec::new() };
        assert(r.entries() =~= Seq::<(Seq<char>, ConfigValueV)>::empty());
        assert(r@ =~= Map::<Seq<char>, ConfigValueV>::empty());
        r
    }

    /// Insert a value at the given path (replacing what was there).
    pub fn insert(&mut self, path: String, value: ConfigValue)
        ensures
            final(self)@ == old(self)@.insert(path@, value@),
            final(self).entries() == sorted_insert(old(self).entries(), path@, value@),
    {
        proof {
            use_type_invariant(&*self);
        }
        let ghost s = keyed(self.values@);
        let ghost f = |c: ConfigValue| cv_view(c);
        let ghost p = path@;
        let ghost v = value;
        let mut values: Vec<(String, ConfigValue)> = Vec::new();
        std::mem::swap(&mut values, &mut self.values);
        assoc_insert(&mut values, path, value);
        self.values = values;
        proof {
            lemma_map_vals_insert(s, p, v, f);
            lemma_sorted_map_vals(s, f);
            lemma_sorted_insert(map_vals(s, f), p, v@);
            assert forall|k: Seq<char>| #[trigger] assoc_get(self.entries(), k) == if k == p {
                Some(v@)
            } else {
                assoc_get(old(self).entries(), k)
            } by {}
            assert(self@ =~= old(self)@.insert(p, v@));
        }
    }

    /// Get a value by path.
    pub fn get(&self, path: &str) -> (r: Option<&ConfigValue>)
        ensures
            match r {
                Some(c) => self@.contains_key(path@) && self@[path@] == c@,
                None => !self@.contains_key(path@),
            },
    {
        proof {
            use_type_invariant(self);
            lemma_get_map_vals(keyed(self.values@), path@, |c: ConfigValue| cv_view(c));
        }
        match assoc_find(&self.values, path) {
            Some(i) => Some(&self.values[i].1),
            None => None,
        }
    }

    /// Check if a path exists.
    pub fn contains(&self, path: &str) -> (r: bool)
        ensures
            r == self@.contains_key(path@),
    {
        proof {
            use_type_invariant(self);
            lemma_get_map_vals(keyed(self.values@), path@, |c: ConfigValue| cv_view(c));
        }
        assoc_find(&self.values, path).is_some()
    }

    /// Get the number of values.
    pub fn len(&self) -> (r: usize)
        ensures
            r == self.entries().len(),
    {
        self.values.len()
    }

    /// Check if empty.
    pub fn is_empty(&self) -> (r: bool)
        ensures
            r == (self.entries().len() == 0),
            r == (self@ == Map::<Seq<char>, ConfigValueV>::empty()),
    {
        proof {
            if self.entries().len() > 0 {
                let k = self.entries()[0].0;
                assert(assoc_get(self.entries(), k) is Some);
                assert(self@.contains_key(k));
            } else {
                assert(self@ =~= Map::<Seq<char>, ConfigValueV>::empty());
            }
        }
        self.values.len() == 0
    }

    /// All path-value pairs, in path order.
    pub fn iter(&self) -> (r: &[(String, ConfigValue)])
        ensures
            map_vals(keyed(r@), |c: ConfigValue| cv_view(c)) == self.entries(),
            sorted_keys(self.entries()),
    {
        proof {
            use_type_invariant(self);
            self.lemma_entries_sorted();
        }
        self.values.as_slice()
    }

    /// All paths, in order.
    pub fn paths(&self) -> (r: Vec<String>)
        ensures
            r@.len() == self.entries().len(),
            forall|i: int| 0 <= i < r@.len() ==> #[trigger] r@[i]@ == self.entries()[i].0,
    {
        let mut r: Vec<String> = Vec::new();
        let mut i: usize = 0;
        while i < self.values.len()
            invariant
                i <= self.values@.len(),
                r@.len() == i,
                forall|j: int| 0 <= j < i ==> #[trigger] r@[j]@ == self.entries()[j].0,
            decreases self.values@.len() - i,
        {
            assert(self.entries()[i as int].0 == self.values@[i as int].0@);
            r.push(self.values[i].0.clone());
            i = i + 1;
        }
        r
    }
}

/// A configuration source: it loads its values through the environment
/// (files and variables) that it is handed.
pub trait Source: Send + Sync {
    /// Whether loading this source through `env` may give `r`: any outcome,
    /// unless the source states what it loads.
    open spec fn loads(&self, env: &dyn ConfigEnv, r: Result<ConfigValues, ConfigErrors>) -> bool {
        true
    }

    /// Load configuration values from this source.
    fn load(&self, env: &dyn ConfigEnv) -> (r: Result<ConfigValues, ConfigErrors>)
        ensures
            self.loads(env, r),
    ;

    /// Human-readable name of this source for error messages.
    fn name(&self) -> &str;

    /// The file that this source reads, if it reads one; none unless the
    /// source says otherwise.
    open spec fn watched(&self) -> Option<Seq<char>> {
        None
    }

    /// The file to watch for changes, if this source reads one (`None` for
    /// a source that reads no file).
    fn watch_path(&self) -> (r: Option<String>)
        ensures
            crate::error::opt_text_view(r) == self.watched(),
    ;
}

// ---------------------------------------------------------------------------
// Merging
// ---------------------------------------------------------------------------

/// Sources merged in order: a later source's value for a path replaces an
/// earlier one.
pub open spec fn merge_maps(ms: Seq<Map<Seq<char>, ConfigValueV>>) -> Map<
    Seq<char>,
    ConfigValueV,
>
    decreases ms.len(),
{
    if ms.len() == 0 {
        Map::empty()
    } else {
        merge_maps(ms.drop_last()).union_prefer_right(ms.last())
    }
}

pub open spec fn views_of(vs: Seq<ConfigValues>) -> Seq<Map<Seq<char>, ConfigValueV>> {
    vs.map_values(|v: ConfigValues| v@)
}

pub proof fn lemma_assoc_get_push<V>(s: Seq<(Seq<char>, V)>, x: (Seq<char>, V), k: Seq<char>)
    ensures
        assoc_get(s.push(x), k) == match assoc_get(s, k) {
            Some(v) => Some(v),
            None => if x.0 == k {
                Some(x.1)
            } else {
                None
            },
        },
    decreases s.len(),
{
    if s.len() > 0 {
        assert(s.push(x).drop_first() =~= s.drop_first().push(x));
        assert(s.push(x)[0] == s[0]);
        lemma_assoc_get_push(s.drop_first(), x, k);
        if s[0].0 != k {
            assert(assoc_get(s.push(x), k) == assoc_get(s.push(x).drop_first(), k));
            assert(assoc_get(s, k) == assoc_get(s.drop_first(), k));
        }
    } else {
        assert(s.push(x)[0] == x);
        assert(s.push(x).drop_first() =~= Seq::<(Seq<char>, V)>::empty());
        assert(assoc_get(s, k) is None);
        if x.0 != k {
            assert(assoc_get(s.push(x), k) == assoc_get(s.push(x).drop_first(), k));
        }
    }
}

/// Pure function: merge multiple ConfigValues by priority. Later values
/// override earlier values.
pub fn merge_config_values(all_values: Vec<ConfigValues>) -> (r: ConfigValues)
    ensures
        r@ == merge_maps(views_of(all_values@)),
{
    let mut merged = ConfigValues::empty();
    let mut i: usize = 0;
    while i < all_values.len()
        invariant
            i <= all_values@.len(),
            merged@ == merge_maps(views_of(all_values@.take(i as int))),
        decreases all_values@.len() - i,
    {
        let values = &all_values[i];
        proof {
            use_type_invariant(values);
            values.lemma_entries_sorted();
        }
        let ghost before = merged@;
        let ghost e = values.entries();
        let mut j: usize = 0;
        while j < values.values.len()
            invariant
                j <= values.values@.len(),
                e == values.entries(),
                sorted_keys(e),
                merged@ == before.union_prefer_right(assoc_map(e.take(j as int))),
            decreases values.values@.len() - j,
        {
            let key = values.values[j].0.clone();
            let val = values.values[j].1.clone();
            let ghost m0 = merged@;
            merged.insert(key, val);
            proof {
                assert(e[j as int] == (key@, val@));
                assert(e.take(j + 1) =~= e.take(j as int).push(e[j as int]));
                lemma_get_index(e.take(j as int), key@);
                assert forall|k: Seq<char>| #[trigger] assoc_get(e.take(j + 1), k) == if k
                    == key@ {
                    Some(val@)
                } else {
                    assoc_get(e.take(j as int), k)
                } by {
                    lemma_assoc_get_push(e.take(j as int), e[j as int], k);
                    if k == key@ {
                        assert forall|t: int| 0 <= t < e.take(j as int).len() implies e.take(
                            j as int,
                        )[t].0 != k by {
                            assert(crate::text::seq_lt(e[t].0, e[j as int].0));
                            crate::text::lemma_lt_irreflexive(k);
                        }
                    }
                }
                assert(merged@ =~= before.union_prefer_right(assoc_map(e.take(j + 1))));
            }
            j = j + 1;
        }
        proof {
            assert(e.take(e.len() as int) =~= e);
            assert(views_of(all_values@.take(i + 1)).drop_last() =~= views_of(
                all_values@.take(i as int),
            ));
            assert(values@ == assoc_map(e));
        }
        i = i + 1;
    }
    proof {
        assert(all_values@.take(all_values@.len() as int) =~= all_values@);
    }
    merged
}

proof fn lemma_merge_two(a: ConfigValues, b: ConfigValues)
    ensures
        merge_maps(views_of(seq![a, b])) == a@.union_prefer_right(b@),
        merge_maps(views_of(seq![a])) == a@,
{
    let vs = views_of(seq![a, b]);
    let va = views_of(seq![a]);
    assert(vs.drop_last() =~= va);
    assert(vs.last() == b@);
    assert(va.last() == a@);
    assert(va.drop_last() =~= Seq::<Map<Seq<char>, ConfigValueV>>::empty());
    assert(merge_maps(va.drop_last()) == Map::<Seq<char>, ConfigValueV>::empty());
    assert(Map::<Seq<char>, ConfigValueV>::empty().union_prefer_right(a@) =~= a@);
    assert(merge_maps(va) == a@);
}

/// The position of the last map in `ms` that has `p`, or -1 when none has.
pub open spec fn last_with(ms: Seq<Map<Seq<char>, ConfigValueV>>, p: Seq<char>) -> int
    decreases ms.len(),
{
    if ms.len() == 0 {
        -1
    } else if ms.last().contains_key(p) {
        ms.len() - 1
    } else {
        last_with(ms.drop_last(), p)
    }
}

proof fn lemma_merge_maps(ms: Seq<Map<Seq<char>, ConfigValueV>>, p: Seq<char>)
    ensures
        merge_maps(ms).contains_key(p) <==> exists|i: int| 0 <= i < ms.len() && #[trigger] ms[i].contains_key(p),
        -1 <= last_with(ms, p) < ms.len(),
        merge_maps(ms).contains_key(p) ==> {
            let j = last_with(ms, p);
            &&& 0 <= j
            &&& ms[j].contains_key(p)
            &&& merge_maps(ms)[p] == ms[j][p]
        },
        forall|k: int| last_with(ms, p) < k < ms.len() ==> !(#[trigger] ms[k]).contains_key(p),
    decreases ms.len(),
{
    if ms.len() > 0 {
        let d = ms.drop_last();
        lemma_merge_maps(d, p);
        assert forall|i: int| 0 <= i < d.len() implies #[trigger] d[i] == ms[i] by {}
        if !ms.last().contains_key(p) {
            if exists|i: int| 0 <= i < ms.len() && #[trigger] ms[i].contains_key(p) {
                let i = choose|i: int| 0 <= i < ms.len() && #[trigger] ms[i].contains_key(p);
                assert(i < ms.len() - 1);
                assert(d[i].contains_key(p));
            }
            assert forall|k: int| last_with(ms, p) < k < ms.len() implies !(#[trigger] ms[k]).contains_key(p) by {
                if k < ms.len() - 1 {
                    assert(d[k] == ms[k]);
                }
            }
        } else {
            assert(ms[ms.len() - 1].contains_key(p));
        }
    }
}

/// Merging any number of sources in order: a path is in the result exactly
/// when some source has it, and then its value is the one of the last source
/// that has it (no later source has the path).
pub proof fn law_merge_all(vs: Seq<ConfigValues>, p: Seq<char>)
    ensures
        merge_maps(views_of(vs)).contains_key(p) <==> exists|i: int|
            0 <= i < vs.len() && (#[trigger] vs[i])@.contains_key(p),
        merge_maps(views_of(vs)).contains_key(p) ==> {
            let j = last_with(views_of(vs), p);
            &&& 0 <= j < vs.len()
            &&& vs[j]@.contains_key(p)
            &&& merge_maps(views_of(vs))[p] == vs[j]@[p]
            &&& forall|k: int| j < k < vs.len() ==> !(#[trigger] vs[k])@.contains_key(p)
        },
{
    let ms = views_of(vs);
    lemma_merge_maps(ms, p);
    assert forall|i: int| 0 <= i < vs.len() implies #[trigger] ms[i] == vs[i]@ by {}
    if exists|i: int| 0 <= i < vs.len() && (#[trigger] vs[i])@.contains_key(p) {
        let i = choose|i: int| 0 <= i < vs.len() && (#[trigger] vs[i])@.contains_key(p);
        assert(ms[i].contains_key(p));
    }
    if merge_maps(ms).contains_key(p) {
        let j = last_with(ms, p);
        assert(ms[j] == vs[j]@);
        assert forall|k: int| j < k < vs.len() implies !(#[trigger] vs[k])@.contains_key(p) by {
            assert(ms[k] == vs[k]@);
        }
    }
}

/// Merging two sources: for a path in the later source its value wins; for
/// any other path the earlier source's value stays.
pub proof fn law_merge_later_wins(a: ConfigValues, b: ConfigValues, path: Seq<char>)
    ensures
        b@.contains_key(path) ==> merge_maps(views_of(seq![a, b]))[path] == b@[path],
        a@.contains_key(path) && !b@.contains_key(path) ==> merge_maps(views_of(seq![a, b]))[path]
            == a@[path],
{
    lemma_merge_two(a, b);
}

/// The merged paths are exactly the paths of the sources together.
pub proof fn law_merge_key_union(a: ConfigValues, b: ConfigValues)
    ensures
        merge_maps(views_of(seq![a, b])).dom() == a@.dom().union(b@.dom()),
{
    lemma_merge_two(a, b);
    assert(merge_maps(views_of(seq![a, b])).dom() =~= a@.dom().union(b@.dom()));
}

/// An empty source changes nothing, on either side of a merge.
pub proof fn law_merge_empty_identity(a: ConfigValues, e: ConfigValues)
    requires
        e@ == Map::<Seq<char>, ConfigValueV>::empty(),
    ensures
        merge_maps(views_of(seq![a, e])) == a@,
        merge_maps(views_of(seq![e, a])) == a@,
{
    lemma_merge_two(a, e);
    lemma_merge_two(e, a);
    assert(a@.union_prefer_right(e@) =~= a@);
    assert(e@.union_prefer_right(a@) =~= a@);
}

/// Merging is associative: merging (a, b) then c gives what merging a with
/// (b, c) gives, and both are the merge of (a, b, c).
pub proof fn law_merge_associative(
    a: ConfigValues,
    b: ConfigValues,
    c: ConfigValues,
    ab: ConfigValues,
    bc: ConfigValues,
)
    requires
        ab@ == merge_maps(views_of(seq![a, b])),
        bc@ == merge_maps(views_of(seq![b, c])),
    ensures
        merge_maps(views_of(seq![ab, c])) == merge_maps(views_of(seq![a, bc])),
        merge_maps(views_of(seq![ab, c])) == merge_maps(views_of(seq![a, b, c])),
{
    lemma_merge_two(a, b);
    lemma_merge_two(b, c);
    lemma_merge_two(ab, c);
    lemma_merge_two(a, bc);
    let vs = views_of(seq![a, b, c]);
    assert(vs.drop_last() =~= views_of(seq![a, b]));
    assert(vs.last() == c@);
    assert(a@.union_prefer_right(b@).union_prefer_right(c@) =~= a@.union_prefer_right(
        b@.union_prefer_right(c@),
    ));
}

// ---------------------------------------------------------------------------
// Paths
// ---------------------------------------------------------------------------

/// A segment in a configuration path.
#[derive(Debug, PartialEq)]
pub enum PathSegment {
    /// Object key like "database" in "database.host"
    Key(String),
    /// Array index like 0 in "hosts[0]"
    Index(usize),
}

pub ghost enum PathSegmentV {
    Key(Seq<char>),
    Index(usize),
}

impl View for PathSegment {
    type V = PathSegmentV;

    open spec fn view(&self) -> PathSegmentV {
        match self {
            PathSegment::Key(k) => PathSegmentV::Key(k@),
            PathSegment::Index(i) => PathSegmentV::Index(*i),
        }
    }
}

pub open spec fn segs_view(v: Seq<PathSegment>) -> Seq<PathSegmentV> {
    v.map_values(|s: PathSegment| s@)
}

/// The key collected so far, as a segment if it is not empty.
pub open spec fn flush_key(cur: Seq<char>) -> Seq<PathSegmentV> {
    if cur.len() > 0 {
        seq![PathSegmentV::Key(cur)]
    } else {
        Seq::empty()
    }
}

/// Position of the first `]` in `s`, or its length when there is none.
pub open spec fn close_index(s: Seq<char>) -> int
    decreases s.len(),
{
    if s.len() == 0 {
        0
    } else if s[0] == ']' {
        0
    } else {
        1 + close_index(s.drop_first())
    }
}

pub proof fn lemma_close_index(s: Seq<char>)
    ensures
        0 <= close_index(s) <= s.len(),
        forall|j: int| 0 <= j < close_index(s) ==> s[j] != ']',
        close_index(s) < s.len() ==> s[close_index(s)] == ']',
    decreases s.len(),
{
    if s.len() > 0 && s[0] != ']' {
        lemma_close_index(s.drop_first());
        assert forall|j: int| 0 <= j < close_index(s) implies s[j] != ']' by {
            if j > 0 {
                assert(s[j] == s.drop_first()[j - 1]);
            }
        }
    }
}

/// Scanning a path: `.` ends a key, `[n]` is an index (dropped when `n` is
/// not a number), anything else extends the current key.
pub open spec fn scan_path(s: Seq<char>, cur: Seq<char>) -> Seq<PathSegmentV>
    decreases s.len(),
{
    if s.len() == 0 {
        flush_key(cur)
    } else if s[0] == '.' {
        flush_key(cur) + scan_path(s.drop_first(), Seq::empty())
    } else if s[0] == '[' {
        let rest = s.drop_first();
        let c = close_index(rest);
        proof {
            lemma_close_index(rest);
        }
        let after = if c < rest.len() {
            rest.skip(c + 1)
        } else {
            rest.skip(c)
        };
        flush_key(cur) + match parse_usize_spec(rest.take(c)) {
            Some(n) => seq![PathSegmentV::Index(n)],
            None => Seq::empty(),
        } + scan_path(after, Seq::empty())
    } else {
        scan_path(s.drop_first(), cur.push(s[0]))
    }
}

pub open spec fn parse_path_spec(path: Seq<char>) -> Seq<PathSegmentV> {
    scan_path(path, Seq::empty())
}

proof fn lemma_close_index_at(s: Seq<char>, m: int)
    requires
        0 <= m <= s.len(),
        forall|j: int| 0 <= j < m ==> s[j] != ']',
        m == s.len() || s[m] == ']',
    ensures
        close_index(s) == m,
    decreases s.len(),
{
    if s.len() > 0 && m > 0 {
        assert forall|j: int| 0 <= j < m - 1 implies s.drop_first()[j] != ']' by {
            assert(s.drop_first()[j] == s[j + 1]);
        }
        if m < s.len() {
            assert(s.drop_first()[m - 1] == s[m]);
        }
        lemma_close_index_at(s.drop_first(), m - 1);
    }
}

fn flush(segs: &mut Vec<PathSegment>, cur: &mut Vec<char>)
    ensures
        segs_view(final(segs)@) == segs_view(old(segs)@) + flush_key(old(cur)@),
        final(cur)@ == Seq::<char>::empty(),
{
    if cur.len() > 0 {
        let k = string_of(cur);
        segs.push(PathSegment::Key(k));
        *cur = Vec::new();
        assert(segs_view(segs@) =~= segs_view(old(segs)@) + flush_key(old(cur)@));
    } else {
        assert(segs_view(segs@) =~= segs_view(old(segs)@) + flush_key(old(cur)@));
    }
}

/// Parse a path string into segments: "servers[0].host" gives
/// `[Key("servers"), Index(0), Key("host")]`.
pub fn parse_path(path: &str) -> (r: Vec<PathSegment>)
    ensures
        segs_view(r@) == parse_path_spec(path@),
{
    let chars = chars_of(path);
    let n = chars.len();
    let mut segs: Vec<PathSegment> = Vec::new();
    let mut cur: Vec<char> = Vec::new();
    let mut i: usize = 0;
    assert(chars@.skip(0) =~= chars@);
    while i < n
        invariant
            n == chars@.len(),
            chars@ == path@,
            i <= n,
            segs_view(segs@) + scan_path(chars@.skip(i as int), cur@) == parse_path_spec(path@),
        decreases n - i,
    {
        let ghost s = chars@.skip(i as int);
        let ghost before = segs_view(segs@);
        let ghost cur0 = cur@;
        let ch = chars[i];
        assert(s[0] == ch);
        if ch == '.' {
            flush(&mut segs, &mut cur);
            i = i + 1;
            assert(s.drop_first() =~= chars@.skip(i as int));
            assert(before + (flush_key(cur0) + scan_path(s.drop_first(), Seq::empty())) =~= (
            before + flush_key(cur0)) + scan_path(s.drop_first(), Seq::empty()));
        } else if ch == '[' {
            flush(&mut segs, &mut cur);
            i = i + 1;
            let start = i;
            while i < n && chars[i] != ']'
                invariant
                    n == chars@.len(),
                    start <= i <= n,
                    forall|j: int| start <= j < i ==> chars@[j] != ']',
                decreases n - i,
            {
                i = i + 1;
            }
            let ghost rest = chars@.skip(start as int);
            let ghost c = i - start;
            proof {
                assert(rest =~= s.drop_first());
                assert forall|j: int| 0 <= j < c implies rest[j] != ']' by {
                    assert(rest[j] == chars@[start + j]);
                }
                if i < n {
                    assert(rest[c] == chars@[i as int]);
                }
                lemma_close_index_at(rest, c);
            }
            let idx = slice_string(&chars, start, i);
            assert(idx@ =~= rest.take(c));
            if i < n {
                i = i + 1;
                assert(rest.skip(c + 1) =~= chars@.skip(i as int));
            } else {
                assert(rest.skip(c) =~= chars@.skip(i as int));
            }
            let ghost after = chars@.skip(i as int);
            let ghost mid = segs_view(segs@);
            match parse_usize(idx.as_str()) {
                Some(k) => {
                    segs.push(PathSegment::Index(k));
                },
                None => {},
            }
            proof {
                let iseg = match parse_usize_spec(rest.take(c)) {
                    Some(m) => seq![PathSegmentV::Index(m)],
                    None => Seq::<PathSegmentV>::empty(),
                };
                assert(segs_view(segs@) =~= mid + iseg);
                assert(scan_path(s, cur0) == flush_key(cur0) + iseg + scan_path(
                    after,
                    Seq::empty(),
                ));
                assert(before + (flush_key(cur0) + iseg + scan_path(after, Seq::empty())) =~= (
                before + flush_key(cur0) + iseg) + scan_path(after, Seq::empty()));
            }
        } else {
            cur.push(ch);
            i = i + 1;
            assert(s.drop_first() =~= chars@.skip(i as int));
        }
    }
    assert(chars@.skip(n as int) =~= Seq::<char>::empty());
    flush(&mut segs, &mut cur);
    assert(segs_view(segs@) =~= parse_path_spec(path@));
    segs
}

// ---------------------------------------------------------------------------
// Nesting flat paths into one value tree
// ---------------------------------------------------------------------------

/// Every index in the segments is below `usize::MAX` (an array that long
/// cannot be allocated).
pub open spec fn indices_fit(segs: Seq<PathSegmentV>) -> bool {
    forall|i: int| 0 <= i < segs.len() ==> (#[trigger] segs[i] matches PathSegmentV::Index(n) ==> n
        < usize::MAX)
}

/// The container that a path continues into: an array before an index, a
/// table before a key.
pub open spec fn empty_for(next: PathSegmentV) -> ValueV {
    match next {
        PathSegmentV::Index(_) => ValueV::Array(Seq::empty()),
        PathSegmentV::Key(_) => ValueV::Table(Seq::empty()),
    }
}

/// The table with the entry for `k` set to `v`: replaced in place, or added
/// at the end.
pub open spec fn table_set(t: Seq<(Seq<char>, ValueV)>, k: Seq<char>, v: ValueV) -> Seq<
    (Seq<char>, ValueV),
> {
    match table_index(t, k) {
        Some(i) => t.update(i, (k, v)),
        None => t.push((k, v)),
    }
}

/// The array extended with nulls until it has an element at `n`.
pub open spec fn pad_nulls(a: Seq<ValueV>, n: int) -> Seq<ValueV> {
    if a.len() > n {
        a
    } else {
        a + Seq::new((n + 1 - a.len()) as nat, |j: int| ValueV::Null)
    }
}

/// The tree with `v` placed at the path `segs`: a node that is not of the
/// kind the path needs there is replaced by an empty one, arrays are
/// extended with nulls, missing children are created.
pub open spec fn insert_at(root: ValueV, segs: Seq<PathSegmentV>, v: ValueV) -> ValueV
    decreases segs.len(),
{
    if segs.len() == 0 {
        v
    } else {
        match segs[0] {
            PathSegmentV::Key(k) => {
                let t = match root {
                    ValueV::Table(t) => t,
                    _ => Seq::empty(),
                };
                if segs.len() == 1 {
                    ValueV::Table(table_set(t, k, v))
                } else {
                    let child = match table_index(t, k) {
                        Some(i) => t[i].1,
                        None => empty_for(segs[1]),
                    };
                    ValueV::Table(table_set(t, k, insert_at(child, segs.drop_first(), v)))
                }
            },
            PathSegmentV::Index(n) => {
                let a = pad_nulls(
                    match root {
                        ValueV::Array(a) => a,
                        _ => Seq::empty(),
                    },
                    n as int,
                );
                if segs.len() == 1 {
                    ValueV::Array(a.update(n as int, v))
                } else {
                    let child = if a[n as int] is Null {
                        empty_for(segs[1])
                    } else {
                        a[n as int]
                    };
                    ValueV::Array(a.update(n as int, insert_at(child, segs.drop_first(), v)))
                }
            },
        }
    }
}

fn empty_for_exec(next: &PathSegment) -> (r: Value)
    ensures
        r@ == empty_for(next@),
{
    match next {
        PathSegment::Index(_) => {
            let r = Value::Array(Vec::new());
            assert(list_view(Seq::<Value>::empty()) =~= Seq::<ValueV>::empty());
            r
        },
        PathSegment::Key(_) => {
            let r = Value::Table(Vec::new());
            assert(pairs_view(Seq::<(String, Value)>::empty()) =~= Seq::<(Seq<char>, ValueV)>::empty());
            r
        },
    }
}

/// Set the entry at `j` (the first entry with key `k`), or add it at the end.
fn set_entry(t: &mut Vec<(String, Value)>, found: Option<usize>, k: String, x: Value)
    requires
        match found {
            Some(j) => j < old(t)@.len(),
            None => true,
        },
    ensures
        pairs_view(final(t)@) == match found {
            Some(j) => pairs_view(old(t)@).update(j as int, (k@, x@)),
            None => pairs_view(old(t)@).push((k@, x@)),
        },
{
    proof {
        lemma_pairs_view(t@);
    }
    match found {
        Some(j) => {
            let _removed = t.remove(j);
            t.insert(j, (k, x));
            proof {
                lemma_pairs_view(t@);
                assert(pairs_view(t@) =~= pairs_view(old(t)@).update(j as int, (k@, x@)));
            }
        },
        None => {
            t.push((k, x));
            proof {
                lemma_pairs_view(t@);
                assert(pairs_view(t@) =~= pairs_view(old(t)@).push((k@, x@)));
            }
        },
    }
}

/// Take the value at entry `j` out, leaving a null there.
fn take_entry(t: &mut Vec<(String, Value)>, j: usize) -> (r: Value)
    requires
        j < old(t)@.len(),
    ensures
        r@ == old(t)@[j as int].1@,
        final(t)@ == old(t)@.update(j as int, (old(t)@[j as int].0, Value::Null)),
{
    let (key, val) = t.remove(j);
    t.insert(j, (key, Value::Null));
    val
}

/// Take the element at `j` out, leaving a null there.
fn take_item(a: &mut Vec<Value>, j: usize) -> (r: Value)
    requires
        j < old(a)@.len(),
    ensures
        r@ == old(a)@[j as int]@,
        final(a)@ == old(a)@.update(j as int, Value::Null),
{
    let val = a.remove(j);
    a.insert(j, Value::Null);
    val
}

fn set_item(a: &mut Vec<Value>, j: usize, x: Value)
    requires
        j < old(a)@.len(),
    ensures
        list_view(final(a)@) == list_view(old(a)@).update(j as int, x@),
{
    proof {
        lemma_list_view(a@);
    }
    let _removed = a.remove(j);
    a.insert(j, x);
    proof {
        lemma_list_view(a@);
        assert(list_view(a@) =~= list_view(old(a)@).update(j as int, x@));
    }
}

/// Place `v` at the path `segs[i..]` in `root`.
fn insert_value(root: Value, segs: &Vec<PathSegment>, i: usize, v: Value) -> (r: Value)
    requires
        i <= segs@.len(),
        indices_fit(segs_view(segs@)),
    ensures
        r@ == insert_at(root@, segs_view(segs@).skip(i as int), v@),
    decreases segs@.len() - i,
{
    let ghost rest = segs_view(segs@).skip(i as int);
    let ghost rv = root@;
    if i == segs.len() {
        return v;
    }
    assert(rest[0] == segs@[i as int]@);
    assert(rest.drop_first() =~= segs_view(segs@).skip(i + 1));
    if i + 1 < segs.len() {
        assert(rest[1] == segs@[i + 1]@);
    }
    match &segs[i] {
        PathSegment::Key(k) => {
            let mut t: Vec<(String, Value)> = match root {
                Value::Table(t) => t,
                _ => Vec::new(),
            };
            let ghost tv = pairs_view(t@);
            assert(tv == match rv {
                ValueV::Table(t) => t,
                _ => Seq::empty(),
            }) by {
                assert(pairs_view(Seq::<(String, Value)>::empty()) =~= Seq::<(Seq<char>, ValueV)>::empty());
            }
            let found = find_key(&t, k.as_str());
            proof {
                lemma_table_index(t@, k@, 0);
                lemma_key_index_bounds(t@, k@, 0);
                lemma_pairs_view(t@);
            }
            if i + 1 == segs.len() {
                set_entry(&mut t, found, k.clone(), v);
                return Value::Table(t);
            }
            let ghost t0 = t@;
            let child = match found {
                Some(j) => take_entry(&mut t, j),
                None => empty_for_exec(&segs[i + 1]),
            };
            proof {
                match found {
                    Some(j) => {
                        assert(tv[j as int].1 == child@);
                    },
                    None => {},
                }
            }
            let newchild = insert_value(child, segs, i + 1, v);
            proof {
                lemma_pairs_view(t@);
                lemma_pairs_view(t0);
                match found {
                    Some(j) => {
                        assert(pairs_view(t@).update(j as int, (k@, newchild@)) =~= tv.update(
                            j as int,
                            (k@, newchild@),
                        ));
                    },
                    None => {},
                }
            }
            let ghost t1 = pairs_view(t@);
            set_entry(&mut t, found, k.clone(), newchild);
            Value::Table(t)
        },
        PathSegment::Index(n) => {
            let n = *n;
            assert(rest[0] matches PathSegmentV::Index(m) && m == n);
            assert(n < usize::MAX) by {
                assert(segs_view(segs@)[i as int] == rest[0]);
            }
            let mut a: Vec<Value> = match root {
                Value::Array(a) => a,
                _ => Vec::new(),
            };
            let ghost a0 = list_view(a@);
            assert(a0 == match rv {
                ValueV::Array(a) => a,
                _ => Seq::empty(),
            }) by {
                assert(list_view(Seq::<Value>::empty()) =~= Seq::<ValueV>::empty());
            }
            let ghost len0 = a@.len();
            proof {
                lemma_list_view(a@);
                assert(a0 + Seq::new(0, |j: int| ValueV::Null) =~= a0);
            }
            while a.len() <= n
                invariant
                    n < usize::MAX,
                    a@.len() >= len0,
                    len0 == a0.len(),
                    a@.len() <= n + 1 || a@.len() == len0,
                    list_view(a@) == a0 + Seq::new(
                        (a@.len() - len0) as nat,
                        |j: int| ValueV::Null,
                    ),
                decreases n + 1 - a@.len(),
            {
                let ghost before = a@;
                a.push(Value::Null);
                proof {
                    assert(a@.drop_last() == before);
                    lemma_list_view(a@);
                    lemma_list_view(before);
                    assert(list_view(a@) =~= list_view(before).push(ValueV::Null));
                    assert(list_view(a@) =~= a0 + Seq::new(
                        (a@.len() - len0) as nat,
                        |j: int| ValueV::Null,
                    ));
                }
            }
            proof {
                lemma_list_view(a@);
                if len0 > n {
                    assert(list_view(a@) =~= a0);
                }
                assert(list_view(a@) == pad_nulls(a0, n as int));
            }
            if i + 1 == segs.len() {
                set_item(&mut a, n, v);
                return Value::Array(a);
            }
            let ghost a1 = a@;
            let old_item = take_item(&mut a, n);
            let child = if old_item.is_null() {
                empty_for_exec(&segs[i + 1])
            } else {
                old_item
            };
            let newchild = insert_value(child, segs, i + 1, v);
            proof {
                lemma_list_view(a@);
            }
            let ghost pa = pad_nulls(a0, n as int);
            proof {
                lemma_list_view(a1);
                assert(list_view(a@).update(n as int, newchild@) =~= pa.update(n as int, newchild@));
            }
            set_item(&mut a, n, newchild);
            Value::Array(a)
        },
    }
}

/// Where a `<path>.__len` marker says an array is: the path without the marker.
pub open spec fn len_marker_target(path: Seq<char>) -> Seq<char> {
    path.take(path.len() - 6)
}

/// An entry that marks an empty array: `<path>.__len` with the integer 0.
pub open spec fn is_empty_array_marker(e: (Seq<char>, ConfigValueV)) -> bool {
    ends_with_spec(e.0, ".__len"@) && e.1.value == ValueV::Integer(0)
}

/// An entry that holds a value: its path has no `.__` metadata part.
pub open spec fn is_value_entry(e: (Seq<char>, ConfigValueV)) -> bool {
    !contains_spec(e.0, ".__"@)
}

/// First pass: empty arrays from their length markers.
pub open spec fn len_pass(es: Seq<(Seq<char>, ConfigValueV)>, acc: ValueV) -> ValueV
    decreases es.len(),
{
    if es.len() == 0 {
        acc
    } else {
        let prev = len_pass(es.drop_last(), acc);
        let e = es.last();
        if is_empty_array_marker(e) {
            insert_at(prev, parse_path_spec(len_marker_target(e.0)), ValueV::Array(Seq::empty()))
        } else {
            prev
        }
    }
}

/// Second pass: every value at its path.
pub open spec fn value_pass(es: Seq<(Seq<char>, ConfigValueV)>, acc: ValueV) -> ValueV
    decreases es.len(),
{
    if es.len() == 0 {
        acc
    } else {
        let prev = value_pass(es.drop_last(), acc);
        let e = es.last();
        if is_value_entry(e) {
            insert_at(prev, parse_path_spec(e.0), e.1.value)
        } else {
            prev
        }
    }
}

/// The nested tree of flat entries, starting from an empty table.
pub open spec fn tree_of(es: Seq<(Seq<char>, ConfigValueV)>) -> ValueV {
    value_pass(es, len_pass(es, ValueV::Table(Seq::empty())))
}

/// No path of the entries asks for an array of `usize::MAX + 1` elements.
pub open spec fn paths_fit(es: Seq<(Seq<char>, ConfigValueV)>) -> bool {
    forall|i: int|
        0 <= i < es.len() ==> indices_fit(parse_path_spec(#[trigger] es[i].0)) && (ends_with_spec(
            es[i].0,
            ".__len"@,
        ) ==> indices_fit(parse_path_spec(len_marker_target(es[i].0))))
}

/// Whether every index in the segments is below `usize::MAX`.
fn indices_fit_exec(segs: &Vec<PathSegment>) -> (r: bool)
    ensures
        r == indices_fit(segs_view(segs@)),
{
    let mut i: usize = 0;
    while i < segs.len()
        invariant
            i <= segs.len(),
            forall|j: int| 0 <= j < i ==> (#[trigger] segs_view(segs@)[j] matches PathSegmentV::Index(n)
                ==> n < usize::MAX),
        decreases segs.len() - i,
    {
        assert(segs_view(segs@)[i as int] == segs@[i as int]@);
        match &segs[i] {
            PathSegment::Index(n) => {
                if *n == usize::MAX {
                    return false;
                }
            },
            PathSegment::Key(_) => {},
        }
        i = i + 1;
    }
    true
}

impl ConfigValues {
    /// Whether the values can be nested into one tree: no path asks for an
    /// array of `usize::MAX + 1` elements.
    pub fn fits_tree(&self) -> (r: bool)
        ensures
            r == paths_fit(self.entries()),
    {
        let ghost es = self.entries();
        let n = self.values.len();
        let mut i: usize = 0;
        while i < n
            invariant
                n == self.values@.len(),
                es == self.entries(),
                es.len() == n,
                i <= n,
                forall|j: int|
                    0 <= j < i ==> indices_fit(parse_path_spec(#[trigger] es[j].0)) && (
                    ends_with_spec(es[j].0, ".__len"@) ==> indices_fit(
                        parse_path_spec(len_marker_target(es[j].0)),
                    )),
            decreases n - i,
        {
            let path = &self.values[i].0;
            assert(es[i as int].0 == path@);
            let segs = parse_path(path.as_str());
            if !indices_fit_exec(&segs) {
                return false;
            }
            if ends_with_str(path.as_str(), ".__len") {
                let chars = chars_of(path.as_str());
                proof {
                    reveal_strlit(".__len");
                }
                let target = slice_string(&chars, 0, chars.len() - 6);
                assert(target@ =~= len_marker_target(path@));
                let tsegs = parse_path(target.as_str());
                if !indices_fit_exec(&tsegs) {
                    return false;
                }
            }
            i = i + 1;
        }
        true
    }

    /// The values as one nested tree, when they can be nested (see
    /// `fits_tree`).
    pub fn try_to_json(&self) -> (r: Option<Value>)
        ensures
            r is Some <==> paths_fit(self.entries()),
            r matches Some(v) ==> v@ == tree_of(self.entries()),
    {
        if self.fits_tree() {
            Some(self.to_json())
        } else {
            None
        }
    }
}

impl ConfigValues {
    /// The values as one nested tree (the shape that serializes to JSON):
    /// "database.host" becomes `{"database": {"host": ..}}`, "hosts[0]" an
    /// array element, `<path>.__len = 0` an empty array, and other `.__`
    /// metadata entries are left out.
    pub fn to_json(&self) -> (r: Value)
        requires
            paths_fit(self.entries()),
        ensures
            r@ == tree_of(self.entries()),
    {
        let ghost es = self.entries();
        let mut root = Value::Table(Vec::new());
        assert(pairs_view(Seq::<(String, Value)>::empty()) =~= Seq::<(Seq<char>, ValueV)>::empty());
        assert(es.take(0) =~= Seq::<(Seq<char>, ConfigValueV)>::empty());
        let ghost start = root@;
        let n = self.values.len();
        let mut i: usize = 0;
        while i < n
            invariant
                n == self.values@.len(),
                es == self.entries(),
                es.len() == n,
                paths_fit(es),
                i <= n,
                start == ValueV::Table(Seq::empty()),
                root@ == len_pass(es.take(i as int), start),
            decreases n - i,
        {
            let path = &self.values[i].0;
            let cv = &self.values[i].1;
            assert(es[i as int] == (path@, cv@));
            assert(es.take(i + 1).drop_last() =~= es.take(i as int));
            let marker = ends_with_str(path.as_str(), ".__len");
            if marker && cv.value.as_integer() == Some(0i64) {
                let chars = chars_of(path.as_str());
                proof {
                    reveal_strlit(".__len");
                    assert(indices_fit(parse_path_spec(len_marker_target(es[i as int].0))));
                }
                let target = slice_string(&chars, 0, chars.len() - 6);
                proof {
                    assert(target@ =~= len_marker_target(path@));
                }
                let segs = parse_path(target.as_str());
                root = insert_value(root, &segs, 0, Value::Array(Vec::new()));
                proof {
                    assert(segs_view(segs@).skip(0) =~= segs_view(segs@));
                    assert(list_view(Seq::<Value>::empty()) =~= Seq::<ValueV>::empty());
                }
            }
            i = i + 1;
        }
        let ghost mid = root@;
        assert(es.take(n as int) =~= es);
        assert(es.take(0) =~= Seq::<(Seq<char>, ConfigValueV)>::empty());
        let mut i: usize = 0;
        while i < n
            invariant
                n == self.values@.len(),
                es == self.entries(),
                es.len() == n,
                paths_fit(es),
                i <= n,
                mid == len_pass(es, ValueV::Table(Seq::empty())),
                root@ == value_pass(es.take(i as int), mid),
            decreases n - i,
        {
            let path = &self.values[i].0;
            let cv = &self.values[i].1;
            assert(es[i as int] == (path@, cv@));
            assert(es.take(i + 1).drop_last() =~= es.take(i as int));
            if !contains_str(path.as_str(), ".__") {
                assert(indices_fit(parse_path_spec(es[i as int].0)));
                let segs = parse_path(path.as_str());
                root = insert_value(root, &segs, 0, cv.value.clone());
                proof {
                    assert(segs_view(segs@).skip(0) =~= segs_view(segs@));
                }
            }
            i = i + 1;
        }
        assert(es.take(n as int) =~= es);
        root
    }
}

} // verus!
