//! Character-level string utilities with their specifications.
//!
//! Strings are reasoned about through their views, `Seq<char>`. The order on
//! keys is the order of `BTreeMap<String, _>`: lexicographic by code point.
use vstd::prelude::*;

verus! {

// ---------------------------------------------------------------------------
// Lexicographic order
// ---------------------------------------------------------------------------

/// `a` sorts strictly before `b` (code point order, a prefix sorts first).
pub open spec fn seq_lt(a: Seq<char>, b: Seq<char>) -> bool
    decreases a.len(),
{
    if a.len() == 0 {
        b.len() > 0
    } else if b.len() == 0 {
        false
    } else if a[0] != b[0] {
        a[0] < b[0]
    } else {
        seq_lt(a.drop_first(), b.drop_first())
    }
}

pub proof fn lemma_lt_irreflexive(a: Seq<char>)
    ensures
        !seq_lt(a, a),
    decreases a.len(),
{
    if a.len() > 0 {
        lemma_lt_irreflexive(a.drop_first());
    }
}

pub proof fn lemma_lt_asymmetric(a: Seq<char>, b: Seq<char>)
    ensures
        seq_lt(a, b) ==> !seq_lt(b, a),
    decreases a.len(),
{
    if a.len() > 0 && b.len() > 0 && a[0] == b[0] {
        lemma_lt_asymmetric(a.drop_first(), b.drop_first());
    }
}

pub proof fn lemma_lt_transitive(a: Seq<char>, b: Seq<char>, c: Seq<char>)
    requires
        seq_lt(a, b),
        seq_lt(b, c),
    ensures
        seq_lt(a, c),
    decreases a.len(),
{
    if a.len() > 0 && b.len() > 0 && c.len() > 0 {
        if a[0] == b[0] && b[0] == c[0] {
            lemma_lt_transitive(a.drop_first(), b.drop_first(), c.drop_first());
        }
    }
}

pub proof fn lemma_lt_total(a: Seq<char>, b: Seq<char>)
    ensures
        a != b ==> seq_lt(a, b) || seq_lt(b, a),
    decreases a.len(),
{
    if a.len() > 0 && b.len() > 0 && a[0] == b[0] {
        lemma_lt_total(a.drop_first(), b.drop_first());
        if a.drop_first() == b.drop_first() {
            assert(a =~= seq![a[0]] + a.drop_first());
            assert(b =~= seq![b[0]] + b.drop_first());
        }
    } else if a.len() == 0 && b.len() == 0 {
        assert(a =~= b);
    }
}

// ---------------------------------------------------------------------------
// Trusted std calls
// ---------------------------------------------------------------------------

/// What `str::to_lowercase` gives for a string (Unicode case mapping).
pub uninterp spec fn lowercase_spec(s: Seq<char>) -> Seq<char>;


/// Calls `str::to_lowercase`; its result is named `lowercase_spec` of the input.
#[verifier::external_body]
pub(crate) fn to_lowercase(s: &str) -> (r: String)
    ensures
        r@ == lowercase_spec(s@),
{
    s.to_lowercase()
}


/// Calls `String::push`: the character is appended at the end.
#[verifier::external_body]
pub(crate) fn push_char(s: &mut String, c: char)
    ensures
        final(s)@ == old(s)@.push(c),
{
    s.push(c);
}

// ---------------------------------------------------------------------------
// Basic conversions
// ---------------------------------------------------------------------------

/// Things that can be turned into an owned `String` (`&str`, `String`, `&String`).
pub trait IntoText {
    spec fn text_view(&self) -> Seq<char>;

    fn into_text(self) -> (r: String)
        ensures
            r@ == self.text_view(),
    ;
}

impl<'a> IntoText for &'a str {
    open spec fn text_view(&self) -> Seq<char> {
        (*self)@
    }

    fn into_text(self) -> (r: String) {
        String::from_str(self)
    }
}

impl IntoText for String {
    open spec fn text_view(&self) -> Seq<char> {
        self@
    }

    fn into_text(self) -> (r: String) {
        self
    }
}

impl<'a> IntoText for &'a String {
    open spec fn text_view(&self) -> Seq<char> {
        (*self)@
    }

    fn into_text(self) -> (r: String) {
        self.clone()
    }
}

/// Key lookup in an association list: index of the first entry with key `k`
/// at or after `from`.
pub open spec fn key_index<V>(t: Seq<(String, V)>, k: Seq<char>, from: int) -> Option<int>
    decreases t.len() - from,
{
    if from < 0 || from >= t.len() {
        None
    } else if t[from].0@ == k {
        Some(from)
    } else {
        key_index(t, k, from + 1)
    }
}

pub proof fn lemma_key_index_bounds<V>(t: Seq<(String, V)>, k: Seq<char>, from: int)
    ensures
        key_index(t, k, from) matches Some(i) ==> from <= i < t.len() && t[i].0@ == k
            && forall|j: int| from <= j < i ==> t[j].0@ != k,
        key_index(t, k, from) is None && 0 <= from ==> forall|j: int|
            from <= j < t.len() ==> t[j].0@ != k,
    decreases t.len() - from,
{
    if from >= 0 && from < t.len() && t[from].0@ != k {
        lemma_key_index_bounds(t, k, from + 1);
    }
}

/// Index of the first entry of `t` whose key is `k`.
pub fn find_key<V>(t: &Vec<(String, V)>, k: &str) -> (r: Option<usize>)
    ensures
        match r {
            Some(i) => key_index(t@, k@, 0) == Some(i as int),
            None => key_index(t@, k@, 0) is None,
        },
{
    let mut i: usize = 0;
    while i < t.len()
        invariant
            i <= t.len(),
            key_index(t@, k@, 0) == key_index(t@, k@, i as int),
        decreases t.len() - i,
    {
        if str_eq(t[i].0.as_str(), k) {
            return Some(i);
        }
        i = i + 1;
    }
    None
}

pub fn chars_of(s: &str) -> (v: Vec<char>)
    ensures
        v@ == s@,
{
    let n: usize = s.unicode_len();
    let mut v: Vec<char> = Vec::new();
    let mut i: usize = 0;
    while i < n
        invariant
            n == s@.len(),
            i <= n,
            v@ == s@.take(i as int),
        decreases n - i,
    {
        let c = s.get_char(i);
        v.push(c);
        i = i + 1;
        assert(v@ =~= s@.take(i as int));
    }
    assert(v@ =~= s@);
    v
}

pub fn string_of(v: &Vec<char>) -> (s: String)
    ensures
        s@ == v@,
{
    let mut s = String::new();
    let mut i: usize = 0;
    while i < v.len()
        invariant
            i <= v.len(),
            s@ == v@.take(i as int),
        decreases v.len() - i,
    {
        push_char(&mut s, v[i]);
        i = i + 1;
        assert(s@ =~= v@.take(i as int));
    }
    assert(s@ =~= v@);
    s
}

/// Unicode White_Space (what `char::is_whitespace` tests): the control
/// characters from tab to carriage return, space, next line, no-break space,
/// ogham space mark, the spaces from en quad to hair space, line and
/// paragraph separators, narrow no-break space, medium mathematical space
/// and ideographic space.
pub open spec fn is_white_space(c: char) -> bool {
    let n = c as u32;
    ||| 0x9 <= n <= 0xD
    ||| n == 0x20
    ||| n == 0x85
    ||| n == 0xA0
    ||| n == 0x1680
    ||| 0x2000 <= n <= 0x200A
    ||| n == 0x2028
    ||| n == 0x2029
    ||| n == 0x202F
    ||| n == 0x205F
    ||| n == 0x3000
}

/// A text without its leading white space.
pub open spec fn trim_start_spec(s: Seq<char>) -> Seq<char>
    decreases s.len(),
{
    if s.len() > 0 && is_white_space(s[0]) {
        trim_start_spec(s.drop_first())
    } else {
        s
    }
}

/// A text without its trailing white space.
pub open spec fn trim_end_spec(s: Seq<char>) -> Seq<char>
    decreases s.len(),
{
    if s.len() > 0 && is_white_space(s.last()) {
        trim_end_spec(s.drop_last())
    } else {
        s
    }
}

/// A text without its leading and trailing white space (what `str::trim`
/// gives).
pub open spec fn trim_spec(s: Seq<char>) -> Seq<char> {
    trim_end_spec(trim_start_spec(s))
}

fn is_white_space_exec(c: char) -> (r: bool)
    ensures
        r == is_white_space(c),
{
    let n = c as u32;
    (0x9 <= n && n <= 0xD) || n == 0x20 || n == 0x85 || n == 0xA0 || n == 0x1680 || (0x2000 <= n
        && n <= 0x200A) || n == 0x2028 || n == 0x2029 || n == 0x202F || n == 0x205F || n == 0x3000
}

/// The text without its leading and trailing white space.
pub fn trim(s: &str) -> (r: String)
    ensures
        r@ == trim_spec(s@),
{
    let v = chars_of(s);
    let n = v.len();
    let mut a: usize = 0;
    assert(v@.skip(0) =~= v@);
    while a < n && is_white_space_exec(v[a])
        invariant
            a <= n,
            n == v@.len(),
            trim_start_spec(v@) == trim_start_spec(v@.skip(a as int)),
        decreases n - a,
    {
        assert(v@.skip(a as int).drop_first() =~= v@.skip(a + 1));
        a = a + 1;
    }
    assert(trim_start_spec(v@) =~= v@.subrange(a as int, n as int)) by {
        assert(v@.skip(a as int) =~= v@.subrange(a as int, n as int));
    }
    let mut b: usize = n;
    while b > a && is_white_space_exec(v[b - 1])
        invariant
            a <= b <= n,
            n == v@.len(),
            trim_end_spec(v@.subrange(a as int, n as int)) == trim_end_spec(
                v@.subrange(a as int, b as int),
            ),
        decreases b,
    {
        assert(v@.subrange(a as int, b as int).drop_last() =~= v@.subrange(a as int, b - 1));
        assert(v@.subrange(a as int, b as int).last() == v@[b - 1]);
        b = b - 1;
    }
    slice_string(&v, a, b)
}

pub fn string_from(s: &str) -> (r: String)
    ensures
        r@ == s@,
{
    String::from_str(s)
}

pub fn concat2(a: &str, b: &str) -> (r: String)
    ensures
        r@ == a@ + b@,
{
    let mut r = String::from_str(a);
    r.append(b);
    r
}

pub fn concat3(a: &str, b: &str, c: &str) -> (r: String)
    ensures
        r@ == a@ + b@ + c@,
{
    let mut r = String::from_str(a);
    r.append(b);
    r.append(c);
    r
}

pub fn str_eq(a: &str, b: &str) -> (r: bool)
    ensures
        r == (a@ == b@),
{
    let x = String::from_str(a);
    let y = String::from_str(b);
    x == y
}

/// Lexicographic comparison of two strings (code point order).
pub fn str_lt(a: &str, b: &str) -> (r: bool)
    ensures
        r == seq_lt(a@, b@),
{
    let x = chars_of(a);
    let y = chars_of(b);
    let mut i: usize = 0;
    assert(a@.skip(0) =~= a@);
    assert(b@.skip(0) =~= b@);
    while i < x.len() && i < y.len() && x[i] == y[i]
        invariant
            x@ == a@,
            y@ == b@,
            i <= x.len(),
            i <= y.len(),
            x@.take(i as int) == y@.take(i as int),
            seq_lt(a@, b@) == seq_lt(a@.skip(i as int), b@.skip(i as int)),
        decreases x.len() - i,
    {
        assert(a@.skip(i as int).drop_first() =~= a@.skip(i + 1));
        assert(b@.skip(i as int).drop_first() =~= b@.skip(i + 1));
        i = i + 1;
        assert(x@.take(i as int) =~= y@.take(i as int));
    }
    if i == x.len() {
        i < y.len()
    } else if i == y.len() {
        false
    } else {
        assert(a@.skip(i as int)[0] == x[i as int]);
        assert(b@.skip(i as int)[0] == y[i as int]);
        x[i] < y[i]
    }
}

// ---------------------------------------------------------------------------
// Searching
// ---------------------------------------------------------------------------

pub open spec fn matches_at(h: Seq<char>, p: Seq<char>, i: int) -> bool {
    0 <= i && i + p.len() <= h.len() && h.subrange(i, i + p.len()) == p
}

/// Index of the first occurrence of `p` in `h` at or after `start`.
pub open spec fn find_from_spec(h: Seq<char>, p: Seq<char>, start: int) -> Option<int>
    decreases h.len() + 1 - start,
{
    if start < 0 || start + p.len() > h.len() {
        None
    } else if matches_at(h, p, start) {
        Some(start)
    } else {
        find_from_spec(h, p, start + 1)
    }
}

pub open spec fn find_spec(h: Seq<char>, p: Seq<char>) -> Option<int> {
    find_from_spec(h, p, 0)
}

pub open spec fn contains_spec(h: Seq<char>, p: Seq<char>) -> bool {
    find_spec(h, p) is Some
}

pub open spec fn starts_with_spec(h: Seq<char>, p: Seq<char>) -> bool {
    p.len() <= h.len() && h.take(p.len() as int) == p
}

pub proof fn lemma_find_from_bounds(h: Seq<char>, p: Seq<char>, start: int)
    ensures
        find_from_spec(h, p, start) matches Some(r) ==> start <= r && r + p.len() <= h.len()
            && matches_at(h, p, r),
        find_from_spec(h, p, start) matches Some(r) ==> forall|j: int|
            start <= j < r ==> !matches_at(h, p, j),
        find_from_spec(h, p, start) is None && 0 <= start ==> forall|j: int|
            start <= j ==> !matches_at(h, p, j),
    decreases h.len() + 1 - start,
{
    if start < 0 || start + p.len() > h.len() {
    } else if matches_at(h, p, start) {
    } else {
        lemma_find_from_bounds(h, p, start + 1);
    }
}

fn matches_at_exec(h: &Vec<char>, p: &Vec<char>, i: usize) -> (r: bool)
    requires
        i + p.len() <= h.len(),
    ensures
        r == matches_at(h@, p@, i as int),
{
    let mut k: usize = 0;
    while k < p.len()
        invariant
            i + p.len() <= h.len(),
            k <= p.len(),
            forall|j: int| 0 <= j < k ==> h@[i + j] == p@[j],
        decreases p.len() - k,
    {
        if h[i + k] != p[k] {
            assert(h@.subrange(i as int, i + p.len())[k as int] != p@[k as int]);
            return false;
        }
        k = k + 1;
    }
    assert(h@.subrange(i as int, i + p.len()) =~= p@);
    true
}

pub fn find_from(h: &Vec<char>, p: &Vec<char>, start: usize) -> (r: Option<usize>)
    ensures
        match r {
            Some(i) => find_from_spec(h@, p@, start as int) == Some(i as int),
            None => find_from_spec(h@, p@, start as int) is None,
        },
{
    if start > h.len() || h.len() - start < p.len() {
        return None;
    }
    let mut i: usize = start;
    loop
        invariant
            start <= i,
            i + p.len() <= h.len(),
            find_from_spec(h@, p@, start as int) == find_from_spec(h@, p@, i as int),
        decreases h.len() - i,
    {
        if matches_at_exec(h, p, i) {
            return Some(i);
        }
        if i == h.len() - p.len() {
            assert(find_from_spec(h@, p@, i + 1) is None);
            return None;
        }
        i = i + 1;
    }
}

pub fn contains_str(h: &str, p: &str) -> (r: bool)
    ensures
        r == contains_spec(h@, p@),
{
    let hv = chars_of(h);
    let pv = chars_of(p);
    find_from(&hv, &pv, 0).is_some()
}

pub fn starts_with_str(h: &str, p: &str) -> (r: bool)
    ensures
        r == starts_with_spec(h@, p@),
{
    let hv = chars_of(h);
    let pv = chars_of(p);
    if pv.len() > hv.len() {
        return false;
    }
    let r = matches_at_exec(&hv, &pv, 0);
    assert(hv@.subrange(0, pv@.len() as int) =~= hv@.take(pv@.len() as int));
    r
}

pub open spec fn ends_with_spec(h: Seq<char>, p: Seq<char>) -> bool {
    p.len() <= h.len() && h.skip(h.len() - p.len()) == p
}

pub fn ends_with_str(h: &str, p: &str) -> (r: bool)
    ensures
        r == ends_with_spec(h@, p@),
{
    let hv = chars_of(h);
    let pv = chars_of(p);
    if pv.len() > hv.len() {
        return false;
    }
    let start = hv.len() - pv.len();
    let r = matches_at_exec(&hv, &pv, start);
    assert(hv@.subrange(start as int, start + pv@.len()) =~= hv@.skip(start as int));
    r
}

/// The characters of `v` from `from` up to `to`, as a `String`.
pub fn slice_string(v: &Vec<char>, from: usize, to: usize) -> (s: String)
    requires
        from <= to <= v.len(),
    ensures
        s@ == v@.subrange(from as int, to as int),
{
    let mut s = String::new();
    let mut i: usize = from;
    while i < to
        invariant
            from <= i <= to <= v.len(),
            s@ == v@.subrange(from as int, i as int),
        decreases to - i,
    {
        push_char(&mut s, v[i]);
        i = i + 1;
        assert(s@ =~= v@.subrange(from as int, i as int));
    }
    s
}

// ---------------------------------------------------------------------------
// Splitting and joining (the semantics of `str::split` with a string pattern)
// ---------------------------------------------------------------------------

pub open spec fn split_spec(s: Seq<char>, sep: Seq<char>) -> Seq<Seq<char>>
    decreases s.len(),
{
    if sep.len() == 0 {
        seq![Seq::<char>::empty()] + Seq::new(s.len(), |i: int| seq![s[i]]) + seq![
            Seq::<char>::empty(),
        ]
    } else {
        match find_spec(s, sep) {
            Some(i) => {
                proof {
                    lemma_find_from_bounds(s, sep, 0);
                }
                seq![s.take(i)] + split_spec(s.skip(i + sep.len()), sep)
            },
            None => seq![s],
        }
    }
}

/// A split always has at least one part.
pub proof fn lemma_split_nonempty(s: Seq<char>, sep: Seq<char>)
    ensures
        split_spec(s, sep).len() >= 1,
    decreases s.len(),
{
    if sep.len() > 0 {
        match find_spec(s, sep) {
            Some(i) => {
                lemma_find_from_bounds(s, sep, 0);
                lemma_split_nonempty(s.skip(i + sep.len()), sep);
            },
            None => {},
        }
    }
}

pub open spec fn views(v: Seq<String>) -> Seq<Seq<char>> {
    v.map_values(|x: String| x@)
}

pub fn split_str(s: &str, sep: &str) -> (parts: Vec<String>)
    ensures
        views(parts@) == split_spec(s@, sep@),
{
    let sv = chars_of(s);
    let pv = chars_of(sep);
    let mut parts: Vec<String> = Vec::new();
    if pv.len() == 0 {
        parts.push(String::new());
        let mut i: usize = 0;
        while i < sv.len()
            invariant
                sv@ == s@,
                i <= sv.len(),
                views(parts@) == seq![Seq::<char>::empty()] + Seq::new(
                    i as nat,
                    |k: int| seq![s@[k]],
                ),
            decreases sv.len() - i,
        {
            let piece = slice_string(&sv, i, i + 1);
            assert(piece@ =~= seq![s@[i as int]]);
            let ghost old_views = views(parts@);
            parts.push(piece);
            assert(views(parts@) =~= old_views.push(piece@));
            i = i + 1;
            assert(views(parts@) =~= seq![Seq::<char>::empty()] + Seq::new(
                i as nat,
                |k: int| seq![s@[k]],
            ));
        }
        parts.push(String::new());
        assert(views(parts@) =~= split_spec(s@, sep@));
        return parts;
    }
    let mut pos: usize = 0;
    assert(s@.skip(0) =~= s@);
    assert(views(parts@) =~= Seq::<Seq<char>>::empty());
    loop
        invariant
            sv@ == s@,
            pv@ == sep@,
            pv.len() > 0,
            pos <= sv.len(),
            views(parts@) + split_spec(s@.skip(pos as int), sep@) == split_spec(s@, sep@),
        decreases sv.len() - pos,
    {
        let ghost rest = s@.skip(pos as int);
        match find_from(&sv, &pv, pos) {
            Some(i) => {
                proof {
                    lemma_find_shift(s@, sep@, pos as int);
                    lemma_find_from_bounds(s@, sep@, pos as int);
                }
                let piece = slice_string(&sv, pos, i);
                let ghost old_parts = views(parts@);
                parts.push(piece);
                assert(rest.take(i - pos) =~= s@.subrange(pos as int, i as int));
                assert(rest.skip(i - pos + sep@.len()) =~= s@.skip(i + sep@.len()));
                assert(views(parts@) =~= old_parts.push(piece@));
                assert(split_spec(rest, sep@) == seq![rest.take(i - pos)] + split_spec(
                    rest.skip(i - pos + sep@.len()),
                    sep@,
                ));
                assert(old_parts + split_spec(rest, sep@) =~= views(parts@) + split_spec(
                    s@.skip(i + sep@.len()),
                    sep@,
                ));
                pos = i + pv.len();
            },
            None => {
                proof {
                    lemma_find_shift(s@, sep@, pos as int);
                }
                let piece = slice_string(&sv, pos, sv.len());
                let ghost old_parts = views(parts@);
                parts.push(piece);
                assert(piece@ =~= rest);
                assert(views(parts@) =~= old_parts.push(piece@));
                assert(views(parts@) =~= old_parts + split_spec(rest, sep@));
                return parts;
            },
        }
    }
}

/// Searching from `start` in `h` finds, shifted by `start`, what searching the
/// suffix of `h` from `start` finds.
pub proof fn lemma_find_shift(h: Seq<char>, p: Seq<char>, start: int)
    requires
        0 <= start <= h.len(),
    ensures
        match find_from_spec(h, p, start) {
            Some(r) => find_spec(h.skip(start), p) == Some(r - start),
            None => find_spec(h.skip(start), p) is None,
        },
{
    lemma_find_shift_rec(h, p, start, 0);
}

proof fn lemma_find_shift_rec(h: Seq<char>, p: Seq<char>, start: int, k: int)
    requires
        0 <= start <= h.len(),
        0 <= k,
    ensures
        match find_from_spec(h, p, start + k) {
            Some(r) => find_from_spec(h.skip(start), p, k) == Some(r - start),
            None => find_from_spec(h.skip(start), p, k) is None,
        },
    decreases h.len() + 1 - start - k,
{
    let t = h.skip(start);
    if start + k + p.len() > h.len() {
    } else {
        assert(t.subrange(k, k + p.len()) =~= h.subrange(start + k, start + k + p.len()));
        if matches_at(h, p, start + k) {
        } else {
            lemma_find_shift_rec(h, p, start, k + 1);
        }
    }
}

pub open spec fn join_spec(parts: Seq<Seq<char>>, sep: Seq<char>) -> Seq<char>
    decreases parts.len(),
{
    if parts.len() == 0 {
        Seq::empty()
    } else if parts.len() == 1 {
        parts[0]
    } else {
        join_spec(parts.drop_last(), sep) + sep + parts.last()
    }
}

pub fn join_strs(parts: &Vec<String>, sep: &str) -> (r: String)
    ensures
        r@ == join_spec(views(parts@), sep@),
{
    let mut r = String::new();
    let mut i: usize = 0;
    while i < parts.len()
        invariant
            i <= parts.len(),
            r@ == join_spec(views(parts@.take(i as int)), sep@),
        decreases parts.len() - i,
    {
        assert(views(parts@.take(i + 1)).drop_last() =~= views(parts@.take(i as int)));
        if i > 0 {
            r.append(sep);
        }
        r.append(parts[i].as_str());
        i = i + 1;
        if i == 1 {
            assert(r@ =~= join_spec(views(parts@.take(i as int)), sep@));
        }
    }
    assert(parts@.take(parts.len() as int) =~= parts@);
    r
}

// ---------------------------------------------------------------------------
// Decimal numbers
// ---------------------------------------------------------------------------

pub open spec fn digit_char(d: int) -> char {
    if d == 0 {
        '0'
    } else if d == 1 {
        '1'
    } else if d == 2 {
        '2'
    } else if d == 3 {
        '3'
    } else if d == 4 {
        '4'
    } else if d == 5 {
        '5'
    } else if d == 6 {
        '6'
    } else if d == 7 {
        '7'
    } else if d == 8 {
        '8'
    } else {
        '9'
    }
}

pub open spec fn is_digit(c: char) -> bool {
    '0' <= c && c <= '9'
}

pub open spec fn digit_value(c: char) -> int {
    (c as int) - ('0' as int)
}

/// Decimal representation of a natural number, without leading zeros.
pub open spec fn nat_decimal(n: nat) -> Seq<char>
    decreases n,
{
    if n < 10 {
        seq![digit_char(n as int)]
    } else {
        nat_decimal(n / 10).push(digit_char((n % 10) as int))
    }
}

/// Decimal representation of an integer, as `Display` writes it.
pub open spec fn int_decimal(i: int) -> Seq<char> {
    if i < 0 {
        seq!['-'] + nat_decimal((-i) as nat)
    } else {
        nat_decimal(i as nat)
    }
}

fn digit_of(d: u64) -> (c: char)
    requires
        d < 10,
    ensures
        c == digit_char(d as int),
{
    if d == 0 {
        '0'
    } else if d == 1 {
        '1'
    } else if d == 2 {
        '2'
    } else if d == 3 {
        '3'
    } else if d == 4 {
        '4'
    } else if d == 5 {
        '5'
    } else if d == 6 {
        '6'
    } else if d == 7 {
        '7'
    } else if d == 8 {
        '8'
    } else {
        '9'
    }
}

pub fn u64_to_string(n: u64) -> (s: String)
    ensures
        s@ == nat_decimal(n as nat),
    decreases n,
{
    if n < 10 {
        let mut s = String::new();
        push_char(&mut s, digit_of(n));
        assert(s@ =~= nat_decimal(n as nat));
        s
    } else {
        let mut s = u64_to_string(n / 10);
        push_char(&mut s, digit_of(n % 10));
        s
    }
}

pub fn u128_to_string(n: u128) -> (s: String)
    ensures
        s@ == nat_decimal(n as nat),
    decreases n,
{
    if n < 10 {
        let mut s = String::new();
        push_char(&mut s, digit_of(n as u64));
        assert(s@ =~= nat_decimal(n as nat));
        s
    } else {
        let mut s = u128_to_string(n / 10);
        push_char(&mut s, digit_of((n % 10) as u64));
        s
    }
}

pub fn i128_to_string(i: i128) -> (s: String)
    ensures
        s@ == int_decimal(i as int),
{
    if i < 0 {
        let m: u128 = (-(i + 1)) as u128 + 1;
        let tail = u128_to_string(m);
        let mut s = String::new();
        push_char(&mut s, '-');
        s.append(tail.as_str());
        assert(s@ =~= int_decimal(i as int));
        s
    } else {
        u128_to_string(i as u128)
    }
}

pub fn usize_to_string(n: usize) -> (s: String)
    ensures
        s@ == nat_decimal(n as nat),
{
    u64_to_string(n as u64)
}

pub fn i64_to_string(i: i64) -> (s: String)
    ensures
        s@ == int_decimal(i as int),
{
    if i < 0 {
        let m: u64 = (0i128 - (i as i128)) as u64;
        let tail = u64_to_string(m);
        let mut s = String::new();
        push_char(&mut s, '-');
        s.append(tail.as_str());
        assert(s@ =~= int_decimal(i as int));
        s
    } else {
        u64_to_string(i as u64)
    }
}

pub open spec fn all_digits(s: Seq<char>) -> bool {
    forall|i: int| 0 <= i < s.len() ==> is_digit(#[trigger] s[i])
}

/// Value of a string of decimal digits.
pub open spec fn digits_value(s: Seq<char>) -> nat
    decreases s.len(),
{
    if s.len() == 0 {
        0
    } else {
        (digits_value(s.drop_last()) * 10 + digit_value(s.last())) as nat
    }
}

/// What `str::parse` accepts for an integer, before range checking: an
/// optional sign (`-` only where `signed`) followed by at least one digit.
pub open spec fn int_literal_value(s: Seq<char>, signed: bool) -> Option<int> {
    if s.len() > 0 && s[0] == '+' {
        if s.len() > 1 && all_digits(s.drop_first()) {
            Some(digits_value(s.drop_first()) as int)
        } else {
            None
        }
    } else if signed && s.len() > 0 && s[0] == '-' {
        if s.len() > 1 && all_digits(s.drop_first()) {
            Some(-(digits_value(s.drop_first()) as int))
        } else {
            None
        }
    } else if s.len() > 0 && all_digits(s) {
        Some(digits_value(s) as int)
    } else {
        None
    }
}

/// What `str::parse::<i64>` gives.
pub open spec fn parse_i64_spec(s: Seq<char>) -> Option<i64> {
    match int_literal_value(s, true) {
        Some(v) => if i64::MIN <= v <= i64::MAX {
            Some(v as i64)
        } else {
            None
        },
        None => None,
    }
}

/// What `str::parse::<usize>` gives.
pub open spec fn parse_usize_spec(s: Seq<char>) -> Option<usize> {
    match int_literal_value(s, false) {
        Some(v) => if 0 <= v <= usize::MAX {
            Some(v as usize)
        } else {
            None
        },
        None => None,
    }
}

proof fn lemma_digits_value_mono(s: Seq<char>, k: int)
    requires
        0 <= k <= s.len(),
        all_digits(s),
    ensures
        digits_value(s.take(k)) <= digits_value(s),
    decreases s.len() - k,
{
    if k < s.len() {
        lemma_digits_value_mono(s, k + 1);
        assert(s.take(k + 1).drop_last() =~= s.take(k));
        assert(is_digit(s[k]));
    } else {
        assert(s.take(k) =~= s);
    }
}

/// Value of the digits of `v` from `from`, saturating above `limit + 1`.
fn digits_bounded(v: &Vec<char>, from: usize, limit: u128) -> (r: Option<u128>)
    requires
        from <= v.len(),
        limit < 0x1_0000_0000_0000_0000_0000,
    ensures
        match r {
            Some(x) => from < v.len() && all_digits(v@.skip(from as int)) && x == digits_value(
                v@.skip(from as int),
            ) && x <= limit,
            None => !(from < v.len() && all_digits(v@.skip(from as int)) && digits_value(
                v@.skip(from as int),
            ) <= limit),
        },
{
    if from == v.len() {
        return None;
    }
    let ghost t = v@.skip(from as int);
    let mut acc: u128 = 0;
    let mut i: usize = from;
    while i < v.len()
        invariant
            from <= i <= v.len(),
            t == v@.skip(from as int),
            limit < 0x1_0000_0000_0000_0000_0000,
            all_digits(t.take(i - from)),
            acc == digits_value(t.take(i - from)),
            acc <= limit,
        decreases v.len() - i,
    {
        let c = v[i];
        assert(t[i - from] == c);
        if !('0' <= c && c <= '9') {
            assert(!all_digits(t));
            return None;
        }
        let d: u128 = ((c as u32) - ('0' as u32)) as u128;
        assert(t.take(i - from + 1).drop_last() =~= t.take(i - from));
        assert(all_digits(t.take(i - from + 1)));
        assert(digits_value(t.take(i - from + 1)) == acc * 10 + d);
        let next: u128 = acc * 10 + d;
        if next > limit {
            proof {
                if all_digits(t) {
                    lemma_digits_value_mono(t, i - from + 1);
                }
            }
            return None;
        }
        acc = next;
        i = i + 1;
    }
    assert(t.take(i - from) =~= t);
    Some(acc)
}

/// `str::parse::<i64>`, written out.
pub fn parse_i64(s: &str) -> (r: Option<i64>)
    ensures
        r == parse_i64_spec(s@),
{
    let v = chars_of(s);
    if v.len() > 0 && (v[0] == '+' || v[0] == '-') {
        let neg = v[0] == '-';
        if v.len() == 1 {
            return None;
        }
        assert(v@.skip(1) =~= s@.drop_first());
        let limit: u128 = if neg {
            9223372036854775808
        } else {
            9223372036854775807
        };
        match digits_bounded(&v, 1, limit) {
            Some(x) => {
                if neg {
                    Some((0i128 - (x as i128)) as i64)
                } else {
                    Some(x as i64)
                }
            },
            None => None,
        }
    } else {
        assert(v@.skip(0) =~= s@);
        match digits_bounded(&v, 0, 9223372036854775807) {
            Some(x) => Some(x as i64),
            None => None,
        }
    }
}

/// `str::parse::<usize>`, written out.
pub fn parse_usize(s: &str) -> (r: Option<usize>)
    ensures
        r == parse_usize_spec(s@),
{
    let v = chars_of(s);
    let limit: u128 = usize::MAX as u128;
    if v.len() > 0 && v[0] == '+' {
        if v.len() == 1 {
            return None;
        }
        assert(v@.skip(1) =~= s@.drop_first());
        match digits_bounded(&v, 1, limit) {
            Some(x) => Some(x as usize),
            None => None,
        }
    } else {
        assert(v@.skip(0) =~= s@);
        match digits_bounded(&v, 0, limit) {
            Some(x) => Some(x as usize),
            None => None,
        }
    }
}

// ---------------------------------------------------------------------------
// Floating-point literals (the grammar that `str::parse::<f64>` accepts)
// ---------------------------------------------------------------------------

pub open spec fn ascii_lower(c: char) -> int {
    if 'A' <= c && c <= 'Z' {
        (c as int) + 32
    } else {
        c as int
    }
}

/// ASCII case-insensitive equality.
pub open spec fn eq_ignore_ascii_case(a: Seq<char>, b: Seq<char>) -> bool {
    a.len() == b.len() && forall|i: int| 0 <= i < a.len() ==> ascii_lower(a[i]) == ascii_lower(b[i])
}

pub open spec fn first_index_of(s: Seq<char>, a: char, b: char) -> Option<int>
    decreases s.len(),
{
    if s.len() == 0 {
        None
    } else if s[0] == a || s[0] == b {
        Some(0)
    } else {
        match first_index_of(s.drop_first(), a, b) {
            Some(i) => Some(i + 1),
            None => None,
        }
    }
}

/// `Digit+ | Digit+ '.' Digit* | Digit* '.' Digit+`
pub open spec fn float_mantissa(m: Seq<char>) -> bool {
    match first_index_of(m, '.', '.') {
        None => m.len() > 0 && all_digits(m),
        Some(d) => all_digits(m.take(d)) && all_digits(m.skip(d + 1)) && m.len() > 1,
    }
}

/// `Sign? Digit+`
pub open spec fn float_exponent(x: Seq<char>) -> bool {
    if x.len() > 0 && (x[0] == '+' || x[0] == '-') {
        x.len() > 1 && all_digits(x.drop_first())
    } else {
        x.len() > 0 && all_digits(x)
    }
}

pub open spec fn float_unsigned(t: Seq<char>) -> bool {
    ||| eq_ignore_ascii_case(t, seq!['i', 'n', 'f'])
    ||| eq_ignore_ascii_case(t, seq!['i', 'n', 'f', 'i', 'n', 'i', 't', 'y'])
    ||| eq_ignore_ascii_case(t, seq!['n', 'a', 'n'])
    ||| match first_index_of(t, 'e', 'E') {
        None => float_mantissa(t),
        Some(k) => float_mantissa(t.take(k)) && float_exponent(t.skip(k + 1)),
    }
}

/// The strings that `str::parse::<f64>` accepts.
pub open spec fn is_float_literal_spec(s: Seq<char>) -> bool {
    if s.len() > 0 && (s[0] == '+' || s[0] == '-') {
        float_unsigned(s.drop_first())
    } else {
        float_unsigned(s)
    }
}

fn all_digits_range(v: &Vec<char>, from: usize, to: usize) -> (r: bool)
    requires
        from <= to <= v.len(),
    ensures
        r == all_digits(v@.subrange(from as int, to as int)),
{
    let mut i: usize = from;
    while i < to
        invariant
            from <= i <= to <= v.len(),
            all_digits(v@.subrange(from as int, i as int)),
        decreases to - i,
    {
        if !('0' <= v[i] && v[i] <= '9') {
            assert(v@.subrange(from as int, to as int)[i - from] == v@[i as int]);
            return false;
        }
        i = i + 1;
        assert forall|j: int| 0 <= j < i - from implies is_digit(
            #[trigger] v@.subrange(from as int, i as int)[j],
        ) by {
            if j < i - 1 - from {
                assert(v@.subrange(from as int, i as int)[j] == v@.subrange(
                    from as int,
                    i - 1,
                )[j]);
            }
        }
    }
    true
}

fn first_index_range(v: &Vec<char>, from: usize, to: usize, a: char, b: char) -> (r: Option<
    usize,
>)
    requires
        from <= to <= v.len(),
    ensures
        match r {
            Some(i) => from <= i < to && first_index_of(v@.subrange(from as int, to as int), a, b)
                == Some(i - from),
            None => first_index_of(v@.subrange(from as int, to as int), a, b) is None,
        },
{
    let mut i: usize = to;
    let mut found: Option<usize> = None;
    while i > from
        invariant
            from <= i <= to <= v.len(),
            match found {
                Some(k) => i <= k < to && first_index_of(v@.subrange(i as int, to as int), a, b)
                    == Some(k - i),
                None => first_index_of(v@.subrange(i as int, to as int), a, b) is None,
            },
        decreases i - from,
    {
        i = i - 1;
        assert(v@.subrange(i as int, to as int).drop_first() =~= v@.subrange(i + 1, to as int));
        if v[i] == a || v[i] == b {
            found = Some(i);
        }
    }
    found
}

fn ascii_lower_exec(c: char) -> (r: u32)
    ensures
        r == ascii_lower(c),
{
    if 'A' <= c && c <= 'Z' {
        (c as u32) + 32
    } else {
        c as u32
    }
}

fn eq_ignore_case_range(v: &Vec<char>, from: usize, to: usize, w: &Vec<char>) -> (r: bool)
    requires
        from <= to <= v.len(),
    ensures
        r == eq_ignore_ascii_case(v@.subrange(from as int, to as int), w@),
{
    if to - from != w.len() {
        return false;
    }
    let mut i: usize = 0;
    while i < w.len()
        invariant
            from <= to <= v.len(),
            to - from == w.len(),
            i <= w.len(),
            forall|j: int|
                0 <= j < i ==> ascii_lower(v@.subrange(from as int, to as int)[j]) == ascii_lower(
                    w@[j],
                ),
        decreases w.len() - i,
    {
        if ascii_lower_exec(v[from + i]) != ascii_lower_exec(w[i]) {
            assert(v@.subrange(from as int, to as int)[i as int] == v@[from + i]);
            return false;
        }
        i = i + 1;
    }
    true
}

fn float_mantissa_range(v: &Vec<char>, from: usize, to: usize) -> (r: bool)
    requires
        from <= to <= v.len(),
    ensures
        r == float_mantissa(v@.subrange(from as int, to as int)),
{
    let ghost m = v@.subrange(from as int, to as int);
    match first_index_range(v, from, to, '.', '.') {
        None => to > from && all_digits_range(v, from, to),
        Some(d) => {
            assert(m.take(d - from) =~= v@.subrange(from as int, d as int));
            assert(m.skip(d - from + 1) =~= v@.subrange(d + 1, to as int));
            all_digits_range(v, from, d) && all_digits_range(v, d + 1, to) && to - from > 1
        },
    }
}

fn float_exponent_range(v: &Vec<char>, from: usize, to: usize) -> (r: bool)
    requires
        from <= to <= v.len(),
    ensures
        r == float_exponent(v@.subrange(from as int, to as int)),
{
    let ghost x = v@.subrange(from as int, to as int);
    if to > from && (v[from] == '+' || v[from] == '-') {
        assert(x.drop_first() =~= v@.subrange(from + 1, to as int));
        to - from > 1 && all_digits_range(v, from + 1, to)
    } else {
        to > from && all_digits_range(v, from, to)
    }
}

fn float_unsigned_range(v: &Vec<char>, from: usize) -> (r: bool)
    requires
        from <= v.len(),
    ensures
        r == float_unsigned(v@.skip(from as int)),
{
    let to: usize = v.len();
    let ghost t = v@.skip(from as int);
    assert(t =~= v@.subrange(from as int, to as int));
    let inf: Vec<char> = vec!['i', 'n', 'f'];
    let infinity: Vec<char> = vec!['i', 'n', 'f', 'i', 'n', 'i', 't', 'y'];
    let nan: Vec<char> = vec!['n', 'a', 'n'];
    assert(inf@ =~= seq!['i', 'n', 'f']);
    assert(infinity@ =~= seq!['i', 'n', 'f', 'i', 'n', 'i', 't', 'y']);
    assert(nan@ =~= seq!['n', 'a', 'n']);
    if eq_ignore_case_range(v, from, to, &inf) || eq_ignore_case_range(v, from, to, &infinity)
        || eq_ignore_case_range(v, from, to, &nan) {
        return true;
    }
    match first_index_range(v, from, to, 'e', 'E') {
        None => float_mantissa_range(v, from, to),
        Some(k) => {
            assert(t.take(k - from) =~= v@.subrange(from as int, k as int));
            assert(t.skip(k - from + 1) =~= v@.subrange(k + 1, to as int));
            float_mantissa_range(v, from, k) && float_exponent_range(v, k + 1, to)
        },
    }
}

/// Whether `str::parse::<f64>` accepts the string.
pub fn is_float_literal(s: &str) -> (r: bool)
    ensures
        r == is_float_literal_spec(s@),
{
    let v = chars_of(s);
    if v.len() > 0 && (v[0] == '+' || v[0] == '-') {
        assert(v@.skip(1) =~= s@.drop_first());
        float_unsigned_range(&v, 1)
    } else {
        assert(v@.skip(0) =~= s@);
        float_unsigned_range(&v, 0)
    }
}

} // verus!

verus! {

/// The elements of `v` in reverse order.
pub fn reverse_vec<T>(v: Vec<T>) -> (r: Vec<T>)
    ensures
        r@.len() == v@.len(),
        forall|j: int| 0 <= j < v@.len() ==> r@[j] == v@[v@.len() - 1 - j],
{
    let ghost orig = v@;
    let mut v = v;
    let mut r: Vec<T> = Vec::new();
    while v.len() > 0
        invariant
            v@ == orig.take(v@.len() as int),
            r@.len() + v@.len() == orig.len(),
            forall|j: int| 0 <= j < r@.len() ==> r@[j] == orig[orig.len() - 1 - j],
        decreases v.len(),
    {
        let x = v.pop().unwrap();
        r.push(x);
        assert(v@ =~= orig.take(v@.len() as int));
    }
    r
}

} // verus!
