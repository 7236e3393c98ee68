//! The `ConfigEnv` trait through which sources read files and environment
//! variables, and `MockEnv`, an in-memory environment for tests.
use vstd::prelude::*;

use crate::assoc::{
    assoc_find, assoc_get, assoc_insert, assoc_map, assoc_remove, keyed, lemma_get_index,
    sorted_keys,
};
use crate::text::{concat2, starts_with_spec, starts_with_str, IntoText};

verus! {

/// Why a file could not be read.
#[derive(Debug, Clone, Copy, PartialEq, Eq, Structural)]
pub enum ReadErrorKind {
    /// The file does not exist.
    NotFound,
    /// The file exists but may not be read.
    PermissionDenied,
    /// Any other I/O failure (not UTF-8, a device error, ...).
    Other,
}

/// A failed file read: its kind and the message that describes it.
#[derive(Debug)]
pub struct ReadError {
    pub kind: ReadErrorKind,
    pub message: String,
}

impl ReadError {
    pub fn new(kind: ReadErrorKind, message: String) -> (r: Self)
        ensures
            r.kind == kind,
            r.message@ == message@,
    {
        ReadError { kind, message }
    }

    /// The kind of failure.
    pub fn kind(&self) -> (r: ReadErrorKind)
        ensures
            r == self.kind,
    {
        self.kind
    }

    /// The message, as `Display` shows it.
    pub fn to_display_string(&self) -> (r: String)
        ensures
            r@ == self.message@,
    {
        self.message.clone()
    }
}

/// A file read as the model sees it: the content, or the failure's kind
/// and message.
pub open spec fn read_view(r: Result<String, ReadError>) -> Result<Seq<char>, (ReadErrorKind, Seq<char>)> {
    match r {
        Ok(s) => Ok(s@),
        Err(e) => Err((e.kind, e.message@)),
    }
}

/// Environment trait for configuration I/O: file system and environment
/// variable access, injected so that tests can replace it.
///
/// Each method's result is related to its argument by a spec function of
/// the trait. For an environment that states nothing (the real file system
/// and process environment), any result is possible; an environment with a
/// model, such as `MockEnv`, states exactly what each call gives.
pub trait ConfigEnv: Send + Sync {
    /// Whether reading the file at `path` may give `r`.
    open spec fn reads(&self, path: Seq<char>, r: Result<Seq<char>, (ReadErrorKind, Seq<char>)>) -> bool {
        true
    }

    /// Whether a file is there at `path` may be answered `r`.
    open spec fn has_file(&self, path: Seq<char>, r: bool) -> bool {
        true
    }

    /// Whether a directory is there at `path` may be answered `r`.
    open spec fn has_directory(&self, path: Seq<char>, r: bool) -> bool {
        true
    }

    /// Whether the variable `name` may be given as `r`.
    open spec fn var_is(&self, name: Seq<char>, r: Option<Seq<char>>) -> bool {
        true
    }

    /// Whether the variables listed under `prefix` may be `r`.
    open spec fn lists_prefixed(&self, prefix: Seq<char>, r: Seq<(Seq<char>, Seq<char>)>) -> bool {
        true
    }

    /// Whether all the variables listed may be `r`.
    open spec fn lists_all(&self, r: Seq<(Seq<char>, Seq<char>)>) -> bool {
        true
    }

    /// Read a file's contents as a UTF-8 string.
    fn read_file(&self, path: &str) -> (r: Result<String, ReadError>)
        ensures
            self.reads(path@, read_view(r)),
    ;

    /// Check if a file exists.
    fn file_exists(&self, path: &str) -> (r: bool)
        ensures
            self.has_file(path@, r),
    ;

    /// Check if a path is a directory.
    fn is_directory(&self, path: &str) -> (r: bool)
        ensures
            self.has_directory(path@, r),
    ;

    /// Get an environment variable by name (`None` if it is not set).
    fn get_env(&self, name: &str) -> (r: Option<String>)
        ensures
            self.var_is(
                name@,
                match r {
                    Some(v) => Some(v@),
                    None => None,
                },
            ),
    ;

    /// All environment variables whose name starts with the prefix, as
    /// (full_name, value).
    fn env_vars_with_prefix(&self, prefix: &str) -> (r: Vec<(String, String)>)
        ensures
            self.lists_prefixed(prefix@, pair_views(r@)),
    ;

    /// All environment variables.
    fn all_env_vars(&self) -> (r: Vec<(String, String)>)
        ensures
            self.lists_all(pair_views(r@)),
    ;
}

/// Mock file state for testing.
#[derive(Debug)]
pub enum MockFile {
    Content(String),
    NotFound,
    PermissionDenied,
}

pub ghost enum MockFileV {
    Content(Seq<char>),
    NotFound,
    PermissionDenied,
}

impl View for MockFile {
    type V = MockFileV;

    open spec fn view(&self) -> MockFileV {
        match self {
            MockFile::Content(c) => MockFileV::Content(c@),
            MockFile::NotFound => MockFileV::NotFound,
            MockFile::PermissionDenied => MockFileV::PermissionDenied,
        }
    }
}

pub open spec fn file_view(f: MockFile) -> MockFileV {
    f@
}

pub open spec fn text_of(s: String) -> Seq<char> {
    s@
}

/// The model of a mock environment.
pub ghost struct MockEnvV {
    pub files: Map<Seq<char>, MockFileV>,
    pub env_vars: Map<Seq<char>, Seq<char>>,
    pub directories: Seq<Seq<char>>,
}

/// Mock environment for testing configuration loading: files, environment
/// variables and directories held in memory.
#[derive(Debug)]
pub struct MockEnv {
    files: Vec<(String, MockFile)>,
    env_vars: Vec<(String, String)>,
    directories: Vec<String>,
}

pub open spec fn strings_view(v: Seq<String>) -> Seq<Seq<char>> {
    v.map_values(|s: String| s@)
}

pub open spec fn pair_views(v: Seq<(String, String)>) -> Seq<(Seq<char>, Seq<char>)> {
    v.map_values(|p: (String, String)| (p.0@, p.1@))
}

impl MockEnv {
    #[verifier::type_invariant]
    spec fn wf(self) -> bool {
        &&& sorted_keys(keyed(self.files@))
        &&& sorted_keys(keyed(self.env_vars@))
    }

    /// The environment variables with their values, in name order.
    pub closed spec fn env_entries(self) -> Seq<(Seq<char>, Seq<char>)> {
        pair_views(self.env_vars@)
    }

    /// The entries are the sorted list that stands for the variable map.
    proof fn lemma_entries_sorted(self)
        requires
            sorted_keys(keyed(self.env_vars@)),
        ensures
            sorted_entries(self@.env_vars) == self.env_entries(),
    {
        let es = self.env_entries();
        let m = self@.env_vars;
        lemma_pair_views(self.env_vars@);
        assert(assoc_map(es) =~= m);
        let c = sorted_entries(m);
        assert(sorted_keys(c) && assoc_map(c) == m);
        assert forall|k: Seq<char>| #[trigger] assoc_get(c, k) == assoc_get(es, k) by {
            assert(assoc_map(c).dom().contains(k) == assoc_map(es).dom().contains(k));
            if assoc_get(c, k) is Some {
                assert(assoc_map(c)[k] == assoc_map(es)[k]);
            }
        }
        crate::assoc::lemma_sorted_ext(c, es);
    }
}

impl View for MockEnv {
    type V = MockEnvV;

    closed spec fn view(&self) -> MockEnvV {
        MockEnvV {
            files: assoc_map(keyed(self.files@)).map_values(|f: MockFile| file_view(f)),
            env_vars: assoc_map(keyed(self.env_vars@)).map_values(|s: String| text_of(s)),
            directories: strings_view(self.directories@),
        }
    }
}

impl MockEnv {
    /// Create a new empty mock environment.
    pub fn new() -> (r: Self)
        ensures
            r@.files == Map::<Seq<char>, MockFileV>::empty(),
            r@.env_vars == Map::<Seq<char>, Seq<char>>::empty(),
            r@.directories == Seq::<Seq<char>>::empty(),
            r.env_entries() == Seq::<(Seq<char>, Seq<char>)>::empty(),
    {
        let r = MockEnv { files: Vec::new(), env_vars: Vec::new(), directories: Vec::new() };
        assert(r@.files =~= Map::<Seq<char>, MockFileV>::empty());
        assert(r@.env_vars =~= Map::<Seq<char>, Seq<char>>::empty());
        assert(r@.directories =~= Seq::<Seq<char>>::empty());
        assert(r.env_entries() =~= Seq::<(Seq<char>, Seq<char>)>::empty());
        r
    }

    fn put_file(&mut self, path: String, file: MockFile)
        ensures
            final(self)@.files == old(self)@.files.insert(path@, file@),
            final(self)@.env_vars == old(self)@.env_vars,
            final(self)@.directories == old(self)@.directories,
            final(self).env_entries() == old(self).env_entries(),
    {
        proof {
            use_type_invariant(&*self);
        }
        let ghost p = path@;
        let ghost fv = file@;
        let mut files: Vec<(String, MockFile)> = Vec::new();
        std::mem::swap(&mut files, &mut self.files);
        let ghost s = keyed(files@);
        assoc_insert(&mut files, path, file);
        proof {
            crate::assoc::lemma_sorted_insert(s, p, file);
        }
        self.files = files;
        assert(self@.files =~= old(self)@.files.insert(p, fv));
    }

    fn put_env(&mut self, name: String, value: String)
        ensures
            final(self)@.env_vars == old(self)@.env_vars.insert(name@, value@),
            final(self)@.files == old(self)@.files,
            final(self)@.directories == old(self)@.directories,
    {
        proof {
            use_type_invariant(&*self);
        }
        let ghost n = name@;
        let ghost v = value;
        let mut vars: Vec<(String, String)> = Vec::new();
        std::mem::swap(&mut vars, &mut self.env_vars);
        let ghost s = keyed(vars@);
        assoc_insert(&mut vars, name, value);
        proof {
            crate::assoc::lemma_sorted_insert(s, n, v);
        }
        self.env_vars = vars;
        assert(self@.env_vars =~= old(self)@.env_vars.insert(n, v@));
    }

    /// Add a file with content.
    pub fn with_file<P: IntoText, C: IntoText>(self, path: P, content: C) -> (r: Self)
        ensures
            r@.files == self@.files.insert(path.text_view(), MockFileV::Content(content.text_view())),
            r@.env_vars == self@.env_vars,
            r@.directories == self@.directories,
    {
        let mut r = self;
        let p = path.into_text();
        let c = content.into_text();
        r.put_file(p, MockFile::Content(c));
        r
    }

    /// Add a file that will return a "not found" error.
    pub fn with_missing_file<P: IntoText>(self, path: P) -> (r: Self)
        ensures
            r@.files == self@.files.insert(path.text_view(), MockFileV::NotFound),
            r@.env_vars == self@.env_vars,
            r@.directories == self@.directories,
    {
        let mut r = self;
        let p = path.into_text();
        r.put_file(p, MockFile::NotFound);
        r
    }

    /// Add a file that will return a "permission denied" error.
    pub fn with_unreadable_file<P: IntoText>(self, path: P) -> (r: Self)
        ensures
            r@.files == self@.files.insert(path.text_view(), MockFileV::PermissionDenied),
            r@.env_vars == self@.env_vars,
            r@.directories == self@.directories,
    {
        let mut r = self;
        let p = path.into_text();
        r.put_file(p, MockFile::PermissionDenied);
        r
    }

    /// Add a directory path.
    pub fn with_directory<P: IntoText>(self, path: P) -> (r: Self)
        ensures
            r@.directories == self@.directories.push(path.text_view()),
            r@.files == self@.files,
            r@.env_vars == self@.env_vars,
    {
        proof {
            use_type_invariant(&self);
        }
        let mut r = self;
        let p = path.into_text();
        let mut dirs: Vec<String> = Vec::new();
        std::mem::swap(&mut dirs, &mut r.directories);
        dirs.push(p);
        r.directories = dirs;
        assert(r@.directories =~= self@.directories.push(path.text_view()));
        r
    }

    /// Set an environment variable.
    pub fn with_env<N: IntoText, V: IntoText>(self, name: N, value: V) -> (r: Self)
        ensures
            r@.env_vars == self@.env_vars.insert(name.text_view(), value.text_view()),
            r@.files == self@.files,
            r@.directories == self@.directories,
    {
        let mut r = self;
        let n = name.into_text();
        let v = value.into_text();
        r.put_env(n, v);
        r
    }

    /// Set several environment variables, in order.
    pub fn with_envs<N: IntoText, V: IntoText>(self, vars: Vec<(N, V)>) -> (r: Self)
        ensures
            r@.env_vars == vars@.fold_left(
                self@.env_vars,
                |m: Map<Seq<char>, Seq<char>>, p: (N, V)| m.insert(p.0.text_view(), p.1.text_view()),
            ),
            r@.files == self@.files,
            r@.directories == self@.directories,
    {
        let mut r = self;
        let mut vars = vars;
        let ghost all = vars@;
        let ghost start = self@.env_vars;
        let ghost mut done: Seq<(N, V)> = Seq::empty();
        assert(all =~= done + vars@);
        while vars.len() > 0
            invariant
                all == done + vars@,
                r@.env_vars == done.fold_left(
                    start,
                    |m: Map<Seq<char>, Seq<char>>, p: (N, V)|
                        m.insert(p.0.text_view(), p.1.text_view()),
                ),
                r@.files == self@.files,
                r@.directories == self@.directories,
            decreases vars@.len(),
        {
            let p = vars.remove(0);
            let (n, v) = p;
            let nn = n.into_text();
            let vv = v.into_text();
            r.put_env(nn, vv);
            proof {
                let old_done = done;
                done = done.push(p);
                assert(done.drop_last() =~= old_done);
                assert(all =~= done + vars@);
            }
        }
        assert(done =~= all);
        r
    }

    /// Replace (or add) a file's content.
    pub fn set_file<P: IntoText, C: IntoText>(&mut self, path: P, content: C)
        ensures
            final(self)@.files == old(self)@.files.insert(
                path.text_view(),
                MockFileV::Content(content.text_view()),
            ),
            final(self)@.env_vars == old(self)@.env_vars,
            final(self)@.directories == old(self)@.directories,
    {
        let p = path.into_text();
        let c = content.into_text();
        self.put_file(p, MockFile::Content(c));
    }

    /// Remove a file from the mock environment.
    pub fn remove_file(&mut self, path: &str)
        ensures
            final(self)@.files == old(self)@.files.remove(path@),
            final(self)@.env_vars == old(self)@.env_vars,
            final(self)@.directories == old(self)@.directories,
    {
        proof {
            use_type_invariant(&*self);
        }
        let mut files: Vec<(String, MockFile)> = Vec::new();
        std::mem::swap(&mut files, &mut self.files);
        assoc_remove(&mut files, path);
        self.files = files;
        assert(self@.files =~= old(self)@.files.remove(path@));
    }

    /// Update an environment variable.
    pub fn set_env<N: IntoText, V: IntoText>(&mut self, name: N, value: V)
        ensures
            final(self)@.env_vars == old(self)@.env_vars.insert(name.text_view(), value.text_view()),
            final(self)@.files == old(self)@.files,
            final(self)@.directories == old(self)@.directories,
    {
        let n = name.into_text();
        let v = value.into_text();
        self.put_env(n, v);
    }

    /// Remove an environment variable.
    pub fn remove_env(&mut self, name: &str)
        ensures
            final(self)@.env_vars == old(self)@.env_vars.remove(name@),
            final(self)@.files == old(self)@.files,
            final(self)@.directories == old(self)@.directories,
    {
        proof {
            use_type_invariant(&*self);
        }
        let mut vars: Vec<(String, String)> = Vec::new();
        std::mem::swap(&mut vars, &mut self.env_vars);
        assoc_remove(&mut vars, name);
        self.env_vars = vars;
        assert(self@.env_vars =~= old(self)@.env_vars.remove(name@));
    }
}

/// The variables of a map in name order: the one sorted association list
/// that stands for the map.
pub open spec fn sorted_entries(m: Map<Seq<char>, Seq<char>>) -> Seq<(Seq<char>, Seq<char>)> {
    choose|s: Seq<(Seq<char>, Seq<char>)>| sorted_keys(s) && assoc_map(s) == m
}

proof fn lemma_pair_views(v: Seq<(String, String)>)
    ensures
        sorted_keys(keyed(v)) ==> sorted_keys(pair_views(v)),
        forall|k: Seq<char>|
            #[trigger] assoc_get(pair_views(v), k) == match assoc_get(keyed(v), k) {
                Some(s) => Some(s@),
                None => None,
            },
    decreases v.len(),
{
    if sorted_keys(keyed(v)) {
        assert forall|i: int, j: int| 0 <= i < j < pair_views(v).len() implies crate::text::seq_lt(
            #[trigger] pair_views(v)[i].0,
            #[trigger] pair_views(v)[j].0,
        ) by {
            assert(keyed(v)[i].0 == pair_views(v)[i].0);
            assert(keyed(v)[j].0 == pair_views(v)[j].0);
        }
    }
    if v.len() > 0 {
        lemma_pair_views(v.drop_first());
        assert(pair_views(v).drop_first() =~= pair_views(v.drop_first()));
        assert(keyed(v).drop_first() =~= keyed(v.drop_first()));
        assert forall|k: Seq<char>| #[trigger] assoc_get(pair_views(v), k) == match assoc_get(
            keyed(v),
            k,
        ) {
            Some(s) => Some(s@),
            None => None,
        } by {
            assert(pair_views(v)[0] == (v[0].0@, v[0].1@));
            assert(keyed(v)[0] == (v[0].0@, v[0].1));
            assert(pair_views(v).len() > 0 && keyed(v).len() > 0);
            if v[0].0@ != k {
                assert(assoc_get(pair_views(v), k) == assoc_get(pair_views(v).drop_first(), k));
                assert(assoc_get(keyed(v), k) == assoc_get(keyed(v).drop_first(), k));
                assert(assoc_get(pair_views(v.drop_first()), k) == match assoc_get(
                    keyed(v.drop_first()),
                    k,
                ) {
                    Some(s) => Some(s@),
                    None => None,
                });
            }
        }
    } else {
        assert forall|k: Seq<char>| #[trigger] assoc_get(pair_views(v), k) == match assoc_get(
            keyed(v),
            k,
        ) {
            Some(s) => Some(s@),
            None => None,
        } by {}
    }
}

/// The message of a failed mock read.
pub open spec fn mock_read_message(kind: ReadErrorKind, path: Seq<char>) -> Seq<char> {
    match kind {
        ReadErrorKind::PermissionDenied => "mock permission denied: "@ + path,
        _ => "mock file not found: "@ + path,
    }
}

impl ConfigEnv for MockEnv {
    /// The content of a file added with content; "not found" for a missing
    /// or unknown file; "permission denied" for an unreadable one.
    open spec fn reads(&self, path: Seq<char>, r: Result<Seq<char>, (ReadErrorKind, Seq<char>)>) -> bool {
        r == match self@.files.get(path) {
            Some(MockFileV::Content(c)) => Ok(c),
            Some(MockFileV::PermissionDenied) => Err(
                (
                    ReadErrorKind::PermissionDenied,
                    mock_read_message(ReadErrorKind::PermissionDenied, path),
                ),
            ),
            _ => Err((ReadErrorKind::NotFound, mock_read_message(ReadErrorKind::NotFound, path))),
        }
    }

    /// True for a file added with content.
    open spec fn has_file(&self, path: Seq<char>, r: bool) -> bool {
        r == (self@.files.get(path) matches Some(MockFileV::Content(_)))
    }

    /// True for a path added as a directory.
    open spec fn has_directory(&self, path: Seq<char>, r: bool) -> bool {
        r == self@.directories.contains(path)
    }

    /// The variable's value, if it is set.
    open spec fn var_is(&self, name: Seq<char>, r: Option<Seq<char>>) -> bool {
        r == self@.env_vars.get(name)
    }

    /// The variables whose name starts with the prefix, in name order.
    open spec fn lists_prefixed(&self, prefix: Seq<char>, r: Seq<(Seq<char>, Seq<char>)>) -> bool {
        r == sorted_entries(self@.env_vars).filter(
            |p: (Seq<char>, Seq<char>)| starts_with_spec(p.0, prefix),
        )
    }

    /// All variables, in name order.
    open spec fn lists_all(&self, r: Seq<(Seq<char>, Seq<char>)>) -> bool {
        r == sorted_entries(self@.env_vars)
    }

    fn read_file(&self, path: &str) -> (r: Result<String, ReadError>) {
        proof {
            use_type_invariant(self);
            lemma_get_index(keyed(self.files@), path@);
        }
        match assoc_find(&self.files, path) {
            Some(i) => match &self.files[i].1 {
                MockFile::Content(c) => Ok(c.clone()),
                MockFile::NotFound => Err(
                    ReadError::new(ReadErrorKind::NotFound, concat2("mock file not found: ", path)),
                ),
                MockFile::PermissionDenied => Err(
                    ReadError::new(
                        ReadErrorKind::PermissionDenied,
                        concat2("mock permission denied: ", path),
                    ),
                ),
            },
            None => Err(
                ReadError::new(ReadErrorKind::NotFound, concat2("mock file not found: ", path)),
            ),
        }
    }

    fn file_exists(&self, path: &str) -> (r: bool) {
        proof {
            use_type_invariant(self);
        }
        match assoc_find(&self.files, path) {
            Some(i) => match &self.files[i].1 {
                MockFile::Content(_) => true,
                _ => false,
            },
            None => false,
        }
    }

    fn is_directory(&self, path: &str) -> (r: bool) {
        let mut i: usize = 0;
        while i < self.directories.len()
            invariant
                i <= self.directories@.len(),
                forall|j: int| 0 <= j < i ==> self.directories@[j]@ != path@,
            decreases self.directories@.len() - i,
        {
            if crate::text::str_eq(self.directories[i].as_str(), path) {
                assert(self@.directories[i as int] == path@);
                return true;
            }
            i = i + 1;
        }
        proof {
            if self@.directories.contains(path@) {
                let j = choose|j: int|
                    0 <= j < self@.directories.len() && self@.directories[j] == path@;
                assert(self.directories@[j]@ == path@);
            }
        }
        false
    }

    fn get_env(&self, name: &str) -> (r: Option<String>) {
        proof {
            use_type_invariant(self);
        }
        match assoc_find(&self.env_vars, name) {
            Some(i) => Some(self.env_vars[i].1.clone()),
            None => None,
        }
    }

    fn env_vars_with_prefix(&self, prefix: &str) -> (r: Vec<(String, String)>) {
        proof {
            use_type_invariant(self);
            self.lemma_entries_sorted();
        }
        let mut r: Vec<(String, String)> = Vec::new();
        let mut i: usize = 0;
        let ghost f = |p: (Seq<char>, Seq<char>)| starts_with_spec(p.0, prefix@);
        let ghost es = pair_views(self.env_vars@);
        assert(es.take(0) =~= Seq::<(Seq<char>, Seq<char>)>::empty());
        assert(pair_views(r@) =~= Seq::<(Seq<char>, Seq<char>)>::empty());
        while i < self.env_vars.len()
            invariant
                i <= self.env_vars@.len(),
                es == pair_views(self.env_vars@),
                es.len() == self.env_vars@.len(),
                f == (|p: (Seq<char>, Seq<char>)| starts_with_spec(p.0, prefix@)),
                pair_views(r@) == es.take(i as int).filter(f),
            decreases self.env_vars@.len() - i,
        {
            proof {
                assert(es[i as int] == (self.env_vars@[i as int].0@, self.env_vars@[i as int].1@));
                es.take(i as int).lemma_filter_push(es[i as int], f);
                assert(es.take(i + 1) =~= es.take(i as int).push(es[i as int]));
            }
            if starts_with_str(self.env_vars[i].0.as_str(), prefix) {
                let ghost before = r@;
                let k = self.env_vars[i].0.clone();
                let v = self.env_vars[i].1.clone();
                r.push((k, v));
                assert(r@ =~= before.push(self.env_vars@[i as int]));
                assert(pair_views(r@) =~= pair_views(before).push(es[i as int]));
                assert(f(es[i as int]));
                assert(pair_views(r@) == es.take(i + 1).filter(f));
            } else {
                assert(!f(es[i as int]));
                assert(pair_views(r@) == es.take(i + 1).filter(f));
            }
            i = i + 1;
        }
        assert(es.take(self.env_vars@.len() as int) =~= es);
        r
    }

    fn all_env_vars(&self) -> (r: Vec<(String, String)>) {
        proof {
            use_type_invariant(self);
            self.lemma_entries_sorted();
        }
        let mut r: Vec<(String, String)> = Vec::new();
        let mut i: usize = 0;
        let ghost es = pair_views(self.env_vars@);
        assert(pair_views(r@) =~= es.take(0));
        assert(es.len() == self.env_vars@.len());
        while i < self.env_vars.len()
            invariant
                i <= self.env_vars@.len(),
                es == pair_views(self.env_vars@),
                r@.len() == i,
                pair_views(r@) == es.take(i as int),
            decreases self.env_vars@.len() - i,
        {
            let ghost before = r@;
            let k = self.env_vars[i].0.clone();
            let v = self.env_vars[i].1.clone();
            r.push((k, v));
            assert(r@ =~= before.push(self.env_vars@[i as int]));
            assert(pair_views(r@) =~= es.take(i + 1));
            i = i + 1;
        }
        assert(es.take(self.env_vars@.len() as int) =~= es);
        r
    }
}

} // verus!
