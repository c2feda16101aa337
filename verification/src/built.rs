//! A Perl that has been built: where it lives, and how to run it.

use crate::config::append_all;
use crate::paths::{join_path, joined_path, Platform};
use crate::text::{chars_of, is_digit, texts};
use vstd::prelude::*;
use vstd::string::*;

verus! {

/// A Perl that has been built and installed under a prefix.
#[derive(Debug, Clone)]
pub struct Built {
    prefix: String,
    platform: Platform,
}

/// What a [`Built`] stands for.
pub struct BuiltView {
    /// The installation prefix.
    pub prefix: Seq<char>,
    /// The platform whose path notation the prefix is in.
    pub platform: Platform,
}

impl View for Built {
    type V = BuiltView;

    closed spec fn view(&self) -> BuiltView {
        BuiltView { prefix: self.prefix@, platform: self.platform }
    }
}

impl BuiltView {
    /// `<prefix>/bin`.
    pub open spec fn bin_dir(self) -> Seq<char> {
        joined_path(self.prefix, "bin"@, self.platform)
    }

    /// `<prefix>/bin/perl`.
    pub open spec fn perl(self) -> Seq<char> {
        joined_path(self.bin_dir(), "perl"@, self.platform)
    }
}

impl Built {
    /// The Perl under `prefix` on the platform that the program runs on.
    pub fn new(prefix: &str) -> (built: Built)
        ensures
            built@.prefix == prefix@,
    {
        Built::on(prefix, Platform::native())
    }

    /// The Perl under `prefix` on `platform`.
    pub fn on(prefix: &str, platform: Platform) -> (built: Built)
        ensures
            built@ == (BuiltView { prefix: prefix@, platform }),
    {
        Built { prefix: prefix.to_owned(), platform }
    }

    /// The installation prefix.
    pub fn prefix(&self) -> (prefix: &str)
        ensures
            prefix@ == self@.prefix,
    {
        self.prefix.as_str()
    }

    /// `<prefix>/bin`.
    pub fn bin_dir(&self) -> (dir: String)
        ensures
            dir@ == self@.bin_dir(),
    {
        join_path(self.prefix.as_str(), "bin", self.platform)
    }

    /// `<prefix>/bin/perl`.
    pub fn perl(&self) -> (path: String)
        ensures
            path@ == self@.perl(),
    {
        join_path(self.bin_dir().as_str(), "perl", self.platform)
    }
}

// ---------------------------------------------------------------------------
// The environment to run it in
// ---------------------------------------------------------------------------

/// The environment changes that run a Perl with this search path: the path
/// set, and what an outer Perl setup leaves behind cleared.
pub open spec fn env_changes<T>(search_path: T) -> Seq<(Seq<char>, Option<T>)> {
    seq![
        ("PATH"@, Some(search_path)),
        ("PERL5LIB"@, None),
        ("PERL5OPT"@, None),
        ("PERL_MB_OPT"@, None),
        ("PERL_MM_OPT"@, None),
        ("PERL_LOCAL_LIB_ROOT"@, None),
    ]
}

/// `own` writes the path `text` as `value`.
pub open spec fn writes<T, F: Fn(&str) -> T>(own: F, text: Seq<char>, value: T) -> bool {
    exists|s: &str| s@ == text && #[trigger] call_ensures(own, (s,), value)
}

/// `join` makes `joined` of the directories.
pub open spec fn joins<T, G: Fn(Vec<T>) -> Option<T>>(
    join: G,
    dirs: Seq<T>,
    joined: Option<T>,
) -> bool {
    exists|v: Vec<T>| v@ == dirs && #[trigger] call_ensures(join, (v,), joined)
}

/// `path` is the search path with `bin_dir` in front of the directories that
/// are on it: `bin_dir` by itself where there is no search path, or where the
/// directories cannot be joined to one.
pub open spec fn is_search_path<T, F: Fn(&str) -> T, G: Fn(Vec<T>) -> Option<T>>(
    path: T,
    bin_dir: Seq<char>,
    existing: Option<Vec<T>>,
    own: F,
    join: G,
) -> bool {
    match existing {
        None => writes(own, bin_dir, path),
        Some(dirs) => exists|bin: T, joined: Option<T>|
            {
                &&& writes(own, bin_dir, bin)
                &&& #[trigger] joins(join, seq![bin] + dirs@, joined)
                &&& match joined {
                    Some(all) => path == all,
                    None => writes(own, bin_dir, path),
                }
            },
    }
}

impl Built {
    /// The search path for this Perl: its own directory in front of those that
    /// are on it.
    fn prepended_path<T, F: Fn(&str) -> T, G: Fn(Vec<T>) -> Option<T>>(
        &self,
        existing: Option<Vec<T>>,
        own: F,
        join: G,
    ) -> (path: T)
        requires
            forall|s: &str| call_requires(own, (s,)),
            forall|v: Vec<T>| call_requires(join, (v,)),
        ensures
            is_search_path(path, self@.bin_dir(), existing, own, join),
    {
        let dir = self.bin_dir();
        let bin = own(dir.as_str());
        match existing {
            None => bin,
            Some(dirs) => {
                let mut all = dirs;
                let ghost first = bin;
                assert(writes(own, self@.bin_dir(), first));
                all.insert(0, bin);
                assert(all@ =~= seq![first] + dirs@);
                let joined = join(all);
                assert(joins(join, seq![first] + dirs@, joined));
                match joined {
                    Some(path) => path,
                    None => own(dir.as_str()),
                }
            },
        }
    }

    /// The environment changes that run this Perl: `PATH` with
    /// [`bin_dir`](Self::bin_dir) in front of the directories in `existing`,
    /// and the variables cleared through which an outer environment (perlbrew,
    /// local::lib, ...) could leak in. `None` means "unset this".
    ///
    /// `own` writes a path as the platform has it, and `join` makes a search
    /// path of directories, if it can.
    pub fn env_vars<T, F: Fn(&str) -> T, G: Fn(Vec<T>) -> Option<T>>(
        &self,
        existing: Option<Vec<T>>,
        own: F,
        join: G,
    ) -> (changes: Vec<(&'static str, Option<T>)>)
        requires
            forall|s: &str| call_requires(own, (s,)),
            forall|v: Vec<T>| call_requires(join, (v,)),
        ensures
            exists|path: T| #[trigger]
                is_search_path(path, self@.bin_dir(), existing, own, join) && changes@.map_values(
                    |c: (&'static str, Option<T>)| (c.0@, c.1),
                ) == env_changes(path),
    {
        let search_path = self.prepended_path(existing, own, join);
        let mut changes: Vec<(&'static str, Option<T>)> = Vec::new();
        let ghost path = search_path;
        changes.push(("PATH", Some(search_path)));
        changes.push(("PERL5LIB", None));
        changes.push(("PERL5OPT", None));
        changes.push(("PERL_MB_OPT", None));
        changes.push(("PERL_MM_OPT", None));
        changes.push(("PERL_LOCAL_LIB_ROOT", None));
        assert(changes@.map_values(|c: (&'static str, Option<T>)| (c.0@, c.1)) =~= env_changes(
            path,
        ));
        changes
    }
}

// ---------------------------------------------------------------------------
// The executables of a development Perl
// ---------------------------------------------------------------------------

/// A version begins at `i`: a `5.` that a digit follows, with something before
/// it.
pub open spec fn version_at(name: Seq<char>, i: int) -> bool {
    0 < i && i + 2 < name.len() && name[i] == '5' && name[i + 1] == '.' && is_digit(name[i + 2])
}

/// `n` characters stand before the first version in `name`.
pub open spec fn is_base_len(name: Seq<char>, n: int) -> bool {
    version_at(name, n) && forall|k: int| 0 <= k < n ==> !version_at(name, k)
}

/// What stands before the version in the name of an executable.
pub open spec fn base_name(name: Seq<char>) -> Option<Seq<char>> {
    let n = choose|n: int| is_base_len(name, n);
    if is_base_len(name, n) {
        Some(name.take(n))
    } else {
        None
    }
}

/// The links to make in a directory with the entries `names`, of which those in
/// `taken` are there without a version: for each entry, its place and the name
/// of the link to it.
pub open spec fn link_plan(
    names: Seq<Seq<char>>,
    from: int,
    taken: Set<Seq<char>>,
) -> Seq<(int, Seq<char>)>
    decreases names.len() - from,
{
    if from < 0 || from >= names.len() {
        seq![]
    } else {
        match base_name(names[from]) {
            Some(base) => if taken.contains(base) {
                link_plan(names, from + 1, taken)
            } else {
                seq![(from, base)] + link_plan(names, from + 1, taken.insert(base))
            },
            None => link_plan(names, from + 1, taken),
        }
    }
}

/// The links to make in a directory with the entries `names`, where those in
/// `present` are there already.
pub open spec fn links_for(names: Seq<Seq<char>>, present: Seq<Seq<char>>) -> Seq<(int, Seq<char>)> {
    link_plan(names, 0, present.to_set())
}

/// The name without the version, of an executable with one: the part before the
/// first `5.` that a digit follows, where there is something before it.
pub fn devel_base_name(name: &str) -> (base: Option<&str>)
    ensures
        match base {
            Some(b) => base_name(name@) == Some(b@),
            None => base_name(name@) is None,
        },
{
    let chars = chars_of(name);
    if chars.len() < 3 {
        return None;
    }
    for i in 1..chars.len() - 2
        invariant
            chars@ == name@,
            chars.len() >= 3,
            forall|k: int| 0 <= k < i ==> !version_at(name@, k),
    {
        if chars[i] == '5' && chars[i + 1] == '.' && '0' <= chars[i + 2] && chars[i + 2] <= '9' {
            proof {
                assert(is_base_len(name@, i as int));
                let n = choose|n: int| is_base_len(name@, n);
                assert(n == i);
            }
            return Some(name.substring_char(0, i));
        }
    }
    None
}

fn is_among(name: &str, names: &Vec<String>) -> (yes: bool)
    ensures
        yes == texts(names@).contains(name@),
{
    let own = name.to_owned();
    for i in 0..names.len()
        invariant
            own@ == name@,
            forall|k: int| 0 <= k < i ==> texts(names@)[k] != name@,
    {
        assert(texts(names@)[i as int] == names@[i as int]@);
        if names[i] == own {
            return true;
        }
    }
    false
}

/// The links to make in a directory with the entries `names`, so that each
/// versioned executable is there without its version too: which entry, and the
/// name of the link to it. The names in `present` are there already, and stay
/// as they are.
pub fn devel_links(names: &Vec<String>, present: &Vec<String>) -> (links: Vec<(usize, String)>)
    ensures
        links@.map_values(|l: (usize, String)| (l.0 as int, l.1@)) == links_for(
            texts(names@),
            texts(present@),
        ),
{
    let mut taken: Vec<String> = Vec::new();
    append_all(&mut taken, present);
    assert(texts(taken@) =~= texts(present@));
    let mut links: Vec<(usize, String)> = Vec::new();
    let ghost f = |l: (usize, String)| (l.0 as int, l.1@);
    for i in 0..names.len()
        invariant
            f == (|l: (usize, String)| (l.0 as int, l.1@)),
            links@.map_values(f) + link_plan(texts(names@), i as int, texts(taken@).to_set())
                =~= link_plan(texts(names@), 0, texts(present@).to_set()),
    {
        assert(texts(names@)[i as int] == names@[i as int]@);
        if let Some(base) = devel_base_name(names[i].as_str()) {
            if !is_among(base, &taken) {
                let ghost taken_before = texts(taken@);
                let ghost links_before = links@.map_values(f);
                links.push((i, base.to_owned()));
                taken.push(base.to_owned());
                proof {
                    assert(links@.map_values(f) =~= links_before.push((i as int, base@)));
                    assert(texts(taken@) =~= taken_before.push(base@));
                    lemma_push_to_set(taken_before, base@);
                }
            }
        }
    }
    assert(link_plan(texts(names@), names@.len() as int, texts(taken@).to_set()) =~= seq![]);
    links
}

proof fn lemma_push_to_set(s: Seq<Seq<char>>, x: Seq<char>)
    ensures
        s.push(x).to_set() == s.to_set().insert(x),
{
    assert forall|y: Seq<char>| s.push(x).to_set().contains(y) == s.to_set().insert(x).contains(
        y,
    ) by {
        if s.push(x).contains(y) {
            let i = choose|i: int| 0 <= i < s.push(x).len() && s.push(x)[i] == y;
            if i < s.len() {
                assert(s[i] == y);
                assert(s.contains(y));
            }
        }
        if s.contains(y) {
            let i = choose|i: int| 0 <= i < s.len() && s[i] == y;
            assert(s.push(x)[i] == y);
        }
        assert(s.push(x)[s.len() as int] == x);
    }
    assert(s.push(x).to_set() =~= s.to_set().insert(x));
}

} // verus!
