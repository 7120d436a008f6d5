//! The classpath of a launch and the native archives it unpacks.
use vstd::prelude::*;

use crate::error::{error_with, error_with3, LauncherError};
use crate::manifest::{artifact_path_spec, classifier_path_spec, native_classifier_spec, Library};
use crate::rules::{rules_allow_spec, RuntimeEnvironment};
use crate::text::{chars_of, replace_char, replace_char_spec, seq_starts_with, starts_with, str_eq, views};

verus! {

/// The library jars of the first `n` libraries that the rules allow here, in
/// order, up to the first library whose rules or artifact cannot be read;
/// that library's message comes second.
pub open spec fn classpath_candidates_upto(
    libs: Seq<Library>,
    libraries_dir: Seq<char>,
    env: RuntimeEnvironment,
    n: nat,
) -> (Seq<Seq<char>>, Option<Seq<char>>)
    decreases n,
{
    if n == 0 || n > libs.len() {
        (Seq::empty(), None)
    } else {
        let (c, e) = classpath_candidates_upto(libs, libraries_dir, env, (n - 1) as nat);
        if e is Some {
            (c, e)
        } else {
            let l = libs[n - 1];
            match rules_allow_spec(l.rules@, env) {
                Err(m) => (c, Some(m)),
                Ok(allowed) => if !allowed {
                    (c, None)
                } else {
                    match artifact_path_spec(l, libraries_dir) {
                        Err(m) => (c, Some(m)),
                        Ok(None) => (c, None),
                        Ok(Some(p)) => (c.push(p), None),
                    }
                },
            }
        }
    }
}

pub open spec fn classpath_candidates_spec(
    libs: Seq<Library>,
    libraries_dir: Seq<char>,
    env: RuntimeEnvironment,
) -> (Seq<Seq<char>>, Option<Seq<char>>) {
    classpath_candidates_upto(libs, libraries_dir, env, libs.len())
}

pub open spec fn opt_error_view(e: Option<LauncherError>) -> Option<Seq<char>> {
    match e {
        Some(x) => Some(x.0@),
        None => None,
    }
}

/// The jars the libraries of a manifest put on the classpath, in order, for
/// the application to check on disk; with the error of the first library
/// that could not be read, after which no library is looked at.
pub fn classpath_candidates(
    libraries: &Vec<Library>,
    libraries_dir: &str,
    environment: &RuntimeEnvironment,
) -> (r: (Vec<String>, Option<LauncherError>))
    ensures
        (views(r.0@), opt_error_view(r.1)) == classpath_candidates_spec(libraries@, libraries_dir@, *environment),
{
    let mut out: Vec<String> = Vec::new();
    let mut i: usize = 0;
    while i < libraries.len()
        invariant
            i <= libraries.len(),
            classpath_candidates_upto(libraries@, libraries_dir@, *environment, i as nat) == (
                views(out@),
                None::<Seq<char>>,
            ),
        decreases libraries.len() - i,
    {
        let library = &libraries[i];
        let allowed = match library.is_allowed(environment) {
            Ok(a) => a,
            Err(e) => {
                proof {
                    lemma_candidates_error_persists(libraries@, libraries_dir@, *environment, (i + 1) as nat, libraries@.len());
                }
                return (out, Some(e));
            },
        };
        if allowed {
            match library.artifact_path(libraries_dir) {
                Err(e) => {
                    proof {
                        lemma_candidates_error_persists(libraries@, libraries_dir@, *environment, (i + 1) as nat, libraries@.len());
                    }
                    return (out, Some(e));
                },
                Ok(None) => {},
                Ok(Some(p)) => {
                    out.push(p);
                    assert(views(out@) =~= views(out@.drop_last()).push(out@.last()@));
                },
            }
        }
        i = i + 1;
    }
    (out, None)
}

proof fn lemma_candidates_error_persists(
    libs: Seq<Library>,
    dir: Seq<char>,
    env: RuntimeEnvironment,
    k: nat,
    n: nat,
)
    requires
        0 < k <= n <= libs.len(),
        classpath_candidates_upto(libs, dir, env, k).1 is Some,
    ensures
        classpath_candidates_upto(libs, dir, env, n) == classpath_candidates_upto(libs, dir, env, k),
    decreases n - k,
{
    if k < n {
        lemma_candidates_error_persists(libs, dir, env, k, (n - 1) as nat);
    }
}

/// `s` with every entry after its first occurrence dropped.
pub open spec fn dedup_first(s: Seq<Seq<char>>) -> Seq<Seq<char>>
    decreases s.len(),
{
    if s.len() == 0 {
        Seq::empty()
    } else {
        let d = dedup_first(s.drop_last());
        if d.contains(s.last()) {
            d
        } else {
            d.push(s.last())
        }
    }
}

/// The first candidate the application did not find on disk.
pub open spec fn first_missing(found: Seq<(Seq<char>, bool)>) -> Option<Seq<char>>
    decreases found.len(),
{
    if found.len() == 0 {
        None
    } else if !found[0].1 {
        Some(found[0].0)
    } else {
        first_missing(found.drop_first())
    }
}

/// The paths of the candidates, in order.
pub open spec fn found_paths(found: Seq<(Seq<char>, bool)>) -> Seq<Seq<char>> {
    found.map_values(|p: (Seq<char>, bool)| p.0)
}

pub open spec fn found_view(v: Seq<(String, bool)>) -> Seq<(Seq<char>, bool)> {
    v.map_values(|p: (String, bool)| (p.0@, p.1))
}

/// What the classpath comes to once the application has looked for each jar.
pub open spec fn classpath_spec(
    version_jar: Seq<char>,
    version_jar_present: bool,
    found: Seq<(Seq<char>, bool)>,
    failure: Option<Seq<char>>,
) -> Result<Seq<Seq<char>>, Seq<char>> {
    if !version_jar_present {
        Err("The selected version jar does not exist: "@ + version_jar)
    } else {
        match first_missing(found) {
            Some(p) => Err("Missing library jar: "@ + p),
            None => match failure {
                Some(m) => Err(m),
                None => Ok(dedup_first(found_paths(found)).push(version_jar)),
            },
        }
    }
}

pub open spec fn rlv_view(r: Result<Vec<String>, LauncherError>) -> Result<Seq<Seq<char>>, Seq<char>> {
    match r {
        Ok(v) => Ok(views(v@)),
        Err(e) => Err(e.0@),
    }
}

fn contains_string(v: &Vec<String>, s: &str) -> (r: bool)
    ensures
        r == views(v@).contains(s@),
{
    let mut i: usize = 0;
    while i < v.len()
        invariant
            i <= v.len(),
            forall|j: int| 0 <= j < i ==> v@[j]@ != s@,
        decreases v.len() - i,
    {
        if str_eq(v[i].as_str(), s) {
            assert(views(v@)[i as int] == s@);
            return true;
        }
        i = i + 1;
    }
    assert forall|j: int| 0 <= j < views(v@).len() implies views(v@)[j] != s@ by {
        assert(views(v@)[j] == v@[j]@);
    }
    false
}

/// The classpath: each library jar once, in the order first met, then the
/// version jar. `found` pairs each candidate of `classpath_candidates` with
/// whether it is a file, `failure` is the error that came with them; the
/// version jar must exist and a missing library jar is reported first.
pub fn build_classpath_entries(
    version_jar: String,
    version_jar_present: bool,
    found: Vec<(String, bool)>,
    failure: Option<LauncherError>,
) -> (r: Result<Vec<String>, LauncherError>)
    ensures
        rlv_view(r) == classpath_spec(version_jar@, version_jar_present, found_view(found@), opt_error_view(failure)),
{
    if !version_jar_present {
        return Err(error_with("The selected version jar does not exist: ", version_jar.as_str()));
    }
    let ghost fv = found_view(found@);
    assert(fv.skip(0) =~= fv);
    let mut i: usize = 0;
    while i < found.len()
        invariant
            i <= found.len(),
            fv == found_view(found@),
            version_jar_present,
            first_missing(fv) == first_missing(fv.skip(i as int)),
        decreases found.len() - i,
    {
        assert(fv.skip(i as int).drop_first() =~= fv.skip(i + 1));
        assert(fv.skip(i as int)[0] == (found@[i as int].0@, found@[i as int].1));
        if !found[i].1 {
            assert(fv.skip(i as int).len() > 0);
            assert(first_missing(fv.skip(i as int)) == Some(found@[i as int].0@));
            return Err(error_with("Missing library jar: ", found[i].0.as_str()));
        }
        i = i + 1;
    }
    assert(fv.skip(i as int) =~= Seq::<(Seq<char>, bool)>::empty());
    if let Some(e) = failure {
        return Err(e);
    }
    let ghost paths = found_paths(fv);
    let mut out: Vec<String> = Vec::new();
    let mut k: usize = 0;
    while k < found.len()
        invariant
            k <= found.len(),
            fv == found_view(found@),
            version_jar_present,
            failure is None,
            first_missing(fv) is None,
            paths == found_paths(fv),
            views(out@) == dedup_first(paths.take(k as int)),
        decreases found.len() - k,
    {
        let p = &found[k].0;
        assert(paths.take(k + 1).drop_last() =~= paths.take(k as int));
        assert(paths.take(k + 1).last() == p@);
        if !contains_string(&out, p.as_str()) {
            out.push(p.clone());
            assert(views(out@) =~= views(out@.drop_last()).push(p@));
        }
        k = k + 1;
    }
    assert(paths.take(k as int) =~= paths);
    let ghost jar = version_jar@;
    out.push(version_jar);
    assert(views(out@) =~= views(out@.drop_last()).push(out@.last()@));
    assert(views(out@) == dedup_first(paths).push(jar));
    assert(classpath_spec(jar, version_jar_present, fv, None) == Ok::<Seq<Seq<char>>, Seq<char>>(dedup_first(paths).push(jar)));
    Ok(out)
}

/// No jar is put on the classpath twice, and every jar met is on it.
pub proof fn lemma_dedup_first_unique(s: Seq<Seq<char>>)
    ensures
        forall|i: int, j: int|
            0 <= i < j < dedup_first(s).len() ==> dedup_first(s)[i] != dedup_first(s)[j],
        forall|x: Seq<char>| s.contains(x) <==> dedup_first(s).contains(x),
    decreases s.len(),
{
    if s.len() > 0 {
        let t = s.drop_last();
        lemma_dedup_first_unique(t);
        let d = dedup_first(t);
        let last = s.last();
        assert(dedup_first(s).contains(last)) by {
            if d.contains(last) {
                assert(dedup_first(s) == d);
            } else {
                assert(dedup_first(s) == d.push(last));
                assert(d.push(last)[d.len() as int] == last);
            }
        }
        assert forall|x: Seq<char>| s.contains(x) <==> dedup_first(s).contains(x) by {
            if s.contains(x) && x != last {
                let i = choose|i: int| 0 <= i < s.len() && s[i] == x;
                assert(i < s.len() - 1);
                assert(t[i] == x);
                assert(t.contains(x));
                assert(d.contains(x));
                let j = choose|j: int| 0 <= j < d.len() && d[j] == x;
                if !d.contains(last) {
                    assert(d.push(last)[j] == x);
                }
            }
            if dedup_first(s).contains(x) && x != last {
                let j = choose|j: int| 0 <= j < dedup_first(s).len() && dedup_first(s)[j] == x;
                if !d.contains(last) {
                    assert(j < d.len());
                    assert(d[j] == x);
                }
                assert(d.contains(x));
                assert(t.contains(x));
                let i = choose|i: int| 0 <= i < t.len() && t[i] == x;
                assert(s[i] == x);
            }
            if x == last {
                assert(s[s.len() - 1] == x);
            }
        }
    }
}

// ---------------------------------------------------------------------------
// Natives

/// The exclusion prefixes of a library's `extract` block.
pub open spec fn excludes_of(l: Library) -> Seq<Seq<char>> {
    match l.extract {
        Some(x) => views(x.exclude@),
        None => Seq::empty(),
    }
}

pub open spec fn unresolved_native(c: Seq<char>) -> Seq<char> {
    "The manifest references native classifier "@ + c + " but no archive could be resolved."@
}

/// The native archives of the first `n` libraries for this environment, with
/// their exclusion prefixes, up to the first library that fails; its
/// message comes second.
pub open spec fn native_archives_upto(
    libs: Seq<Library>,
    libraries_dir: Seq<char>,
    env: RuntimeEnvironment,
    n: nat,
) -> (Seq<(Seq<char>, Seq<Seq<char>>)>, Option<Seq<char>>)
    decreases n,
{
    if n == 0 || n > libs.len() {
        (Seq::empty(), None)
    } else {
        let (c, e) = native_archives_upto(libs, libraries_dir, env, (n - 1) as nat);
        if e is Some {
            (c, e)
        } else {
            let l = libs[n - 1];
            match rules_allow_spec(l.rules@, env) {
                Err(m) => (c, Some(m)),
                Ok(allowed) => if !allowed {
                    (c, None)
                } else {
                    match native_classifier_spec(l, env) {
                        None => (c, None),
                        Some(k) => match classifier_path_spec(l, libraries_dir, k) {
                            Err(m) => (c, Some(m)),
                            Ok(None) => (c, Some(unresolved_native(k))),
                            Ok(Some(p)) => (c.push((p, excludes_of(l))), None),
                        },
                    }
                },
            }
        }
    }
}

pub open spec fn archives_view(v: Seq<(String, Vec<String>)>) -> Seq<(Seq<char>, Seq<Seq<char>>)> {
    v.map_values(|p: (String, Vec<String>)| (p.0@, views(p.1@)))
}

fn clone_strings(v: &Vec<String>) -> (r: Vec<String>)
    ensures
        views(r@) == views(v@),
{
    let mut r: Vec<String> = Vec::new();
    let mut i: usize = 0;
    while i < v.len()
        invariant
            i <= v.len(),
            views(r@) == views(v@.take(i as int)),
        decreases v.len() - i,
    {
        r.push(v[i].clone());
        assert(views(v@.take(i + 1)) =~= views(v@.take(i as int)).push(v@[i as int]@));
        assert(views(r@) =~= views(v@.take(i as int)).push(v@[i as int]@));
        i = i + 1;
    }
    assert(v@.take(i as int) =~= v@);
    r
}

/// A native archive must be a file before it is unpacked: `is_file` says
/// whether the application found one at `path`.
pub fn require_native_archive(path: &str, is_file: bool) -> (r: Result<(), LauncherError>)
    ensures
        is_file <==> r is Ok,
        r matches Err(e) ==> e.0@ == "Missing native archive: "@ + path@,
{
    if is_file {
        Ok(())
    } else {
        Err(error_with("Missing native archive: ", path))
    }
}

/// The native archives a launch unpacks, in order, each with the entry
/// prefixes it excludes; with the error of the first library that fails,
/// after which no library is looked at.
pub fn native_archive_candidates(
    libraries: &Vec<Library>,
    libraries_dir: &str,
    environment: &RuntimeEnvironment,
) -> (r: (Vec<(String, Vec<String>)>, Option<LauncherError>))
    ensures
        (archives_view(r.0@), opt_error_view(r.1)) == native_archives_upto(
            libraries@,
            libraries_dir@,
            *environment,
            libraries@.len(),
        ),
{
    let mut out: Vec<(String, Vec<String>)> = Vec::new();
    let mut i: usize = 0;
    while i < libraries.len()
        invariant
            i <= libraries.len(),
            native_archives_upto(libraries@, libraries_dir@, *environment, i as nat) == (
                archives_view(out@),
                None::<Seq<char>>,
            ),
        decreases libraries.len() - i,
    {
        let library = &libraries[i];
        let allowed = match library.is_allowed(environment) {
            Ok(a) => a,
            Err(e) => {
                proof {
                    lemma_natives_error_persists(libraries@, libraries_dir@, *environment, (i + 1) as nat, libraries@.len());
                }
                return (out, Some(e));
            },
        };
        if allowed {
            if let Some(classifier) = library.native_classifier(environment) {
                match library.classifier_path(libraries_dir, classifier.as_str()) {
                    Err(e) => {
                        proof {
                            lemma_natives_error_persists(libraries@, libraries_dir@, *environment, (i + 1) as nat, libraries@.len());
                        }
                        return (out, Some(e));
                    },
                    Ok(None) => {
                        proof {
                            lemma_natives_error_persists(libraries@, libraries_dir@, *environment, (i + 1) as nat, libraries@.len());
                        }
                        let e = error_with3(
                            "The manifest references native classifier ",
                            classifier.as_str(),
                            " but no archive could be resolved.",
                        );
                        return (out, Some(e));
                    },
                    Ok(Some(p)) => {
                        let excludes = match &library.extract {
                            Some(x) => clone_strings(&x.exclude),
                            None => Vec::new(),
                        };
                        assert(views(excludes@) == excludes_of(*library));
                        out.push((p, excludes));
                        assert(archives_view(out@) =~= archives_view(out@.drop_last()).push(
                            (out@.last().0@, views(out@.last().1@)),
                        ));
                    },
                }
            }
        }
        i = i + 1;
    }
    (out, None)
}

proof fn lemma_natives_error_persists(
    libs: Seq<Library>,
    dir: Seq<char>,
    env: RuntimeEnvironment,
    k: nat,
    n: nat,
)
    requires
        0 < k <= n <= libs.len(),
        native_archives_upto(libs, dir, env, k).1 is Some,
    ensures
        native_archives_upto(libs, dir, env, n) == native_archives_upto(libs, dir, env, k),
    decreases n - k,
{
    if k < n {
        lemma_natives_error_persists(libs, dir, env, k, (n - 1) as nat);
    }
}

/// An archive entry is unpacked unless its path, with `\` read as `/`,
/// starts with `META-INF/` or with one of the excluded prefixes.
pub open spec fn extract_native_entry_spec(relative_path: Seq<char>, excludes: Seq<Seq<char>>) -> bool {
    let p = replace_char_spec(relative_path, '\\', seq!['/']);
    !seq_starts_with(p, "META-INF/"@) && !(exists|i: int|
        0 <= i < excludes.len() && seq_starts_with(p, #[trigger] excludes[i]))
}

/// Whether an entry of a native archive is unpacked.
pub fn should_extract_native_entry(relative_path: &str, excludes: &Vec<String>) -> (r: bool)
    ensures
        r == extract_native_entry_spec(relative_path@, views(excludes@)),
{
    let slash = chars_of("/");
    proof {
        reveal_strlit("/");
    }
    assert(slash@ =~= seq!['/']);
    let p = replace_char(&chars_of(relative_path), '\\', &slash);
    let meta = chars_of("META-INF/");
    if starts_with(&p, &meta) {
        return false;
    }
    let mut i: usize = 0;
    while i < excludes.len()
        invariant
            i <= excludes.len(),
            p@ == replace_char_spec(relative_path@, '\\', seq!['/']),
            forall|j: int| 0 <= j < i ==> !seq_starts_with(p@, #[trigger] views(excludes@)[j]),
        decreases excludes.len() - i,
    {
        let prefix = chars_of(excludes[i].as_str());
        assert(views(excludes@)[i as int] == excludes@[i as int]@);
        if starts_with(&p, &prefix) {
            return false;
        }
        i = i + 1;
    }
    true
}

} // verus!
