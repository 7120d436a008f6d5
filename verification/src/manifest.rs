//! Version manifests: libraries, launch arguments, and inheritance.
use vstd::prelude::*;

use crate::error::{error_with, rv, LauncherError, LauncherResult};
use crate::launch::{table_render, LaunchVariables};
use crate::paths::{join_path, path_join};
use crate::rules::{keys_distinct, rules_allow, rules_allow_spec, Rule, RuntimeEnvironment};
use crate::text::{
    chars_of, replace_all, replace_all_spec, replace_char, replace_char_spec, seq_starts_with,
    starts_with, str_eq, string_from_chars, views,
};

verus! {

pub struct JavaVersion {
    pub component: String,
    pub major_version: u32,
}

pub struct LibraryDownload {
    pub path: Option<String>,
}

pub struct LibraryDownloads {
    pub artifact: Option<LibraryDownload>,
    /// Downloads by classifier; each classifier once (`Library::well_formed`).
    pub classifiers: Vec<(String, LibraryDownload)>,
}

pub struct LibraryExtract {
    pub exclude: Vec<String>,
}

/// A library of a version manifest.
pub struct Library {
    pub name: Option<String>,
    pub artifact: Option<LibraryDownload>,
    /// Downloads by classifier; each classifier once (`well_formed`).
    pub classifiers: Vec<(String, LibraryDownload)>,
    /// The legacy spelling of `classifiers`; each classifier once.
    pub classifies: Vec<(String, LibraryDownload)>,
    pub downloads: Option<LibraryDownloads>,
    pub rules: Vec<Rule>,
    /// Native classifier by OS name; each OS once.
    pub natives: Vec<(String, String)>,
    pub extract: Option<LibraryExtract>,
}

pub struct ArgumentsBlock {
    pub game: Vec<ArgumentEntry>,
    pub jvm: Vec<ArgumentEntry>,
}

pub enum ArgumentEntry {
    String(String),
    Conditional(ConditionalArgument),
}

pub struct ConditionalArgument {
    pub rules: Vec<Rule>,
    pub value: ArgumentValue,
}

pub enum ArgumentValue {
    String(String),
    Strings(Vec<String>),
}

pub struct AssetIndexRef {
    pub id: Option<String>,
    pub url: Option<String>,
    pub sha1: Option<String>,
    pub size: Option<u64>,
}

/// What this launcher writes into the manifests it creates.
pub struct MechaMetadata {
    pub game_directory: Option<String>,
    pub source_kind: Option<String>,
}

/// One version manifest as read from disk, before inheritance.
pub struct RawManifest {
    pub id: Option<String>,
    pub inherits_from: Option<String>,
    pub main_class: Option<String>,
    pub asset_index: Option<AssetIndexRef>,
    pub java_version: Option<JavaVersion>,
    pub libraries: Vec<Library>,
    pub arguments: Option<ArgumentsBlock>,
    pub minecraft_arguments: Option<String>,
    pub version_type: Option<String>,
    pub mecha: Option<MechaMetadata>,
}

/// A version manifest with its inheritance resolved.
pub struct ResolvedManifest {
    pub id: String,
    pub main_class: String,
    pub asset_index_id: Option<String>,
    pub asset_index_url: Option<String>,
    pub asset_index_sha1: Option<String>,
    pub asset_index_size: Option<u64>,
    pub java_version: Option<JavaVersion>,
    pub version_type: String,
    pub game_directory: Option<String>,
    pub source_kind: Option<String>,
    pub libraries: Vec<Library>,
    pub modern_arguments: Option<ArgumentsBlock>,
    pub legacy_minecraft_arguments: Option<String>,
}

pub struct LaunchArguments {
    pub jvm_arguments: Vec<String>,
    pub game_arguments: Vec<String>,
}

// ---------------------------------------------------------------------------
// Maven coordinates

/// Index of the first `c` in `s` at or after `i`; the length when none.
pub open spec fn find_char(s: Seq<char>, c: char, i: int) -> int
    decreases s.len() - i,
{
    if i < 0 || i >= s.len() {
        s.len() as int
    } else if s[i] == c {
        i
    } else {
        find_char(s, c, i + 1)
    }
}

/// `str::split(c)`: the pieces between the `c`s.
pub open spec fn split_char(s: Seq<char>, c: char) -> Seq<Seq<char>>
    decreases s.len(),
{
    let k = find_char(s, c, 0);
    if k < 0 || k >= s.len() {
        seq![s]
    } else {
        seq![s.take(k)] + split_char(s.skip(k + 1), c)
    }
}

proof fn lemma_find_char_bounds(s: Seq<char>, c: char, i: int)
    requires
        0 <= i,
    ensures
        i <= find_char(s, c, i) <= s.len() || (i > s.len() && find_char(s, c, i) == s.len()),
        find_char(s, c, i) < s.len() ==> s[find_char(s, c, i)] == c,
        forall|j: int| i <= j < find_char(s, c, i) ==> s[j] != c,
    decreases s.len() - i,
{
    if i < s.len() && s[i] != c {
        lemma_find_char_bounds(s, c, i + 1);
    }
}

fn find_char_exec(s: &Vec<char>, c: char, from: usize) -> (k: usize)
    requires
        from <= s.len(),
    ensures
        k as int == find_char(s@, c, from as int),
{
    let mut i = from;
    proof {
        lemma_find_from(s@, c, from as int, from as int);
    }
    while i < s.len() && s[i] != c
        invariant
            from <= i <= s.len(),
            find_char(s@, c, from as int) == find_char(s@, c, i as int),
        decreases s.len() - i,
    {
        i = i + 1;
    }
    i
}

proof fn lemma_find_from(s: Seq<char>, c: char, i: int, j: int)
    requires
        i == j,
    ensures
        find_char(s, c, i) == find_char(s, c, j),
{
}

fn sub_chars(s: &Vec<char>, from: usize, to: usize) -> (r: Vec<char>)
    requires
        from <= to <= s.len(),
    ensures
        r@ == s@.subrange(from as int, to as int),
{
    let mut r: Vec<char> = Vec::new();
    let mut i = from;
    while i < to
        invariant
            from <= i <= to <= s.len(),
            r@ == s@.subrange(from as int, i as int),
        decreases to - i,
    {
        r.push(s[i]);
        assert(s@.subrange(from as int, i + 1) =~= s@.subrange(from as int, i as int).push(
            s@[i as int],
        ));
        i = i + 1;
    }
    r
}

/// `str::split(c)` collected.
pub fn split_chars(s: &Vec<char>, c: char) -> (r: Vec<Vec<char>>)
    ensures
        r@.map_values(|v: Vec<char>| v@) == split_char(s@, c),
    decreases s.len(),
{
    let k = find_char_exec(s, c, 0);
    proof {
        lemma_find_char_bounds(s@, c, 0);
    }
    if k >= s.len() {
        let mut r: Vec<Vec<char>> = Vec::new();
        r.push(sub_chars(s, 0, s.len()));
        assert(s@.subrange(0, s@.len() as int) =~= s@);
        assert(r@.map_values(|v: Vec<char>| v@) =~= seq![s@]);
        r
    } else {
        let head = sub_chars(s, 0, k);
        let tail = sub_chars(s, k + 1, s.len());
        assert(tail@ =~= s@.skip(k + 1));
        assert(head@ =~= s@.take(k as int));
        let rest = split_chars(&tail, c);
        let mut r: Vec<Vec<char>> = Vec::new();
        r.push(head);
        let mut j: usize = 0;
        let ghost rv_ = rest@.map_values(|v: Vec<char>| v@);
        while j < rest.len()
            invariant
                j <= rest.len(),
                rv_ == rest@.map_values(|v: Vec<char>| v@),
                r@.map_values(|v: Vec<char>| v@) == seq![s@.take(k as int)] + rv_.take(j as int),
            decreases rest.len() - j,
        {
            let piece = rest[j].clone();
            assert(piece@ =~= rest@[j as int]@);
            let ghost old_r = r@;
            r.push(piece);
            assert(r@ == old_r.push(piece));
            assert(r@.map_values(|v: Vec<char>| v@) =~= old_r.map_values(|v: Vec<char>| v@).push(
                piece@,
            ));
            assert(rv_.take(j + 1) =~= rv_.take(j as int).push(rv_[j as int]));
            assert(r@.map_values(|v: Vec<char>| v@) =~= seq![s@.take(k as int)] + rv_.take(
                j + 1,
            ));
            j = j + 1;
        }
        assert(rv_.take(rest.len() as int) =~= rv_);
        r
    }
}

/// Parsed `group:artifact:version[:classifier][@extension]`.
pub struct MavenCoordinates {
    pub group: Vec<char>,
    pub artifact: Vec<char>,
    pub version: Vec<char>,
    pub classifier: Option<Vec<char>>,
    pub extension: Vec<char>,
}

/// The coordinate text before the first `@`, and the extension after it
/// (`jar` without one).
pub open spec fn coordinates_and_extension(raw: Seq<char>) -> (Seq<char>, Seq<char>) {
    let k = find_char(raw, '@', 0);
    if k < raw.len() {
        (raw.take(k), raw.skip(k + 1))
    } else {
        (raw, "jar"@)
    }
}

/// The parts of a Maven coordinate, when it has three or four `:` pieces:
/// group, artifact, version, classifier, extension.
pub open spec fn maven_parts(raw: Seq<char>) -> Option<
    (Seq<char>, Seq<char>, Seq<char>, Option<Seq<char>>, Seq<char>),
> {
    let (coords, ext) = coordinates_and_extension(raw);
    let segs = split_char(coords, ':');
    if segs.len() == 3 {
        Some((segs[0], segs[1], segs[2], None, ext))
    } else if segs.len() == 4 {
        Some((segs[0], segs[1], segs[2], Some(segs[3]), ext))
    } else {
        None
    }
}

impl MavenCoordinates {
    pub open spec fn parts(&self) -> (Seq<char>, Seq<char>, Seq<char>, Option<Seq<char>>, Seq<char>) {
        (
            self.group@,
            self.artifact@,
            self.version@,
            match self.classifier {
                Some(c) => Some(c@),
                None => None,
            },
            self.extension@,
        )
    }

    /// Parses a Maven coordinate; `None` unless it has three or four pieces.
    pub fn parse(raw_value: &str) -> (r: Option<MavenCoordinates>)
        ensures
            match r {
                Some(m) => maven_parts(raw_value@) == Some(m.parts()),
                None => maven_parts(raw_value@) is None,
            },
    {
        let raw = chars_of(raw_value);
        let at = find_char_exec(&raw, '@', 0);
        proof {
            lemma_find_char_bounds(raw@, '@', 0);
        }
        let (coords, extension) = if at < raw.len() {
            (sub_chars(&raw, 0, at), sub_chars(&raw, at + 1, raw.len()))
        } else {
            (sub_chars(&raw, 0, raw.len()), chars_of("jar"))
        };
        assert(raw@.subrange(0, raw@.len() as int) =~= raw@);
        assert(raw@.subrange(0, at as int) =~= raw@.take(at as int));
        assert(at < raw.len() ==> raw@.subrange(at + 1, raw@.len() as int) =~= raw@.skip(at + 1));
        let segments = split_chars(&coords, ':');
        let ghost segs = split_char(coords@, ':');
        assert(segments@.map_values(|v: Vec<char>| v@) == segs);
        if segments.len() == 3 {
            assert(segs[0] == segments@[0]@);
            Some(
                MavenCoordinates {
                    group: segments[0].clone(),
                    artifact: segments[1].clone(),
                    version: segments[2].clone(),
                    classifier: None,
                    extension,
                },
            )
        } else if segments.len() == 4 {
            Some(
                MavenCoordinates {
                    group: segments[0].clone(),
                    artifact: segments[1].clone(),
                    version: segments[2].clone(),
                    classifier: Some(segments[3].clone()),
                    extension,
                },
            )
        } else {
            None
        }
    }
}

/// `artifact-version[-classifier].extension`.
pub open spec fn maven_file_name(
    artifact: Seq<char>,
    version: Seq<char>,
    classifier: Option<Seq<char>>,
    extension: Seq<char>,
) -> Seq<char> {
    artifact + seq!['-'] + version + match classifier {
        Some(c) => seq!['-'] + c,
        None => Seq::empty(),
    } + seq!['.'] + extension
}

/// Where a Maven artifact lies under `libraries_dir`: the group with `.` as
/// `/`, the artifact, the version, then the file name. A classifier given
/// overrides the coordinate's own.
pub open spec fn maven_path(
    libraries_dir: Seq<char>,
    m: (Seq<char>, Seq<char>, Seq<char>, Option<Seq<char>>, Seq<char>),
    classifier_override: Option<Seq<char>>,
) -> Seq<char> {
    let classifier = match classifier_override {
        Some(c) => Some(c),
        None => m.3,
    };
    path_join(
        path_join(
            path_join(path_join(libraries_dir, replace_char_spec(m.0, '.', seq!['/'])), m.1),
            m.2,
        ),
        maven_file_name(m.1, m.2, classifier, m.4),
    )
}

fn maven_file_name_exec(m: &MavenCoordinates, classifier: &Option<Vec<char>>) -> (r: Vec<char>)
    ensures
        r@ == maven_file_name(
            m.artifact@,
            m.version@,
            match *classifier {
                Some(c) => Some(c@),
                None => None,
            },
            m.extension@,
        ),
{
    let mut r = m.artifact.clone();
    r.push('-');
    append_chars(&mut r, &m.version);
    if let Some(c) = classifier {
        r.push('-');
        append_chars(&mut r, c);
    }
    r.push('.');
    append_chars(&mut r, &m.extension);
    r
}

/// Appends the characters of `b` to `a`.
pub fn append_chars(a: &mut Vec<char>, b: &Vec<char>)
    ensures
        final(a)@ == old(a)@ + b@,
{
    let mut i: usize = 0;
    while i < b.len()
        invariant
            i <= b.len(),
            a@ == old(a)@ + b@.take(i as int),
        decreases b.len() - i,
    {
        a.push(b[i]);
        assert(b@.take(i + 1) =~= b@.take(i as int).push(b@[i as int]));
        i = i + 1;
    }
    assert(b@.take(b.len() as int) =~= b@);
}

impl MavenCoordinates {
    /// The path of this artifact under `libraries_dir`.
    pub fn artifact_path(&self, libraries_dir: &str, classifier_override: Option<&str>) -> (r: String)
        ensures
            r@ == maven_path(
                libraries_dir@,
                self.parts(),
                match classifier_override {
                    Some(c) => Some(c@),
                    None => None,
                },
            ),
    {
        let classifier: Option<Vec<char>> = match classifier_override {
            Some(c) => Some(chars_of(c)),
            None => match &self.classifier {
                Some(c) => {
                    let cc = c.clone();
                    assert(cc@ =~= c@);
                    Some(cc)
                },
                None => None,
            },
        };
        let file_name = maven_file_name_exec(self, &classifier);
        let slash = chars_of("/");
        proof {
            reveal_strlit("/");
        }
        assert(slash@ =~= seq!['/']);
        let group_path = replace_char(&self.group, '.', &slash);
        let p1 = join_path(libraries_dir, string_from_chars(group_path.as_slice()).as_str());
        let p2 = join_path(p1.as_str(), string_from_chars(self.artifact.as_slice()).as_str());
        let p3 = join_path(p2.as_str(), string_from_chars(self.version.as_slice()).as_str());
        join_path(p3.as_str(), string_from_chars(file_name.as_slice()).as_str())
    }
}


// ---------------------------------------------------------------------------
// Libraries

/// The value of the first entry with key `key`.
pub open spec fn assoc<V>(t: Seq<(String, V)>, key: Seq<char>) -> Option<V>
    decreases t.len(),
{
    if t.len() == 0 {
        None
    } else if t[0].0@ == key {
        Some(t[0].1)
    } else {
        assoc(t.drop_first(), key)
    }
}

/// With each key once, an association list reads as the map it stands for:
/// every entry gives the value of its key, whichever order the entries come
/// in.
pub proof fn lemma_assoc_of_entry<V>(t: Seq<(String, V)>, k: int)
    requires
        keys_distinct(t),
        0 <= k < t.len(),
    ensures
        assoc(t, t[k].0@) == Some(t[k].1),
    decreases k,
{
    if k > 0 {
        assert(t[0].0@ != t[k].0@);
        let rest = t.drop_first();
        assert(keys_distinct(rest)) by {
            assert forall|i: int, j: int| 0 <= i < j < rest.len() implies #[trigger] rest[i].0@ != #[trigger] rest[j].0@ by {
                assert(rest[i] == t[i + 1] && rest[j] == t[j + 1]);
            }
        }
        assert(rest[k - 1] == t[k]);
        lemma_assoc_of_entry(rest, k - 1);
    }
}

/// Index of the first entry with key `key`.
pub fn assoc_index<V>(t: &Vec<(String, V)>, key: &str) -> (r: Option<usize>)
    ensures
        match r {
            Some(i) => i < t@.len() && assoc(t@, key@) == Some(t@[i as int].1) && t@[i as int].0@
                == key@,
            None => assoc(t@, key@) is None,
        },
{
    let mut i: usize = 0;
    assert(t@.skip(0) =~= t@);
    while i < t.len()
        invariant
            i <= t.len(),
            assoc(t@, key@) == assoc(t@.skip(i as int), key@),
        decreases t.len() - i,
    {
        assert(t@.skip(i as int).drop_first() =~= t@.skip(i + 1));
        if str_eq(t[i].0.as_str(), key) {
            return Some(i);
        }
        i = i + 1;
    }
    None
}

/// Two character sequences are equal.
pub fn chars_eq(a: &Vec<char>, b: &Vec<char>) -> (r: bool)
    ensures
        r == (a@ == b@),
{
    if a.len() != b.len() {
        return false;
    }
    let r = starts_with(a, b);
    assert(a@.subrange(0, b@.len() as int) =~= a@);
    r
}

/// The artifact of a library: its top-level entry, else its `downloads` one.
pub open spec fn primary_artifact(l: Library) -> Option<LibraryDownload> {
    if l.artifact is Some {
        l.artifact
    } else {
        match l.downloads {
            Some(d) => d.artifact,
            None => None,
        }
    }
}

/// A legacy natives library whose top-level artifact only stands in for the
/// native archives.
pub open spec fn legacy_native_placeholder(l: Library) -> bool {
    &&& l.natives@.len() > 0
    &&& l.artifact is Some
    &&& (l.downloads is None || l.downloads->0.artifact is None)
}

/// A manifest path with `\` written as `/`.
pub open spec fn normalized_path(p: Seq<char>) -> Seq<char> {
    replace_char_spec(p, '\\', seq!['/'])
}

/// An optional path result taken by views.
pub open spec fn ropv(r: LauncherResult<Option<String>>) -> Result<Option<Seq<char>>, Seq<char>> {
    match r {
        Ok(Some(p)) => Ok(Some(p@)),
        Ok(None) => Ok(None),
        Err(e) => Err(e.0@),
    }
}

pub open spec fn invalid_coordinate(raw: Seq<char>) -> Seq<char> {
    "Invalid Maven coordinate: "@ + raw
}

/// The path of the library jar that goes on the classpath, if any.
pub open spec fn artifact_path_spec(l: Library, libraries_dir: Seq<char>) -> Result<
    Option<Seq<char>>,
    Seq<char>,
> {
    if legacy_native_placeholder(l) {
        Ok(None)
    } else {
        match primary_artifact(l) {
            Some(a) => match a.path {
                None => Err("A library artifact entry is missing its path."@),
                Some(p) => Ok(Some(path_join(libraries_dir, normalized_path(p@)))),
            },
            None => if l.natives@.len() > 0 {
                Ok(None)
            } else {
                match l.name {
                    None => Ok(None),
                    Some(n) => match maven_parts(n@) {
                        None => Err(invalid_coordinate(n@)),
                        Some(m) => Ok(Some(maven_path(libraries_dir, m, None))),
                    },
                }
            },
        }
    }
}

/// The native classifier of a library on this OS, with `${arch}` replaced by
/// the pointer width; `osx` falls back to a `macos` entry.
pub open spec fn native_classifier_spec(l: Library, env: RuntimeEnvironment) -> Option<Seq<char>> {
    let key = match assoc(l.natives@, env.os_name@) {
        Some(v) => Some(v),
        None => if env.os_name@ == "osx"@ {
            assoc(l.natives@, "macos"@)
        } else {
            None
        },
    };
    match key {
        Some(v) => Some(replace_all_spec(v@, "${arch}"@, env.arch_bits@)),
        None => None,
    }
}

proof fn lemma_replace_arch_absent(s: Seq<char>, to: Seq<char>)
    requires
        forall|k: int| 0 <= k < s.len() ==> s[k] != '$',
    ensures
        replace_all_spec(s, "${arch}"@, to) == s,
    decreases s.len(),
{
    reveal_strlit("${arch}");
    if s.len() >= 7 {
        assert(s.take(7)[0] != "${arch}"@[0]);
        lemma_replace_arch_absent(s.drop_first(), to);
        assert(seq![s[0]] + s.drop_first() =~= s);
    }
}

proof fn lemma_replace_arch_once(p: Seq<char>, q: Seq<char>, to: Seq<char>)
    requires
        forall|k: int| 0 <= k < p.len() ==> p[k] != '$',
        forall|k: int| 0 <= k < q.len() ==> q[k] != '$',
    ensures
        replace_all_spec(p + "${arch}"@ + q, "${arch}"@, to) == p + to + q,
    decreases p.len(),
{
    reveal_strlit("${arch}");
    let s = p + "${arch}"@ + q;
    if p.len() == 0 {
        assert(s =~= "${arch}"@ + q);
        assert(s.take(7) =~= "${arch}"@);
        assert(s.skip(7) =~= q);
        lemma_replace_arch_absent(q, to);
        assert(p + to + q =~= to + q);
    } else {
        assert(s.take(7)[0] == p[0]);
        assert(s.take(7) != "${arch}"@);
        let p2 = p.drop_first();
        assert(s.drop_first() =~= p2 + "${arch}"@ + q);
        lemma_replace_arch_once(p2, q, to);
        assert(seq![s[0]] + (p2 + to + q) =~= p + to + q);
    }
}

/// The native classifier of a library is its natives entry for the OS with
/// `${arch}` filled in by the environment's pointer width: an entry
/// `natives-windows-${arch}` gives `natives-windows-64` on a 64-bit host,
/// and an entry without a placeholder is taken as it is.
pub proof fn lemma_native_classifier_fills_arch(l: Library, env: RuntimeEnvironment, p: Seq<char>, q: Seq<char>)
    requires
        assoc(l.natives@, env.os_name@) matches Some(entry) && entry@ == p + "${arch}"@ + q,
        forall|k: int| 0 <= k < p.len() ==> p[k] != '$',
        forall|k: int| 0 <= k < q.len() ==> q[k] != '$',
    ensures
        native_classifier_spec(l, env) == Some(p + env.arch_bits@ + q),
        (forall|k: int| 0 <= k < env.arch_bits@.len() ==> env.arch_bits@[k] != '$') ==> forall|k: int|
            0 <= k < (p + env.arch_bits@ + q).len() ==> (p + env.arch_bits@ + q)[k] != '$',
{
    lemma_replace_arch_once(p, q, env.arch_bits@);
}

/// A natives entry without `$` is the classifier itself.
pub proof fn lemma_native_classifier_plain(l: Library, env: RuntimeEnvironment, v: Seq<char>)
    requires
        assoc(l.natives@, env.os_name@) matches Some(entry) && entry@ == v,
        forall|k: int| 0 <= k < v.len() ==> v[k] != '$',
    ensures
        native_classifier_spec(l, env) == Some(v),
{
    lemma_replace_arch_absent(v, env.arch_bits@);
}

/// The keys a classifier is looked up under: itself, then for
/// `natives-<os>` the bare OS name, and for `osx` also `macos`.
pub open spec fn classifier_keys(c: Seq<char>) -> Seq<Seq<char>> {
    if seq_starts_with(c, "natives-"@) {
        let os = c.skip("natives-"@.len() as int);
        if os == "osx"@ {
            seq![c, os, "macos"@]
        } else {
            seq![c, os]
        }
    } else {
        seq![c]
    }
}

/// The download of one key: `classifiers`, then `classifies`, then
/// `downloads.classifiers`.
pub open spec fn download_for_key(l: Library, key: Seq<char>) -> Option<LibraryDownload> {
    match assoc(l.classifiers@, key) {
        Some(d) => Some(d),
        None => match assoc(l.classifies@, key) {
            Some(d) => Some(d),
            None => match l.downloads {
                Some(ds) => assoc(ds.classifiers@, key),
                None => None,
            },
        },
    }
}

/// The download of the first key that has one.
pub open spec fn first_download(l: Library, keys: Seq<Seq<char>>) -> Option<LibraryDownload>
    decreases keys.len(),
{
    if keys.len() == 0 {
        None
    } else {
        match download_for_key(l, keys[0]) {
            Some(d) => Some(d),
            None => first_download(l, keys.drop_first()),
        }
    }
}

/// The path of a library's native archive for a classifier, if any.
pub open spec fn classifier_path_spec(l: Library, libraries_dir: Seq<char>, c: Seq<char>) -> Result<
    Option<Seq<char>>,
    Seq<char>,
> {
    match first_download(l, classifier_keys(c)) {
        Some(d) => match d.path {
            None => Err("A native classifier entry is missing its path."@),
            Some(p) => Ok(Some(path_join(libraries_dir, normalized_path(p@)))),
        },
        None => match l.name {
            None => Ok(None),
            Some(n) => match maven_parts(n@) {
                None => Err(invalid_coordinate(n@)),
                Some(m) => Ok(Some(maven_path(libraries_dir, m, Some(c)))),
            },
        },
    }
}

/// The key libraries are merged by: the name, else the artifact path. A
/// library with neither is distinct from every other.
pub open spec fn library_key(l: Library) -> Option<Seq<char>> {
    match l.name {
        Some(n) => Some(n@),
        None => match primary_artifact(l) {
            Some(a) => match a.path {
                Some(p) => Some(p@),
                None => None,
            },
            None => None,
        },
    }
}

fn normalized_join(libraries_dir: &str, path: &String) -> (r: String)
    ensures
        r@ == path_join(libraries_dir@, normalized_path(path@)),
{
    let p = chars_of(path.as_str());
    let slash = chars_of("/");
    proof {
        reveal_strlit("/");
    }
    assert(slash@ =~= seq!['/']);
    let n = replace_char(&p, '\\', &slash);
    join_path(libraries_dir, string_from_chars(n.as_slice()).as_str())
}

impl Library {
    /// Each of the library's maps names a key once, and so does each of its
    /// rules' feature lists.
    pub open spec fn well_formed(&self) -> bool {
        &&& keys_distinct(self.classifiers@)
        &&& keys_distinct(self.classifies@)
        &&& keys_distinct(self.natives@)
        &&& (self.downloads matches Some(d) ==> keys_distinct(d.classifiers@))
        &&& forall|i: int| 0 <= i < self.rules@.len() ==> #[trigger] self.rules@[i].well_formed()
    }

    /// Whether the library's rules allow it here.
    pub fn is_allowed(&self, environment: &RuntimeEnvironment) -> (r: LauncherResult<bool>)
        ensures
            rv(r) == rules_allow_spec(self.rules@, *environment),
    {
        rules_allow(&self.rules, environment)
    }

    fn primary_artifact(&self) -> (r: Option<&LibraryDownload>)
        ensures
            match r {
                Some(a) => primary_artifact(*self) == Some(*a),
                None => primary_artifact(*self) is None,
            },
    {
        match &self.artifact {
            Some(a) => Some(a),
            None => match &self.downloads {
                Some(d) => match &d.artifact {
                    Some(a) => Some(a),
                    None => None,
                },
                None => None,
            },
        }
    }

    fn is_legacy_native_placeholder_artifact(&self) -> (r: bool)
        ensures
            r == legacy_native_placeholder(*self),
    {
        self.natives.len() > 0 && self.artifact.is_some() && match &self.downloads {
            None => true,
            Some(d) => d.artifact.is_none(),
        }
    }

    /// The library jar that goes on the classpath, under `libraries_dir`.
    pub fn artifact_path(&self, libraries_dir: &str) -> (r: LauncherResult<Option<String>>)
        ensures
            ropv(r) == artifact_path_spec(*self, libraries_dir@),
    {
        if self.is_legacy_native_placeholder_artifact() {
            return Ok(None);
        }
        if let Some(artifact) = self.primary_artifact() {
            return match &artifact.path {
                None => Err(
                    LauncherError::new(
                        String::from_str("A library artifact entry is missing its path."),
                    ),
                ),
                Some(p) => Ok(Some(normalized_join(libraries_dir, p))),
            };
        }
        if self.natives.len() > 0 {
            return Ok(None);
        }
        if let Some(name) = &self.name {
            return match MavenCoordinates::parse(name.as_str()) {
                None => Err(error_with("Invalid Maven coordinate: ", name.as_str())),
                Some(m) => Ok(Some(m.artifact_path(libraries_dir, None))),
            };
        }
        Ok(None)
    }

    /// The native classifier of this library for the environment.
    pub fn native_classifier(&self, environment: &RuntimeEnvironment) -> (r: Option<String>)
        ensures
            match r {
                Some(c) => native_classifier_spec(*self, *environment) == Some(c@),
                None => native_classifier_spec(*self, *environment) is None,
            },
    {
        let idx = match assoc_index(&self.natives, environment.os_name.as_str()) {
            Some(i) => Some(i),
            None => {
                let os = chars_of(environment.os_name.as_str());
                let osx = chars_of("osx");
                if chars_eq(&os, &osx) {
                    assoc_index(&self.natives, "macos")
                } else {
                    None
                }
            },
        };
        match idx {
            None => None,
            Some(i) => {
                let v = chars_of(self.natives[i].1.as_str());
                let pat = chars_of("${arch}");
                proof {
                    reveal_strlit("${arch}");
                }
                let bits = chars_of(environment.arch_bits.as_str());
                let replaced = replace_all(&v, &pat, &bits);
                Some(string_from_chars(replaced.as_slice()))
            },
        }
    }

    fn download_for_key(&self, key: &str) -> (r: Option<&LibraryDownload>)
        ensures
            match r {
                Some(d) => download_for_key(*self, key@) == Some(*d),
                None => download_for_key(*self, key@) is None,
            },
    {
        if let Some(i) = assoc_index(&self.classifiers, key) {
            return Some(&self.classifiers[i].1);
        }
        if let Some(i) = assoc_index(&self.classifies, key) {
            return Some(&self.classifies[i].1);
        }
        if let Some(ds) = &self.downloads {
            if let Some(i) = assoc_index(&ds.classifiers, key) {
                return Some(&ds.classifiers[i].1);
            }
        }
        None
    }

    fn classifier_download(&self, classifier: &str) -> (r: Option<&LibraryDownload>)
        ensures
            match r {
                Some(d) => first_download(*self, classifier_keys(classifier@)) == Some(*d),
                None => first_download(*self, classifier_keys(classifier@)) is None,
            },
    {
        let keys = classifier_key_list(classifier);
        let mut i: usize = 0;
        assert(keys@.map_values(|k: String| k@).skip(0) =~= keys@.map_values(|k: String| k@));
        while i < keys.len()
            invariant
                i <= keys.len(),
                keys@.map_values(|k: String| k@) == classifier_keys(classifier@),
                first_download(*self, classifier_keys(classifier@)) == first_download(
                    *self,
                    keys@.map_values(|k: String| k@).skip(i as int),
                ),
            decreases keys.len() - i,
        {
            let ghost ks = keys@.map_values(|k: String| k@);
            assert(ks.skip(i as int).drop_first() =~= ks.skip(i + 1));
            assert(ks.skip(i as int)[0] == keys@[i as int]@);
            if let Some(d) = self.download_for_key(keys[i].as_str()) {
                return Some(d);
            }
            i = i + 1;
        }
        None
    }

    /// The native archive of this library for a classifier, under
    /// `libraries_dir`.
    pub fn classifier_path(&self, libraries_dir: &str, classifier: &str) -> (r: LauncherResult<
        Option<String>,
    >)
        ensures
            ropv(r) == classifier_path_spec(*self, libraries_dir@, classifier@),
    {
        if let Some(download) = self.classifier_download(classifier) {
            return match &download.path {
                None => Err(
                    LauncherError::new(
                        String::from_str("A native classifier entry is missing its path."),
                    ),
                ),
                Some(p) => Ok(Some(normalized_join(libraries_dir, p))),
            };
        }
        if let Some(name) = &self.name {
            return match MavenCoordinates::parse(name.as_str()) {
                None => Err(error_with("Invalid Maven coordinate: ", name.as_str())),
                Some(m) => Ok(Some(m.artifact_path(libraries_dir, Some(classifier)))),
            };
        }
        Ok(None)
    }

    /// The key the library is merged by; `None` when it has neither a name
    /// nor an artifact path, which makes it distinct from every library.
    pub fn identity_key(&self) -> (r: Option<String>)
        ensures
            match r {
                Some(k) => library_key(*self) == Some(k@),
                None => library_key(*self) is None,
            },
    {
        if let Some(name) = &self.name {
            return Some(name.clone());
        }
        if let Some(artifact) = self.primary_artifact() {
            if let Some(path) = &artifact.path {
                return Some(path.clone());
            }
        }
        None
    }
}

/// The lookup keys of a classifier.
fn classifier_key_list(classifier: &str) -> (r: Vec<String>)
    ensures
        r@.map_values(|k: String| k@) == classifier_keys(classifier@),
{
    let c = chars_of(classifier);
    let prefix = chars_of("natives-");
    proof {
        reveal_strlit("natives-");
    }
    let mut keys: Vec<String> = Vec::new();
    keys.push(String::from_str(classifier));
    if starts_with(&c, &prefix) {
        let mut os: Vec<char> = Vec::new();
        let mut i: usize = prefix.len();
        while i < c.len()
            invariant
                prefix.len() <= i <= c.len(),
                os@ == c@.subrange(prefix.len() as int, i as int),
            decreases c.len() - i,
        {
            os.push(c[i]);
            assert(c@.subrange(prefix.len() as int, i + 1) =~= c@.subrange(
                prefix.len() as int,
                i as int,
            ).push(c@[i as int]));
            i = i + 1;
        }
        assert(os@ =~= c@.skip("natives-"@.len() as int));
        keys.push(string_from_chars(os.as_slice()));
        let osx = chars_of("osx");
        if chars_eq(&os, &osx) {
            keys.push(String::from_str("macos"));
        }
        assert(keys@.map_values(|k: String| k@) =~= classifier_keys(classifier@));
    } else {
        assert(keys@.map_values(|k: String| k@) =~= classifier_keys(classifier@));
    }
    keys
}


// ---------------------------------------------------------------------------
// Launch arguments

/// The state of the legacy argument splitter: the arguments so far, the one
/// being read, inside quotes, after a backslash inside quotes.
pub type LegacyState = (Seq<Seq<char>>, Seq<char>, bool, bool);

pub open spec fn legacy_step(st: LegacyState, c: char) -> LegacyState {
    let (parsed, buf, quoted, escaped) = st;
    if escaped {
        (parsed, buf.push(c), quoted, false)
    } else if c == '\\' && quoted {
        (parsed, buf, quoted, true)
    } else if c == '"' {
        (parsed, buf, !quoted, false)
    } else if (c == ' ' || c == '\t') && !quoted {
        if buf.len() > 0 {
            (parsed.push(buf), Seq::empty(), quoted, false)
        } else {
            st
        }
    } else {
        (parsed, buf.push(c), quoted, false)
    }
}

pub open spec fn legacy_state(s: Seq<char>) -> LegacyState
    decreases s.len(),
{
    if s.len() == 0 {
        (Seq::empty(), Seq::empty(), false, false)
    } else {
        legacy_step(legacy_state(s.drop_last()), s.last())
    }
}

/// The arguments of a legacy `minecraftArguments` string: split at spaces
/// and tabs outside double quotes; quotes are dropped, and inside quotes a
/// backslash takes the next character as it is.
pub open spec fn split_legacy_spec(s: Seq<char>) -> Seq<Seq<char>> {
    let st = legacy_state(s);
    if st.1.len() > 0 {
        st.0.push(st.1)
    } else {
        st.0
    }
}

/// Splits a legacy argument string into arguments.
pub fn split_legacy_arguments(arguments: &str) -> (r: Vec<String>)
    ensures
        views(r@) == split_legacy_spec(arguments@),
{
    let chars = chars_of(arguments);
    let mut parsed: Vec<String> = Vec::new();
    let mut buffer: Vec<char> = Vec::new();
    let mut in_quotes = false;
    let mut escaped = false;
    let mut i: usize = 0;
    while i < chars.len()
        invariant
            i <= chars.len(),
            chars@ == arguments@,
            (views(parsed@), buffer@, in_quotes, escaped) == legacy_state(chars@.take(i as int)),
        decreases chars.len() - i,
    {
        let c = chars[i];
        assert(chars@.take(i + 1).drop_last() =~= chars@.take(i as int));
        assert(chars@.take(i + 1).last() == c);
        if escaped {
            buffer.push(c);
            escaped = false;
        } else if c == '\\' && in_quotes {
            escaped = true;
        } else if c == '"' {
            in_quotes = !in_quotes;
        } else if (c == ' ' || c == '\t') && !in_quotes {
            if buffer.len() > 0 {
                let arg = string_from_chars(buffer.as_slice());
                let ghost before = views(parsed@);
                parsed.push(arg);
                assert(views(parsed@) =~= before.push(buffer@));
                buffer = Vec::new();
            }
        } else {
            buffer.push(c);
        }
        i = i + 1;
    }
    assert(chars@.take(chars.len() as int) =~= chars@);
    if buffer.len() > 0 {
        let arg = string_from_chars(buffer.as_slice());
        let ghost before = views(parsed@);
        parsed.push(arg);
        assert(views(parsed@) =~= before.push(buffer@));
    }
    parsed
}

/// No argument the legacy splitter returns is empty.
pub proof fn lemma_legacy_arguments_nonempty(s: Seq<char>)
    ensures
        forall|i: int|
            0 <= i < split_legacy_spec(s).len() ==> (#[trigger] split_legacy_spec(s)[i]).len() > 0,
{
    lemma_legacy_state_nonempty(s);
}

proof fn lemma_legacy_state_nonempty(s: Seq<char>)
    ensures
        forall|i: int| 0 <= i < legacy_state(s).0.len() ==> (#[trigger] legacy_state(s).0[i]).len() > 0,
    decreases s.len(),
{
    if s.len() > 0 {
        lemma_legacy_state_nonempty(s.drop_last());
        let prev = legacy_state(s.drop_last());
        let cur = legacy_state(s);
        assert(cur == legacy_step(prev, s.last()));
        assert forall|i: int| 0 <= i < cur.0.len() implies (#[trigger] cur.0[i]).len() > 0 by {
            if i < prev.0.len() {
                assert(cur.0[i] == prev.0[i]);
            }
        }
    }
}

/// A space or a tab.
pub open spec fn is_blank(c: char) -> bool {
    c == ' ' || c == '\t'
}

/// `s` cut at every space and tab (the pieces between two blanks may be
/// empty).
pub open spec fn split_blanks(s: Seq<char>) -> Seq<Seq<char>>
    decreases s.len(),
{
    if s.len() == 0 {
        seq![Seq::empty()]
    } else {
        let r = split_blanks(s.drop_last());
        if is_blank(s.last()) {
            r.push(Seq::empty())
        } else {
            r.update(r.len() - 1, r.last().push(s.last()))
        }
    }
}

/// The pieces that are not empty, in order.
pub open spec fn nonempty_pieces(p: Seq<Seq<char>>) -> Seq<Seq<char>>
    decreases p.len(),
{
    if p.len() == 0 {
        Seq::empty()
    } else {
        let r = nonempty_pieces(p.drop_last());
        if p.last().len() > 0 {
            r.push(p.last())
        } else {
            r
        }
    }
}

proof fn lemma_legacy_state_unquoted(s: Seq<char>)
    requires
        !s.contains('"'),
    ensures
        split_blanks(s).len() >= 1,
        legacy_state(s) == (nonempty_pieces(split_blanks(s).drop_last()), split_blanks(s).last(), false, false),
    decreases s.len(),
{
    if s.len() > 0 {
        let prev = s.drop_last();
        assert(!prev.contains('"')) by {
            if prev.contains('"') {
                let k = choose|k: int| 0 <= k < prev.len() && prev[k] == '"';
                assert(s[k] == '"');
            }
        }
        assert(s.last() != '"') by {
            assert(s[s.len() - 1] == s.last());
        }
        lemma_legacy_state_unquoted(prev);
        let p = split_blanks(prev);
        let c = s.last();
        if is_blank(c) {
            assert(split_blanks(s) == p.push(Seq::<char>::empty()));
            assert(p.push(Seq::<char>::empty()).drop_last() =~= p);
            assert(p =~= p.drop_last().push(p.last()));
        } else {
            let q = p.update(p.len() - 1, p.last().push(c));
            assert(split_blanks(s) == q);
            assert(q.drop_last() =~= p.drop_last());
        }
    }
}

/// Without double quotes the legacy splitter only splits: its arguments are
/// the text cut at spaces and tabs, empty pieces dropped (so none is empty).
pub proof fn lemma_legacy_split_without_quotes(s: Seq<char>)
    requires
        !s.contains('"'),
    ensures
        split_legacy_spec(s) == nonempty_pieces(split_blanks(s)),
{
    lemma_legacy_state_unquoted(s);
    let p = split_blanks(s);
    assert(p =~= p.drop_last().push(p.last()));
}

/// A list of strings result taken by views.
pub open spec fn rlv(r: LauncherResult<Vec<String>>) -> Result<Seq<Seq<char>>, Seq<char>> {
    match r {
        Ok(v) => Ok(views(v@)),
        Err(e) => Err(e.0@),
    }
}

/// Every template rendered with the table, in order; the first failure
/// stops.
pub open spec fn render_all(t: Seq<(Seq<char>, Seq<char>)>, raws: Seq<Seq<char>>) -> Result<
    Seq<Seq<char>>,
    Seq<char>,
>
    decreases raws.len(),
{
    if raws.len() == 0 {
        Ok(Seq::empty())
    } else {
        match render_all(t, raws.drop_last()) {
            Err(e) => Err(e),
            Ok(acc) => match table_render(t, raws.last()) {
                Err(e) => Err(e),
                Ok(v) => Ok(acc.push(v)),
            },
        }
    }
}

/// The arguments one manifest entry contributes.
pub open spec fn entry_outcome(
    e: ArgumentEntry,
    env: RuntimeEnvironment,
    t: Seq<(Seq<char>, Seq<char>)>,
) -> Result<Seq<Seq<char>>, Seq<char>> {
    match e {
        ArgumentEntry::String(v) => render_all(t, seq![v@]),
        ArgumentEntry::Conditional(c) => match rules_allow_spec(c.rules@, env) {
            Err(e) => Err(e),
            Ok(false) => Ok(Seq::empty()),
            Ok(true) => match c.value {
                ArgumentValue::String(v) => render_all(t, seq![v@]),
                ArgumentValue::Strings(vs) => render_all(t, views(vs@)),
            },
        },
    }
}

/// The arguments of the first `n` entries, in order.
pub open spec fn entries_outcome(
    entries: Seq<ArgumentEntry>,
    env: RuntimeEnvironment,
    t: Seq<(Seq<char>, Seq<char>)>,
    n: nat,
) -> Result<Seq<Seq<char>>, Seq<char>>
    decreases n,
{
    if n == 0 {
        Ok(Seq::empty())
    } else {
        match entries_outcome(entries, env, t, (n - 1) as nat) {
            Err(e) => Err(e),
            Ok(acc) => match entry_outcome(entries[n - 1], env, t) {
                Err(e) => Err(e),
                Ok(x) => Ok(acc + x),
            },
        }
    }
}

proof fn lemma_render_all_error_persists(t: Seq<(Seq<char>, Seq<char>)>, raws: Seq<Seq<char>>, k: int)
    requires
        0 <= k <= raws.len(),
        render_all(t, raws.take(k)) is Err,
    ensures
        render_all(t, raws) == render_all(t, raws.take(k)),
    decreases raws.len() - k,
{
    if k < raws.len() {
        assert(raws.take(k + 1).drop_last() =~= raws.take(k));
        assert(render_all(t, raws.take(k + 1)) == render_all(t, raws.take(k)));
        lemma_render_all_error_persists(t, raws, k + 1);
    } else {
        assert(raws.take(k) =~= raws);
    }
}

/// Renders every template of a list.
fn render_list(variables: &LaunchVariables, raws: &Vec<String>) -> (r: LauncherResult<Vec<String>>)
    ensures
        rlv(r) == render_all(variables.table(), views(raws@)),
{
    let mut out: Vec<String> = Vec::new();
    let mut i: usize = 0;
    assert(views(raws@).take(0) =~= Seq::<Seq<char>>::empty());
    assert(views(out@) =~= Seq::<Seq<char>>::empty());
    while i < raws.len()
        invariant
            i <= raws.len(),
            render_all(variables.table(), views(raws@).take(i as int)) == Ok::<
                Seq<Seq<char>>,
                Seq<char>,
            >(views(out@)),
        decreases raws.len() - i,
    {
        let ghost vs = views(raws@);
        assert(vs.take(i + 1).drop_last() =~= vs.take(i as int));
        assert(vs.take(i + 1).last() == raws@[i as int]@);
        match variables.replace_placeholders(raws[i].as_str()) {
            Ok(v) => {
                let ghost before = views(out@);
                out.push(v);
                assert(views(out@) =~= before.push(v@));
            },
            Err(e) => {
                proof {
                    lemma_render_all_error_persists(variables.table(), vs, i + 1);
                }
                return Err(e);
            },
        }
        i = i + 1;
    }
    assert(views(raws@).take(raws.len() as int) =~= views(raws@));
    Ok(out)
}

fn single(s: &String) -> (r: Vec<String>)
    ensures
        views(r@) == seq![s@],
{
    let mut r: Vec<String> = Vec::new();
    r.push(s.clone());
    assert(views(r@) =~= seq![s@]);
    r
}

fn collect_entry(
    entry: &ArgumentEntry,
    environment: &RuntimeEnvironment,
    variables: &LaunchVariables,
) -> (r: LauncherResult<Vec<String>>)
    ensures
        rlv(r) == entry_outcome(*entry, *environment, variables.table()),
{
    match entry {
        ArgumentEntry::String(v) => render_list(variables, &single(v)),
        ArgumentEntry::Conditional(c) => {
            match rules_allow(&c.rules, environment) {
                Err(e) => Err(e),
                Ok(false) => {
                    let r: Vec<String> = Vec::new();
                    assert(views(r@) =~= Seq::<Seq<char>>::empty());
                    Ok(r)
                },
                Ok(true) => match &c.value {
                    ArgumentValue::String(v) => render_list(variables, &single(v)),
                    ArgumentValue::Strings(vs) => render_list(variables, vs),
                },
            }
        },
    }
}

proof fn lemma_entries_error_persists(
    entries: Seq<ArgumentEntry>,
    env: RuntimeEnvironment,
    t: Seq<(Seq<char>, Seq<char>)>,
    k: nat,
    n: nat,
)
    requires
        k <= n,
        entries_outcome(entries, env, t, k) is Err,
    ensures
        entries_outcome(entries, env, t, n) == entries_outcome(entries, env, t, k),
    decreases n - k,
{
    if k < n {
        lemma_entries_error_persists(entries, env, t, k, (n - 1) as nat);
    }
}

/// The arguments of a list of manifest entries: plain values rendered,
/// conditional ones only where their rules allow.
fn collect_argument_entries(
    arguments: &Vec<ArgumentEntry>,
    environment: &RuntimeEnvironment,
    variables: &LaunchVariables,
) -> (r: LauncherResult<Vec<String>>)
    ensures
        rlv(r) == entries_outcome(arguments@, *environment, variables.table(), arguments@.len()),
{
    let mut resolved: Vec<String> = Vec::new();
    let mut i: usize = 0;
    assert(views(resolved@) =~= Seq::<Seq<char>>::empty());
    while i < arguments.len()
        invariant
            i <= arguments.len(),
            entries_outcome(arguments@, *environment, variables.table(), i as nat) == Ok::<
                Seq<Seq<char>>,
                Seq<char>,
            >(views(resolved@)),
        decreases arguments.len() - i,
    {
        match collect_entry(&arguments[i], environment, variables) {
            Err(e) => {
                proof {
                    lemma_entries_error_persists(
                        arguments@,
                        *environment,
                        variables.table(),
                        (i + 1) as nat,
                        arguments@.len(),
                    );
                }
                return Err(e);
            },
            Ok(vals) => {
                let ghost before = views(resolved@);
                let mut j: usize = 0;
                while j < vals.len()
                    invariant
                        j <= vals.len(),
                        views(resolved@) == before + views(vals@).take(j as int),
                    decreases vals.len() - j,
                {
                    let ghost prev = views(resolved@);
                    resolved.push(vals[j].clone());
                    assert(views(resolved@) =~= prev.push(vals@[j as int]@));
                    assert(views(vals@).take(j + 1) =~= views(vals@).take(j as int).push(
                        vals@[j as int]@,
                    ));
                    assert(views(resolved@) =~= before + views(vals@).take(j + 1));
                    j = j + 1;
                }
                assert(views(vals@).take(vals.len() as int) =~= views(vals@));
            },
        }
        i = i + 1;
    }
    Ok(resolved)
}

/// The JVM arguments a legacy manifest is launched with.
pub open spec fn legacy_jvm_templates() -> Seq<Seq<char>> {
    seq![
        "-Djava.library.path=${natives_directory}"@,
        "-Dminecraft.launcher.brand=${launcher_name}"@,
        "-Dminecraft.launcher.version=${launcher_version}"@,
        "-cp"@,
        "${classpath}"@,
    ]
}

proof fn lemma_render_all_ok(t: Seq<(Seq<char>, Seq<char>)>, raws: Seq<Seq<char>>)
    ensures
        render_all(t, raws) matches Ok(acc) ==> acc.len() == raws.len() && forall|i: int|
            0 <= i < raws.len() ==> table_render(t, #[trigger] raws[i]) == Ok::<Seq<char>, Seq<char>>(acc[i]),
    decreases raws.len(),
{
    if raws.len() > 0 {
        lemma_render_all_ok(t, raws.drop_last());
        if let Ok(acc) = render_all(t, raws) {
            let prev = render_all(t, raws.drop_last())->Ok_0;
            assert forall|i: int| 0 <= i < raws.len() implies table_render(t, #[trigger] raws[i]) == Ok::<
                Seq<char>,
                Seq<char>,
            >(acc[i]) by {
                if i < raws.len() - 1 {
                    assert(raws.drop_last()[i] == raws[i]);
                    assert(acc[i] == prev[i]);
                }
            }
        }
    }
}

/// A legacy manifest (no `arguments` block) launches the JVM with exactly
/// five arguments: the library path set to the natives directory of the
/// launch variables first, then the launcher brand and version, and `-cp`
/// followed by the classpath.
pub proof fn lemma_legacy_jvm_arguments(
    m: ResolvedManifest,
    t: Seq<(Seq<char>, Seq<char>)>,
    env: RuntimeEnvironment,
    natives: Seq<char>,
    classpath: Seq<char>,
)
    requires
        m.modern_arguments is None,
        m.legacy_minecraft_arguments is Some,
        crate::launch::table_lookup(t, "natives_directory"@) == Some(natives),
        crate::launch::table_lookup(t, "classpath"@) == Some(classpath),
    ensures
        launch_arguments_spec(m, t, env) matches Ok((j, g)) ==> {
            &&& j.len() == 5
            &&& j[0] == "-Djava.library.path="@ + natives
            &&& j[3] == "-cp"@
            &&& j[4] == classpath
        },
{
    reveal_strlit("-Djava.library.path=${natives_directory}");
    reveal_strlit("-Djava.library.path=");
    reveal_strlit("natives_directory");
    reveal_strlit("${classpath}");
    reveal_strlit("classpath");
    reveal_strlit("${");
    reveal_strlit("}");
    reveal_strlit("-cp");
    reveal_strlit("");
    let tm = legacy_jvm_templates();
    lemma_render_all_ok(t, tm);
    let lib = "-Djava.library.path="@;
    assert(tm[0] =~= lib + "${"@ + "natives_directory"@ + "}"@);
    crate::launch::lemma_render_trailing_placeholder(t, lib, "natives_directory"@, natives);
    assert(tm[4] =~= Seq::<char>::empty() + "${"@ + "classpath"@ + "}"@);
    crate::launch::lemma_render_trailing_placeholder(t, Seq::<char>::empty(), "classpath"@, classpath);
    assert(Seq::<char>::empty() + classpath =~= classpath);
    assert(tm[3] == "-cp"@);
    assert forall|k: int| 0 <= k < tm[3].len() implies !crate::patterns::placeholder_at(tm[3], k) by {
    }
    crate::launch::lemma_plain_text_unchanged(t, tm[3]);
}

/// The JVM and game arguments of a manifest: its `arguments` block when it
/// has one, else the legacy templates and its split `minecraftArguments`.
pub open spec fn launch_arguments_spec(
    m: ResolvedManifest,
    t: Seq<(Seq<char>, Seq<char>)>,
    env: RuntimeEnvironment,
) -> Result<(Seq<Seq<char>>, Seq<Seq<char>>), Seq<char>> {
    match m.modern_arguments {
        Some(a) => match entries_outcome(a.jvm@, env, t, a.jvm@.len()) {
            Err(e) => Err(e),
            Ok(j) => match entries_outcome(a.game@, env, t, a.game@.len()) {
                Err(e) => Err(e),
                Ok(g) => Ok((j, g)),
            },
        },
        None => match m.legacy_minecraft_arguments {
            Some(l) => match render_all(t, legacy_jvm_templates()) {
                Err(e) => Err(e),
                Ok(j) => match render_all(t, split_legacy_spec(l@)) {
                    Err(e) => Err(e),
                    Ok(g) => Ok((j, g)),
                },
            },
            None => Err("The selected version manifest does not expose launch arguments."@),
        },
    }
}

pub open spec fn rargs(r: LauncherResult<LaunchArguments>) -> Result<
    (Seq<Seq<char>>, Seq<Seq<char>>),
    Seq<char>,
> {
    match r {
        Ok(a) => Ok((views(a.jvm_arguments@), views(a.game_arguments@))),
        Err(e) => Err(e.0@),
    }
}

fn legacy_jvm_template_list() -> (r: Vec<String>)
    ensures
        views(r@) == legacy_jvm_templates(),
{
    let mut r: Vec<String> = Vec::new();
    r.push(String::from_str("-Djava.library.path=${natives_directory}"));
    r.push(String::from_str("-Dminecraft.launcher.brand=${launcher_name}"));
    r.push(String::from_str("-Dminecraft.launcher.version=${launcher_version}"));
    r.push(String::from_str("-cp"));
    r.push(String::from_str("${classpath}"));
    assert(views(r@) =~= legacy_jvm_templates());
    r
}

/// The JVM and game arguments of a manifest for this environment.
pub fn collect_launch_arguments(
    manifest: &ResolvedManifest,
    variables: &LaunchVariables,
    environment: &RuntimeEnvironment,
) -> (r: LauncherResult<LaunchArguments>)
    ensures
        rargs(r) == launch_arguments_spec(*manifest, variables.table(), *environment),
{
    if let Some(arguments) = &manifest.modern_arguments {
        let jvm_arguments = collect_argument_entries(&arguments.jvm, environment, variables)?;
        let game_arguments = collect_argument_entries(&arguments.game, environment, variables)?;
        return Ok(LaunchArguments { jvm_arguments, game_arguments });
    }
    if let Some(legacy) = &manifest.legacy_minecraft_arguments {
        let jvm_arguments = render_list(variables, &legacy_jvm_template_list())?;
        let game_arguments = render_list(variables, &split_legacy_arguments(legacy.as_str()))?;
        return Ok(LaunchArguments { jvm_arguments, game_arguments });
    }
    Err(
        LauncherError::new(
            String::from_str("The selected version manifest does not expose launch arguments."),
        ),
    )
}


// ---------------------------------------------------------------------------
// Inheritance

/// Libraries with a key that a later library shares are dropped: the
/// last library of each key stays, in its place.
pub open spec fn dedup_last(s: Seq<Library>) -> Seq<Library>
    decreases s.len(),
{
    if s.len() == 0 {
        Seq::empty()
    } else {
        let rest = dedup_last(s.drop_first());
        if library_key(s[0]) is Some && exists|j: int|
            1 <= j < s.len() && library_key(#[trigger] s[j]) == library_key(s[0]) {
            rest
        } else {
            seq![s[0]] + rest
        }
    }
}

fn key_seen(seen: &Vec<String>, key: &String) -> (r: bool)
    ensures
        r == views(seen@).contains(key@),
{
    let mut i: usize = 0;
    while i < seen.len()
        invariant
            i <= seen.len(),
            forall|j: int| 0 <= j < i ==> seen@[j]@ != key@,
        decreases seen.len() - i,
    {
        if str_eq(seen[i].as_str(), key.as_str()) {
            assert(views(seen@)[i as int] == key@);
            return true;
        }
        i = i + 1;
    }
    assert forall|j: int| 0 <= j < views(seen@).len() implies views(seen@)[j] != key@ by {
        assert(views(seen@)[j] == seen@[j]@);
    }
    false
}

/// Parent libraries, then child libraries, keeping the last of each key.
pub fn merge_libraries(parent: Vec<Library>, child: Vec<Library>) -> (r: Vec<Library>)
    ensures
        r@ == dedup_last(parent@ + child@),
{
    let mut combined = parent;
    let mut child = child;
    combined.append(&mut child);
    let ghost all = combined@;
    let ghost n = all.len();
    let mut result: Vec<Library> = Vec::new();
    let mut seen: Vec<String> = Vec::new();
    assert(all.skip(n as int) =~= Seq::<Library>::empty());
    while combined.len() > 0
        invariant
            combined@ == all.take(combined@.len() as int),
            combined@.len() <= n,
            n == all.len(),
            result@ == dedup_last(all.skip(combined@.len() as int)),
            forall|key: Seq<char>|
                views(seen@).contains(key) <==> exists|j: int|
                    combined@.len() <= j < n && library_key(#[trigger] all[j]) == Some(key),
        decreases combined@.len(),
    {
        let k = combined.len() - 1;
        let lib = combined.pop().unwrap();
        let ghost s = all.skip(k as int);
        assert(s.drop_first() =~= all.skip(k + 1));
        assert(s[0] == lib);
        assert(combined@ =~= all.take(k as int));
        let key = lib.identity_key();
        let keep = match &key {
            None => true,
            Some(kk) => !key_seen(&seen, kk),
        };
        proof {
            if let Some(kk) = &key {
                let dup = exists|j: int| 1 <= j < s.len() && library_key(#[trigger] s[j]) == library_key(s[0]);
                assert(dup <==> views(seen@).contains(kk@)) by {
                    if dup {
                        let j = choose|j: int| 1 <= j < s.len() && library_key(#[trigger] s[j]) == library_key(s[0]);
                        assert(s[j] == all[j + k]);
                        assert(library_key(all[j + k]) == Some(kk@));
                    }
                    if views(seen@).contains(kk@) {
                        let j = choose|j: int| k + 1 <= j < n && library_key(#[trigger] all[j]) == Some(kk@);
                        assert(s[j - k] == all[j]);
                    }
                }
            }
        }
        if let Some(kk) = key {
            if keep {
                let ghost before = views(seen@);
                seen.push(kk);
                assert(views(seen@) =~= before.push(kk@));
                proof {
                    assert forall|key2: Seq<char>|
                        views(seen@).contains(key2) <==> exists|j: int|
                            k <= j < n && library_key(#[trigger] all[j]) == Some(key2) by {
                        assert(all[k as int] == lib);
                        if views(seen@).contains(key2) {
                            if key2 == kk@ {
                                assert(library_key(all[k as int]) == Some(key2));
                            } else {
                                let i = choose|i: int| 0 <= i < views(seen@).len() && views(seen@)[i] == key2;
                                assert(i < before.len());
                                assert(before[i] == key2);
                                assert(before.contains(key2));
                                let j = choose|j: int| k + 1 <= j < n && library_key(#[trigger] all[j]) == Some(key2);
                                assert(k <= j < n && library_key(all[j]) == Some(key2));
                            }
                        }
                        if exists|j: int| k <= j < n && library_key(#[trigger] all[j]) == Some(key2) {
                            let j = choose|j: int| k <= j < n && library_key(#[trigger] all[j]) == Some(key2);
                            if j > k {
                                assert(k + 1 <= j < n && library_key(all[j]) == Some(key2));
                                assert(before.contains(key2));
                                let i = choose|i: int| 0 <= i < before.len() && before[i] == key2;
                                assert(views(seen@)[i] == key2);
                            } else {
                                assert(key2 == kk@);
                                assert(views(seen@)[before.len() as int] == key2);
                            }
                        }
                    }
                }
            } else {
                proof {
                    assert forall|key2: Seq<char>|
                        views(seen@).contains(key2) <==> exists|j: int|
                            k <= j < n && library_key(#[trigger] all[j]) == Some(key2) by {
                        if exists|j: int| k <= j < n && library_key(#[trigger] all[j]) == Some(key2) {
                            let j = choose|j: int| k <= j < n && library_key(#[trigger] all[j]) == Some(key2);
                            if j == k {
                                assert(key2 == kk@);
                            } else {
                                assert(k + 1 <= j);
                            }
                        }
                    }
                }
            }
        } else {
            proof {
                assert forall|key2: Seq<char>|
                    views(seen@).contains(key2) <==> exists|j: int|
                        k <= j < n && library_key(#[trigger] all[j]) == Some(key2) by {
                    if exists|j: int| k <= j < n && library_key(#[trigger] all[j]) == Some(key2) {
                        let j = choose|j: int| k <= j < n && library_key(#[trigger] all[j]) == Some(key2);
                        if j == k {
                            assert(library_key(all[k as int]) is None);
                        }
                    }
                }
            }
        }
        if keep {
            result.insert(0, lib);
            assert(result@ =~= seq![s[0]] + dedup_last(s.drop_first()));
        }
    }
    assert(all.skip(0) =~= all);
    result
}

/// Whether `r` is the merge of two `arguments` blocks: both lists appended
/// when both exist, else whichever exists.
pub open spec fn merged_arguments(
    parent: Option<ArgumentsBlock>,
    child: Option<ArgumentsBlock>,
    r: Option<ArgumentsBlock>,
) -> bool {
    match parent {
        Some(p) => match child {
            Some(c) => r is Some && r->0.jvm@ == p.jvm@ + c.jvm@ && r->0.game@ == p.game@ + c.game@,
            None => r == parent,
        },
        None => r == child,
    }
}

/// The child's value when it has one, else the parent's.
pub open spec fn or_parent<T>(child: Option<T>, parent: Option<T>) -> Option<T> {
    if child is Some {
        child
    } else {
        parent
    }
}

fn or_else<T>(child: Option<T>, parent: Option<T>) -> (r: Option<T>)
    ensures
        r == or_parent(child, parent),
{
    match child {
        Some(c) => Some(c),
        None => parent,
    }
}

impl RawManifest {
    /// A child manifest over its parent: the child's values win, libraries
    /// are merged by key keeping the last, argument lists are appended.
    pub fn merge(self, child: RawManifest) -> (r: RawManifest)
        ensures
            r.id == or_parent(child.id, self.id),
            r.inherits_from == child.inherits_from,
            r.main_class == or_parent(child.main_class, self.main_class),
            r.asset_index == or_parent(child.asset_index, self.asset_index),
            r.java_version == or_parent(child.java_version, self.java_version),
            r.libraries@ == dedup_last(self.libraries@ + child.libraries@),
            merged_arguments(self.arguments, child.arguments, r.arguments),
            r.minecraft_arguments == or_parent(child.minecraft_arguments, self.minecraft_arguments),
            r.version_type == or_parent(child.version_type, self.version_type),
            r.mecha == or_parent(child.mecha, self.mecha),
    {
        let RawManifest {
            id,
            inherits_from: _,
            main_class,
            asset_index,
            java_version,
            libraries,
            arguments,
            minecraft_arguments,
            version_type,
            mecha,
        } = self;
        let c = child;
        let arguments = match arguments {
            Some(mut p) => match c.arguments {
                Some(mut ca) => {
                    p.jvm.append(&mut ca.jvm);
                    p.game.append(&mut ca.game);
                    Some(p)
                },
                None => Some(p),
            },
            None => c.arguments,
        };
        RawManifest {
            id: or_else(c.id, id),
            inherits_from: c.inherits_from,
            main_class: or_else(c.main_class, main_class),
            asset_index: or_else(c.asset_index, asset_index),
            java_version: or_else(c.java_version, java_version),
            libraries: merge_libraries(libraries, c.libraries),
            arguments,
            minecraft_arguments: or_else(c.minecraft_arguments, minecraft_arguments),
            version_type: or_else(c.version_type, version_type),
            mecha: or_else(c.mecha, mecha),
        }
    }
}


/// A library with key `k` is in `s`.
pub open spec fn has_key(s: Seq<Library>, k: Seq<char>) -> bool {
    exists|j: int| 0 <= j < s.len() && library_key(#[trigger] s[j]) == Some(k)
}

/// Deduplication keeps exactly the keys there were.
pub proof fn lemma_dedup_keys(s: Seq<Library>, k: Seq<char>)
    ensures
        has_key(dedup_last(s), k) <==> has_key(s, k),
    decreases s.len(),
{
    if s.len() > 0 {
        let t = s.drop_first();
        lemma_dedup_keys(t, k);
        let rest = dedup_last(t);
        let d = dedup_last(s);
        let dup = library_key(s[0]) is Some && exists|j: int|
            1 <= j < s.len() && library_key(#[trigger] s[j]) == library_key(s[0]);
        if has_key(s, k) {
            let j = choose|j: int| 0 <= j < s.len() && library_key(#[trigger] s[j]) == Some(k);
            if j > 0 {
                assert(library_key(t[j - 1]) == Some(k));
                let i = choose|i: int| 0 <= i < rest.len() && library_key(#[trigger] rest[i]) == Some(k);
                if dup {
                    assert(d == rest);
                } else {
                    assert(d[i + 1] == rest[i]);
                }
            } else if dup {
                let j2 = choose|j2: int| 1 <= j2 < s.len() && library_key(#[trigger] s[j2]) == library_key(s[0]);
                assert(library_key(t[j2 - 1]) == Some(k));
                let i = choose|i: int| 0 <= i < rest.len() && library_key(#[trigger] rest[i]) == Some(k);
                assert(d == rest);
                assert(library_key(d[i]) == Some(k));
            } else {
                assert(d[0] == s[0]);
            }
        }
        if has_key(d, k) {
            let i = choose|i: int| 0 <= i < d.len() && library_key(#[trigger] d[i]) == Some(k);
            if dup {
                assert(d == rest);
                assert(has_key(rest, k));
                let j = choose|j: int| 0 <= j < t.len() && library_key(#[trigger] t[j]) == Some(k);
                assert(s[j + 1] == t[j]);
            } else if i == 0 {
                assert(library_key(s[0]) == Some(k));
            } else {
                assert(d[i] == rest[i - 1]);
                assert(has_key(rest, k));
                let j = choose|j: int| 0 <= j < t.len() && library_key(#[trigger] t[j]) == Some(k);
                assert(s[j + 1] == t[j]);
            }
        }
    }
}

/// Merging step by step keeps the last library of each key, as one merge
/// of everything does.
pub proof fn lemma_dedup_last_absorbs(a: Seq<Library>, b: Seq<Library>)
    ensures
        dedup_last(dedup_last(a) + b) == dedup_last(a + b),
    decreases a.len(),
{
    if a.len() == 0 {
        assert(dedup_last(a) =~= Seq::<Library>::empty());
        assert(Seq::<Library>::empty() + b =~= b);
        assert(a + b =~= b);
    } else {
        let x = a[0];
        let a1 = a.drop_first();
        lemma_dedup_last_absorbs(a1, b);
        let da1 = dedup_last(a1);
        let dup_a = library_key(x) is Some && exists|j: int|
            1 <= j < a.len() && library_key(#[trigger] a[j]) == library_key(x);
        let ab = a + b;
        assert(ab.drop_first() =~= a1 + b);
        assert(ab[0] == x);
        let dup_ab = library_key(x) is Some && exists|j: int|
            1 <= j < ab.len() && library_key(#[trigger] ab[j]) == library_key(x);
        if dup_a {
            assert(dedup_last(a) == da1);
            let j = choose|j: int| 1 <= j < a.len() && library_key(#[trigger] a[j]) == library_key(x);
            assert(ab[j] == a[j]);
            assert(dup_ab);
            assert(dedup_last(ab) == dedup_last(a1 + b));
        } else {
            if library_key(x) is Some {
                assert(dedup_last(a) == seq![x] + da1);
            } else {
                assert(dedup_last(a) == seq![x] + da1);
            }
            let c = seq![x] + da1 + b;
            assert(c.drop_first() =~= da1 + b);
            assert(c[0] == x);
            let dup_c = library_key(x) is Some && exists|j: int|
                1 <= j < c.len() && library_key(#[trigger] c[j]) == library_key(x);
            if library_key(x) is Some {
                let k = library_key(x)->0;
                lemma_dedup_keys(a1, k);
                // a later library with x's key lies in `b` on either side
                if dup_c {
                    let j = choose|j: int| 1 <= j < c.len() && library_key(#[trigger] c[j]) == library_key(x);
                    if j <= da1.len() {
                        assert(library_key(da1[j - 1]) == Some(k));
                        assert(has_key(da1, k));
                        let i = choose|i: int| 0 <= i < a1.len() && library_key(#[trigger] a1[i]) == Some(k);
                        assert(a[i + 1] == a1[i]);
                        assert(false);
                    } else {
                        assert(c[j] == b[j - 1 - da1.len()]);
                        assert(ab[a.len() + (j - 1 - da1.len())] == b[j - 1 - da1.len()]);
                        assert(dup_ab);
                    }
                }
                if dup_ab {
                    let j = choose|j: int| 1 <= j < ab.len() && library_key(#[trigger] ab[j]) == library_key(x);
                    if j < a.len() {
                        assert(ab[j] == a[j]);
                        assert(false);
                    } else {
                        assert(ab[j] == b[j - a.len()]);
                        assert(c[1 + da1.len() + (j - a.len())] == b[j - a.len()]);
                        assert(dup_c);
                    }
                }
                assert(dup_c == dup_ab);
            }
            assert(dedup_last(c) == if library_key(x) is Some && dup_c {
                dedup_last(da1 + b)
            } else {
                seq![x] + dedup_last(da1 + b)
            });
            assert(seq![x] + da1 + b =~= dedup_last(a) + b);
        }
    }
}

/// The first value a chain of manifests (child first) gives for a field.
pub open spec fn chain_first<T>(chain: Seq<RawManifest>, f: spec_fn(RawManifest) -> Option<T>) -> Option<T>
    decreases chain.len(),
{
    if chain.len() == 0 {
        None
    } else if f(chain[0]) is Some {
        f(chain[0])
    } else {
        chain_first(chain.drop_first(), f)
    }
}

/// An `arguments` block by its lists: JVM, then game.
pub open spec fn args_view(a: Option<ArgumentsBlock>) -> Option<(Seq<ArgumentEntry>, Seq<ArgumentEntry>)> {
    match a {
        Some(b) => Some((b.jvm@, b.game@)),
        None => None,
    }
}

/// The arguments of a merged chain: the lists of every manifest that has
/// them, root manifest first.
pub open spec fn chain_arguments(chain: Seq<RawManifest>) -> Option<(Seq<ArgumentEntry>, Seq<ArgumentEntry>)>
    decreases chain.len(),
{
    if chain.len() == 0 {
        None
    } else {
        let p = chain_arguments(chain.drop_first());
        let c = args_view(chain[0].arguments);
        match p {
            Some(pv) => match c {
                Some(cv) => Some((pv.0 + cv.0, pv.1 + cv.1)),
                None => p,
            },
            None => c,
        }
    }
}

/// The libraries of a chain, root manifest first.
pub open spec fn chain_libraries(chain: Seq<RawManifest>) -> Seq<Library>
    decreases chain.len(),
{
    if chain.len() == 0 {
        Seq::empty()
    } else {
        chain_libraries(chain.drop_first()) + chain[0].libraries@
    }
}

/// The libraries of a merged chain: a single manifest's as they are, else
/// the last library of each key over the chain, root first.
pub open spec fn merged_libraries(chain: Seq<RawManifest>) -> Seq<Library> {
    if chain.len() == 1 {
        chain[0].libraries@
    } else {
        dedup_last(chain_libraries(chain))
    }
}

/// The message for an inheritance cycle.
pub open spec fn cycle_message(version_id: Seq<char>) -> Seq<char> {
    "Version inheritance cycle detected at "@ + version_id + "."@
}

/// Checks the next version of an inheritance chain against those already
/// read.
pub fn check_inheritance_step(visited: &Vec<String>, version_id: &str) -> (r: LauncherResult<()>)
    ensures
        r is Err <==> views(visited@).contains(version_id@),
        r matches Err(e) ==> e.0@ == cycle_message(version_id@),
{
    let mut i: usize = 0;
    while i < visited.len()
        invariant
            i <= visited.len(),
            forall|j: int| 0 <= j < i ==> visited@[j]@ != version_id@,
        decreases visited.len() - i,
    {
        if str_eq(visited[i].as_str(), version_id) {
            assert(views(visited@)[i as int] == version_id@);
            return Err(crate::error::error_with3("Version inheritance cycle detected at ", version_id, "."));
        }
        i = i + 1;
    }
    assert forall|j: int| 0 <= j < views(visited@).len() implies views(visited@)[j] != version_id@ by {
        assert(views(visited@)[j] == visited@[j]@);
    }
    Ok(())
}

/// One step of the inheritance walk, after the manifest of `read` was read
/// with parent `parent`: `read` joins the versions already read; with no
/// parent the walk is done (`Ok(None)`); a parent read before is a cycle;
/// otherwise the parent is the next version to read.
pub fn advance_inheritance_walk(visited: &mut Vec<String>, read: &str, parent: Option<&str>) -> (r: LauncherResult<
    Option<String>,
>)
    ensures
        views(final(visited)@) == views(old(visited)@).push(read@),
        parent is None ==> r matches Ok(None),
        (parent matches Some(p) && views(final(visited)@).contains(p@)) ==> (r matches Err(e) && e.0@
            == cycle_message(parent->Some_0@)),
        (parent matches Some(p) && !views(final(visited)@).contains(p@)) ==> (r matches Ok(Some(n)) && n@
            == parent->Some_0@),
{
    let ghost before = views(visited@);
    visited.push(String::from_str(read));
    assert(views(visited@) =~= before.push(read@));
    match parent {
        None => Ok(None),
        Some(p) => {
            check_inheritance_step(visited, p)?;
            Ok(Some(String::from_str(p)))
        },
    }
}

/// Merges an inheritance chain: `chain[0]` is the requested version and each
/// next manifest the parent of the one before.
pub fn merge_chain(chain: Vec<RawManifest>) -> (r: RawManifest)
    requires
        chain@.len() > 0,
    ensures
        r.id == chain_first(chain@, |m: RawManifest| m.id),
        r.main_class == chain_first(chain@, |m: RawManifest| m.main_class),
        r.asset_index == chain_first(chain@, |m: RawManifest| m.asset_index),
        r.java_version == chain_first(chain@, |m: RawManifest| m.java_version),
        r.minecraft_arguments == chain_first(chain@, |m: RawManifest| m.minecraft_arguments),
        r.version_type == chain_first(chain@, |m: RawManifest| m.version_type),
        r.mecha == chain_first(chain@, |m: RawManifest| m.mecha),
        r.libraries@ == merged_libraries(chain@),
        args_view(r.arguments) == chain_arguments(chain@),
{
    let ghost all = chain@;
    let mut chain = chain;
    let mut merged = chain.pop().unwrap();
    let ghost last = all.len() - 1;
    proof {
        let tail = all.skip(last as int);
        assert(tail.drop_first() =~= Seq::<RawManifest>::empty());
        assert(tail[0] == merged);
        assert(chain_libraries(tail) =~= merged.libraries@) by {
            assert(chain_libraries(tail.drop_first()) =~= Seq::<Library>::empty());
        }
        reveal_with_fuel(chain_first, 2);
        reveal_with_fuel(chain_arguments, 2);
    }
    while chain.len() > 0
        invariant
            chain@ == all.take(chain@.len() as int),
            chain@.len() <= last,
            last == all.len() - 1,
            merged.id == chain_first(all.skip(chain@.len() as int), |m: RawManifest| m.id),
            merged.main_class == chain_first(all.skip(chain@.len() as int), |m: RawManifest| m.main_class),
            merged.asset_index == chain_first(all.skip(chain@.len() as int), |m: RawManifest| m.asset_index),
            merged.java_version == chain_first(all.skip(chain@.len() as int), |m: RawManifest| m.java_version),
            merged.minecraft_arguments == chain_first(
                all.skip(chain@.len() as int),
                |m: RawManifest| m.minecraft_arguments,
            ),
            merged.version_type == chain_first(all.skip(chain@.len() as int), |m: RawManifest| m.version_type),
            merged.mecha == chain_first(all.skip(chain@.len() as int), |m: RawManifest| m.mecha),
            chain@.len() == last ==> merged.libraries@ == chain_libraries(all.skip(chain@.len() as int)),
            chain@.len() < last ==> merged.libraries@ == dedup_last(chain_libraries(all.skip(chain@.len() as int))),
            args_view(merged.arguments) == chain_arguments(all.skip(chain@.len() as int)),
        decreases chain@.len(),
    {
        let k = chain.len() - 1;
        let child = chain.pop().unwrap();
        let ghost s = all.skip(k as int);
        assert(s.drop_first() =~= all.skip(k + 1));
        assert(s[0] == child);
        assert(chain@ =~= all.take(k as int));
        let ghost prev_libs = merged.libraries@;
        let ghost child_libs = child.libraries@;
        merged = merged.merge(child);
        proof {
            assert(chain_libraries(s) == chain_libraries(all.skip(k + 1)) + child_libs);
            if k + 1 < last {
                lemma_dedup_last_absorbs(chain_libraries(all.skip(k + 1)), child_libs);
            }
        }
    }
    assert(all.skip(0) =~= all);
    merged
}

/// The message for a manifest chain without a main class.
pub open spec fn missing_main_class(version_id: Seq<char>) -> Seq<char> {
    "The selected version manifest does not define a main class: "@ + version_id
}

/// A merged manifest as the launcher uses it: the id defaults to the
/// requested version, the type to `release`; the main class is required.
pub fn resolve_manifest(version_id: &str, merged: RawManifest) -> (r: LauncherResult<ResolvedManifest>)
    ensures
        r is Err <==> merged.main_class is None,
        r matches Err(e) ==> e.0@ == missing_main_class(version_id@),
        r matches Ok(m) ==> {
            &&& m.id@ == (match merged.id {
                Some(i) => i@,
                None => version_id@,
            })
            &&& Some(m.main_class) == merged.main_class
            &&& m.asset_index_id == (match merged.asset_index {
                Some(a) => a.id,
                None => None,
            })
            &&& m.asset_index_url == (match merged.asset_index {
                Some(a) => a.url,
                None => None,
            })
            &&& m.asset_index_sha1 == (match merged.asset_index {
                Some(a) => a.sha1,
                None => None,
            })
            &&& m.asset_index_size == (match merged.asset_index {
                Some(a) => a.size,
                None => None,
            })
            &&& m.java_version == merged.java_version
            &&& m.version_type@ == (match merged.version_type {
                Some(t) => t@,
                None => "release"@,
            })
            &&& m.game_directory == (match merged.mecha {
                Some(x) => x.game_directory,
                None => None,
            })
            &&& m.source_kind == (match merged.mecha {
                Some(x) => x.source_kind,
                None => None,
            })
            &&& m.libraries == merged.libraries
            &&& m.modern_arguments == merged.arguments
            &&& m.legacy_minecraft_arguments == merged.minecraft_arguments
        },
{
    let RawManifest {
        id,
        inherits_from: _,
        main_class,
        asset_index,
        java_version,
        libraries,
        arguments,
        minecraft_arguments,
        version_type,
        mecha,
    } = merged;
    let main_class = match main_class {
        Some(m) => m,
        None => {
            return Err(
                error_with("The selected version manifest does not define a main class: ", version_id),
            );
        },
    };
    let (asset_index_id, asset_index_url, asset_index_sha1, asset_index_size) = match asset_index {
        Some(a) => (a.id, a.url, a.sha1, a.size),
        None => (None, None, None, None),
    };
    let (game_directory, source_kind) = match mecha {
        Some(x) => (x.game_directory, x.source_kind),
        None => (None, None),
    };
    Ok(
        ResolvedManifest {
            id: match id {
                Some(i) => i,
                None => String::from_str(version_id),
            },
            main_class,
            asset_index_id,
            asset_index_url,
            asset_index_sha1,
            asset_index_size,
            java_version,
            version_type: match version_type {
                Some(t) => t,
                None => String::from_str("release"),
            },
            game_directory,
            source_kind,
            libraries,
            modern_arguments: arguments,
            legacy_minecraft_arguments: minecraft_arguments,
        },
    )
}

/// Merges an inheritance chain (requested version first, then each parent)
/// and resolves it.
pub fn load_merged_manifest(version_id: &str, chain: Vec<RawManifest>) -> (r: LauncherResult<
    ResolvedManifest,
>)
    requires
        chain@.len() > 0,
    ensures
        r is Err <==> chain_first(chain@, |m: RawManifest| m.main_class) is None,
        r matches Err(e) ==> e.0@ == missing_main_class(version_id@),
        r matches Ok(m) ==> {
            let asset_index = chain_first(chain@, |m: RawManifest| m.asset_index);
            let mecha = chain_first(chain@, |m: RawManifest| m.mecha);
            &&& m.id@ == (match chain_first(chain@, |m: RawManifest| m.id) {
                Some(i) => i@,
                None => version_id@,
            })
            &&& Some(m.main_class) == chain_first(chain@, |m: RawManifest| m.main_class)
            &&& m.java_version == chain_first(chain@, |m: RawManifest| m.java_version)
            &&& m.libraries@ == merged_libraries(chain@)
            &&& args_view(m.modern_arguments) == chain_arguments(chain@)
            &&& m.legacy_minecraft_arguments == chain_first(
                chain@,
                |m: RawManifest| m.minecraft_arguments,
            )
            &&& m.version_type@ == (match chain_first(chain@, |m: RawManifest| m.version_type) {
                Some(t) => t@,
                None => "release"@,
            })
            &&& m.asset_index_id == (match asset_index {
                Some(a) => a.id,
                None => None,
            })
            &&& m.asset_index_url == (match asset_index {
                Some(a) => a.url,
                None => None,
            })
            &&& m.asset_index_sha1 == (match asset_index {
                Some(a) => a.sha1,
                None => None,
            })
            &&& m.asset_index_size == (match asset_index {
                Some(a) => a.size,
                None => None,
            })
            &&& m.game_directory == (match mecha {
                Some(x) => x.game_directory,
                None => None,
            })
            &&& m.source_kind == (match mecha {
                Some(x) => x.source_kind,
                None => None,
            })
        },
{
    let merged = merge_chain(chain);
    resolve_manifest(version_id, merged)
}

/// A `u32` written as text, surrounding whitespace allowed.
pub fn parse_u32_text(value: &str) -> (r: Result<u32, String>)
    ensures
        r is Ok <==> crate::text::parse_u32_spec(crate::text::trim_spec(value@)) is Some,
        r matches Ok(v) ==> crate::text::parse_u32_spec(crate::text::trim_spec(value@)) == Some(v),
        r matches Err(e) ==> e@ == "expected a u32-compatible string, got "@ + value@,
{
    let t = crate::text::trim_str(value);
    match crate::text::parse_u32_str(t.as_str()) {
        Some(v) => Ok(v),
        None => {
            let mut m = String::from_str("expected a u32-compatible string, got ");
            m.append(value);
            Err(m)
        },
    }
}

} // verus!
