//! Installing versions: library lists, download checks, OptiFine and redux
//! packs.
use vstd::prelude::*;

use crate::error::{error_with, error_with3, rsv, LauncherError, LauncherResult};
use crate::hash::{hex_lower, sha1_digest, sha1_hex};
use crate::manifest::{assoc, assoc_index, maven_parts, split_char, split_chars, MavenCoordinates};
use crate::paths::{join_path, path_join};
use crate::rules::{rules_allow, rules_allow_spec, Rule, RuntimeEnvironment};
use crate::text::{
    chars_of, decimal, decimal_string, parse_u32_chars, parse_u32_spec, replace_all, replace_all_spec,
    replace_char, replace_char_spec, seq_ends_with, str_eq, string_from_chars,
};

verus! {

pub const LIBRARIES_BASE_URL: &'static str = "https://libraries.minecraft.net/";
pub const OPTIFINE_ADLOAD_BASE_URL: &'static str = "https://optifine.net/adloadx";

// ---------------------------------------------------------------------------
// Java for a Minecraft version

/// The numbers among `pieces`, in order; pieces that are not a `u32` are
/// dropped.
pub open spec fn numeric_parts(pieces: Seq<Seq<char>>) -> Seq<u32>
    decreases pieces.len(),
{
    if pieces.len() == 0 {
        Seq::empty()
    } else {
        let rest = numeric_parts(pieces.drop_last());
        match parse_u32_spec(pieces.last()) {
            Some(v) => rest.push(v),
            None => rest,
        }
    }
}

/// The Java a Minecraft version is shown with, by its minor version: 21 from
/// 1.21, 17 from 1.18, 16 for 1.17, else 8.
pub open spec fn recommended_java_spec(version: Seq<char>) -> u32 {
    let parts = numeric_parts(split_char(version, '.'));
    let minor = if parts.len() > 1 {
        parts[1]
    } else {
        0
    };
    if minor >= 21 {
        21
    } else if minor >= 18 {
        17
    } else if minor >= 17 {
        16
    } else {
        8
    }
}

/// The minor number of a Minecraft version `1.<minor>[.<patch>]`: its second
/// numeric piece, `0` when there is none.
pub open spec fn minecraft_minor(version: Seq<char>) -> int {
    let parts = numeric_parts(split_char(version, '.'));
    if parts.len() > 1 {
        parts[1] as int
    } else {
        0
    }
}

/// The recommended Java never goes down as the Minecraft minor version goes
/// up, and it is Java 8 up to 1.16, 16 for 1.17, 17 for 1.18 to 1.20 and 21
/// from 1.21 on.
pub proof fn lemma_recommended_java_steps(a: Seq<char>, b: Seq<char>)
    ensures
        minecraft_minor(a) <= minecraft_minor(b) ==> recommended_java_spec(a) <= recommended_java_spec(b),
        minecraft_minor(a) <= 16 ==> recommended_java_spec(a) == 8,
        minecraft_minor(a) == 17 ==> recommended_java_spec(a) == 16,
        18 <= minecraft_minor(a) <= 20 ==> recommended_java_spec(a) == 17,
        21 <= minecraft_minor(a) ==> recommended_java_spec(a) == 21,
{
}

pub fn recommended_java_for_minecraft(version: &str) -> (r: u32)
    ensures
        r == recommended_java_spec(version@),
{
    let pieces = split_chars(&chars_of(version), '.');
    let ghost pv = pieces@.map_values(|v: Vec<char>| v@);
    let mut parts: Vec<u32> = Vec::new();
    let mut j: usize = 0;
    while j < pieces.len()
        invariant
            j <= pieces.len(),
            pv == pieces@.map_values(|v: Vec<char>| v@),
            parts@ == numeric_parts(pv.take(j as int)),
        decreases pieces.len() - j,
    {
        assert(pv.take(j + 1).drop_last() =~= pv.take(j as int));
        assert(pv.take(j + 1).last() == pieces@[j as int]@);
        if let Some(v) = parse_u32_chars(&pieces[j]) {
            parts.push(v);
        }
        j = j + 1;
    }
    assert(pv.take(j as int) =~= pv);
    let minor = if parts.len() > 1 {
        parts[1]
    } else {
        0
    };
    if minor >= 21 {
        21
    } else if minor >= 18 {
        17
    } else if minor >= 17 {
        16
    } else {
        8
    }
}

// ---------------------------------------------------------------------------
// Library downloads

/// A file to download: where it goes under `libraries`, its checks, and
/// its URL.
pub struct DownloadArtifact {
    pub path: Option<String>,
    pub sha1: Option<String>,
    pub size: Option<u64>,
    pub url: String,
}

/// The downloads block of a library of a Mojang version manifest.
pub struct GameLibraryDownloads {
    pub artifact: Option<DownloadArtifact>,
    /// Downloads by classifier; each classifier once.
    pub classifiers: Vec<(String, DownloadArtifact)>,
}

/// A library of a Mojang version manifest, as the installer reads it.
pub struct GameLibrary {
    pub name: Option<String>,
    pub url: Option<String>,
    pub downloads: Option<GameLibraryDownloads>,
    /// Native classifier by OS name; each OS once.
    pub natives: Vec<(String, String)>,
    pub rules: Vec<Rule>,
}

/// A download by views: path, SHA-1, size, URL.
pub type ArtifactView = (Option<Seq<char>>, Option<Seq<char>>, Option<u64>, Seq<char>);

pub open spec fn ostr(o: Option<String>) -> Option<Seq<char>> {
    match o {
        Some(s) => Some(s@),
        None => None,
    }
}

pub open spec fn artifact_view(a: DownloadArtifact) -> ArtifactView {
    (ostr(a.path), ostr(a.sha1), a.size, a.url@)
}

/// `value` with a `/` at its end.
pub open spec fn trailing_slash_spec(value: Seq<char>) -> Seq<char> {
    if seq_ends_with(value, "/"@) {
        value
    } else {
        value + "/"@
    }
}

pub fn ensure_trailing_slash(value: &str) -> (r: String)
    ensures
        r@ == trailing_slash_spec(value@),
{
    proof {
        reveal_strlit("/");
    }
    let v = chars_of(value);
    if v.len() > 0 && v[v.len() - 1] == '/' {
        assert(v@.subrange(v@.len() - 1, v@.len() as int) =~= "/"@);
        String::from_str(value)
    } else {
        assert(!seq_ends_with(value@, "/"@)) by {
            if value@.len() > 0 {
                assert(value@.subrange(value@.len() - 1, value@.len() as int)[0] == value@.last());
            }
        }
        let mut r = String::from_str(value);
        r.append("/");
        r
    }
}

/// The path of a Maven artifact under `libraries`: the group with `.` as
/// `/`, the artifact, the version and the file name, joined by `/`. A
/// classifier given overrides the coordinate's own.
pub open spec fn maven_relative_path(
    m: (Seq<char>, Seq<char>, Seq<char>, Option<Seq<char>>, Seq<char>),
    classifier_override: Option<Seq<char>>,
) -> Seq<char> {
    let classifier = match classifier_override {
        Some(c) => Some(c),
        None => m.3,
    };
    replace_char_spec(m.0, '.', seq!['/']) + seq!['/'] + m.1 + seq!['/'] + m.2 + seq!['/'] + m.1 + seq!['-']
        + m.2 + match classifier {
        Some(c) => seq!['-'] + c,
        None => Seq::empty(),
    } + seq!['.'] + m.4
}

pub open spec fn maven_artifact_path_spec(raw: Seq<char>, classifier_override: Option<Seq<char>>) -> Option<
    Seq<char>,
> {
    match maven_parts(raw) {
        Some(m) => Some(maven_relative_path(m, classifier_override)),
        None => None,
    }
}

fn push_all(out: &mut Vec<char>, s: &Vec<char>)
    ensures
        final(out)@ == old(out)@ + s@,
{
    crate::manifest::append_chars(out, s);
}

/// The relative path of a Maven coordinate, `None` unless it has three or
/// four pieces.
pub fn maven_artifact_path(raw_value: &str, classifier_override: Option<&str>) -> (r: Option<String>)
    ensures
        ostr(r) == maven_artifact_path_spec(
            raw_value@,
            match classifier_override {
                Some(c) => Some(c@),
                None => None,
            },
        ),
{
    let m = match MavenCoordinates::parse(raw_value) {
        Some(m) => m,
        None => return None,
    };
    let classifier: Option<Vec<char>> = match classifier_override {
        Some(c) => Some(chars_of(c)),
        None => match &m.classifier {
            Some(c) => {
                let cc = c.clone();
                assert(cc@ =~= c@);
                Some(cc)
            },
            None => None,
        },
    };
    let mut slash: Vec<char> = Vec::new();
    slash.push('/');
    let mut out = replace_char(&m.group, '.', &slash);
    out.push('/');
    push_all(&mut out, &m.artifact);
    out.push('/');
    push_all(&mut out, &m.version);
    out.push('/');
    push_all(&mut out, &m.artifact);
    out.push('-');
    push_all(&mut out, &m.version);
    if let Some(c) = &classifier {
        out.push('-');
        push_all(&mut out, c);
    }
    out.push('.');
    push_all(&mut out, &m.extension);
    proof {
        let parts = m.parts();
        assert(slash@ =~= seq!['/']);
        let cl = match classifier_override {
            Some(c) => Some(c@),
            None => parts.3,
        };
        let tail: Seq<char> = match cl {
            Some(c) => seq!['-'] + c,
            None => Seq::empty(),
        };
        assert(out@ =~= replace_char_spec(parts.0, '.', seq!['/']) + seq!['/'] + parts.1 + seq!['/'] + parts.2
            + seq!['/'] + parts.1 + seq!['-'] + parts.2 + tail + seq!['.'] + parts.4);
    }
    Some(string_from_chars(out.as_slice()))
}

/// The download a library falls back to when its manifest lists none: its
/// Maven path under its repository URL (Mojang's by default).
pub open spec fn fallback_artifact_spec(l: GameLibrary, classifier: Option<Seq<char>>) -> Option<ArtifactView> {
    match l.name {
        None => None,
        Some(n) => match maven_artifact_path_spec(n@, classifier) {
            None => None,
            Some(p) => Some(
                (
                    Some(p),
                    None,
                    None,
                    trailing_slash_spec(
                        match l.url {
                            Some(u) => u@,
                            None => LIBRARIES_BASE_URL@,
                        },
                    ) + p,
                ),
            ),
        },
    }
}

pub open spec fn oart(o: Option<DownloadArtifact>) -> Option<ArtifactView> {
    match o {
        Some(a) => Some(artifact_view(a)),
        None => None,
    }
}

pub fn fallback_library_artifact_with_classifier(library: &GameLibrary, classifier: Option<&str>) -> (r:
    Option<DownloadArtifact>)
    ensures
        oart(r) == fallback_artifact_spec(
            *library,
            match classifier {
                Some(c) => Some(c@),
                None => None,
            },
        ),
{
    let name = match &library.name {
        Some(n) => n,
        None => return None,
    };
    let path = match maven_artifact_path(name.as_str(), classifier) {
        Some(p) => p,
        None => return None,
    };
    let base = match &library.url {
        Some(u) => ensure_trailing_slash(u.as_str()),
        None => ensure_trailing_slash(LIBRARIES_BASE_URL),
    };
    let mut url = base;
    url.append(path.as_str());
    Some(DownloadArtifact { path: Some(path), sha1: None, size: None, url })
}

/// The fallback for a library's main jar; a natives-only library has none.
pub fn fallback_library_artifact(library: &GameLibrary) -> (r: Option<DownloadArtifact>)
    ensures
        oart(r) == if library.natives@.len() > 0 {
            None
        } else {
            fallback_artifact_spec(*library, None)
        },
{
    if library.natives.len() > 0 {
        return None;
    }
    fallback_library_artifact_with_classifier(library, None)
}

/// The fallback for one of a library's native archives.
pub fn fallback_library_classifier_artifact(library: &GameLibrary, classifier: &str) -> (r: Option<
    DownloadArtifact,
>)
    ensures
        oart(r) == fallback_artifact_spec(*library, Some(classifier@)),
{
    fallback_library_artifact_with_classifier(library, Some(classifier))
}

/// The library's classifier for this OS (`osx` falling back to `macos`),
/// with `${arch}` replaced by the pointer width.
pub open spec fn game_native_classifier(l: GameLibrary, env: RuntimeEnvironment) -> Option<Seq<char>> {
    let v = match assoc(l.natives@, env.os_name@) {
        Some(v) => Some(v),
        None => if env.os_name@ == "osx"@ {
            assoc(l.natives@, "macos"@)
        } else {
            None
        },
    };
    match v {
        Some(c) => Some(replace_all_spec(c@, "${arch}"@, env.arch_bits@)),
        None => None,
    }
}

/// The downloads of one allowed library: its main jar (listed, else the
/// fallback unless it is natives-only), then its native archive for this
/// OS (listed, else the fallback).
pub open spec fn library_downloads_spec(l: GameLibrary, env: RuntimeEnvironment) -> Seq<ArtifactView> {
    let main = match l.downloads {
        Some(d) if d.artifact is Some => oart(d.artifact),
        _ => if l.natives@.len() > 0 {
            None
        } else {
            fallback_artifact_spec(l, None)
        },
    };
    let first: Seq<ArtifactView> = match main {
        Some(a) => seq![a],
        None => Seq::empty(),
    };
    match game_native_classifier(l, env) {
        None => first,
        Some(c) => {
            let listed = match l.downloads {
                Some(d) => oart(assoc(d.classifiers@, c)),
                None => None,
            };
            let native = match listed {
                Some(a) => Some(a),
                None => fallback_artifact_spec(l, Some(c)),
            };
            match native {
                Some(a) => first.push(a),
                None => first,
            }
        },
    }
}

/// The downloads of the first `n` libraries that their rules allow here;
/// the first rule that cannot be evaluated fails the whole list.
pub open spec fn required_downloads_upto(libs: Seq<GameLibrary>, env: RuntimeEnvironment, n: nat) -> Result<
    Seq<ArtifactView>,
    Seq<char>,
>
    decreases n,
{
    if n == 0 || n > libs.len() {
        Ok(Seq::empty())
    } else {
        match required_downloads_upto(libs, env, (n - 1) as nat) {
            Err(e) => Err(e),
            Ok(acc) => match rules_allow_spec(libs[n - 1].rules@, env) {
                Err(e) => Err(e),
                Ok(allowed) => if allowed {
                    Ok(acc + library_downloads_spec(libs[n - 1], env))
                } else {
                    Ok(acc)
                },
            },
        }
    }
}

pub open spec fn artifacts_view(v: Seq<DownloadArtifact>) -> Seq<ArtifactView> {
    v.map_values(|a: DownloadArtifact| artifact_view(a))
}

pub open spec fn rart(r: LauncherResult<Vec<DownloadArtifact>>) -> Result<Seq<ArtifactView>, Seq<char>> {
    match r {
        Ok(v) => Ok(artifacts_view(v@)),
        Err(e) => Err(e.0@),
    }
}

fn clone_opt(o: &Option<String>) -> (r: Option<String>)
    ensures
        ostr(r) == ostr(*o),
{
    match o {
        Some(s) => Some(s.clone()),
        None => None,
    }
}

fn clone_artifact(a: &DownloadArtifact) -> (r: DownloadArtifact)
    ensures
        artifact_view(r) == artifact_view(*a),
{
    DownloadArtifact { path: clone_opt(&a.path), sha1: clone_opt(&a.sha1), size: a.size, url: a.url.clone() }
}

fn game_native_classifier_exec(library: &GameLibrary, environment: &RuntimeEnvironment) -> (r: Option<String>)
    ensures
        ostr(r) == game_native_classifier(*library, *environment),
{
    let idx = match assoc_index(&library.natives, environment.os_name.as_str()) {
        Some(i) => Some(i),
        None => if str_eq(environment.os_name.as_str(), "osx") {
            assoc_index(&library.natives, "macos")
        } else {
            None
        },
    };
    match idx {
        None => None,
        Some(i) => {
            let pattern = chars_of("${arch}");
            proof {
                reveal_strlit("${arch}");
            }
            assert(pattern@.len() > 0);
            let to = chars_of(environment.arch_bits.as_str());
            let replaced = replace_all(&chars_of(library.natives[i].1.as_str()), &pattern, &to);
            Some(string_from_chars(replaced.as_slice()))
        },
    }
}

fn library_downloads(library: &GameLibrary, environment: &RuntimeEnvironment) -> (r: Vec<DownloadArtifact>)
    ensures
        artifacts_view(r@) == library_downloads_spec(*library, *environment),
{
    let mut out: Vec<DownloadArtifact> = Vec::new();
    let listed_main = match &library.downloads {
        Some(d) => match &d.artifact {
            Some(a) => Some(clone_artifact(a)),
            None => None,
        },
        None => None,
    };
    let main = match listed_main {
        Some(a) => Some(a),
        None => fallback_library_artifact(library),
    };
    if let Some(a) = main {
        out.push(a);
    }
    let ghost first = artifacts_view(out@);
    assert(first == match oart(main) {
        Some(a) => seq![a],
        None => Seq::<ArtifactView>::empty(),
    }) by {
        if main is Some {
            assert(artifacts_view(out@) =~= seq![artifact_view(main->Some_0)]);
        } else {
            assert(artifacts_view(out@) =~= Seq::<ArtifactView>::empty());
        }
    }
    let classifier = match game_native_classifier_exec(library, environment) {
        Some(c) => c,
        None => return out,
    };
    let listed = match &library.downloads {
        Some(d) => match assoc_index(&d.classifiers, classifier.as_str()) {
            Some(i) => Some(clone_artifact(&d.classifiers[i].1)),
            None => None,
        },
        None => None,
    };
    let native = match listed {
        Some(a) => Some(a),
        None => fallback_library_classifier_artifact(library, classifier.as_str()),
    };
    if let Some(a) = native {
        out.push(a);
        assert(artifacts_view(out@) =~= first.push(artifact_view(a)));
    }
    out
}

/// The downloads a version needs here: for each library its rules allow,
/// its main jar and its native archive for this OS, in order.
pub fn collect_required_libraries(environment: &RuntimeEnvironment, libraries: &Vec<GameLibrary>) -> (r:
    LauncherResult<Vec<DownloadArtifact>>)
    ensures
        rart(r) == required_downloads_upto(libraries@, *environment, libraries@.len()),
{
    let mut out: Vec<DownloadArtifact> = Vec::new();
    assert(artifacts_view(out@) =~= Seq::<ArtifactView>::empty());
    let mut i: usize = 0;
    while i < libraries.len()
        invariant
            i <= libraries.len(),
            required_downloads_upto(libraries@, *environment, i as nat) == Ok::<Seq<ArtifactView>, Seq<char>>(
                artifacts_view(out@),
            ),
        decreases libraries.len() - i,
    {
        let library = &libraries[i];
        let allowed = match rules_allow(&library.rules, environment) {
            Ok(a) => a,
            Err(e) => {
                proof {
                    lemma_required_error_persists(libraries@, *environment, (i + 1) as nat, libraries@.len());
                }
                return Err(e);
            },
        };
        if allowed {
            let found = library_downloads(library, environment);
            let mut k: usize = 0;
            let ghost before = artifacts_view(out@);
            while k < found.len()
                invariant
                    k <= found.len(),
                    artifacts_view(out@) == before + artifacts_view(found@).take(k as int),
                decreases found.len() - k,
            {
                out.push(clone_artifact(&found[k]));
                assert(artifacts_view(found@).take(k + 1) =~= artifacts_view(found@).take(k as int).push(
                    artifact_view(found@[k as int]),
                ));
                assert(artifacts_view(out@) =~= (before + artifacts_view(found@).take(k as int)).push(
                    artifact_view(found@[k as int]),
                ));
                k = k + 1;
            }
            assert(artifacts_view(found@).take(k as int) =~= artifacts_view(found@));
        }
        i = i + 1;
    }
    Ok(out)
}

proof fn lemma_required_error_persists(libs: Seq<GameLibrary>, env: RuntimeEnvironment, k: nat, n: nat)
    requires
        0 < k <= n <= libs.len(),
        required_downloads_upto(libs, env, k) is Err,
    ensures
        required_downloads_upto(libs, env, n) == required_downloads_upto(libs, env, k),
    decreases n - k,
{
    if k < n {
        lemma_required_error_persists(libs, env, k, (n - 1) as nat);
    }
}

// ---------------------------------------------------------------------------
// Download checks and progress

pub open spec fn size_mismatch(url: Seq<char>, expected: u64, got: nat) -> Seq<char> {
    "Downloaded size mismatch for "@ + url + ": expected "@ + decimal(expected as nat) + ", got "@ + decimal(got)
        + "."@
}

pub open spec fn sha1_mismatch(url: Seq<char>, expected: Seq<char>, got: Seq<char>) -> Seq<char> {
    "Downloaded SHA-1 mismatch for "@ + url + ": expected "@ + expected + ", got "@ + got + "."@
}

/// The checks on downloaded bytes: the size first, then the lower-case hex
/// SHA-1, each only when one is expected.
pub open spec fn validate_bytes_spec(
    bytes: Seq<u8>,
    expected_sha1: Option<Seq<char>>,
    expected_size: Option<u64>,
    url: Seq<char>,
) -> Result<(), Seq<char>> {
    match expected_size {
        Some(s) if bytes.len() != s => Err(size_mismatch(url, s, bytes.len())),
        _ => match expected_sha1 {
            Some(h) if hex_lower(sha1_digest(bytes)) != h => Err(sha1_mismatch(url, h, hex_lower(sha1_digest(bytes)))),
            _ => Ok(()),
        },
    }
}

pub open spec fn runit(r: LauncherResult<()>) -> Result<(), Seq<char>> {
    match r {
        Ok(()) => Ok(()),
        Err(e) => Err(e.0@),
    }
}

pub fn validate_bytes(bytes: &[u8], expected_sha1: Option<&str>, expected_size: Option<u64>, url: &str) -> (r:
    LauncherResult<()>)
    ensures
        runit(r) == validate_bytes_spec(
            bytes@,
            match expected_sha1 {
                Some(h) => Some(h@),
                None => None,
            },
            expected_size,
            url@,
        ),
{
    if let Some(expected) = expected_size {
        let n = bytes.len();
        if n as u64 != expected {
            let mut m = String::from_str("Downloaded size mismatch for ");
            m.append(url);
            m.append(": expected ");
            m.append(decimal_string(expected).as_str());
            m.append(", got ");
            m.append(decimal_string(n as u64).as_str());
            m.append(".");
            return Err(LauncherError(m));
        }
    }
    if let Some(expected) = expected_sha1 {
        let actual = sha1_hex(bytes);
        if !str_eq(actual.as_str(), expected) {
            let mut m = String::from_str("Downloaded SHA-1 mismatch for ");
            m.append(url);
            m.append(": expected ");
            m.append(expected);
            m.append(", got ");
            m.append(actual.as_str());
            m.append(".");
            return Err(LauncherError(m));
        }
    }
    Ok(())
}

/// Whether a file already on disk can be kept instead of downloading it
/// again: it must be a file; with nothing to check it must not be empty;
/// otherwise its size and lower-case hex SHA-1 must be the expected ones.
/// `contents` is only looked at when a SHA-1 is expected.
pub open spec fn file_matches_spec(
    is_file: bool,
    actual_size: u64,
    contents: Seq<u8>,
    expected_sha1: Option<Seq<char>>,
    expected_size: Option<u64>,
) -> bool {
    if !is_file {
        false
    } else if expected_sha1 is None && expected_size is None {
        actual_size > 0
    } else {
        &&& (expected_size matches Some(s) ==> actual_size == s)
        &&& (expected_sha1 matches Some(h) ==> hex_lower(sha1_digest(contents)) == h)
    }
}

pub fn file_matches(
    is_file: bool,
    actual_size: u64,
    contents: &[u8],
    expected_sha1: Option<&str>,
    expected_size: Option<u64>,
) -> (r: bool)
    ensures
        r == file_matches_spec(
            is_file,
            actual_size,
            contents@,
            match expected_sha1 {
                Some(h) => Some(h@),
                None => None,
            },
            expected_size,
        ),
{
    if !is_file {
        return false;
    }
    if expected_sha1.is_none() && expected_size.is_none() {
        return actual_size > 0;
    }
    if let Some(s) = expected_size {
        if actual_size != s {
            return false;
        }
    }
    if let Some(h) = expected_sha1 {
        let actual = sha1_hex(contents);
        if !str_eq(actual.as_str(), h) {
            return false;
        }
    }
    true
}

/// Progress is reported for the first and last item and every 25th.
pub fn should_emit_progress(current: u32, total: u32) -> (r: bool)
    ensures
        r == (current == total || current == 1 || current % 25 == 0),
{
    current == total || current == 1 || current % 25 == 0
}

/// The platform name Mojang publishes Java runtimes under, for a Rust OS and
/// architecture name.
pub open spec fn runtime_platform_spec(os: Seq<char>, arch: Seq<char>) -> Option<Seq<char>> {
    if os == "windows"@ && arch == "x86_64"@ {
        Some("windows-x64"@)
    } else if os == "windows"@ && arch == "x86"@ {
        Some("windows-x86"@)
    } else if os == "windows"@ && arch == "aarch64"@ {
        Some("windows-arm64"@)
    } else if os == "macos"@ && arch == "aarch64"@ {
        Some("mac-os-arm64"@)
    } else if os == "macos"@ {
        Some("mac-os"@)
    } else if os == "linux"@ && arch == "x86"@ {
        Some("linux-i386"@)
    } else if os == "linux"@ && arch == "x86_64"@ {
        Some("linux"@)
    } else {
        None
    }
}

pub fn java_runtime_platform_key(os: &str, arch: &str) -> (r: Option<String>)
    ensures
        ostr(r) == runtime_platform_spec(os@, arch@),
{
    let windows = str_eq(os, "windows");
    let macos = str_eq(os, "macos");
    let linux = str_eq(os, "linux");
    let x86_64 = str_eq(arch, "x86_64");
    let x86 = str_eq(arch, "x86");
    let aarch64 = str_eq(arch, "aarch64");
    if windows && x86_64 {
        Some(String::from_str("windows-x64"))
    } else if windows && x86 {
        Some(String::from_str("windows-x86"))
    } else if windows && aarch64 {
        Some(String::from_str("windows-arm64"))
    } else if macos && aarch64 {
        Some(String::from_str("mac-os-arm64"))
    } else if macos {
        Some(String::from_str("mac-os"))
    } else if linux && x86 {
        Some(String::from_str("linux-i386"))
    } else if linux && x86_64 {
        Some(String::from_str("linux"))
    } else {
        None
    }
}

// ---------------------------------------------------------------------------
// Installer output

pub const INSTALLER_ERROR_TAIL_LINES: usize = 80;
pub const INSTALLER_ERROR_MAX_CHARS: usize = 12000;

/// A line without the `\r` of a `\r\n` ending.
pub open spec fn strip_cr(line: Seq<char>) -> Seq<char> {
    if line.len() > 0 && line.last() == '\r' {
        line.drop_last()
    } else {
        line
    }
}

/// `str::lines`: split at `\n`, a `\r` before it dropped, no empty line
/// after a final `\n`.
pub open spec fn text_lines(s: Seq<char>) -> Seq<Seq<char>> {
    let p = split_char(s, '\n');
    let body = Seq::new((p.len() - 1) as nat, |i: int| strip_cr(p[i]));
    if p.last().len() == 0 {
        body
    } else {
        body.push(p.last())
    }
}

/// The logs joined: each trimmed, the empty ones left out, a `\n` between.
pub open spec fn combined_logs(stdout_log: Seq<char>, stderr_log: Seq<char>) -> Seq<char> {
    let a = crate::text::trim_spec(stdout_log);
    let b = crate::text::trim_spec(stderr_log);
    if a.len() == 0 {
        b
    } else if b.len() == 0 {
        a
    } else {
        a + "\n"@ + b
    }
}

/// What an installer failure message ends with: nothing when the logs are
/// empty, else a label and the last 80 lines of the logs, cut to their last
/// 12000 characters.
pub open spec fn installer_details_spec(stdout_log: Seq<char>, stderr_log: Seq<char>) -> Seq<char> {
    let combined = combined_logs(stdout_log, stderr_log);
    if combined.len() == 0 {
        Seq::empty()
    } else {
        let lines = text_lines(combined);
        let truncated = lines.len() > 80;
        let start = if truncated {
            lines.len() - 80
        } else {
            0
        };
        let output = crate::text::join_spec(lines.skip(start), "\n"@);
        let output = if output.len() > 12000 {
            output.skip(output.len() - 12000)
        } else {
            output
        };
        (if truncated {
            "\n\nInstaller output (last 80 lines):\n"@
        } else {
            "\n\nInstaller output:\n"@
        }) + output
    }
}

fn strip_cr_exec(line: &Vec<char>) -> (r: Vec<char>)
    ensures
        r@ == strip_cr(line@),
{
    let mut r = line.clone();
    assert(r@ =~= line@);
    if r.len() > 0 && r[r.len() - 1] == '\r' {
        r.pop();
    }
    r
}

/// The lines of a text, as `str::lines` gives them.
pub fn lines_of(text: &Vec<char>) -> (r: Vec<String>)
    ensures
        crate::text::views(r@) == text_lines(text@),
{
    let pieces = split_chars(text, '\n');
    let ghost p = split_char(text@, '\n');
    assert(pieces@.map_values(|v: Vec<char>| v@) == p);
    assert(p.len() > 0);
    let mut r: Vec<String> = Vec::new();
    let mut i: usize = 0;
    while i < pieces.len() - 1
        invariant
            pieces@.len() == p.len(),
            pieces@.len() >= 1,
            p == pieces@.map_values(|v: Vec<char>| v@),
            i + 1 <= pieces@.len(),
            crate::text::views(r@) == Seq::new(i as nat, |k: int| strip_cr(p[k])),
        decreases pieces.len() - i,
    {
        assert(pieces@[i as int]@ == p[i as int]);
        let line = strip_cr_exec(&pieces[i]);
        let ghost before = crate::text::views(r@);
        r.push(string_from_chars(line.as_slice()));
        assert(crate::text::views(r@) =~= before.push(strip_cr(p[i as int])));
        assert(crate::text::views(r@) =~= Seq::new((i + 1) as nat, |k: int| strip_cr(p[k])));
        i = i + 1;
    }
    let last = &pieces[pieces.len() - 1];
    assert(last@ == p.last());
    if last.len() > 0 {
        r.push(string_from_chars(last.as_slice()));
        assert(crate::text::views(r@) =~= Seq::new((p.len() - 1) as nat, |k: int| strip_cr(p[k])).push(p.last()));
    }
    r
}

/// The tail of the installer's logs for its failure message.
pub fn installer_output_details(stdout_log: &str, stderr_log: &str) -> (r: String)
    ensures
        r@ == installer_details_spec(stdout_log@, stderr_log@),
{
    let a = crate::text::trim_str(stdout_log);
    let b = crate::text::trim_str(stderr_log);
    let mut combined = String::new();
    if a.as_str().unicode_len() > 0 {
        combined.append(a.as_str());
    }
    if b.as_str().unicode_len() > 0 {
        if a.as_str().unicode_len() > 0 {
            combined.append("\n");
        }
        combined.append(b.as_str());
    }
    proof {
        reveal_strlit("\n");
    }
    assert(combined@ == combined_logs(stdout_log@, stderr_log@));
    let chars = chars_of(combined.as_str());
    if chars.len() == 0 {
        return String::new();
    }
    let lines = lines_of(&chars);
    let truncated = lines.len() > INSTALLER_ERROR_TAIL_LINES;
    let start = if truncated {
        lines.len() - INSTALLER_ERROR_TAIL_LINES
    } else {
        0
    };
    let mut tail: Vec<String> = Vec::new();
    let mut k = start;
    while k < lines.len()
        invariant
            start <= k <= lines@.len(),
            crate::text::views(tail@) == crate::text::views(lines@).subrange(start as int, k as int),
        decreases lines.len() - k,
    {
        let ghost before = crate::text::views(tail@);
        tail.push(lines[k].clone());
        assert(crate::text::views(tail@) =~= before.push(lines@[k as int]@));
        assert(crate::text::views(tail@) =~= crate::text::views(lines@).subrange(start as int, k + 1));
        k = k + 1;
    }
    assert(crate::text::views(lines@).subrange(start as int, lines@.len() as int) =~= crate::text::views(lines@).skip(
        start as int,
    ));
    let output = crate::text::join_strings(&tail, "\n");
    let out_chars = chars_of(output.as_str());
    let output_text = if out_chars.len() > INSTALLER_ERROR_MAX_CHARS {
        let from = out_chars.len() - INSTALLER_ERROR_MAX_CHARS;
        let mut cut: Vec<char> = Vec::new();
        let mut j = from;
        while j < out_chars.len()
            invariant
                from <= j <= out_chars@.len(),
                cut@ == out_chars@.subrange(from as int, j as int),
            decreases out_chars.len() - j,
        {
            cut.push(out_chars[j]);
            assert(out_chars@.subrange(from as int, j + 1) =~= out_chars@.subrange(from as int, j as int).push(
                out_chars@[j as int],
            ));
            j = j + 1;
        }
        assert(out_chars@.subrange(from as int, out_chars@.len() as int) =~= out_chars@.skip(from as int));
        string_from_chars(cut.as_slice())
    } else {
        output
    };
    let mut r = if truncated {
        String::from_str("\n\nInstaller output (last 80 lines):\n")
    } else {
        String::from_str("\n\nInstaller output:\n")
    };
    r.append(output_text.as_str());
    r
}

// ---------------------------------------------------------------------------
// Vanilla releases

/// An entry of Mojang's version list.
pub struct VersionManifestEntry {
    pub id: String,
    pub kind: String,
    pub url: String,
    pub release_time: Option<String>,
}

/// A release the launcher offers to install.
pub struct VanillaRelease {
    pub id: String,
    pub release_time: Option<String>,
}

/// Progress of a vanilla install.
pub struct VanillaInstallStatusEvent {
    pub version_id: String,
    pub stage: String,
    pub message: String,
    pub current: Option<u32>,
    pub total: Option<u32>,
}

/// A progress event of a vanilla install.
pub fn emit_vanilla(version_id: &str, stage: &str, message: &str, current: Option<u32>, total: Option<u32>) -> (e:
    VanillaInstallStatusEvent)
    ensures
        e.version_id@ == version_id@,
        e.stage@ == stage@,
        e.message@ == message@,
        e.current == current,
        e.total == total,
{
    VanillaInstallStatusEvent {
        version_id: String::from_str(version_id),
        stage: String::from_str(stage),
        message: String::from_str(message),
        current,
        total,
    }
}

/// The releases of Mojang's list, in its order (newest first).
pub open spec fn releases_of(entries: Seq<VersionManifestEntry>) -> Seq<(Seq<char>, Option<Seq<char>>)>
    decreases entries.len(),
{
    if entries.len() == 0 {
        Seq::empty()
    } else {
        let rest = releases_of(entries.drop_last());
        let e = entries.last();
        if e.kind@ == "release"@ {
            rest.push((e.id@, ostr(e.release_time)))
        } else {
            rest
        }
    }
}

pub open spec fn release_view(r: VanillaRelease) -> (Seq<char>, Option<Seq<char>>) {
    (r.id@, ostr(r.release_time))
}

/// The release entries of Mojang's list, in the list's order.
pub fn vanilla_releases(entries: &Vec<VersionManifestEntry>) -> (r: Vec<VanillaRelease>)
    ensures
        r@.map_values(|x: VanillaRelease| release_view(x)) == releases_of(entries@),
{
    let mut r: Vec<VanillaRelease> = Vec::new();
    let mut i: usize = 0;
    while i < entries.len()
        invariant
            i <= entries.len(),
            r@.map_values(|x: VanillaRelease| release_view(x)) == releases_of(entries@.take(i as int)),
        decreases entries.len() - i,
    {
        assert(entries@.take(i + 1).drop_last() =~= entries@.take(i as int));
        assert(entries@.take(i + 1).last() == entries@[i as int]);
        let e = &entries[i];
        if str_eq(e.kind.as_str(), "release") {
            let ghost before = r@.map_values(|x: VanillaRelease| release_view(x));
            r.push(VanillaRelease { id: e.id.clone(), release_time: clone_opt(&e.release_time) });
            assert(r@.map_values(|x: VanillaRelease| release_view(x)) =~= before.push((e.id@, ostr(e.release_time))));
        }
        i = i + 1;
    }
    assert(entries@.take(i as int) =~= entries@);
    r
}

/// The index of the first entry of Mojang's list with id `version_id`.
pub open spec fn entry_index(entries: Seq<VersionManifestEntry>, version_id: Seq<char>, i: int) -> int
    decreases entries.len() - i,
{
    if i < 0 || i >= entries.len() {
        entries.len() as int
    } else if entries[i].id@ == version_id {
        i
    } else {
        entry_index(entries, version_id, i + 1)
    }
}

/// The URL of the manifest of `version_id` in Mojang's list.
pub fn find_version_url(entries: &Vec<VersionManifestEntry>, version_id: &str) -> (r: LauncherResult<String>)
    ensures
        ({
            let k = entry_index(entries@, version_id@, 0);
            &&& k < entries@.len() ==> (r matches Ok(u) && u@ == entries@[k].url@)
            &&& k >= entries@.len() ==> (r matches Err(e) && e.0@ == "Minecraft "@ + version_id@
                + " was not found in Mojang's version manifest."@)
        }),
{
    let mut i: usize = 0;
    while i < entries.len()
        invariant
            i <= entries.len(),
            entry_index(entries@, version_id@, 0) == entry_index(entries@, version_id@, i as int),
        decreases entries.len() - i,
    {
        if str_eq(entries[i].id.as_str(), version_id) {
            return Ok(entries[i].url.clone());
        }
        i = i + 1;
    }
    Err(error_with3("Minecraft ", version_id, " was not found in Mojang's version manifest."))
}

// ---------------------------------------------------------------------------
// Redux packs

/// The `pack.json` of a redux pack.
pub struct ReduxPackManifest {
    pub id: String,
    pub title: String,
    pub minecraft_version: String,
    pub fabric_loader_version: String,
    pub mods_subdir: String,
    pub recommended_java_major: u32,
}

/// A redux pack the launcher offers.
pub struct ReduxInstallOption {
    pub id: String,
    pub version_id: String,
    pub title: String,
    pub summary: String,
    pub minecraft_version: String,
    pub fabric_loader_version: String,
    pub recommended_java_major: u32,
}

/// Progress of a redux install.
pub struct ReduxInstallStatusEvent {
    pub option_id: String,
    pub version_id: String,
    pub stage: String,
    pub message: String,
    pub current: Option<u32>,
    pub total: Option<u32>,
}

/// What a redux install produced.
pub struct ReduxInstallResult {
    pub version_id: String,
    pub minecraft_version: String,
    pub fabric_loader_version: String,
}

/// A progress event of a redux install.
pub fn emit_redux(
    option_id: &str,
    version_id: &str,
    stage: &str,
    message: &str,
    current: Option<u32>,
    total: Option<u32>,
) -> (e: ReduxInstallStatusEvent)
    ensures
        e.option_id@ == option_id@,
        e.version_id@ == version_id@,
        e.stage@ == stage@,
        e.message@ == message@,
        e.current == current,
        e.total == total,
{
    ReduxInstallStatusEvent {
        option_id: String::from_str(option_id),
        version_id: String::from_str(version_id),
        stage: String::from_str(stage),
        message: String::from_str(message),
        current,
        total,
    }
}

/// Where a pack keeps its mods when `pack.json` does not say: the pack's
/// own directory.
pub fn default_mods_subdir() -> (r: String)
    ensures
        r@ == "."@,
{
    String::from_str(".")
}

/// A directory is a redux pack when its name ends in `-redux`.
pub fn is_redux_pack_dir_name(name: &str) -> (r: bool)
    ensures
        r == seq_ends_with(name@, "-redux"@),
{
    crate::text::ends_with(&chars_of(name), &chars_of("-redux"))
}

/// The option a pack is offered as.
pub open spec fn redux_option_for(o: ReduxInstallOption, m: ReduxPackManifest) -> bool {
    &&& o.id@ == m.id@
    &&& o.version_id@ == m.id@
    &&& o.title@ == m.title@
    &&& o.summary@ == "Fabric "@ + m.fabric_loader_version@ + " con mods curados para Minecraft "@
        + m.minecraft_version@ + "."@
    &&& o.minecraft_version@ == m.minecraft_version@
    &&& o.fabric_loader_version@ == m.fabric_loader_version@
    &&& o.recommended_java_major == m.recommended_java_major
}

pub fn redux_install_option(m: &ReduxPackManifest) -> (o: ReduxInstallOption)
    ensures
        redux_option_for(o, *m),
{
    let mut summary = String::from_str("Fabric ");
    summary.append(m.fabric_loader_version.as_str());
    summary.append(" con mods curados para Minecraft ");
    summary.append(m.minecraft_version.as_str());
    summary.append(".");
    ReduxInstallOption {
        id: m.id.clone(),
        version_id: m.id.clone(),
        title: m.title.clone(),
        summary,
        minecraft_version: m.minecraft_version.clone(),
        fabric_loader_version: m.fabric_loader_version.clone(),
        recommended_java_major: m.recommended_java_major,
    }
}

pub open spec fn pack_ids(packs: Seq<ReduxPackManifest>) -> Seq<Seq<char>> {
    Seq::new(packs.len(), |i: int| packs[i].id@)
}

/// The options of the packs found, sorted by id; packs with the same id
/// keep their order.
pub fn list_redux_install_options(packs: &Vec<ReduxPackManifest>) -> (r: Vec<ReduxInstallOption>)
    ensures
        exists|order: Seq<usize>|
            #![trigger crate::order::is_permutation(order, packs@.len())]
            crate::order::is_permutation(order, packs@.len()) && crate::order::stably_sorted(pack_ids(packs@), order)
                && r@.len() == order.len() && forall|i: int|
                0 <= i < r@.len() ==> redux_option_for(#[trigger] r@[i], packs@[order[i] as int]),
{
    let mut keys: Vec<Vec<char>> = Vec::new();
    let mut i: usize = 0;
    while i < packs.len()
        invariant
            i <= packs.len(),
            keys@.len() == i,
            forall|j: int| 0 <= j < i ==> (#[trigger] keys@[j])@ == packs@[j].id@,
        decreases packs.len() - i,
    {
        keys.push(chars_of(packs[i].id.as_str()));
        i = i + 1;
    }
    let order = crate::order::stable_sort_order(&keys);
    assert(crate::order::key_views(keys@) =~= pack_ids(packs@));
    let mut r: Vec<ReduxInstallOption> = Vec::new();
    let mut k: usize = 0;
    while k < order.len()
        invariant
            k <= order@.len(),
            crate::order::is_permutation(order@, packs@.len()),
            r@.len() == k,
            forall|j: int| 0 <= j < k ==> redux_option_for(#[trigger] r@[j], packs@[order@[j] as int]),
        decreases order.len() - k,
    {
        assert(order@[k as int] < packs@.len());
        r.push(redux_install_option(&packs[order[k]]));
        k = k + 1;
    }
    r
}

/// The index of the pack with id `option_id` among the sorted packs.
pub fn find_redux_pack(packs: &Vec<ReduxPackManifest>, option_id: &str) -> (r: LauncherResult<usize>)
    ensures
        r matches Ok(i) ==> i < packs@.len() && packs@[i as int].id@ == option_id@ && forall|j: int|
            0 <= j < i ==> packs@[j].id@ != option_id@,
        r matches Err(e) ==> e.0@ == "Unknown redux install option: "@ + option_id@ && forall|j: int|
            0 <= j < packs@.len() ==> packs@[j].id@ != option_id@,
{
    let mut i: usize = 0;
    while i < packs.len()
        invariant
            i <= packs.len(),
            forall|j: int| 0 <= j < i ==> packs@[j].id@ != option_id@,
        decreases packs.len() - i,
    {
        if str_eq(packs[i].id.as_str(), option_id) {
            return Ok(i);
        }
        i = i + 1;
    }
    Err(error_with("Unknown redux install option: ", option_id))
}

/// The Fabric profile of a Minecraft version and loader.
pub fn fabric_profile_url(minecraft_version: &str, loader_version: &str) -> (r: String)
    ensures
        r@ == "https://meta.fabricmc.net/v2/versions/loader/"@ + minecraft_version@ + "/"@ + loader_version@
            + "/profile/json"@,
{
    let mut r = String::from_str("https://meta.fabricmc.net/v2/versions/loader/");
    r.append(minecraft_version);
    r.append("/");
    r.append(loader_version);
    r.append("/profile/json");
    r
}

/// Index of the last `.` in a name; -1 when there is none.
pub open spec fn last_dot(name: Seq<char>, i: int) -> int
    decreases i,
{
    if i <= 0 || i > name.len() {
        -1
    } else if name[i - 1] == '.' {
        i - 1
    } else {
        last_dot(name, i - 1)
    }
}

/// A file is a mod when its extension is `jar`, in any case. As for
/// `Path::extension`, a name whose only `.` is its first character has no
/// extension.
pub open spec fn is_jar_name(file_name: Seq<char>) -> bool {
    let k = last_dot(file_name, file_name.len() as int);
    k > 0 && crate::text::ascii_lower(file_name.skip(k + 1)) == "jar"@
}

pub fn is_mod_jar(file_name: &str) -> (r: bool)
    ensures
        r == is_jar_name(file_name@),
{
    let name = chars_of(file_name);
    let mut i = name.len();
    while i > 0 && name[i - 1] != '.'
        invariant
            i <= name.len(),
            last_dot(name@, name@.len() as int) == last_dot(name@, i as int),
        decreases i,
    {
        i = i - 1;
    }
    if i <= 1 {
        return false;
    }
    let k = i - 1;
    let mut ext: Vec<char> = Vec::new();
    let mut j = k + 1;
    while j < name.len()
        invariant
            k + 1 <= j <= name.len(),
            ext@ == name@.subrange(k + 1, j as int),
        decreases name.len() - j,
    {
        ext.push(name[j]);
        assert(name@.subrange(k + 1, j + 1) =~= name@.subrange(k + 1, j as int).push(name@[j as int]));
        j = j + 1;
    }
    assert(ext@ =~= name@.skip(k + 1));
    let lower = crate::text::to_ascii_lowercase(&ext);
    proof {
        reveal_strlit("jar");
    }
    let jar = chars_of("jar");
    crate::manifest::chars_eq(&lower, &jar)
}

// ---------------------------------------------------------------------------
// OptiFine install checks

/// The files an OptiFine install must leave: the version's manifest and jar
/// and the OptiFine library.
pub open spec fn optifine_required_files_spec(
    minecraft_dir: Seq<char>,
    version_id: Seq<char>,
    minecraft_version: Seq<char>,
    edition: Seq<char>,
) -> Seq<Seq<char>> {
    let dir = crate::paths::path_join(crate::paths::path_join(minecraft_dir, "versions"@), version_id);
    let tag = minecraft_version + "_"@ + edition;
    seq![
        crate::paths::path_join(dir, version_id + ".json"@),
        crate::paths::path_join(dir, version_id + ".jar"@),
        crate::paths::path_join(
            crate::paths::path_join(
                crate::paths::path_join(
                    crate::paths::path_join(crate::paths::path_join(minecraft_dir, "libraries"@), "optifine"@),
                    "OptiFine"@,
                ),
                tag,
            ),
            "OptiFine-"@ + tag + ".jar"@,
        ),
    ]
}

fn cat(a: &str, b: &str) -> (r: String)
    ensures
        r@ == a@ + b@,
{
    let mut r = String::from_str(a);
    r.append(b);
    r
}

pub fn optifine_required_files(minecraft_dir: &str, option: &crate::optifine::OptifineInstallOption) -> (r: Vec<
    String,
>)
    ensures
        crate::text::views(r@) == optifine_required_files_spec(
            minecraft_dir@,
            option.version_id@,
            option.minecraft_version@,
            option.edition@,
        ),
{
    let vid = option.version_id.as_str();
    let versions = join_path(minecraft_dir, "versions");
    let dir = join_path(versions.as_str(), vid);
    let tag = cat(cat(option.minecraft_version.as_str(), "_").as_str(), option.edition.as_str());
    let libs = join_path(minecraft_dir, "libraries");
    let l1 = join_path(libs.as_str(), "optifine");
    let l2 = join_path(l1.as_str(), "OptiFine");
    let l3 = join_path(l2.as_str(), tag.as_str());
    let jar_name = cat(cat("OptiFine-", tag.as_str()).as_str(), ".jar");
    let mut r: Vec<String> = Vec::new();
    r.push(join_path(dir.as_str(), cat(vid, ".json").as_str()));
    r.push(join_path(dir.as_str(), cat(vid, ".jar").as_str()));
    r.push(join_path(l3.as_str(), jar_name.as_str()));
    assert(crate::text::views(r@) =~= optifine_required_files_spec(
        minecraft_dir@,
        option.version_id@,
        option.minecraft_version@,
        option.edition@,
    ));
    r
}

/// The install is complete when each required file is there; the first
/// missing one is reported. `found` pairs each file of
/// `optifine_required_files` with whether it is a file.
pub fn verify_optifine_install(found: &Vec<(String, bool)>) -> (r: LauncherResult<()>)
    ensures
        match crate::classpath::first_missing(crate::classpath::found_view(found@)) {
            Some(p) => r matches Err(e) && e.0@ == "OptiFine installer did not create required file: "@ + p,
            None => r is Ok,
        },
{
    let ghost fv = crate::classpath::found_view(found@);
    assert(fv.skip(0) =~= fv);
    let mut i: usize = 0;
    while i < found.len()
        invariant
            i <= found.len(),
            fv == crate::classpath::found_view(found@),
            crate::classpath::first_missing(fv) == crate::classpath::first_missing(fv.skip(i as int)),
        decreases found.len() - i,
    {
        assert(fv.skip(i as int).drop_first() =~= fv.skip(i + 1));
        assert(fv.skip(i as int)[0] == (found@[i as int].0@, found@[i as int].1));
        if !found[i].1 {
            return Err(error_with("OptiFine installer did not create required file: ", found[i].0.as_str()));
        }
        i = i + 1;
    }
    assert(fv.skip(i as int) =~= Seq::<(Seq<char>, bool)>::empty());
    Ok(())
}


// ---------------------------------------------------------------------------
// Asset objects

pub const ASSETS_BASE_URL: &'static str = "https://resources.download.minecraft.net/";

/// The number of bytes a character takes in UTF-8.
pub open spec fn utf8_len(c: char) -> int {
    let v = c as u32;
    if v < 0x80 {
        1
    } else if v < 0x800 {
        2
    } else if v < 0x10000 {
        3
    } else {
        4
    }
}

/// The first two bytes of `hash` as text (`str::get(0..2)`): the characters
/// that fill them exactly, or `None` when the text is shorter or byte 2 falls
/// inside a character.
pub open spec fn two_byte_prefix(hash: Seq<char>) -> Option<Seq<char>> {
    if hash.len() >= 1 && utf8_len(hash[0]) == 2 {
        Some(hash.take(1))
    } else if hash.len() >= 2 && utf8_len(hash[0]) == 1 && utf8_len(hash[1]) == 1 {
        Some(hash.take(2))
    } else {
        None
    }
}

/// Where an asset object with `hash` is stored under `minecraft_dir` and the
/// URL it is fetched from: both are keyed by the hash's first two bytes.
pub open spec fn asset_object_spec(minecraft_dir: Seq<char>, hash: Seq<char>) -> Result<
    (Seq<char>, Seq<char>),
    Seq<char>,
> {
    match two_byte_prefix(hash) {
        None => Err("Asset hash is too short."@),
        Some(prefix) => Ok(
            (
                path_join(path_join(path_join(path_join(minecraft_dir, "assets"@), "objects"@), prefix), hash),
                ASSETS_BASE_URL@ + prefix + "/"@ + hash,
            ),
        ),
    }
}

fn utf8_len_exec(c: char) -> (r: u32)
    ensures
        r as int == utf8_len(c),
{
    let v = c as u32;
    if v < 0x80 {
        1
    } else if v < 0x800 {
        2
    } else if v < 0x10000 {
        3
    } else {
        4
    }
}

/// The stored path and download URL of an asset object.
pub fn asset_object_location(minecraft_dir: &str, hash: &str) -> (r: LauncherResult<(String, String)>)
    ensures
        match asset_object_spec(minecraft_dir@, hash@) {
            Ok((p, u)) => r matches Ok(x) && x.0@ == p && x.1@ == u,
            Err(e) => r matches Err(x) && x.0@ == e,
        },
{
    let h = chars_of(hash);
    let mut pc: Vec<char> = Vec::new();
    if h.len() >= 1 && utf8_len_exec(h[0]) == 2 {
        pc.push(h[0]);
        assert(pc@ =~= hash@.take(1));
    } else if h.len() >= 2 && utf8_len_exec(h[0]) == 1 && utf8_len_exec(h[1]) == 1 {
        pc.push(h[0]);
        pc.push(h[1]);
        assert(pc@ =~= hash@.take(2));
    } else {
        return Err(LauncherError::new(String::from_str("Asset hash is too short.")));
    }
    let prefix = string_from_chars(pc.as_slice());
    assert(two_byte_prefix(hash@) == Some(prefix@));
    let a = join_path(minecraft_dir, "assets");
    let o = join_path(a.as_str(), "objects");
    let d = join_path(o.as_str(), prefix.as_str());
    let path = join_path(d.as_str(), hash);
    let mut url = String::from_str(ASSETS_BASE_URL);
    url.append(prefix.as_str());
    url.append("/");
    url.append(hash);
    Ok((path, url))
}

// ---------------------------------------------------------------------------
// Installer process

/// What to do after polling the OptiFine installer.
#[derive(PartialEq, Eq, Structural, Clone, Copy, Debug)]
pub enum InstallerPoll {
    /// It exited successfully: the install goes on.
    Succeeded,
    /// It exited with a failure status: report it.
    Failed,
    /// It ran past the time limit: kill it and report the timeout.
    TimedOut,
    /// It is still running: wait and poll again.
    Wait,
}

/// The limit on the OptiFine installer's run, in milliseconds.
pub const OPTIFINE_INSTALLER_TIMEOUT_MS: u64 = 300000;

/// The decision after one poll of the installer: `exited` is its exit
/// success when it has exited, and `elapsed_ms` the time since it started. An
/// exit is taken before the time limit is looked at; the limit is passed
/// only when strictly more time has gone by.
pub fn installer_poll_step(exited: Option<bool>, elapsed_ms: u64) -> (r: InstallerPoll)
    ensures
        r == (match exited {
            Some(true) => InstallerPoll::Succeeded,
            Some(false) => InstallerPoll::Failed,
            None => if elapsed_ms > OPTIFINE_INSTALLER_TIMEOUT_MS {
                InstallerPoll::TimedOut
            } else {
                InstallerPoll::Wait
            },
        }),
{
    match exited {
        Some(true) => InstallerPoll::Succeeded,
        Some(false) => InstallerPoll::Failed,
        None => if elapsed_ms > OPTIFINE_INSTALLER_TIMEOUT_MS {
            InstallerPoll::TimedOut
        } else {
            InstallerPoll::Wait
        },
    }
}

// ---------------------------------------------------------------------------
// Version and profile files

/// The top-level fields a redux version manifest sets over the Fabric profile
/// it starts from; the profile's other fields are kept as they are.
pub struct ReduxVersionFields {
    /// `id`: the pack's id.
    pub id: String,
    /// `inheritsFrom`: the Minecraft version the pack runs on.
    pub inherits_from: String,
    /// `type`: always `release`.
    pub version_type: String,
    /// `mecha.gameDirectory`: the pack's own game directory.
    pub game_directory: String,
    /// `mecha.sourceKind`: always `redux`.
    pub source_kind: String,
}

/// The fields a redux pack's version manifest sets, for a pack installed with
/// its game directory at `game_directory`.
pub fn redux_version_fields(pack: &ReduxPackManifest, game_directory: &str) -> (r: ReduxVersionFields)
    ensures
        r.id@ == pack.id@,
        r.inherits_from@ == pack.minecraft_version@,
        r.version_type@ == "release"@,
        r.game_directory@ == game_directory@,
        r.source_kind@ == "redux"@,
{
    ReduxVersionFields {
        id: pack.id.clone(),
        inherits_from: pack.minecraft_version.clone(),
        version_type: String::from_str("release"),
        game_directory: String::from_str(game_directory),
        source_kind: String::from_str("redux"),
    }
}

/// What to do with `launcher_profiles.json`, which the OptiFine installer
/// needs.
#[derive(PartialEq, Eq, Structural, Clone, Copy, Debug)]
pub enum ProfilesFileAction {
    /// There is none: write one with no profiles and `OptiFine` selected.
    CreateMinimal,
    /// Its `profiles` is missing or not an object: set it to an empty object
    /// and write the file back.
    AddProfiles,
    /// It is usable as it is.
    Keep,
    /// It is not a JSON object: refuse it.
    NotAnObject,
}

/// The action for the profiles file: `exists` says whether it is there,
/// `root_is_object` whether its JSON is an object and `profiles_is_object`
/// whether that object's `profiles` is one.
pub fn launcher_profiles_action(exists: bool, root_is_object: bool, profiles_is_object: bool) -> (r:
    ProfilesFileAction)
    ensures
        r == (if !exists {
            ProfilesFileAction::CreateMinimal
        } else if !root_is_object {
            ProfilesFileAction::NotAnObject
        } else if !profiles_is_object {
            ProfilesFileAction::AddProfiles
        } else {
            ProfilesFileAction::Keep
        }),
{
    if !exists {
        ProfilesFileAction::CreateMinimal
    } else if !root_is_object {
        ProfilesFileAction::NotAnObject
    } else if !profiles_is_object {
        ProfilesFileAction::AddProfiles
    } else {
        ProfilesFileAction::Keep
    }
}

/// What editing a JSON text gave: the edited text; that the text is not a
/// JSON object; that it is not JSON (with the parser's message); or that the
/// edited value could not be written out (with the writer's message).
pub enum JsonEdit {
    Edited(String),
    NotAnObject,
    Invalid(String),
    Unserializable(String),
}

/// A `JsonEdit` with its texts taken by views.
pub enum JsonEditView {
    Edited(Seq<char>),
    NotAnObject,
    Invalid(Seq<char>),
    Unserializable(Seq<char>),
}

impl View for JsonEdit {
    type V = JsonEditView;

    open spec fn view(&self) -> JsonEditView {
        match self {
            JsonEdit::Edited(t) => JsonEditView::Edited(t@),
            JsonEdit::NotAnObject => JsonEditView::NotAnObject,
            JsonEdit::Invalid(m) => JsonEditView::Invalid(m@),
            JsonEdit::Unserializable(m) => JsonEditView::Unserializable(m@),
        }
    }
}

/// What `serde_json` makes of the JSON text `base` with each of `fields` set
/// as a top-level string field, in order, and `object_key` set to an object
/// holding `object_fields` as string fields, written out pretty.
pub uninterp spec fn json_string_fields_edit(
    base: Seq<char>,
    fields: Seq<(Seq<char>, Seq<char>)>,
    object_key: Seq<char>,
    object_fields: Seq<(Seq<char>, Seq<char>)>,
) -> JsonEditView;

/// The pairs of a field list, taken by views.
pub open spec fn field_views(v: Seq<(String, String)>) -> Seq<(Seq<char>, Seq<char>)> {
    v.map_values(|p: (String, String)| (p.0@, p.1@))
}

/// Parses `base` with `serde_json::from_str` into a `serde_json::Value`, sets
/// the fields with `Map::insert` and writes it with
/// `serde_json::to_string_pretty`. Claimed: the outcome is the one named
/// `json_string_fields_edit` of the text and the fields.
#[verifier::external_body]
fn set_json_string_fields(
    base: &str,
    fields: &Vec<(String, String)>,
    object_key: &str,
    object_fields: &Vec<(String, String)>,
) -> (r: JsonEdit)
    ensures
        r@ == json_string_fields_edit(base@, field_views(fields@), object_key@, field_views(object_fields@)),
{
    let mut json = match serde_json::from_str::<serde_json::Value>(base) {
        Ok(json) => json,
        Err(error) => return JsonEdit::Invalid(error.to_string()),
    };
    let Some(object) = json.as_object_mut() else { return JsonEdit::NotAnObject };
    for (key, value) in fields {
        object.insert(key.clone(), value.clone().into());
    }
    let nested: serde_json::Map<_, _> =
        object_fields.iter().map(|(key, value)| (key.clone(), value.clone().into())).collect();
    object.insert(object_key.to_string(), nested.into());
    match serde_json::to_string_pretty(&json) {
        Ok(text) => JsonEdit::Edited(text),
        Err(error) => JsonEdit::Unserializable(error.to_string()),
    }
}

fn field(key: &str, value: String) -> (p: (String, String))
    ensures
        p.0@ == key@,
        p.1@ == value@,
{
    (String::from_str(key), value)
}

/// The redux version manifest, or its error, for an edit of the Fabric
/// profile.
pub open spec fn redux_manifest_spec(edit: JsonEditView) -> Result<Seq<char>, Seq<char>> {
    match edit {
        JsonEditView::Edited(t) => Ok(t),
        JsonEditView::NotAnObject => Err("Fabric profile manifest did not contain a JSON object."@),
        JsonEditView::Invalid(m) => Err("Invalid Fabric profile manifest: "@ + m),
        JsonEditView::Unserializable(m) => Err("Failed to serialize redux manifest: "@ + m),
    }
}

/// The redux version manifest from the edited Fabric profile, or the error
/// the edit comes to.
pub fn redux_manifest_from_edit(edit: JsonEdit) -> (r: LauncherResult<String>)
    ensures
        rsv(r) == redux_manifest_spec(edit@),
{
    match edit {
        JsonEdit::Edited(t) => Ok(t),
        JsonEdit::NotAnObject => Err(
            LauncherError::new(String::from_str("Fabric profile manifest did not contain a JSON object.")),
        ),
        JsonEdit::Invalid(m) => Err(error_with("Invalid Fabric profile manifest: ", m.as_str())),
        JsonEdit::Unserializable(m) => Err(error_with("Failed to serialize redux manifest: ", m.as_str())),
    }
}

/// A redux pack's version manifest: the Fabric profile text it starts from,
/// with the pack's id, its Minecraft version as parent, type `release`, and
/// its game directory and source kind `redux` under `mecha`.
pub fn build_redux_manifest(base_manifest_text: &str, manifest: &ReduxPackManifest, game_directory: &str) -> (r:
    LauncherResult<String>)
    ensures
        rsv(r) == redux_manifest_spec(
            json_string_fields_edit(
                base_manifest_text@,
                seq![("id"@, manifest.id@), ("inheritsFrom"@, manifest.minecraft_version@), ("type"@, "release"@)],
                "mecha"@,
                seq![("gameDirectory"@, game_directory@), ("sourceKind"@, "redux"@)],
            ),
        ),
{
    let f = redux_version_fields(manifest, game_directory);
    let mut fields: Vec<(String, String)> = Vec::new();
    fields.push(field("id", f.id));
    fields.push(field("inheritsFrom", f.inherits_from));
    fields.push(field("type", f.version_type));
    let mut mecha: Vec<(String, String)> = Vec::new();
    mecha.push(field("gameDirectory", f.game_directory));
    mecha.push(field("sourceKind", f.source_kind));
    proof {
        assert(field_views(fields@) =~= seq![("id"@, manifest.id@), ("inheritsFrom"@, manifest.minecraft_version@), ("type"@, "release"@)]);
        assert(field_views(mecha@) =~= seq![("gameDirectory"@, game_directory@), ("sourceKind"@, "redux"@)]);
    }
    redux_manifest_from_edit(set_json_string_fields(base_manifest_text, &fields, "mecha", &mecha))
}

/// The launcher profile file written when there is none: no profiles, with
/// `OptiFine` selected.
pub const MINIMAL_LAUNCHER_PROFILES: &'static str = "{\n  \"profiles\": {},\n  \"selectedProfile\": \"OptiFine\"\n}";

/// What `serde_json` reads in `text`: whether it is a JSON object, and
/// whether that object's `key` is one; or the parser's message.
pub uninterp spec fn json_object_shape(text: Seq<char>, key: Seq<char>) -> Result<(bool, bool), Seq<char>>;

/// Parses `text` with `serde_json::from_str` into a `serde_json::Value` and
/// reports `Value::is_object` of it and of its `key`. Claimed: the outcome is
/// the one named `json_object_shape`.
#[verifier::external_body]
fn json_profiles_shape(text: &str, key: &str) -> (r: Result<(bool, bool), String>)
    ensures
        match r {
            Ok(shape) => json_object_shape(text@, key@) == Ok::<(bool, bool), Seq<char>>(shape),
            Err(m) => json_object_shape(text@, key@) == Err::<(bool, bool), Seq<char>>(m@),
        },
{
    match serde_json::from_str::<serde_json::Value>(text) {
        Ok(json) => Ok((json.is_object(), json.get(key).map(|value| value.is_object()).unwrap_or(false))),
        Err(error) => Err(error.to_string()),
    }
}

/// What `serde_json` makes of `text` with `key` set to an empty object (when
/// the text is an object), written out pretty; or the parser's or writer's
/// message.
pub uninterp spec fn json_set_empty_object(text: Seq<char>, key: Seq<char>) -> Result<Seq<char>, Seq<char>>;

/// Parses `text` with `serde_json::from_str`, sets `key` to an empty
/// `serde_json::Map` with `Map::insert` and writes it with
/// `serde_json::to_string_pretty`. Claimed: the outcome is the one named
/// `json_set_empty_object`.
#[verifier::external_body]
fn json_with_empty_object(text: &str, key: &str) -> (r: Result<String, String>)
    ensures
        match r {
            Ok(t) => json_set_empty_object(text@, key@) == Ok::<Seq<char>, Seq<char>>(t@),
            Err(m) => json_set_empty_object(text@, key@) == Err::<Seq<char>, Seq<char>>(m@),
        },
{
    let mut json = serde_json::from_str::<serde_json::Value>(text).map_err(|error| error.to_string())?;
    if let Some(object) = json.as_object_mut() {
        object.insert(key.to_string(), serde_json::Map::new().into());
    }
    serde_json::to_string_pretty(&json).map_err(|error| error.to_string())
}

/// The message for a launcher profile file that cannot be used.
pub open spec fn invalid_profiles_message(path: Seq<char>, reason: Seq<char>) -> Seq<char> {
    "Invalid launcher profile file "@ + path + ": "@ + reason
}

fn invalid_profiles_error(path: &str, reason: &str) -> (e: LauncherError)
    ensures
        e.0@ == invalid_profiles_message(path@, reason@),
{
    let mut m = String::from_str("Invalid launcher profile file ");
    m.append(path);
    m.append(": ");
    m.append(reason);
    LauncherError(m)
}

/// What to write to the launcher profile file at `path`, given its text when
/// it exists: the minimal file when there is none; the text with an empty
/// `profiles` object when it lacks one; nothing (`None`) when it is usable.
/// Text that is not JSON, or not a JSON object, is refused.
pub fn launcher_profiles_update(path: &str, existing: Option<&str>) -> (r: LauncherResult<Option<String>>)
    ensures
        match existing {
            None => r matches Ok(Some(t)) && t@ == MINIMAL_LAUNCHER_PROFILES@,
            Some(text) => match json_object_shape(text@, "profiles"@) {
                Err(m) => r matches Err(e) && e.0@ == invalid_profiles_message(path@, m),
                Ok((false, _)) => r matches Err(e) && e.0@ == invalid_profiles_message(
                    path@,
                    "expected a JSON object."@,
                ),
                Ok((true, true)) => r matches Ok(None),
                Ok((true, false)) => match json_set_empty_object(text@, "profiles"@) {
                    Ok(t) => r matches Ok(Some(x)) && x@ == t,
                    Err(m) => r matches Err(e) && e.0@ == m,
                },
            },
        },
{
    let text = match existing {
        None => return Ok(Some(String::from_str(MINIMAL_LAUNCHER_PROFILES))),
        Some(text) => text,
    };
    let (root_is_object, profiles_is_object) = match json_profiles_shape(text, "profiles") {
        Ok(shape) => shape,
        Err(m) => return Err(invalid_profiles_error(path, m.as_str())),
    };
    match launcher_profiles_action(true, root_is_object, profiles_is_object) {
        ProfilesFileAction::NotAnObject => Err(invalid_profiles_error(path, "expected a JSON object.")),
        ProfilesFileAction::AddProfiles => match json_with_empty_object(text, "profiles") {
            Ok(t) => Ok(Some(t)),
            Err(m) => Err(LauncherError::new(m)),
        },
        _ => Ok(None),
    }
}

/// The name a download is written under until it is complete: the target's
/// file name, or `download` when it has none, hidden with a leading `.` and
/// given the suffix `.part`.
pub fn part_file_name(file_name: Option<&str>) -> (r: String)
    ensures
        r@ == "."@ + (match file_name {
            Some(n) => n@,
            None => "download"@,
        }) + ".part"@,
{
    let mut r = String::from_str(".");
    match file_name {
        Some(n) => r.append(n),
        None => r.append("download"),
    }
    r.append(".part");
    r
}

} // verus!
