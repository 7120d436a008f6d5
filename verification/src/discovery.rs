//! Where Minecraft lives and which versions it has.
use vstd::prelude::*;

use crate::error::{error_with, error_with3, LauncherError, LauncherResult};
use crate::manifest::ResolvedManifest;
use crate::order::{is_permutation, key_views, stable_sort_order, stably_sorted};
use crate::paths::{join_path, path_join};
use crate::text::{ascii_lower, chars_of, str_eq, to_ascii_lowercase};

verus! {

/// The default `.minecraft` directory of an OS: under `APPDATA` on Windows
/// (or `AppData/Roaming` in the home directory), under
/// `Library/Application Support` on macOS, and hidden in the home directory
/// elsewhere.
pub open spec fn default_minecraft_dir_spec(
    os_name: Seq<char>,
    home_dir: Option<Seq<char>>,
    app_data_dir: Option<Seq<char>>,
) -> Option<Seq<char>> {
    if os_name == "windows"@ {
        match app_data_dir {
            Some(a) => Some(path_join(a, ".minecraft"@)),
            None => match home_dir {
                Some(h) => Some(path_join(path_join(path_join(h, "AppData"@), "Roaming"@), ".minecraft"@)),
                None => None,
            },
        }
    } else if os_name == "macos"@ {
        match home_dir {
            Some(h) => Some(
                path_join(path_join(path_join(h, "Library"@), "Application Support"@), "minecraft"@),
            ),
            None => None,
        }
    } else {
        match home_dir {
            Some(h) => Some(path_join(h, ".minecraft"@)),
            None => None,
        }
    }
}

pub open spec fn opt_str_view(o: Option<&str>) -> Option<Seq<char>> {
    match o {
        Some(s) => Some(s@),
        None => None,
    }
}

pub open spec fn opt_string_view(o: Option<String>) -> Option<Seq<char>> {
    match o {
        Some(s) => Some(s@),
        None => None,
    }
}

pub fn default_minecraft_dir_for(os_name: &str, home_dir: Option<&str>, app_data_dir: Option<&str>) -> (r:
    Option<String>)
    ensures
        opt_string_view(r) == default_minecraft_dir_spec(os_name@, opt_str_view(home_dir), opt_str_view(app_data_dir)),
{
    if str_eq(os_name, "windows") {
        proof {
            reveal_strlit("windows");
        }
        if let Some(a) = app_data_dir {
            return Some(join_path(a, ".minecraft"));
        }
        return match home_dir {
            Some(h) => {
                let p = join_path(h, "AppData");
                let p = join_path(p.as_str(), "Roaming");
                Some(join_path(p.as_str(), ".minecraft"))
            },
            None => None,
        };
    }
    if str_eq(os_name, "macos") {
        return match home_dir {
            Some(h) => {
                let p = join_path(h, "Library");
                let p = join_path(p.as_str(), "Application Support");
                Some(join_path(p.as_str(), "minecraft"))
            },
            None => None,
        };
    }
    match home_dir {
        Some(h) => Some(join_path(h, ".minecraft")),
        None => None,
    }
}

/// The default Minecraft directory of this machine, from its OS name and
/// its `HOME` and `APPDATA` variables.
pub fn detect_default_minecraft_dir(os_name: &str, home_dir: Option<&str>, app_data_dir: Option<&str>) -> (r:
    Option<String>)
    ensures
        opt_string_view(r) == default_minecraft_dir_spec(os_name@, opt_str_view(home_dir), opt_str_view(app_data_dir)),
{
    default_minecraft_dir_for(os_name, home_dir, app_data_dir)
}

/// What the application found at a Minecraft directory.
pub struct MinecraftDirProbe {
    pub exists: bool,
    pub is_dir: bool,
    pub versions_is_dir: bool,
    pub libraries_is_dir: bool,
    pub assets_is_dir: bool,
}

/// The verdict on a Minecraft directory: it must exist, be a directory, and
/// hold `versions`, `libraries` and `assets` directories, checked in that
/// order.
pub open spec fn minecraft_dir_check(dir: Seq<char>, probe: MinecraftDirProbe) -> Result<(), Seq<char>> {
    if !probe.exists {
        Err("Minecraft directory does not exist: "@ + dir)
    } else if !probe.is_dir {
        Err("Minecraft path is not a directory: "@ + dir)
    } else if !probe.versions_is_dir {
        Err("Missing required Minecraft directory: "@ + path_join(dir, "versions"@))
    } else if !probe.libraries_is_dir {
        Err("Missing required Minecraft directory: "@ + path_join(dir, "libraries"@))
    } else if !probe.assets_is_dir {
        Err("Missing required Minecraft directory: "@ + path_join(dir, "assets"@))
    } else {
        Ok(())
    }
}

pub open spec fn unit_view(r: LauncherResult<()>) -> Result<(), Seq<char>> {
    match r {
        Ok(()) => Ok(()),
        Err(e) => Err(e.0@),
    }
}

fn missing_dir(minecraft_dir: &str, sub: &str) -> (e: LauncherError)
    ensures
        e.0@ == "Missing required Minecraft directory: "@ + path_join(minecraft_dir@, sub@),
{
    let p = join_path(minecraft_dir, sub);
    error_with("Missing required Minecraft directory: ", p.as_str())
}

pub fn validate_minecraft_directory(minecraft_dir: &str, probe: &MinecraftDirProbe) -> (r: LauncherResult<()>)
    ensures
        unit_view(r) == minecraft_dir_check(minecraft_dir@, *probe),
{
    if !probe.exists {
        return Err(error_with("Minecraft directory does not exist: ", minecraft_dir));
    }
    if !probe.is_dir {
        return Err(error_with("Minecraft path is not a directory: ", minecraft_dir));
    }
    if !probe.versions_is_dir {
        return Err(missing_dir(minecraft_dir, "versions"));
    }
    if !probe.libraries_is_dir {
        return Err(missing_dir(minecraft_dir, "libraries"));
    }
    if !probe.assets_is_dir {
        return Err(missing_dir(minecraft_dir, "assets"));
    }
    Ok(())
}

/// The files of an installed version.
pub struct VersionArtifactPaths {
    pub version_dir: String,
    pub manifest_file: String,
    pub version_jar: String,
}

/// `versions/<id>`, with `<id>.json` and `<id>.jar` in it.
pub open spec fn artifact_paths_spec(minecraft_dir: Seq<char>, version_id: Seq<char>) -> (
    Seq<char>,
    Seq<char>,
    Seq<char>,
) {
    let dir = path_join(path_join(minecraft_dir, "versions"@), version_id);
    (dir, path_join(dir, version_id + ".json"@), path_join(dir, version_id + ".jar"@))
}

pub open spec fn paths_view(p: VersionArtifactPaths) -> (Seq<char>, Seq<char>, Seq<char>) {
    (p.version_dir@, p.manifest_file@, p.version_jar@)
}

fn with_suffix(id: &str, suffix: &str) -> (r: String)
    ensures
        r@ == id@ + suffix@,
{
    let mut r = String::from_str(id);
    r.append(suffix);
    r
}

/// Where the files of a version are, whether or not they exist.
pub fn version_artifact_paths(minecraft_dir: &str, version_id: &str) -> (p: VersionArtifactPaths)
    ensures
        paths_view(p) == artifact_paths_spec(minecraft_dir@, version_id@),
{
    let versions = join_path(minecraft_dir, "versions");
    let version_dir = join_path(versions.as_str(), version_id);
    let manifest_file = join_path(version_dir.as_str(), with_suffix(version_id, ".json").as_str());
    let version_jar = join_path(version_dir.as_str(), with_suffix(version_id, ".jar").as_str());
    VersionArtifactPaths { version_dir, manifest_file, version_jar }
}

/// What the application found at a version's paths.
pub struct ArtifactProbe {
    pub version_dir_is_dir: bool,
    pub manifest_is_file: bool,
    pub jar_is_file: bool,
}

/// The paths of an installed version; it needs its directory, its manifest
/// and its jar, checked in that order.
pub fn resolve_version_artifact_paths(minecraft_dir: &str, version_id: &str, probe: &ArtifactProbe) -> (r:
    LauncherResult<VersionArtifactPaths>)
    ensures
        ({
            let (d, m, j) = artifact_paths_spec(minecraft_dir@, version_id@);
            &&& !probe.version_dir_is_dir ==> (r matches Err(e) && e.0@ == "Missing version directory: "@ + d)
            &&& (probe.version_dir_is_dir && !probe.manifest_is_file) ==> (r matches Err(e) && e.0@
                == "Missing version manifest file: "@ + m)
            &&& (probe.version_dir_is_dir && probe.manifest_is_file && !probe.jar_is_file) ==> (r matches Err(
                e,
            ) && e.0@ == "Missing version jar file: "@ + j)
            &&& (probe.version_dir_is_dir && probe.manifest_is_file && probe.jar_is_file) ==> (r matches Ok(
                p,
            ) && paths_view(p) == (d, m, j))
        }),
{
    let p = version_artifact_paths(minecraft_dir, version_id);
    if !probe.version_dir_is_dir {
        return Err(error_with("Missing version directory: ", p.version_dir.as_str()));
    }
    if !probe.manifest_is_file {
        return Err(error_with("Missing version manifest file: ", p.manifest_file.as_str()));
    }
    if !probe.jar_is_file {
        return Err(error_with("Missing version jar file: ", p.version_jar.as_str()));
    }
    Ok(p)
}

/// A launch needs its asset index file: `exists` says whether the
/// application found it at `path`.
pub fn require_asset_index_file(path: &str, exists: bool) -> (r: LauncherResult<()>)
    ensures
        exists <==> r is Ok,
        r matches Err(e) ==> e.0@ == "Missing asset index file at "@ + path@ + "."@,
{
    if exists {
        Ok(())
    } else {
        Err(error_with3("Missing asset index file at ", path, "."))
    }
}

/// `assets/indexes/<id>.json` for the manifest's asset index.
pub fn resolve_asset_index_path(minecraft_dir: &str, manifest: &ResolvedManifest) -> (r: LauncherResult<String>)
    ensures
        manifest.asset_index_id is None <==> r is Err,
        r matches Err(e) ==> e.0@ == "The selected manifest does not declare an asset index."@,
        r matches Ok(p) ==> p@ == path_join(
            path_join(path_join(minecraft_dir@, "assets"@), "indexes"@),
            manifest.asset_index_id->Some_0@ + ".json"@,
        ),
{
    let id = match &manifest.asset_index_id {
        Some(i) => i,
        None => {
            return Err(
                LauncherError::new(String::from_str("The selected manifest does not declare an asset index.")),
            );
        },
    };
    let assets = join_path(minecraft_dir, "assets");
    let indexes = join_path(assets.as_str(), "indexes");
    Ok(join_path(indexes.as_str(), with_suffix(id.as_str(), ".json").as_str()))
}

/// An installed version as the version list shows it.
pub struct MinecraftVersionSummary {
    pub id: String,
    pub folder_name: String,
    pub jar_path: String,
    pub manifest_path: String,
    pub java_component: Option<String>,
    pub java_major_version: Option<u32>,
    pub game_directory: Option<String>,
    pub source_kind: Option<String>,
}

fn clone_opt_string(o: &Option<String>) -> (r: Option<String>)
    ensures
        r == *o,
{
    match o {
        Some(s) => Some(s.clone()),
        None => None,
    }
}

impl Clone for MinecraftVersionSummary {
    fn clone(&self) -> (r: Self)
        ensures
            r == *self,
    {
        MinecraftVersionSummary {
            id: self.id.clone(),
            folder_name: self.folder_name.clone(),
            jar_path: self.jar_path.clone(),
            manifest_path: self.manifest_path.clone(),
            java_component: clone_opt_string(&self.java_component),
            java_major_version: self.java_major_version,
            game_directory: clone_opt_string(&self.game_directory),
            source_kind: clone_opt_string(&self.source_kind),
        }
    }
}

/// A version is listed by its folder name, in ASCII lower case.
pub open spec fn version_key(v: MinecraftVersionSummary) -> Seq<char> {
    ascii_lower(v.folder_name@)
}

pub open spec fn version_keys(vs: Seq<MinecraftVersionSummary>) -> Seq<Seq<char>> {
    Seq::new(vs.len(), |i: int| version_key(vs[i]))
}

/// `r` holds `vs` in `order`.
pub open spec fn arranged<T>(r: Seq<T>, vs: Seq<T>, order: Seq<usize>) -> bool {
    &&& r.len() == order.len()
    &&& forall|i: int| 0 <= i < r.len() ==> #[trigger] r[i] == vs[order[i] as int]
}

/// The installed versions the application found, sorted by folder name
/// ignoring ASCII case; versions whose names differ only in case keep their
/// order.
pub fn list_versions(versions: Vec<MinecraftVersionSummary>) -> (r: Vec<MinecraftVersionSummary>)
    ensures
        exists|order: Seq<usize>|
            #![trigger is_permutation(order, versions@.len())]
            is_permutation(order, versions@.len()) && stably_sorted(version_keys(versions@), order)
                && arranged(r@, versions@, order),
{
    let mut keys: Vec<Vec<char>> = Vec::new();
    let mut i: usize = 0;
    while i < versions.len()
        invariant
            i <= versions.len(),
            keys@.len() == i,
            forall|j: int| 0 <= j < i ==> (#[trigger] keys@[j])@ == version_key(versions@[j]),
        decreases versions.len() - i,
    {
        keys.push(to_ascii_lowercase(&chars_of(versions[i].folder_name.as_str())));
        i = i + 1;
    }
    let order = stable_sort_order(&keys);
    assert(key_views(keys@) =~= version_keys(versions@));
    let mut r: Vec<MinecraftVersionSummary> = Vec::new();
    let mut k: usize = 0;
    while k < order.len()
        invariant
            k <= order@.len(),
            is_permutation(order@, versions@.len()),
            r@.len() == k,
            forall|j: int| 0 <= j < k ==> #[trigger] r@[j] == versions@[order@[j] as int],
        decreases order.len() - k,
    {
        assert(order@[k as int] < versions@.len());
        r.push(versions[order[k]].clone());
        k = k + 1;
    }
    assert(arranged(r@, versions@, order@));
    r
}

} // verus!
