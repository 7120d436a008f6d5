//! Choosing a Mojang Java runtime from its index, and the files of its
//! manifest to create and download.
use vstd::prelude::*;

use crate::error::{LauncherError, LauncherResult};
use crate::text::str_eq;

verus! {

/// A runtime manifest the index points at.
pub struct RuntimeManifestRef {
    pub url: String,
    pub sha1: Option<String>,
    pub size: Option<u64>,
}

/// The published builds of one runtime component on one platform.
pub struct RuntimeComponent {
    pub component: String,
    pub entries: Vec<RuntimeManifestRef>,
}

/// The runtime components published for one platform.
pub struct RuntimePlatform {
    pub platform: String,
    pub components: Vec<RuntimeComponent>,
}

/// One entry of a runtime manifest: a path under the runtime root, its type
/// (`file`, `directory` or `link`), the raw download of a file, whether it
/// is executable, and the target of a link.
pub struct RuntimeFile {
    pub path: String,
    pub file_type: String,
    pub raw: Option<RuntimeManifestRef>,
    pub executable: bool,
    pub target: Option<String>,
}

/// The first position from `i` on whose platform is `name`.
pub open spec fn platform_position(index: Seq<RuntimePlatform>, name: Seq<char>, i: int) -> Option<int>
    decreases index.len() - i,
{
    if i < 0 || i >= index.len() {
        None
    } else if index[i].platform@ == name {
        Some(i)
    } else {
        platform_position(index, name, i + 1)
    }
}

/// The first position from `i` on whose component is `name`.
pub open spec fn component_position(components: Seq<RuntimeComponent>, name: Seq<char>, i: int) -> Option<int>
    decreases components.len() - i,
{
    if i < 0 || i >= components.len() {
        None
    } else if components[i].component@ == name {
        Some(i)
    } else {
        component_position(components, name, i + 1)
    }
}

/// Where the runtime for `component` on `platform` is listed: the positions
/// of the platform and of the component in it, when the component has at
/// least one build (the first is the one installed).
pub open spec fn runtime_entry_spec(index: Seq<RuntimePlatform>, platform: Seq<char>, component: Seq<char>) -> Option<
    (int, int),
> {
    match platform_position(index, platform, 0) {
        None => None,
        Some(p) => match component_position(index[p].components@, component, 0) {
            None => None,
            Some(c) => if index[p].components@[c].entries@.len() > 0 {
                Some((p, c))
            } else {
                None
            },
        },
    }
}

proof fn lemma_platform_position(index: Seq<RuntimePlatform>, name: Seq<char>, i: int)
    ensures
        platform_position(index, name, i) matches Some(p) ==> i <= p < index.len() && index[p].platform@ == name,
    decreases index.len() - i,
{
    if 0 <= i < index.len() && index[i].platform@ != name {
        lemma_platform_position(index, name, i + 1);
    }
}

proof fn lemma_component_position(components: Seq<RuntimeComponent>, name: Seq<char>, i: int)
    ensures
        component_position(components, name, i) matches Some(c) ==> i <= c < components.len()
            && components[c].component@ == name,
    decreases components.len() - i,
{
    if 0 <= i < components.len() && components[i].component@ != name {
        lemma_component_position(components, name, i + 1);
    }
}

fn find_platform(index: &Vec<RuntimePlatform>, platform: &str) -> (r: Option<usize>)
    ensures
        match r {
            Some(p) => platform_position(index@, platform@, 0) == Some(p as int),
            None => platform_position(index@, platform@, 0) is None,
        },
{
    let mut i: usize = index.len();
    let mut found: Option<usize> = None;
    while i > 0
        invariant
            i <= index@.len(),
            match found {
                Some(p) => platform_position(index@, platform@, i as int) == Some(p as int),
                None => platform_position(index@, platform@, i as int) is None,
            },
        decreases i,
    {
        i = i - 1;
        if str_eq(index[i].platform.as_str(), platform) {
            found = Some(i);
        }
    }
    found
}

fn find_component(components: &Vec<RuntimeComponent>, component: &str) -> (r: Option<usize>)
    ensures
        match r {
            Some(c) => component_position(components@, component@, 0) == Some(c as int),
            None => component_position(components@, component@, 0) is None,
        },
{
    let mut i: usize = components.len();
    let mut found: Option<usize> = None;
    while i > 0
        invariant
            i <= components@.len(),
            match found {
                Some(c) => component_position(components@, component@, i as int) == Some(c as int),
                None => component_position(components@, component@, i as int) is None,
            },
        decreases i,
    {
        i = i - 1;
        if str_eq(components[i].component.as_str(), component) {
            found = Some(i);
        }
    }
    found
}

/// The runtime to install for `component` on `platform`: the positions of
/// the platform and the component in the index, whose first build is the
/// one to fetch. Fails when the index lists no build of it there.
pub fn find_runtime_entry(index: &Vec<RuntimePlatform>, platform: &str, component: &str) -> (r: LauncherResult<
    (usize, usize),
>)
    ensures
        match runtime_entry_spec(index@, platform@, component@) {
            Some((p, c)) => r matches Ok(x) && x.0 as int == p && x.1 as int == c,
            None => r matches Err(e) && e.0@ == "Mojang does not publish "@ + component@ + " for platform "@
                + platform@ + "."@,
        },
        r matches Ok(x) ==> x.0 < index@.len() && x.1 < index@[x.0 as int].components@.len()
            && index@[x.0 as int].components@[x.1 as int].entries@.len() > 0,
{
    let mut message = String::from_str("Mojang does not publish ");
    message.append(component);
    message.append(" for platform ");
    message.append(platform);
    message.append(".");
    let fail = LauncherError(message);
    proof {
        lemma_platform_position(index@, platform@, 0);
    }
    let p = match find_platform(index, platform) {
        None => return Err(fail),
        Some(p) => p,
    };
    proof {
        lemma_component_position(index@[p as int].components@, component@, 0);
    }
    match find_component(&index[p].components, component) {
        Some(c) if index[p].components[c].entries.len() > 0 => Ok((p, c)),
        _ => Err(fail),
    }
}

/// The positions, in order, of the first `n` manifest entries of type `kind`.
pub open spec fn kind_positions(files: Seq<RuntimeFile>, kind: Seq<char>, n: nat) -> Seq<usize>
    decreases n,
{
    if n == 0 {
        Seq::empty()
    } else {
        let rest = kind_positions(files, kind, (n - 1) as nat);
        if files[n - 1].file_type@ == kind {
            rest.push((n - 1) as usize)
        } else {
            rest
        }
    }
}

/// The positions, in manifest order, of the entries of type `kind`: the
/// directories to create, or the files to download and count.
pub fn runtime_entries_of_kind(files: &Vec<RuntimeFile>, kind: &str) -> (r: Vec<usize>)
    ensures
        r@ == kind_positions(files@, kind@, files@.len()),
{
    let mut r: Vec<usize> = Vec::new();
    let mut i: usize = 0;
    while i < files.len()
        invariant
            i <= files@.len(),
            r@ == kind_positions(files@, kind@, i as nat),
        decreases files.len() - i,
    {
        if str_eq(files[i].file_type.as_str(), kind) {
            r.push(i);
        }
        i = i + 1;
    }
    r
}

} // verus!
