//! Which Java runtime a launch uses.
use vstd::prelude::*;

use crate::error::{LauncherError, LauncherResult};
use crate::manifest::JavaVersion;
use crate::patterns::{regex_split, regex_split_captures, split_view, SplitView};
use crate::text::{decimal, decimal_string, parse_u32_spec, parse_u32_str};

verus! {

/// The pattern of the version line `java -version` prints; the major version
/// is its first group (`1.8` counts as 8).
pub open spec fn java_version_pattern() -> Seq<char> {
    "version \"(?:1\\.)?(\\d+)"@
}

/// The major version in a match list of the version pattern: the first
/// group of the first match, read as a number.
pub open spec fn java_major_from_matches(m: SplitView) -> Option<u32> {
    if m.0.len() > 0 && m.0[0].1.len() > 0 && m.0[0].1[0] is Some {
        parse_u32_spec(m.0[0].1[0]->Some_0)
    } else {
        None
    }
}

/// The major version from the version pattern's matches over some output.
pub fn java_major_from_split(split: &(Vec<(String, Vec<Option<String>>)>, String)) -> (r: Option<u32>)
    ensures
        r == java_major_from_matches(split_view(*split)),
{
    if split.0.len() == 0 {
        return None;
    }
    let first = &split.0[0];
    assert(split_view(*split).0[0] == (
        first.0@,
        first.1@.map_values(|o: Option<String>| crate::patterns::opt_view(o)),
    ));
    if first.1.len() == 0 {
        return None;
    }
    match &first.1[0] {
        Some(g) => parse_u32_str(g.as_str()),
        None => None,
    }
}

/// The major version that `java -version` output reports, as the version
/// pattern reads it; `None` when it reports none.
pub fn parse_java_major(output: &str) -> (r: Option<u32>)
    ensures
        r == (match regex_split(java_version_pattern(), output@) {
            Ok(m) => java_major_from_matches(m),
            Err(_) => None,
        }),
{
    let pattern = "version \"(?:1\\.)?(\\d+)";
    proof {
        assert(pattern@ == java_version_pattern());
    }
    match regex_split_captures(pattern, output) {
        Ok(split) => java_major_from_split(&split),
        Err(_) => None,
    }
}

/// The name of the Java executable on a host: `java.exe` on Windows, `java`
/// elsewhere.
pub open spec fn java_executable_name(windows: bool) -> Seq<char> {
    if windows {
        "java.exe"@
    } else {
        "java"@
    }
}

/// The Java executable looked up on `PATH`, on a host that is Windows when
/// `windows` holds.
pub fn system_java_candidate(windows: bool) -> (r: String)
    ensures
        r@ == java_executable_name(windows),
{
    if windows {
        String::from_str("java.exe")
    } else {
        String::from_str("java")
    }
}

pub open spec fn missing_runtime_message(required: u32, component: Seq<char>) -> Seq<char> {
    "The selected version requires Java "@ + decimal(required as nat) + " (runtime "@ + component
        + "), but that runtime is not installed in .minecraft/runtime. Install the version again to download it."@
}

pub open spec fn system_java_mismatch(detected: u32, required: u32) -> Seq<char> {
    "The system Java runtime reports major version "@ + decimal(detected as nat)
        + ", but the selected version requires Java "@ + decimal(required as nat) + "."@
}

pub open spec fn no_java_message() -> Seq<char> {
    "Unable to find a compatible Java runtime in .minecraft/runtime or in PATH."@
}

/// What a launch runs with: the runtime the manifest declares, found under
/// `.minecraft/runtime` (a missing one is an error; `PATH` is not used in
/// its place); else the system Java, which must report the required major
/// version when one is required.
pub open spec fn java_choice_spec(
    java_version: Option<JavaVersion>,
    required_java_major: Option<u32>,
    runtime_java: Option<Seq<char>>,
    detected_system_major: Option<u32>,
    system_candidate: Seq<char>,
) -> Result<Seq<char>, Seq<char>> {
    match java_version {
        Some(v) => match runtime_java {
            Some(p) => Ok(p),
            None => Err(
                missing_runtime_message(
                    match required_java_major {
                        Some(r) => r,
                        None => v.major_version,
                    },
                    v.component@,
                ),
            ),
        },
        None => match detected_system_major {
            None => Err(no_java_message()),
            Some(d) => match required_java_major {
                Some(r) => if d != r {
                    Err(system_java_mismatch(d, r))
                } else {
                    Ok(system_candidate)
                },
                None => Ok(system_candidate),
            },
        },
    }
}

pub open spec fn rsv_plain(r: LauncherResult<String>) -> Result<Seq<char>, Seq<char>> {
    match r {
        Ok(v) => Ok(v@),
        Err(e) => Err(e.0@),
    }
}

fn missing_runtime_error(required: u32, component: &str) -> (e: LauncherError)
    ensures
        e.0@ == missing_runtime_message(required, component@),
{
    let mut m = String::from_str("The selected version requires Java ");
    m.append(decimal_string(required as u64).as_str());
    m.append(" (runtime ");
    m.append(component);
    m.append(
        "), but that runtime is not installed in .minecraft/runtime. Install the version again to download it.",
    );
    LauncherError(m)
}

fn mismatch_error(detected: u32, required: u32) -> (e: LauncherError)
    ensures
        e.0@ == system_java_mismatch(detected, required),
{
    let mut m = String::from_str("The system Java runtime reports major version ");
    m.append(decimal_string(detected as u64).as_str());
    m.append(", but the selected version requires Java ");
    m.append(decimal_string(required as u64).as_str());
    m.append(".");
    LauncherError(m)
}

/// The Java executable of a launch, from what the application found: the
/// declared runtime's executable under `.minecraft/runtime` (looked for only
/// when the manifest declares one) and the major version the system `java`
/// reports (asked only when it does not).
pub fn resolve_java_executable(
    java_version: Option<&JavaVersion>,
    required_java_major: Option<u32>,
    runtime_java: Option<String>,
    detected_system_major: Option<u32>,
    windows: bool,
) -> (r: LauncherResult<String>)
    ensures
        rsv_plain(r) == java_choice_spec(
            match java_version {
                Some(v) => Some(*v),
                None => None,
            },
            required_java_major,
            match runtime_java {
                Some(p) => Some(p@),
                None => None,
            },
            detected_system_major,
            java_executable_name(windows),
        ),
{
    if let Some(v) = java_version {
        return match runtime_java {
            Some(p) => Ok(p),
            None => {
                let required = match required_java_major {
                    Some(r) => r,
                    None => v.major_version,
                };
                Err(missing_runtime_error(required, v.component.as_str()))
            },
        };
    }
    let detected = match detected_system_major {
        Some(d) => d,
        None => {
            return Err(
                LauncherError::new(
                    String::from_str(
                        "Unable to find a compatible Java runtime in .minecraft/runtime or in PATH.",
                    ),
                ),
            );
        },
    };
    if let Some(required) = required_java_major {
        if detected != required {
            return Err(mismatch_error(detected, required));
        }
    }
    Ok(system_java_candidate(windows))
}

/// The Java the OptiFine installer runs with: the system one, when it
/// reports a version.
pub fn resolve_installer_java(detected_system_major: Option<u32>, windows: bool) -> (r: LauncherResult<String>)
    ensures
        detected_system_major is Some <==> r is Ok,
        r matches Ok(p) ==> p@ == java_executable_name(windows),
        r matches Err(e) ==> e.0@ == "Java was not found in PATH. Install Java from the dependency panel first."@,
{
    if detected_system_major.is_some() {
        Ok(system_java_candidate(windows))
    } else {
        Err(
            LauncherError::new(
                String::from_str("Java was not found in PATH. Install Java from the dependency panel first."),
            ),
        )
    }
}

pub open spec fn installer_java_too_old(major: u32) -> Seq<char> {
    "The OptiFine installer needs Java 11 or newer, but PATH reports Java "@ + decimal(major as nat) + "."@
}

/// The OptiFine installer needs Java 11 or newer.
pub fn check_installer_java(detected_major: Option<u32>) -> (r: LauncherResult<u32>)
    ensures
        detected_major is None ==> (r matches Err(e) && e.0@
            == "Java was not found. Install Java 21 from the dependency panel before installing OptiFine."@),
        (detected_major matches Some(m) && m < 11) ==> r is Err && r->Err_0.0@ == installer_java_too_old(
            detected_major->Some_0,
        ),
        (detected_major matches Some(m) && m >= 11) ==> r == Ok::<u32, LauncherError>(detected_major->Some_0),
{
    match detected_major {
        None => Err(
            LauncherError::new(
                String::from_str(
                    "Java was not found. Install Java 21 from the dependency panel before installing OptiFine.",
                ),
            ),
        ),
        Some(m) => if m < 11 {
            let mut msg = String::from_str("The OptiFine installer needs Java 11 or newer, but PATH reports Java ");
            msg.append(decimal_string(m as u64).as_str());
            msg.append(".");
            Err(LauncherError(msg))
        } else {
            Ok(m)
        },
    }
}

/// A runtime the manifest declares is never replaced by the system Java:
/// when it is missing the launch fails, whatever `PATH` offers.
pub proof fn lemma_declared_runtime_never_falls_back(
    java_version: JavaVersion,
    required_java_major: Option<u32>,
    detected_system_major: Option<u32>,
    system_candidate: Seq<char>,
)
    ensures
        java_choice_spec(Some(java_version), required_java_major, None, detected_system_major, system_candidate) is Err,
{
}

} // verus!
