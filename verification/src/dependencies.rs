//! Java and graphics dependencies: what is missing and how to install it.
use vstd::prelude::*;

use crate::error::LauncherResult;
use crate::java::{java_version_pattern, parse_java_major, java_major_from_matches};
use crate::manifest::{find_char, split_char, split_chars, ResolvedManifest};
use crate::patterns::regex_split;
use crate::install::{recommended_java_for_minecraft, recommended_java_spec};
use crate::text::{
    ascii_lower, chars_of, contains, seq_contains, seq_starts_with, starts_with, string_from_chars, to_ascii_lowercase,
    trim_chars, trim_spec, trim_str,
};

verus! {

/// What the dependency panel shows about Java.
pub struct JavaDependencyStatus {
    pub installed: bool,
    pub detected_major: Option<u32>,
    pub detected_raw: Option<String>,
    pub suggested_linux_commands: Option<Vec<String>>,
    pub suggested_windows_links: Option<Vec<DependencyLink>>,
    pub can_auto_install: bool,
    pub auto_install_hint: Option<String>,
    pub recommended_major: u32,
}

/// What the dependency panel shows about `xrandr`.
pub struct GraphicsDependencyStatus {
    pub required: bool,
    pub installed: bool,
    pub usable: bool,
    pub detected_raw: Option<String>,
    pub suggested_linux_commands: Option<Vec<String>>,
    pub can_auto_install: bool,
    pub auto_install_hint: Option<String>,
}

/// A download page to install something by hand.
pub struct DependencyLink {
    pub label: String,
    pub url: String,
}

/// What an automatic install did.
pub struct DependencyInstallResult {
    pub ok: bool,
    /// `winget` reported that the JRE was already current, often with a
    /// failing exit code.
    pub already_present: bool,
    pub exit_code: Option<i32>,
    pub stdout: String,
    pub stderr: String,
}

pub struct OptifineInstallRequest {
    pub minecraft_dir: String,
    pub option_id: String,
}

pub struct VanillaInstallRequest {
    pub minecraft_dir: String,
    pub version_id: String,
}

pub struct VanillaInstallResult {
    pub version_id: String,
}

pub struct DeleteInstalledVersionRequest {
    pub minecraft_dir: String,
    pub version_id: String,
}

// ---------------------------------------------------------------------------
// /etc/os-release

/// A quoted value without its quotes.
pub open spec fn unquote(raw: Seq<char>) -> Seq<char> {
    if raw.len() >= 2 && raw[0] == '"' && raw.last() == '"' {
        raw.subrange(1, raw.len() - 1)
    } else {
        raw
    }
}

/// The value a line of `os-release` gives `key`: lines are trimmed, empty
/// and `#` lines skipped, and `KEY=value` split at the first `=`.
pub open spec fn os_release_line_value(line: Seq<char>, key: Seq<char>) -> Option<Seq<char>> {
    let t = trim_spec(line);
    if t.len() == 0 || t[0] == '#' {
        None
    } else {
        let k = find_char(t, '=', 0);
        if k >= t.len() || trim_spec(t.take(k)) != key {
            None
        } else {
            Some(unquote(trim_spec(t.skip(k + 1))))
        }
    }
}

/// The value of the first line that gives `key` one.
pub open spec fn os_release_value(lines: Seq<Seq<char>>, key: Seq<char>) -> Option<Seq<char>>
    decreases lines.len(),
{
    if lines.len() == 0 {
        None
    } else {
        match os_release_line_value(lines[0], key) {
            Some(v) => Some(v),
            None => os_release_value(lines.drop_first(), key),
        }
    }
}

fn slice(s: &Vec<char>, from: usize, to: usize) -> (r: Vec<char>)
    requires
        from <= to <= s.len(),
    ensures
        r@ == s@.subrange(from as int, to as int),
{
    let mut r: Vec<char> = Vec::new();
    let mut i = from;
    while i < to
        invariant
            from <= i <= to <= s.len(),
            r@ == s@.subrange(from as int, i as int),
        decreases to - i,
    {
        r.push(s[i]);
        assert(s@.subrange(from as int, i + 1) =~= s@.subrange(from as int, i as int).push(s@[i as int]));
        i = i + 1;
    }
    r
}

fn line_value(line: &Vec<char>, key: &Vec<char>) -> (r: Option<Vec<char>>)
    ensures
        match r {
            Some(v) => os_release_line_value(line@, key@) == Some(v@),
            None => os_release_line_value(line@, key@) is None,
        },
{
    let t = trim_chars(line);
    if t.len() == 0 || t[0] == '#' {
        return None;
    }
    let mut k: usize = 0;
    while k < t.len() && t[k] != '='
        invariant
            k <= t.len(),
            find_char(t@, '=', 0) == find_char(t@, '=', k as int),
        decreases t.len() - k,
    {
        k = k + 1;
    }
    if k >= t.len() {
        return None;
    }
    let name = trim_chars(&slice(&t, 0, k));
    assert(t@.subrange(0, k as int) =~= t@.take(k as int));
    if !crate::manifest::chars_eq(&name, key) {
        return None;
    }
    let raw = trim_chars(&slice(&t, k + 1, t.len()));
    assert(t@.subrange(k + 1, t@.len() as int) =~= t@.skip(k + 1));
    if raw.len() >= 2 && raw[0] == '"' && raw[raw.len() - 1] == '"' {
        Some(slice(&raw, 1, raw.len() - 1))
    } else {
        Some(raw)
    }
}

/// The value `os-release` contents give `key`, if any.
pub fn parse_os_release_value(contents: &str, key: &str) -> (r: Option<String>)
    ensures
        crate::install::ostr(r) == os_release_value(split_char(contents@, '\n'), key@),
{
    let lines = split_chars(&chars_of(contents), '\n');
    let ghost lv = lines@.map_values(|v: Vec<char>| v@);
    let k = chars_of(key);
    let mut i: usize = 0;
    assert(lv.skip(0) =~= lv);
    while i < lines.len()
        invariant
            i <= lines.len(),
            lv == lines@.map_values(|v: Vec<char>| v@),
            lv == split_char(contents@, '\n'),
            k@ == key@,
            os_release_value(lv, key@) == os_release_value(lv.skip(i as int), key@),
        decreases lines.len() - i,
    {
        assert(lv.skip(i as int).drop_first() =~= lv.skip(i + 1));
        assert(lv.skip(i as int)[0] == lines@[i as int]@);
        if let Some(v) = line_value(&lines[i], &k) {
            return Some(string_from_chars(v.as_slice()));
        }
        i = i + 1;
    }
    assert(lv.skip(i as int) =~= Seq::<Seq<char>>::empty());
    None
}

/// The families a distribution belongs to, from its `ID` and `ID_LIKE`.
pub struct DistroFlags {
    pub fedora: bool,
    pub debian: bool,
    pub arch: bool,
}

/// Fedora-like when `ID` is `fedora` or `ID_LIKE` mentions `fedora` or
/// `rhel`; Debian-like for `debian`, or `ID_LIKE` with `debian` or
/// `ubuntu`; Arch-like for `arch`. Both values are compared in ASCII lower
/// case, a missing one counting as empty.
pub open spec fn distro_flags_spec(id: Seq<char>, like: Seq<char>) -> DistroFlags {
    let i = ascii_lower(id);
    let l = ascii_lower(like);
    DistroFlags {
        fedora: i == "fedora"@ || seq_contains(l, "fedora"@) || seq_contains(l, "rhel"@),
        debian: i == "debian"@ || seq_contains(l, "debian"@) || seq_contains(l, "ubuntu"@),
        arch: i == "arch"@ || seq_contains(l, "arch"@),
    }
}

pub open spec fn or_empty(o: Option<Seq<char>>) -> Seq<char> {
    match o {
        Some(v) => v,
        None => Seq::empty(),
    }
}

fn lowered(s: &Option<String>) -> (r: Vec<char>)
    ensures
        r@ == ascii_lower(or_empty(crate::install::ostr(*s))),
{
    match s {
        Some(v) => to_ascii_lowercase(&chars_of(v.as_str())),
        None => {
            let e: Vec<char> = Vec::new();
            let r = to_ascii_lowercase(&e);
            assert(e@ =~= Seq::<char>::empty());
            r
        },
    }
}

/// The families of the distribution that `os-release` contents describe.
pub fn distro_flags(os_release: &str) -> (f: DistroFlags)
    ensures
        f == distro_flags_spec(
            or_empty(os_release_value(split_char(os_release@, '\n'), "ID"@)),
            or_empty(os_release_value(split_char(os_release@, '\n'), "ID_LIKE"@)),
        ),
{
    let id = lowered(&parse_os_release_value(os_release, "ID"));
    let like = lowered(&parse_os_release_value(os_release, "ID_LIKE"));
    let fedora = crate::manifest::chars_eq(&id, &chars_of("fedora")) || contains(&like, &chars_of("fedora"))
        || contains(&like, &chars_of("rhel"));
    let debian = crate::manifest::chars_eq(&id, &chars_of("debian")) || contains(&like, &chars_of("debian"))
        || contains(&like, &chars_of("ubuntu"));
    let arch = crate::manifest::chars_eq(&id, &chars_of("arch")) || contains(&like, &chars_of("arch"));
    DistroFlags { fedora, debian, arch }
}

// ---------------------------------------------------------------------------
// Suggestions and plans

fn strings2(a: &str, b: &str) -> (r: Vec<String>)
    ensures
        crate::text::views(r@) == seq![a@, b@],
{
    let mut r: Vec<String> = Vec::new();
    r.push(String::from_str(a));
    r.push(String::from_str(b));
    assert(crate::text::views(r@) =~= seq![a@, b@]);
    r
}

fn strings3(a: &str, b: &str, c: &str) -> (r: Vec<String>)
    ensures
        crate::text::views(r@) == seq![a@, b@, c@],
{
    let mut r: Vec<String> = Vec::new();
    r.push(String::from_str(a));
    r.push(String::from_str(b));
    r.push(String::from_str(c));
    assert(crate::text::views(r@) =~= seq![a@, b@, c@]);
    r
}

/// The commands suggested to install Java 21 by hand on Linux.
pub open spec fn java_commands_spec(f: DistroFlags) -> Seq<Seq<char>> {
    if f.fedora {
        seq!["sudo dnf install -y java-21-openjdk"@, "java -version"@]
    } else if f.debian {
        seq!["sudo apt update"@, "sudo apt install -y openjdk-21-jre"@, "java -version"@]
    } else if f.arch {
        seq!["sudo pacman -Syu --noconfirm jre21-openjdk"@, "java -version"@]
    } else {
        seq!["java -version"@, "# Instala Java 21 con el gestor de paquetes de tu distro."@]
    }
}

pub fn suggested_linux_java_install_commands(flags: &DistroFlags) -> (r: Vec<String>)
    ensures
        crate::text::views(r@) == java_commands_spec(*flags),
{
    if flags.fedora {
        strings2("sudo dnf install -y java-21-openjdk", "java -version")
    } else if flags.debian {
        strings3("sudo apt update", "sudo apt install -y openjdk-21-jre", "java -version")
    } else if flags.arch {
        strings2("sudo pacman -Syu --noconfirm jre21-openjdk", "java -version")
    } else {
        strings2("java -version", "# Instala Java 21 con el gestor de paquetes de tu distro.")
    }
}

/// The commands suggested to install `xrandr` by hand on Linux.
pub open spec fn graphics_commands_spec(f: DistroFlags) -> Seq<Seq<char>> {
    if f.fedora {
        seq!["sudo dnf install -y xrandr"@, "xrandr -q"@]
    } else if f.debian {
        seq!["sudo apt update"@, "sudo apt install -y x11-xserver-utils"@, "xrandr -q"@]
    } else if f.arch {
        seq!["sudo pacman -Syu --noconfirm xorg-xrandr"@, "xrandr -q"@]
    } else {
        seq!["xrandr -q"@, "# Instala xrandr con el gestor de paquetes de tu distro."@]
    }
}

pub fn suggested_linux_graphics_install_commands(flags: &DistroFlags) -> (r: Vec<String>)
    ensures
        crate::text::views(r@) == graphics_commands_spec(*flags),
{
    if flags.fedora {
        strings2("sudo dnf install -y xrandr", "xrandr -q")
    } else if flags.debian {
        strings3("sudo apt update", "sudo apt install -y x11-xserver-utils", "xrandr -q")
    } else if flags.arch {
        strings2("sudo pacman -Syu --noconfirm xorg-xrandr", "xrandr -q")
    } else {
        strings2("xrandr -q", "# Instala xrandr con el gestor de paquetes de tu distro.")
    }
}

/// Which package managers are on `PATH`.
pub struct PackageTools {
    pub dnf: bool,
    pub apt: bool,
    pub pacman: bool,
}

/// An install plan: program, its arguments, and the hint shown for it.
pub type InstallPlan = (String, Vec<String>, String);

pub open spec fn plan_view(p: Option<InstallPlan>) -> Option<(Seq<char>, Seq<Seq<char>>, Seq<char>)> {
    match p {
        Some(x) => Some((x.0@, crate::text::views(x.1@), x.2@)),
        None => None,
    }
}

/// How Java 21 is installed automatically on Linux: with the package
/// manager of the first family (Fedora, Debian, Arch) whose tool is there.
pub open spec fn java_plan_spec(f: DistroFlags, t: PackageTools) -> Option<(Seq<char>, Seq<Seq<char>>, Seq<char>)> {
    if f.fedora && t.dnf {
        Some(("dnf"@, seq!["install"@, "-y"@, "java-21-openjdk"@], "Instalará java-21-openjdk usando dnf (pedirá permisos)."@))
    } else if f.debian && t.apt {
        Some(
            (
                "sh"@,
                seq!["-lc"@, "apt update && apt install -y openjdk-21-jre"@],
                "Instalará openjdk-21-jre usando apt (pedirá permisos)."@,
            ),
        )
    } else if f.arch && t.pacman {
        Some(
            (
                "pacman"@,
                seq!["-Syu"@, "--noconfirm"@, "jre21-openjdk"@],
                "Instalará jre21-openjdk usando pacman (pedirá permisos)."@,
            ),
        )
    } else {
        None
    }
}

pub fn linux_auto_install_plan(flags: &DistroFlags, tools: &PackageTools) -> (r: Option<InstallPlan>)
    ensures
        plan_view(r) == java_plan_spec(*flags, *tools),
{
    if flags.fedora && tools.dnf {
        Some(
            (
                String::from_str("dnf"),
                strings3("install", "-y", "java-21-openjdk"),
                String::from_str("Instalará java-21-openjdk usando dnf (pedirá permisos)."),
            ),
        )
    } else if flags.debian && tools.apt {
        Some(
            (
                String::from_str("sh"),
                strings2("-lc", "apt update && apt install -y openjdk-21-jre"),
                String::from_str("Instalará openjdk-21-jre usando apt (pedirá permisos)."),
            ),
        )
    } else if flags.arch && tools.pacman {
        Some(
            (
                String::from_str("pacman"),
                strings3("-Syu", "--noconfirm", "jre21-openjdk"),
                String::from_str("Instalará jre21-openjdk usando pacman (pedirá permisos)."),
            ),
        )
    } else {
        None
    }
}

/// How `xrandr` is installed automatically on Linux.
pub open spec fn graphics_plan_spec(f: DistroFlags, t: PackageTools) -> Option<(Seq<char>, Seq<Seq<char>>, Seq<char>)> {
    if f.fedora && t.dnf {
        Some(("dnf"@, seq!["install"@, "-y"@, "xrandr"@], "Instalará xrandr para Minecraft antiguo (pedirá permisos)."@))
    } else if f.debian && t.apt {
        Some(
            (
                "sh"@,
                seq!["-lc"@, "apt update && apt install -y x11-xserver-utils"@],
                "Instalará x11-xserver-utils para Minecraft antiguo (pedirá permisos)."@,
            ),
        )
    } else if f.arch && t.pacman {
        Some(
            (
                "pacman"@,
                seq!["-Syu"@, "--noconfirm"@, "xorg-xrandr"@],
                "Instalará xorg-xrandr para Minecraft antiguo (pedirá permisos)."@,
            ),
        )
    } else {
        None
    }
}

pub fn linux_graphics_auto_install_plan(flags: &DistroFlags, tools: &PackageTools) -> (r: Option<InstallPlan>)
    ensures
        plan_view(r) == graphics_plan_spec(*flags, *tools),
{
    if flags.fedora && tools.dnf {
        Some(
            (
                String::from_str("dnf"),
                strings3("install", "-y", "xrandr"),
                String::from_str("Instalará xrandr para Minecraft antiguo (pedirá permisos)."),
            ),
        )
    } else if flags.debian && tools.apt {
        Some(
            (
                String::from_str("sh"),
                strings2("-lc", "apt update && apt install -y x11-xserver-utils"),
                String::from_str("Instalará x11-xserver-utils para Minecraft antiguo (pedirá permisos)."),
            ),
        )
    } else if flags.arch && tools.pacman {
        Some(
            (
                String::from_str("pacman"),
                strings3("-Syu", "--noconfirm", "xorg-xrandr"),
                String::from_str("Instalará xorg-xrandr para Minecraft antiguo (pedirá permisos)."),
            ),
        )
    } else {
        None
    }
}

/// How Java 21 is installed automatically on Windows: with `winget`, when
/// it is there.
pub fn windows_auto_install_plan(winget_available: bool) -> (r: Option<InstallPlan>)
    ensures
        winget_available <==> r is Some,
        plan_view(r) matches Some(p) ==> p == (
            "winget"@,
            seq![
                "install"@,
                "--id"@,
                "EclipseAdoptium.Temurin.21.JRE"@,
                "-e"@,
                "--accept-package-agreements"@,
                "--accept-source-agreements"@,
            ],
            "Instalará Temurin 21 JRE usando winget (puede pedir UAC)."@,
        ),
{
    if !winget_available {
        return None;
    }
    let mut args: Vec<String> = Vec::new();
    args.push(String::from_str("install"));
    args.push(String::from_str("--id"));
    args.push(String::from_str("EclipseAdoptium.Temurin.21.JRE"));
    args.push(String::from_str("-e"));
    args.push(String::from_str("--accept-package-agreements"));
    args.push(String::from_str("--accept-source-agreements"));
    assert(crate::text::views(args@) =~= seq![
        "install"@,
        "--id"@,
        "EclipseAdoptium.Temurin.21.JRE"@,
        "-e"@,
        "--accept-package-agreements"@,
        "--accept-source-agreements"@,
    ]);
    Some(
        (
            String::from_str("winget"),
            args,
            String::from_str("Instalará Temurin 21 JRE usando winget (puede pedir UAC)."),
        ),
    )
}

/// The pages suggested to install Java 21 by hand on Windows.
pub fn suggested_windows_java_links() -> (r: Vec<DependencyLink>)
    ensures
        r@.len() == 2,
        r@[0].label@ == "Eclipse Temurin (OpenJDK) 21"@,
        r@[0].url@ == "https://adoptium.net/temurin/releases/?version=21"@,
        r@[1].label@ == "Microsoft Build of OpenJDK 21"@,
        r@[1].url@ == "https://learn.microsoft.com/java/openjdk/download"@,
{
    let mut r: Vec<DependencyLink> = Vec::new();
    r.push(
        DependencyLink {
            label: String::from_str("Eclipse Temurin (OpenJDK) 21"),
            url: String::from_str("https://adoptium.net/temurin/releases/?version=21"),
        },
    );
    r.push(
        DependencyLink {
            label: String::from_str("Microsoft Build of OpenJDK 21"),
            url: String::from_str("https://learn.microsoft.com/java/openjdk/download"),
        },
    );
    r
}

/// `winget` output that means the JRE is already installed and current,
/// compared in ASCII lower case.
pub open spec fn already_current_spec(combined: Seq<char>) -> bool {
    let s = ascii_lower(combined);
    ||| seq_contains(s, "found an existing package"@) && seq_contains(s, "already installed"@)
    ||| seq_contains(s, "no available upgrade found"@)
    ||| seq_contains(s, "no newer package versions are available"@)
    ||| seq_contains(s, "no applicable upgrade found"@)
    ||| seq_contains(s, "a newer version is already installed"@)
}

pub fn winget_java_install_output_means_already_current(combined: &str) -> (r: bool)
    ensures
        r == already_current_spec(combined@),
{
    let s = to_ascii_lowercase(&chars_of(combined));
    (contains(&s, &chars_of("found an existing package")) && contains(&s, &chars_of("already installed")))
        || contains(&s, &chars_of("no available upgrade found")) || contains(
        &s,
        &chars_of("no newer package versions are available"),
    ) || contains(&s, &chars_of("no applicable upgrade found")) || contains(
        &s,
        &chars_of("a newer version is already installed"),
    )
}

// ---------------------------------------------------------------------------
// Status

pub const RECOMMENDED_JAVA_MAJOR: u32 = 21;

/// The Java major the selected version needs: the one its manifest declares,
/// else the one its Minecraft release calls for; with no version selected,
/// the launcher's recommended Java.
pub fn required_java_major(declared_major: Option<u32>, version_id: Option<&str>) -> (r: u32)
    ensures
        r == (match declared_major {
            Some(m) => m as int,
            None => match version_id {
                Some(v) => recommended_java_spec(v@) as int,
                None => 21,
            },
        }),
{
    match declared_major {
        Some(m) => m,
        None => match version_id {
            Some(v) => recommended_java_for_minecraft(v),
            None => RECOMMENDED_JAVA_MAJOR,
        },
    }
}

/// The Java status for a version that needs Java `required_major`, from the
/// output of `java -version` (stdout, a newline, then stderr; `None` when it
/// could not be run), the hint of the automatic install plan this platform
/// has, and the suggestions it shows. Java older than the required major, or
/// none, needs an install; only then are suggestions and the automatic
/// install offered.
pub fn java_dependency_status(
    required_major: u32,
    version_output: Option<String>,
    auto_install_hint: Option<String>,
    linux_commands: Option<Vec<String>>,
    windows_links: Option<Vec<DependencyLink>>,
) -> (s: JavaDependencyStatus)
    ensures
        s.installed == version_output is Some,
        s.detected_major == (match version_output {
            Some(o) => match regex_split(java_version_pattern(), o@) {
                Ok(m) => java_major_from_matches(m),
                Err(_) => None,
            },
            None => None,
        }),
        crate::install::ostr(s.detected_raw) == (match version_output {
            Some(o) => Some(trim_spec(o@)),
            None => None,
        }),
        s.recommended_major == required_major,
        ({
            let needs = !s.installed || match s.detected_major {
                Some(m) => m < required_major,
                None => true,
            };
            &&& needs ==> s.suggested_linux_commands == linux_commands && s.suggested_windows_links == windows_links
                && s.auto_install_hint == auto_install_hint && s.can_auto_install == auto_install_hint is Some
            &&& !needs ==> s.suggested_linux_commands is None && s.suggested_windows_links is None
                && s.auto_install_hint is None && !s.can_auto_install
        }),
{
    let (installed, detected_raw, detected_major) = match &version_output {
        Some(o) => (true, Some(trim_str(o.as_str())), parse_java_major(o.as_str())),
        None => (false, None, None),
    };
    let needs = !installed || match detected_major {
        Some(m) => m < required_major,
        None => true,
    };
    if needs {
        let can = auto_install_hint.is_some();
        JavaDependencyStatus {
            installed,
            detected_major,
            detected_raw,
            suggested_linux_commands: linux_commands,
            suggested_windows_links: windows_links,
            can_auto_install: can,
            auto_install_hint,
            recommended_major: required_major,
        }
    } else {
        JavaDependencyStatus {
            installed,
            detected_major,
            detected_raw,
            suggested_linux_commands: None,
            suggested_windows_links: None,
            can_auto_install: false,
            auto_install_hint: None,
            recommended_major: required_major,
        }
    }
}

/// What running `xrandr -q` gave: whether it succeeded, its stdout and its
/// stderr.
pub struct XrandrRun {
    pub success: bool,
    pub stdout: String,
    pub stderr: String,
}

/// The graphics status. Off Linux nothing is required. On Linux `xrandr`
/// is usable when it ran, succeeded and reported a connected display; when
/// it is not installed the suggestions and the automatic install are
/// offered.
pub fn graphics_dependency_status(
    required: bool,
    installed: bool,
    run: Option<XrandrRun>,
    auto_install_hint: Option<String>,
    linux_commands: Option<Vec<String>>,
) -> (s: GraphicsDependencyStatus)
    ensures
        s.required == required,
        !required ==> s.installed && s.usable && s.detected_raw is None && s.suggested_linux_commands is None
            && !s.can_auto_install && s.auto_install_hint is None,
        required ==> {
            &&& s.installed == installed
            &&& s.usable == (match run {
                Some(r) => r.success && seq_contains(r.stdout@, " connected"@),
                None => false,
            })
            &&& crate::install::ostr(s.detected_raw) == (match run {
                Some(r) => Some(trim_spec(r.stdout@ + "\n"@ + r.stderr@)),
                None => None,
            })
            &&& !installed ==> s.suggested_linux_commands == linux_commands && s.auto_install_hint
                == auto_install_hint && s.can_auto_install == auto_install_hint is Some
            &&& installed ==> s.suggested_linux_commands is None && s.auto_install_hint is None
                && !s.can_auto_install
        },
{
    if !required {
        return GraphicsDependencyStatus {
            required,
            installed: true,
            usable: true,
            detected_raw: None,
            suggested_linux_commands: None,
            can_auto_install: false,
            auto_install_hint: None,
        };
    }
    let (usable, detected_raw) = match &run {
        Some(r) => {
            let mut combined = r.stdout.clone();
            combined.append("\n");
            combined.append(r.stderr.as_str());
            let usable = r.success && contains(&chars_of(r.stdout.as_str()), &chars_of(" connected"));
            (usable, Some(trim_str(combined.as_str())))
        },
        None => (false, None),
    };
    if !installed {
        let can = auto_install_hint.is_some();
        GraphicsDependencyStatus {
            required,
            installed,
            usable,
            detected_raw,
            suggested_linux_commands: linux_commands,
            can_auto_install: can,
            auto_install_hint,
        }
    } else {
        GraphicsDependencyStatus {
            required,
            installed,
            usable,
            detected_raw,
            suggested_linux_commands: None,
            can_auto_install: false,
            auto_install_hint: None,
        }
    }
}

/// The command line that runs a plan through `pkexec`: the program, then
/// its arguments.
pub fn elevated_arguments(program: String, args: Vec<String>) -> (r: Vec<String>)
    ensures
        crate::text::views(r@) == seq![program@] + crate::text::views(args@),
{
    let ghost p = program@;
    let mut r: Vec<String> = Vec::new();
    r.push(program);
    let mut i: usize = 0;
    assert(crate::text::views(r@) =~= seq![p] + crate::text::views(args@.take(0)));
    while i < args.len()
        invariant
            i <= args.len(),
            crate::text::views(r@) == seq![p] + crate::text::views(args@.take(i as int)),
        decreases args.len() - i,
    {
        let ghost before = crate::text::views(r@);
        r.push(args[i].clone());
        assert(crate::text::views(r@) =~= before.push(args@[i as int]@));
        assert(crate::text::views(args@.take(i + 1)) =~= crate::text::views(args@.take(i as int)).push(args@[i as int]@));
        i = i + 1;
    }
    assert(args@.take(i as int) =~= args@);
    r
}

/// The result of a `winget` install: it succeeded, or it said the JRE is
/// already current, in which case its output is not shown.
pub fn winget_install_result(success: bool, exit_code: Option<i32>, stdout: String, stderr: String) -> (r:
    DependencyInstallResult)
    ensures
        r.already_present == (!success && already_current_spec(stdout@ + "\n"@ + stderr@)),
        r.ok == (success || r.already_present),
        r.exit_code == exit_code,
        r.already_present ==> r.stdout@.len() == 0 && r.stderr@.len() == 0,
        !r.already_present ==> r.stdout@ == stdout@ && r.stderr@ == stderr@,
{
    let mut combined = stdout.clone();
    combined.append("\n");
    combined.append(stderr.as_str());
    let already_present = !success && winget_java_install_output_means_already_current(combined.as_str());
    if already_present {
        DependencyInstallResult {
            ok: true,
            already_present,
            exit_code,
            stdout: String::new(),
            stderr: String::new(),
        }
    } else {
        DependencyInstallResult { ok: success, already_present, exit_code, stdout, stderr }
    }
}

// ---------------------------------------------------------------------------
// LWJGL 2 on Linux

/// LWJGL 2 libraries need `xrandr` on Linux.
pub open spec fn needs_legacy_graphics(libraries: Seq<crate::manifest::Library>) -> bool {
    exists|i: int|
        0 <= i < libraries.len() && (#[trigger] libraries[i]).name is Some && seq_starts_with(
            libraries[i].name->Some_0@,
            "org.lwjgl.lwjgl:lwjgl:2."@,
        )
}

pub fn manifest_needs_legacy_lwjgl_linux_graphics(manifest: &ResolvedManifest, on_linux: bool) -> (r: bool)
    ensures
        r == (on_linux && needs_legacy_graphics(manifest.libraries@)),
{
    if !on_linux {
        return false;
    }
    let prefix = chars_of("org.lwjgl.lwjgl:lwjgl:2.");
    let mut i: usize = 0;
    while i < manifest.libraries.len()
        invariant
            i <= manifest.libraries@.len(),
            on_linux,
            prefix@ == "org.lwjgl.lwjgl:lwjgl:2."@,
            forall|j: int|
                0 <= j < i ==> !((#[trigger] manifest.libraries@[j]).name is Some && seq_starts_with(
                    manifest.libraries@[j].name->Some_0@,
                    "org.lwjgl.lwjgl:lwjgl:2."@,
                )),
        decreases manifest.libraries.len() - i,
    {
        if let Some(n) = &manifest.libraries[i].name {
            if starts_with(&chars_of(n.as_str()), &prefix) {
                assert(manifest.libraries@[i as int].name is Some && seq_starts_with(
                    manifest.libraries@[i as int].name->Some_0@,
                    "org.lwjgl.lwjgl:lwjgl:2."@,
                ));
                return true;
            }
        }
        i = i + 1;
    }
    false
}

pub open spec fn no_xrandr_message() -> Seq<char> {
    "Legacy Minecraft on Linux requires xrandr for LWJGL 2. Install it from the Dependencies panel and try again."@
}

pub open spec fn no_display_message() -> Seq<char> {
    "xrandr is installed but did not report any connected displays. Minecraft 1.8.9 with LWJGL 2 usually crashes in this state; start the session with X11/XWayland available or review the display configuration."@
}

/// The first check for LWJGL 2 on Linux: `Ok(true)` when `xrandr` must now
/// be run, `Ok(false)` when nothing is needed, an error when it is missing.
pub fn validate_legacy_lwjgl_linux_graphics(needs: bool, xrandr_available: bool) -> (r: LauncherResult<bool>)
    ensures
        !needs ==> r == Ok::<bool, crate::error::LauncherError>(false),
        needs && xrandr_available ==> r == Ok::<bool, crate::error::LauncherError>(true),
        needs && !xrandr_available ==> (r matches Err(e) && e.0@ == no_xrandr_message()),
{
    if !needs {
        return Ok(false);
    }
    if !xrandr_available {
        return Err(
            crate::error::LauncherError::new(
                String::from_str(
                    "Legacy Minecraft on Linux requires xrandr for LWJGL 2. Install it from the Dependencies panel and try again.",
                ),
            ),
        );
    }
    Ok(true)
}

/// The verdict on `xrandr -q`: it must run, succeed and report a connected
/// display.
pub fn check_xrandr_output(run: Result<(bool, String), String>) -> (r: LauncherResult<()>)
    ensures
        match run {
            Err(e) => r matches Err(x) && x.0@ == "Failed to run xrandr while validating display availability: "@
                + e@,
            Ok((success, stdout)) => if success && seq_contains(stdout@, " connected"@) {
                r is Ok
            } else {
                r matches Err(x) && x.0@ == no_display_message()
            },
        },
{
    match run {
        Err(e) => Err(
            crate::error::error_with("Failed to run xrandr while validating display availability: ", e.as_str()),
        ),
        Ok((success, stdout)) => {
            if !success || !contains(&chars_of(stdout.as_str()), &chars_of(" connected")) {
                Err(
                    crate::error::LauncherError::new(
                        String::from_str(
                            "xrandr is installed but did not report any connected displays. Minecraft 1.8.9 with LWJGL 2 usually crashes in this state; start the session with X11/XWayland available or review the display configuration.",
                        ),
                    ),
                )
            } else {
                Ok(())
            }
        },
    }
}

} // verus!
