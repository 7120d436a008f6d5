//! Launch variables, memory sizing, and the launch plan.
use vstd::prelude::*;

use crate::error::{error_with3, rsv, LauncherError, LauncherResult};
use crate::hash::{hyphenated, offline_uuid, offline_uuid_bytes, uuid_hyphenated};
use crate::manifest::{collect_launch_arguments, launch_arguments_spec, ResolvedManifest};
use crate::memory::{
    clamp_spec, derive_initial_heap_mb, memory_profile_spec, min_int, resolve_system_memory_profile,
    select_launch_memory_mb, FALLBACK_SYSTEM_MEMORY_MB, MIN_MINECRAFT_INITIAL_HEAP_MB,
};
use crate::rules::RuntimeEnvironment;
use crate::paths::{join_path, path_join};
use crate::patterns::{placeholder_split, regex_split_captures, split_view, SplitView};
use crate::rules::lemma_placeholder_split_shape;
use crate::text::{decimal, decimal_string, join_spec, join_strings, str_eq, trim_spec, trim_str, views};

verus! {

pub const DEFAULT_USERNAME: &'static str = "Player";
pub const DEFAULT_ACCESS_TOKEN: &'static str = "offline-access-token";
pub const DEFAULT_USER_PROPERTIES: &'static str = "{}";
pub const DEFAULT_USER_TYPE: &'static str = "legacy";
pub const DEFAULT_LAUNCHER_NAME: &'static str = "mecha-launcher";
pub const DEFAULT_CLIENT_ID: &'static str = "offline-client-id";
pub const DEFAULT_AUTH_XUID: &'static str = "0";
pub const DEFAULT_RESOLUTION_WIDTH: &'static str = "854";
pub const DEFAULT_RESOLUTION_HEIGHT: &'static str = "480";
pub const LAUNCHER_VERSION: &'static str = "0.1.0";

/// The classpath separator of a host: `;` on Windows, `:` elsewhere.
pub open spec fn classpath_separator(windows: bool) -> Seq<char> {
    if windows {
        ";"@
    } else {
        ":"@
    }
}

/// The values of a variable table, taken by views.
pub open spec fn pairs_view(v: Seq<(String, String)>) -> Seq<(Seq<char>, Seq<char>)> {
    v.map_values(|p: (String, String)| (p.0@, p.1@))
}

/// The value of `key` in a table: its first entry.
pub open spec fn table_lookup(t: Seq<(Seq<char>, Seq<char>)>, key: Seq<char>) -> Option<Seq<char>>
    decreases t.len(),
{
    if t.len() == 0 {
        None
    } else if t[0].0 == key {
        Some(t[0].1)
    } else {
        table_lookup(t.drop_first(), key)
    }
}

/// The message for a placeholder the table has no value for.
pub open spec fn unsupported_placeholder(name: Seq<char>) -> Seq<char> {
    "Unsupported placeholder: ${"@ + name + "}"@
}

/// The first `n` matches rendered with table values, or the message for the
/// first name without one.
pub open spec fn table_render_prefix(
    pieces: Seq<(Seq<char>, Seq<Option<Seq<char>>>)>,
    t: Seq<(Seq<char>, Seq<char>)>,
    n: nat,
) -> Result<Seq<char>, Seq<char>>
    decreases n,
{
    if n == 0 {
        Ok(Seq::empty())
    } else {
        match table_render_prefix(pieces, t, (n - 1) as nat) {
            Err(e) => Err(e),
            Ok(acc) => {
                let name = pieces[n - 1].1[0]->Some_0;
                match table_lookup(t, name) {
                    None => Err(unsupported_placeholder(name)),
                    Some(v) => Ok(acc + pieces[n - 1].0 + v),
                }
            },
        }
    }
}

/// `raw` with every `${name}` replaced by the table's value for `name`.
pub open spec fn table_render(t: Seq<(Seq<char>, Seq<char>)>, raw: Seq<char>) -> Result<
    Seq<char>,
    Seq<char>,
> {
    let m = placeholder_split(raw);
    match table_render_prefix(m.0, t, m.0.len()) {
        Err(e) => Err(e),
        Ok(acc) => Ok(acc + m.1),
    }
}

/// The directory the game runs in: the manifest's own, else the Minecraft
/// directory.
pub open spec fn game_directory_of(manifest: ResolvedManifest, minecraft_dir: Seq<char>) -> Seq<char> {
    match manifest.game_directory {
        Some(d) => d@,
        None => minecraft_dir,
    }
}

/// The launch variables for a manifest, a player, the Minecraft directory,
/// the directory the game runs in, the natives directory and the classpath
/// joined with `sep`.
pub open spec fn variables_table(
    manifest: ResolvedManifest,
    username: Seq<char>,
    minecraft_dir: Seq<char>,
    game_directory: Seq<char>,
    natives_dir: Seq<char>,
    classpath: Seq<Seq<char>>,
    sep: Seq<char>,
) -> Seq<(Seq<char>, Seq<char>)> {
    seq![
        ("auth_player_name"@, username),
        ("version_name"@, manifest.id@),
        ("game_directory"@, game_directory),
        ("assets_root"@, path_join(minecraft_dir, "assets"@)),
        ("assets_index_name"@, manifest.asset_index_id->Some_0@),
        ("auth_uuid"@, hyphenated(offline_uuid_bytes(username))),
        ("auth_access_token"@, DEFAULT_ACCESS_TOKEN@),
        ("clientid"@, DEFAULT_CLIENT_ID@),
        ("auth_xuid"@, DEFAULT_AUTH_XUID@),
        ("user_properties"@, DEFAULT_USER_PROPERTIES@),
        ("user_type"@, DEFAULT_USER_TYPE@),
        ("version_type"@, manifest.version_type@),
        ("launcher_name"@, DEFAULT_LAUNCHER_NAME@),
        ("launcher_version"@, LAUNCHER_VERSION@),
        ("classpath"@, join_spec(classpath, sep)),
        ("classpath_separator"@, sep),
        ("library_directory"@, path_join(minecraft_dir, "libraries"@)),
        ("natives_directory"@, natives_dir),
        ("resolution_width"@, DEFAULT_RESOLUTION_WIDTH@),
        ("resolution_height"@, DEFAULT_RESOLUTION_HEIGHT@),
        ("quickPlayPath"@, Seq::empty()),
        ("quickPlaySingleplayer"@, Seq::empty()),
        ("quickPlayMultiplayer"@, Seq::empty()),
        ("quickPlayRealms"@, Seq::empty()),
    ]
}

/// The values that `${name}` placeholders of a manifest stand for.
pub struct LaunchVariables {
    values: Vec<(String, String)>,
}

fn pair(key: &str, value: String) -> (p: (String, String))
    ensures
        p.0@ == key@,
        p.1@ == value@,
{
    (String::from_str(key), value)
}

impl LaunchVariables {
    /// The table of names and values.
    pub closed spec fn table(&self) -> Seq<(Seq<char>, Seq<char>)> {
        pairs_view(self.values@)
    }

    /// The variables of a launch on a host that is Windows when `windows`
    /// holds. Fails when the manifest has no asset index. The classpath is
    /// joined with `;` on Windows and `:` elsewhere.
    pub fn new(
        manifest: &ResolvedManifest,
        username: &str,
        minecraft_dir: &str,
        game_directory: &str,
        natives_dir: &str,
        classpath_entries: &Vec<String>,
        windows: bool,
    ) -> (r: LauncherResult<Self>)
        ensures
            manifest.asset_index_id is None <==> r is Err,
            r matches Err(e) ==> e.0@ == "The selected version is missing an asset index."@,
            r matches Ok(v) ==> v.table() == variables_table(
                *manifest,
                username@,
                minecraft_dir@,
                game_directory@,
                natives_dir@,
                views(classpath_entries@),
                classpath_separator(windows),
            ),
    {
        let asset_index_name = match &manifest.asset_index_id {
            Some(a) => a.clone(),
            None => {
                return Err(
                    LauncherError::new(
                        String::from_str("The selected version is missing an asset index."),
                    ),
                );
            },
        };
        let separator: &str = if windows {
            ";"
        } else {
            ":"
        };
        let classpath = join_strings(classpath_entries, separator);
        let uuid = offline_uuid(username);
        let mut values: Vec<(String, String)> = Vec::new();
        values.push(pair("auth_player_name", String::from_str(username)));
        values.push(pair("version_name", manifest.id.clone()));
        values.push(pair("game_directory", String::from_str(game_directory)));
        values.push(pair("assets_root", join_path(minecraft_dir, "assets")));
        values.push(pair("assets_index_name", asset_index_name));
        values.push(pair("auth_uuid", uuid_hyphenated(&uuid)));
        values.push(pair("auth_access_token", String::from_str(DEFAULT_ACCESS_TOKEN)));
        values.push(pair("clientid", String::from_str(DEFAULT_CLIENT_ID)));
        values.push(pair("auth_xuid", String::from_str(DEFAULT_AUTH_XUID)));
        values.push(pair("user_properties", String::from_str(DEFAULT_USER_PROPERTIES)));
        values.push(pair("user_type", String::from_str(DEFAULT_USER_TYPE)));
        values.push(pair("version_type", manifest.version_type.clone()));
        values.push(pair("launcher_name", String::from_str(DEFAULT_LAUNCHER_NAME)));
        values.push(pair("launcher_version", String::from_str(LAUNCHER_VERSION)));
        values.push(pair("classpath", classpath));
        values.push(pair("classpath_separator", String::from_str(separator)));
        values.push(pair("library_directory", join_path(minecraft_dir, "libraries")));
        values.push(pair("natives_directory", String::from_str(natives_dir)));
        values.push(pair("resolution_width", String::from_str(DEFAULT_RESOLUTION_WIDTH)));
        values.push(pair("resolution_height", String::from_str(DEFAULT_RESOLUTION_HEIGHT)));
        values.push(pair("quickPlayPath", String::new()));
        values.push(pair("quickPlaySingleplayer", String::new()));
        values.push(pair("quickPlayMultiplayer", String::new()));
        values.push(pair("quickPlayRealms", String::new()));
        let r = LaunchVariables { values };
        let ghost sep = separator@;
        proof {
            reveal_strlit(";");
            reveal_strlit(":");
        }
        assert(sep == classpath_separator(windows));
        assert(r.table() =~= variables_table(
            *manifest,
            username@,
            minecraft_dir@,
            game_directory@,
            natives_dir@,
            views(classpath_entries@),
            sep,
        ));
        Ok(r)
    }

    fn lookup(&self, key: &String) -> (r: Option<&String>)
        ensures
            match r {
                Some(v) => table_lookup(self.table(), key@) == Some(v@),
                None => table_lookup(self.table(), key@) is None,
            },
    {
        let mut i: usize = 0;
        assert(self.table().skip(0) =~= self.table());
        while i < self.values.len()
            invariant
                i <= self.values.len(),
                table_lookup(self.table(), key@) == table_lookup(self.table().skip(i as int), key@),
            decreases self.values.len() - i,
        {
            assert(self.table().skip(i as int).drop_first() =~= self.table().skip(i + 1));
            assert(self.table().skip(i as int)[0] == (self.values@[i as int].0@, self.values@[i as int].1@));
            if self.values[i].0 == *key {
                return Some(&self.values[i].1);
            }
            i = i + 1;
        }
        None
    }

    /// Replaces every `${name}` in `raw_value` with its value; a name without
    /// a value is an error.
    pub fn replace_placeholders(&self, raw_value: &str) -> (r: LauncherResult<String>)
        ensures
            rsv(r) == table_render(self.table(), raw_value@),
    {
        let found = regex_split_captures("\\$\\{([^}]+)\\}", raw_value);
        let split = match found {
            Ok(x) => x,
            Err(e) => {
                proof {
                    assert(false);
                }
                return Err(LauncherError::new(e));
            },
        };
        let ghost m: SplitView = placeholder_split(raw_value@);
        assert(split_view(split) == m);
        proof {
            lemma_placeholder_split_shape(raw_value@, 0, 0);
        }
        let mut out = String::new();
        let mut i: usize = 0;
        while i < split.0.len()
            invariant
                split_view(split) == m,
                m == placeholder_split(raw_value@),
                forall|k: int|
                    0 <= k < m.0.len() ==> (#[trigger] m.0[k]).1.len() == 1 && m.0[k].1[0] is Some,
                i <= split.0.len(),
                table_render_prefix(m.0, self.table(), i as nat) == Ok::<Seq<char>, Seq<char>>(out@),
            decreases split.0.len() - i,
        {
            let piece = &split.0[i];
            assert(m.0[i as int] == (
                piece.0@,
                piece.1@.map_values(|o: Option<String>| crate::patterns::opt_view(o)),
            ));
            let name: &String = match &piece.1[0] {
                Some(n) => n,
                None => {
                    proof {
                        assert(m.0[i as int].1[0] is None);
                    }
                    return Err(LauncherError::new(String::new()));
                },
            };
            match self.lookup(name) {
                Some(value) => {
                    proof {
                        assert(m.0[i as int].1[0] == crate::patterns::opt_view(piece.1@[0]));
                        assert(m.0[i as int].1[0]->Some_0 == name@);
                    }
                    out.append(piece.0.as_str());
                    out.append(value.as_str());
                },
                None => {
                    proof {
                        assert(m.0[i as int].1[0] == crate::patterns::opt_view(piece.1@[0]));
                        assert(m.0[i as int].1[0]->Some_0 == name@);
                        assert(table_render_prefix(m.0, self.table(), (i + 1) as nat) == Err::<Seq<char>, Seq<char>>(unsupported_placeholder(name@)));
                        lemma_table_render_error_persists(m.0, self.table(), (i + 1) as nat, m.0.len());
                    }
                    return Err(error_with3("Unsupported placeholder: ${", name.as_str(), "}"));
                },
            }
            i = i + 1;
        }
        out.append(split.1.as_str());
        Ok(out)
    }
}

/// Text without placeholders renders as itself, whatever the variables.
pub proof fn lemma_plain_text_unchanged(t: Seq<(Seq<char>, Seq<char>)>, raw: Seq<char>)
    requires
        forall|j: int| 0 <= j < raw.len() ==> !crate::patterns::placeholder_at(raw, j),
    ensures
        table_render(t, raw) == Ok::<Seq<char>, Seq<char>>(raw),
{
    crate::patterns::lemma_split_without_placeholders(raw, 0, 0);
    assert(raw.subrange(0, raw.len() as int) =~= raw);
    assert(Seq::<char>::empty() + raw =~= raw);
}

proof fn lemma_close_brace_after(s: Seq<char>, j: int, c: int)
    requires
        0 <= j <= c < s.len(),
        s[c] == '}',
        forall|k: int| j <= k < c ==> s[k] != '}',
    ensures
        crate::patterns::close_brace(s, j) == c,
    decreases c - j,
{
    if j < c {
        lemma_close_brace_after(s, j + 1, c);
    }
}

proof fn lemma_split_skips_literal(s: Seq<char>, i: int, n: int)
    requires
        0 <= i <= n <= s.len(),
        forall|k: int| 0 <= k < n ==> s[k] != '$',
    ensures
        crate::patterns::placeholder_split_from(s, 0, i) == crate::patterns::placeholder_split_from(s, 0, n),
    decreases n - i,
{
    if i < n {
        assert(!crate::patterns::placeholder_at(s, i));
        lemma_split_skips_literal(s, i + 1, n);
    }
}

/// A template made of literal text and one `${name}` at its end renders as
/// the text followed by the table's value for `name`.
pub proof fn lemma_render_trailing_placeholder(
    t: Seq<(Seq<char>, Seq<char>)>,
    text: Seq<char>,
    name: Seq<char>,
    value: Seq<char>,
)
    requires
        forall|k: int| 0 <= k < text.len() ==> text[k] != '$',
        name.len() > 0,
        forall|k: int| 0 <= k < name.len() ==> name[k] != '}',
        table_lookup(t, name) == Some(value),
    ensures
        table_render(t, text + "${"@ + name + "}"@) == Ok::<Seq<char>, Seq<char>>(text + value),
{
    reveal_strlit("${");
    reveal_strlit("}");
    let s = text + "${"@ + name + "}"@;
    let p = text.len() as int;
    let c = p + 2 + name.len();
    assert(s.len() == c + 1);
    assert forall|k: int| 0 <= k < p implies s[k] != '$' by {
        assert(s[k] == text[k]);
    }
    lemma_split_skips_literal(s, 0, p);
    assert(s[p] == '$' && s[p + 1] == '{' && s[c] == '}');
    assert forall|k: int| p + 2 <= k < c implies s[k] != '}' by {
        assert(s[k] == name[k - p - 2]);
    }
    lemma_close_brace_after(s, p + 2, c);
    assert(crate::patterns::placeholder_at(s, p));
    let rest = crate::patterns::placeholder_split_from(s, c + 1, c + 1);
    assert(rest.0 =~= Seq::<(Seq<char>, Seq<Option<Seq<char>>>)>::empty());
    assert(rest.1 =~= Seq::<char>::empty());
    assert(s.subrange(0, p) =~= text);
    assert(s.subrange(p + 2, c) =~= name);
    let m = crate::patterns::placeholder_split(s);
    assert(m.0 =~= seq![(text, seq![Some(name)])]);
    assert(table_render_prefix(m.0, t, 0) == Ok::<Seq<char>, Seq<char>>(Seq::empty()));
    assert(table_render_prefix(m.0, t, 1) == Ok::<Seq<char>, Seq<char>>(Seq::<char>::empty() + text + value));
    assert(Seq::<char>::empty() + text + value + Seq::<char>::empty() =~= text + value);
}

/// Once a name without a value is met, its message stays the outcome.
pub proof fn lemma_table_render_error_persists(
    pieces: Seq<(Seq<char>, Seq<Option<Seq<char>>>)>,
    t: Seq<(Seq<char>, Seq<char>)>,
    k: nat,
    n: nat,
)
    requires
        k <= n,
        table_render_prefix(pieces, t, k) is Err,
    ensures
        table_render_prefix(pieces, t, n) == table_render_prefix(pieces, t, k),
    decreases n - k,
{
    if k < n {
        lemma_table_render_error_persists(pieces, t, k, (n - 1) as nat);
    }
}


/// What the launcher is asked to start.
pub struct LaunchRequest {
    pub minecraft_dir: String,
    pub version_id: String,
    pub username: String,
    pub required_java_major: Option<u32>,
    pub max_memory_mb: Option<u32>,
}

/// The id a started launch is reported under.
pub struct LaunchResponse {
    pub launch_id: String,
}

/// The state a launch reports.
#[derive(PartialEq, Eq, Structural, Clone, Copy, Debug)]
pub enum LauncherStatusState {
    Launching,
    Running,
    Exited,
    Error,
}

/// A status change of a launch.
pub struct LauncherStatusEvent {
    pub launch_id: String,
    pub state: LauncherStatusState,
    pub message: Option<String>,
}

impl LauncherStatusEvent {
    pub fn new(launch_id: String, state: LauncherStatusState, message: Option<String>) -> (e: Self)
        ensures
            e.launch_id == launch_id,
            e.state == state,
            e.message == message,
    {
        LauncherStatusEvent { launch_id, state, message }
    }
}

/// Where a log line of a launch came from.
#[derive(PartialEq, Eq, Structural, Clone, Copy, Debug)]
pub enum LauncherLogSource {
    Stdout,
    Stderr,
    System,
}

/// One log line of a launch.
pub struct LauncherLogEvent {
    pub launch_id: String,
    pub source: LauncherLogSource,
    pub line: String,
}

impl LauncherLogEvent {
    pub fn new(launch_id: String, source: LauncherLogSource, line: String) -> (e: Self)
        ensures
            e.launch_id == launch_id,
            e.source == source,
            e.line == line,
    {
        LauncherLogEvent { launch_id, source, line }
    }
}

/// Where a running launch reports its status and log lines; the application
/// implements it over its event channel.
pub trait EventSink {
    fn emit_status(&self, event: LauncherStatusEvent);

    fn emit_log(&self, event: LauncherLogEvent);
}

/// Everything needed to start the game process.
pub struct LaunchPlan {
    pub launch_id: String,
    pub minecraft_dir: String,
    pub game_directory: String,
    pub version_id: String,
    pub java_executable: String,
    pub main_class: String,
    pub jvm_args: Vec<String>,
    pub game_args: Vec<String>,
    pub classpath_entries: Vec<String>,
}

impl LaunchPlan {
    /// The arguments after the Java executable: JVM arguments, the main
    /// class, then the game arguments.
    pub fn command_arguments(&self) -> (r: Vec<String>)
        ensures
            views(r@) == views(self.jvm_args@) + seq![self.main_class@] + views(self.game_args@),
    {
        let mut r: Vec<String> = Vec::new();
        let mut i: usize = 0;
        while i < self.jvm_args.len()
            invariant
                i <= self.jvm_args.len(),
                views(r@) == views(self.jvm_args@.take(i as int)),
            decreases self.jvm_args.len() - i,
        {
            r.push(self.jvm_args[i].clone());
            assert(views(self.jvm_args@.take(i + 1)) =~= views(self.jvm_args@.take(i as int)).push(
                self.jvm_args@[i as int]@,
            ));
            assert(views(r@) =~= views(self.jvm_args@.take(i as int)).push(self.jvm_args@[i as int]@));
            i = i + 1;
        }
        assert(self.jvm_args@.take(i as int) =~= self.jvm_args@);
        r.push(self.main_class.clone());
        assert(views(r@) =~= views(self.jvm_args@) + seq![self.main_class@]);
        let mut j: usize = 0;
        while j < self.game_args.len()
            invariant
                j <= self.game_args.len(),
                views(r@) == views(self.jvm_args@) + seq![self.main_class@] + views(self.game_args@.take(j as int)),
            decreases self.game_args.len() - j,
        {
            r.push(self.game_args[j].clone());
            assert(views(self.game_args@.take(j + 1)) =~= views(self.game_args@.take(j as int)).push(
                self.game_args@[j as int]@,
            ));
            assert(views(r@) =~= (views(self.jvm_args@) + seq![self.main_class@] + views(
                self.game_args@.take(j as int),
            )).push(self.game_args@[j as int]@));
            assert(views(r@) =~= views(self.jvm_args@) + seq![self.main_class@] + views(
                self.game_args@.take(j + 1),
            ));
            j = j + 1;
        }
        assert(self.game_args@.take(j as int) =~= self.game_args@);
        r
    }
}

/// The player name of a launch: the trimmed request, or `Player` when that
/// is empty.
pub open spec fn launch_username_spec(raw: Seq<char>) -> Seq<char> {
    if trim_spec(raw).len() == 0 {
        DEFAULT_USERNAME@
    } else {
        trim_spec(raw)
    }
}

pub fn launch_username(raw: &str) -> (r: String)
    ensures
        r@ == launch_username_spec(raw@),
{
    let t = trim_str(raw);
    if t.as_str().unicode_len() == 0 {
        String::from_str(DEFAULT_USERNAME)
    } else {
        t
    }
}

/// Offline sessions point Mojang's services at an unreachable host, so that
/// multiplayer and LAN are not turned off for the offline profile.
pub open spec fn offline_api_bypass_args() -> Seq<Seq<char>> {
    seq![
        "-Dminecraft.api.auth.host=https://nope.invalid"@,
        "-Dminecraft.api.account.host=https://nope.invalid"@,
        "-Dminecraft.api.session.host=https://nope.invalid"@,
        "-Dminecraft.api.services.host=https://nope.invalid"@,
    ]
}

/// The JVM arguments of a launch: heap sizes, the offline service overrides,
/// then the manifest's own.
pub open spec fn launch_jvm_args_spec(initial_heap_mb: u32, max_memory_mb: u32, manifest_jvm: Seq<Seq<char>>) -> Seq<Seq<char>> {
    seq!["-Xms"@ + decimal(initial_heap_mb as nat) + "M"@, "-Xmx"@ + decimal(max_memory_mb as nat) + "M"@]
        + offline_api_bypass_args() + manifest_jvm
}

fn heap_flag(prefix: &str, mb: u32) -> (r: String)
    ensures
        r@ == prefix@ + decimal(mb as nat) + "M"@,
{
    let mut r = String::from_str(prefix);
    let d = decimal_string(mb as u64);
    r.append(d.as_str());
    r.append("M");
    r
}

pub fn launch_jvm_arguments(initial_heap_mb: u32, max_memory_mb: u32, manifest_jvm: Vec<String>) -> (r: Vec<String>)
    ensures
        views(r@) == launch_jvm_args_spec(initial_heap_mb, max_memory_mb, views(manifest_jvm@)),
{
    let mut r: Vec<String> = Vec::new();
    r.push(heap_flag("-Xms", initial_heap_mb));
    r.push(heap_flag("-Xmx", max_memory_mb));
    r.push(String::from_str("-Dminecraft.api.auth.host=https://nope.invalid"));
    r.push(String::from_str("-Dminecraft.api.account.host=https://nope.invalid"));
    r.push(String::from_str("-Dminecraft.api.session.host=https://nope.invalid"));
    r.push(String::from_str("-Dminecraft.api.services.host=https://nope.invalid"));
    let ghost head = views(r@);
    assert(head =~= seq!["-Xms"@ + decimal(initial_heap_mb as nat) + "M"@, "-Xmx"@ + decimal(max_memory_mb as nat) + "M"@]
        + offline_api_bypass_args());
    let mut i: usize = 0;
    while i < manifest_jvm.len()
        invariant
            i <= manifest_jvm.len(),
            views(r@) == head + views(manifest_jvm@.take(i as int)),
        decreases manifest_jvm.len() - i,
    {
        r.push(manifest_jvm[i].clone());
        assert(views(manifest_jvm@.take(i + 1)) =~= views(manifest_jvm@.take(i as int)).push(manifest_jvm@[i as int]@));
        assert(views(r@) =~= (head + views(manifest_jvm@.take(i as int))).push(manifest_jvm@[i as int]@));
        assert(views(r@) =~= head + views(manifest_jvm@.take(i + 1)));
        i = i + 1;
    }
    assert(manifest_jvm@.take(i as int) =~= manifest_jvm@);
    r
}

/// The memory a launch is given and its initial heap, for what the request
/// asks and what the system reported.
pub open spec fn launch_memory_spec(requested: Option<u32>, detected_total_mb: Option<u32>) -> (u32, u32) {
    let p = match detected_total_mb {
        Some(t) => memory_profile_spec(t, true),
        None => memory_profile_spec(FALLBACK_SYSTEM_MEMORY_MB, false),
    };
    let wanted = match requested {
        Some(r) => r as int,
        None => p.recommended_allocatable_mb as int,
    };
    let m = clamp_spec(wanted, p.min_allocatable_mb as int, p.max_allocatable_mb as int);
    (m as u32, min_int(clamp_spec(m / 2, MIN_MINECRAFT_INITIAL_HEAP_MB as int, 1024), m) as u32)
}

/// The plan a launch gets once its arguments have rendered against table `t`.
pub open spec fn plan_from(
    p: LaunchPlan,
    launch_id: Seq<char>,
    request: LaunchRequest,
    manifest: ResolvedManifest,
    minecraft_dir: Seq<char>,
    java_executable: Seq<char>,
    classpath: Seq<Seq<char>>,
    detected_total_mb: Option<u32>,
    jvm: Seq<Seq<char>>,
    game: Seq<Seq<char>>,
) -> bool {
    let (m, h) = launch_memory_spec(request.max_memory_mb, detected_total_mb);
    &&& p.launch_id@ == launch_id
    &&& p.minecraft_dir@ == minecraft_dir
    &&& p.game_directory@ == game_directory_of(manifest, minecraft_dir)
    &&& p.version_id@ == request.version_id@
    &&& p.java_executable@ == java_executable
    &&& p.main_class@ == manifest.main_class@
    &&& views(p.jvm_args@) == launch_jvm_args_spec(h, m, jvm)
    &&& views(p.game_args@) == game
    &&& views(p.classpath_entries@) == classpath
}

/// What a launch comes to when the variables are joined with `sep`.
pub open spec fn launch_outcome_with(
    r: LauncherResult<LaunchPlan>,
    launch_id: Seq<char>,
    request: LaunchRequest,
    manifest: ResolvedManifest,
    minecraft_dir: Seq<char>,
    natives_dir: Seq<char>,
    classpath: Seq<Seq<char>>,
    java_executable: Seq<char>,
    detected_total_mb: Option<u32>,
    environment: RuntimeEnvironment,
    sep: Seq<char>,
) -> bool {
    let t = variables_table(
        manifest,
        launch_username_spec(request.username@),
        minecraft_dir,
        game_directory_of(manifest, minecraft_dir),
        natives_dir,
        classpath,
        sep,
    );
    match launch_arguments_spec(manifest, t, environment) {
        Err(e) => r matches Err(x) && x.0@ == e,
        Ok((jvm, game)) => r matches Ok(p) && plan_from(
            p,
            launch_id,
            request,
            manifest,
            minecraft_dir,
            java_executable,
            classpath,
            detected_total_mb,
            jvm,
            game,
        ),
    }
}

/// The launch plan from what the application found on disk: the manifest,
/// the natives directory, the classpath, the Java executable and the memory
/// the system reported. The player name defaults to `Player`; the JVM gets
/// the heap sizes, the offline service overrides and the manifest's
/// arguments, all rendered with the launch variables; the classpath is
/// joined with `;` when the environment's OS is `windows`, else with `:`.
pub fn prepare_launch_plan(
    launch_id: String,
    request: &LaunchRequest,
    manifest: ResolvedManifest,
    minecraft_dir: String,
    natives_dir: &str,
    classpath_entries: Vec<String>,
    java_executable: String,
    detected_total_mb: Option<u32>,
    environment: &RuntimeEnvironment,
) -> (r: LauncherResult<LaunchPlan>)
    ensures
        manifest.asset_index_id is None ==> (r matches Err(e) && e.0@
            == "The selected version is missing an asset index."@),
        manifest.asset_index_id is Some ==> launch_outcome_with(
            r,
            launch_id@,
            *request,
            manifest,
            minecraft_dir@,
            natives_dir@,
            views(classpath_entries@),
            java_executable@,
            detected_total_mb,
            *environment,
            classpath_separator(environment.os_name@ == "windows"@),
        ),
{
    let username = launch_username(request.username.as_str());
    let windows = str_eq(environment.os_name.as_str(), "windows");
    let game_directory = match &manifest.game_directory {
        Some(d) => d.clone(),
        None => minecraft_dir.clone(),
    };
    let variables = LaunchVariables::new(
        &manifest,
        username.as_str(),
        minecraft_dir.as_str(),
        game_directory.as_str(),
        natives_dir,
        &classpath_entries,
        windows,
    )?;
    let arguments = collect_launch_arguments(&manifest, &variables, environment)?;
    let profile = resolve_system_memory_profile(detected_total_mb);
    let selected = select_launch_memory_mb(&profile, request.max_memory_mb);
    let initial = derive_initial_heap_mb(selected);
    let jvm_args = launch_jvm_arguments(initial, selected, arguments.jvm_arguments);
    Ok(
        LaunchPlan {
            launch_id,
            minecraft_dir,
            game_directory,
            version_id: request.version_id.clone(),
            java_executable,
            main_class: manifest.main_class,
            jvm_args,
            game_args: arguments.game_arguments,
            classpath_entries,
        },
    )
}
} // verus!
