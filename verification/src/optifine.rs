//! OptiFine builds: reading the downloads page and ranking editions.
use vstd::prelude::*;

use crate::error::{error_with, error_with3, LauncherError, LauncherResult};
use crate::install::{recommended_java_for_minecraft, recommended_java_spec, OPTIFINE_ADLOAD_BASE_URL};
use crate::order::{chars_le, lemma_lex_le_antisymmetric, lemma_lex_le_total, lemma_lex_le_transitive, lex_le};
use crate::patterns::{opt_view, regex_split, regex_split_captures, split_view, SplitView};
use crate::text::{
    chars_of, contains, matches_at, occurs_at, parse_u32_chars, parse_u32_spec, replace_all, replace_all_spec,
    seq_contains, seq_starts_with, starts_with, str_eq, string_from_chars,
};

verus! {

/// An OptiFine build the launcher offers.
pub struct OptifineInstallOption {
    pub id: String,
    pub minecraft_version: String,
    pub optifine_version: String,
    pub edition: String,
    pub file_name: String,
    pub version_id: String,
    pub title: String,
    pub summary: String,
    pub release_kind: String,
    pub recommended_java_major: u32,
    pub source_url: String,
}

/// Progress of an OptiFine install.
pub struct OptifineInstallStatusEvent {
    pub option_id: String,
    pub stage: String,
    pub message: String,
    pub current: Option<u32>,
    pub total: Option<u32>,
}

/// What an OptiFine install produced.
pub struct OptifineInstallResult {
    pub version_id: String,
    pub minecraft_version: String,
    pub optifine_version: String,
}

/// A progress event of an OptiFine install.
pub fn emit(option_id: &str, stage: &str, message: &str, current: Option<u32>, total: Option<u32>) -> (e:
    OptifineInstallStatusEvent)
    ensures
        e.option_id@ == option_id@,
        e.stage@ == stage@,
        e.message@ == message@,
        e.current == current,
        e.total == total,
{
    OptifineInstallStatusEvent {
        option_id: String::from_str(option_id),
        stage: String::from_str(stage),
        message: String::from_str(message),
        current,
        total,
    }
}

// ---------------------------------------------------------------------------
// Edition ranks

/// The pattern an edition's base name is read with: letters (the branch),
/// then an optional number.
pub open spec fn edition_pattern() -> Seq<char> {
    "^(?P<branch>[A-Za-z]+)(?P<number>\\d+)?$"@
}

/// Index of the first occurrence of `p` in `s` at or after `i`; the length
/// of `s` when there is none.
pub open spec fn find_text(s: Seq<char>, p: Seq<char>, i: int) -> int
    decreases s.len() - i,
{
    if i < 0 || i > s.len() {
        s.len() as int
    } else if occurs_at(s, p, i) {
        i
    } else if i == s.len() {
        s.len() as int
    } else {
        find_text(s, p, i + 1)
    }
}

/// An edition without its `HD_U_` prefix.
pub open spec fn edition_name(edition: Seq<char>) -> Seq<char> {
    if seq_starts_with(edition, "HD_U_"@) {
        edition.skip(5)
    } else {
        edition
    }
}

/// The base of an edition name and its prerelease number: split at the
/// first `_pre` (0 when there is none or it does not read as a number).
pub open spec fn prerelease_split(name: Seq<char>) -> (Seq<char>, u32) {
    let k = find_text(name, "_pre"@, 0);
    if occurs_at(name, "_pre"@, k) {
        (
            name.take(k),
            match parse_u32_spec(name.skip(k + 4)) {
                Some(v) => v,
                None => 0,
            },
        )
    } else {
        (name, 0)
    }
}

/// The branch and number of a base name from the edition pattern's match;
/// the whole base and 0 when it does not match.
pub open spec fn branch_and_number(base: Seq<char>, m: Result<SplitView, Seq<char>>) -> (Seq<char>, u32) {
    match m {
        Ok(v) if v.0.len() > 0 => {
            let groups = v.0[0].1;
            (
                if groups.len() > 0 && groups[0] is Some {
                    groups[0]->Some_0
                } else {
                    base
                },
                if groups.len() > 1 && groups[1] is Some {
                    match parse_u32_spec(groups[1]->Some_0) {
                        Some(n) => n,
                        None => 0,
                    }
                } else {
                    0
                },
            )
        },
        _ => (base, 0),
    }
}

pub type EditionRank = (Seq<char>, u32, bool, u32, Seq<char>);

/// How an edition ranks: branch, number, stable before prerelease, the
/// prerelease number, then the name itself.
pub open spec fn edition_rank_spec(edition: Seq<char>) -> EditionRank {
    let name = edition_name(edition);
    let (base, pre) = prerelease_split(name);
    let (branch, number) = branch_and_number(base, regex_split(edition_pattern(), base));
    (branch, number, pre == 0, pre, name)
}

/// `a < b` on text.
pub open spec fn lex_lt(a: Seq<char>, b: Seq<char>) -> bool {
    lex_le(a, b) && a != b
}

/// `a < b` on ranks, field by field.
pub open spec fn rank_lt(a: EditionRank, b: EditionRank) -> bool {
    ||| lex_lt(a.0, b.0)
    ||| a.0 == b.0 && a.1 < b.1
    ||| a.0 == b.0 && a.1 == b.1 && !a.2 && b.2
    ||| a.0 == b.0 && a.1 == b.1 && a.2 == b.2 && a.3 < b.3
    ||| a.0 == b.0 && a.1 == b.1 && a.2 == b.2 && a.3 == b.3 && lex_lt(a.4, b.4)
}

/// Editions are ranked by branch, then number, then stability (a stable
/// build above any prerelease of the same number), then prerelease number
/// (a later prerelease above an earlier one): when two editions first differ
/// in one of these, the larger one ranks higher, and never the other way.
pub proof fn lemma_rank_fields(a: EditionRank, b: EditionRank)
    ensures
        (a.0 == b.0 && a.1 < b.1) ==> rank_lt(a, b) && !rank_lt(b, a),
        (a.0 == b.0 && a.1 == b.1 && !a.2 && b.2) ==> rank_lt(a, b) && !rank_lt(b, a),
        (a.0 == b.0 && a.1 == b.1 && a.2 == b.2 && a.3 < b.3) ==> rank_lt(a, b) && !rank_lt(b, a),
        !rank_lt(a, a),
{
}

pub open spec fn rank_view(r: (String, u32, bool, u32, String)) -> EditionRank {
    (r.0@, r.1, r.2, r.3, r.4@)
}

fn find_text_exec(s: &Vec<char>, p: &Vec<char>) -> (k: usize)
    ensures
        k as int == find_text(s@, p@, 0),
        k <= s.len(),
{
    let mut i: usize = 0;
    while i < s.len() && !matches_at(s, p, i)
        invariant
            i <= s.len(),
            find_text(s@, p@, 0) == find_text(s@, p@, i as int),
        decreases s.len() - i,
    {
        i = i + 1;
    }
    i
}

fn slice_chars(s: &Vec<char>, from: usize, to: usize) -> (r: Vec<char>)
    requires
        from <= to <= s.len(),
    ensures
        r@ == s@.subrange(from as int, to as int),
{
    let mut r: Vec<char> = Vec::new();
    let mut i = from;
    while i < to
        invariant
            from <= i <= to <= s.len(),
            r@ == s@.subrange(from as int, i as int),
        decreases to - i,
    {
        r.push(s[i]);
        assert(s@.subrange(from as int, i + 1) =~= s@.subrange(from as int, i as int).push(s@[i as int]));
        i = i + 1;
    }
    r
}

/// The rank of an OptiFine edition such as `HD_U_I7_pre2`.
pub fn optifine_edition_rank(edition: &str) -> (r: (String, u32, bool, u32, String))
    ensures
        rank_view(r) == edition_rank_spec(edition@),
{
    let e = chars_of(edition);
    let prefix = chars_of("HD_U_");
    proof {
        reveal_strlit("HD_U_");
        reveal_strlit("_pre");
    }
    let name = if starts_with(&e, &prefix) {
        slice_chars(&e, 5, e.len())
    } else {
        slice_chars(&e, 0, e.len())
    };
    assert(e@.subrange(0, e@.len() as int) =~= e@);
    assert(seq_starts_with(e@, "HD_U_"@) ==> e@.subrange(5, e@.len() as int) =~= e@.skip(5));
    let marker = chars_of("_pre");
    let k = find_text_exec(&name, &marker);
    let (base, pre) = if k < name.len() && matches_at(&name, &marker, k) {
        let rest = slice_chars(&name, k + 4, name.len());
        assert(rest@ =~= name@.skip(k + 4));
        let p = match parse_u32_chars(&rest) {
            Some(v) => v,
            None => 0,
        };
        (slice_chars(&name, 0, k), p)
    } else {
        proof {
            if occurs_at(name@, "_pre"@, k as int) {
                assert(k < name@.len());
            }
        }
        (slice_chars(&name, 0, name.len()), 0)
    };
    assert(name@.subrange(0, name@.len() as int) =~= name@);
    assert(name@.subrange(0, k as int) =~= name@.take(k as int));
    let base_text = string_from_chars(base.as_slice());
    let pattern = "^(?P<branch>[A-Za-z]+)(?P<number>\\d+)?$";
    let found = regex_split_captures(pattern, base_text.as_str());
    let (branch, number) = match &found {
        Ok(split) if split.0.len() > 0 => {
            let groups = &split.0[0].1;
            assert(split_view(*split).0[0].1 == groups@.map_values(|o: Option<String>| opt_view(o)));
            let branch = if groups.len() > 0 && groups[0].is_some() {
                match &groups[0] {
                    Some(g) => g.clone(),
                    None => base_text.clone(),
                }
            } else {
                base_text.clone()
            };
            let number = if groups.len() > 1 {
                match &groups[1] {
                    Some(g) => match parse_u32_chars(&chars_of(g.as_str())) {
                        Some(n) => n,
                        None => 0,
                    },
                    None => 0,
                }
            } else {
                0
            };
            (branch, number)
        },
        _ => (base_text.clone(), 0),
    };
    (branch, number, pre == 0, pre, string_from_chars(name.as_slice()))
}

fn text_lt(a: &String, b: &String) -> (r: bool)
    ensures
        r == lex_lt(a@, b@),
{
    chars_le(&chars_of(a.as_str()), &chars_of(b.as_str())) && !str_eq(a.as_str(), b.as_str())
}

/// `a < b` on edition ranks.
pub fn rank_less(a: &(String, u32, bool, u32, String), b: &(String, u32, bool, u32, String)) -> (r: bool)
    ensures
        r == rank_lt(rank_view(*a), rank_view(*b)),
{
    if text_lt(&a.0, &b.0) {
        return true;
    }
    if !str_eq(a.0.as_str(), b.0.as_str()) {
        return false;
    }
    if a.1 != b.1 {
        return a.1 < b.1;
    }
    if a.2 != b.2 {
        return !a.2;
    }
    if a.3 != b.3 {
        return a.3 < b.3;
    }
    text_lt(&a.4, &b.4)
}


// ---------------------------------------------------------------------------
// The downloads page

/// The pattern of an OptiFine jar name on the downloads page; the first
/// group is the Minecraft version, the second the edition.
pub open spec fn optifine_jar_pattern() -> Seq<char> {
    "OptiFine_(?P<mc>\\d+\\.\\d+(?:\\.\\d+)?)_(?P<edition>HD_U_[A-Za-z0-9_]+)\\.jar"@
}

/// The (Minecraft version, edition) of each match that has both groups.
pub open spec fn optifine_candidates(m: Seq<(Seq<char>, Seq<Option<Seq<char>>>)>) -> Seq<(Seq<char>, Seq<char>)>
    decreases m.len(),
{
    if m.len() == 0 {
        Seq::empty()
    } else {
        let rest = optifine_candidates(m.drop_last());
        let g = m.last().1;
        if g.len() > 1 && g[0] is Some && g[1] is Some {
            rest.push((g[0]->Some_0, g[1]->Some_0))
        } else {
            rest
        }
    }
}

/// The edition kept for Minecraft version `mc` after the first `n`
/// candidates: the first one met, replaced by each later one that ranks
/// strictly higher.
pub open spec fn best_edition(c: Seq<(Seq<char>, Seq<char>)>, mc: Seq<char>, n: nat) -> Option<Seq<char>>
    decreases n,
{
    if n == 0 || n > c.len() {
        None
    } else {
        let prev = best_edition(c, mc, (n - 1) as nat);
        if c[n - 1].0 != mc {
            prev
        } else {
            match prev {
                None => Some(c[n - 1].1),
                Some(e) => if rank_lt(edition_rank_spec(e), edition_rank_spec(c[n - 1].1)) {
                    Some(c[n - 1].1)
                } else {
                    prev
                },
            }
        }
    }
}

/// The option offered for a Minecraft version and an edition.
pub open spec fn option_for(o: OptifineInstallOption, mc: Seq<char>, edition: Seq<char>) -> bool {
    let file_name = "OptiFine_"@ + mc + "_"@ + edition + ".jar"@;
    &&& o.id@ == file_name
    &&& o.minecraft_version@ == mc
    &&& o.optifine_version@ == "OptiFine_"@ + mc + "_"@ + edition
    &&& o.edition@ == edition
    &&& o.file_name@ == file_name
    &&& o.version_id@ == mc + "-OptiFine_"@ + edition
    &&& o.title@ == "Minecraft "@ + mc
    &&& o.summary@ == "Best available OptiFine build for Minecraft "@ + mc + "."@
    &&& o.release_kind@ == (if seq_contains(edition, "_pre"@) {
        "Preview"@
    } else {
        "Stable"@
    })
    &&& o.recommended_java_major == recommended_java_spec(mc)
    &&& o.source_url@ == OPTIFINE_ADLOAD_BASE_URL@ + "?f="@ + file_name
}

/// The options for a list of candidates: one per Minecraft version, with
/// its best edition, newest version text first.
pub open spec fn options_for(out: Seq<OptifineInstallOption>, c: Seq<(Seq<char>, Seq<char>)>) -> bool {
    &&& forall|i: int, j: int|
        0 <= i < j < out.len() ==> lex_lt(out[j].minecraft_version@, out[i].minecraft_version@)
    &&& forall|i: int|
        0 <= i < out.len() ==> best_edition(c, (#[trigger] out[i]).minecraft_version@, c.len()) == Some(
            out[i].edition@,
        ) && option_for(out[i], out[i].minecraft_version@, out[i].edition@)
    &&& forall|k: int| 0 <= k < c.len() ==> #[trigger] listed(out, c[k].0)
}

/// Some option is for Minecraft version `mc`.
pub open spec fn listed(out: Seq<OptifineInstallOption>, mc: Seq<char>) -> bool {
    exists|i: int| 0 <= i < out.len() && #[trigger] out[i].minecraft_version@ == mc
}

fn concat(parts: (&str, &str, &str, &str)) -> (r: String)
    ensures
        r@ == parts.0@ + parts.1@ + parts.2@ + parts.3@,
{
    let mut r = String::from_str(parts.0);
    r.append(parts.1);
    r.append(parts.2);
    r.append(parts.3);
    r
}

/// The option for a Minecraft version and an edition.
pub fn optifine_option(mc: &str, edition: &str) -> (o: OptifineInstallOption)
    ensures
        option_for(o, mc@, edition@),
{
    let file_name = concat(("OptiFine_", mc, "_", edition));
    let file_name = concat((file_name.as_str(), ".jar", "", ""));
    let optifine_version = concat(("OptiFine_", mc, "_", edition));
    let version_id = concat((mc, "-OptiFine_", edition, ""));
    let title = concat(("Minecraft ", mc, "", ""));
    let summary = concat(("Best available OptiFine build for Minecraft ", mc, ".", ""));
    proof {
        reveal_strlit("");
        reveal_strlit("_pre");
    }
    let release_kind = if contains(&chars_of(edition), &chars_of("_pre")) {
        String::from_str("Preview")
    } else {
        String::from_str("Stable")
    };
    let source_url = concat((OPTIFINE_ADLOAD_BASE_URL, "?f=", file_name.as_str(), ""));
    OptifineInstallOption {
        id: file_name.clone(),
        minecraft_version: String::from_str(mc),
        optifine_version,
        edition: String::from_str(edition),
        file_name,
        version_id,
        title,
        summary,
        release_kind,
        recommended_java_major: recommended_java_for_minecraft(mc),
        source_url,
    }
}

/// The options kept so far for candidates `c`: newest version text first,
/// each with its best edition, and every version met listed.
pub open spec fn kept_for(out: Seq<OptifineInstallOption>, c: Seq<(Seq<char>, Seq<char>)>) -> bool {
    &&& forall|i: int, j: int|
        0 <= i < j < out.len() ==> lex_lt(out[j].minecraft_version@, out[i].minecraft_version@)
    &&& forall|i: int|
        0 <= i < out.len() ==> best_edition(c, (#[trigger] out[i]).minecraft_version@, c.len()) == Some(
            out[i].edition@,
        ) && option_for(out[i], out[i].minecraft_version@, out[i].edition@)
    &&& forall|mc: Seq<char>| #[trigger] best_edition(c, mc, c.len()) is Some ==> listed(out, mc)
}

proof fn lemma_lex_lt_transitive(a: Seq<char>, b: Seq<char>, c: Seq<char>)
    requires
        lex_lt(a, b),
        lex_lt(b, c),
    ensures
        lex_lt(a, c),
{
    lemma_lex_le_transitive(a, b, c);
    if a == c {
        lemma_lex_le_antisymmetric(a, b);
    }
}

proof fn lemma_lex_lt_total(a: Seq<char>, b: Seq<char>)
    requires
        a != b,
    ensures
        lex_lt(a, b) || lex_lt(b, a),
{
    lemma_lex_le_total(a, b);
}

/// Adding a candidate leaves what earlier candidates decided.
proof fn lemma_best_prefix(c: Seq<(Seq<char>, Seq<char>)>, x: (Seq<char>, Seq<char>), mc: Seq<char>, n: nat)
    requires
        n <= c.len(),
    ensures
        best_edition(c.push(x), mc, n) == best_edition(c, mc, n),
    decreases n,
{
    if n > 0 {
        lemma_best_prefix(c, x, mc, (n - 1) as nat);
        assert(c.push(x)[n - 1] == c[n - 1]);
    }
}

/// Once a version is met, it keeps an edition.
proof fn lemma_best_some(c: Seq<(Seq<char>, Seq<char>)>, k: int, n: nat)
    requires
        0 <= k < n <= c.len(),
    ensures
        best_edition(c, c[k].0, n) is Some,
    decreases n,
{
    if k < n - 1 {
        lemma_best_some(c, k, (n - 1) as nat);
    }
}

fn keep_candidate(out: &mut Vec<OptifineInstallOption>, mc: &String, edition: &String, Ghost(c): Ghost<
    Seq<(Seq<char>, Seq<char>)>,
>)
    requires
        kept_for(old(out)@, c),
    ensures
        kept_for(final(out)@, c.push((mc@, edition@))),
{
    let ghost c2 = c.push((mc@, edition@));
    let ghost n = c.len();
    proof {
        assert forall|m: Seq<char>| best_edition(c2, m, n) == best_edition(c, m, n) by {
            lemma_best_prefix(c, (mc@, edition@), m, n);
        }
        assert(c2[n as int] == (mc@, edition@));
    }
    let mut j: usize = 0;
    while j < out.len() && !str_eq(out[j].minecraft_version.as_str(), mc.as_str())
        invariant
            j <= out@.len(),
            forall|k: int| 0 <= k < j ==> out@[k].minecraft_version@ != mc@,
        decreases out@.len() - j,
    {
        j = j + 1;
    }
    if j < out.len() {
        // the version is kept already: replace it when this edition ranks higher
        let current = optifine_edition_rank(out[j].edition.as_str());
        let candidate = optifine_edition_rank(edition.as_str());
        let ghost before = out@;
        proof {
            assert(best_edition(c, mc@, n) == Some(before[j as int].edition@));
            assert forall|k: int| 0 <= k < before.len() && k != j implies before[k].minecraft_version@ != mc@ by {
                if k < j {
                    assert(lex_lt(before[j as int].minecraft_version@, before[k].minecraft_version@));
                } else {
                    assert(lex_lt(before[k].minecraft_version@, before[j as int].minecraft_version@));
                }
            }
        }
        if rank_less(&current, &candidate) {
            let o = optifine_option(mc.as_str(), edition.as_str());
            out.set(j, o);
            proof {
                assert forall|m: Seq<char>| #[trigger] best_edition(c2, m, c2.len()) is Some implies listed(out@, m) by {
                    if m == mc@ {
                        assert(out@[j as int].minecraft_version@ == m);
                    } else {
                        assert(best_edition(c, m, n) is Some);
                        assert(listed(before, m));
                        let i = choose|i: int| 0 <= i < before.len() && #[trigger] before[i].minecraft_version@ == m;
                        assert(out@[i].minecraft_version@ == m);
                    }
                }
                assert forall|i: int| 0 <= i < out@.len() implies best_edition(c2, (#[trigger] out@[i]).minecraft_version@, c2.len()) == Some(
                    out@[i].edition@,
                ) && option_for(out@[i], out@[i].minecraft_version@, out@[i].edition@) by {
                    if i != j {
                        assert(out@[i] == before[i]);
                    }
                }
            }
        } else {
            proof {
                assert forall|m: Seq<char>| #[trigger] best_edition(c2, m, c2.len()) is Some implies listed(out@, m) by {
                    if m == mc@ {
                        assert(out@[j as int].minecraft_version@ == m);
                    } else {
                        assert(best_edition(c, m, n) is Some);
                    }
                }
            }
        }
    } else {
        // a new version: insert it before the first older version text
        let ghost before = out@;
        proof {
            if best_edition(c, mc@, n) is Some {
                assert(listed(before, mc@));
                let i = choose|i: int| 0 <= i < before.len() && #[trigger] before[i].minecraft_version@ == mc@;
                assert(false);
            }
        }
        let mut p: usize = 0;
        while p < out.len() && !text_lt(&out[p].minecraft_version, mc)
            invariant
                p <= out@.len(),
                out@ == before,
                forall|k: int| 0 <= k < p ==> !lex_lt(#[trigger] before[k].minecraft_version@, mc@),
            decreases out@.len() - p,
        {
            p = p + 1;
        }
        let o = optifine_option(mc.as_str(), edition.as_str());
        out.insert(p, o);
        proof {
            assert(out@ == before.insert(p as int, o));
            assert forall|i: int, k: int| 0 <= i < k < out@.len() implies lex_lt(
                out@[k].minecraft_version@,
                out@[i].minecraft_version@,
            ) by {
                let mi = out@[i].minecraft_version@;
                let mk = out@[k].minecraft_version@;
                if i < p {
                    assert(out@[i] == before[i]);
                    assert(!lex_lt(mi, mc@));
                    assert(mi != mc@);
                    lemma_lex_lt_total(mi, mc@);
                    if k == p {
                    } else if k > p {
                        assert(out@[k] == before[k - 1]);
                        if k - 1 > i {
                        }
                    } else {
                        assert(out@[k] == before[k]);
                    }
                } else if i == p {
                    assert(out@[k] == before[k - 1]);
                    assert(lex_lt(before[p as int].minecraft_version@, mc@));
                    if k - 1 > p {
                        lemma_lex_lt_transitive(mk, before[p as int].minecraft_version@, mc@);
                    }
                } else {
                    assert(out@[i] == before[i - 1]);
                    assert(out@[k] == before[k - 1]);
                }
            }
            assert forall|i: int| 0 <= i < out@.len() implies best_edition(c2, (#[trigger] out@[i]).minecraft_version@, c2.len()) == Some(
                out@[i].edition@,
            ) && option_for(out@[i], out@[i].minecraft_version@, out@[i].edition@) by {
                if i < p {
                    assert(out@[i] == before[i]);
                } else if i > p {
                    assert(out@[i] == before[i - 1]);
                }
            }
            assert forall|m: Seq<char>| #[trigger] best_edition(c2, m, c2.len()) is Some implies listed(out@, m) by {
                if m == mc@ {
                    assert(out@[p as int].minecraft_version@ == m);
                } else {
                    assert(best_edition(c, m, n) is Some);
                    assert(listed(before, m));
                    let i = choose|i: int| 0 <= i < before.len() && #[trigger] before[i].minecraft_version@ == m;
                    if i < p {
                        assert(out@[i] == before[i]);
                    } else {
                        assert(out@[i + 1] == before[i]);
                    }
                }
            }
        }
    }
}

/// The options for the matches of the jar pattern on the downloads page:
/// one per Minecraft version, the best-ranked edition (the first of equal
/// ones), newest version text first.
pub fn optifine_options_from_split(split: &(Vec<(String, Vec<Option<String>>)>, String)) -> (out: Vec<
    OptifineInstallOption,
>)
    ensures
        options_for(out@, optifine_candidates(split_view(*split).0)),
{
    let ghost m = split_view(*split).0;
    let mut out: Vec<OptifineInstallOption> = Vec::new();
    let mut i: usize = 0;
    assert(m.take(0) =~= Seq::<(Seq<char>, Seq<Option<Seq<char>>>)>::empty());
    while i < split.0.len()
        invariant
            i <= split.0.len(),
            m == split_view(*split).0,
            m.len() == split.0.len(),
            kept_for(out@, optifine_candidates(m.take(i as int))),
        decreases split.0.len() - i,
    {
        let groups = &split.0[i].1;
        let ghost c = optifine_candidates(m.take(i as int));
        assert(m.take(i + 1).drop_last() =~= m.take(i as int));
        assert(m[i as int] == (split.0@[i as int].0@, groups@.map_values(|o: Option<String>| opt_view(o))));
        assert(m.take(i + 1).last() == m[i as int]);
        if groups.len() > 1 {
            match (&groups[0], &groups[1]) {
                (Some(mc), Some(edition)) => {
                    keep_candidate(&mut out, mc, edition, Ghost(c));
                },
                _ => {},
            }
        }
        i = i + 1;
    }
    assert(m.take(i as int) =~= m);
    proof {
        let c = optifine_candidates(m);
        assert forall|k: int| 0 <= k < c.len() implies #[trigger] listed(out@, c[k].0) by {
            lemma_best_some(c, k, c.len());
        }
    }
    out
}

/// The OptiFine builds on the downloads page.
pub fn parse_optifine_downloads_html(html: &str) -> (out: Vec<OptifineInstallOption>)
    ensures
        match regex_split(optifine_jar_pattern(), html@) {
            Ok(m) => options_for(out@, optifine_candidates(m.0)),
            Err(_) => out@.len() == 0,
        },
{
    let pattern = "OptiFine_(?P<mc>\\d+\\.\\d+(?:\\.\\d+)?)_(?P<edition>HD_U_[A-Za-z0-9_]+)\\.jar";
    match regex_split_captures(pattern, html) {
        Ok(split) => optifine_options_from_split(&split),
        Err(_) => Vec::new(),
    }
}

// ---------------------------------------------------------------------------
// The mirror link

/// The pattern of a mirror link on OptiFine's download page; the first
/// group is the link's path.
pub open spec fn mirror_link_pattern() -> Seq<char> {
    "href=['\"]([^'\"]*downloadx\\?f=([^'\"]+))['\"]"@
}

/// The first link path, with `&amp;` read as `&`, that names `file_name`.
pub open spec fn mirror_path(m: Seq<(Seq<char>, Seq<Option<Seq<char>>>)>, file_name: Seq<char>) -> Option<
    Seq<char>,
>
    decreases m.len(),
{
    if m.len() == 0 {
        None
    } else {
        let g = m[0].1;
        if g.len() > 0 && g[0] is Some && seq_contains(replace_all_spec(g[0]->Some_0, "&amp;"@, "&"@), file_name) {
            Some(replace_all_spec(g[0]->Some_0, "&amp;"@, "&"@))
        } else {
            mirror_path(m.drop_first(), file_name)
        }
    }
}

pub open spec fn no_mirror_message(file_name: Seq<char>) -> Seq<char> {
    "Could not find the official OptiFine mirror link for "@ + file_name + "."@
}

/// The mirror path for `file_name` among the matches of the link pattern.
pub fn download_path_from_split(split: &(Vec<(String, Vec<Option<String>>)>, String), file_name: &str) -> (r:
    LauncherResult<String>)
    ensures
        match mirror_path(split_view(*split).0, file_name@) {
            Some(p) => r matches Ok(v) && v@ == p,
            None => r matches Err(e) && e.0@ == no_mirror_message(file_name@),
        },
{
    let ghost m = split_view(*split).0;
    let amp = chars_of("&amp;");
    let and = chars_of("&");
    proof {
        reveal_strlit("&amp;");
    }
    assert(amp@.len() > 0);
    let name = chars_of(file_name);
    let mut i: usize = 0;
    assert(m.skip(0) =~= m);
    while i < split.0.len()
        invariant
            i <= split.0.len(),
            m == split_view(*split).0,
            m.len() == split.0.len(),
            amp@ == "&amp;"@,
            amp@.len() > 0,
            and@ == "&"@,
            name@ == file_name@,
            mirror_path(m, file_name@) == mirror_path(m.skip(i as int), file_name@),
        decreases split.0.len() - i,
    {
        let groups = &split.0[i].1;
        assert(m.skip(i as int).drop_first() =~= m.skip(i + 1));
        assert(m.skip(i as int)[0] == m[i as int]);
        assert(m[i as int].1 == groups@.map_values(|o: Option<String>| opt_view(o)));
        if groups.len() > 0 {
            if let Some(g) = &groups[0] {
                let path = replace_all(&chars_of(g.as_str()), &amp, &and);
                if contains(&path, &name) {
                    return Ok(string_from_chars(path.as_slice()));
                }
            }
        }
        i = i + 1;
    }
    Err(error_with3("Could not find the official OptiFine mirror link for ", file_name, "."))
}

/// The path of the official mirror link for `file_name` on OptiFine's
/// download page; the pattern's compile error, should there be one.
pub fn extract_optifine_download_path(html: &str, file_name: &str) -> (r: LauncherResult<String>)
    ensures
        match regex_split(mirror_link_pattern(), html@) {
            Ok(m) => match mirror_path(m.0, file_name@) {
                Some(p) => r matches Ok(v) && v@ == p,
                None => r matches Err(e) && e.0@ == no_mirror_message(file_name@),
            },
            Err(e) => r matches Err(x) && x.0@ == e,
        },
{
    let pattern = "href=['\"]([^'\"]*downloadx\\?f=([^'\"]+))['\"]";
    match regex_split_captures(pattern, html) {
        Ok(split) => download_path_from_split(&split, file_name),
        Err(e) => Err(LauncherError::new(e)),
    }
}

/// The first position from `i` on of the option with id `id`.
pub open spec fn option_position(options: Seq<OptifineInstallOption>, id: Seq<char>, i: int) -> Option<int>
    decreases options.len() - i,
{
    if i < 0 || i >= options.len() {
        None
    } else if options[i].id@ == id {
        Some(i)
    } else {
        option_position(options, id, i + 1)
    }
}

proof fn lemma_option_position(options: Seq<OptifineInstallOption>, id: Seq<char>, i: int)
    ensures
        option_position(options, id, i) matches Some(p) ==> i <= p < options.len() && options[p].id@ == id,
    decreases options.len() - i,
{
    if 0 <= i < options.len() && options[i].id@ != id {
        lemma_option_position(options, id, i + 1);
    }
}

/// The position of the install option with id `id` among those offered.
pub fn find_optifine_option(options: &Vec<OptifineInstallOption>, id: &str) -> (r: LauncherResult<usize>)
    ensures
        match option_position(options@, id@, 0) {
            Some(p) => r matches Ok(x) && x as int == p,
            None => r matches Err(e) && e.0@ == "Unknown OptiFine install option: "@ + id@,
        },
        r matches Ok(x) ==> x < options@.len() && options@[x as int].id@ == id@,
{
    proof {
        lemma_option_position(options@, id@, 0);
    }
    let mut i: usize = options.len();
    let mut found: Option<usize> = None;
    while i > 0
        invariant
            i <= options@.len(),
            match found {
                Some(p) => option_position(options@, id@, i as int) == Some(p as int),
                None => option_position(options@, id@, i as int) is None,
            },
        decreases i,
    {
        i = i - 1;
        if str_eq(options[i].id.as_str(), id) {
            found = Some(i);
        }
    }
    match found {
        Some(p) => Ok(p),
        None => Err(error_with("Unknown OptiFine install option: ", id)),
    }
}

} // verus!
