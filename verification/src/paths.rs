//! Paths, kept as text. The library joins components with `/` on every
//! host (Windows reads `/` as a separator too, so a joined path names the
//! same file there); a path from a manifest is checked by the rules of the
//! host, given as a flag.
use vstd::prelude::*;

use crate::error::{error_with, rsv, LauncherResult};
use crate::text::{chars_of, occurs_at};

verus! {

/// `Path::join` on text: an absolute `rel` replaces `base`; otherwise one `/`
/// separates them (none is added after an empty base or a trailing `/`).
pub open spec fn path_join(base: Seq<char>, rel: Seq<char>) -> Seq<char> {
    if rel.len() > 0 && rel[0] == '/' {
        rel
    } else if base.len() == 0 {
        rel
    } else if base.last() == '/' {
        base + rel
    } else {
        base + seq!['/'] + rel
    }
}

pub fn join_path(base: &str, rel: &str) -> (r: String)
    ensures
        r@ == path_join(base@, rel@),
{
    let b = chars_of(base);
    let r = chars_of(rel);
    if r.len() > 0 && r[0] == '/' {
        return String::from_str(rel);
    }
    if b.len() == 0 {
        return String::from_str(rel);
    }
    let mut out = String::from_str(base);
    if b[b.len() - 1] != '/' {
        out.append("/");
        assert(out@ == base@ + "/"@);
        proof {
            reveal_strlit("/");
        }
        assert("/"@ =~= seq!['/']);
    }
    out.append(rel);
    out
}

/// A separator between path components on a host: `/`, and on Windows
/// also `\`.
pub open spec fn is_separator(c: char, windows: bool) -> bool {
    c == '/' || (windows && c == '\\')
}

/// A `..` component starts at index `i` of `rel`, components being split on
/// the host's separators.
pub open spec fn parent_at(rel: Seq<char>, i: int, windows: bool) -> bool {
    occurs_at(rel, seq!['.', '.'], i) && (i == 0 || is_separator(rel[i - 1], windows)) && (i + 2
        == rel.len() || is_separator(rel[i + 2], windows))
}

/// `rel` has a parent (`..`) component.
pub open spec fn has_parent_component(rel: Seq<char>, windows: bool) -> bool {
    exists|i: int| parent_at(rel, i, windows)
}

/// `rel` starts at a root: with a separator (on Windows this also covers the
/// UNC, device and verbatim prefixes, which begin with `\\`).
pub open spec fn has_root_component(rel: Seq<char>, windows: bool) -> bool {
    rel.len() > 0 && is_separator(rel[0], windows)
}

/// `rel` starts with a drive letter and a colon, such as `C:`.
pub open spec fn drive_prefix(rel: Seq<char>) -> bool {
    rel.len() >= 2 && rel[1] == ':' && (('a' <= rel[0] && rel[0] <= 'z') || ('A' <= rel[0] && rel[0] <= 'Z'))
}

/// `rel` starts with a prefix component: a drive prefix, which only Windows
/// reads as one.
pub open spec fn has_prefix_component(rel: Seq<char>, windows: bool) -> bool {
    windows && drive_prefix(rel)
}

/// `Path::is_absolute`: on Unix, a leading `/`; on Windows, a drive prefix
/// followed by a separator, or a `\\` (UNC, device or verbatim) prefix.
pub open spec fn is_absolute_path(rel: Seq<char>, windows: bool) -> bool {
    if windows {
        (drive_prefix(rel) && rel.len() >= 3 && is_separator(rel[2], true)) || (rel.len() >= 2 && rel[0]
            == '\\' && rel[1] == '\\')
    } else {
        rel.len() > 0 && rel[0] == '/'
    }
}

fn is_separator_exec(c: char, windows: bool) -> (r: bool)
    ensures
        r == is_separator(c, windows),
{
    c == '/' || (windows && c == '\\')
}

fn parent_component_at(rel: &Vec<char>, i: usize, windows: bool) -> (r: bool)
    ensures
        r == parent_at(rel@, i as int, windows),
{
    if i >= rel.len() || rel.len() - i < 2 {
        return false;
    }
    let dots = rel[i] == '.' && rel[i + 1] == '.';
    assert(dots == (rel@.subrange(i as int, i + 2) =~= seq!['.', '.']));
    if !dots {
        return false;
    }
    let before = i == 0 || is_separator_exec(rel[i - 1], windows);
    let after = i + 2 == rel.len() || is_separator_exec(rel[i + 2], windows);
    before && after
}

/// What `safe_join` accepts on a host: no component of `rel`, as the host
/// reads it, is a parent, a root or a prefix.
pub open spec fn safe_relative(rel: Seq<char>, windows: bool) -> bool {
    !has_root_component(rel, windows) && !has_prefix_component(rel, windows) && !has_parent_component(
        rel,
        windows,
    )
}

/// The outcome of `safe_join` on a host.
pub open spec fn safe_join_spec(base: Seq<char>, rel: Seq<char>, windows: bool) -> Result<Seq<char>, Seq<char>> {
    if is_absolute_path(rel, windows) {
        Err("Refusing to write absolute path from manifest: "@ + rel)
    } else if !safe_relative(rel, windows) {
        Err("Refusing unsafe manifest path: "@ + rel)
    } else {
        Ok(path_join(base, rel))
    }
}

/// Joins a path taken from a manifest under `base`, reading it by the rules
/// of the host (`windows` says whether it is Windows): a path with a root, a
/// prefix or a `..` component is refused, so the result never names a place
/// outside `base`.
pub fn safe_join(base: &str, relative: &str, windows: bool) -> (r: LauncherResult<String>)
    ensures
        rsv(r) == safe_join_spec(base@, relative@, windows),
        r is Ok <==> safe_relative(relative@, windows),
        r matches Ok(p) ==> p@ == path_join(base@, relative@) && p@.take(base@.len() as int) == base@,
{
    let rel = chars_of(relative);
    let drive = rel.len() >= 2 && rel[1] == ':' && (('a' <= rel[0] && rel[0] <= 'z') || ('A' <= rel[0]
        && rel[0] <= 'Z'));
    let absolute = if windows {
        (drive && rel.len() >= 3 && is_separator_exec(rel[2], true)) || (rel.len() >= 2 && rel[0] == '\\'
            && rel[1] == '\\')
    } else {
        rel.len() > 0 && rel[0] == '/'
    };
    if absolute {
        return Err(error_with("Refusing to write absolute path from manifest: ", relative));
    }
    if (rel.len() > 0 && is_separator_exec(rel[0], windows)) || (windows && drive) {
        return Err(error_with("Refusing unsafe manifest path: ", relative));
    }
    let mut i: usize = 0;
    while i < rel.len()
        invariant
            i <= rel.len(),
            rel@ == relative@,
            !has_root_component(rel@, windows),
            !has_prefix_component(rel@, windows),
            forall|j: int| 0 <= j < i ==> !parent_at(rel@, j, windows),
        decreases rel.len() - i,
    {
        if parent_component_at(&rel, i, windows) {
            assert(parent_at(relative@, i as int, windows));
            return Err(error_with("Refusing unsafe manifest path: ", relative));
        }
        i = i + 1;
    }
    proof {
        assert forall|j: int| !parent_at(rel@, j, windows) by {
            if occurs_at(rel@, seq!['.', '.'], j) {
                assert(j < i);
            }
        }
    }
    let p = join_path(base, relative);
    assert(p@.take(base@.len() as int) =~= base@);
    Ok(p)
}

/// The text of a path; paths are kept as text here, so it is the path itself.
pub fn path_to_string(path: &str) -> (r: String)
    ensures
        r@ == path@,
{
    String::from_str(path)
}

/// The pieces of a path that name something: no empty piece (from a
/// doubled or trailing `/`) and no `.`.
pub open spec fn normal_pieces(pieces: Seq<Seq<char>>) -> Seq<Seq<char>>
    decreases pieces.len(),
{
    if pieces.len() == 0 {
        Seq::empty()
    } else {
        let rest = normal_pieces(pieces.drop_last());
        let last = pieces.last();
        if last.len() == 0 || last == "."@ {
            rest
        } else {
            rest.push(last)
        }
    }
}

/// `Path::components` on text: the root as `/`, a leading `.` of a relative
/// path as `.`, then the pieces that name something.
pub open spec fn path_components(p: Seq<char>) -> Seq<Seq<char>> {
    let pieces = crate::manifest::split_char(p, '/');
    if p.len() > 0 && p[0] == '/' {
        seq!["/"@] + normal_pieces(pieces)
    } else if pieces[0] == "."@ {
        seq!["."@] + normal_pieces(pieces.drop_first())
    } else {
        normal_pieces(pieces)
    }
}

/// `Path::starts_with`: the components of `base` begin those of `path`.
pub open spec fn path_starts_with_spec(path: Seq<char>, base: Seq<char>) -> bool {
    let a = path_components(path);
    let b = path_components(base);
    b.len() <= a.len() && a.take(b.len() as int) == b
}

fn normal_pieces_exec(pieces: &Vec<Vec<char>>, from: usize) -> (r: Vec<Vec<char>>)
    requires
        from <= pieces@.len(),
    ensures
        r@.map_values(|v: Vec<char>| v@) == normal_pieces(pieces@.map_values(|v: Vec<char>| v@).skip(from as int)),
{
    let ghost pv = pieces@.map_values(|v: Vec<char>| v@);
    let dot = chars_of(".");
    proof {
        reveal_strlit(".");
    }
    let mut r: Vec<Vec<char>> = Vec::new();
    let mut i = from;
    assert(pv.skip(from as int).take(0) =~= Seq::<Seq<char>>::empty());
    while i < pieces.len()
        invariant
            from <= i <= pieces@.len(),
            pv == pieces@.map_values(|v: Vec<char>| v@),
            dot@ == "."@,
            r@.map_values(|v: Vec<char>| v@) == normal_pieces(pv.skip(from as int).take(i - from)),
        decreases pieces.len() - i,
    {
        let piece = &pieces[i];
        let ghost sk = pv.skip(from as int);
        assert(sk.take(i - from + 1).drop_last() =~= sk.take(i - from));
        assert(sk.take(i - from + 1).last() == piece@);
        if piece.len() > 0 && !crate::manifest::chars_eq(piece, &dot) {
            let ghost before = r@.map_values(|v: Vec<char>| v@);
            r.push(piece.clone());
            assert(r@.map_values(|v: Vec<char>| v@) =~= before.push(piece@));
        }
        i = i + 1;
    }
    assert(pv.skip(from as int).take(i - from) =~= pv.skip(from as int));
    r
}

fn path_components_exec(p: &str) -> (r: Vec<Vec<char>>)
    ensures
        r@.map_values(|v: Vec<char>| v@) == path_components(p@),
{
    let chars = chars_of(p);
    let pieces = crate::manifest::split_chars(&chars, '/');
    let ghost pv = pieces@.map_values(|v: Vec<char>| v@);
    assert(pv == crate::manifest::split_char(p@, '/'));
    assert(pv.len() > 0);
    assert(pv[0] == pieces@[0]@);
    let dot = chars_of(".");
    proof {
        reveal_strlit(".");
        reveal_strlit("/");
    }
    let (mut r, from): (Vec<Vec<char>>, usize) = if chars.len() > 0 && chars[0] == '/' {
        let mut head: Vec<Vec<char>> = Vec::new();
        head.push(chars_of("/"));
        (head, 0)
    } else if crate::manifest::chars_eq(&pieces[0], &dot) {
        let mut head: Vec<Vec<char>> = Vec::new();
        head.push(dot);
        (head, 1)
    } else {
        (Vec::new(), 0)
    };
    let ghost head = r@.map_values(|v: Vec<char>| v@);
    assert(pv.skip(0) =~= pv);
    assert(pv.skip(1) =~= pv.drop_first());
    let rest = normal_pieces_exec(&pieces, from);
    let mut k: usize = 0;
    while k < rest.len()
        invariant
            k <= rest@.len(),
            r@.map_values(|v: Vec<char>| v@) == head + rest@.map_values(|v: Vec<char>| v@).take(k as int),
        decreases rest.len() - k,
    {
        let ghost before = r@.map_values(|v: Vec<char>| v@);
        r.push(rest[k].clone());
        assert(r@.map_values(|v: Vec<char>| v@) =~= before.push(rest@[k as int]@));
        assert(rest@.map_values(|v: Vec<char>| v@).take(k + 1) =~= rest@.map_values(|v: Vec<char>| v@).take(
            k as int,
        ).push(rest@[k as int]@));
        k = k + 1;
    }
    assert(rest@.map_values(|v: Vec<char>| v@).take(k as int) =~= rest@.map_values(|v: Vec<char>| v@));
    assert(head =~= (if p@.len() > 0 && p@[0] == '/' {
        seq!["/"@]
    } else if pv[0] == "."@ {
        seq!["."@]
    } else {
        Seq::<Seq<char>>::empty()
    }));
    r
}

/// Whether `base`'s components begin `path`'s, as `Path::starts_with`
/// compares them.
pub fn path_starts_with(path: &str, base: &str) -> (r: bool)
    ensures
        r == path_starts_with_spec(path@, base@),
{
    let a = path_components_exec(path);
    let b = path_components_exec(base);
    let ghost av = a@.map_values(|v: Vec<char>| v@);
    let ghost bv = b@.map_values(|v: Vec<char>| v@);
    if b.len() > a.len() {
        return false;
    }
    let mut i: usize = 0;
    while i < b.len()
        invariant
            b@.len() <= a@.len(),
            i <= b@.len(),
            av == a@.map_values(|v: Vec<char>| v@),
            bv == b@.map_values(|v: Vec<char>| v@),
            av == path_components(path@),
            bv == path_components(base@),
            forall|j: int| 0 <= j < i ==> av[j] == bv[j],
        decreases b.len() - i,
    {
        if !crate::manifest::chars_eq(&a[i], &b[i]) {
            assert(av.take(bv.len() as int)[i as int] != bv[i as int]);
            return false;
        }
        i = i + 1;
    }
    assert(av.take(bv.len() as int) =~= bv);
    true
}

/// `path` lies strictly below `base`: `base`'s components begin `path`'s and
/// `path` has at least one more.
pub open spec fn strictly_below_spec(path: Seq<char>, base: Seq<char>) -> bool {
    path_starts_with_spec(path, base) && path_components(base).len() < path_components(path).len()
}

/// What deleting an installed version may do: the target, with both paths
/// resolved, must lie within the versions directory and must not be that
/// directory itself; a target that is not there is already gone
/// (`Ok(false)`); one that is there must be a directory, and is then deleted
/// (`Ok(true)`).
pub fn check_delete_target(target: &str, versions_dir: &str, exists: bool, is_dir: bool) -> (r: Result<bool, String>)
    ensures
        !path_starts_with_spec(target@, versions_dir@) ==> (r matches Err(e) && e@
            == "Refusing to delete version outside versions directory."@),
        path_starts_with_spec(target@, versions_dir@) && !strictly_below_spec(target@, versions_dir@) ==> (
        r matches Err(e) && e@ == "Refusing to delete the versions directory itself."@),
        strictly_below_spec(target@, versions_dir@) && !exists ==> r == Ok::<bool, String>(false),
        strictly_below_spec(target@, versions_dir@) && exists && !is_dir ==> (r matches Err(e) && e@
            == "Target version path is not a directory."@),
        strictly_below_spec(target@, versions_dir@) && exists && is_dir ==> r == Ok::<bool, String>(true),
        r is Ok ==> strictly_below_spec(target@, versions_dir@),
{
    if !path_starts_with(target, versions_dir) {
        return Err(String::from_str("Refusing to delete version outside versions directory."));
    }
    let a = path_components_exec(target);
    let b = path_components_exec(versions_dir);
    proof {
        assert(a@.map_values(|v: Vec<char>| v@).len() == a@.len());
        assert(b@.map_values(|v: Vec<char>| v@).len() == b@.len());
    }
    if a.len() <= b.len() {
        return Err(String::from_str("Refusing to delete the versions directory itself."));
    }
    if !exists {
        return Ok(false);
    }
    if !is_dir {
        return Err(String::from_str("Target version path is not a directory."));
    }
    Ok(true)
}

} // verus!
