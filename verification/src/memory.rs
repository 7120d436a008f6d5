//! How much memory a launch may use, from what the system has.
use vstd::prelude::*;

use crate::manifest::{split_char, split_chars};
use crate::text::{all_digits, digit_value, digits_value, is_digit, is_ws, is_whitespace, seq_starts_with, trim_front};

verus! {

pub const MIN_MINECRAFT_MEMORY_MB: u32 = 1024;
pub const MIN_MINECRAFT_INITIAL_HEAP_MB: u32 = 512;
pub const FALLBACK_SYSTEM_MEMORY_MB: u32 = 8192;
pub const MIN_SYSTEM_MEMORY_RESERVE_MB: u32 = 2048;

/// What the launcher offers for the memory slider.
pub struct SystemMemoryProfile {
    pub detected: bool,
    pub total_memory_mb: u32,
    pub min_allocatable_mb: u32,
    pub max_allocatable_mb: u32,
    pub recommended_allocatable_mb: u32,
}

impl Clone for SystemMemoryProfile {
    fn clone(&self) -> (r: Self)
        ensures
            r == *self,
    {
        SystemMemoryProfile { ..*self }
    }
}

pub open spec fn max_int(a: int, b: int) -> int {
    if a >= b {
        a
    } else {
        b
    }
}

pub open spec fn min_int(a: int, b: int) -> int {
    if a <= b {
        a
    } else {
        b
    }
}

/// `v` brought into `[lo, hi]`, as `Ord::clamp` does for `lo <= hi`.
pub open spec fn clamp_spec(v: int, lo: int, hi: int) -> int {
    if v < lo {
        lo
    } else if v > hi {
        hi
    } else {
        v
    }
}

/// The total the profile works from: at least the game's minimum.
pub open spec fn profile_total(total: u32) -> int {
    max_int(total as int, MIN_MINECRAFT_MEMORY_MB as int)
}

/// What stays for the system: a quarter of the total, at least 2048 MB, but
/// never so much that less than the game's minimum would be left.
pub open spec fn profile_reserve(total: u32) -> int {
    let t = profile_total(total);
    min_int(max_int(t / 4, MIN_SYSTEM_MEMORY_RESERVE_MB as int), t - MIN_MINECRAFT_MEMORY_MB)
}

/// The profile for a system with `total` MB.
pub open spec fn memory_profile_spec(total: u32, detected: bool) -> SystemMemoryProfile {
    let t = profile_total(total);
    let max = t - profile_reserve(total);
    SystemMemoryProfile {
        detected,
        total_memory_mb: t as u32,
        min_allocatable_mb: MIN_MINECRAFT_MEMORY_MB,
        max_allocatable_mb: max as u32,
        recommended_allocatable_mb: clamp_spec(t / 4, MIN_MINECRAFT_MEMORY_MB as int, max) as u32,
    }
}

/// The memory profile of a system with `total_memory_mb` MB: the minimum is
/// 1024 MB, the maximum leaves the reserve to the system, and a quarter of
/// the total is recommended, within those bounds.
pub fn derive_system_memory_profile(total_memory_mb: u32, detected: bool) -> (p: SystemMemoryProfile)
    ensures
        p == memory_profile_spec(total_memory_mb, detected),
        p.min_allocatable_mb == MIN_MINECRAFT_MEMORY_MB,
        p.min_allocatable_mb <= p.recommended_allocatable_mb <= p.max_allocatable_mb,
        p.max_allocatable_mb <= p.total_memory_mb,
        p.total_memory_mb >= total_memory_mb,
{
    let total = if total_memory_mb >= MIN_MINECRAFT_MEMORY_MB {
        total_memory_mb
    } else {
        MIN_MINECRAFT_MEMORY_MB
    };
    let quarter = total / 4;
    let reserve_floor = if quarter >= MIN_SYSTEM_MEMORY_RESERVE_MB {
        quarter
    } else {
        MIN_SYSTEM_MEMORY_RESERVE_MB
    };
    let room = total - MIN_MINECRAFT_MEMORY_MB;
    let reserve = if reserve_floor <= room {
        reserve_floor
    } else {
        room
    };
    let min_allocatable_mb = MIN_MINECRAFT_MEMORY_MB;
    let max_allocatable_mb = total - reserve;
    let recommended_allocatable_mb = if quarter < min_allocatable_mb {
        min_allocatable_mb
    } else if quarter > max_allocatable_mb {
        max_allocatable_mb
    } else {
        quarter
    };
    SystemMemoryProfile {
        detected,
        total_memory_mb: total,
        min_allocatable_mb,
        max_allocatable_mb,
        recommended_allocatable_mb,
    }
}

/// The profile for what was detected, or for the 8192 MB fallback when
/// nothing was.
pub fn resolve_system_memory_profile(detected_total_mb: Option<u32>) -> (p: SystemMemoryProfile)
    ensures
        p == (match detected_total_mb {
            Some(t) => memory_profile_spec(t, true),
            None => memory_profile_spec(FALLBACK_SYSTEM_MEMORY_MB, false),
        }),
{
    match detected_total_mb {
        Some(t) => derive_system_memory_profile(t, true),
        None => derive_system_memory_profile(FALLBACK_SYSTEM_MEMORY_MB, false),
    }
}

/// The memory for a launch: what was asked for, else the recommendation,
/// brought within the profile's bounds.
pub fn select_launch_memory_mb(profile: &SystemMemoryProfile, requested_memory_mb: Option<u32>) -> (m: u32)
    requires
        profile.min_allocatable_mb <= profile.max_allocatable_mb,
    ensures
        m == clamp_spec(
            match requested_memory_mb {
                Some(r) => r as int,
                None => profile.recommended_allocatable_mb as int,
            },
            profile.min_allocatable_mb as int,
            profile.max_allocatable_mb as int,
        ),
        profile.min_allocatable_mb <= m <= profile.max_allocatable_mb,
{
    let wanted = match requested_memory_mb {
        Some(r) => r,
        None => profile.recommended_allocatable_mb,
    };
    if wanted < profile.min_allocatable_mb {
        profile.min_allocatable_mb
    } else if wanted > profile.max_allocatable_mb {
        profile.max_allocatable_mb
    } else {
        wanted
    }
}

/// The initial heap: half the maximum, kept within 512..=1024 MB, and never
/// above the maximum itself.
pub fn derive_initial_heap_mb(max_memory_mb: u32) -> (h: u32)
    ensures
        h == min_int(
            clamp_spec((max_memory_mb / 2) as int, MIN_MINECRAFT_INITIAL_HEAP_MB as int, 1024),
            max_memory_mb as int,
        ),
        h <= max_memory_mb,
        h <= 1024,
{
    let half = max_memory_mb / 2;
    let clamped = if half < MIN_MINECRAFT_INITIAL_HEAP_MB {
        MIN_MINECRAFT_INITIAL_HEAP_MB
    } else if half > 1024 {
        1024
    } else {
        half
    };
    if clamped <= max_memory_mb {
        clamped
    } else {
        max_memory_mb
    }
}

/// Every profile keeps 1024 MB <= min <= recommended <= max <= total, so a
/// launch can always be given memory within it.
pub proof fn lemma_profile_bounds(total_memory_mb: u32, detected: bool)
    ensures
        ({
            let p = memory_profile_spec(total_memory_mb, detected);
            &&& p.min_allocatable_mb == MIN_MINECRAFT_MEMORY_MB
            &&& p.min_allocatable_mb <= p.recommended_allocatable_mb
            &&& p.recommended_allocatable_mb <= p.max_allocatable_mb
            &&& p.max_allocatable_mb <= p.total_memory_mb
            &&& p.total_memory_mb >= MIN_MINECRAFT_MEMORY_MB
        }),
{
}

/// The memory chosen for a launch lies within the profile whatever was asked,
/// and the initial heap never exceeds it.
pub proof fn lemma_launch_memory_within_profile(total_memory_mb: u32, detected: bool, requested: Option<u32>)
    ensures
        ({
            let p = memory_profile_spec(total_memory_mb, detected);
            let wanted = match requested {
                Some(r) => r as int,
                None => p.recommended_allocatable_mb as int,
            };
            let m = clamp_spec(wanted, p.min_allocatable_mb as int, p.max_allocatable_mb as int);
            let h = min_int(clamp_spec(m / 2, MIN_MINECRAFT_INITIAL_HEAP_MB as int, 1024), m);
            &&& p.min_allocatable_mb <= m <= p.max_allocatable_mb
            &&& MIN_MINECRAFT_INITIAL_HEAP_MB <= h <= m
        }),
{
}

/// The ASCII digits of `s`, in order.
pub open spec fn ascii_digits(s: Seq<char>) -> Seq<char>
    decreases s.len(),
{
    if s.len() == 0 {
        Seq::empty()
    } else if is_digit(s.last()) {
        ascii_digits(s.drop_last()).push(s.last())
    } else {
        ascii_digits(s.drop_last())
    }
}

/// The number the ASCII digits of `text` spell, as `parse::<u64>` reads them.
pub open spec fn first_u64_spec(text: Seq<char>) -> Option<u64> {
    let d = ascii_digits(text);
    if d.len() > 0 && digits_value(d) <= u64::MAX {
        Some(digits_value(d) as u64)
    } else {
        None
    }
}

proof fn lemma_ascii_digits_step(s: Seq<char>, i: int)
    requires
        0 <= i < s.len(),
    ensures
        ascii_digits(s.take(i + 1)) == if is_digit(s[i]) {
            ascii_digits(s.take(i)).push(s[i])
        } else {
            ascii_digits(s.take(i))
        },
{
    assert(s.take(i + 1).drop_last() =~= s.take(i));
    assert(s.take(i + 1).last() == s[i]);
}

/// The number formed by all the ASCII digits in `text`, if there are any and
/// it fits in `u64`.
pub fn parse_first_u64(text: &str) -> (r: Option<u64>)
    ensures
        r == first_u64_spec(text@),
{
    let chars = crate::text::chars_of(text);
    let mut acc: u64 = 0;
    let mut over = false;
    let mut any = false;
    let mut i: usize = 0;
    while i < chars.len()
        invariant
            i <= chars.len(),
            chars@ == text@,
            any <==> ascii_digits(chars@.take(i as int)).len() > 0,
            over ==> digits_value(ascii_digits(chars@.take(i as int))) > u64::MAX,
            !over ==> acc == digits_value(ascii_digits(chars@.take(i as int))),
        decreases chars.len() - i,
    {
        let c = chars[i];
        proof {
            lemma_ascii_digits_step(chars@, i as int);
        }
        if '0' <= c && c <= '9' {
            any = true;
            let d = (c as u32 - 48) as u64;
            assert(d == digit_value(c));
            let ghost prev = ascii_digits(chars@.take(i as int));
            assert(prev.push(c).drop_last() =~= prev);
            if !over {
                if acc > (18446744073709551615u64 - d) / 10 {
                    over = true;
                } else {
                    acc = acc * 10 + d;
                }
            }
        }
        i = i + 1;
    }
    assert(chars@.take(chars@.len() as int) =~= chars@);
    if any && !over {
        Some(acc)
    } else {
        None
    }
}

/// Megabytes for a byte count, rounded up, if they fit in `u32`.
pub fn memory_mb_from_bytes(total_bytes: u64) -> (r: Option<u32>)
    ensures
        ({
            let mb = (total_bytes as int + 1048575) / 1048576;
            &&& r is Some <==> mb <= u32::MAX
            &&& r matches Some(v) ==> v == mb
        }),
{
    let mb = total_bytes / 1048576 + if total_bytes % 1048576 == 0 {
        0
    } else {
        1
    };
    if mb <= 4294967295 {
        Some(mb as u32)
    } else {
        None
    }
}

/// Megabytes for a kilobyte count, rounded up, if they fit in `u32`.
pub fn memory_mb_from_kilobytes(kilobytes: u64) -> (r: Option<u32>)
    ensures
        ({
            let mb = (kilobytes as int + 1023) / 1024;
            &&& r is Some <==> mb <= u32::MAX
            &&& r matches Some(v) ==> v == mb
        }),
{
    let mb = kilobytes / 1024 + if kilobytes % 1024 == 0 {
        0
    } else {
        1
    };
    if mb <= 4294967295 {
        Some(mb as u32)
    } else {
        None
    }
}

/// What `str::parse::<u64>` accepts: an optional `+`, then one or more ASCII
/// digits whose value fits in `u64`.
pub open spec fn parse_u64_spec(s: Seq<char>) -> Option<u64> {
    let body = if s.len() > 0 && s[0] == '+' {
        s.drop_first()
    } else {
        s
    };
    if body.len() > 0 && all_digits(body) && digits_value(body) <= u64::MAX {
        Some(digits_value(body) as u64)
    } else {
        None
    }
}

/// `str::parse::<u64>` on a character vector.
pub fn parse_u64_chars(s: &Vec<char>) -> (r: Option<u64>)
    ensures
        r == parse_u64_spec(s@),
{
    let start: usize = if s.len() > 0 && s[0] == '+' {
        1
    } else {
        0
    };
    let ghost body = if s@.len() > 0 && s@[0] == '+' {
        s@.drop_first()
    } else {
        s@
    };
    assert(body =~= s@.skip(start as int));
    if start >= s.len() {
        return None;
    }
    let mut acc: u64 = 0;
    let mut over = false;
    let mut i: usize = start;
    while i < s.len()
        invariant
            start <= i <= s.len(),
            body == s@.skip(start as int),
            body == (if s@.len() > 0 && s@[0] == '+' {
                s@.drop_first()
            } else {
                s@
            }),
            all_digits(body.take(i - start)),
            over ==> digits_value(body.take(i - start)) > u64::MAX,
            !over ==> acc == digits_value(body.take(i - start)),
        decreases s.len() - i,
    {
        let c = s[i];
        let k = i - start;
        assert(body[k as int] == c);
        if !('0' <= c && c <= '9') {
            assert(!is_digit(body[k as int]));
            assert(!all_digits(body));
            return None;
        }
        let d = (c as u32 - 48) as u64;
        assert(d == digit_value(c));
        assert(body.take(k + 1).drop_last() =~= body.take(k as int));
        assert(body.take(k + 1).last() == c);
        assert(all_digits(body.take(k + 1))) by {
            assert forall|j: int| 0 <= j < k + 1 implies is_digit(#[trigger] body.take(k + 1)[j]) by {
                if j < k {
                    assert(body.take(k + 1)[j] == body.take(k as int)[j]);
                }
            }
        }
        if !over {
            if acc > (18446744073709551615u64 - d) / 10 {
                over = true;
            } else {
                acc = acc * 10 + d;
            }
        }
        i = i + 1;
    }
    assert(body.take(i - start) =~= body);
    if over {
        None
    } else {
        Some(acc)
    }
}

/// The words of a text and the word being read, left to right.
pub open spec fn words_state(s: Seq<char>) -> (Seq<Seq<char>>, Seq<char>)
    decreases s.len(),
{
    if s.len() == 0 {
        (Seq::empty(), Seq::empty())
    } else {
        let (done, cur) = words_state(s.drop_last());
        let c = s.last();
        if is_ws(c) {
            if cur.len() > 0 {
                (done.push(cur), Seq::empty())
            } else {
                (done, cur)
            }
        } else {
            (done, cur.push(c))
        }
    }
}

/// `str::split_whitespace`: the runs of non-whitespace characters.
pub open spec fn words(s: Seq<char>) -> Seq<Seq<char>> {
    let (done, cur) = words_state(s);
    if cur.len() > 0 {
        done.push(cur)
    } else {
        done
    }
}

pub fn split_whitespace(s: &Vec<char>) -> (r: Vec<Vec<char>>)
    ensures
        r@.map_values(|v: Vec<char>| v@) == words(s@),
{
    let mut done: Vec<Vec<char>> = Vec::new();
    let mut cur: Vec<char> = Vec::new();
    let mut i: usize = 0;
    while i < s.len()
        invariant
            i <= s.len(),
            (done@.map_values(|v: Vec<char>| v@), cur@) == words_state(s@.take(i as int)),
        decreases s.len() - i,
    {
        let c = s[i];
        assert(s@.take(i + 1).drop_last() =~= s@.take(i as int));
        assert(s@.take(i + 1).last() == c);
        if is_whitespace(c) {
            if cur.len() > 0 {
                let ghost before = done@.map_values(|v: Vec<char>| v@);
                let word = cur;
                cur = Vec::new();
                done.push(word);
                assert(done@.map_values(|v: Vec<char>| v@) =~= before.push(word@));
                assert(cur@ =~= Seq::<char>::empty());
            }
        } else {
            cur.push(c);
        }
        i = i + 1;
    }
    assert(s@.take(i as int) =~= s@);
    if cur.len() > 0 {
        let ghost before = done@.map_values(|v: Vec<char>| v@);
        let word = cur;
        done.push(word);
        assert(done@.map_values(|v: Vec<char>| v@) =~= before.push(word@));
    }
    done
}

/// The first line whose text, after leading whitespace, starts with
/// `MemTotal:`.
pub open spec fn memtotal_line(lines: Seq<Seq<char>>) -> Option<Seq<char>>
    decreases lines.len(),
{
    if lines.len() == 0 {
        None
    } else if seq_starts_with(trim_front(lines[0]), "MemTotal:"@) {
        Some(lines[0])
    } else {
        memtotal_line(lines.drop_first())
    }
}

/// The total memory `/proc/meminfo` reports, in MB rounded up: the second
/// word of its `MemTotal:` line, in kilobytes.
pub open spec fn meminfo_total_spec(contents: Seq<char>) -> Option<u32> {
    match memtotal_line(split_char(contents, '\n')) {
        None => None,
        Some(line) => {
            let w = words(line);
            if w.len() < 2 {
                None
            } else {
                match parse_u64_spec(w[1]) {
                    None => None,
                    Some(kb) => if (kb as int + 1023) / 1024 <= u32::MAX {
                        Some(((kb as int + 1023) / 1024) as u32)
                    } else {
                        None
                    },
                }
            }
        },
    }
}

fn trim_front_chars(s: &Vec<char>) -> (r: Vec<char>)
    ensures
        r@ == trim_front(s@),
{
    let mut i: usize = 0;
    assert(s@.skip(0) =~= s@);
    while i < s.len() && is_whitespace(s[i])
        invariant
            i <= s.len(),
            trim_front(s@) == trim_front(s@.skip(i as int)),
        decreases s.len() - i,
    {
        assert(s@.skip(i as int).drop_first() =~= s@.skip(i + 1));
        i = i + 1;
    }
    let mut r: Vec<char> = Vec::new();
    let mut j = i;
    while j < s.len()
        invariant
            i <= j <= s.len(),
            r@ == s@.subrange(i as int, j as int),
        decreases s.len() - j,
    {
        r.push(s[j]);
        assert(s@.subrange(i as int, j + 1) =~= s@.subrange(i as int, j as int).push(s@[j as int]));
        j = j + 1;
    }
    assert(s@.subrange(i as int, s@.len() as int) =~= s@.skip(i as int));
    r
}

/// The total memory in `/proc/meminfo` contents.
pub fn parse_meminfo_total_mb(contents: &str) -> (r: Option<u32>)
    ensures
        r == meminfo_total_spec(contents@),
{
    let lines = split_chars(&crate::text::chars_of(contents), '\n');
    let ghost lv = lines@.map_values(|v: Vec<char>| v@);
    assert(lv == split_char(contents@, '\n'));
    let prefix = crate::text::chars_of("MemTotal:");
    let mut i: usize = 0;
    assert(lv.skip(0) =~= lv);
    while i < lines.len()
        invariant
            i <= lines.len(),
            lv == lines@.map_values(|v: Vec<char>| v@),
            lv == split_char(contents@, '\n'),
            prefix@ == "MemTotal:"@,
            memtotal_line(lv) == memtotal_line(lv.skip(i as int)),
        decreases lines.len() - i,
    {
        assert(lv.skip(i as int).drop_first() =~= lv.skip(i + 1));
        assert(lv.skip(i as int)[0] == lines@[i as int]@);
        let t = trim_front_chars(&lines[i]);
        if crate::text::starts_with(&t, &prefix) {
            assert(lv.skip(i as int).len() > 0);
            assert(memtotal_line(lv.skip(i as int)) == Some(lines@[i as int]@));
            let w = split_whitespace(&lines[i]);
            let ghost wv = w@.map_values(|v: Vec<char>| v@);
            if w.len() < 2 {
                return None;
            }
            assert(wv[1] == w@[1]@);
            return match parse_u64_chars(&w[1]) {
                None => None,
                Some(kb) => memory_mb_from_kilobytes(kb),
            };
        }
        i = i + 1;
    }
    assert(lv.skip(i as int) =~= Seq::<Seq<char>>::empty());
    None
}

} // verus!
