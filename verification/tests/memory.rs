use mecha_launcher::memory::{
    derive_initial_heap_mb, derive_system_memory_profile, memory_mb_from_bytes, memory_mb_from_kilobytes,
    parse_first_u64, parse_meminfo_total_mb, resolve_system_memory_profile, select_launch_memory_mb, MIN_MINECRAFT_MEMORY_MB,
};

#[test]
fn system_memory_profile_keeps_bounds_for_small_systems() {
    let profile = derive_system_memory_profile(4096, true);

    assert_eq!(profile.min_allocatable_mb, MIN_MINECRAFT_MEMORY_MB);
    assert_eq!(profile.max_allocatable_mb, 2048);
    assert_eq!(profile.recommended_allocatable_mb, 1024);
}

#[test]
fn manual_memory_is_clamped_to_reasonable_system_bounds() {
    let profile = derive_system_memory_profile(16384, true);

    assert_eq!(select_launch_memory_mb(&profile, Some(512)), 1024);
    assert_eq!(select_launch_memory_mb(&profile, Some(24000)), profile.max_allocatable_mb);
    assert_eq!(
        select_launch_memory_mb(&profile, None),
        profile.recommended_allocatable_mb
    );
}

#[test]
fn initial_heap_scales_from_selected_memory_without_exploding() {
    assert_eq!(derive_initial_heap_mb(1024), 512);
    assert_eq!(derive_initial_heap_mb(2048), 1024);
    assert_eq!(derive_initial_heap_mb(8192), 1024);
}

#[test]
fn profile_bounds_hold_for_tiny_and_huge_systems() {
    for total in [0u32, 512, 1024, 2047, 3000, 8192, 65536, u32::MAX] {
        let p = derive_system_memory_profile(total, false);
        assert!(p.total_memory_mb >= 1024);
        assert_eq!(p.min_allocatable_mb, 1024);
        assert!(p.min_allocatable_mb <= p.recommended_allocatable_mb);
        assert!(p.recommended_allocatable_mb <= p.max_allocatable_mb);
        assert!(p.max_allocatable_mb <= p.total_memory_mb);
        let m = select_launch_memory_mb(&p, Some(total));
        assert!(p.min_allocatable_mb <= m && m <= p.max_allocatable_mb);
        assert!(derive_initial_heap_mb(m) <= m);
    }
    let p = derive_system_memory_profile(16384, true);
    assert_eq!(p.max_allocatable_mb, 12288);
    assert_eq!(p.recommended_allocatable_mb, 4096);
    assert_eq!(derive_initial_heap_mb(600), 512);
    assert_eq!(derive_initial_heap_mb(300), 300);
}

#[test]
fn undetected_memory_uses_the_fallback_profile() {
    let p = resolve_system_memory_profile(None);
    assert!(!p.detected);
    assert_eq!(p.total_memory_mb, 8192);
    let q = resolve_system_memory_profile(Some(4096));
    assert!(q.detected);
    assert_eq!(q.max_allocatable_mb, 2048);
}

#[test]
fn byte_counts_are_read_and_rounded_up() {
    assert_eq!(parse_first_u64("TotalPhysicalMemory=17179869184\r\n"), Some(17179869184));
    assert_eq!(parse_first_u64("no digits"), None);
    assert_eq!(parse_first_u64("99999999999999999999999"), None);
    assert_eq!(memory_mb_from_bytes(17179869184), Some(16384));
    assert_eq!(memory_mb_from_bytes(1), Some(1));
    assert_eq!(memory_mb_from_kilobytes(16384001), Some(16001));
    assert_eq!(memory_mb_from_kilobytes(u64::MAX), None);
}

#[test]
fn meminfo_total_is_read_in_megabytes() {
    let meminfo = "MemFree:         1000 kB\n  MemTotal:       16384001 kB\nMemTotal: 1 kB\n";
    assert_eq!(parse_meminfo_total_mb(meminfo), Some(16001));
    assert_eq!(parse_meminfo_total_mb("MemTotal:\n"), None);
    assert_eq!(parse_meminfo_total_mb("MemFree: 5 kB\n"), None);
    assert_eq!(parse_meminfo_total_mb("MemTotal: 2048\tkB"), Some(2));
}
