use server_naive::config_auto::{
    compute_auto, fixed_exceeds_auto_cap, nofile_soft_limit, resolve, total_memory_kb, Limit,
    MaxConnections, MaxConnectionsError, ResolveMode, DEFAULT_MEM_KB, DEFAULT_NOFILE,
};

fn gb_to_kb(gb: u64) -> u64 {
    gb * 1024 * 1024
}

#[test]
fn parses_auto_case_insensitive() {
    assert_eq!("auto".parse::<MaxConnections>().unwrap(), MaxConnections::Auto);
    assert_eq!("AUTO".parse::<MaxConnections>().unwrap(), MaxConnections::Auto);
}

#[test]
fn parses_fixed_integer() {
    assert_eq!("5000".parse::<MaxConnections>().unwrap(), MaxConnections::Fixed(5000));
}

#[test]
fn zero_is_rejected() {
    assert!("0".parse::<MaxConnections>().is_err());
}

#[test]
fn errors_say_what_is_accepted() {
    assert_eq!(MaxConnections::parse("0"), Err(MaxConnectionsError::Zero));
    assert_eq!(MaxConnections::parse("many"), Err(MaxConnectionsError::NotANumber));
    assert_eq!(MaxConnections::parse(""), Err(MaxConnectionsError::NotANumber));
    assert_eq!(
        "00".parse::<MaxConnections>().unwrap_err(),
        "Invalid max_connections '00'. Must be 'auto' or a positive integer (>= 1)"
    );
    assert_eq!(
        "-1".parse::<MaxConnections>().unwrap_err(),
        "Invalid max_connections '-1'. Use 'auto' or a positive integer"
    );
}

#[test]
fn resolve_auto_smokes() {
    let r = resolve(MaxConnections::Auto, Some(8), Some(gb_to_kb(8)), Some(1_048_576));
    assert_eq!(r.mode, ResolveMode::Auto);
    assert!(r.value >= 1);
    assert_eq!(r.value, 20_971);
    assert_eq!(r.breakdown.limiting, Limit::Memory);
    let unknown = resolve(MaxConnections::Auto, None, None, None);
    assert_eq!(unknown.mode, ResolveMode::Auto);
    assert!(unknown.value >= 1);
    assert_eq!(unknown.cpus, 1);
    assert_eq!(unknown.total_mem_kb, DEFAULT_MEM_KB);
    assert_eq!(unknown.nofile_soft, DEFAULT_NOFILE);
    assert_eq!(unknown.value, 7_500);
}

#[test]
fn a_fixed_number_is_kept() {
    let r = resolve(MaxConnections::Fixed(123_456), Some(1), Some(0), Some(0));
    assert_eq!(r.mode, ResolveMode::Fixed);
    assert_eq!(r.value, 123_456);
    assert!(fixed_exceeds_auto_cap(r.value, &r.breakdown));
    assert!(!fixed_exceeds_auto_cap(0, &r.breakdown));
}

#[test]
fn degenerate_zero_inputs_floor_to_one() {
    let bd = compute_auto(1, 0, 0);
    assert_eq!(bd.value, 1);
}

#[test]
fn large_cpu_huge_ram_is_cpu_bound() {
    let bd = compute_auto(4, gb_to_kb(16), 65_536);
    assert_eq!(bd.limiting, Limit::Cpu);
    assert_eq!(bd.value, 30_000);
}

#[test]
fn file_descriptors_are_partly_reserved() {
    // A quarter of a small limit, 1024 of a large one; two descriptors for each session.
    let small = compute_auto(64, gb_to_kb(256), 1024);
    assert_eq!(small.fd_cap, 384);
    assert_eq!(small.limiting, Limit::FileDescriptors);
    assert_eq!(small.value, 384);
    let large = compute_auto(64, gb_to_kb(256), 65_536);
    assert_eq!(large.fd_cap, 32_256);
}

#[test]
fn products_stop_at_the_largest_number() {
    let bd = compute_auto(usize::MAX, u64::MAX, u64::MAX);
    assert_eq!(bd.cpu_cap, u64::MAX / 200);
    assert_eq!(bd.mem_cap, u64::MAX / 100 / 200);
    assert_eq!(bd.fd_cap, (u64::MAX - 1024) / 2);
    assert_eq!(bd.limiting, Limit::Memory);
}

#[test]
fn the_value_is_within_every_limit_and_grows_with_it() {
    let bd = compute_auto(2, gb_to_kb(4), 4096);
    assert!(bd.value as u64 <= bd.cpu_cap);
    assert!(bd.value as u64 <= bd.mem_cap);
    assert!(bd.value as u64 <= bd.fd_cap);
    let more = compute_auto(3, gb_to_kb(5), 8192);
    assert!(more.cpu_cap > bd.cpu_cap);
    assert!(more.mem_cap > bd.mem_cap);
    assert!(more.fd_cap > bd.fd_cap);
}

#[test]
fn limits_have_names() {
    assert_eq!(Limit::Cpu.as_str(), "cpu");
    assert_eq!(Limit::Memory.as_str(), "memory");
    assert_eq!(Limit::FileDescriptors.as_str(), "fd");
}

#[test]
fn what_the_system_reports_is_taken_or_not() {
    assert_eq!(total_memory_kb(1_048_576, 4096), Some(4_194_304));
    assert_eq!(total_memory_kb(i64::MAX, 4096), Some(u64::MAX / 1024));
    assert_eq!(total_memory_kb(-1, 4096), None);
    assert_eq!(total_memory_kb(1, 0), None);
    assert_eq!(nofile_soft_limit(0, 1024), Some(1024));
    assert_eq!(nofile_soft_limit(-1, 1024), None);
}
