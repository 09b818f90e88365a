use shriven_q::topology::{parse_cpu_list, parse_meminfo_kb};

#[test]
fn cpu_lists_accept_ranges_and_singletons() {
    assert_eq!(
        parse_cpu_list(b"0-7,16-23"),
        Some((0..=7).chain(16..=23).collect::<Vec<usize>>())
    );
    assert_eq!(parse_cpu_list(b"5"), Some(vec![5]));
    assert_eq!(parse_cpu_list(b"0,2,4"), Some(vec![0, 2, 4]));
    assert_eq!(parse_cpu_list(b"9-9"), Some(vec![9]));
}

#[test]
fn an_inverted_range_is_empty_but_well_formed() {
    assert_eq!(parse_cpu_list(b"0,3-1,5"), Some(vec![0, 5]));
}

#[test]
fn malformed_cpu_lists_are_refused() {
    assert_eq!(parse_cpu_list(b""), None);
    assert_eq!(parse_cpu_list(b"a-b"), None);
    assert_eq!(parse_cpu_list(b"1,,2"), None);
    assert_eq!(parse_cpu_list(b"1-2-3"), None);
    assert_eq!(parse_cpu_list(b"4,"), None);
    assert_eq!(parse_cpu_list(b"99999999999999999999999999999999"), None);
}

#[test]
fn meminfo_yields_the_kib_after_the_marker() {
    assert_eq!(
        parse_meminfo_kb(b"Node 0 MemTotal:       131722944 kB\nNode 0 MemFree: 17 kB\n"),
        Some(131722944)
    );
    assert_eq!(parse_meminfo_kb(b"MemTotal: 16384 kB"), Some(16384));
}

#[test]
fn meminfo_without_a_usable_figure_is_refused() {
    assert_eq!(parse_meminfo_kb(b"Node 0 MemFree: 17 kB"), None);
    assert_eq!(parse_meminfo_kb(b"MemTotal: lots kB"), None);
    assert_eq!(parse_meminfo_kb(b""), None);
}
