use spare::meminfo::{parse_meminfo, parse_second_word, starts_with};
use spare::resources::LocalResources;

const SAMPLE: &[u8] = b"MemTotal:       16314064 kB\nMemFree:         1200332 kB\nMemAvailable:   11012440 kB\nBuffers:          454812 kB\n";

#[test]
fn reads_fields() {
    assert_eq!(parse_meminfo(SAMPLE, b"MemTotal"), Some(16314064));
    assert_eq!(parse_meminfo(SAMPLE, b"MemAvailable"), Some(11012440));
    assert_eq!(parse_meminfo(SAMPLE, b"Buffers"), Some(454812));
}

#[test]
fn first_matching_line_wins() {
    assert_eq!(parse_meminfo(SAMPLE, b"Mem"), Some(16314064));
}

#[test]
fn missing_or_malformed_fields() {
    assert_eq!(parse_meminfo(SAMPLE, b"SwapTotal"), None);
    assert_eq!(parse_meminfo(b"", b"MemTotal"), None);
    assert_eq!(parse_meminfo(b"MemTotal: x12 kB\n", b"MemTotal"), None);
    assert_eq!(parse_meminfo(b"MemTotal:\n5 kB", b"MemTotal"), None);
    assert_eq!(parse_meminfo(b"MemTotal: 99999999999999999999 kB", b"MemTotal"), None);
}

#[test]
fn word_helpers() {
    assert_eq!(parse_second_word(b"  a   42\tkB"), Some(42));
    assert_eq!(parse_second_word(b"a"), None);
    assert_eq!(parse_second_word(b"a 18446744073709551615"), Some(u64::MAX));
    assert!(starts_with(b"MemFree: 1", b"MemFree"));
    assert!(!starts_with(b"Mem", b"MemFree"));
}

#[test]
fn accountant_memory_fields() {
    assert_eq!(LocalResources::get_available_memory(SAMPLE), 11012440);
    assert_eq!(LocalResources::get_total_memory(SAMPLE), 16314064);
    assert_eq!(LocalResources::get_available_memory(b"MemFree: 3 kB\n"), 0);
}
