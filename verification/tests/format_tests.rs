use hardware_monitor::metrics::{div_round_u64, get_cpu_usage, get_memory_usage};
use hardware_monitor::textfmt::{
    format_size, format_usage, format_vendor_name, u64_to_string, RoundedKibibytes,
};

#[test]
fn usage_integral_renders_without_decimals() {
    // 42.0 renders as "42", not "42.0"
    assert_eq!(format_usage(420), "42");
    assert_eq!(format_usage(0), "0");
    assert_eq!(format_usage(1000), "100");
}

#[test]
fn usage_fractional_renders_one_decimal() {
    // 42.3 renders as "42.3": one decimal place, never two
    assert_eq!(format_usage(423), "42.3");
    assert_eq!(format_usage(9), "0.9");
    assert_eq!(format_usage(155), "15.5");
}

#[test]
fn decimal_rendering() {
    assert_eq!(u64_to_string(0), "0");
    assert_eq!(u64_to_string(7), "7");
    assert_eq!(u64_to_string(255), "255");
    assert_eq!(u64_to_string(18446744073709551615), "18446744073709551615");
}

#[test]
fn size_below_a_megabyte_is_plain_bytes() {
    assert_eq!(format_size(0, 1), "0 bytes");
    assert_eq!(format_size(1048575, 1), "1048575 bytes");
}

#[test]
fn size_megabytes_and_gigabytes() {
    assert_eq!(format_size(1048576, 1), "1.0 MB");
    // 1.5 MB exactly
    assert_eq!(format_size(1572864, 1), "1.5 MB");
    assert_eq!(format_size(1073741824, 1), "1.0 GB");
    // 16 GiB: renders as 16.0 GB
    assert_eq!(format_size(17179869184, 1), "16.0 GB");
}

#[test]
fn size_rounds_to_requested_decimals() {
    // 1.25 GiB at one decimal rounds half away from zero to 1.3
    assert_eq!(format_size(1342177280, 1), "1.3 GB");
    assert_eq!(format_size(1342177280, 2), "1.25 GB");
    assert_eq!(format_size(1342177280, 0), "1 GB");
}

#[test]
fn kibibytes_units() {
    assert_eq!(RoundedKibibytes { kibibytes: 999, precision: 1 }.format(), "999 KB");
    assert_eq!(RoundedKibibytes { kibibytes: 2048, precision: 1 }.format(), "2.0 MB");
    // 8 GiB of video memory in kibibytes
    assert_eq!(RoundedKibibytes { kibibytes: 8388608, precision: 1 }.format(), "8.0 GB");
    // 1536 KiB = 1.5 MB
    assert_eq!(RoundedKibibytes { kibibytes: 1536, precision: 1 }.format(), "1.5 MB");
}

#[test]
fn vendor_names() {
    assert_eq!(format_vendor_name("GenuineIntel"), "Intel");
    assert_eq!(format_vendor_name("AuthenticAMD"), "AMD");
    assert_eq!(format_vendor_name("SomethingElse"), "SomethingElse");
}

#[test]
fn rounded_division() {
    assert_eq!(div_round_u64(5, 2), 3); // ties round up
    assert_eq!(div_round_u64(4, 2), 2);
    assert_eq!(div_round_u64(7, 3), 2);
    assert_eq!(div_round_u64(8, 3), 3);
    assert_eq!(div_round_u64(0, 9), 0);
}

#[test]
fn aggregate_cpu_usage_is_rounded_mean() {
    // cores at 12.5% and 37.6%: mean 25.05%, rounds to 25
    let cores = vec![125u64, 376u64];
    assert_eq!(get_cpu_usage(&cores), 25);
    // one core
    assert_eq!(get_cpu_usage(&vec![999]), 100);
}

#[test]
fn memory_usage_is_rounded_percentage() {
    assert_eq!(get_memory_usage(50, 100), 50);
    assert_eq!(get_memory_usage(1, 3), 33);
    assert_eq!(get_memory_usage(2, 3), 67);
    assert_eq!(get_memory_usage(0, 8), 0);
    assert_eq!(get_memory_usage(8, 8), 100);
    // half of an odd total rounds up: 3/6 = 50%, 1/200 = 0.5% rounds to 1
    assert_eq!(get_memory_usage(1, 200), 1);
}
