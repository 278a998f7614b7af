use hoststats::gpu::GpuInfo;

#[test]
fn ioreg_number_reads_digit_run_after_key() {
    let line = "    \"PerformanceStatistics\" = {\"Device Utilization %\"=45,\"foo\"=1}";
    assert_eq!(
        GpuInfo::parse_ioreg_number(line, "\"Device Utilization %\"=", 23),
        Some(45)
    );
}

#[test]
fn ioreg_number_missing_key_is_none() {
    let line = "    \"PerformanceStatistics\" = {\"foo\"=1}";
    assert_eq!(GpuInfo::parse_ioreg_number(line, "\"Device Utilization %\"=", 23), None);
}

#[test]
fn ioreg_number_needs_a_terminator_after_the_digits() {
    // The digit run reaches the end of the line: the field is ignored.
    assert_eq!(GpuInfo::parse_ioreg_number("\"k\"=123", "\"k\"=", 4), None);
    // With a terminator it parses.
    assert_eq!(GpuInfo::parse_ioreg_number("\"k\"=123,", "\"k\"=", 4), Some(123));
}

#[test]
fn ioreg_number_empty_run_or_overflow_is_none() {
    assert_eq!(GpuInfo::parse_ioreg_number("\"k\"=x,", "\"k\"=", 4), None);
    assert_eq!(
        GpuInfo::parse_ioreg_number("\"k\"=99999999999999999999999,", "\"k\"=", 4),
        None
    );
}

#[test]
fn ioreg_number_offset_past_line_end_is_none() {
    assert_eq!(GpuInfo::parse_ioreg_number("\"k\"=1,", "\"k\"=", 400), None);
}

#[test]
fn apple_silicon_dump_parses() {
    let dump = "+-o AGXAcceleratorG13G  <class AGXAcceleratorG13G>\n    {\n      \"model\" = \"Apple M1\"\n      \"PerformanceStatistics\" = {\"Device Utilization %\"=37,\"In use system memory\"=3221225472,\"Alloc system memory\"=4294967296}\n    }\n";
    assert_eq!(
        GpuInfo::apple_silicon_parse(dump),
        Some(GpuInfo { gpu_usage: 37, vram_max: 4096, vram_used: 3072 })
    );
}

#[test]
fn apple_silicon_without_marker_is_none() {
    let dump = "+-o SomeOtherAccelerator\n      \"PerformanceStatistics\" = {\"Device Utilization %\"=37,}\n";
    assert_eq!(GpuInfo::apple_silicon_parse(dump), None);
}

#[test]
fn apple_silicon_later_stats_overwrite_earlier() {
    let dump = "+-o AGXAccelerator\n      \"PerformanceStatistics\" = {\"Device Utilization %\"=10,}\n      \"PerformanceStatistics\" = {\"Device Utilization %\"=90,}\n";
    assert_eq!(
        GpuInfo::apple_silicon_parse(dump),
        Some(GpuInfo { gpu_usage: 90, vram_max: 0, vram_used: 0 })
    );
}

#[test]
fn apple_intel_marker_without_vram_key_is_none() {
    let dump = "    \"IOClass\" = \"IntelAccelerator\"\n    \"IOMatchCategory\" = \"IOAccelerator\"\n";
    assert_eq!(GpuInfo::apple_intel_parse(dump), None);
}

#[test]
fn apple_intel_dump_parses() {
    let dump = "    \"IOClass\" = \"IntelAccelerator\"\n    \"VRAM,totalMB\" = <1536>\n";
    assert_eq!(
        GpuInfo::apple_intel_parse(dump),
        Some(GpuInfo { gpu_usage: 0, vram_max: 1536, vram_used: 0 })
    );
}

#[test]
fn apple_intel_zero_vram_is_none() {
    let dump = "    \"model\" = <\"Intel HD Graphics\">\n    \"VRAM,totalMB\" = <0>\n";
    assert_eq!(GpuInfo::apple_intel_parse(dump), None);
}

#[test]
fn apple_intel_vram_without_marker_is_none() {
    let dump = "    \"VRAM,totalMB\" = <1536>\n";
    assert_eq!(GpuInfo::apple_intel_parse(dump), None);
}

#[test]
fn windows_csv_row_parses() {
    let csv = "Node,Name,AdapterRAM\r\nVideo Controller,Intel(R) UHD Graphics,4294967296\r\n";
    assert_eq!(
        GpuInfo::windows_intel_parse(csv),
        Some(GpuInfo { gpu_usage: 0, vram_max: 4096, vram_used: 0 })
    );
}

#[test]
fn windows_csv_header_only_is_none() {
    assert_eq!(GpuInfo::windows_intel_parse("Node,Name,AdapterRAM\r\n"), None);
}

#[test]
fn windows_csv_skips_non_intel_rows() {
    let csv = "Node,Name,AdapterRAM\r\nVideo Controller,NVIDIA GeForce,8589934592\r\nVideo Controller,intel hd graphics,2147483648\r\n";
    assert_eq!(
        GpuInfo::windows_intel_parse(csv),
        Some(GpuInfo { gpu_usage: 0, vram_max: 2048, vram_used: 0 })
    );
}

#[test]
fn windows_csv_zero_or_bad_ram_is_none() {
    let csv = "Node,Name,AdapterRAM\r\nVideo Controller,Intel(R) UHD Graphics,0\r\n";
    assert_eq!(GpuInfo::windows_intel_parse(csv), None);
    let csv = "Node,Name,AdapterRAM\r\nVideo Controller,Intel(R) UHD Graphics,n/a\r\n";
    assert_eq!(GpuInfo::windows_intel_parse(csv), None);
}

#[test]
fn arch_token_check_trims() {
    assert!(GpuInfo::is_apple_silicon_arch("arm64\n"));
    assert!(GpuInfo::is_apple_silicon_arch("  arm64  "));
    assert!(!GpuInfo::is_apple_silicon_arch("x86_64\n"));
    assert!(!GpuInfo::is_apple_silicon_arch("arm64el\n"));
}

#[test]
fn linux_vendor_check() {
    assert!(GpuInfo::linux_vendor_is_intel("0x8086\n"));
    assert!(!GpuInfo::linux_vendor_is_intel("0x10de\n"));
    assert!(!GpuInfo::linux_vendor_is_intel(""));
}

#[test]
fn linux_vram_file_parses() {
    assert_eq!(
        GpuInfo::linux_intel_sample("8589934592\n"),
        Some(GpuInfo { gpu_usage: 0, vram_max: 8192, vram_used: 0 })
    );
    assert_eq!(GpuInfo::linux_intel_sample("not a number\n"), None);
    assert_eq!(GpuInfo::linux_intel_sample(""), None);
}

#[test]
fn nvidia_field_numeric_prefix() {
    assert_eq!(GpuInfo::nvidia_field_value("50 %"), Some(50));
    assert_eq!(GpuInfo::nvidia_field_value("8192 MiB"), Some(8192));
    assert_eq!(GpuInfo::nvidia_field_value("8192"), Some(8192));
    assert_eq!(GpuInfo::nvidia_field_value("N/A"), None);
    assert_eq!(GpuInfo::nvidia_field_value(""), None);
    assert_eq!(GpuInfo::nvidia_field_value("99999999999999999999999 MiB"), None);
}

#[test]
fn nvidia_fields_combine_only_when_all_parse() {
    assert_eq!(
        GpuInfo::from_nvidia_fields("50 %", "8192 MiB", "4096 MiB"),
        Some(GpuInfo { gpu_usage: 50, vram_max: 8192, vram_used: 4096 })
    );
    assert_eq!(GpuInfo::from_nvidia_fields("N/A", "8192 MiB", "4096 MiB"), None);
    assert_eq!(GpuInfo::from_nvidia_fields("50 %", "8192 MiB", "N/A"), None);
}
