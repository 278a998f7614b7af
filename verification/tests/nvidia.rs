use hoststats::gpu::GpuInfo;
use hoststats::snapshot::SystemInfo;

fn sample_xml() -> String {
    "<?xml version=\"1.0\" ?>\n<nvidia_smi_log>\n  <driver_version>535.0</driver_version>\n  <gpu id=\"00000000:01:00.0\">\n    <utilization>\n      <gpu_util>50 %</gpu_util>\n      <memory_util>20 %</memory_util>\n    </utilization>\n    <fb_memory_usage>\n      <total>8192 MiB</total>\n      <reserved>100 MiB</reserved>\n      <used>4096 MiB</used>\n      <free>4096 MiB</free>\n    </fb_memory_usage>\n  </gpu>\n</nvidia_smi_log>\n"
    .to_string()
}

#[test]
fn nvidia_xml_yields_the_three_fields() {
    let parsed = GpuInfo::nvidia_parse_xml(&sample_xml());
    assert_eq!(
        parsed,
        Some(GpuInfo { gpu_usage: 50, vram_max: 8192, vram_used: 4096 })
    );
}

#[test]
fn nvidia_sample_gives_fifty_percent_vram_usage() {
    let gi = GpuInfo::nvidia_parse_xml(&sample_xml()).unwrap();
    let snapshot = SystemInfo::build(&vec![10, 20], 17179869184, 8589934592, Some(gi));
    assert_eq!(snapshot.gpu_usage, 50);
    assert_eq!(snapshot.vram_usage, 50);
    // 8192 MiB of VRAM is 8.0 GB on the wire.
    assert_eq!(snapshot.vram_max, 80);
    assert_eq!(&snapshot.vram_unit, b"GB\0\0");
}

#[test]
fn nvidia_xml_without_the_paths_is_none() {
    assert_eq!(GpuInfo::nvidia_parse_xml("<foo><bar>1</bar></foo>"), None);
    assert_eq!(GpuInfo::nvidia_parse_xml(""), None);
    assert_eq!(GpuInfo::nvidia_parse_xml("not xml at all"), None);
}

#[test]
fn nvidia_xml_with_unparseable_field_is_none() {
    let xml = "<nvidia_smi_log><gpu><utilization><gpu_util>N/A</gpu_util></utilization><fb_memory_usage><total>8192 MiB</total><used>4096 MiB</used></fb_memory_usage></gpu></nvidia_smi_log>";
    assert_eq!(GpuInfo::nvidia_parse_xml(xml), None);
}
