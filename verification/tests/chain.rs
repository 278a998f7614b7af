use hoststats::chain::{DiscoveryChain, Platform, ProbeKind};
use hoststats::gpu::GpuInfo;

#[test]
fn first_success_short_circuits() {
    // Probe 1 is stubbed to succeed; count how many probes the chain asks
    // for: probe 2 must never be requested.
    let sample = GpuInfo { gpu_usage: 7, vram_max: 100, vram_used: 50 };
    let mut chain = DiscoveryChain::new(Platform::Linux);
    let mut requested = 0;
    while let Some(_kind) = chain.next_probe() {
        requested += 1;
        chain.record(Some(sample));
    }
    assert_eq!(requested, 1);
    assert_eq!(chain.result(), Some(sample));
    assert_eq!(chain.next_probe(), None);
}

#[test]
fn failed_probe_falls_through_to_the_next() {
    // On a platform where NVIDIA precedes Intel, a failing NVIDIA tool makes
    // discovery move on to the Intel probe.
    let mut chain = DiscoveryChain::new(Platform::Linux);
    assert_eq!(chain.next_probe(), Some(ProbeKind::Nvidia));
    chain.record(None);
    assert_eq!(chain.next_probe(), Some(ProbeKind::LinuxIntel));
    chain.record(None);
    assert_eq!(chain.next_probe(), None);
    assert_eq!(chain.result(), None);
}

#[test]
fn macos_probe_order() {
    let mut chain = DiscoveryChain::new(Platform::MacOs);
    let mut order = Vec::new();
    while let Some(kind) = chain.next_probe() {
        order.push(kind);
        chain.record(None);
    }
    assert_eq!(
        order,
        vec![ProbeKind::AppleSilicon, ProbeKind::AppleIntel, ProbeKind::Nvidia]
    );
    assert_eq!(chain.result(), None);
}

#[test]
fn windows_probe_order() {
    let mut chain = DiscoveryChain::new(Platform::Windows);
    assert_eq!(chain.next_probe(), Some(ProbeKind::Nvidia));
    chain.record(None);
    assert_eq!(chain.next_probe(), Some(ProbeKind::WindowsIntel));
}

#[test]
fn other_platforms_only_try_nvidia() {
    let mut chain = DiscoveryChain::new(Platform::Other);
    assert_eq!(chain.next_probe(), Some(ProbeKind::Nvidia));
    chain.record(None);
    assert_eq!(chain.next_probe(), None);
}

#[test]
fn success_on_a_later_probe_is_kept() {
    let sample = GpuInfo { gpu_usage: 0, vram_max: 2048, vram_used: 0 };
    let mut chain = DiscoveryChain::new(Platform::Windows);
    chain.record(None);
    assert_eq!(chain.next_probe(), Some(ProbeKind::WindowsIntel));
    chain.record(Some(sample));
    assert_eq!(chain.next_probe(), None);
    assert_eq!(chain.result(), Some(sample));
}
