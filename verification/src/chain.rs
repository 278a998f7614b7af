//! The GPU discovery chain: an ordered list of probes tried one at a time,
//! stopping at the first success.
//!
//! Probes are not cheap — each spawns a process or walks a filesystem — so
//! the chain is driven lazily: the caller asks for the next probe to run,
//! performs its outside work, and reports the outcome back. A successful
//! probe short-circuits the chain; the probes after it are never requested.

use vstd::prelude::*;

use crate::gpu::GpuInfo;

verus! {

/// One vendor/OS-specific way to obtain a GPU sample.
#[derive(Clone, Copy, Debug, PartialEq, Eq, Structural)]
pub enum ProbeKind {
    Nvidia,
    AppleSilicon,
    AppleIntel,
    WindowsIntel,
    LinuxIntel,
}

/// The operating system family the discovery chain runs on.
#[derive(Clone, Copy, Debug, PartialEq, Eq, Structural)]
pub enum Platform {
    MacOs,
    Windows,
    Linux,
    Other,
}

/// The fixed probe order for a platform. The ordering encodes which vendor's
/// tooling is authoritative when several could match: Apple machines try the
/// Apple probes before legacy discrete NVIDIA hardware, everything else
/// tries NVIDIA before the integrated-Intel fallback.
pub open spec fn platform_order(p: Platform) -> Seq<ProbeKind> {
    match p {
        Platform::MacOs => seq![ProbeKind::AppleSilicon, ProbeKind::AppleIntel, ProbeKind::Nvidia],
        Platform::Windows => seq![ProbeKind::Nvidia, ProbeKind::WindowsIntel],
        Platform::Linux => seq![ProbeKind::Nvidia, ProbeKind::LinuxIntel],
        Platform::Other => seq![ProbeKind::Nvidia],
    }
}

/// The state of one discovery pass. No state persists across passes: a new
/// chain is built for every snapshot request.
pub struct DiscoveryChain {
    probes: Vec<ProbeKind>,
    pos: usize,
    found: Option<GpuInfo>,
}

impl DiscoveryChain {
    /// The probes not yet tried, next first; empty once a probe succeeded.
    pub closed spec fn pending(self) -> Seq<ProbeKind> {
        if self.found is Some {
            Seq::empty()
        } else {
            self.probes@.skip(self.pos as int)
        }
    }

    /// The sample delivered by the first successful probe, if any yet.
    pub closed spec fn found_spec(self) -> Option<GpuInfo> {
        self.found
    }

    pub closed spec fn wf(self) -> bool {
        self.pos <= self.probes@.len()
    }

    /// A fresh chain holding the platform's probes in priority order.
    pub fn new(platform: Platform) -> (c: DiscoveryChain)
        ensures
            c.wf(),
            c.found_spec() is None,
            c.pending() == platform_order(platform),
    {
        let mut probes: Vec<ProbeKind> = Vec::new();
        match platform {
            Platform::MacOs => {
                probes.push(ProbeKind::AppleSilicon);
                probes.push(ProbeKind::AppleIntel);
                probes.push(ProbeKind::Nvidia);
            },
            Platform::Windows => {
                probes.push(ProbeKind::Nvidia);
                probes.push(ProbeKind::WindowsIntel);
            },
            Platform::Linux => {
                probes.push(ProbeKind::Nvidia);
                probes.push(ProbeKind::LinuxIntel);
            },
            Platform::Other => {
                probes.push(ProbeKind::Nvidia);
            },
        }
        proof {
            assert(probes@ =~= platform_order(platform));
            assert(probes@.skip(0) =~= probes@);
        }
        DiscoveryChain { probes, pos: 0, found: Option::None }
    }

    /// The next probe to run: the head of the pending list, or nothing once
    /// a sample was found or every probe was tried.
    pub fn next_probe(&self) -> (r: Option<ProbeKind>)
        requires
            self.wf(),
        ensures
            r is Some <==> self.pending().len() > 0,
            r matches Some(k) ==> k == self.pending()[0],
    {
        match self.found {
            Option::Some(_) => Option::None,
            Option::None => {
                if self.pos < self.probes.len() {
                    Option::Some(self.probes[self.pos])
                } else {
                    Option::None
                }
            },
        }
    }

    /// Records the outcome of the probe just handed out. A successful probe
    /// short-circuits the chain: its sample is kept and no probe is pending
    /// afterwards, so the remaining probes are never requested. A failed
    /// probe is dropped from the pending list and discovery moves on.
    pub fn record(&mut self, result: Option<GpuInfo>)
        requires
            old(self).wf(),
            old(self).pending().len() > 0,
        ensures
            final(self).wf(),
            result matches Some(s) ==> final(self).found_spec() == Option::Some(s)
                && final(self).pending().len() == 0,
            result is None ==> final(self).found_spec() is None
                && final(self).pending() == old(self).pending().skip(1),
    {
        match result {
            Option::Some(_) => {
                self.found = result;
            },
            Option::None => {
                let n = self.probes.len();
                proof {
                    assert(old(self).pending() == old(self).probes@.skip(old(self).pos as int));
                    assert(old(self).pos < n);
                }
                self.pos = self.pos + 1;
                proof {
                    assert(self.probes@.skip(self.pos as int) =~= old(self).probes@.skip(
                        old(self).pos as int,
                    ).skip(1));
                }
            },
        }
    }

    /// The sample discovery has delivered so far: the first successful
    /// probe's, or nothing.
    pub fn result(&self) -> (r: Option<GpuInfo>)
        ensures
            r == self.found_spec(),
    {
        self.found
    }
}

} // verus!
