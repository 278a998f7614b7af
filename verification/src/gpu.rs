//! The internal representation of one GPU discovery result, and the verified
//! parsers for the probe tools' text output.
//!
//! Each probe runs a diagnostic program (or reads a file) and hands the
//! captured text to one of the parsers here. The formats have no stable
//! schema, so the parsers are deliberate best-effort heuristics: every
//! failure mode collapses to "this probe found nothing".

use vstd::prelude::*;
use vstd::string::StringSliceAdditionalSpecFns;

use crate::snapshot::MIB_TO_BYTES;
use crate::text::{
    contains_sub, digit_run_end, digits_parse, find_byte, find_byte_from, find_digit_run_end,
    find_sub, first_match_from, has_match, lines_spec, lower_range, lower_seq, parse_digits,
    parse_unsigned, range_eq, split_lines, strip_byte_hi, strip_byte_lo, strip_hi, strip_lo,
    trim_hi, trim_lo, trim_range, u64_parse,
};

verus! {

/// A single GPU sample as reported by whichever probe succeeded:
/// a vendor-reported utilization percentage (0 if the source cannot
/// measure it) and VRAM capacity/usage in MiB.
#[derive(Clone, Copy, Debug, PartialEq, Eq, Structural)]
pub struct GpuInfo {
    pub gpu_usage: u64,
    pub vram_max: u64,
    pub vram_used: u64,
}

/// What scanning a registry-dump line for `key` yields: from a fixed offset
/// past the first occurrence of the key, the value of the contiguous digit
/// run that ends before the end of the line. Anything else — key absent,
/// offset out of range, no digit terminator, empty run, overflow — yields
/// nothing.
pub open spec fn ioreg_number_spec(line: Seq<u8>, key: Seq<u8>, offset: int) -> Option<u64> {
    match first_match_from(line, key, 0) {
        Option::None => Option::None,
        Option::Some(start) => {
            let p = start + offset;
            if !(0 <= p <= line.len()) {
                Option::None
            } else {
                let e = digit_run_end(line, p);
                if e >= line.len() {
                    Option::None
                } else {
                    digits_parse(line.subrange(p, e))
                }
            }
        },
    }
}

/// A line that marks an Apple-branded accelerator device.
pub open spec fn agx_marker_line(l: Seq<u8>) -> bool {
    has_match(l, "AGXAccelerator".spec_bytes()) || has_match(l, "\"model\" = \"Apple".spec_bytes())
}

/// A line carrying the accelerator's performance-statistics block.
pub open spec fn perf_stats_line(l: Seq<u8>) -> bool {
    has_match(l, "\"PerformanceStatistics\"".spec_bytes())
}

/// One line's effect on the Apple-Silicon scan state
/// `(is_apple, gpu_usage, vram_used, vram_max)`: marker lines set the flag,
/// and a performance-statistics line overwrites whichever of the three
/// numeric fields it carries (memory fields converted from bytes to MiB).
pub open spec fn apple_step(st: (bool, u64, u64, u64), l: Seq<u8>) -> (bool, u64, u64, u64) {
    let apple = st.0 || agx_marker_line(l);
    if perf_stats_line(l) {
        let usage = match ioreg_number_spec(l, "\"Device Utilization %\"=".spec_bytes(), 23) {
            Option::Some(u) => u,
            Option::None => st.1,
        };
        let used = match ioreg_number_spec(l, "\"In use system memory\"=".spec_bytes(), 23) {
            Option::Some(m) => (m / MIB_TO_BYTES) as u64,
            Option::None => st.2,
        };
        let max = match ioreg_number_spec(l, "\"Alloc system memory\"=".spec_bytes(), 22) {
            Option::Some(m) => (m / MIB_TO_BYTES) as u64,
            Option::None => st.3,
        };
        (apple, usage, used, max)
    } else {
        (apple, st.1, st.2, st.3)
    }
}

/// The Apple-Silicon scan state after the given lines.
pub open spec fn apple_fold(lines: Seq<Seq<u8>>) -> (bool, u64, u64, u64)
    decreases lines.len(),
{
    if lines.len() == 0 {
        (false, 0u64, 0u64, 0u64)
    } else {
        apple_step(apple_fold(lines.drop_last()), lines.last())
    }
}

/// What the Apple-Silicon probe makes of a full registry dump: the scanned
/// fields, but only when some line marked the device as an Apple GPU.
pub open spec fn apple_silicon_spec(dump: Seq<u8>) -> Option<GpuInfo> {
    let st = apple_fold(lines_spec(dump));
    if st.0 {
        Option::Some(GpuInfo { gpu_usage: st.1, vram_max: st.3, vram_used: st.2 })
    } else {
        Option::None
    }
}

/// A line that marks an Intel accelerator in an Apple registry dump.
pub open spec fn intel_marker_line(l: Seq<u8>) -> bool {
    has_match(l, "\"IOClass\" = \"IntelAccelerator\"".spec_bytes()) || has_match(
        l,
        "\"model\" = <\"Intel".spec_bytes(),
    )
}

/// A line carrying the `VRAM,totalMB` key.
pub open spec fn vram_key_line(l: Seq<u8>) -> bool {
    has_match(l, "\"VRAM,totalMB\"".spec_bytes())
}

/// The integer following the `=` sign of a `VRAM,totalMB` line, unwrapped
/// from angle brackets and whitespace.
pub open spec fn vram_total_value(l: Seq<u8>) -> Option<u64> {
    let eq = find_byte_from(l, 0, 0x3d);
    if eq >= l.len() {
        Option::None
    } else {
        let lo = trim_lo(l, eq + 1, l.len() as int);
        let hi = trim_hi(l, lo, l.len() as int);
        let a = strip_lo(l, lo, hi, 0x3c);
        let b = strip_hi(l, a, hi, 0x3e);
        let lo2 = trim_lo(l, a, b);
        let hi2 = trim_hi(l, lo2, b);
        u64_parse(l.subrange(lo2, hi2))
    }
}

/// One line's effect on the Apple-Intel scan state `(is_intel, vram_max)`.
pub open spec fn apple_intel_step(st: (bool, u64), l: Seq<u8>) -> (bool, u64) {
    let intel = st.0 || intel_marker_line(l);
    if vram_key_line(l) {
        match vram_total_value(l) {
            Option::Some(v) => (intel, v),
            Option::None => (intel, st.1),
        }
    } else {
        (intel, st.1)
    }
}

/// The Apple-Intel scan state after the given lines.
pub open spec fn apple_intel_fold(lines: Seq<Seq<u8>>) -> (bool, u64)
    decreases lines.len(),
{
    if lines.len() == 0 {
        (false, 0u64)
    } else {
        apple_intel_step(apple_intel_fold(lines.drop_last()), lines.last())
    }
}

/// What the Apple-Intel probe makes of a registry dump: a sample only when
/// an Intel marker appeared and a nonzero VRAM total was found; usage fields
/// are not measurable from this source and report zero.
pub open spec fn apple_intel_spec(dump: Seq<u8>) -> Option<GpuInfo> {
    let st = apple_intel_fold(lines_spec(dump));
    if st.0 && st.1 > 0 {
        Option::Some(GpuInfo { gpu_usage: 0, vram_max: st.1, vram_used: 0 })
    } else {
        Option::None
    }
}

/// What one CSV data row of the video-controller query yields: the row's
/// columns are `(class, name, adapter-RAM)`; when the name column holds
/// "intel" in any case and the RAM column parses to a positive byte count,
/// the RAM converted to MiB.
pub open spec fn win_row_value(l: Seq<u8>) -> Option<u64> {
    let c1 = find_byte_from(l, 0, 0x2c);
    if c1 >= l.len() {
        Option::None
    } else {
        let c2 = find_byte_from(l, c1 + 1, 0x2c);
        if c2 >= l.len() {
            Option::None
        } else {
            if has_match(lower_seq(l.subrange(c1 + 1, c2)), "intel".spec_bytes()) {
                let c3 = find_byte_from(l, c2 + 1, 0x2c);
                let lo = trim_lo(l, c2 + 1, c3);
                let hi = trim_hi(l, lo, c3);
                match u64_parse(l.subrange(lo, hi)) {
                    Option::Some(ram) => if ram > 0 {
                        Option::Some((ram / MIB_TO_BYTES) as u64)
                    } else {
                        Option::None
                    },
                    Option::None => Option::None,
                }
            } else {
                Option::None
            }
        }
    }
}

/// The first data row from index `i` on that yields a value.
pub open spec fn win_scan(lines: Seq<Seq<u8>>, i: int) -> Option<u64>
    decreases lines.len() - i,
{
    if i < 0 || i >= lines.len() {
        Option::None
    } else {
        match win_row_value(lines[i]) {
            Option::Some(v) => Option::Some(v),
            Option::None => win_scan(lines, i + 1),
        }
    }
}

/// What the Windows-Intel probe makes of the CSV output: the header row is
/// skipped, and the first intel-named row with a positive RAM value wins.
pub open spec fn windows_intel_spec(csv: Seq<u8>) -> Option<GpuInfo> {
    match win_scan(lines_spec(csv), 1) {
        Option::Some(v) => Option::Some(GpuInfo { gpu_usage: 0, vram_max: v, vram_used: 0 }),
        Option::None => Option::None,
    }
}

/// `s` with ASCII whitespace trimmed from both ends.
pub open spec fn trimmed_range(s: Seq<u8>) -> Seq<u8> {
    let lo = trim_lo(s, 0, s.len() as int);
    let hi = trim_hi(s, lo, s.len() as int);
    s.subrange(lo, hi)
}

/// What the Linux-Intel probe makes of the VRAM-total file: its trimmed
/// contents parsed as a byte count, converted to MiB; usage fields are not
/// measurable from this source and report zero.
pub open spec fn linux_vram_spec(contents: Seq<u8>) -> Option<GpuInfo> {
    match u64_parse(trimmed_range(contents)) {
        Option::Some(bytes) => Option::Some(
            GpuInfo { gpu_usage: 0, vram_max: (bytes / MIB_TO_BYTES) as u64, vram_used: 0 },
        ),
        Option::None => Option::None,
    }
}

/// The numeric prefix of one extracted diagnostic field, with any trailing
/// unit text (`" %"`, `" MiB"`) ignored.
pub open spec fn nvidia_field_spec(s: Seq<u8>) -> Option<u64> {
    digits_parse(s.subrange(0, digit_run_end(s, 0)))
}

/// What the three extracted NVIDIA fields combine to: a sample exactly when
/// every field has a parseable numeric prefix.
pub open spec fn nvidia_sample_spec(u: Seq<u8>, t: Seq<u8>, m: Seq<u8>) -> Option<GpuInfo> {
    match (nvidia_field_spec(u), nvidia_field_spec(t), nvidia_field_spec(m)) {
        (Option::Some(gu), Option::Some(vt), Option::Some(vu)) => Option::Some(
            GpuInfo { gpu_usage: gu, vram_max: vt, vram_used: vu },
        ),
        _ => Option::None,
    }
}

impl GpuInfo {
    /// Scans `line` for `key` and reads the decimal digit run found `offset`
    /// bytes past the key's first occurrence. A best-effort heuristic for
    /// registry-dump lines, which have no stable schema.
    pub fn parse_ioreg_number(line: &str, key: &str, offset: usize) -> (r: Option<u64>)
        ensures
            r == ioreg_number_spec(line.spec_bytes(), key.spec_bytes(), offset as int),
    {
        Self::ioreg_number_bytes(line.as_bytes(), key.as_bytes(), offset)
    }

    /// Byte-level worker behind [`GpuInfo::parse_ioreg_number`].
    pub fn ioreg_number_bytes(line: &[u8], key: &[u8], offset: usize) -> (r: Option<u64>)
        ensures
            r == ioreg_number_spec(line@, key@, offset as int),
    {
        match find_sub(line, key) {
            Option::None => Option::None,
            Option::Some(start) => {
                proof {
                    crate::text::lemma_first_match_from(line@, key@, 0);
                }
                if offset > line.len() - start {
                    Option::None
                } else {
                    let p = start + offset;
                    let e = find_digit_run_end(line, p);
                    if e == line.len() {
                        Option::None
                    } else {
                        parse_digits(line, p, e)
                    }
                }
            },
        }
    }

    /// Scans an accelerator registry dump for an Apple GPU: marker lines set
    /// the Apple flag, and the performance-statistics block supplies
    /// utilization and memory figures (bytes converted to MiB). Yields
    /// nothing unless the Apple marker appeared.
    pub fn apple_silicon_parse(dump: &str) -> (r: Option<GpuInfo>)
        ensures
            r == apple_silicon_spec(dump.spec_bytes()),
    {
        let bytes = dump.as_bytes();
        let lines = split_lines(bytes);
        let ghost lseq = lines_spec(dump.spec_bytes());
        let mut is_apple = false;
        let mut gpu_usage: u64 = 0;
        let mut vram_used: u64 = 0;
        let mut vram_max: u64 = 0;
        let mut i: usize = 0;
        proof {
            assert(lseq.take(0) =~= Seq::<Seq<u8>>::empty());
        }
        while i < lines.len()
            invariant
                i <= lines@.len(),
                lines@.map_values(|l: Vec<u8>| l@) == lseq,
                (is_apple, gpu_usage, vram_used, vram_max) == apple_fold(lseq.take(i as int)),
            decreases lines@.len() - i,
        {
            let ghost prev = apple_fold(lseq.take(i as int));
            let line: &Vec<u8> = &lines[i];
            proof {
                assert(lseq[i as int] == lines@.map_values(|l: Vec<u8>| l@)[i as int]);
                assert(line@ == lseq[i as int]);
                assert(lseq.take(i + 1).drop_last() =~= lseq.take(i as int));
                assert(lseq.take(i + 1).last() == lseq[i as int]);
            }
            if contains_sub(line.as_slice(), "AGXAccelerator".as_bytes()) || contains_sub(
                line.as_slice(),
                "\"model\" = \"Apple".as_bytes(),
            ) {
                is_apple = true;
            }
            if contains_sub(line.as_slice(), "\"PerformanceStatistics\"".as_bytes()) {
                match Self::ioreg_number_bytes(
                    line.as_slice(),
                    "\"Device Utilization %\"=".as_bytes(),
                    23,
                ) {
                    Option::Some(u) => {
                        gpu_usage = u;
                    },
                    Option::None => {},
                }
                match Self::ioreg_number_bytes(
                    line.as_slice(),
                    "\"In use system memory\"=".as_bytes(),
                    23,
                ) {
                    Option::Some(m) => {
                        vram_used = m / MIB_TO_BYTES;
                    },
                    Option::None => {},
                }
                match Self::ioreg_number_bytes(
                    line.as_slice(),
                    "\"Alloc system memory\"=".as_bytes(),
                    22,
                ) {
                    Option::Some(m) => {
                        vram_max = m / MIB_TO_BYTES;
                    },
                    Option::None => {},
                }
            }
            proof {
                assert((is_apple, gpu_usage, vram_used, vram_max) == apple_step(
                    prev,
                    lseq[i as int],
                ));
            }
            i = i + 1;
        }
        proof {
            assert(lseq.take(i as int) =~= lseq);
        }
        if is_apple {
            Option::Some(GpuInfo { gpu_usage, vram_max, vram_used })
        } else {
            Option::None
        }
    }

    /// Reads the integer after the `=` sign of a `VRAM,totalMB` line.
    pub fn vram_value_bytes(l: &[u8]) -> (r: Option<u64>)
        ensures
            r == vram_total_value(l@),
    {
        let eq = find_byte(l, 0, 0x3d);
        if eq == l.len() {
            return Option::None;
        }
        let (lo, hi) = trim_range(l, eq + 1, l.len());
        let a = strip_byte_lo(l, lo, hi, 0x3c);
        let b = strip_byte_hi(l, a, hi, 0x3e);
        let (lo2, hi2) = trim_range(l, a, b);
        parse_unsigned(l, lo2, hi2)
    }

    /// Scans an accelerator registry dump for an Intel GPU: marker lines set
    /// the Intel flag and the `VRAM,totalMB` key supplies the capacity.
    /// Yields nothing unless the Intel marker appeared and the capacity is
    /// nonzero.
    pub fn apple_intel_parse(dump: &str) -> (r: Option<GpuInfo>)
        ensures
            r == apple_intel_spec(dump.spec_bytes()),
    {
        let bytes = dump.as_bytes();
        let lines = split_lines(bytes);
        let ghost lseq = lines_spec(dump.spec_bytes());
        let mut is_intel = false;
        let mut vram_max: u64 = 0;
        let mut i: usize = 0;
        proof {
            assert(lseq.take(0) =~= Seq::<Seq<u8>>::empty());
        }
        while i < lines.len()
            invariant
                i <= lines@.len(),
                lines@.map_values(|l: Vec<u8>| l@) == lseq,
                (is_intel, vram_max) == apple_intel_fold(lseq.take(i as int)),
            decreases lines@.len() - i,
        {
            let ghost prev = apple_intel_fold(lseq.take(i as int));
            let line: &Vec<u8> = &lines[i];
            proof {
                assert(lseq[i as int] == lines@.map_values(|l: Vec<u8>| l@)[i as int]);
                assert(line@ == lseq[i as int]);
                assert(lseq.take(i + 1).drop_last() =~= lseq.take(i as int));
                assert(lseq.take(i + 1).last() == lseq[i as int]);
            }
            if contains_sub(line.as_slice(), "\"IOClass\" = \"IntelAccelerator\"".as_bytes())
                || contains_sub(line.as_slice(), "\"model\" = <\"Intel".as_bytes()) {
                is_intel = true;
            }
            if contains_sub(line.as_slice(), "\"VRAM,totalMB\"".as_bytes()) {
                match Self::vram_value_bytes(line.as_slice()) {
                    Option::Some(v) => {
                        vram_max = v;
                    },
                    Option::None => {},
                }
            }
            proof {
                assert((is_intel, vram_max) == apple_intel_step(prev, lseq[i as int]));
            }
            i = i + 1;
        }
        proof {
            assert(lseq.take(i as int) =~= lseq);
        }
        if is_intel && vram_max > 0 {
            Option::Some(GpuInfo { gpu_usage: 0, vram_max, vram_used: 0 })
        } else {
            Option::None
        }
    }

    /// Evaluates one CSV data row of the video-controller query.
    pub fn win_row_value_bytes(l: &[u8]) -> (r: Option<u64>)
        ensures
            r == win_row_value(l@),
    {
        let c1 = find_byte(l, 0, 0x2c);
        if c1 == l.len() {
            return Option::None;
        }
        let c2 = find_byte(l, c1 + 1, 0x2c);
        if c2 == l.len() {
            return Option::None;
        }
        let name_low = lower_range(l, c1 + 1, c2);
        if contains_sub(name_low.as_slice(), "intel".as_bytes()) {
            let c3 = find_byte(l, c2 + 1, 0x2c);
            let (lo, hi) = trim_range(l, c2 + 1, c3);
            match parse_unsigned(l, lo, hi) {
                Option::Some(ram) => {
                    if ram > 0 {
                        Option::Some(ram / MIB_TO_BYTES)
                    } else {
                        Option::None
                    }
                },
                Option::None => Option::None,
            }
        } else {
            Option::None
        }
    }

    /// Scans the CSV output of the video-controller query: skips the header
    /// row and returns on the first intel-named row with a positive adapter
    /// RAM value.
    pub fn windows_intel_parse(csv: &str) -> (r: Option<GpuInfo>)
        ensures
            r == windows_intel_spec(csv.spec_bytes()),
    {
        let bytes = csv.as_bytes();
        let lines = split_lines(bytes);
        let ghost lseq = lines_spec(csv.spec_bytes());
        if lines.len() <= 1 {
            return Option::None;
        }
        let mut i: usize = 1;
        while i < lines.len()
            invariant
                1 <= i <= lines@.len(),
                lseq == lines_spec(csv.spec_bytes()),
                lines@.map_values(|l: Vec<u8>| l@) == lseq,
                win_scan(lseq, 1) == win_scan(lseq, i as int),
            decreases lines@.len() - i,
        {
            let line: &Vec<u8> = &lines[i];
            proof {
                assert(lseq[i as int] == lines@.map_values(|l: Vec<u8>| l@)[i as int]);
                assert(line@ == lseq[i as int]);
            }
            match Self::win_row_value_bytes(line.as_slice()) {
                Option::Some(v) => {
                    proof {
                        assert(win_scan(lseq, i as int) == Option::Some(v));
                    }
                    return Option::Some(GpuInfo { gpu_usage: 0, vram_max: v, vram_used: 0 });
                },
                Option::None => {
                    proof {
                        assert(win_scan(lseq, i as int) == win_scan(lseq, i + 1));
                    }
                },
            }
            i = i + 1;
        }
        Option::None
    }

    /// Whether the reported machine architecture, trimmed, is the
    /// Apple-Silicon token.
    pub fn is_apple_silicon_arch(arch: &str) -> (r: bool)
        ensures
            r == (trimmed_range(arch.spec_bytes()) == "arm64".spec_bytes()),
    {
        let b = arch.as_bytes();
        let (lo, hi) = trim_range(b, 0, b.len());
        range_eq(b, lo, hi, "arm64".as_bytes())
    }

    /// Whether a DRM device's vendor-ID file, trimmed, holds the Intel PCI
    /// vendor id.
    pub fn linux_vendor_is_intel(vendor: &str) -> (r: bool)
        ensures
            r == (trimmed_range(vendor.spec_bytes()) == "0x8086".spec_bytes()),
    {
        let b = vendor.as_bytes();
        let (lo, hi) = trim_range(b, 0, b.len());
        range_eq(b, lo, hi, "0x8086".as_bytes())
    }

    /// Parses the VRAM-total file of a matched Intel DRM device.
    pub fn linux_intel_sample(contents: &str) -> (r: Option<GpuInfo>)
        ensures
            r == linux_vram_spec(contents.spec_bytes()),
    {
        let b = contents.as_bytes();
        let (lo, hi) = trim_range(b, 0, b.len());
        match parse_unsigned(b, lo, hi) {
            Option::Some(bytes) => Option::Some(
                GpuInfo { gpu_usage: 0, vram_max: bytes / MIB_TO_BYTES, vram_used: 0 },
            ),
            Option::None => Option::None,
        }
    }

    /// The numeric prefix of one extracted NVIDIA diagnostic field.
    pub fn nvidia_field_value(s: &str) -> (r: Option<u64>)
        ensures
            r == nvidia_field_spec(s.spec_bytes()),
    {
        let b = s.as_bytes();
        let e = find_digit_run_end(b, 0);
        parse_digits(b, 0, e)
    }

    /// Combines the three extracted NVIDIA fields into a sample; every field
    /// must have a parseable numeric prefix.
    pub fn from_nvidia_fields(util: &str, total: &str, used: &str) -> (r: Option<GpuInfo>)
        ensures
            r == nvidia_sample_spec(util.spec_bytes(), total.spec_bytes(), used.spec_bytes()),
    {
        let gu = Self::nvidia_field_value(util);
        let vt = Self::nvidia_field_value(total);
        let vu = Self::nvidia_field_value(used);
        match (gu, vt, vu) {
            (Option::Some(gu), Option::Some(vt), Option::Some(vu)) => Option::Some(
                GpuInfo { gpu_usage: gu, vram_max: vt, vram_used: vu },
            ),
            _ => Option::None,
        }
    }
}

} // verus!
