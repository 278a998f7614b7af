//! The fixed-size telemetry record and its builder.
//!
//! The record's wire layout is fixed: 8-bit percentages (255 as the
//! "unavailable" sentinel), 16-bit fixed-point scaled magnitudes in tenths,
//! and 4-byte zero-padded unit labels.

use vstd::prelude::*;

use crate::gpu::GpuInfo;
use crate::units::{exp_of, scale_of, unit_bytes_spec, unit_label_spec};

verus! {

/// How many bytes one MiB holds.
pub const MIB_TO_BYTES: u64 = 0x100000;

/// Sum of a sequence of per-core readings.
pub open spec fn sum_of(s: Seq<u32>) -> int
    decreases s.len(),
{
    if s.len() == 0 {
        0
    } else {
        sum_of(s.drop_last()) + s.last()
    }
}

/// Truncating average of the per-core readings; 0 when there is no reading.
pub open spec fn avg_of(s: Seq<u32>) -> int {
    if s.len() == 0 {
        0
    } else {
        sum_of(s) / s.len() as int
    }
}

/// A usage percentage with the zero denominator guarded: a zero total is
/// "unknown" and maps to the sentinel 255; otherwise `used * 100 / total`,
/// truncated and saturated to 255.
pub open spec fn pct_of(used: int, total: int) -> int {
    if total <= 0 {
        255
    } else {
        let p = used * 100 / total;
        if p > 255 {
            255
        } else {
            p
        }
    }
}

/// One point-in-time telemetry record, byte-exact for the downstream
/// consumer.
#[derive(Clone, Debug, PartialEq, Eq)]
pub struct SystemInfo {
    pub cpu_usage: u8,
    pub ram_max: u16,
    pub ram_usage: u8,
    pub ram_unit: [u8; 4],
    pub gpu_usage: u8,
    pub vram_max: u16,
    pub vram_usage: u8,
    pub vram_unit: [u8; 4],
}

impl SystemInfo {
    /// The unit exponent of a magnitude for the given base: 4, 3, 2, 1 or 0,
    /// the largest power of the base the magnitude reaches. The base is
    /// bounded above so that `base^4` fits in `u64`.
    pub fn get_exp(num: u64, base: u64) -> (e: u32)
        requires
            base <= 65535,
        ensures
            e == exp_of(num, base),
            e <= 4,
    {
        proof {
            crate::units::lemma_pow4_bounds(base);
        }
        let p2: u64 = base * base;
        let p3: u64 = p2 * base;
        let p4: u64 = p3 * base;
        if num >= p4 {
            4
        } else if num >= p3 {
            3
        } else if num >= p2 {
            2
        } else if num >= base {
            1
        } else {
            0
        }
    }

    /// The label for a unit exponent, `"UB"` as the defensive fallback for an
    /// exponent outside `0..=4`.
    pub fn get_unit(exp: u32) -> (r: String)
        ensures
            r@ == unit_label_spec(exp),
    {
        let s: &str = match exp {
            0 => "B",
            1 => "KB",
            2 => "MB",
            3 => "GB",
            4 => "TB",
            _ => "UB",
        };
        s.to_owned()
    }

    /// The label for a unit exponent as the record's zero-padded 4-byte
    /// field.
    pub fn get_unit_bytes(exp: u32) -> (r: [u8; 4])
        ensures
            r@ == unit_bytes_spec(exp),
    {
        proof {
            reveal_strlit("B");
            reveal_strlit("KB");
            reveal_strlit("MB");
            reveal_strlit("GB");
            reveal_strlit("TB");
            reveal_strlit("UB");
        }
        let r: [u8; 4] = match exp {
            0 => [66, 0, 0, 0],
            1 => [75, 66, 0, 0],
            2 => [77, 66, 0, 0],
            3 => [71, 66, 0, 0],
            4 => [84, 66, 0, 0],
            _ => [85, 66, 0, 0],
        };
        assert(r@ =~= unit_bytes_spec(exp));
        r
    }

    /// The scaled fixed-point value of a magnitude for a chosen exponent:
    /// `magnitude / base^exp` in tenths, truncated, saturated to the 16-bit
    /// field. The base is bounded above so that `base^4` fits in `u64`, and
    /// a zero base is excluded because `base^exp` is the divisor.
    pub fn scale(magnitude: u64, exp: u32, base: u64) -> (r: u16)
        requires
            1 <= base <= 65535,
            exp <= 4,
        ensures
            r as int == scale_of(magnitude, exp, base),
    {
        proof {
            crate::units::lemma_pow4_bounds(base);
        }
        let d: u64 = match exp {
            0 => 1,
            1 => base,
            2 => base * base,
            3 => base * base * base,
            _ => base * base * base * base,
        };
        let q: u128 = (magnitude as u128) * 10 / (d as u128);
        if q > 65535 {
            65535
        } else {
            q as u16
        }
    }

    /// Folds the raw readings into the wire record: RAM and VRAM magnitudes
    /// are scaled independently with base 1024, usage percentages are
    /// computed with the zero-total guard, and a missing GPU sample yields
    /// the sentinel values (usage fields 255, scaled VRAM 0).
    pub fn build(cpu_usages: &Vec<u32>, ram_max: u64, ram_used: u64, gpu: Option<GpuInfo>) -> (r:
        SystemInfo)
        requires
            gpu matches Some(gi) ==> gi.vram_max * MIB_TO_BYTES <= u64::MAX,
        ensures
            r.cpu_usage == avg_of(cpu_usages@) % 256,
            r.ram_max == scale_of(ram_max, exp_of(ram_max, 1024), 1024),
            r.ram_usage == pct_of(ram_used as int, ram_max as int),
            r.ram_unit@ == unit_bytes_spec(exp_of(ram_max, 1024)),
            gpu matches Some(gi) ==> {
                let vb = gi.vram_max * MIB_TO_BYTES;
                &&& r.gpu_usage == gi.gpu_usage % 256
                &&& r.vram_max == scale_of(vb as u64, exp_of(vb as u64, 1024), 1024)
                &&& r.vram_usage == (if vb > 0 {
                    pct_of(gi.vram_used * MIB_TO_BYTES, vb)
                } else {
                    255int
                })
                &&& r.vram_unit@ == unit_bytes_spec(exp_of(vb as u64, 1024))
            },
            gpu is None ==> {
                &&& r.gpu_usage == 255
                &&& r.vram_max == 0
                &&& r.vram_usage == 255
                &&& r.vram_unit@ == unit_bytes_spec(0)
            },
    {
        let ram_exp = Self::get_exp(ram_max, 1024);

        let mut sum: u128 = 0;
        let mut i: usize = 0;
        while i < cpu_usages.len()
            invariant
                i <= cpu_usages.len(),
                sum == sum_of(cpu_usages@.take(i as int)),
                sum <= i * 0x1_0000_0000,
            decreases cpu_usages.len() - i,
        {
            proof {
                assert(cpu_usages@.take(i + 1).drop_last() =~= cpu_usages@.take(i as int));
            }
            sum = sum + cpu_usages[i] as u128;
            i = i + 1;
        }
        proof {
            assert(cpu_usages@.take(cpu_usages@.len() as int) =~= cpu_usages@);
        }
        let avg: u128 = if cpu_usages.len() == 0 {
            0
        } else {
            sum / cpu_usages.len() as u128
        };
        let cpu_usage: u8 = (avg % 256) as u8;

        let ram_usage: u8 = if ram_max == 0 {
            255
        } else {
            let p: u128 = (ram_used as u128) * 100 / (ram_max as u128);
            if p > 255 {
                255
            } else {
                p as u8
            }
        };

        match gpu {
            Some(gi) => {
                let vb: u64 = gi.vram_max * MIB_TO_BYTES;
                let vram_exp = Self::get_exp(vb, 1024);
                let vram_usage: u8 = if vb > 0 {
                    let p: u128 = (gi.vram_used as u128) * (MIB_TO_BYTES as u128) * 100 / (
                    vb as u128);
                    if p > 255 {
                        255
                    } else {
                        p as u8
                    }
                } else {
                    255
                };
                SystemInfo {
                    cpu_usage,
                    ram_max: Self::scale(ram_max, ram_exp, 1024),
                    ram_usage,
                    ram_unit: Self::get_unit_bytes(ram_exp),
                    gpu_usage: (gi.gpu_usage % 256) as u8,
                    vram_max: Self::scale(vb, vram_exp, 1024),
                    vram_usage,
                    vram_unit: Self::get_unit_bytes(vram_exp),
                }
            },
            None => {
                proof {
                    crate::units::lemma_pow4_bounds(1024);
                }
                SystemInfo {
                    cpu_usage,
                    ram_max: Self::scale(ram_max, ram_exp, 1024),
                    ram_usage,
                    ram_unit: Self::get_unit_bytes(ram_exp),
                    gpu_usage: 255,
                    vram_max: Self::scale(0, 0, 1024),
                    vram_usage: 255,
                    vram_unit: Self::get_unit_bytes(0),
                }
            },
        }
    }
}

} // verus!
