use hoststats::snapshot::SystemInfo;

#[test]
fn exponent_of_zero_is_zero() {
    assert_eq!(SystemInfo::get_exp(0, 1024), 0);
}

#[test]
fn exponent_is_monotone_on_samples() {
    let samples: [u64; 12] = [
        0,
        1,
        1023,
        1024,
        1025,
        1024 * 1024 - 1,
        1024 * 1024,
        1024 * 1024 * 1024,
        17179869184,
        1099511627776,
        1125899906842624,
        u64::MAX,
    ];
    let mut prev = SystemInfo::get_exp(samples[0], 1024);
    for &m in samples.iter().skip(1) {
        let e = SystemInfo::get_exp(m, 1024);
        assert!(e >= prev, "exponent decreased at magnitude {}", m);
        prev = e;
    }
}

#[test]
fn sixteen_gib_scales_to_gb() {
    let m: u64 = 17179869184;
    let e = SystemInfo::get_exp(m, 1024);
    assert_eq!(e, 3);
    assert_eq!(SystemInfo::scale(m, e, 1024), 160);
    assert_eq!(SystemInfo::get_unit(e), "GB");
}

#[test]
fn exact_base_boundary_resolves_upward() {
    assert_eq!(SystemInfo::get_exp(1024, 1024), 1);
    assert_eq!(SystemInfo::get_exp(1023, 1024), 0);
}

#[test]
fn unit_labels() {
    assert_eq!(SystemInfo::get_unit(0), "B");
    assert_eq!(SystemInfo::get_unit(1), "KB");
    assert_eq!(SystemInfo::get_unit(2), "MB");
    assert_eq!(SystemInfo::get_unit(3), "GB");
    assert_eq!(SystemInfo::get_unit(4), "TB");
    assert_eq!(SystemInfo::get_unit(5), "UB");
    assert_eq!(SystemInfo::get_unit(u32::MAX), "UB");
}

#[test]
fn unit_bytes_are_zero_padded() {
    assert_eq!(SystemInfo::get_unit_bytes(0), [b'B', 0, 0, 0]);
    assert_eq!(SystemInfo::get_unit_bytes(3), [b'G', b'B', 0, 0]);
    assert_eq!(SystemInfo::get_unit_bytes(9), [b'U', b'B', 0, 0]);
}

#[test]
fn scale_stays_in_fixed_point_range_below_ceiling() {
    let just_below: u64 = (1u64 << 50) - 1;
    let e = SystemInfo::get_exp(just_below, 1024);
    assert_eq!(e, 4);
    let s = SystemInfo::scale(just_below, e, 1024);
    assert!(s < 10240);
    assert_eq!(s, 10239);

    for &m in &[0u64, 1, 1023, 1024, 1048576, 17179869184, 1u64 << 40, (1u64 << 50) - 7] {
        let e = SystemInfo::get_exp(m, 1024);
        let s = SystemInfo::scale(m, e, 1024);
        assert!(s < 10240, "scale out of range for magnitude {}", m);
    }
}

#[test]
fn scale_truncates_tenths() {
    // 1536 bytes with exponent 1 is 1.5 KB, encoded as 15 tenths.
    assert_eq!(SystemInfo::scale(1536, 1, 1024), 15);
    // 1025 bytes is 1.0009... KB; the tenths are truncated, not rounded.
    assert_eq!(SystemInfo::scale(1025, 1, 1024), 10);
    assert_eq!(SystemInfo::scale(0, 0, 1024), 0);
}

#[test]
fn degenerate_bases_are_total() {
    // Base 1 makes every power 1: any positive magnitude reaches the top
    // exponent and scaling only multiplies by ten.
    assert_eq!(SystemInfo::get_exp(0, 1), 0);
    assert_eq!(SystemInfo::get_exp(5, 1), 4);
    assert_eq!(SystemInfo::get_exp(0, 0), 4);
    assert_eq!(SystemInfo::scale(100, 2, 1), 1000);
}

#[test]
fn scale_saturates_the_wire_field() {
    // An exponent far below the magnitude's own overflows the 16-bit field.
    assert_eq!(SystemInfo::scale(u64::MAX, 0, 1024), u16::MAX);
}
