use alpamayo::inspector::{human, parse_agg_prop, waste, Totals};

/// The same size by way of floating point numbers.
fn by_float(bytes: u64) -> String {
    let units = ["B", "KB", "MB", "GB", "TB"];
    let mut size = bytes as f64;
    let mut unit = 0;
    while size >= 1024.0 && unit < units.len() - 1 {
        size /= 1024.0;
        unit += 1;
    }
    format!("{size:.2} {}", units[unit])
}

#[test]
fn sizes_are_shown() {
    assert_eq!(human(0), "0.00 B");
    assert_eq!(human(1), "1.00 B");
    assert_eq!(human(1023), "1023.00 B");
    assert_eq!(human(1024), "1.00 KB");
    assert_eq!(human(1536), "1.50 KB");
    assert_eq!(human(1024 * 1024), "1.00 MB");
    assert_eq!(human(1024 * 1024 - 1), "1024.00 KB");
    assert_eq!(human(5 * 1024 * 1024 * 1024), "5.00 GB");
    assert_eq!(human(1 << 40), "1.00 TB");
    assert_eq!(human(u64::MAX), "16777216.00 TB");
}

#[test]
fn halves_go_to_the_even_hundredth() {
    assert_eq!(human(1024 + 128), "1.12 KB");
    assert_eq!(human(1024 + 384), "1.38 KB");
    assert_eq!(human(1024 + 640), "1.62 KB");
    assert_eq!(human(1024 + 896), "1.88 KB");
}

#[test]
fn sizes_are_those_of_floating_point_numbers() {
    let mut n: u64 = 1;
    for i in 0..64u32 {
        for delta in [0u64, 1, 2, 3, 127, 128, 129, 511, 512, 513, 1023] {
            let around = (1u64 << i).wrapping_add(delta);
            assert_eq!(human(around), by_float(around), "{around}");
            let below = (1u64 << i).saturating_sub(delta);
            assert_eq!(human(below), by_float(below), "{below}");
        }
    }
    for _ in 0..2000 {
        n = n.wrapping_mul(6364136223846793005).wrapping_add(1442695040888963407);
        let m = n >> (n % 64);
        assert_eq!(human(m), by_float(m), "{m}");
    }
}

#[test]
fn shown_sizes_are_close() {
    // 1.005 KB, which is off by less than half a hundredth.
    assert_eq!(human(1029), "1.00 KB");
    assert_eq!(human(1030), "1.01 KB");
}

#[test]
fn properties_are_found() {
    let props = "# data blocks=3; # entries=100; # deletions=17; # merge operands=0;";
    assert_eq!(parse_agg_prop(props, "# deletions"), 17);
    assert_eq!(parse_agg_prop(props, "# entries"), 100);
    assert_eq!(parse_agg_prop(props, "# missing"), 0);
    assert_eq!(parse_agg_prop("", "# deletions"), 0);
}

#[test]
fn properties_are_read_leniently() {
    assert_eq!(parse_agg_prop("  # deletions ==  12 ;x", "# deletions"), 0);
    assert_eq!(parse_agg_prop("  # deletions==  12 ;x", "# deletions"), 12);
    assert_eq!(parse_agg_prop("# deletions 12", "# deletions"), 12);
    assert_eq!(parse_agg_prop("# deletions=x;# deletions=5", "# deletions"), 5);
    assert_eq!(parse_agg_prop("# deletions=1;# deletions=5", "# deletions"), 1);
    assert_eq!(parse_agg_prop("# deletions=-1", "# deletions"), 0);
}

#[test]
fn totals_add_up() {
    let mut totals = Totals::new();
    totals.add_part(100, 60, 3, 7);
    totals.add_part(20, 50, 1, 0);
    assert_eq!(totals, Totals { sst: 120, live: 110, tombstones: 4, pending: 7 });
    assert_eq!(totals.waste(), 10);
    assert_eq!(waste(5, 9), 0);
    assert_eq!(waste(9, 5), 4);
}
