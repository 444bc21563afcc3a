use register_poller::{build_ranges, coalesce_addresses, parse_address, AddressRange, ConfigError};

fn range(start: u16, count: u32) -> AddressRange {
    AddressRange { start, count }
}

fn entries(keys: &[&str]) -> Vec<(String, Option<String>)> {
    keys.iter().map(|k| (k.to_string(), Some(format!("reg{}", k)))).collect()
}

fn covered(rs: &[AddressRange], a: u32) -> bool {
    rs.iter().any(|r| r.start as u32 <= a && a < r.start as u32 + r.count)
}

#[test]
fn single_address() {
    assert_eq!(coalesce_addresses(&vec![5]), vec![range(5, 1)]);
}

#[test]
fn ascending_growth() {
    assert_eq!(coalesce_addresses(&vec![5, 6, 7]), vec![range(5, 3)]);
}

#[test]
fn descending_growth() {
    assert_eq!(coalesce_addresses(&vec![7, 6, 5]), vec![range(5, 3)]);
}

#[test]
fn non_adjacent_stay_separate() {
    let rs = coalesce_addresses(&vec![1, 10]);
    assert_eq!(rs.len(), 2);
    assert!(rs.contains(&range(1, 1)));
    assert!(rs.contains(&range(10, 1)));
}

#[test]
fn bridging_address_merges() {
    assert_eq!(coalesce_addresses(&vec![5, 7, 6]), vec![range(5, 3)]);
}

#[test]
fn bridging_keeps_lower_place() {
    assert_eq!(coalesce_addresses(&vec![20, 7, 5, 6]), vec![range(20, 1), range(5, 3)]);
    assert_eq!(coalesce_addresses(&vec![7, 20, 5, 6]), vec![range(20, 1), range(5, 3)]);
}

#[test]
fn empty_input() {
    assert_eq!(coalesce_addresses(&vec![]), vec![]);
}

#[test]
fn duplicates_absorbed() {
    assert_eq!(coalesce_addresses(&vec![3, 3, 4, 3]), vec![range(3, 2)]);
}

#[test]
fn address_space_edges() {
    assert_eq!(coalesce_addresses(&vec![0, 65535, 1, 65534]), vec![range(0, 2), range(65534, 2)]);
}

#[test]
fn coverage_and_disjointness() {
    let addrs: Vec<u16> = vec![9, 2, 40, 3, 8, 1, 41, 10, 100, 39, 5];
    let rs = coalesce_addresses(&addrs);
    for a in 0u32..200 {
        assert_eq!(covered(&rs, a), addrs.contains(&(a as u16)));
    }
    for (i, x) in rs.iter().enumerate() {
        for (j, y) in rs.iter().enumerate() {
            if i != j {
                let (xs, xe) = (x.start as u32, x.start as u32 + x.count);
                let (ys, ye) = (y.start as u32, y.start as u32 + y.count);
                assert!(xe < ys || ye < xs);
            }
        }
    }
}

#[test]
fn parse_accepts_decimal() {
    assert_eq!(parse_address("0"), Ok(0));
    assert_eq!(parse_address("40001"), Ok(40001));
    assert_eq!(parse_address("+7"), Ok(7));
    assert_eq!(parse_address("65535"), Ok(65535));
    assert_eq!(parse_address("007"), Ok(7));
}

#[test]
fn parse_refuses_bad_tokens() {
    for bad in ["", "+", "-1", "65536", "12a", " 5", "0x10", "99999999999999999999"] {
        assert_eq!(parse_address(bad), Err(ConfigError::InvalidAddress { key: bad.to_string() }));
    }
}

#[test]
fn build_ranges_from_entries() {
    let rs = build_ranges(&entries(&["5", "7", "6", "100"])).unwrap();
    assert_eq!(rs, vec![range(5, 3), range(100, 1)]);
}

#[test]
fn build_ranges_reports_first_bad_key() {
    let r = build_ranges(&entries(&["5", "x", "70000"]));
    assert_eq!(r, Err(ConfigError::InvalidAddress { key: "x".to_string() }));
}
