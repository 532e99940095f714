use tproxy::constants::tproxy::{MARK, TABLE};
use tproxy::feat::tproxy::{stale_rules_present, tproxy_rules_disabled_cleanup, RulesReconcile};

fn stale(listing: &str) -> bool {
    stale_rules_present(Some(listing.as_bytes().to_vec()))
}

#[test]
fn a_rule_in_hexadecimal_is_found() {
    assert!(stale(
        "0:\tfrom all lookup local\n7890:\tfrom all fwmark 0xff lookup 100\n32766:\tfrom all lookup main\n"
    ));
    assert!(stale("7890: from all fwmark 0xff lookup 100"));
}

#[test]
fn a_rule_in_decimal_is_found() {
    assert!(stale("7890: from all fwmark 255 lookup 100\n"));
}

#[test]
fn other_rules_are_not_ours() {
    assert!(!stale(""));
    assert!(!stale("0:\tfrom all lookup local\n32766:\tfrom all lookup main\n"));
    assert!(!stale("7890: from all fwmark 0xfe lookup 100\n"));
    assert!(!stale("7890: from all fwmark 0xff lookup 101\n"));
    assert!(!stale("7890: from all fwmark 0xff  lookup 100\n"));
    assert!(!stale("7890: from all fwmark 0xFF lookup 100\n"));
}

#[test]
fn mark_and_table_must_stand_on_one_line() {
    assert!(!stale("7890: from all fwmark 0xff\nlookup 100\n"));
    assert!(!stale("7890: from all fwmark 0xff \n lookup 100\n"));
    assert!(!stale("7890: from all fwmark 0xff\r\n lookup 100\n"));
}

#[test]
fn a_table_that_starts_alike_is_not_ours() {
    assert!(!stale("500:\tfrom all fwmark 0xff lookup 1000\n"));
    assert!(!stale("500:\tfrom all fwmark 255 lookup 1001"));
    assert!(stale("500:\tfrom all fwmark 0xff lookup 1000\n7890:\tfrom all fwmark 0xff lookup 100\n"));
    assert!(stale("fwmark 0xff lookup 1000 fwmark 0xff lookup 100"));
    assert_eq!(
        tproxy_rules_disabled_cleanup(Some(b"500: from all fwmark 0xff lookup 1000\n".to_vec())),
        None
    );
}

#[test]
fn what_follows_the_table_does_not_matter() {
    assert!(stale("7890:\tfrom all fwmark 0xff lookup 100 proto static\n"));
    assert!(stale("7890:\tfrom all fwmark 0xff lookup 100\r\n"));
}

#[test]
fn without_output_nothing_is_stale() {
    assert!(!stale_rules_present(None));
}

fn whole(line: &str, pattern: &str) -> bool {
    line.match_indices(pattern)
        .any(|(at, _)| !line[at + pattern.len()..].starts_with(|c: char| c.is_ascii_digit()))
}

#[test]
fn bytes_are_read_as_lossy_decoding_reads_them() {
    let rule = b"fwmark 0xff lookup 100".to_vec();
    let mut listings: Vec<Vec<u8>> = vec![Vec::new(), rule.clone()];
    for odd in [vec![0xffu8], vec![0xc3], vec![0xe2, 0x82], vec![0xc3, 0xa9], vec![0xf0, 0x9f, 0x90, 0xa7], vec![b'\r'], vec![0x80, 0x80], vec![b'0'], vec![0xff, b'0']] {
        for at in 0..rule.len() + 1 {
            let mut listing = rule[..at].to_vec();
            listing.extend(odd.iter());
            listing.extend(rule[at..].iter());
            listings.push(listing);
        }
    }
    let hexadecimal = format!("fwmark {:#x} lookup {}", MARK, TABLE);
    let decimal = format!("fwmark {} lookup {}", MARK, TABLE);
    for listing in listings {
        let expected = String::from_utf8_lossy(&listing)
            .lines()
            .any(|line| whole(line, &hexadecimal) || whole(line, &decimal));
        assert_eq!(stale_rules_present(Some(listing)), expected);
    }
}

#[test]
fn cleanup_asks_for_elevation_only_if_needed() {
    assert_eq!(
        tproxy_rules_disabled_cleanup(Some(b"7890: from all fwmark 0xff lookup 100\n".to_vec())),
        Some(RulesReconcile::Disable)
    );
    assert_eq!(tproxy_rules_disabled_cleanup(Some(b"0: from all lookup local\n".to_vec())), None);
    assert_eq!(tproxy_rules_disabled_cleanup(None), None);
}
