use serde_yaml_ng::{Mapping, Value};
use tproxy::constants::tproxy::DNS_PORT;
use tproxy::enhance::tproxy::use_tproxy;

fn config(yaml: &str) -> Mapping {
    serde_yaml_ng::from_str(yaml).unwrap()
}

fn written(mapping: &Mapping) -> String {
    serde_yaml_ng::to_string(mapping).unwrap()
}

#[test]
fn disabled_leaves_the_config_alone() {
    for yaml in ["{}", "dns:\n  enable: false\nport: 7890\n", "dns: nonsense\n", "1: 2\n"] {
        let before = config(yaml);
        let after = use_tproxy(before.clone(), false, 1053);
        assert_eq!(written(&after), written(&before));
    }
}

#[test]
fn enabling_an_empty_config_fills_in_the_dns_section() {
    let after = use_tproxy(Mapping::new(), true, DNS_PORT);
    assert_eq!(
        written(&after),
        "dns:\n  enable: true\n  listen: 0.0.0.0:1053\n  enhanced-mode: fake-ip\n  fake-ip-range: 198.18.0.1/16\n"
    );
}

#[test]
fn enabling_keeps_range_other_entries_and_order() {
    let after = use_tproxy(
        config(
            "mode: rule\ndns:\n  fake-ip-range: 10.0.0.1/8\n  listen: ':53'\n  ipv6: false\nport: 7890\n",
        ),
        true,
        65535,
    );
    assert_eq!(
        written(&after),
        "mode: rule\ndns:\n  fake-ip-range: 10.0.0.1/8\n  listen: 0.0.0.0:65535\n  ipv6: false\n  enable: true\n  enhanced-mode: fake-ip\nport: 7890\n"
    );
}

#[test]
fn enabling_overwrites_a_server_that_is_off() {
    let after = use_tproxy(config("dns:\n  enable: false\n  enhanced-mode: fake-ip\n"), true, 0);
    assert_eq!(
        written(&after),
        "dns:\n  enable: true\n  enhanced-mode: fake-ip\n  listen: 0.0.0.0:0\n  fake-ip-range: 198.18.0.1/16\n"
    );
}

#[test]
fn another_mode_is_respected() {
    let before = config("dns:\n  enable: false\n  enhanced-mode: redir-host\n");
    let after = use_tproxy(before.clone(), true, 1053);
    assert_eq!(written(&after), written(&before));
}

#[test]
fn a_mode_that_is_no_string_counts_as_fake_ip_and_stays() {
    let after = use_tproxy(config("dns:\n  enhanced-mode: 3\n"), true, 1053);
    assert_eq!(
        written(&after),
        "dns:\n  enhanced-mode: 3\n  enable: true\n  listen: 0.0.0.0:1053\n  fake-ip-range: 198.18.0.1/16\n"
    );
}

#[test]
fn a_tagged_mode_is_read_inside_its_tag() {
    let before = config("dns:\n  enhanced-mode: !user redir-host\n");
    let after = use_tproxy(before.clone(), true, 1053);
    assert_eq!(written(&after), written(&before));
}

#[test]
fn a_tagged_section_loses_its_tag() {
    let after = use_tproxy(config("dns: !user\n  enhanced-mode: redir-host\n"), true, 1053);
    assert_eq!(written(&after), "dns:\n  enhanced-mode: redir-host\n");
}

#[test]
fn a_section_that_is_no_mapping_is_replaced() {
    for yaml in ["dns: 5\n", "dns: []\n", "dns: null\n", "dns: text\n", "dns: true\n"] {
        let after = use_tproxy(config(yaml), true, 1053);
        assert_eq!(written(&after), written(&use_tproxy(Mapping::new(), true, 1053)));
    }
}

#[test]
fn a_key_that_only_looks_like_dns_is_left_alone() {
    let after = use_tproxy(config("!x dns: 1\nDNS: 2\n"), true, 1053);
    assert_eq!(after.len(), 3);
    assert_eq!(after.get("DNS"), Some(&Value::from(2)));
    assert!(after.get("dns").unwrap().is_mapping());
}

#[test]
fn the_later_port_counts() {
    for yaml in ["{}", "dns:\n  ipv6: true\n", "dns:\n  enhanced-mode: redir-host\n"] {
        let once = use_tproxy(config(yaml), true, 2000);
        let twice = use_tproxy(use_tproxy(config(yaml), true, 1000), true, 2000);
        assert_eq!(written(&twice), written(&once));
    }
}

#[test]
fn disabling_after_enabling_restores_nothing() {
    let on = use_tproxy(config("port: 1\n"), true, 1053);
    let off = use_tproxy(on.clone(), false, 1053);
    assert_eq!(written(&off), written(&on));
}
