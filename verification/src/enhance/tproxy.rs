//! DNS wiring for the TPROXY transparent proxy.

use crate::text::{same_text, write_decimal};
use crate::yaml::{bool_value, contains_key, get, mapping_value, text_value};
use serde_yaml_ng::{Mapping, Value};
use vstd::prelude::*;

verus! {

use crate::text::decimal;
use crate::yaml::{has, lookup, mapping_holds, put, untagged, value_holds, Yaml};
use crate::yaml::{
    law_put, law_put_same, law_put_then_lookup, law_put_twice, lemma_slot, lemma_slot_is, slot,
};

/// A string as a YAML value.
pub open spec fn text(content: Seq<char>) -> Yaml {
    Yaml::String(content)
}

/// The DNS section of a configuration: empty if there is none, or if what
/// stands in its place is no mapping.
pub open spec fn dns_section(config: Seq<(Yaml, Yaml)>) -> Seq<(Yaml, Yaml)> {
    match lookup(config, text("dns"@)) {
        Some(value) => match untagged(value) {
            Yaml::Mapping(entries) => entries,
            _ => Seq::empty(),
        },
        None => Seq::empty(),
    }
}

/// Whether the DNS section asks for an enhanced mode other than fake-ip. A mode
/// that is not set, or that is no string, asks for none.
pub open spec fn other_mode(dns: Seq<(Yaml, Yaml)>) -> bool {
    match lookup(dns, text("enhanced-mode"@)) {
        Some(value) => match untagged(value) {
            Yaml::String(mode) => mode != "fake-ip"@,
            _ => false,
        },
        None => false,
    }
}

/// The entries with `value` under `key`, unless something is stored there.
pub open spec fn put_default(
    entries: Seq<(Yaml, Yaml)>,
    key: Yaml,
    value: Yaml,
) -> Seq<(Yaml, Yaml)> {
    if has(entries, key) {
        entries
    } else {
        put(entries, key, value)
    }
}

/// The address that the DNS server listens on: `dns_port`, on every interface.
pub open spec fn listen_address(dns_port: u16) -> Seq<char> {
    "0.0.0.0:"@ + decimal(dns_port as nat)
}

/// The DNS section with a server that is on, listens on `dns_port` and answers
/// with fake-ip. A mode and a range that are set stay.
pub open spec fn listening(dns: Seq<(Yaml, Yaml)>, dns_port: u16) -> Seq<(Yaml, Yaml)> {
    let on = put(dns, text("enable"@), Yaml::Bool(true));
    let bound = put(on, text("listen"@), text(listen_address(dns_port)));
    let moded = put_default(bound, text("enhanced-mode"@), text("fake-ip"@));
    put_default(moded, text("fake-ip-range"@), text("198.18.0.1/16"@))
}

/// The DNS section while the transparent proxy is on.
pub open spec fn tproxy_dns(dns: Seq<(Yaml, Yaml)>, dns_port: u16) -> Seq<(Yaml, Yaml)> {
    if other_mode(dns) {
        dns
    } else {
        listening(dns, dns_port)
    }
}

/// The configuration with the transparent proxy on or off.
pub open spec fn tproxy_config(
    config: Seq<(Yaml, Yaml)>,
    enabled: bool,
    dns_port: u16,
) -> Seq<(Yaml, Yaml)> {
    if enabled {
        put(config, text("dns"@), Yaml::Mapping(tproxy_dns(dns_section(config), dns_port)))
    } else {
        config
    }
}

/// While the transparent proxy is on, makes Mihomo listen for the DNS that the
/// TPROXY rules redirect (port 53 to `dns.listen`) and answer it with fake-ip,
/// so that domain rules keep working on TPROXY traffic that only carries IPs. A
/// section that asks for another enhanced mode keeps its entries.
///
/// DNS is changed only while enabling and left alone when disabling, so turning
/// the feature off never leaves a half-restored configuration.
pub fn use_tproxy(config: Mapping, enabled: bool, dns_port: u16) -> (result: Mapping)
    ensures
        mapping_holds(result) == tproxy_config(mapping_holds(config), enabled, dns_port),
        !enabled ==> result == config,
        enabled ==> (lookup(mapping_holds(config), Yaml::String("dns"@)) matches Some(value) ==> (
        untagged(value) matches Yaml::Mapping(dns) ==> (lookup(
            mapping_holds(result),
            Yaml::String("dns"@),
        ) matches Some(Yaml::Mapping(section)) && (forall|key: Yaml|
            key != Yaml::String("enable"@) && key != Yaml::String("listen"@) && key
                != Yaml::String("enhanced-mode"@) && key != Yaml::String("fake-ip-range"@)
                ==> #[trigger] lookup(section, key) == lookup(dns, key))))),
        enabled ==> forall|key: Yaml|
            key != Yaml::String("dns"@) ==> #[trigger] lookup(mapping_holds(result), key) == lookup(
                mapping_holds(config),
                key,
            ),
{
    if !enabled {
        return config;
    }
    proof {
        let before = mapping_holds(config);
        assert forall|key: Yaml| key != Yaml::String("dns"@) implies #[trigger] lookup(
            tproxy_config(before, true, dns_port),
            key,
        ) == lookup(before, key) by {
            law_only_dns_replaced(before, dns_port, key);
        }
        if let Some(value) = lookup(before, Yaml::String("dns"@)) {
            if let Yaml::Mapping(dns) = untagged(value) {
                law_user_entries_kept(before, dns_port, value, dns, Yaml::Null);
                let section = lookup(
                    tproxy_config(before, true, dns_port),
                    Yaml::String("dns"@),
                )->0->Mapping_0;
                assert forall|key: Yaml|
                    key != Yaml::String("enable"@) && key != Yaml::String("listen"@) && key
                        != Yaml::String("enhanced-mode"@) && key != Yaml::String(
                        "fake-ip-range"@,
                    ) implies #[trigger] lookup(section, key) == lookup(dns, key) by {
                    law_user_entries_kept(before, dns_port, value, dns, key);
                }
            }
        }
    }
    let mut config = config;
    let dns_key = text_value("dns");
    let section: Option<&Mapping> = match get(&config, &dns_key) {
        Some(value) => value.as_mapping(),
        None => None,
    };
    let mut dns: Mapping = match section {
        Some(mapping) => mapping.clone(),
        None => <Mapping as core::default::Default>::default(),
    };
    assert(mapping_holds(dns) == dns_section(mapping_holds(config)));

    let mode: Option<&str> = match get(&dns, &text_value("enhanced-mode")) {
        Some(value) => value.as_str(),
        None => None,
    };
    let fake_ip = match mode {
        Some(mode) => same_text(mode, "fake-ip"),
        None => true,
    };
    if fake_ip {
        let address = "0.0.0.0:".to_owned().concat(write_decimal(dns_port as u32).as_str());
        dns.insert(text_value("enable"), bool_value(true));
        dns.insert(text_value("listen"), text_value(address.as_str()));
        if !contains_key(&dns, text_value("enhanced-mode")) {
            dns.insert(text_value("enhanced-mode"), text_value("fake-ip"));
        }
        if !contains_key(&dns, text_value("fake-ip-range")) {
            dns.insert(text_value("fake-ip-range"), text_value("198.18.0.1/16"));
        }
    }
    config.insert(dns_key, mapping_value(dns));
    config
}

/// Storing under a key that is there does not change what a default for another
/// key adds.
proof fn lemma_put_past_default(
    entries: Seq<(Yaml, Yaml)>,
    key: Yaml,
    value: Yaml,
    other: Yaml,
    default: Yaml,
)
    requires
        has(entries, key),
        key != other,
    ensures
        put(put_default(entries, other, default), key, value) == put_default(
            put(entries, key, value),
            other,
            default,
        ),
        has(put_default(entries, other, default), key),
{
    let at = slot(entries, key);
    lemma_slot(entries, key);
    lemma_slot(entries, other);
    lemma_slot_is(put_default(entries, other, default), key, at);
    law_put_then_lookup(entries, key, value, other);
    assert(put(put_default(entries, other, default), key, value) =~= put_default(
        put(entries, key, value),
        other,
        default,
    ));
}

/// A default changes no other key, and leaves something under its own.
proof fn lemma_default_lookup(
    entries: Seq<(Yaml, Yaml)>,
    key: Yaml,
    value: Yaml,
    other: Yaml,
)
    ensures
        lookup(put_default(entries, key, value), key) == Some(
            match lookup(entries, key) {
                Some(stored) => stored,
                None => value,
            },
        ),
        other != key ==> lookup(put_default(entries, key, value), other) == lookup(entries, other),
{
    law_put_then_lookup(entries, key, value, other);
}

/// The keys of the DNS section are different texts.
proof fn lemma_keys_differ()
    ensures
        text("enable"@) != text("listen"@),
        text("enable"@) != text("enhanced-mode"@),
        text("enable"@) != text("fake-ip-range"@),
        text("listen"@) != text("enhanced-mode"@),
        text("listen"@) != text("fake-ip-range"@),
        text("enhanced-mode"@) != text("fake-ip-range"@),
{
    reveal_strlit("enable");
    reveal_strlit("listen");
    reveal_strlit("enhanced-mode");
    reveal_strlit("fake-ip-range");
    assert("enable"@[0] == 'e' && "listen"@[0] == 'l');
    assert("enable"@.len() == 6 && "listen"@.len() == 6);
    assert("enhanced-mode"@[0] == 'e' && "fake-ip-range"@[0] == 'f');
    assert("enhanced-mode"@.len() == 13 && "fake-ip-range"@.len() == 13);
}

/// What a listening DNS section holds under each key: the server is on, it
/// listens on the given port, a mode and a range that were set are kept and
/// default to fake-ip and its usual range, and every other entry is as it was.
pub proof fn law_listening(dns: Seq<(Yaml, Yaml)>, dns_port: u16, key: Yaml)
    ensures
        lookup(listening(dns, dns_port), key) == if key == text("enable"@) {
            Some(Yaml::Bool(true))
        } else if key == text("listen"@) {
            Some(text("0.0.0.0:"@ + decimal(dns_port as nat)))
        } else if key == text("enhanced-mode"@) && lookup(dns, key) is None {
            Some(text("fake-ip"@))
        } else if key == text("fake-ip-range"@) && lookup(dns, key) is None {
            Some(text("198.18.0.1/16"@))
        } else {
            lookup(dns, key)
        },
{
    let on = put(dns, text("enable"@), Yaml::Bool(true));
    let address = text(listen_address(dns_port));
    let bound = put(on, text("listen"@), address);
    let moded = put_default(bound, text("enhanced-mode"@), text("fake-ip"@));
    lemma_keys_differ();
    law_put_then_lookup(dns, text("enable"@), Yaml::Bool(true), key);
    law_put_then_lookup(on, text("listen"@), address, key);
    lemma_default_lookup(bound, text("enhanced-mode"@), text("fake-ip"@), key);
    lemma_default_lookup(moded, text("fake-ip-range"@), text("198.18.0.1/16"@), key);
}

/// The DNS section of the configuration that enabling gives is the section that
/// `tproxy_dns` describes.
pub proof fn law_enabled_section(config: Seq<(Yaml, Yaml)>, dns_port: u16)
    ensures
        dns_section(tproxy_config(config, true, dns_port)) == tproxy_dns(
            dns_section(config),
            dns_port,
        ),
{
    let value = Yaml::Mapping(tproxy_dns(dns_section(config), dns_port));
    law_put_then_lookup(config, text("dns"@), value, text("dns"@));
}

/// Unless the configuration asks for another enhanced mode, enabling makes its
/// DNS server listen on the given port, and answer with fake-ip if no mode was
/// set.
pub proof fn law_enabled_listens(config: Seq<(Yaml, Yaml)>, dns_port: u16)
    requires
        !other_mode(dns_section(config)),
    ensures
        ({
            let before = dns_section(config);
            let after = dns_section(tproxy_config(config, true, dns_port));
            &&& lookup(after, text("enable"@)) == Some(Yaml::Bool(true))
            &&& lookup(after, text("listen"@)) == Some(text(listen_address(dns_port)))
            &&& lookup(before, text("enhanced-mode"@)) is None ==> lookup(
                after,
                text("enhanced-mode"@),
            ) == Some(text("fake-ip"@))
            &&& has(after, text("enhanced-mode"@))
            &&& has(after, text("fake-ip-range"@))
            &&& !other_mode(after)
        }),
{
    let before = dns_section(config);
    law_enabled_section(config, dns_port);
    lemma_keys_differ();
    law_listening(before, dns_port, text("enable"@));
    law_listening(before, dns_port, text("listen"@));
    law_listening(before, dns_port, text("enhanced-mode"@));
    law_listening(before, dns_port, text("fake-ip-range"@));
}

/// A DNS section that asks for another enhanced mode keeps its entries when the
/// transparent proxy is enabled.
pub proof fn law_other_mode_kept(config: Seq<(Yaml, Yaml)>, dns_port: u16)
    requires
        other_mode(dns_section(config)),
    ensures
        dns_section(tproxy_config(config, true, dns_port)) == dns_section(config),
{
    law_enabled_section(config, dns_port);
}

/// Nothing outside the DNS section changes, whether the transparent proxy is
/// enabled or disabled.
pub proof fn law_rest_kept(config: Seq<(Yaml, Yaml)>, enabled: bool, dns_port: u16, key: Yaml)
    requires
        key != text("dns"@),
    ensures
        lookup(tproxy_config(config, enabled, dns_port), key) == lookup(config, key),
{
    let value = Yaml::Mapping(tproxy_dns(dns_section(config), dns_port));
    law_put_then_lookup(config, text("dns"@), value, key);
}

/// Every key of a configuration keeps its place.
pub proof fn law_order_kept(config: Seq<(Yaml, Yaml)>, enabled: bool, dns_port: u16)
    ensures
        tproxy_config(config, enabled, dns_port).len() >= config.len(),
        forall|i: int|
            0 <= i < config.len() ==> (#[trigger] tproxy_config(config, enabled, dns_port)[i]).0
                == config[i].0,
{
    lemma_slot(config, text("dns"@));
}

/// Disabling leaves the configuration alone, also one that was enabled before:
/// nothing is half restored.
pub proof fn law_disable_changes_nothing(
    config: Seq<(Yaml, Yaml)>,
    enabled: bool,
    dns_port: u16,
    later_port: u16,
)
    ensures
        tproxy_config(tproxy_config(config, enabled, dns_port), false, later_port)
            == tproxy_config(config, enabled, dns_port),
{
}

/// Of two ports that a DNS section is made to listen on, the later one counts.
proof fn lemma_listening_twice(dns: Seq<(Yaml, Yaml)>, first: u16, second: u16)
    ensures
        listening(listening(dns, first), second) == listening(dns, second),
{
    let (enable, listen) = (text("enable"@), text("listen"@));
    let (mode, range) = (text("enhanced-mode"@), text("fake-ip-range"@));
    let address = text(listen_address(second));
    let on = put(dns, enable, Yaml::Bool(true));
    let bound = put(on, listen, text(listen_address(first)));
    let moded = put_default(bound, mode, text("fake-ip"@));
    let ranged = put_default(moded, range, text("198.18.0.1/16"@));
    lemma_keys_differ();

    law_listening(dns, first, enable);
    law_put_same(ranged, enable);
    assert(put(ranged, enable, Yaml::Bool(true)) == ranged);

    law_put_then_lookup(on, listen, text(listen_address(first)), listen);
    lemma_put_past_default(bound, listen, address, mode, text("fake-ip"@));
    lemma_put_past_default(moded, listen, address, range, text("198.18.0.1/16"@));
    law_put_twice(on, listen, text(listen_address(first)), address);
    assert(put(ranged, listen, address) == listening(dns, second));

    law_listening(dns, second, mode);
    law_listening(dns, second, range);
}

/// Enabling again gives what enabling once with the later port gives: the port
/// is replaced and nothing piles up.
pub proof fn law_later_port_counts(config: Seq<(Yaml, Yaml)>, first: u16, second: u16)
    ensures
        tproxy_config(tproxy_config(config, true, first), true, second) == tproxy_config(
            config,
            true,
            second,
        ),
{
    let dns = dns_section(config);
    let once = Yaml::Mapping(tproxy_dns(dns, first));
    let twice = Yaml::Mapping(tproxy_dns(tproxy_dns(dns, first), second));
    law_enabled_section(config, first);
    law_put_twice(config, text("dns"@), once, twice);
    if !other_mode(dns) {
        law_enabled_listens(config, first);
        lemma_listening_twice(dns, first, second);
    }
}

/// Disabling gives the configuration back. Enabling replaces the value under
/// `dns` in its place, or adds it at the end, by a mapping without a tag, and
/// touches no other entry.
pub proof fn law_only_dns_replaced(config: Seq<(Yaml, Yaml)>, dns_port: u16, key: Yaml)
    ensures
        tproxy_config(config, false, dns_port) == config,
        ({
            let after = tproxy_config(config, true, dns_port);
            let dns = Yaml::String("dns"@);
            &&& lookup(after, dns) matches Some(Yaml::Mapping(section)) && {
                &&& (forall|i: int| 0 <= i < config.len() ==> (#[trigger] config[i]).0 != dns)
                    ==> after == config.push((dns, Yaml::Mapping(section)))
                &&& forall|i: int|
                    0 <= i < config.len() && (#[trigger] config[i]).0 == dns && (forall|j: int|
                        0 <= j < i ==> (#[trigger] config[j]).0 != dns) ==> after == config.update(
                        i,
                        (dns, Yaml::Mapping(section)),
                    )
            }
            &&& key != dns ==> lookup(after, key) == lookup(config, key)
        }),
{
    let section = Yaml::Mapping(tproxy_dns(dns_section(config), dns_port));
    law_put(config, Yaml::String("dns"@), section);
    law_put_then_lookup(config, Yaml::String("dns"@), section, key);
}

/// What enabling leaves under `dns`, entry by entry. `dns` is what the
/// configuration held there: the entries of a mapping, inside any tags, or none.
/// If it asks for an enhanced mode other than fake-ip it stays as it is. If not,
/// the server is on and listens on the port on every interface, a mode and a
/// range that are missing are filled in, and every other entry is the user's.
pub proof fn law_enabled_entries(
    config: Seq<(Yaml, Yaml)>,
    dns_port: u16,
    dns: Seq<(Yaml, Yaml)>,
    key: Yaml,
)
    requires
        match lookup(config, Yaml::String("dns"@)) {
            Some(value) => match untagged(value) {
                Yaml::Mapping(entries) => dns == entries,
                _ => dns.len() == 0,
            },
            None => dns.len() == 0,
        },
    ensures
        lookup(
            tproxy_config(config, true, dns_port),
            Yaml::String("dns"@),
        ) matches Some(Yaml::Mapping(section)) && {
            let other = match lookup(dns, Yaml::String("enhanced-mode"@)) {
                Some(value) => match untagged(value) {
                    Yaml::String(mode) => mode != "fake-ip"@,
                    _ => false,
                },
                None => false,
            };
            if other {
                section == dns
            } else {
                lookup(section, key) == if key == Yaml::String("enable"@) {
                    Some(Yaml::Bool(true))
                } else if key == Yaml::String("listen"@) {
                    Some(Yaml::String("0.0.0.0:"@ + decimal(dns_port as nat)))
                } else if key == Yaml::String("enhanced-mode"@) && lookup(dns, key) is None {
                    Some(Yaml::String("fake-ip"@))
                } else if key == Yaml::String("fake-ip-range"@) && lookup(dns, key) is None {
                    Some(Yaml::String("198.18.0.1/16"@))
                } else {
                    lookup(dns, key)
                }
            }
        },
{
    assert(dns_section(config) =~= dns);
    let section = Yaml::Mapping(tproxy_dns(dns, dns_port));
    law_put_then_lookup(config, Yaml::String("dns"@), section, key);
    law_listening(dns, dns_port, key);
}

/// A mapping that the configuration holds under `dns`, inside any tags, keeps
/// every entry that the transparent proxy has no say in, and keeps all of them
/// if it asks for another enhanced mode.
pub proof fn law_user_entries_kept(
    config: Seq<(Yaml, Yaml)>,
    dns_port: u16,
    value: Yaml,
    dns: Seq<(Yaml, Yaml)>,
    key: Yaml,
)
    requires
        lookup(config, Yaml::String("dns"@)) == Some(value),
        untagged(value) == Yaml::Mapping(dns),
    ensures
        lookup(
            tproxy_config(config, true, dns_port),
            Yaml::String("dns"@),
        ) matches Some(Yaml::Mapping(section)) && {
            &&& key != Yaml::String("enable"@) && key != Yaml::String("listen"@) && key
                != Yaml::String("enhanced-mode"@) && key != Yaml::String("fake-ip-range"@)
                ==> lookup(section, key) == lookup(dns, key)
            &&& forall|mode: Yaml|
                lookup(dns, Yaml::String("enhanced-mode"@)) == Some(mode) && (#[trigger] untagged(
                    mode,
                )) is String && untagged(mode) != Yaml::String("fake-ip"@) ==> section == dns
        },
{
    law_enabled_entries(config, dns_port, dns, key);
}

/// The user's DNS entries stay where they are, and only the value of `enable`
/// and of `listen` may change. What is new comes behind them, in a fixed order,
/// and only under keys that were not there.
pub proof fn law_section_order(
    config: Seq<(Yaml, Yaml)>,
    dns_port: u16,
    dns: Seq<(Yaml, Yaml)>,
)
    requires
        match lookup(config, Yaml::String("dns"@)) {
            Some(value) => match untagged(value) {
                Yaml::Mapping(entries) => dns == entries,
                _ => dns.len() == 0,
            },
            None => dns.len() == 0,
        },
    ensures
        lookup(
            tproxy_config(config, true, dns_port),
            Yaml::String("dns"@),
        ) matches Some(Yaml::Mapping(section)) && {
            let enable = Yaml::String("enable"@);
            let listen = Yaml::String("listen"@);
            let mode = Yaml::String("enhanced-mode"@);
            let range = Yaml::String("fake-ip-range"@);
            &&& section.len() >= dns.len()
            &&& forall|i: int|
                #![trigger section[i]]
                #![trigger dns[i]]
                0 <= i < dns.len() ==> section[i].0 == dns[i].0 && (dns[i].0 != enable && dns[i].0
                    != listen ==> section[i] == dns[i])
            &&& forall|i: int|
                dns.len() <= i < section.len() ==> {
                    let key = (#[trigger] section[i]).0;
                    &&& key == enable || key == listen || key == mode || key == range
                    &&& lookup(dns, key) is None
                }
            &&& forall|i: int, j: int|
                dns.len() <= i < j < section.len() ==> {
                    let (first, second) = ((#[trigger] section[i]).0, (#[trigger] section[j]).0);
                    ||| first == enable && second != enable
                    ||| first == listen && (second == mode || second == range)
                    ||| first == mode && second == range
                }
        },
{
    let (enable, listen) = (Yaml::String("enable"@), Yaml::String("listen"@));
    let (mode, range) = (Yaml::String("enhanced-mode"@), Yaml::String("fake-ip-range"@));
    assert(dns_section(config) =~= dns);
    let section = tproxy_dns(dns, dns_port);
    law_put_then_lookup(config, Yaml::String("dns"@), Yaml::Mapping(section), enable);
    lemma_keys_differ();
    lemma_slot(dns, enable);
    lemma_slot(dns, listen);
    lemma_slot(dns, mode);
    lemma_slot(dns, range);
    if !other_mode(dns) {
        let address = text(listen_address(dns_port));
        let on = put(dns, enable, Yaml::Bool(true));
        let bound = put(on, listen, address);
        let moded = put_default(bound, mode, text("fake-ip"@));
        law_put_then_lookup(dns, enable, Yaml::Bool(true), listen);
        law_put_then_lookup(dns, enable, Yaml::Bool(true), mode);
        law_put_then_lookup(dns, enable, Yaml::Bool(true), range);
        law_put_then_lookup(on, listen, address, mode);
        law_put_then_lookup(on, listen, address, range);
        lemma_default_lookup(bound, mode, text("fake-ip"@), range);
        lemma_slot(on, listen);
        lemma_slot(bound, mode);
        lemma_slot(moded, range);
        assert(has(on, listen) == has(dns, listen));
        assert(has(bound, mode) == has(dns, mode));
        assert(has(moded, range) == has(dns, range));
        assert(has(on, listen) ==> slot(on, listen) < dns.len()) by {
            if has(dns, listen) {
                lemma_slot_is(on, listen, slot(dns, listen));
            }
        }
    }
}

} // verus!
