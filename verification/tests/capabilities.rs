use composefs_run::capability::{
    all_capabilities, default_capabilities, effective_capabilities, parse_capability, Capability,
};
use composefs_run::error::RunError;

fn list(items: &[&str]) -> Vec<String> {
    items.iter().map(|s| s.to_string()).collect()
}

#[test]
fn parse_cap_various_formats() {
    assert_eq!(parse_capability("NET_RAW").unwrap(), Capability::NetRaw);
    assert_eq!(parse_capability("CAP_NET_RAW").unwrap(), Capability::NetRaw);
    assert_eq!(parse_capability("cap_net_raw").unwrap(), Capability::NetRaw);
    assert_eq!(parse_capability("net_raw").unwrap(), Capability::NetRaw);
    assert_eq!(parse_capability("Cap_Net_Raw").unwrap(), Capability::NetRaw);
    assert_eq!(parse_capability("SYS_ADMIN").unwrap(), Capability::SysAdmin);
}

#[test]
fn parse_cap_unknown() {
    assert!(parse_capability("BOGUS_CAP").is_err());
}

#[test]
fn default_caps_are_subset_of_all() {
    let defaults = default_capabilities();
    let all = all_capabilities();
    for cap in defaults.members() {
        assert!(
            all.contains(cap),
            "default cap {} not in all_capabilities",
            cap.name()
        );
    }
}

#[test]
fn there_are_forty_one_capabilities() {
    assert_eq!(all_capabilities().members().len(), 41);
    assert_eq!(default_capabilities().members().len(), 11);
}

#[test]
fn every_capability_reads_back_from_its_names() {
    for cap in all_capabilities().members() {
        assert_eq!(parse_capability(cap.name()).unwrap(), cap);
        assert_eq!(parse_capability(&cap.label()).unwrap(), cap);
        assert_eq!(parse_capability(&cap.name().to_lowercase()).unwrap(), cap);
        assert_eq!(cap.label(), format!("CAP_{}", cap.name()));
    }
}

#[test]
fn a_refused_capability_is_named_as_it_was_written() {
    let e = parse_capability("cap_Bogus").unwrap_err();
    assert!(matches!(&e, RunError::UnknownCapability(s) if s == "cap_Bogus"));
    assert_eq!(e.message(), "Unknown capability: cap_Bogus");
}

#[test]
fn a_prefix_is_only_taken_off_once() {
    assert!(parse_capability("CAP_CAP_CHOWN").is_err());
    assert!(parse_capability("").is_err());
    assert!(parse_capability("CAP_").is_err());
}

#[test]
fn capabilities_without_options_are_the_defaults() {
    let set = effective_capabilities(false, &vec![], &vec![]).unwrap();
    assert_eq!(set.members().len(), 11);
    assert!(set.contains(Capability::Chown));
    assert!(!set.contains(Capability::NetRaw));
    assert!(!set.contains(Capability::Mknod));
    assert!(!set.contains(Capability::AuditWrite));
}

#[test]
fn capabilities_of_a_privileged_container_are_all() {
    let set = effective_capabilities(true, &vec![], &vec![]).unwrap();
    assert_eq!(set.members().len(), 41);
}

#[test]
fn capabilities_are_added_before_they_are_dropped() {
    let set = effective_capabilities(
        false,
        &list(&["NET_RAW", "sys_admin"]),
        &list(&["NET_RAW", "CAP_CHOWN"]),
    )
    .unwrap();
    assert!(!set.contains(Capability::NetRaw));
    assert!(set.contains(Capability::SysAdmin));
    assert!(!set.contains(Capability::Chown));
    assert_eq!(set.members().len(), 11);
}

#[test]
fn all_stands_for_every_capability() {
    let set = effective_capabilities(false, &list(&["aLL"]), &vec![]).unwrap();
    assert_eq!(set.members().len(), 41);
    let set = effective_capabilities(true, &vec![], &list(&["all"])).unwrap();
    assert_eq!(set.members().len(), 0);
    let set = effective_capabilities(false, &list(&["ALL"]), &list(&["ALL"])).unwrap();
    assert_eq!(set.members().len(), 0);
}

#[test]
fn an_unknown_capability_is_refused_when_added_or_dropped() {
    assert!(effective_capabilities(false, &list(&["BOGUS"]), &vec![]).is_err());
    assert!(effective_capabilities(true, &vec![], &list(&["BOGUS"])).is_err());
}
