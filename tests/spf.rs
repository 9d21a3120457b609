use minismtp::spf::{
    determine_spf_policy, match_networks, scan_txt_records, spf_verdict, split_words, IpAddress,
    Network, SpfPolicy, SpfWalk,
};

fn v4(a: u8, b: u8, c: u8, d: u8) -> IpAddress {
    IpAddress::V4(u32::from_be_bytes([a, b, c, d]))
}

#[test]
fn policy_from_last_word() {
    assert_eq!(determine_spf_policy("v=spf1 ip4:1.2.3.4 -all"), SpfPolicy::Fail);
    assert_eq!(determine_spf_policy("v=spf1 +all"), SpfPolicy::Pass);
    assert_eq!(determine_spf_policy("v=spf1 all"), SpfPolicy::Pass);
    assert_eq!(determine_spf_policy("v=spf1 mx ~all  "), SpfPolicy::SoftFail);
    assert_eq!(determine_spf_policy("v=spf1 ?all"), SpfPolicy::Neutral);
    assert_eq!(determine_spf_policy("v=spf1 mx"), SpfPolicy::NoPolicy);
    assert_eq!(determine_spf_policy(""), SpfPolicy::NoPolicy);
    assert_eq!(determine_spf_policy("   "), SpfPolicy::NoPolicy);
}

#[test]
fn default_policy_is_fail() {
    assert_eq!(SpfPolicy::default(), SpfPolicy::Fail);
}

#[test]
fn words_split_at_any_white_space() {
    assert_eq!(
        split_words(" a\tbc\u{a0}d \u{3000}e "),
        vec!["a".to_string(), "bc".to_string(), "d".to_string(), "e".to_string()]
    );
    assert_eq!(split_words(""), Vec::<String>::new());
}

#[test]
fn records_list_networks_and_stop_at_include() {
    let mut entries = Vec::new();
    let records = vec![
        "google-site-verification=abc".to_string(),
        "v=spf1 ip4:1.2.3.0/24 ip6:2001:db8::/32 -all".to_string(),
        "v=spf1 ip4:9.9.9.9 include:_spf.example.org ip4:8.8.8.8 ~all".to_string(),
        "v=spf1 ip4:7.7.7.7 ~all".to_string(),
    ];
    let next = scan_txt_records(&mut entries, &records);
    assert_eq!(next, Some("_spf.example.org".to_string()));
    assert_eq!(
        entries,
        vec![
            ("1.2.3.0/24".to_string(), SpfPolicy::Fail),
            ("2001:db8::/32".to_string(), SpfPolicy::Fail),
            ("9.9.9.9".to_string(), SpfPolicy::SoftFail),
        ]
    );
}

#[test]
fn a_network_listed_again_takes_the_later_policy() {
    let mut entries = Vec::new();
    let records = vec![
        "v=spf1 ip4:1.2.3.4 -all".to_string(),
        "v=spf1 ip4:5.5.5.5 ip4:1.2.3.4 ?all".to_string(),
    ];
    assert_eq!(scan_txt_records(&mut entries, &records), None);
    assert_eq!(
        entries,
        vec![
            ("1.2.3.4".to_string(), SpfPolicy::Neutral),
            ("5.5.5.5".to_string(), SpfPolicy::Neutral),
        ]
    );
}

#[test]
fn walk_stops_at_depth_ten() {
    let mut walk = SpfWalk::new("d0.example".to_string());
    let mut lookups = 0;
    while let Some(domain) = walk.next.clone() {
        lookups += 1;
        assert!(walk.depth <= 10);
        let records = vec![format!("v=spf1 ip4:10.0.0.{} include:x{} -all", lookups, domain)];
        walk.feed(Some(records));
    }
    assert_eq!(lookups, 11);
    assert_eq!(walk.depth, 10);
    assert_eq!(walk.entries.len(), 11);
}

#[test]
fn walk_ends_on_failed_lookup_or_no_include() {
    let mut walk = SpfWalk::new("a.example".to_string());
    walk.feed(Some(vec!["v=spf1 include:b.example".to_string()]));
    assert_eq!(walk.next, Some("b.example".to_string()));
    assert_eq!(walk.depth, 1);
    walk.feed(None);
    assert_eq!(walk.next, None);
    let mut walk = SpfWalk::new("a.example".to_string());
    walk.feed(Some(vec!["v=spf1 ip4:1.1.1.1 -all".to_string()]));
    assert_eq!(walk.next, None);
    assert_eq!(walk.entries, vec![("1.1.1.1".to_string(), SpfPolicy::Fail)]);
}

#[test]
fn network_membership() {
    let net = Network { addr: v4(10, 0, 0, 0), prefix: 8 };
    assert!(net.contains(v4(10, 1, 2, 3)));
    assert!(!net.contains(v4(11, 0, 0, 1)));
    assert!(!net.contains(IpAddress::V6(1)));
    let all = Network { addr: v4(1, 2, 3, 4), prefix: 0 };
    assert!(all.contains(v4(200, 1, 1, 1)));
    let host = Network { addr: v4(1, 2, 3, 4), prefix: 32 };
    assert!(host.contains(v4(1, 2, 3, 4)));
    assert!(!host.contains(v4(1, 2, 3, 5)));
    let v6 = Network { addr: IpAddress::V6(0x2001_0db8u128 << 96), prefix: 32 };
    assert!(v6.contains(IpAddress::V6((0x2001_0db8u128 << 96) | 5)));
    assert!(!v6.contains(IpAddress::V6(0x2001_0db9u128 << 96)));
}

#[test]
fn first_matching_network_decides() {
    let nets = vec![
        (Network { addr: v4(1, 2, 3, 0), prefix: 24 }, SpfPolicy::SoftFail),
        (Network { addr: v4(1, 2, 0, 0), prefix: 16 }, SpfPolicy::Pass),
    ];
    assert_eq!(match_networks(&nets, v4(1, 2, 3, 9)), (true, SpfPolicy::SoftFail));
    assert_eq!(match_networks(&nets, v4(1, 2, 4, 9)), (true, SpfPolicy::Pass));
    assert_eq!(match_networks(&nets, v4(9, 9, 9, 9)), (false, SpfPolicy::Fail));
    assert_eq!(match_networks(&Vec::new(), v4(9, 9, 9, 9)), (false, SpfPolicy::Fail));
}

#[test]
fn verdict_parses_the_listed_networks() {
    let entries = vec![
        ("not a network".to_string(), SpfPolicy::Pass),
        ("1.2.3.0/24".to_string(), SpfPolicy::SoftFail),
        ("2001:db8::/32".to_string(), SpfPolicy::Neutral),
    ];
    assert_eq!(spf_verdict(&entries, v4(1, 2, 3, 77)), (true, SpfPolicy::SoftFail));
    assert_eq!(spf_verdict(&entries, v4(1, 2, 4, 77)), (false, SpfPolicy::Fail));
    assert_eq!(
        spf_verdict(&entries, IpAddress::V6((0x2001_0db8u128 << 96) | 1)),
        (true, SpfPolicy::Neutral)
    );
    assert_eq!(spf_verdict(&Vec::new(), v4(1, 2, 3, 4)), (false, SpfPolicy::Fail));
}
