use neonia_swarm::ids::{hyphenated_form, new_route_id, new_swarm_names, route_id, simple_form};

#[test]
fn forms_match_uuid_crate() {
    for v in [0u128, 1, u128::MAX, 0xa1a2a3a4b1b2c1c2d1d2d3d4d5d6d7d8] {
        let u = uuid::Uuid::from_u128(v);
        assert_eq!(simple_form(v), u.simple().to_string());
        assert_eq!(hyphenated_form(v), u.to_string());
    }
    for _ in 0..20 {
        let u = uuid::Uuid::new_v4();
        assert_eq!(simple_form(u.as_u128()), u.simple().to_string());
        assert_eq!(hyphenated_form(u.as_u128()), u.to_string());
    }
}

#[test]
fn hyphenated_without_dashes_is_simple() {
    let v = 0x0123456789abcdef0011223344556677u128;
    assert_eq!(hyphenated_form(v).replace('-', ""), simple_form(v));
    assert_eq!(hyphenated_form(v).len(), 36);
}

#[test]
fn route_ids_have_their_shape() {
    assert_eq!(route_id(0xff), "route_000000000000000000000000000000ff");
    let a = new_route_id();
    let b = new_route_id();
    for r in [&a, &b] {
        assert!(r.starts_with("route_"));
        assert_eq!(r.len(), 38);
        assert!(r[6..].chars().all(|c| c.is_ascii_hexdigit() && !c.is_ascii_uppercase()));
        let u = uuid::Uuid::parse_str(&r[6..]).unwrap();
        assert_eq!(u.get_version_num(), 4);
    }
    assert_ne!(a, b);
}

#[test]
fn swarm_names_have_their_shape() {
    let (swarm, queue) = new_swarm_names();
    let s = swarm.strip_prefix("YC-SWRM-").unwrap();
    let q = queue.strip_prefix("manufacturing_").unwrap();
    assert_eq!(uuid::Uuid::parse_str(s).unwrap().to_string(), s);
    assert_eq!(uuid::Uuid::parse_str(q).unwrap().to_string(), q);
    assert_ne!(s, q);
}
