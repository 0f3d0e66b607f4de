use maxminddb::{
    AnonymousIp, Asn, City, ConnectionType, Country, Domain, Enterprise, Error, Isp, Reader,
};
use maxminddb::reader::IpAddr;

const MARKER: [u8; 14] = [
    0xab, 0xcd, 0xef, b'M', b'a', b'x', b'M', b'i', b'n', b'd', b'.', b'c', b'o', b'm',
];

fn ctl(t: u8, size: usize) -> Vec<u8> {
    let (first, mut rest) = if t <= 7 {
        (t << 5, Vec::new())
    } else {
        (0u8, vec![t - 7])
    };
    let mut out;
    if size < 29 {
        out = vec![first | size as u8];
        out.append(&mut rest);
    } else {
        assert!(size <= 284);
        out = vec![first | 29];
        out.append(&mut rest);
        out.push((size - 29) as u8);
    }
    out
}

fn str_v(s: &str) -> Vec<u8> {
    let mut out = ctl(2, s.len());
    out.extend_from_slice(s.as_bytes());
    out
}

fn uint_v(v: u64) -> Vec<u8> {
    let bytes: Vec<u8> = v.to_be_bytes().iter().copied().skip_while(|b| *b == 0).collect();
    let mut out = ctl(6, bytes.len());
    out.extend_from_slice(&bytes);
    out
}

fn bool_v(b: bool) -> Vec<u8> {
    ctl(14, if b { 1 } else { 0 })
}

fn double_v(f: f64) -> Vec<u8> {
    let mut out = ctl(3, 8);
    out.extend_from_slice(&f.to_be_bytes());
    out
}

fn map_v(entries: &[(&str, Vec<u8>)]) -> Vec<u8> {
    let mut out = ctl(7, entries.len());
    for (k, v) in entries {
        out.extend_from_slice(&str_v(k));
        out.extend_from_slice(v);
    }
    out
}

fn array_v(items: &[Vec<u8>]) -> Vec<u8> {
    let mut out = ctl(11, items.len());
    for item in items {
        out.extend_from_slice(item);
    }
    out
}

// A pointer of size class 1: its target must be below 2048.
fn ptr_v(target: usize) -> Vec<u8> {
    assert!(target < 2048);
    vec![1 << 5 | ((target >> 8) as u8 & 7), (target & 0xff) as u8]
}

fn node24(left: u32, right: u32) -> Vec<u8> {
    let l = left.to_be_bytes();
    let r = right.to_be_bytes();
    vec![l[1], l[2], l[3], r[1], r[2], r[3]]
}

fn node28(left: u32, right: u32) -> Vec<u8> {
    let l = left.to_be_bytes();
    let r = right.to_be_bytes();
    let middle = (l[0] & 0x0f) << 4 | (r[0] & 0x0f);
    vec![l[1], l[2], l[3], middle, r[1], r[2], r[3]]
}

fn node32(left: u32, right: u32) -> Vec<u8> {
    let mut out = left.to_be_bytes().to_vec();
    out.extend_from_slice(&right.to_be_bytes());
    out
}

fn build_db(record_size: u64, ip_version: u64, node_count: u64, tree: &[u8], data: &[u8]) -> Vec<u8> {
    let mut buf = tree.to_vec();
    buf.extend_from_slice(&[0u8; 16]);
    buf.extend_from_slice(data);
    buf.extend_from_slice(&MARKER);
    buf.extend_from_slice(&map_v(&[
        ("binary_format_major_version", uint_v(2)),
        ("binary_format_minor_version", uint_v(0)),
        ("node_count", uint_v(node_count)),
        ("record_size", uint_v(record_size)),
        ("ip_version", uint_v(ip_version)),
        ("database_type", str_v("GeoLite2-ASN")),
        ("languages", array_v(&[str_v("en")])),
        ("build_epoch", uint_v(1609263880)),
        ("description", map_v(&[("en", str_v("a test database"))])),
    ]));
    buf
}

// The record value for the single leaf of a one-node tree: all addresses
// whose first bit is 0 reach the data section at offset 0.
fn one_leaf_db(record_size: u64, ip_version: u64, data: &[u8]) -> Vec<u8> {
    let leaf = 1 + 16; // node_count + separator: data-section offset 0
    let tree = match record_size {
        24 => node24(leaf, 1),
        28 => node28(leaf, 1),
        _ => node32(leaf, 1),
    };
    build_db(record_size, ip_version, 1, &tree, data)
}

#[test]
fn asn_lookup_v4_and_v6() {
    let record = map_v(&[
        ("autonomous_system_number", uint_v(1221)),
        ("autonomous_system_organization", str_v("Telstra Pty Ltd")),
    ]);
    let reader = Reader::from_bytes(one_leaf_db(24, 6, &record)).unwrap();
    let r: Asn = reader.lookup(IpAddr::V4([1, 128, 0, 0])).unwrap();
    assert_eq!(r.autonomous_system_number, Some(1221));
    assert_eq!(r.autonomous_system_organization, Some("Telstra Pty Ltd".to_string()));

    let mut v6 = [0u8; 16];
    v6[0] = 0x26;
    v6[1] = 0x00;
    v6[2] = 0x60;
    let r: Asn = reader.lookup(IpAddr::V6(v6)).unwrap();
    assert_eq!(r.autonomous_system_number, Some(1221));
    assert_eq!(r.autonomous_system_organization, Some("Telstra Pty Ltd".to_string()));
}

#[test]
fn metadata_through_reader() {
    let record = map_v(&[("autonomous_system_number", uint_v(1))]);
    let reader = Reader::from_bytes(one_leaf_db(24, 6, &record)).unwrap();
    let m = reader.metadata().unwrap();
    assert_eq!(m.binary_format_major_version, 2);
    assert_eq!(m.binary_format_minor_version, 0);
    assert_eq!(m.node_count, 1);
    assert_eq!(m.record_size, 24);
    assert_eq!(m.ip_version, 6);
    assert_eq!(m.database_type, "GeoLite2-ASN");
    assert_eq!(m.languages, vec!["en".to_string()]);
    assert_eq!(m.build_epoch, 1609263880);
}

#[test]
fn address_not_found() {
    // node 0: left goes to node 1, right is the node count (no data);
    // node 1: left leads to the record, right is the node count.
    let leaf = 2 + 16;
    let mut tree = node24(1, 2);
    tree.extend_from_slice(&node24(leaf, 2));
    let record = map_v(&[("autonomous_system_number", uint_v(7))]);
    let reader = Reader::from_bytes(build_db(24, 4, 2, &tree, &record)).unwrap();

    let r: Asn = reader.lookup(IpAddr::V4([0, 0, 0, 0])).unwrap();
    assert_eq!(r.autonomous_system_number, Some(7));

    let e = reader.lookup::<Asn>(IpAddr::V4([128, 0, 0, 0])).unwrap_err();
    assert!(matches!(e, Error::AddressNotFound));
    let e = reader.lookup::<Asn>(IpAddr::V4([64, 0, 0, 0])).unwrap_err();
    assert!(matches!(e, Error::AddressNotFound));
}

#[test]
fn ipv6_on_v4_only_tree_not_found() {
    let record = map_v(&[("autonomous_system_number", uint_v(7))]);
    // ip_version 4: a 128-bit lookup starts at the root and the first
    // step already leaves the one-node tree at the no-data sentinel.
    let tree = node24(1, 1);
    let reader = Reader::from_bytes(build_db(24, 4, 1, &tree, &record)).unwrap();
    let e = reader.lookup::<Asn>(IpAddr::V6([0u8; 16])).unwrap_err();
    assert!(matches!(e, Error::AddressNotFound));
}

#[test]
fn invalid_node_on_cyclic_tree() {
    // both records of the only node point back at it: the walk exhausts
    // all 32 bits inside the tree
    let tree = node24(0, 0);
    let record = map_v(&[("autonomous_system_number", uint_v(7))]);
    let reader = Reader::from_bytes(build_db(24, 4, 1, &tree, &record)).unwrap();
    let e = reader.lookup::<Asn>(IpAddr::V4([1, 2, 3, 4])).unwrap_err();
    assert!(matches!(e, Error::InvalidNode));
}

#[test]
fn record_width_24_extracts_max_value() {
    let record = map_v(&[("autonomous_system_number", uint_v(7))]);
    let tree = node24(1, 0xff_ffff);
    let reader = Reader::from_bytes(build_db(24, 4, 1, &tree, &record)).unwrap();
    assert_eq!(reader.find_address_in_tree(&[128, 0, 0, 0]).unwrap(), 0xff_ffff);
    // left record: the no-data sentinel
    assert_eq!(reader.find_address_in_tree(&[0, 0, 0, 0]).unwrap(), 0);
}

#[test]
fn record_width_28_extracts_max_value() {
    let record = map_v(&[("autonomous_system_number", uint_v(7))]);
    let tree = node28(1, 0x0fff_ffff);
    let reader = Reader::from_bytes(build_db(28, 4, 1, &tree, &record)).unwrap();
    assert_eq!(reader.find_address_in_tree(&[128, 0, 0, 0]).unwrap(), 0x0fff_ffff);
    assert_eq!(reader.find_address_in_tree(&[0, 0, 0, 0]).unwrap(), 0);
}

#[test]
fn record_width_32_extracts_max_value() {
    let record = map_v(&[("autonomous_system_number", uint_v(7))]);
    let tree = node32(1, 0xffff_ffff);
    let reader = Reader::from_bytes(build_db(32, 4, 1, &tree, &record)).unwrap();
    assert_eq!(reader.find_address_in_tree(&[128, 0, 0, 0]).unwrap(), 0xffff_ffff);
    assert_eq!(reader.find_address_in_tree(&[0, 0, 0, 0]).unwrap(), 0);
}

#[test]
fn country_with_sub_records() {
    let record = map_v(&[
        (
            "continent",
            map_v(&[
                ("code", str_v("NA")),
                ("geoname_id", uint_v(6255149)),
                ("names", map_v(&[("es", str_v("Norteam\u{e9}rica"))])),
            ]),
        ),
        (
            "country",
            map_v(&[("geoname_id", uint_v(6252001)), ("iso_code", str_v("US"))]),
        ),
        ("registered_country", map_v(&[("geoname_id", uint_v(6252001))])),
        (
            "traits",
            map_v(&[
                ("is_anonymous_proxy", bool_v(true)),
                ("is_satellite_provider", bool_v(true)),
            ]),
        ),
    ]);
    let reader = Reader::from_bytes(one_leaf_db(24, 4, &record)).unwrap();
    let r: Country = reader.lookup(IpAddr::V4([74, 209, 24, 0])).unwrap();

    let continent = r.continent.unwrap();
    assert_eq!(continent.code, Some("NA".to_string()));
    assert_eq!(continent.geoname_id, Some(6255149));
    assert_eq!(
        continent.names,
        Some(vec![("es".to_string(), "Norteam\u{e9}rica".to_string())])
    );

    let country = r.country.unwrap();
    assert_eq!(country.geoname_id, Some(6252001));
    assert_eq!(country.iso_code, Some("US".to_string()));
    assert_eq!(country.is_in_european_union, None);

    assert_eq!(r.registered_country.unwrap().geoname_id, Some(6252001));
    assert!(r.represented_country.is_none());

    let traits = r.traits.unwrap();
    assert_eq!(traits.is_anonymous_proxy, Some(true));
    assert_eq!(traits.is_satellite_provider, Some(true));
    assert_eq!(traits.is_anycast, None);
}

#[test]
fn city_with_location_subdivisions_and_pointer() {
    // the record sits after a deduplicated string that a pointer reaches
    let shared = str_v("London");
    let record_off = shared.len();
    let record = map_v(&[
        (
            "city",
            map_v(&[
                ("geoname_id", uint_v(2643743)),
                ("names", map_v(&[("de", ptr_v(0)), ("es", str_v("Londres"))])),
            ]),
        ),
        (
            "location",
            map_v(&[
                ("latitude", double_v(51.5142)),
                ("longitude", double_v(-0.0931)),
                ("accuracy_radius", uint_v(10)),
                ("time_zone", str_v("Europe/London")),
            ]),
        ),
        (
            "subdivisions",
            array_v(&[map_v(&[
                ("geoname_id", uint_v(6269131)),
                ("iso_code", str_v("ENG")),
                ("names", map_v(&[("en", str_v("England"))])),
            ])]),
        ),
        ("postal", map_v(&[("code", str_v("SW1"))])),
    ]);
    let mut data = shared;
    data.extend_from_slice(&record);
    let leaf = (1 + 16 + record_off) as u32;
    let tree = node28(leaf, 1);
    let reader = Reader::from_bytes(build_db(28, 4, 1, &tree, &data)).unwrap();
    let r: City = reader.lookup(IpAddr::V4([81, 2, 69, 142])).unwrap();

    let city = r.city.unwrap();
    assert_eq!(city.geoname_id, Some(2643743));
    let names = city.names.unwrap();
    assert!(names.iter().any(|(k, v)| k == "de" && v == "London"));
    assert!(names.iter().any(|(k, v)| k == "es" && v == "Londres"));

    let location = r.location.unwrap();
    assert_eq!(location.accuracy_radius, Some(10));
    assert_eq!(location.latitude.map(f64::from_bits), Some(51.5142));
    assert_eq!(location.longitude.map(f64::from_bits), Some(-0.0931));
    assert_eq!(location.time_zone, Some("Europe/London".to_string()));

    let subdivisions = r.subdivisions.unwrap();
    assert_eq!(subdivisions.len(), 1);
    assert_eq!(subdivisions[0].geoname_id, Some(6269131));
    assert_eq!(subdivisions[0].iso_code, Some("ENG".to_string()));
    assert_eq!(
        subdivisions[0].names,
        Some(vec![("en".to_string(), "England".to_string())])
    );

    assert_eq!(r.postal.unwrap().code, Some("SW1".to_string()));
    assert!(r.country.is_none());
}

#[test]
fn enterprise_confidences_and_traits() {
    let record = map_v(&[
        ("city", map_v(&[("confidence", uint_v(11))])),
        ("country", map_v(&[("confidence", uint_v(99))])),
        (
            "postal",
            map_v(&[("code", str_v("12037")), ("confidence", uint_v(11))]),
        ),
        ("subdivisions", array_v(&[map_v(&[("confidence", uint_v(93))])])),
        (
            "traits",
            map_v(&[
                ("autonomous_system_number", uint_v(14671)),
                ("isp", str_v("Fairpoint Communications")),
                ("organization", str_v("Fairpoint Communications")),
                ("connection_type", str_v("Cable/DSL")),
                ("domain", str_v("frpt.net")),
                ("static_ip_score", double_v(0.34)),
                ("user_type", str_v("residential")),
            ]),
        ),
    ]);
    let reader = Reader::from_bytes(one_leaf_db(24, 4, &record)).unwrap();
    let r: Enterprise = reader.lookup(IpAddr::V4([74, 209, 24, 0])).unwrap();

    assert_eq!(r.city.unwrap().confidence, Some(11));
    assert_eq!(r.country.unwrap().confidence, Some(99));
    let postal = r.postal.unwrap();
    assert_eq!(postal.code, Some("12037".to_string()));
    assert_eq!(postal.confidence, Some(11));
    let subdivisions = r.subdivisions.unwrap();
    assert_eq!(subdivisions.len(), 1);
    assert_eq!(subdivisions[0].confidence, Some(93));
    let traits = r.traits.unwrap();
    assert_eq!(traits.autonomous_system_number, Some(14671));
    assert_eq!(traits.isp, Some("Fairpoint Communications".to_string()));
    assert_eq!(traits.organization, Some("Fairpoint Communications".to_string()));
    assert_eq!(traits.connection_type, Some("Cable/DSL".to_string()));
    assert_eq!(traits.domain, Some("frpt.net".to_string()));
    assert_eq!(traits.static_ip_score.map(f64::from_bits), Some(0.34));
    assert_eq!(traits.user_type, Some("residential".to_string()));
}

#[test]
fn anonymous_ip_all_flags() {
    let record = map_v(&[
        ("is_anonymous", bool_v(true)),
        ("is_anonymous_vpn", bool_v(true)),
        ("is_hosting_provider", bool_v(true)),
        ("is_public_proxy", bool_v(true)),
        ("is_residential_proxy", bool_v(true)),
        ("is_tor_exit_node", bool_v(true)),
    ]);
    let reader = Reader::from_bytes(one_leaf_db(24, 4, &record)).unwrap();
    let r: AnonymousIp = reader.lookup(IpAddr::V4([81, 2, 69, 0])).unwrap();
    assert_eq!(r.is_anonymous, Some(true));
    assert_eq!(r.is_anonymous_vpn, Some(true));
    assert_eq!(r.is_hosting_provider, Some(true));
    assert_eq!(r.is_public_proxy, Some(true));
    assert_eq!(r.is_residential_proxy, Some(true));
    assert_eq!(r.is_tor_exit_node, Some(true));
}

#[test]
fn anonymous_ip_partial_flags() {
    let record = map_v(&[("is_anonymous", bool_v(true)), ("is_public_proxy", bool_v(true))]);
    let reader = Reader::from_bytes(one_leaf_db(24, 4, &record)).unwrap();
    let r: AnonymousIp = reader.lookup(IpAddr::V4([81, 2, 69, 0])).unwrap();
    assert_eq!(r.is_anonymous, Some(true));
    assert_eq!(r.is_public_proxy, Some(true));
    assert_eq!(r.is_anonymous_vpn, None);
    assert_eq!(r.is_hosting_provider, None);
    assert_eq!(r.is_residential_proxy, None);
    assert_eq!(r.is_tor_exit_node, None);
}

#[test]
fn connection_type_and_domain_and_isp() {
    let record = map_v(&[("connection_type", str_v("Dialup"))]);
    let reader = Reader::from_bytes(one_leaf_db(24, 4, &record)).unwrap();
    let r: ConnectionType = reader.lookup(IpAddr::V4([1, 0, 0, 0])).unwrap();
    assert_eq!(r.connection_type, Some("Dialup".to_string()));

    let record = map_v(&[("domain", str_v("maxmind.com"))]);
    let reader = Reader::from_bytes(one_leaf_db(24, 4, &record)).unwrap();
    let r: Domain = reader.lookup(IpAddr::V4([1, 2, 0, 0])).unwrap();
    assert_eq!(r.domain, Some("maxmind.com".to_string()));

    let record = map_v(&[
        ("autonomous_system_number", uint_v(1221)),
        ("autonomous_system_organization", str_v("Telstra Pty Ltd")),
        ("isp", str_v("Telstra Internet")),
        ("organization", str_v("Telstra Internet")),
    ]);
    let reader = Reader::from_bytes(one_leaf_db(24, 4, &record)).unwrap();
    let r: Isp = reader.lookup(IpAddr::V4([1, 128, 0, 0])).unwrap();
    assert_eq!(r.autonomous_system_number, Some(1221));
    assert_eq!(r.autonomous_system_organization, Some("Telstra Pty Ltd".to_string()));
    assert_eq!(r.isp, Some("Telstra Internet".to_string()));
    assert_eq!(r.organization, Some("Telstra Internet".to_string()));
}

#[test]
fn sub_record_through_pointer_to_map() {
    // the continent map is stored once and reached through a pointer
    let shared = map_v(&[("code", str_v("EU")), ("geoname_id", uint_v(6255148))]);
    let record = map_v(&[("continent", ptr_v(0))]);
    let mut data = shared.clone();
    let record_off = shared.len();
    data.extend_from_slice(&record);
    let leaf = (1 + 16 + record_off) as u32;
    let tree = node24(leaf, 1);
    let reader = Reader::from_bytes(build_db(24, 4, 1, &tree, &data)).unwrap();
    let r: Country = reader.lookup(IpAddr::V4([10, 0, 0, 0])).unwrap();
    let continent = r.continent.unwrap();
    assert_eq!(continent.code, Some("EU".to_string()));
    assert_eq!(continent.geoname_id, Some(6255148));
    // the same bytes decode under the country schema: its unknown keys differ
    let e = reader.lookup::<City>(IpAddr::V4([10, 0, 0, 0]));
    assert!(e.is_ok());
}

#[test]
fn unknown_record_field_is_fatal() {
    let record = map_v(&[("bogus", uint_v(1))]);
    let reader = Reader::from_bytes(one_leaf_db(24, 4, &record)).unwrap();
    match reader.lookup::<Asn>(IpAddr::V4([1, 2, 3, 4])) {
        Err(Error::UnknownField(k)) => assert_eq!(k, "bogus"),
        other => panic!("unexpected result: {:?}", other.map(|_| ())),
    }
}

#[test]
fn record_must_be_a_map() {
    let record = str_v("not a map");
    let reader = Reader::from_bytes(one_leaf_db(24, 4, &record)).unwrap();
    let e = reader.lookup::<Asn>(IpAddr::V4([1, 2, 3, 4])).unwrap_err();
    assert!(matches!(e, Error::InvalidDataType(2)));
}

#[test]
fn invalid_utf8_in_record_value() {
    // the organization value claims to be a string but is not UTF-8
    let record = map_v(&[("autonomous_system_organization", vec![2 << 5 | 1, 0xff])]);
    let reader = Reader::from_bytes(one_leaf_db(24, 4, &record)).unwrap();
    let e = reader.lookup::<Asn>(IpAddr::V4([1, 2, 3, 4])).unwrap_err();
    assert!(matches!(e, Error::InvalidUtf8));
}

#[test]
fn corrupt_search_tree_pointer() {
    // a data pointer too close to the node count underflows the
    // separator: the file cannot be addressing its data section
    let record = map_v(&[("autonomous_system_number", uint_v(7))]);
    let tree = node24(1, 2);
    let reader = Reader::from_bytes(build_db(24, 4, 1, &tree, &record)).unwrap();
    let e = reader.lookup::<Asn>(IpAddr::V4([128, 0, 0, 0])).unwrap_err();
    assert!(matches!(e, Error::CorruptSearchTree));
}

#[test]
fn truncated_record_gives_invalid_offset() {
    // the map claims one entry but the file ends before it
    let record = vec![7 << 5 | 1];
    let reader = Reader::from_bytes(one_leaf_db(24, 4, &record)).unwrap();
    let e = reader.lookup::<Asn>(IpAddr::V4([1, 2, 3, 4])).unwrap_err();
    // the next read runs into the metadata marker: a string tag is not there
    assert!(matches!(e, Error::InvalidDataType(_)) || matches!(e, Error::InvalidOffset));
}

#[test]
fn open_rejects_bad_record_size() {
    let record = map_v(&[("autonomous_system_number", uint_v(7))]);
    let tree = node24(17, 1);
    let e = Reader::from_bytes(build_db(30, 4, 1, &tree, &record)).unwrap_err();
    assert!(matches!(e, Error::InvalidRecordSize(30)));
}

#[test]
fn open_rejects_overlong_search_tree() {
    let record = map_v(&[("autonomous_system_number", uint_v(7))]);
    let tree = node24(17, 1);
    let e = Reader::from_bytes(build_db(24, 4, 100000, &tree, &record)).unwrap_err();
    assert!(matches!(e, Error::InvalidSearchTreeSize));
}

#[test]
fn open_rejects_missing_marker() {
    let e = Reader::from_bytes(vec![0u8; 64]).unwrap_err();
    assert!(matches!(e, Error::MetadataNotFound));
}

#[test]
fn error_messages_name_the_failure() {
    assert_eq!(Error::AddressNotFound.message(), "address not found in database");
    assert_eq!(Error::CorruptSearchTree.message(), "search tree is corrupt");
    assert_eq!(Error::MetadataNotFound.message(), "metadata is not found");
}
