use maxminddb::metadata::{find_metadata_start, Metadata};
use maxminddb::Error;

const MARKER: [u8; 14] = [
    0xab, 0xcd, 0xef, b'M', b'a', b'x', b'M', b'i', b'n', b'd', b'.', b'c', b'o', b'm',
];

#[test]
fn marker_found_after_payload() {
    let mut buf = vec![0u8; 32];
    buf.extend_from_slice(&MARKER);
    buf.extend_from_slice(&[0xe0]); // an empty map as metadata
    assert_eq!(find_metadata_start(&buf).unwrap(), 32 + 14);
}

#[test]
fn marker_last_of_several() {
    // two full copies of the marker: the scan must report the later one
    let mut buf = vec![0u8; 8];
    buf.extend_from_slice(&MARKER);
    buf.extend_from_slice(&[0u8; 4]);
    buf.extend_from_slice(&MARKER);
    buf.extend_from_slice(&[0xe0]);
    assert_eq!(find_metadata_start(&buf).unwrap(), 8 + 14 + 4 + 14);
}

#[test]
fn marker_absent() {
    let buf = vec![0u8; 64];
    assert!(matches!(find_metadata_start(&buf), Err(Error::MetadataNotFound)));
    // too short to hold a marker and any metadata
    assert!(matches!(find_metadata_start(&[0xab, 0xcd, 0xef]), Err(Error::MetadataNotFound)));
}

fn ctl(t: u8, size: usize) -> Vec<u8> {
    let (first, mut rest) = if t <= 7 {
        (t << 5, Vec::new())
    } else {
        (0u8, vec![t - 7])
    };
    let mut out;
    if size < 29 {
        out = vec![first | size as u8];
        out.append(&mut rest);
    } else {
        assert!(size <= 284);
        out = vec![first | 29];
        out.append(&mut rest);
        out.push((size - 29) as u8);
    }
    out
}

fn str_v(s: &str) -> Vec<u8> {
    let mut out = ctl(2, s.len());
    out.extend_from_slice(s.as_bytes());
    out
}

fn uint_v(v: u64) -> Vec<u8> {
    let bytes: Vec<u8> = v.to_be_bytes().iter().copied().skip_while(|b| *b == 0).collect();
    let mut out = ctl(6, bytes.len());
    out.extend_from_slice(&bytes);
    out
}

fn map_v(entries: &[(&str, Vec<u8>)]) -> Vec<u8> {
    let mut out = ctl(7, entries.len());
    for (k, v) in entries {
        out.extend_from_slice(&str_v(k));
        out.extend_from_slice(v);
    }
    out
}

fn array_v(items: &[Vec<u8>]) -> Vec<u8> {
    let mut out = ctl(11, items.len());
    for item in items {
        out.extend_from_slice(item);
    }
    out
}

#[test]
fn metadata_fields_decode() {
    let buf = map_v(&[
        ("binary_format_major_version", uint_v(2)),
        ("binary_format_minor_version", uint_v(0)),
        ("node_count", uint_v(1304)),
        ("record_size", uint_v(28)),
        ("ip_version", uint_v(6)),
        ("database_type", str_v("GeoLite2-ASN")),
        ("languages", array_v(&[str_v("en")])),
        ("build_epoch", uint_v(1609263880)),
        ("description", map_v(&[("en", str_v("a test database"))])),
    ]);
    let m = Metadata::from_bytes(&buf).unwrap();
    assert_eq!(m.binary_format_major_version, 2);
    assert_eq!(m.binary_format_minor_version, 0);
    assert_eq!(m.node_count, 1304);
    assert_eq!(m.record_size, 28);
    assert_eq!(m.ip_version, 6);
    assert_eq!(m.database_type, "GeoLite2-ASN");
    assert_eq!(m.languages, vec!["en".to_string()]);
    assert_eq!(m.build_epoch, 1609263880);
    assert_eq!(m.description, vec![("en".to_string(), "a test database".to_string())]);
}

#[test]
fn metadata_unknown_key_is_fatal() {
    let buf = map_v(&[("node_count", uint_v(1)), ("surprise", uint_v(1))]);
    match Metadata::from_bytes(&buf) {
        Err(Error::UnknownField(k)) => assert_eq!(k, "surprise"),
        other => panic!("unexpected result: {:?}", other.map(|_| ())),
    }
}

#[test]
fn metadata_missing_keys_default() {
    let buf = map_v(&[("record_size", uint_v(24))]);
    let m = Metadata::from_bytes(&buf).unwrap();
    assert_eq!(m.record_size, 24);
    assert_eq!(m.node_count, 0);
    assert_eq!(m.database_type, "");
    assert!(m.languages.is_empty());
}
