use vstd::prelude::*;

use vstd::slice::slice_index_get;

use crate::decode::{
    read_control, read_map, read_str, read_str_array, read_usize, str_eq, views_of_pairs,
    views_of_strings,
};
use crate::errors::{Error, ErrorSpec};
use crate::format::{spec_control, spec_read_map, spec_read_str, spec_read_str_array, spec_read_uint};
use crate::models::{trunc16, u16_of};

verus! {

/// The metadata map decoded from the tail of a database file.
#[derive(Debug, Clone)]
pub struct Metadata {
    pub binary_format_major_version: u16,
    pub binary_format_minor_version: u16,
    pub node_count: u64,
    pub record_size: u64,
    pub ip_version: u16,
    pub database_type: String,
    pub languages: Vec<String>,
    pub build_epoch: u64,
    pub description: Vec<(String, String)>,
}

/// Model of [`Metadata`].
pub struct MetadataSpec {
    pub binary_format_major_version: u16,
    pub binary_format_minor_version: u16,
    pub node_count: u64,
    pub record_size: u64,
    pub ip_version: u16,
    pub database_type: Seq<char>,
    pub languages: Seq<Seq<char>>,
    pub build_epoch: u64,
    pub description: Seq<(Seq<char>, Seq<char>)>,
}

impl View for Metadata {
    type V = MetadataSpec;

    open spec fn view(&self) -> MetadataSpec {
        MetadataSpec {
            binary_format_major_version: self.binary_format_major_version,
            binary_format_minor_version: self.binary_format_minor_version,
            node_count: self.node_count,
            record_size: self.record_size,
            ip_version: self.ip_version,
            database_type: self.database_type@,
            languages: views_of_strings(self.languages@),
            build_epoch: self.build_epoch,
            description: views_of_pairs(self.description@),
        }
    }
}

/// The all-default metadata value that decoding starts from.
pub open spec fn sp_metadata_empty() -> MetadataSpec {
    MetadataSpec {
        binary_format_major_version: 0,
        binary_format_minor_version: 0,
        node_count: 0,
        record_size: 0,
        ip_version: 0,
        database_type: Seq::empty(),
        languages: Seq::empty(),
        build_epoch: 0,
        description: Seq::empty(),
    }
}

/// Field decoding for [`Metadata`]: `n` key/value pairs applied to `m`
/// in file order; an unknown key is fatal.
pub open spec fn sp_metadata_fields(m: MetadataSpec, buf: Seq<u8>, off: int, n: int) -> Result<
    (MetadataSpec, int),
    ErrorSpec,
>
    decreases n,
{
    if n <= 0 {
        Ok((m, off))
    } else {
        match spec_read_str(buf, off) {
            Err(e) => Err(e),
            Ok((key, p)) => {
                if key == "binary_format_major_version"@ {
                    match spec_read_uint(buf, p) {
                        Err(e) => Err(e),
                        Ok((v, q)) => sp_metadata_fields(
                            MetadataSpec { binary_format_major_version: trunc16(v), ..m },
                            buf,
                            q,
                            n - 1,
                        ),
                    }
                } else if key == "binary_format_minor_version"@ {
                    match spec_read_uint(buf, p) {
                        Err(e) => Err(e),
                        Ok((v, q)) => sp_metadata_fields(
                            MetadataSpec { binary_format_minor_version: trunc16(v), ..m },
                            buf,
                            q,
                            n - 1,
                        ),
                    }
                } else if key == "node_count"@ {
                    match spec_read_uint(buf, p) {
                        Err(e) => Err(e),
                        Ok((v, q)) => sp_metadata_fields(
                            MetadataSpec { node_count: v, ..m },
                            buf,
                            q,
                            n - 1,
                        ),
                    }
                } else if key == "record_size"@ {
                    match spec_read_uint(buf, p) {
                        Err(e) => Err(e),
                        Ok((v, q)) => sp_metadata_fields(
                            MetadataSpec { record_size: v, ..m },
                            buf,
                            q,
                            n - 1,
                        ),
                    }
                } else if key == "ip_version"@ {
                    match spec_read_uint(buf, p) {
                        Err(e) => Err(e),
                        Ok((v, q)) => sp_metadata_fields(
                            MetadataSpec { ip_version: trunc16(v), ..m },
                            buf,
                            q,
                            n - 1,
                        ),
                    }
                } else if key == "database_type"@ {
                    match spec_read_str(buf, p) {
                        Err(e) => Err(e),
                        Ok((v, q)) => sp_metadata_fields(
                            MetadataSpec { database_type: v, ..m },
                            buf,
                            q,
                            n - 1,
                        ),
                    }
                } else if key == "languages"@ {
                    match spec_read_str_array(buf, p) {
                        Err(e) => Err(e),
                        Ok((v, q)) => sp_metadata_fields(
                            MetadataSpec { languages: v, ..m },
                            buf,
                            q,
                            n - 1,
                        ),
                    }
                } else if key == "build_epoch"@ {
                    match spec_read_uint(buf, p) {
                        Err(e) => Err(e),
                        Ok((v, q)) => sp_metadata_fields(
                            MetadataSpec { build_epoch: v, ..m },
                            buf,
                            q,
                            n - 1,
                        ),
                    }
                } else if key == "description"@ {
                    match spec_read_map(buf, p) {
                        Err(e) => Err(e),
                        Ok((v, q)) => sp_metadata_fields(
                            MetadataSpec { description: v, ..m },
                            buf,
                            q,
                            n - 1,
                        ),
                    }
                } else {
                    Err(ErrorSpec::UnknownField(key))
                }
            },
        }
    }
}

fn metadata_fields(acc: Metadata, buf: &[u8], offset: &mut usize, n: usize) -> (r: Result<
    Metadata,
    Error,
>)
    ensures
        match r {
            Ok(v) => sp_metadata_fields(acc@, buf@, *old(offset) as int, n as int) == Ok::<
                _,
                ErrorSpec,
            >((v@, *final(offset) as int)),
            Err(e) => sp_metadata_fields(acc@, buf@, *old(offset) as int, n as int) == Err::<
                (MetadataSpec, int),
                _,
            >(e@),
        },
    decreases n,
{
    if n == 0 {
        return Ok(acc);
    }
    let key = read_str(buf, offset)?;
    if str_eq(key.as_str(), "binary_format_major_version") {
        let v = read_usize(buf, offset)?;
        metadata_fields(Metadata { binary_format_major_version: u16_of(v), ..acc }, buf, offset, n - 1)
    } else if str_eq(key.as_str(), "binary_format_minor_version") {
        let v = read_usize(buf, offset)?;
        metadata_fields(Metadata { binary_format_minor_version: u16_of(v), ..acc }, buf, offset, n - 1)
    } else if str_eq(key.as_str(), "node_count") {
        let v = read_usize(buf, offset)?;
        metadata_fields(Metadata { node_count: v, ..acc }, buf, offset, n - 1)
    } else if str_eq(key.as_str(), "record_size") {
        let v = read_usize(buf, offset)?;
        metadata_fields(Metadata { record_size: v, ..acc }, buf, offset, n - 1)
    } else if str_eq(key.as_str(), "ip_version") {
        let v = read_usize(buf, offset)?;
        metadata_fields(Metadata { ip_version: u16_of(v), ..acc }, buf, offset, n - 1)
    } else if str_eq(key.as_str(), "database_type") {
        let v = read_str(buf, offset)?;
        metadata_fields(Metadata { database_type: v, ..acc }, buf, offset, n - 1)
    } else if str_eq(key.as_str(), "languages") {
        let v = read_str_array(buf, offset)?;
        metadata_fields(Metadata { languages: v, ..acc }, buf, offset, n - 1)
    } else if str_eq(key.as_str(), "build_epoch") {
        let v = read_usize(buf, offset)?;
        metadata_fields(Metadata { build_epoch: v, ..acc }, buf, offset, n - 1)
    } else if str_eq(key.as_str(), "description") {
        let v = read_map(buf, offset)?;
        metadata_fields(Metadata { description: v, ..acc }, buf, offset, n - 1)
    } else {
        Err(Error::UnknownField(key))
    }
}

/// How the metadata value at the start of `buf` is decoded: a control
/// header whose size field gives the number of key/value pairs (its type
/// code is not examined), then the pairs themselves.
#[verifier::opaque]
pub open spec fn sp_metadata(buf: Seq<u8>) -> Result<(MetadataSpec, int), ErrorSpec> {
    match spec_control(buf, 0) {
        Err(e) => Err(e),
        Ok((_t, s, p)) => sp_metadata_fields(sp_metadata_empty(), buf, p, s),
    }
}

impl Metadata {
    /// Decode the metadata map from a buffer that starts right after the
    /// metadata marker.
    #[verifier::spinoff_prover]
    #[verifier::rlimit(100)]
    pub fn from_bytes(buf: &[u8]) -> (r: Result<Metadata, Error>)
        ensures
            match r {
                Ok(v) => match sp_metadata(buf@) {
                    Ok((m, _)) => m == v@,
                    Err(_) => false,
                },
                Err(e) => sp_metadata(buf@) == Err::<(MetadataSpec, int), _>(e@),
            },
    {
        let mut offset: usize = 0;
        let (_data_type, size) = match read_control(buf, &mut offset) {
            Ok(v) => v,
            Err(e) => {
                proof {
                    assert(sp_metadata(buf@) == Err::<(MetadataSpec, int), ErrorSpec>(e@)) by {
                        reveal(sp_metadata);
                    }
                }
                return Err(e);
            },
        };
        let empty = Metadata {
            binary_format_major_version: 0,
            binary_format_minor_version: 0,
            node_count: 0,
            record_size: 0,
            ip_version: 0,
            database_type: String::new(),
            languages: Vec::new(),
            build_epoch: 0,
            description: Vec::new(),
        };
        proof {
            assert(views_of_strings(Seq::<String>::empty()) =~= Seq::<Seq<char>>::empty());
            assert(views_of_pairs(Seq::<(String, String)>::empty()) =~= Seq::<
                (Seq<char>, Seq<char>),
            >::empty());
            assert(empty@ == sp_metadata_empty());
        }
        match metadata_fields(empty, buf, &mut offset, size) {
            Ok(v) => {
                proof {
                    assert(match sp_metadata(buf@) {
                        Ok((m, _)) => m == v@,
                        Err(_) => false,
                    }) by {
                        reveal(sp_metadata);
                    }
                }
                Ok(v)
            },
            Err(e) => {
                proof {
                    assert(sp_metadata(buf@) == Err::<(MetadataSpec, int), ErrorSpec>(e@)) by {
                        reveal(sp_metadata);
                    }
                }
                Err(e)
            },
        }
    }
}

/// Whether the 14-byte metadata marker sits at position `p` of the buffer.
pub open spec fn is_marker_at(buf: Seq<u8>, p: int) -> bool {
    &&& 0 <= p
    &&& p + 14 <= buf.len()
    &&& buf[p] == 0xab
    &&& buf[p + 1] == 0xcd
    &&& buf[p + 2] == 0xef
    &&& buf[p + 3] == 0x4d
    &&& buf[p + 4] == 0x61
    &&& buf[p + 5] == 0x78
    &&& buf[p + 6] == 0x4d
    &&& buf[p + 7] == 0x69
    &&& buf[p + 8] == 0x6e
    &&& buf[p + 9] == 0x64
    &&& buf[p + 10] == 0x2e
    &&& buf[p + 11] == 0x63
    &&& buf[p + 12] == 0x6f
    &&& buf[p + 13] == 0x6d
}

/// The position right after the last metadata marker, scanning the
/// candidate positions `0..=p` from high to low.
pub open spec fn sp_scan(buf: Seq<u8>, p: int) -> Option<int>
    decreases
            (if p >= 0 {
                p + 1
            } else {
                0
            }),
{
    if p < 0 {
        None
    } else if is_marker_at(buf, p) {
        Some(p + 14)
    } else {
        sp_scan(buf, p - 1)
    }
}

/// The position right after the last metadata marker that starts at or
/// below `buf.len() - 15`, if any.
pub open spec fn sp_marker_end(buf: Seq<u8>) -> Option<int> {
    sp_scan(buf, buf.len() - 15)
}

/// The scan returns the marker position nearest the end: a marker, with
/// none after it within the scanned range.
pub proof fn lemma_scan_is_last(buf: Seq<u8>, p: int, i: int)
    requires
        sp_scan(buf, p) == Some(i),
    ensures
        is_marker_at(buf, i - 14),
        i - 14 <= p,
        forall|q: int| i - 14 < q <= p ==> !is_marker_at(buf, q),
    decreases
            (if p >= 0 {
                p + 1
            } else {
                0
            }),
{
    if p < 0 {
    } else if is_marker_at(buf, p) {
    } else {
        lemma_scan_is_last(buf, p - 1, i);
    }
}

/// The scan finds the last copy of the marker: the position it reports
/// has the marker right before it, and no later position that could
/// still leave room for metadata holds another copy.
pub proof fn lemma_marker_end_is_last(buf: Seq<u8>, i: int)
    requires
        sp_marker_end(buf) == Some(i),
    ensures
        is_marker_at(buf, i - 14),
        forall|q: int| i - 14 < q <= buf.len() - 15 ==> !is_marker_at(buf, q),
{
    lemma_scan_is_last(buf, buf.len() - 15, i);
}

/// Whether the 14-byte metadata marker sits at position `p` of the buffer,
/// decided by comparing the bytes.
fn marker_at(buf: &[u8], p: usize) -> (r: bool)
    requires
        p + 14 <= buf@.len(),
    ensures
        r == is_marker_at(buf@, p as int),
{
    let n = buf.len();
    *slice_index_get(buf, p) == 0xab && *slice_index_get(buf, p + 1) == 0xcd && *slice_index_get(
        buf,
        p + 2,
    ) == 0xef && *slice_index_get(buf, p + 3) == 0x4d && *slice_index_get(buf, p + 4) == 0x61
        && *slice_index_get(buf, p + 5) == 0x78 && *slice_index_get(buf, p + 6) == 0x4d
        && *slice_index_get(buf, p + 7) == 0x69 && *slice_index_get(buf, p + 8) == 0x6e
        && *slice_index_get(buf, p + 9) == 0x64 && *slice_index_get(buf, p + 10) == 0x2e
        && *slice_index_get(buf, p + 11) == 0x63 && *slice_index_get(buf, p + 12) == 0x6f
        && *slice_index_get(buf, p + 13) == 0x6d
}

/// Find the byte index right after the last metadata marker, scanning
/// backward from the end of the buffer. A marker whose metadata would be
/// empty (one flush with the end of the file) is not considered.
pub fn find_metadata_start(buf: &[u8]) -> (r: Result<usize, Error>)
    ensures
        match r {
            Ok(i) => sp_marker_end(buf@) == Some(i as int),
            Err(e) => e@ == ErrorSpec::MetadataNotFound && sp_marker_end(buf@) == None::<int>,
        },
{
    let n = buf.len();
    if n < 15 {
        return Err(Error::MetadataNotFound);
    }
    let mut pos = n - 14;
    while pos != 0
        invariant
            n == buf@.len(),
            n >= 15,
            pos <= n - 14,
            sp_scan(buf@, n - 15) == sp_scan(buf@, pos - 1),
        decreases pos,
    {
        pos = pos - 1;
        if marker_at(buf, pos) {
            return Ok(pos + 14);
        }
    }
    Err(Error::MetadataNotFound)
}

} // verus!
