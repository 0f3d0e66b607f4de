use vstd::prelude::*;
use vstd::slice::slice_subrange;

use crate::decode::{
    bytes_to_usize, bytes_to_usize_with_prefix, read_bool, read_control, read_f64_bits,
    read_map, read_pointer, read_str, read_usize, str_eq, view_opt, views_of_recs, Decoder,
};
use crate::errors::{Error, ErrorSpec};
use crate::format::{
    be_val, lemma_pow256_mono, pow256, spec_control, spec_pointer, spec_read_bool,
    spec_read_f64_bits, spec_read_str, spec_read_uint, DATA_TYPE_MAP, DATA_TYPE_POINTER,
    DATA_TYPE_SLICE,
};
use crate::metadata::{find_metadata_start, sp_marker_end, sp_metadata, Metadata, MetadataSpec};
use crate::models;
use crate::models::{trunc32, u16_of, u32_of, view_opt_pairs, view_opt_str};

verus! {

/// How many zero bytes separate the search tree from the data section.
pub const DATA_SECTION_SEPARATOR_SIZE: usize = 16;

/// An IP address handed to a lookup, as its big-endian octets.
#[derive(Debug, Clone, Copy)]
pub enum IpAddr {
    V4([u8; 4]),
    V6([u8; 16]),
}

/// The octets of an address.
pub open spec fn sp_addr_octets(addr: IpAddr) -> Seq<u8> {
    match addr {
        IpAddr::V4(o) => o@,
        IpAddr::V6(o) => o@,
    }
}

/// Bit `i` of an address given as octets, in big-endian bit order.
pub open spec fn sp_ip_bit(octets: Seq<u8>, i: int) -> bool {
    ((octets[i / 8] >> ((7 - (i % 8)) as u8)) & 1) == 1
}

/// All bits of an address, in big-endian bit order.
pub open spec fn sp_ip_bits(octets: Seq<u8>) -> Seq<bool> {
    Seq::new((octets.len() * 8) as nat, |i: int| sp_ip_bit(octets, i))
}

/// The value of one record of a trie node: `index` 0 is the left child,
/// 1 the right. The node's two records are packed side by side into
/// `nom` bytes starting at `node * nom`, with the middle byte split into
/// nibbles for the 28-bit width.
pub open spec fn sp_node_record(data: Seq<u8>, record_size: int, nom: int, node: int, index: int) -> int {
    let base = node * nom;
    if record_size == 28 {
        let middle = data[base + 3];
        let m: u8 = if index != 0 {
            middle & 0x0f
        } else {
            (middle & 0xf0) >> 4
        };
        (m * pow256(3) + be_val(data.subrange(base + index * 4, base + index * 4 + 3))) as int
    } else if record_size == 24 {
        be_val(data.subrange(base + index * 3, base + index * 3 + 3)) as int
    } else {
        be_val(data.subrange(base + index * 4, base + index * 4 + 4)) as int
    }
}

/// Walking the trie from `node` along `bits`: each bit picks the left or
/// right record; the walk stops early when a value at or above
/// `node_count` is reached.
pub open spec fn sp_walk(
    data: Seq<u8>,
    node_count: int,
    record_size: int,
    nom: int,
    node: int,
    bits: Seq<bool>,
) -> int
    decreases bits.len(),
{
    if node >= node_count || bits.len() == 0 {
        node
    } else {
        sp_walk(
            data,
            node_count,
            record_size,
            nom,
            sp_node_record(
                data,
                record_size,
                nom,
                node,
                if bits[0] {
                    1
                } else {
                    0
                },
            ),
            bits.drop_first(),
        )
    }
}

/// The node reached from `node` by following the left child `k` times,
/// stopping early at a leaf or the node count.
pub open spec fn sp_v4_entry(
    data: Seq<u8>,
    node_count: int,
    record_size: int,
    nom: int,
    node: int,
    k: int,
) -> int
    decreases k,
{
    if k <= 0 || node >= node_count {
        node
    } else {
        sp_v4_entry(
            data,
            node_count,
            record_size,
            nom,
            sp_node_record(data, record_size, nom, node, 0),
            k - 1,
        )
    }
}

/// A reader for the MaxMind DB format, holding the file's bytes and the
/// constants derived from its metadata at open time.
#[derive(Debug)]
pub struct Reader {
    data: Vec<u8>,
    search_tree_size: usize,
    record_size: usize,
    node_count: usize,
    node_offset_multi: usize,
    ip_v4_start: usize,
}

/// Model of [`Reader`].
pub struct ReaderSpec {
    pub data: Seq<u8>,
    pub search_tree_size: int,
    pub record_size: int,
    pub node_count: int,
    pub node_offset_multi: int,
    pub ip_v4_start: int,
}

impl View for Reader {
    type V = ReaderSpec;

    closed spec fn view(&self) -> ReaderSpec {
        ReaderSpec {
            data: self.data@,
            search_tree_size: self.search_tree_size as int,
            record_size: self.record_size as int,
            node_count: self.node_count as int,
            node_offset_multi: self.node_offset_multi as int,
            ip_v4_start: self.ip_v4_start as int,
        }
    }
}

/// What opening a database file yields: the derived constants of the
/// format, computed from the decoded metadata and validated against the
/// buffer.
#[verifier::opaque]
pub open spec fn sp_open(buf: Seq<u8>) -> Result<ReaderSpec, ErrorSpec> {
    match sp_marker_end(buf) {
        None => Err(ErrorSpec::MetadataNotFound),
        Some(ms) => match sp_metadata(buf.skip(ms)) {
            Err(e) => Err(e),
            Ok((m, _)) => {
                if !(m.record_size == 24 || m.record_size == 28 || m.record_size == 32) {
                    Err(ErrorSpec::InvalidRecordSize(m.record_size))
                } else {
                    let nom = m.record_size as int / 4;
                    let sts = m.node_count * nom;
                    if sts + 16 > ms {
                        Err(ErrorSpec::InvalidSearchTreeSize)
                    } else {
                        Ok(
                            ReaderSpec {
                                data: buf,
                                search_tree_size: sts,
                                record_size: m.record_size as int,
                                node_count: m.node_count as int,
                                node_offset_multi: nom,
                                ip_v4_start: if m.ip_version == 6 {
                                    sp_v4_entry(
                                        buf,
                                        m.node_count as int,
                                        m.record_size as int,
                                        nom,
                                        0,
                                        96,
                                    )
                                } else {
                                    0
                                },
                            },
                        )
                    }
                }
            },
        },
    }
}

impl Reader {
    /// The shape every reader built by `from_bytes` has: a valid record
    /// width, consistent derived constants, and a buffer long enough to
    /// hold the search tree and the separator.
    pub closed spec fn wf(&self) -> bool {
        &&& (self.record_size == 24 || self.record_size == 28 || self.record_size == 32)
        &&& self.node_offset_multi == self.record_size as int / 4
        &&& self.search_tree_size == self.node_count * self.node_offset_multi
        &&& self.search_tree_size + 16 <= self.data@.len()
    }

    /// The region of the file after the search tree and the separator;
    /// data-section offsets count from its first byte.
    pub closed spec fn sp_data_section(&self) -> Seq<u8> {
        self.data@.skip(self.search_tree_size + 16)
    }

    /// What the tree walk yields for an address: a data pointer above the
    /// node count, 0 for an address with no record, or an error for a
    /// malformed tree.
    pub closed spec fn sp_find(&self, octets: Seq<u8>) -> Result<int, ErrorSpec> {
        let start: int = if octets.len() * 8 == 128 {
            0
        } else {
            self.ip_v4_start as int
        };
        let n = sp_walk(
            self.data@,
            self.node_count as int,
            self.record_size as int,
            self.node_offset_multi as int,
            start,
            sp_ip_bits(octets),
        );
        if n == self.node_count as int {
            Ok(0)
        } else if n > self.node_count as int {
            Ok(n)
        } else {
            Err(ErrorSpec::InvalidNode)
        }
    }

    /// Open a database from its bytes: locate and decode the metadata,
    /// validate it, compute the derived constants, and precompute the
    /// IPv4 entry node of an IPv6 tree.
    /// The node reached by descending the left child 96 times from the
    /// root, stopping early at a leaf: the IPv4 entry of an IPv6 tree.
    fn compute_v4_start(&self) -> (r: usize)
        requires
            self.wf(),
        ensures
            r as int == sp_v4_entry(
                self@.data,
                self@.node_count,
                self@.record_size,
                self@.node_offset_multi,
                0,
                96,
            ),
    {
        let ghost nc = self@.node_count;
        let ghost rs = self@.record_size;
        let ghost nom = self@.node_offset_multi;
        let mut node: usize = 0;
        let mut i: usize = 0;
        while i < 96 && node < self.node_count
            invariant
                self.wf(),
                nc == self@.node_count,
                rs == self@.record_size,
                nom == self@.node_offset_multi,
                i <= 96,
                sp_v4_entry(self@.data, nc, rs, nom, node as int, 96 - i) == sp_v4_entry(
                    self@.data,
                    nc,
                    rs,
                    nom,
                    0,
                    96,
                ),
            decreases 96 - i,
        {
            node = self.read_node(node, 0);
            i = i + 1;
        }
        node
    }

    /// Open a database from its bytes: locate and decode the metadata,
    /// validate it, compute the derived constants, and precompute the
    /// IPv4 entry node of an IPv6 tree.
    #[verifier::spinoff_prover]
    #[verifier::rlimit(100)]
    pub fn from_bytes(buf: Vec<u8>) -> (r: Result<Reader, Error>)
        ensures
            match r {
                Ok(v) => sp_open(buf@) == Ok::<ReaderSpec, ErrorSpec>(v@) && v.wf(),
                Err(e) => sp_open(buf@) == Err::<ReaderSpec, _>(e@),
            },
    {
        let ghost gbuf = buf@;
        let metadata_start = match find_metadata_start(buf.as_slice()) {
            Ok(v) => v,
            Err(e) => {
                proof {
                    assert(sp_open(gbuf) == Err::<ReaderSpec, ErrorSpec>(e@)) by {
                        reveal(sp_open);
                    }
                }
                return Err(e);
            },
        };
        proof {
            crate::metadata::lemma_scan_is_last(gbuf, gbuf.len() - 15, metadata_start as int);
        }
        let mslice = slice_subrange(buf.as_slice(), metadata_start, buf.len());
        proof {
            assert(mslice@ =~= gbuf.skip(metadata_start as int));
        }
        let metadata = match Metadata::from_bytes(mslice) {
            Ok(m) => m,
            Err(e) => {
                proof {
                    assert(sp_open(gbuf) == Err::<ReaderSpec, ErrorSpec>(e@)) by {
                        reveal(sp_open);
                    }
                }
                return Err(e);
            },
        };
        let record_size = metadata.record_size;
        if !(record_size == 24 || record_size == 28 || record_size == 32) {
            proof {
                assert(sp_open(gbuf) == Err::<ReaderSpec, ErrorSpec>(
                    ErrorSpec::InvalidRecordSize(record_size),
                )) by {
                    reveal(sp_open);
                }
            }
            return Err(Error::InvalidRecordSize(record_size));
        }
        let node_count = metadata.node_count;
        let node_offset_multi = record_size / 4;
        let ms64 = metadata_start as u64;
        if ms64 < 16 {
            proof {
                vstd::arithmetic::mul::lemma_mul_nonnegative(
                    node_count as int,
                    node_offset_multi as int,
                );
                assert(sp_open(gbuf) == Err::<ReaderSpec, ErrorSpec>(
                    ErrorSpec::InvalidSearchTreeSize,
                )) by {
                    reveal(sp_open);
                }
            }
            return Err(Error::InvalidSearchTreeSize);
        }
        let limit = (ms64 - 16) / node_offset_multi;
        proof {
            vstd::arithmetic::div_mod::lemma_fundamental_div_mod(
                ms64 as int - 16,
                node_offset_multi as int,
            );
        }
        if node_count > limit {
            proof {
                vstd::arithmetic::mul::lemma_mul_inequality(
                    limit as int + 1,
                    node_count as int,
                    node_offset_multi as int,
                );
                vstd::arithmetic::mul::lemma_mul_is_distributive_add_other_way(
                    node_offset_multi as int,
                    limit as int,
                    1,
                );
                vstd::arithmetic::mul::lemma_mul_is_commutative(
                    node_offset_multi as int,
                    limit as int,
                );
                assert(node_count * node_offset_multi > ms64 - 16);
                assert(sp_open(gbuf) == Err::<ReaderSpec, ErrorSpec>(
                    ErrorSpec::InvalidSearchTreeSize,
                )) by {
                    reveal(sp_open);
                }
            }
            return Err(Error::InvalidSearchTreeSize);
        }
        proof {
            vstd::arithmetic::mul::lemma_mul_inequality(
                node_count as int,
                limit as int,
                node_offset_multi as int,
            );
            vstd::arithmetic::mul::lemma_mul_is_commutative(node_offset_multi as int, limit as int);
            vstd::arithmetic::mul::lemma_mul_inequality(
                1,
                node_offset_multi as int,
                node_count as int,
            );
            vstd::arithmetic::mul::lemma_mul_is_commutative(
                node_offset_multi as int,
                node_count as int,
            );
            assert(node_count * node_offset_multi <= ms64 - 16);
        }
        let search_tree_size = node_count * node_offset_multi;
        let ip_version = metadata.ip_version;
        let mut reader = Reader {
            data: buf,
            search_tree_size: search_tree_size as usize,
            record_size: record_size as usize,
            node_count: node_count as usize,
            node_offset_multi: node_offset_multi as usize,
            ip_v4_start: 0,
        };
        proof {
            assert(reader.wf());
        }
        if ip_version == 6 {
            let v4 = reader.compute_v4_start();
            reader.ip_v4_start = v4;
        }
        proof {
            assert(reader.wf());
            assert(sp_open(gbuf) == Ok::<ReaderSpec, ErrorSpec>(reader@)) by {
                reveal(sp_open);
            }
        }
        Ok(reader)
    }

    /// Look an address up: walk the search tree, translate the resulting
    /// pointer to a data-section offset, and decode the record there. The
    /// record value must be a MAP.
    pub fn lookup<T: Decoder>(&self, addr: IpAddr) -> (r: Result<T, Error>)
        requires
            self.wf(),
        ensures
            match r {
                Ok(v) => match self.sp_find(sp_addr_octets(addr)) {
                    Ok(p) => {
                        &&& p != 0
                        &&& p - self@.node_count >= 16
                        &&& p - self@.node_count - 16 < self.sp_data_section().len()
                        &&& match spec_control(
                            self.sp_data_section(),
                            p - self@.node_count - 16,
                        ) {
                            Ok((t, s, pp)) => t == DATA_TYPE_MAP && (match T::sp_decode_size(
                                self.sp_data_section(),
                                pp,
                                s,
                            ) {
                                Ok((w, _)) => w == v@,
                                Err(_) => false,
                            }),
                            Err(_) => false,
                        }
                    },
                    Err(_) => false,
                },
                Err(e) => match self.sp_find(sp_addr_octets(addr)) {
                    Ok(p) => {
                        if p == 0 {
                            e@ == ErrorSpec::AddressNotFound
                        } else if p - self@.node_count < 16 || p - self@.node_count - 16
                            >= self.sp_data_section().len() {
                            e@ == ErrorSpec::CorruptSearchTree
                        } else {
                            match spec_control(
                                self.sp_data_section(),
                                p - self@.node_count - 16,
                            ) {
                                Ok((t, s, pp)) => {
                                    if t == DATA_TYPE_MAP {
                                        T::sp_decode_size(self.sp_data_section(), pp, s) == Err::<
                                            (T::V, int),
                                            ErrorSpec,
                                        >(e@)
                                    } else {
                                        e@ == ErrorSpec::InvalidDataType(t)
                                    }
                                },
                                Err(ec) => ec == e@,
                            }
                        }
                    },
                    Err(ec) => ec == e@,
                },
            },
    {
        let pointer = match addr {
            IpAddr::V4(o) => self.find_address_in_tree(o.as_slice())?,
            IpAddr::V6(o) => self.find_address_in_tree(o.as_slice())?,
        };
        if pointer == 0 {
            return Err(Error::AddressNotFound);
        }
        let pd = pointer - self.node_count;
        if pd < DATA_SECTION_SEPARATOR_SIZE {
            return Err(Error::CorruptSearchTree);
        }
        let mut offset = pd - DATA_SECTION_SEPARATOR_SIZE;
        let buf = self.data.as_slice();
        let n = buf.len();
        let ds = slice_subrange(buf, self.search_tree_size + DATA_SECTION_SEPARATOR_SIZE, n);
        proof {
            assert(ds@ =~= self.sp_data_section());
        }
        if offset >= ds.len() {
            return Err(Error::CorruptSearchTree);
        }
        let (data_type, size) = read_control(ds, &mut offset)?;
        if data_type != DATA_TYPE_MAP {
            return Err(Error::InvalidDataType(data_type));
        }
        T::decode_with_size(ds, &mut offset, size)
    }

    /// Decode the metadata map afresh from the stored buffer.
    pub fn metadata(&self) -> (r: Result<Metadata, Error>)
        ensures
            match r {
                Ok(m) => match sp_marker_end(self@.data) {
                    Some(ms) => match sp_metadata(self@.data.skip(ms)) {
                        Ok((mm, _)) => mm == m@,
                        Err(_) => false,
                    },
                    None => false,
                },
                Err(e) => match sp_marker_end(self@.data) {
                    Some(ms) => sp_metadata(self@.data.skip(ms)) == Err::<(MetadataSpec, int), _>(
                        e@,
                    ),
                    None => e@ == ErrorSpec::MetadataNotFound,
                },
            },
    {
        let offset = match find_metadata_start(self.data.as_slice()) {
            Ok(v) => v,
            Err(e) => {
                return Err(e);
            },
        };
        proof {
            crate::metadata::lemma_scan_is_last(self.data@, self.data@.len() - 15, offset as int);
        }
        let mslice = slice_subrange(self.data.as_slice(), offset, self.data.len());
        proof {
            assert(mslice@ =~= self.data@.skip(offset as int));
        }
        Metadata::from_bytes(mslice)
    }

    /// Read one record of a trie node: `index` 0 for the left child, 1
    /// for the right.
    pub fn read_node(&self, node: usize, index: usize) -> (r: usize)
        requires
            self.wf(),
            node < self@.node_count,
            index <= 1,
        ensures
            r as int == sp_node_record(
                self@.data,
                self@.record_size,
                self@.node_offset_multi,
                node as int,
                index as int,
            ),
    {
        let buf = self.data.as_slice();
        proof {
            vstd::arithmetic::mul::lemma_mul_inequality(
                node as int + 1,
                self.node_count as int,
                self.node_offset_multi as int,
            );
            vstd::arithmetic::mul::lemma_mul_is_distributive_add(
                self.node_offset_multi as int,
                node as int,
                1,
            );
            vstd::arithmetic::mul::lemma_mul_is_commutative(
                self.node_offset_multi as int,
                node as int,
            );
            reveal_with_fuel(pow256, 9);
        }
        let base = node * self.node_offset_multi;
        if self.record_size == 28 {
            let mut middle = *vstd::slice::slice_index_get(buf, base + 3);
            if index != 0 {
                middle = middle & 0x0f;
            } else {
                middle = (middle & 0xf0) >> 4;
            }
            let off = base + index * 4;
            let bytes = slice_subrange(buf, off, off + 3);
            proof {
                crate::decode::lemma_be_val_bound(bytes@);
                reveal_with_fuel(pow256, 9);
                assert(pow256(3) == 0x100_0000);
                assert((middle as usize) * pow256(3) <= 255 * 0x100_0000);
                assert(usize::MAX >= 0xffff_ffff);
            }
            bytes_to_usize_with_prefix(middle as usize, bytes)
        } else if self.record_size == 24 {
            let off = base + index * 3;
            let bytes = slice_subrange(buf, off, off + 3);
            proof {
                crate::decode::lemma_be_val_bound(bytes@);
                lemma_pow256_mono(3, 4);
            }
            bytes_to_usize(bytes)
        } else {
            let off = base + index * 4;
            let bytes = slice_subrange(buf, off, off + 4);
            proof {
                crate::decode::lemma_be_val_bound(bytes@);
            }
            bytes_to_usize(bytes)
        }
    }

    /// Walk the search tree with the address bits, from the root for a
    /// 128-bit address and from the IPv4 entry node otherwise.
    pub fn find_address_in_tree(&self, ip: &[u8]) -> (r: Result<usize, Error>)
        requires
            self.wf(),
            ip@.len() == 4 || ip@.len() == 16,
        ensures
            match r {
                Ok(p) => self.sp_find(ip@) == Ok::<int, ErrorSpec>(p as int),
                Err(e) => self.sp_find(ip@) == Err::<int, _>(e@),
            },
    {
        let bit_count = ip.len() * 8;
        let ghost bits = sp_ip_bits(ip@);
        let start: usize = if bit_count == 128 {
            0
        } else {
            self.ip_v4_start
        };
        let mut node: usize = start;
        let mut i: usize = 0;
        proof {
            assert(bits.skip(0) =~= bits);
        }
        while i < bit_count && node < self.node_count
            invariant
                self.wf(),
                bit_count == ip@.len() * 8,
                ip@.len() == 4 || ip@.len() == 16,
                i <= bit_count,
                bits == sp_ip_bits(ip@),
                sp_walk(
                    self.data@,
                    self.node_count as int,
                    self.record_size as int,
                    self.node_offset_multi as int,
                    node as int,
                    bits.skip(i as int),
                ) == sp_walk(
                    self.data@,
                    self.node_count as int,
                    self.record_size as int,
                    self.node_offset_multi as int,
                    start as int,
                    bits,
                ),
            decreases bit_count - i,
        {
            let byte = *vstd::slice::slice_index_get(ip, i / 8);
            let shift: u8 = 7 - ((i % 8) as u8);
            let bit = (byte >> shift) & 1;
            proof {
                let b = byte;
                let sh = shift;
                assert((b >> sh) & 1 <= 1) by (bit_vector);
                assert(bits.skip(i as int).drop_first() =~= bits.skip(i + 1));
                assert(bits.skip(i as int)[0] == bits[i as int]);
                assert(bits[i as int] == sp_ip_bit(ip@, i as int));
            }
            node = self.read_node(node, bit as usize);
            i = i + 1;
        }
        proof {
            if i >= bit_count {
                assert(bits.skip(i as int) =~= Seq::<bool>::empty());
            }
        }
        if self.node_count == node {
            Ok(0)
        } else if node > self.node_count {
            Ok(node)
        } else {
            Err(Error::InvalidNode)
        }
    }
}

/// GeoIP2 Anonymous IP record.
#[derive(Debug, Clone)]
pub struct AnonymousIp {
    pub is_anonymous: Option<bool>,
    pub is_anonymous_vpn: Option<bool>,
    pub is_hosting_provider: Option<bool>,
    pub is_public_proxy: Option<bool>,
    pub is_residential_proxy: Option<bool>,
    pub is_tor_exit_node: Option<bool>,
}

/// Model of [`AnonymousIp`].
pub struct AnonymousIpSpec {
    pub is_anonymous: Option<bool>,
    pub is_anonymous_vpn: Option<bool>,
    pub is_hosting_provider: Option<bool>,
    pub is_public_proxy: Option<bool>,
    pub is_residential_proxy: Option<bool>,
    pub is_tor_exit_node: Option<bool>,
}

impl View for AnonymousIp {
    type V = AnonymousIpSpec;

    open spec fn view(&self) -> AnonymousIpSpec {
        AnonymousIpSpec {
            is_anonymous: self.is_anonymous,
            is_anonymous_vpn: self.is_anonymous_vpn,
            is_hosting_provider: self.is_hosting_provider,
            is_public_proxy: self.is_public_proxy,
            is_residential_proxy: self.is_residential_proxy,
            is_tor_exit_node: self.is_tor_exit_node,
        }
    }
}

/// Field decoding for [`AnonymousIp`]: `n` key/value pairs applied to `m` in
/// file order; an unknown key is fatal.
pub open spec fn sp_anonymous_ip_fields(m: AnonymousIpSpec, buf: Seq<u8>, off: int, n: int) -> Result<
    (AnonymousIpSpec, int),
    ErrorSpec,
>
    decreases n,
{
    if n <= 0 {
        Ok((m, off))
    } else {
        match spec_read_str(buf, off) {
            Err(e) => Err(e),
            Ok((key, p)) => {
                if key == "is_anonymous"@ {
                    match spec_read_bool(buf, p) {
                        Err(e) => Err(e),
                        Ok((v, q)) => sp_anonymous_ip_fields(
                            AnonymousIpSpec { is_anonymous: Some(v), ..m },
                            buf,
                            q,
                            n - 1,
                        ),
                    }
                } else if key == "is_anonymous_vpn"@ {
                    match spec_read_bool(buf, p) {
                        Err(e) => Err(e),
                        Ok((v, q)) => sp_anonymous_ip_fields(
                            AnonymousIpSpec { is_anonymous_vpn: Some(v), ..m },
                            buf,
                            q,
                            n - 1,
                        ),
                    }
                } else if key == "is_hosting_provider"@ {
                    match spec_read_bool(buf, p) {
                        Err(e) => Err(e),
                        Ok((v, q)) => sp_anonymous_ip_fields(
                            AnonymousIpSpec { is_hosting_provider: Some(v), ..m },
                            buf,
                            q,
                            n - 1,
                        ),
                    }
                } else if key == "is_public_proxy"@ {
                    match spec_read_bool(buf, p) {
                        Err(e) => Err(e),
                        Ok((v, q)) => sp_anonymous_ip_fields(
                            AnonymousIpSpec { is_public_proxy: Some(v), ..m },
                            buf,
                            q,
                            n - 1,
                        ),
                    }
                } else if key == "is_residential_proxy"@ {
                    match spec_read_bool(buf, p) {
                        Err(e) => Err(e),
                        Ok((v, q)) => sp_anonymous_ip_fields(
                            AnonymousIpSpec { is_residential_proxy: Some(v), ..m },
                            buf,
                            q,
                            n - 1,
                        ),
                    }
                } else if key == "is_tor_exit_node"@ {
                    match spec_read_bool(buf, p) {
                        Err(e) => Err(e),
                        Ok((v, q)) => sp_anonymous_ip_fields(
                            AnonymousIpSpec { is_tor_exit_node: Some(v), ..m },
                            buf,
                            q,
                            n - 1,
                        ),
                    }
                } else {
                    Err(ErrorSpec::UnknownField(key))
                }
            },
        }
    }
}

fn anonymous_ip_fields(acc: AnonymousIp, buf: &[u8], offset: &mut usize, n: usize) -> (r: Result<
    AnonymousIp,
    Error,
>)
    ensures
        match r {
            Ok(v) => sp_anonymous_ip_fields(acc@, buf@, *old(offset) as int, n as int) == Ok::<
                _,
                ErrorSpec,
            >((v@, *final(offset) as int)),
            Err(e) => sp_anonymous_ip_fields(acc@, buf@, *old(offset) as int, n as int) == Err::<
                (AnonymousIpSpec, int),
                _,
            >(e@),
        },
    decreases n,
{
    if n == 0 {
        return Ok(acc);
    }
    let key = read_str(buf, offset)?;
    if str_eq(key.as_str(), "is_anonymous") {
        let v = read_bool(buf, offset)?;
        anonymous_ip_fields(AnonymousIp { is_anonymous: Some(v), ..acc }, buf, offset, n - 1)
    } else if str_eq(key.as_str(), "is_anonymous_vpn") {
        let v = read_bool(buf, offset)?;
        anonymous_ip_fields(AnonymousIp { is_anonymous_vpn: Some(v), ..acc }, buf, offset, n - 1)
    } else if str_eq(key.as_str(), "is_hosting_provider") {
        let v = read_bool(buf, offset)?;
        anonymous_ip_fields(AnonymousIp { is_hosting_provider: Some(v), ..acc }, buf, offset, n - 1)
    } else if str_eq(key.as_str(), "is_public_proxy") {
        let v = read_bool(buf, offset)?;
        anonymous_ip_fields(AnonymousIp { is_public_proxy: Some(v), ..acc }, buf, offset, n - 1)
    } else if str_eq(key.as_str(), "is_residential_proxy") {
        let v = read_bool(buf, offset)?;
        anonymous_ip_fields(AnonymousIp { is_residential_proxy: Some(v), ..acc }, buf, offset, n - 1)
    } else if str_eq(key.as_str(), "is_tor_exit_node") {
        let v = read_bool(buf, offset)?;
        anonymous_ip_fields(AnonymousIp { is_tor_exit_node: Some(v), ..acc }, buf, offset, n - 1)
    } else {
        Err(Error::UnknownField(key))
    }
}

impl Decoder for AnonymousIp {
    open spec fn sp_decode_size(buf: Seq<u8>, off: int, n: int) -> Result<
        (AnonymousIpSpec, int),
        ErrorSpec,
    > {
        sp_anonymous_ip_fields(
            AnonymousIpSpec { is_anonymous: None, is_anonymous_vpn: None, is_hosting_provider: None, is_public_proxy: None, is_residential_proxy: None, is_tor_exit_node: None },
            buf,
            off,
            n,
        )
    }

    fn decode_with_size(buf: &[u8], offset: &mut usize, size: usize) -> (r: Result<Self, Error>) {
        anonymous_ip_fields(
            AnonymousIp { is_anonymous: None, is_anonymous_vpn: None, is_hosting_provider: None, is_public_proxy: None, is_residential_proxy: None, is_tor_exit_node: None },
            buf,
            offset,
            size,
        )
    }
}

/// GeoIP2 Country record.
#[derive(Debug, Clone)]
pub struct Country {
    pub continent: Option<models::Continent>,
    pub country: Option<models::Country>,
    pub registered_country: Option<models::Country>,
    pub represented_country: Option<models::RepresentedCountry>,
    pub traits: Option<models::Traits>,
}

/// Model of [`Country`].
pub struct CountrySpec {
    pub continent: Option<models::ContinentSpec>,
    pub country: Option<models::CountrySpec>,
    pub registered_country: Option<models::CountrySpec>,
    pub represented_country: Option<models::RepresentedCountrySpec>,
    pub traits: Option<models::TraitsSpec>,
}

impl View for Country {
    type V = CountrySpec;

    open spec fn view(&self) -> CountrySpec {
        CountrySpec {
            continent: view_opt(self.continent),
            country: view_opt(self.country),
            registered_country: view_opt(self.registered_country),
            represented_country: view_opt(self.represented_country),
            traits: view_opt(self.traits),
        }
    }
}

/// Field decoding for [`Country`]: `n` key/value pairs applied to `m` in
/// file order; an unknown key is fatal.
pub open spec fn sp_country_fields(m: CountrySpec, buf: Seq<u8>, off: int, n: int) -> Result<
    (CountrySpec, int),
    ErrorSpec,
>
    decreases n,
{
    if n <= 0 {
        Ok((m, off))
    } else {
        match spec_read_str(buf, off) {
            Err(e) => Err(e),
            Ok((key, p)) => {
                if key == "continent"@ {
                    match models::sp_continent_decode(buf, p) {
                        Err(e) => Err(e),
                        Ok((v, q)) => sp_country_fields(
                            CountrySpec { continent: Some(v), ..m },
                            buf,
                            q,
                            n - 1,
                        ),
                    }
                } else if key == "country"@ {
                    match models::sp_country_decode(buf, p) {
                        Err(e) => Err(e),
                        Ok((v, q)) => sp_country_fields(
                            CountrySpec { country: Some(v), ..m },
                            buf,
                            q,
                            n - 1,
                        ),
                    }
                } else if key == "registered_country"@ {
                    match models::sp_country_decode(buf, p) {
                        Err(e) => Err(e),
                        Ok((v, q)) => sp_country_fields(
                            CountrySpec { registered_country: Some(v), ..m },
                            buf,
                            q,
                            n - 1,
                        ),
                    }
                } else if key == "represented_country"@ {
                    match models::sp_represented_country_decode(buf, p) {
                        Err(e) => Err(e),
                        Ok((v, q)) => sp_country_fields(
                            CountrySpec { represented_country: Some(v), ..m },
                            buf,
                            q,
                            n - 1,
                        ),
                    }
                } else if key == "traits"@ {
                    match models::sp_traits_decode(buf, p) {
                        Err(e) => Err(e),
                        Ok((v, q)) => sp_country_fields(
                            CountrySpec { traits: Some(v), ..m },
                            buf,
                            q,
                            n - 1,
                        ),
                    }
                } else {
                    Err(ErrorSpec::UnknownField(key))
                }
            },
        }
    }
}

fn country_fields(acc: Country, buf: &[u8], offset: &mut usize, n: usize) -> (r: Result<
    Country,
    Error,
>)
    ensures
        match r {
            Ok(v) => sp_country_fields(acc@, buf@, *old(offset) as int, n as int) == Ok::<
                _,
                ErrorSpec,
            >((v@, *final(offset) as int)),
            Err(e) => sp_country_fields(acc@, buf@, *old(offset) as int, n as int) == Err::<
                (CountrySpec, int),
                _,
            >(e@),
        },
    decreases n,
{
    if n == 0 {
        return Ok(acc);
    }
    let key = read_str(buf, offset)?;
    if str_eq(key.as_str(), "continent") {
        let ghost p0 = *offset as int;
        let v = match models::Continent::decode(buf, offset) {
            Ok(v) => v,
            Err(e) => {
                proof {
                    assert(models::sp_continent_decode(buf@, p0) == Err::<
                        (models::ContinentSpec, int),
                        ErrorSpec,
                    >(e@));
                }
                return Err(e);
            },
        };
        let ghost p1 = *offset as int;
        proof {
            assert(models::sp_continent_decode(buf@, p0) == Ok::<_, ErrorSpec>((v@, p1)));
        }
        country_fields(Country { continent: Some(v), ..acc }, buf, offset, n - 1)
    } else if str_eq(key.as_str(), "country") {
        let ghost p0 = *offset as int;
        let v = match models::Country::decode(buf, offset) {
            Ok(v) => v,
            Err(e) => {
                proof {
                    assert(models::sp_country_decode(buf@, p0) == Err::<
                        (models::CountrySpec, int),
                        ErrorSpec,
                    >(e@));
                }
                return Err(e);
            },
        };
        let ghost p1 = *offset as int;
        proof {
            assert(models::sp_country_decode(buf@, p0) == Ok::<_, ErrorSpec>((v@, p1)));
        }
        country_fields(Country { country: Some(v), ..acc }, buf, offset, n - 1)
    } else if str_eq(key.as_str(), "registered_country") {
        let ghost p0 = *offset as int;
        let v = match models::Country::decode(buf, offset) {
            Ok(v) => v,
            Err(e) => {
                proof {
                    assert(models::sp_country_decode(buf@, p0) == Err::<
                        (models::CountrySpec, int),
                        ErrorSpec,
                    >(e@));
                }
                return Err(e);
            },
        };
        let ghost p1 = *offset as int;
        proof {
            assert(models::sp_country_decode(buf@, p0) == Ok::<_, ErrorSpec>((v@, p1)));
        }
        country_fields(Country { registered_country: Some(v), ..acc }, buf, offset, n - 1)
    } else if str_eq(key.as_str(), "represented_country") {
        let ghost p0 = *offset as int;
        let v = match models::RepresentedCountry::decode(buf, offset) {
            Ok(v) => v,
            Err(e) => {
                proof {
                    assert(models::sp_represented_country_decode(buf@, p0) == Err::<
                        (models::RepresentedCountrySpec, int),
                        ErrorSpec,
                    >(e@));
                }
                return Err(e);
            },
        };
        let ghost p1 = *offset as int;
        proof {
            assert(models::sp_represented_country_decode(buf@, p0) == Ok::<_, ErrorSpec>((v@, p1)));
        }
        country_fields(Country { represented_country: Some(v), ..acc }, buf, offset, n - 1)
    } else if str_eq(key.as_str(), "traits") {
        let ghost p0 = *offset as int;
        let v = match models::Traits::decode(buf, offset) {
            Ok(v) => v,
            Err(e) => {
                proof {
                    assert(models::sp_traits_decode(buf@, p0) == Err::<
                        (models::TraitsSpec, int),
                        ErrorSpec,
                    >(e@));
                }
                return Err(e);
            },
        };
        let ghost p1 = *offset as int;
        proof {
            assert(models::sp_traits_decode(buf@, p0) == Ok::<_, ErrorSpec>((v@, p1)));
        }
        country_fields(Country { traits: Some(v), ..acc }, buf, offset, n - 1)
    } else {
        Err(Error::UnknownField(key))
    }
}

impl Decoder for Country {
    open spec fn sp_decode_size(buf: Seq<u8>, off: int, n: int) -> Result<
        (CountrySpec, int),
        ErrorSpec,
    > {
        sp_country_fields(
            CountrySpec { continent: None, country: None, registered_country: None, represented_country: None, traits: None },
            buf,
            off,
            n,
        )
    }

    fn decode_with_size(buf: &[u8], offset: &mut usize, size: usize) -> (r: Result<Self, Error>) {
        country_fields(
            Country { continent: None, country: None, registered_country: None, represented_country: None, traits: None },
            buf,
            offset,
            size,
        )
    }
}

/// GeoIP2 City record.
#[derive(Debug, Clone)]
pub struct City {
    pub city: Option<models::City>,
    pub continent: Option<models::Continent>,
    pub country: Option<models::Country>,
    pub location: Option<models::Location>,
    pub postal: Option<models::Postal>,
    pub registered_country: Option<models::Country>,
    pub represented_country: Option<models::RepresentedCountry>,
    pub subdivisions: Option<Vec<models::Subdivision>>,
    pub traits: Option<models::Traits>,
}

/// Model of [`City`].
pub struct CitySpec {
    pub city: Option<models::CitySpec>,
    pub continent: Option<models::ContinentSpec>,
    pub country: Option<models::CountrySpec>,
    pub location: Option<models::LocationSpec>,
    pub postal: Option<models::PostalSpec>,
    pub registered_country: Option<models::CountrySpec>,
    pub represented_country: Option<models::RepresentedCountrySpec>,
    pub subdivisions: Option<Seq<models::SubdivisionSpec>>,
    pub traits: Option<models::TraitsSpec>,
}

impl View for City {
    type V = CitySpec;

    open spec fn view(&self) -> CitySpec {
        CitySpec {
            city: view_opt(self.city),
            continent: view_opt(self.continent),
            country: view_opt(self.country),
            location: view_opt(self.location),
            postal: view_opt(self.postal),
            registered_country: view_opt(self.registered_country),
            represented_country: view_opt(self.represented_country),
            subdivisions: match self.subdivisions {
                Some(v) => Some(views_of_recs(v@)),
                None => None,
            },
            traits: view_opt(self.traits),
        }
    }
}

/// Field decoding for [`City`]: `n` key/value pairs applied to `m` in
/// file order; an unknown key is fatal.
pub open spec fn sp_city_fields(m: CitySpec, buf: Seq<u8>, off: int, n: int) -> Result<
    (CitySpec, int),
    ErrorSpec,
>
    decreases n,
{
    if n <= 0 {
        Ok((m, off))
    } else {
        match spec_read_str(buf, off) {
            Err(e) => Err(e),
            Ok((key, p)) => {
                if key == "city"@ {
                    match models::sp_city_decode(buf, p) {
                        Err(e) => Err(e),
                        Ok((v, q)) => sp_city_fields(
                            CitySpec { city: Some(v), ..m },
                            buf,
                            q,
                            n - 1,
                        ),
                    }
                } else if key == "continent"@ {
                    match models::sp_continent_decode(buf, p) {
                        Err(e) => Err(e),
                        Ok((v, q)) => sp_city_fields(
                            CitySpec { continent: Some(v), ..m },
                            buf,
                            q,
                            n - 1,
                        ),
                    }
                } else if key == "country"@ {
                    match models::sp_country_decode(buf, p) {
                        Err(e) => Err(e),
                        Ok((v, q)) => sp_city_fields(
                            CitySpec { country: Some(v), ..m },
                            buf,
                            q,
                            n - 1,
                        ),
                    }
                } else if key == "location"@ {
                    match models::sp_location_decode(buf, p) {
                        Err(e) => Err(e),
                        Ok((v, q)) => sp_city_fields(
                            CitySpec { location: Some(v), ..m },
                            buf,
                            q,
                            n - 1,
                        ),
                    }
                } else if key == "postal"@ {
                    match models::sp_postal_decode(buf, p) {
                        Err(e) => Err(e),
                        Ok((v, q)) => sp_city_fields(
                            CitySpec { postal: Some(v), ..m },
                            buf,
                            q,
                            n - 1,
                        ),
                    }
                } else if key == "registered_country"@ {
                    match models::sp_country_decode(buf, p) {
                        Err(e) => Err(e),
                        Ok((v, q)) => sp_city_fields(
                            CitySpec { registered_country: Some(v), ..m },
                            buf,
                            q,
                            n - 1,
                        ),
                    }
                } else if key == "represented_country"@ {
                    match models::sp_represented_country_decode(buf, p) {
                        Err(e) => Err(e),
                        Ok((v, q)) => sp_city_fields(
                            CitySpec { represented_country: Some(v), ..m },
                            buf,
                            q,
                            n - 1,
                        ),
                    }
                } else if key == "subdivisions"@ {
                    match models::sp_read_subdivision_array(buf, p) {
                        Err(e) => Err(e),
                        Ok((v, q)) => sp_city_fields(
                            CitySpec { subdivisions: Some(v), ..m },
                            buf,
                            q,
                            n - 1,
                        ),
                    }
                } else if key == "traits"@ {
                    match models::sp_traits_decode(buf, p) {
                        Err(e) => Err(e),
                        Ok((v, q)) => sp_city_fields(
                            CitySpec { traits: Some(v), ..m },
                            buf,
                            q,
                            n - 1,
                        ),
                    }
                } else {
                    Err(ErrorSpec::UnknownField(key))
                }
            },
        }
    }
}

fn city_fields(acc: City, buf: &[u8], offset: &mut usize, n: usize) -> (r: Result<
    City,
    Error,
>)
    ensures
        match r {
            Ok(v) => sp_city_fields(acc@, buf@, *old(offset) as int, n as int) == Ok::<
                _,
                ErrorSpec,
            >((v@, *final(offset) as int)),
            Err(e) => sp_city_fields(acc@, buf@, *old(offset) as int, n as int) == Err::<
                (CitySpec, int),
                _,
            >(e@),
        },
    decreases n,
{
    if n == 0 {
        return Ok(acc);
    }
    let key = read_str(buf, offset)?;
    if str_eq(key.as_str(), "city") {
        let ghost p0 = *offset as int;
        let v = match models::City::decode(buf, offset) {
            Ok(v) => v,
            Err(e) => {
                proof {
                    assert(models::sp_city_decode(buf@, p0) == Err::<
                        (models::CitySpec, int),
                        ErrorSpec,
                    >(e@));
                }
                return Err(e);
            },
        };
        let ghost p1 = *offset as int;
        proof {
            assert(models::sp_city_decode(buf@, p0) == Ok::<_, ErrorSpec>((v@, p1)));
        }
        city_fields(City { city: Some(v), ..acc }, buf, offset, n - 1)
    } else if str_eq(key.as_str(), "continent") {
        let ghost p0 = *offset as int;
        let v = match models::Continent::decode(buf, offset) {
            Ok(v) => v,
            Err(e) => {
                proof {
                    assert(models::sp_continent_decode(buf@, p0) == Err::<
                        (models::ContinentSpec, int),
                        ErrorSpec,
                    >(e@));
                }
                return Err(e);
            },
        };
        let ghost p1 = *offset as int;
        proof {
            assert(models::sp_continent_decode(buf@, p0) == Ok::<_, ErrorSpec>((v@, p1)));
        }
        city_fields(City { continent: Some(v), ..acc }, buf, offset, n - 1)
    } else if str_eq(key.as_str(), "country") {
        let ghost p0 = *offset as int;
        let v = match models::Country::decode(buf, offset) {
            Ok(v) => v,
            Err(e) => {
                proof {
                    assert(models::sp_country_decode(buf@, p0) == Err::<
                        (models::CountrySpec, int),
                        ErrorSpec,
                    >(e@));
                }
                return Err(e);
            },
        };
        let ghost p1 = *offset as int;
        proof {
            assert(models::sp_country_decode(buf@, p0) == Ok::<_, ErrorSpec>((v@, p1)));
        }
        city_fields(City { country: Some(v), ..acc }, buf, offset, n - 1)
    } else if str_eq(key.as_str(), "location") {
        let ghost p0 = *offset as int;
        let v = match models::Location::decode(buf, offset) {
            Ok(v) => v,
            Err(e) => {
                proof {
                    assert(models::sp_location_decode(buf@, p0) == Err::<
                        (models::LocationSpec, int),
                        ErrorSpec,
                    >(e@));
                }
                return Err(e);
            },
        };
        let ghost p1 = *offset as int;
        proof {
            assert(models::sp_location_decode(buf@, p0) == Ok::<_, ErrorSpec>((v@, p1)));
        }
        city_fields(City { location: Some(v), ..acc }, buf, offset, n - 1)
    } else if str_eq(key.as_str(), "postal") {
        let ghost p0 = *offset as int;
        let v = match models::Postal::decode(buf, offset) {
            Ok(v) => v,
            Err(e) => {
                proof {
                    assert(models::sp_postal_decode(buf@, p0) == Err::<
                        (models::PostalSpec, int),
                        ErrorSpec,
                    >(e@));
                }
                return Err(e);
            },
        };
        let ghost p1 = *offset as int;
        proof {
            assert(models::sp_postal_decode(buf@, p0) == Ok::<_, ErrorSpec>((v@, p1)));
        }
        city_fields(City { postal: Some(v), ..acc }, buf, offset, n - 1)
    } else if str_eq(key.as_str(), "registered_country") {
        let ghost p0 = *offset as int;
        let v = match models::Country::decode(buf, offset) {
            Ok(v) => v,
            Err(e) => {
                proof {
                    assert(models::sp_country_decode(buf@, p0) == Err::<
                        (models::CountrySpec, int),
                        ErrorSpec,
                    >(e@));
                }
                return Err(e);
            },
        };
        let ghost p1 = *offset as int;
        proof {
            assert(models::sp_country_decode(buf@, p0) == Ok::<_, ErrorSpec>((v@, p1)));
        }
        city_fields(City { registered_country: Some(v), ..acc }, buf, offset, n - 1)
    } else if str_eq(key.as_str(), "represented_country") {
        let ghost p0 = *offset as int;
        let v = match models::RepresentedCountry::decode(buf, offset) {
            Ok(v) => v,
            Err(e) => {
                proof {
                    assert(models::sp_represented_country_decode(buf@, p0) == Err::<
                        (models::RepresentedCountrySpec, int),
                        ErrorSpec,
                    >(e@));
                }
                return Err(e);
            },
        };
        let ghost p1 = *offset as int;
        proof {
            assert(models::sp_represented_country_decode(buf@, p0) == Ok::<_, ErrorSpec>((v@, p1)));
        }
        city_fields(City { represented_country: Some(v), ..acc }, buf, offset, n - 1)
    } else if str_eq(key.as_str(), "subdivisions") {
        let v = models::read_subdivision_array(buf, offset)?;
        city_fields(City { subdivisions: Some(v), ..acc }, buf, offset, n - 1)
    } else if str_eq(key.as_str(), "traits") {
        let ghost p0 = *offset as int;
        let v = match models::Traits::decode(buf, offset) {
            Ok(v) => v,
            Err(e) => {
                proof {
                    assert(models::sp_traits_decode(buf@, p0) == Err::<
                        (models::TraitsSpec, int),
                        ErrorSpec,
                    >(e@));
                }
                return Err(e);
            },
        };
        let ghost p1 = *offset as int;
        proof {
            assert(models::sp_traits_decode(buf@, p0) == Ok::<_, ErrorSpec>((v@, p1)));
        }
        city_fields(City { traits: Some(v), ..acc }, buf, offset, n - 1)
    } else {
        Err(Error::UnknownField(key))
    }
}

impl Decoder for City {
    open spec fn sp_decode_size(buf: Seq<u8>, off: int, n: int) -> Result<
        (CitySpec, int),
        ErrorSpec,
    > {
        sp_city_fields(
            CitySpec { city: None, continent: None, country: None, location: None, postal: None, registered_country: None, represented_country: None, subdivisions: None, traits: None },
            buf,
            off,
            n,
        )
    }

    fn decode_with_size(buf: &[u8], offset: &mut usize, size: usize) -> (r: Result<Self, Error>) {
        city_fields(
            City { city: None, continent: None, country: None, location: None, postal: None, registered_country: None, represented_country: None, subdivisions: None, traits: None },
            buf,
            offset,
            size,
        )
    }
}

/// GeoIP2 Enterprise record.
#[derive(Debug, Clone)]
pub struct Enterprise {
    pub city: Option<models::EnterpriseCity>,
    pub continent: Option<models::Continent>,
    pub country: Option<models::EnterpriseCountry>,
    pub location: Option<models::Location>,
    pub postal: Option<models::EnterprisePostal>,
    pub registered_country: Option<models::EnterpriseCountry>,
    pub represented_country: Option<models::EnterpriseRepresentedCountry>,
    pub subdivisions: Option<Vec<models::EnterpriseSubdivision>>,
    pub traits: Option<models::EnterpriseTraits>,
}

/// Model of [`Enterprise`].
pub struct EnterpriseSpec {
    pub city: Option<models::EnterpriseCitySpec>,
    pub continent: Option<models::ContinentSpec>,
    pub country: Option<models::EnterpriseCountrySpec>,
    pub location: Option<models::LocationSpec>,
    pub postal: Option<models::EnterprisePostalSpec>,
    pub registered_country: Option<models::EnterpriseCountrySpec>,
    pub represented_country: Option<models::EnterpriseRepresentedCountrySpec>,
    pub subdivisions: Option<Seq<models::EnterpriseSubdivisionSpec>>,
    pub traits: Option<models::EnterpriseTraitsSpec>,
}

impl View for Enterprise {
    type V = EnterpriseSpec;

    open spec fn view(&self) -> EnterpriseSpec {
        EnterpriseSpec {
            city: view_opt(self.city),
            continent: view_opt(self.continent),
            country: view_opt(self.country),
            location: view_opt(self.location),
            postal: view_opt(self.postal),
            registered_country: view_opt(self.registered_country),
            represented_country: view_opt(self.represented_country),
            subdivisions: match self.subdivisions {
                Some(v) => Some(views_of_recs(v@)),
                None => None,
            },
            traits: view_opt(self.traits),
        }
    }
}

/// Field decoding for [`Enterprise`]: `n` key/value pairs applied to `m` in
/// file order; an unknown key is fatal.
pub open spec fn sp_enterprise_fields(m: EnterpriseSpec, buf: Seq<u8>, off: int, n: int) -> Result<
    (EnterpriseSpec, int),
    ErrorSpec,
>
    decreases n,
{
    if n <= 0 {
        Ok((m, off))
    } else {
        match spec_read_str(buf, off) {
            Err(e) => Err(e),
            Ok((key, p)) => {
                if key == "city"@ {
                    match models::sp_enterprise_city_decode(buf, p) {
                        Err(e) => Err(e),
                        Ok((v, q)) => sp_enterprise_fields(
                            EnterpriseSpec { city: Some(v), ..m },
                            buf,
                            q,
                            n - 1,
                        ),
                    }
                } else if key == "continent"@ {
                    match models::sp_continent_decode(buf, p) {
                        Err(e) => Err(e),
                        Ok((v, q)) => sp_enterprise_fields(
                            EnterpriseSpec { continent: Some(v), ..m },
                            buf,
                            q,
                            n - 1,
                        ),
                    }
                } else if key == "country"@ {
                    match models::sp_enterprise_country_decode(buf, p) {
                        Err(e) => Err(e),
                        Ok((v, q)) => sp_enterprise_fields(
                            EnterpriseSpec { country: Some(v), ..m },
                            buf,
                            q,
                            n - 1,
                        ),
                    }
                } else if key == "location"@ {
                    match models::sp_location_decode(buf, p) {
                        Err(e) => Err(e),
                        Ok((v, q)) => sp_enterprise_fields(
                            EnterpriseSpec { location: Some(v), ..m },
                            buf,
                            q,
                            n - 1,
                        ),
                    }
                } else if key == "postal"@ {
                    match models::sp_enterprise_postal_decode(buf, p) {
                        Err(e) => Err(e),
                        Ok((v, q)) => sp_enterprise_fields(
                            EnterpriseSpec { postal: Some(v), ..m },
                            buf,
                            q,
                            n - 1,
                        ),
                    }
                } else if key == "registered_country"@ {
                    match models::sp_enterprise_country_decode(buf, p) {
                        Err(e) => Err(e),
                        Ok((v, q)) => sp_enterprise_fields(
                            EnterpriseSpec { registered_country: Some(v), ..m },
                            buf,
                            q,
                            n - 1,
                        ),
                    }
                } else if key == "represented_country"@ {
                    match models::sp_enterprise_represented_country_decode(buf, p) {
                        Err(e) => Err(e),
                        Ok((v, q)) => sp_enterprise_fields(
                            EnterpriseSpec { represented_country: Some(v), ..m },
                            buf,
                            q,
                            n - 1,
                        ),
                    }
                } else if key == "subdivisions"@ {
                    match models::sp_read_enterprise_subdivision_array(buf, p) {
                        Err(e) => Err(e),
                        Ok((v, q)) => sp_enterprise_fields(
                            EnterpriseSpec { subdivisions: Some(v), ..m },
                            buf,
                            q,
                            n - 1,
                        ),
                    }
                } else if key == "traits"@ {
                    match models::sp_enterprise_traits_decode(buf, p) {
                        Err(e) => Err(e),
                        Ok((v, q)) => sp_enterprise_fields(
                            EnterpriseSpec { traits: Some(v), ..m },
                            buf,
                            q,
                            n - 1,
                        ),
                    }
                } else {
                    Err(ErrorSpec::UnknownField(key))
                }
            },
        }
    }
}

fn enterprise_fields(acc: Enterprise, buf: &[u8], offset: &mut usize, n: usize) -> (r: Result<
    Enterprise,
    Error,
>)
    ensures
        match r {
            Ok(v) => sp_enterprise_fields(acc@, buf@, *old(offset) as int, n as int) == Ok::<
                _,
                ErrorSpec,
            >((v@, *final(offset) as int)),
            Err(e) => sp_enterprise_fields(acc@, buf@, *old(offset) as int, n as int) == Err::<
                (EnterpriseSpec, int),
                _,
            >(e@),
        },
    decreases n,
{
    if n == 0 {
        return Ok(acc);
    }
    let key = read_str(buf, offset)?;
    if str_eq(key.as_str(), "city") {
        let ghost p0 = *offset as int;
        let v = match models::EnterpriseCity::decode(buf, offset) {
            Ok(v) => v,
            Err(e) => {
                proof {
                    assert(models::sp_enterprise_city_decode(buf@, p0) == Err::<
                        (models::EnterpriseCitySpec, int),
                        ErrorSpec,
                    >(e@));
                }
                return Err(e);
            },
        };
        let ghost p1 = *offset as int;
        proof {
            assert(models::sp_enterprise_city_decode(buf@, p0) == Ok::<_, ErrorSpec>((v@, p1)));
        }
        enterprise_fields(Enterprise { city: Some(v), ..acc }, buf, offset, n - 1)
    } else if str_eq(key.as_str(), "continent") {
        let ghost p0 = *offset as int;
        let v = match models::Continent::decode(buf, offset) {
            Ok(v) => v,
            Err(e) => {
                proof {
                    assert(models::sp_continent_decode(buf@, p0) == Err::<
                        (models::ContinentSpec, int),
                        ErrorSpec,
                    >(e@));
                }
                return Err(e);
            },
        };
        let ghost p1 = *offset as int;
        proof {
            assert(models::sp_continent_decode(buf@, p0) == Ok::<_, ErrorSpec>((v@, p1)));
        }
        enterprise_fields(Enterprise { continent: Some(v), ..acc }, buf, offset, n - 1)
    } else if str_eq(key.as_str(), "country") {
        let ghost p0 = *offset as int;
        let v = match models::EnterpriseCountry::decode(buf, offset) {
            Ok(v) => v,
            Err(e) => {
                proof {
                    assert(models::sp_enterprise_country_decode(buf@, p0) == Err::<
                        (models::EnterpriseCountrySpec, int),
                        ErrorSpec,
                    >(e@));
                }
                return Err(e);
            },
        };
        let ghost p1 = *offset as int;
        proof {
            assert(models::sp_enterprise_country_decode(buf@, p0) == Ok::<_, ErrorSpec>((v@, p1)));
        }
        enterprise_fields(Enterprise { country: Some(v), ..acc }, buf, offset, n - 1)
    } else if str_eq(key.as_str(), "location") {
        let ghost p0 = *offset as int;
        let v = match models::Location::decode(buf, offset) {
            Ok(v) => v,
            Err(e) => {
                proof {
                    assert(models::sp_location_decode(buf@, p0) == Err::<
                        (models::LocationSpec, int),
                        ErrorSpec,
                    >(e@));
                }
                return Err(e);
            },
        };
        let ghost p1 = *offset as int;
        proof {
            assert(models::sp_location_decode(buf@, p0) == Ok::<_, ErrorSpec>((v@, p1)));
        }
        enterprise_fields(Enterprise { location: Some(v), ..acc }, buf, offset, n - 1)
    } else if str_eq(key.as_str(), "postal") {
        let ghost p0 = *offset as int;
        let v = match models::EnterprisePostal::decode(buf, offset) {
            Ok(v) => v,
            Err(e) => {
                proof {
                    assert(models::sp_enterprise_postal_decode(buf@, p0) == Err::<
                        (models::EnterprisePostalSpec, int),
                        ErrorSpec,
                    >(e@));
                }
                return Err(e);
            },
        };
        let ghost p1 = *offset as int;
        proof {
            assert(models::sp_enterprise_postal_decode(buf@, p0) == Ok::<_, ErrorSpec>((v@, p1)));
        }
        enterprise_fields(Enterprise { postal: Some(v), ..acc }, buf, offset, n - 1)
    } else if str_eq(key.as_str(), "registered_country") {
        let ghost p0 = *offset as int;
        let v = match models::EnterpriseCountry::decode(buf, offset) {
            Ok(v) => v,
            Err(e) => {
                proof {
                    assert(models::sp_enterprise_country_decode(buf@, p0) == Err::<
                        (models::EnterpriseCountrySpec, int),
                        ErrorSpec,
                    >(e@));
                }
                return Err(e);
            },
        };
        let ghost p1 = *offset as int;
        proof {
            assert(models::sp_enterprise_country_decode(buf@, p0) == Ok::<_, ErrorSpec>((v@, p1)));
        }
        enterprise_fields(Enterprise { registered_country: Some(v), ..acc }, buf, offset, n - 1)
    } else if str_eq(key.as_str(), "represented_country") {
        let ghost p0 = *offset as int;
        let v = match models::EnterpriseRepresentedCountry::decode(buf, offset) {
            Ok(v) => v,
            Err(e) => {
                proof {
                    assert(models::sp_enterprise_represented_country_decode(buf@, p0) == Err::<
                        (models::EnterpriseRepresentedCountrySpec, int),
                        ErrorSpec,
                    >(e@));
                }
                return Err(e);
            },
        };
        let ghost p1 = *offset as int;
        proof {
            assert(models::sp_enterprise_represented_country_decode(buf@, p0) == Ok::<_, ErrorSpec>((v@, p1)));
        }
        enterprise_fields(Enterprise { represented_country: Some(v), ..acc }, buf, offset, n - 1)
    } else if str_eq(key.as_str(), "subdivisions") {
        let v = models::read_enterprise_subdivision_array(buf, offset)?;
        enterprise_fields(Enterprise { subdivisions: Some(v), ..acc }, buf, offset, n - 1)
    } else if str_eq(key.as_str(), "traits") {
        let ghost p0 = *offset as int;
        let v = match models::EnterpriseTraits::decode(buf, offset) {
            Ok(v) => v,
            Err(e) => {
                proof {
                    assert(models::sp_enterprise_traits_decode(buf@, p0) == Err::<
                        (models::EnterpriseTraitsSpec, int),
                        ErrorSpec,
                    >(e@));
                }
                return Err(e);
            },
        };
        let ghost p1 = *offset as int;
        proof {
            assert(models::sp_enterprise_traits_decode(buf@, p0) == Ok::<_, ErrorSpec>((v@, p1)));
        }
        enterprise_fields(Enterprise { traits: Some(v), ..acc }, buf, offset, n - 1)
    } else {
        Err(Error::UnknownField(key))
    }
}

impl Decoder for Enterprise {
    open spec fn sp_decode_size(buf: Seq<u8>, off: int, n: int) -> Result<
        (EnterpriseSpec, int),
        ErrorSpec,
    > {
        sp_enterprise_fields(
            EnterpriseSpec { city: None, continent: None, country: None, location: None, postal: None, registered_country: None, represented_country: None, subdivisions: None, traits: None },
            buf,
            off,
            n,
        )
    }

    fn decode_with_size(buf: &[u8], offset: &mut usize, size: usize) -> (r: Result<Self, Error>) {
        enterprise_fields(
            Enterprise { city: None, continent: None, country: None, location: None, postal: None, registered_country: None, represented_country: None, subdivisions: None, traits: None },
            buf,
            offset,
            size,
        )
    }
}

/// GeoIP2 Connection-Type record.
#[derive(Debug, Clone)]
pub struct ConnectionType {
    pub connection_type: Option<String>,
}

/// Model of [`ConnectionType`].
pub struct ConnectionTypeSpec {
    pub connection_type: Option<Seq<char>>,
}

impl View for ConnectionType {
    type V = ConnectionTypeSpec;

    open spec fn view(&self) -> ConnectionTypeSpec {
        ConnectionTypeSpec {
            connection_type: view_opt_str(self.connection_type),
        }
    }
}

/// Field decoding for [`ConnectionType`]: `n` key/value pairs applied to `m` in
/// file order; an unknown key is fatal.
pub open spec fn sp_connection_type_fields(m: ConnectionTypeSpec, buf: Seq<u8>, off: int, n: int) -> Result<
    (ConnectionTypeSpec, int),
    ErrorSpec,
>
    decreases n,
{
    if n <= 0 {
        Ok((m, off))
    } else {
        match spec_read_str(buf, off) {
            Err(e) => Err(e),
            Ok((key, p)) => {
                if key == "connection_type"@ {
                    match spec_read_str(buf, p) {
                        Err(e) => Err(e),
                        Ok((v, q)) => sp_connection_type_fields(
                            ConnectionTypeSpec { connection_type: Some(v), ..m },
                            buf,
                            q,
                            n - 1,
                        ),
                    }
                } else {
                    Err(ErrorSpec::UnknownField(key))
                }
            },
        }
    }
}

fn connection_type_fields(acc: ConnectionType, buf: &[u8], offset: &mut usize, n: usize) -> (r: Result<
    ConnectionType,
    Error,
>)
    ensures
        match r {
            Ok(v) => sp_connection_type_fields(acc@, buf@, *old(offset) as int, n as int) == Ok::<
                _,
                ErrorSpec,
            >((v@, *final(offset) as int)),
            Err(e) => sp_connection_type_fields(acc@, buf@, *old(offset) as int, n as int) == Err::<
                (ConnectionTypeSpec, int),
                _,
            >(e@),
        },
    decreases n,
{
    if n == 0 {
        return Ok(acc);
    }
    let key = read_str(buf, offset)?;
    if str_eq(key.as_str(), "connection_type") {
        let v = read_str(buf, offset)?;
        connection_type_fields(ConnectionType { connection_type: Some(v), ..acc }, buf, offset, n - 1)
    } else {
        Err(Error::UnknownField(key))
    }
}

impl Decoder for ConnectionType {
    open spec fn sp_decode_size(buf: Seq<u8>, off: int, n: int) -> Result<
        (ConnectionTypeSpec, int),
        ErrorSpec,
    > {
        sp_connection_type_fields(
            ConnectionTypeSpec { connection_type: None },
            buf,
            off,
            n,
        )
    }

    fn decode_with_size(buf: &[u8], offset: &mut usize, size: usize) -> (r: Result<Self, Error>) {
        connection_type_fields(
            ConnectionType { connection_type: None },
            buf,
            offset,
            size,
        )
    }
}

/// GeoIP2 Domain record.
#[derive(Debug, Clone)]
pub struct Domain {
    pub domain: Option<String>,
}

/// Model of [`Domain`].
pub struct DomainSpec {
    pub domain: Option<Seq<char>>,
}

impl View for Domain {
    type V = DomainSpec;

    open spec fn view(&self) -> DomainSpec {
        DomainSpec {
            domain: view_opt_str(self.domain),
        }
    }
}

/// Field decoding for [`Domain`]: `n` key/value pairs applied to `m` in
/// file order; an unknown key is fatal.
pub open spec fn sp_domain_fields(m: DomainSpec, buf: Seq<u8>, off: int, n: int) -> Result<
    (DomainSpec, int),
    ErrorSpec,
>
    decreases n,
{
    if n <= 0 {
        Ok((m, off))
    } else {
        match spec_read_str(buf, off) {
            Err(e) => Err(e),
            Ok((key, p)) => {
                if key == "domain"@ {
                    match spec_read_str(buf, p) {
                        Err(e) => Err(e),
                        Ok((v, q)) => sp_domain_fields(
                            DomainSpec { domain: Some(v), ..m },
                            buf,
                            q,
                            n - 1,
                        ),
                    }
                } else {
                    Err(ErrorSpec::UnknownField(key))
                }
            },
        }
    }
}

fn domain_fields(acc: Domain, buf: &[u8], offset: &mut usize, n: usize) -> (r: Result<
    Domain,
    Error,
>)
    ensures
        match r {
            Ok(v) => sp_domain_fields(acc@, buf@, *old(offset) as int, n as int) == Ok::<
                _,
                ErrorSpec,
            >((v@, *final(offset) as int)),
            Err(e) => sp_domain_fields(acc@, buf@, *old(offset) as int, n as int) == Err::<
                (DomainSpec, int),
                _,
            >(e@),
        },
    decreases n,
{
    if n == 0 {
        return Ok(acc);
    }
    let key = read_str(buf, offset)?;
    if str_eq(key.as_str(), "domain") {
        let v = read_str(buf, offset)?;
        domain_fields(Domain { domain: Some(v), ..acc }, buf, offset, n - 1)
    } else {
        Err(Error::UnknownField(key))
    }
}

impl Decoder for Domain {
    open spec fn sp_decode_size(buf: Seq<u8>, off: int, n: int) -> Result<
        (DomainSpec, int),
        ErrorSpec,
    > {
        sp_domain_fields(
            DomainSpec { domain: None },
            buf,
            off,
            n,
        )
    }

    fn decode_with_size(buf: &[u8], offset: &mut usize, size: usize) -> (r: Result<Self, Error>) {
        domain_fields(
            Domain { domain: None },
            buf,
            offset,
            size,
        )
    }
}

/// GeoIP2 ISP record.
#[derive(Debug, Clone)]
pub struct Isp {
    pub autonomous_system_number: Option<u32>,
    pub autonomous_system_organization: Option<String>,
    pub isp: Option<String>,
    pub mobile_country_code: Option<String>,
    pub mobile_network_code: Option<String>,
    pub organization: Option<String>,
}

/// Model of [`Isp`].
pub struct IspSpec {
    pub autonomous_system_number: Option<u32>,
    pub autonomous_system_organization: Option<Seq<char>>,
    pub isp: Option<Seq<char>>,
    pub mobile_country_code: Option<Seq<char>>,
    pub mobile_network_code: Option<Seq<char>>,
    pub organization: Option<Seq<char>>,
}

impl View for Isp {
    type V = IspSpec;

    open spec fn view(&self) -> IspSpec {
        IspSpec {
            autonomous_system_number: self.autonomous_system_number,
            autonomous_system_organization: view_opt_str(self.autonomous_system_organization),
            isp: view_opt_str(self.isp),
            mobile_country_code: view_opt_str(self.mobile_country_code),
            mobile_network_code: view_opt_str(self.mobile_network_code),
            organization: view_opt_str(self.organization),
        }
    }
}

/// Field decoding for [`Isp`]: `n` key/value pairs applied to `m` in
/// file order; an unknown key is fatal.
pub open spec fn sp_isp_fields(m: IspSpec, buf: Seq<u8>, off: int, n: int) -> Result<
    (IspSpec, int),
    ErrorSpec,
>
    decreases n,
{
    if n <= 0 {
        Ok((m, off))
    } else {
        match spec_read_str(buf, off) {
            Err(e) => Err(e),
            Ok((key, p)) => {
                if key == "autonomous_system_number"@ {
                    match spec_read_uint(buf, p) {
                        Err(e) => Err(e),
                        Ok((v, q)) => sp_isp_fields(
                            IspSpec { autonomous_system_number: Some(trunc32(v)), ..m },
                            buf,
                            q,
                            n - 1,
                        ),
                    }
                } else if key == "autonomous_system_organization"@ {
                    match spec_read_str(buf, p) {
                        Err(e) => Err(e),
                        Ok((v, q)) => sp_isp_fields(
                            IspSpec { autonomous_system_organization: Some(v), ..m },
                            buf,
                            q,
                            n - 1,
                        ),
                    }
                } else if key == "isp"@ {
                    match spec_read_str(buf, p) {
                        Err(e) => Err(e),
                        Ok((v, q)) => sp_isp_fields(
                            IspSpec { isp: Some(v), ..m },
                            buf,
                            q,
                            n - 1,
                        ),
                    }
                } else if key == "mobile_country_code"@ {
                    match spec_read_str(buf, p) {
                        Err(e) => Err(e),
                        Ok((v, q)) => sp_isp_fields(
                            IspSpec { mobile_country_code: Some(v), ..m },
                            buf,
                            q,
                            n - 1,
                        ),
                    }
                } else if key == "mobile_network_code"@ {
                    match spec_read_str(buf, p) {
                        Err(e) => Err(e),
                        Ok((v, q)) => sp_isp_fields(
                            IspSpec { mobile_network_code: Some(v), ..m },
                            buf,
                            q,
                            n - 1,
                        ),
                    }
                } else if key == "organization"@ {
                    match spec_read_str(buf, p) {
                        Err(e) => Err(e),
                        Ok((v, q)) => sp_isp_fields(
                            IspSpec { organization: Some(v), ..m },
                            buf,
                            q,
                            n - 1,
                        ),
                    }
                } else {
                    Err(ErrorSpec::UnknownField(key))
                }
            },
        }
    }
}

fn isp_fields(acc: Isp, buf: &[u8], offset: &mut usize, n: usize) -> (r: Result<
    Isp,
    Error,
>)
    ensures
        match r {
            Ok(v) => sp_isp_fields(acc@, buf@, *old(offset) as int, n as int) == Ok::<
                _,
                ErrorSpec,
            >((v@, *final(offset) as int)),
            Err(e) => sp_isp_fields(acc@, buf@, *old(offset) as int, n as int) == Err::<
                (IspSpec, int),
                _,
            >(e@),
        },
    decreases n,
{
    if n == 0 {
        return Ok(acc);
    }
    let key = read_str(buf, offset)?;
    if str_eq(key.as_str(), "autonomous_system_number") {
        let v = read_usize(buf, offset)?;
        isp_fields(Isp { autonomous_system_number: Some(u32_of(v)), ..acc }, buf, offset, n - 1)
    } else if str_eq(key.as_str(), "autonomous_system_organization") {
        let v = read_str(buf, offset)?;
        isp_fields(Isp { autonomous_system_organization: Some(v), ..acc }, buf, offset, n - 1)
    } else if str_eq(key.as_str(), "isp") {
        let v = read_str(buf, offset)?;
        isp_fields(Isp { isp: Some(v), ..acc }, buf, offset, n - 1)
    } else if str_eq(key.as_str(), "mobile_country_code") {
        let v = read_str(buf, offset)?;
        isp_fields(Isp { mobile_country_code: Some(v), ..acc }, buf, offset, n - 1)
    } else if str_eq(key.as_str(), "mobile_network_code") {
        let v = read_str(buf, offset)?;
        isp_fields(Isp { mobile_network_code: Some(v), ..acc }, buf, offset, n - 1)
    } else if str_eq(key.as_str(), "organization") {
        let v = read_str(buf, offset)?;
        isp_fields(Isp { organization: Some(v), ..acc }, buf, offset, n - 1)
    } else {
        Err(Error::UnknownField(key))
    }
}

impl Decoder for Isp {
    open spec fn sp_decode_size(buf: Seq<u8>, off: int, n: int) -> Result<
        (IspSpec, int),
        ErrorSpec,
    > {
        sp_isp_fields(
            IspSpec { autonomous_system_number: None, autonomous_system_organization: None, isp: None, mobile_country_code: None, mobile_network_code: None, organization: None },
            buf,
            off,
            n,
        )
    }

    fn decode_with_size(buf: &[u8], offset: &mut usize, size: usize) -> (r: Result<Self, Error>) {
        isp_fields(
            Isp { autonomous_system_number: None, autonomous_system_organization: None, isp: None, mobile_country_code: None, mobile_network_code: None, organization: None },
            buf,
            offset,
            size,
        )
    }
}

/// GeoLite2 ASN record.
#[derive(Debug, Clone)]
pub struct Asn {
    pub autonomous_system_number: Option<u32>,
    pub autonomous_system_organization: Option<String>,
}

/// Model of [`Asn`].
pub struct AsnSpec {
    pub autonomous_system_number: Option<u32>,
    pub autonomous_system_organization: Option<Seq<char>>,
}

impl View for Asn {
    type V = AsnSpec;

    open spec fn view(&self) -> AsnSpec {
        AsnSpec {
            autonomous_system_number: self.autonomous_system_number,
            autonomous_system_organization: view_opt_str(self.autonomous_system_organization),
        }
    }
}

/// Field decoding for [`Asn`]: `n` key/value pairs applied to `m` in
/// file order; an unknown key is fatal.
pub open spec fn sp_asn_fields(m: AsnSpec, buf: Seq<u8>, off: int, n: int) -> Result<
    (AsnSpec, int),
    ErrorSpec,
>
    decreases n,
{
    if n <= 0 {
        Ok((m, off))
    } else {
        match spec_read_str(buf, off) {
            Err(e) => Err(e),
            Ok((key, p)) => {
                if key == "autonomous_system_number"@ {
                    match spec_read_uint(buf, p) {
                        Err(e) => Err(e),
                        Ok((v, q)) => sp_asn_fields(
                            AsnSpec { autonomous_system_number: Some(trunc32(v)), ..m },
                            buf,
                            q,
                            n - 1,
                        ),
                    }
                } else if key == "autonomous_system_organization"@ {
                    match spec_read_str(buf, p) {
                        Err(e) => Err(e),
                        Ok((v, q)) => sp_asn_fields(
                            AsnSpec { autonomous_system_organization: Some(v), ..m },
                            buf,
                            q,
                            n - 1,
                        ),
                    }
                } else {
                    Err(ErrorSpec::UnknownField(key))
                }
            },
        }
    }
}

fn asn_fields(acc: Asn, buf: &[u8], offset: &mut usize, n: usize) -> (r: Result<
    Asn,
    Error,
>)
    ensures
        match r {
            Ok(v) => sp_asn_fields(acc@, buf@, *old(offset) as int, n as int) == Ok::<
                _,
                ErrorSpec,
            >((v@, *final(offset) as int)),
            Err(e) => sp_asn_fields(acc@, buf@, *old(offset) as int, n as int) == Err::<
                (AsnSpec, int),
                _,
            >(e@),
        },
    decreases n,
{
    if n == 0 {
        return Ok(acc);
    }
    let key = read_str(buf, offset)?;
    if str_eq(key.as_str(), "autonomous_system_number") {
        let v = read_usize(buf, offset)?;
        asn_fields(Asn { autonomous_system_number: Some(u32_of(v)), ..acc }, buf, offset, n - 1)
    } else if str_eq(key.as_str(), "autonomous_system_organization") {
        let v = read_str(buf, offset)?;
        asn_fields(Asn { autonomous_system_organization: Some(v), ..acc }, buf, offset, n - 1)
    } else {
        Err(Error::UnknownField(key))
    }
}

impl Decoder for Asn {
    open spec fn sp_decode_size(buf: Seq<u8>, off: int, n: int) -> Result<
        (AsnSpec, int),
        ErrorSpec,
    > {
        sp_asn_fields(
            AsnSpec { autonomous_system_number: None, autonomous_system_organization: None },
            buf,
            off,
            n,
        )
    }

    fn decode_with_size(buf: &[u8], offset: &mut usize, size: usize) -> (r: Result<Self, Error>) {
        asn_fields(
            Asn { autonomous_system_number: None, autonomous_system_organization: None },
            buf,
            offset,
            size,
        )
    }
}


/// Walking from a node over `k` zero bits equals jumping to the node that
/// `k` left-child steps reach.
pub proof fn lemma_v4_entry_walk_gen(
    data: Seq<u8>,
    nc: int,
    rs: int,
    nom: int,
    node: int,
    k: nat,
    bits: Seq<bool>,
)
    ensures
        sp_walk(data, nc, rs, nom, node, Seq::new(k, |i: int| false).add(bits)) == sp_walk(
            data,
            nc,
            rs,
            nom,
            sp_v4_entry(data, nc, rs, nom, node, k as int),
            bits,
        ),
    decreases k,
{
    let zeros = Seq::new(k, |i: int| false);
    if k == 0 {
        assert(zeros.add(bits) =~= bits);
    } else if node >= nc {
        assert(sp_walk(data, nc, rs, nom, node, zeros.add(bits)) == node);
        assert(sp_walk(data, nc, rs, nom, node, bits) == node);
    } else {
        let child = sp_node_record(data, rs, nom, node, 0);
        assert(zeros.add(bits).drop_first() =~= Seq::new((k - 1) as nat, |i: int| false).add(bits));
        assert(zeros.add(bits)[0] == false);
        lemma_v4_entry_walk_gen(data, nc, rs, nom, child, (k - 1) as nat, bits);
    }
}

/// Using the precomputed IPv4 entry node does not change the outcome: the
/// walk from that node over an address's bits equals the walk from the
/// root over 96 zero bits followed by the same bits.
pub proof fn lemma_v4_entry_walk(data: Seq<u8>, nc: int, rs: int, nom: int, bits: Seq<bool>)
    ensures
        sp_walk(data, nc, rs, nom, sp_v4_entry(data, nc, rs, nom, 0, 96), bits) == sp_walk(
            data,
            nc,
            rs,
            nom,
            0,
            Seq::new(96, |i: int| false).add(bits),
        ),
{
    lemma_v4_entry_walk_gen(data, nc, rs, nom, 0, 96, bits);
}

/// The constants a reader opened from `buf` uses for lookups are exactly
/// the ones its decoded metadata reports.
pub proof fn lemma_open_uses_metadata(buf: Seq<u8>, r: ReaderSpec, m: MetadataSpec, fin: int)
    requires
        sp_open(buf) == Ok::<ReaderSpec, ErrorSpec>(r),
        match sp_marker_end(buf) {
            Some(ms) => sp_metadata(buf.skip(ms)) == Ok::<(MetadataSpec, int), ErrorSpec>(
                (m, fin),
            ),
            None => false,
        },
    ensures
        r.data == buf,
        r.node_count == m.node_count,
        r.record_size == m.record_size,
        r.node_offset_multi == m.record_size as int / 4,
        r.search_tree_size == m.node_count * r.node_offset_multi,
        m.record_size == 24 || m.record_size == 28 || m.record_size == 32,
        r.ip_v4_start == (if m.ip_version == 6 {
            sp_v4_entry(buf, r.node_count, r.record_size, r.node_offset_multi, 0, 96)
        } else {
            0
        }),
{
    reveal(sp_open);
}

/// For a reader whose IPv4 entry node was precomputed by the 96-step
/// left descent, walking an address's bits from that node gives the same
/// node as walking the whole tree from the root over 96 zero bits
/// followed by the address's bits.
pub proof fn lemma_v4_lookup_entry(r: ReaderSpec, octets: Seq<u8>)
    requires
        r.ip_v4_start == sp_v4_entry(r.data, r.node_count, r.record_size, r.node_offset_multi, 0, 96),
    ensures
        sp_walk(
            r.data,
            r.node_count,
            r.record_size,
            r.node_offset_multi,
            r.ip_v4_start,
            sp_ip_bits(octets),
        ) == sp_walk(
            r.data,
            r.node_count,
            r.record_size,
            r.node_offset_multi,
            0,
            Seq::new(96, |i: int| false).add(sp_ip_bits(octets)),
        ),
{
    lemma_v4_entry_walk(
        r.data,
        r.node_count,
        r.record_size,
        r.node_offset_multi,
        sp_ip_bits(octets),
    );
}

} // verus!
