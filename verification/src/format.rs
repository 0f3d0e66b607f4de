use vstd::prelude::*;
use vstd::utf8::{decode_utf8, valid_utf8};

use crate::errors::ErrorSpec;

verus! {

// Type codes of the self-describing data section.
pub const DATA_TYPE_EXTENDED: u8 = 0;
pub const DATA_TYPE_POINTER: u8 = 1;
pub const DATA_TYPE_STRING: u8 = 2;
pub const DATA_TYPE_FLOAT64: u8 = 3;
pub const DATA_TYPE_UINT16: u8 = 5;
pub const DATA_TYPE_UINT32: u8 = 6;
pub const DATA_TYPE_MAP: u8 = 7;
pub const DATA_TYPE_INT32: u8 = 8;
pub const DATA_TYPE_UINT64: u8 = 9;
pub const DATA_TYPE_UINT128: u8 = 10;
pub const DATA_TYPE_SLICE: u8 = 11;
pub const DATA_TYPE_BOOL: u8 = 14;

/// The value of a byte run read as a big-endian unsigned integer.
pub open spec fn be_val(bytes: Seq<u8>) -> nat
    decreases bytes.len(),
{
    if bytes.len() == 0 {
        0
    } else {
        (be_val(bytes.drop_last()) * 256 + bytes.last()) as nat
    }
}

/// [`be_val`] truncated to a 64-bit machine word, the way the executable
/// readers accumulate it: bits above the 64th are discarded.
pub open spec fn be_val64(bytes: Seq<u8>) -> nat {
    be_val(bytes) % 0x1_0000_0000_0000_0000
}

/// Result of reading a control header: the type code, the decoded size
/// field, and the offset of the first byte after the header.
pub open spec fn spec_control(buf: Seq<u8>, off: int) -> Result<(u8, int, int), ErrorSpec> {
    if !(0 <= off < buf.len()) {
        Err(ErrorSpec::InvalidOffset)
    } else {
        let c = buf[off];
        if c >> 5 == DATA_TYPE_EXTENDED {
            if !(off + 1 < buf.len()) {
                Err(ErrorSpec::InvalidOffset)
            } else if buf[off + 1] > 248 {
                // the extended type code would not fit in one byte
                Err(ErrorSpec::InvalidDataType(buf[off + 1]))
            } else {
                spec_control_size(buf, (buf[off + 1] + 7) as u8, c & 0x1f, off + 2)
            }
        } else {
            spec_control_size(buf, c >> 5, c & 0x1f, off + 1)
        }
    }
}

/// Second half of [`spec_control`]: decode the size field `s`, reading
/// extension bytes at `off` when `s` is 29 or more.
pub open spec fn spec_control_size(buf: Seq<u8>, t: u8, s: u8, off: int) -> Result<
    (u8, int, int),
    ErrorSpec,
> {
    if s < 29 {
        Ok((t, s as int, off))
    } else {
        let n = s - 28;
        if off + n > buf.len() {
            Err(ErrorSpec::InvalidOffset)
        } else if n == 1 {
            Ok((t, 29 + buf[off], off + 1))
        } else if n == 2 {
            Ok((t, 285 + buf[off] * 256 + buf[off + 1], off + 2))
        } else {
            Ok((t, 65821 + be_val(buf.subrange(off, off + 3)) as int, off + 3))
        }
    }
}

/// The width in bytes of a pointer value, from the size field of its
/// control byte.
pub open spec fn spec_pointer_size(s: int) -> int {
    ((s / 8) % 4) + 1
}

/// The constant added to a decoded pointer value of the given width.
pub open spec fn spec_pointer_base(pointer_size: int) -> int {
    if pointer_size == 2 {
        2048
    } else if pointer_size == 3 {
        526336
    } else {
        0
    }
}

/// Result of decoding a pointer whose control header held size field `s`
/// and ended at `off`: the target offset within the data section, and the
/// offset of the first byte after the pointer's address bytes.
pub open spec fn spec_pointer(buf: Seq<u8>, off: int, s: int) -> Result<(int, int), ErrorSpec> {
    let psize = spec_pointer_size(s);
    let prefix: int = if psize != 4 {
        s % 8
    } else {
        0
    };
    if off + psize > buf.len() || off < 0 {
        Err(ErrorSpec::InvalidOffset)
    } else {
        let unpacked = prefix * pow256(psize as nat) + be_val(buf.subrange(off, off + psize));
        Ok((unpacked + spec_pointer_base(psize), off + psize))
    }
}

/// 256 to the power `n`.
pub open spec fn pow256(n: nat) -> nat
    decreases n,
{
    if n == 0 {
        1
    } else {
        256 * pow256((n - 1) as nat)
    }
}

/// Powers of 256 are positive.
pub proof fn lemma_pow256_pos(n: nat)
    ensures
        pow256(n) >= 1,
    decreases n,
{
    if n > 0 {
        lemma_pow256_pos((n - 1) as nat);
    }
}

/// Powers of 256 grow with the exponent.
pub proof fn lemma_pow256_mono(a: nat, b: nat)
    requires
        a <= b,
    ensures
        pow256(a) <= pow256(b),
    decreases b,
{
    if a < b {
        lemma_pow256_mono(a, (b - 1) as nat);
        lemma_pow256_pos((b - 1) as nat);
    }
}

/// Result of reading a string value at `off`: its characters and the
/// offset of the first byte after the value as seen by the outer cursor.
/// A string is either written in place or reached through exactly one
/// pointer hop; in the latter case the outer cursor stops right after the
/// pointer's address bytes.
pub open spec fn spec_read_str(buf: Seq<u8>, off: int) -> Result<(Seq<char>, int), ErrorSpec> {
    match spec_control(buf, off) {
        Err(e) => Err(e),
        Ok((t, s, p)) => {
            if t == DATA_TYPE_STRING {
                spec_str_payload(buf, p, s)
            } else if t == DATA_TYPE_POINTER {
                match spec_pointer(buf, p, s) {
                    Err(e) => Err(e),
                    Ok((target, after)) => {
                        match spec_control(buf, target) {
                            Err(e) => Err(e),
                            Ok((t2, s2, p2)) => {
                                if t2 == DATA_TYPE_STRING {
                                    match spec_str_payload(buf, p2, s2) {
                                        Err(e) => Err(e),
                                        Ok((chars, _)) => Ok((chars, after)),
                                    }
                                } else {
                                    Err(ErrorSpec::InvalidDataType(t2))
                                }
                            },
                        }
                    },
                }
            } else {
                Err(ErrorSpec::InvalidDataType(t))
            }
        },
    }
}

/// The characters of a string payload of `s` bytes starting at `off`.
pub open spec fn spec_str_payload(buf: Seq<u8>, off: int, s: int) -> Result<
    (Seq<char>, int),
    ErrorSpec,
> {
    if off + s > buf.len() || off < 0 || s < 0 {
        Err(ErrorSpec::InvalidOffset)
    } else {
        let bytes = buf.subrange(off, off + s);
        if valid_utf8(bytes) {
            Ok((decode_utf8(bytes), off + s))
        } else {
            Err(ErrorSpec::InvalidUtf8)
        }
    }
}

/// Result of reading a boolean value at `off`: the value is carried in the
/// size field itself. One pointer hop is allowed.
pub open spec fn spec_read_bool(buf: Seq<u8>, off: int) -> Result<(bool, int), ErrorSpec> {
    match spec_control(buf, off) {
        Err(e) => Err(e),
        Ok((t, s, p)) => {
            if t == DATA_TYPE_BOOL {
                Ok((s != 0, p))
            } else if t == DATA_TYPE_POINTER {
                match spec_pointer(buf, p, s) {
                    Err(e) => Err(e),
                    Ok((target, after)) => {
                        match spec_control(buf, target) {
                            Err(e) => Err(e),
                            Ok((t2, s2, _)) => {
                                if t2 == DATA_TYPE_BOOL {
                                    Ok((s2 != 0, after))
                                } else {
                                    Err(ErrorSpec::InvalidDataType(t2))
                                }
                            },
                        }
                    },
                }
            } else {
                Err(ErrorSpec::InvalidDataType(t))
            }
        },
    }
}

/// Whether `t` is one of the integer type codes accepted by the unsigned
/// integer reader.
pub open spec fn is_uint_type(t: u8) -> bool {
    t == DATA_TYPE_UINT16 || t == DATA_TYPE_UINT32 || t == DATA_TYPE_INT32 || t == DATA_TYPE_UINT64
        || t == DATA_TYPE_UINT128
}

/// The unsigned integer payload of `s` big-endian bytes at `off`,
/// truncated to a 64-bit word; values wider than 64 bits lose their high
/// bits, matching the behaviour of the executable reader.
pub open spec fn spec_uint_payload(buf: Seq<u8>, off: int, s: int) -> Result<
    (u64, int),
    ErrorSpec,
> {
    if s == 0 {
        Ok((0, off))
    } else if off + s > buf.len() || off < 0 {
        Err(ErrorSpec::InvalidOffset)
    } else {
        Ok((be_val64(buf.subrange(off, off + s)) as u64, off + s))
    }
}

/// Result of reading an unsigned integer value at `off`. One pointer hop
/// is allowed.
pub open spec fn spec_read_uint(buf: Seq<u8>, off: int) -> Result<(u64, int), ErrorSpec> {
    match spec_control(buf, off) {
        Err(e) => Err(e),
        Ok((t, s, p)) => {
            if is_uint_type(t) {
                spec_uint_payload(buf, p, s)
            } else if t == DATA_TYPE_POINTER {
                match spec_pointer(buf, p, s) {
                    Err(e) => Err(e),
                    Ok((target, after)) => {
                        match spec_control(buf, target) {
                            Err(e) => Err(e),
                            Ok((t2, s2, p2)) => {
                                if is_uint_type(t2) {
                                    match spec_uint_payload(buf, p2, s2) {
                                        Err(e) => Err(e),
                                        Ok((v, _)) => Ok((v, after)),
                                    }
                                } else {
                                    Err(ErrorSpec::InvalidDataType(t2))
                                }
                            },
                        }
                    },
                }
            } else {
                Err(ErrorSpec::InvalidDataType(t))
            }
        },
    }
}

/// The raw bits of an 8-byte big-endian IEEE-754 double at `off`. Any
/// other payload width is rejected. One pointer hop is allowed.
pub open spec fn spec_f64_payload(buf: Seq<u8>, off: int, s: int) -> Result<
    (u64, int),
    ErrorSpec,
> {
    if s != 8 {
        Err(ErrorSpec::InvalidDataType(DATA_TYPE_FLOAT64))
    } else if off + 8 > buf.len() || off < 0 {
        Err(ErrorSpec::InvalidOffset)
    } else {
        Ok((be_val(buf.subrange(off, off + 8)) as u64, off + 8))
    }
}

/// Result of reading a double value at `off`, as its raw bit pattern.
pub open spec fn spec_read_f64_bits(buf: Seq<u8>, off: int) -> Result<(u64, int), ErrorSpec> {
    match spec_control(buf, off) {
        Err(e) => Err(e),
        Ok((t, s, p)) => {
            if t == DATA_TYPE_FLOAT64 {
                spec_f64_payload(buf, p, s)
            } else if t == DATA_TYPE_POINTER {
                match spec_pointer(buf, p, s) {
                    Err(e) => Err(e),
                    Ok((target, after)) => {
                        match spec_control(buf, target) {
                            Err(e) => Err(e),
                            Ok((t2, s2, p2)) => {
                                if t2 == DATA_TYPE_FLOAT64 {
                                    match spec_f64_payload(buf, p2, s2) {
                                        Err(e) => Err(e),
                                        Ok((v, _)) => Ok((v, after)),
                                    }
                                } else {
                                    Err(ErrorSpec::InvalidDataType(t2))
                                }
                            },
                        }
                    },
                }
            } else {
                Err(ErrorSpec::InvalidDataType(t))
            }
        },
    }
}

/// `n` string elements read one after another starting at `off`.
pub open spec fn spec_str_elems(buf: Seq<u8>, off: int, n: int) -> Result<
    (Seq<Seq<char>>, int),
    ErrorSpec,
>
    decreases n,
{
    if n <= 0 {
        Ok((Seq::empty(), off))
    } else {
        match spec_read_str(buf, off) {
            Err(e) => Err(e),
            Ok((first, p)) => {
                match spec_str_elems(buf, p, n - 1) {
                    Err(e) => Err(e),
                    Ok((rest, q)) => Ok((seq![first].add(rest), q)),
                }
            },
        }
    }
}

/// Result of reading an array of strings at `off`. One pointer hop to the
/// array itself is allowed; its length comes from the control header.
pub open spec fn spec_read_str_array(buf: Seq<u8>, off: int) -> Result<
    (Seq<Seq<char>>, int),
    ErrorSpec,
> {
    match spec_control(buf, off) {
        Err(e) => Err(e),
        Ok((t, s, p)) => {
            if t == DATA_TYPE_SLICE {
                spec_str_elems(buf, p, s)
            } else if t == DATA_TYPE_POINTER {
                match spec_pointer(buf, p, s) {
                    Err(e) => Err(e),
                    Ok((target, after)) => {
                        match spec_control(buf, target) {
                            Err(e) => Err(e),
                            Ok((t2, s2, p2)) => {
                                if t2 == DATA_TYPE_SLICE {
                                    match spec_str_elems(buf, p2, s2) {
                                        Err(e) => Err(e),
                                        Ok((elems, _)) => Ok((elems, after)),
                                    }
                                } else {
                                    Err(ErrorSpec::InvalidDataType(t2))
                                }
                            },
                        }
                    },
                }
            } else {
                Err(ErrorSpec::InvalidDataType(t))
            }
        },
    }
}

/// `n` key/value string pairs read one after another starting at `off`.
pub open spec fn spec_str_pairs(buf: Seq<u8>, off: int, n: int) -> Result<
    (Seq<(Seq<char>, Seq<char>)>, int),
    ErrorSpec,
>
    decreases n,
{
    if n <= 0 {
        Ok((Seq::empty(), off))
    } else {
        match spec_read_str(buf, off) {
            Err(e) => Err(e),
            Ok((key, p)) => {
                match spec_read_str(buf, p) {
                    Err(e) => Err(e),
                    Ok((value, q)) => {
                        match spec_str_pairs(buf, q, n - 1) {
                            Err(e) => Err(e),
                            Ok((rest, r)) => Ok((seq![(key, value)].add(rest), r)),
                        }
                    },
                }
            },
        }
    }
}

/// Result of reading a map from string keys to string values at `off`,
/// in file order. One pointer hop to the map itself is allowed.
pub open spec fn spec_read_map(buf: Seq<u8>, off: int) -> Result<
    (Seq<(Seq<char>, Seq<char>)>, int),
    ErrorSpec,
> {
    match spec_control(buf, off) {
        Err(e) => Err(e),
        Ok((t, s, p)) => {
            if t == DATA_TYPE_MAP {
                spec_str_pairs(buf, p, s)
            } else if t == DATA_TYPE_POINTER {
                match spec_pointer(buf, p, s) {
                    Err(e) => Err(e),
                    Ok((target, after)) => {
                        match spec_control(buf, target) {
                            Err(e) => Err(e),
                            Ok((t2, s2, p2)) => {
                                if t2 == DATA_TYPE_MAP {
                                    match spec_str_pairs(buf, p2, s2) {
                                        Err(e) => Err(e),
                                        Ok((pairs, _)) => Ok((pairs, after)),
                                    }
                                } else {
                                    Err(ErrorSpec::InvalidDataType(t2))
                                }
                            },
                        }
                    },
                }
            } else {
                Err(ErrorSpec::InvalidDataType(t))
            }
        },
    }
}


/// Reading a string through a pointer is idempotent with respect to the
/// outer cursor: it ends exactly one control byte plus the pointer's
/// address bytes past where it started, whatever the pointee's size.
pub proof fn lemma_str_pointer_hop_cursor(buf: Seq<u8>, off: int, s: int, v: Seq<char>, fin: int)
    requires
        spec_control(buf, off) == Ok::<(u8, int, int), ErrorSpec>((DATA_TYPE_POINTER, s, off + 1)),
        spec_read_str(buf, off) == Ok::<(Seq<char>, int), ErrorSpec>((v, fin)),
    ensures
        fin == off + 1 + spec_pointer_size(s),
{
}

/// The same cursor law for booleans read through a pointer.
pub proof fn lemma_bool_pointer_hop_cursor(buf: Seq<u8>, off: int, s: int, v: bool, fin: int)
    requires
        spec_control(buf, off) == Ok::<(u8, int, int), ErrorSpec>((DATA_TYPE_POINTER, s, off + 1)),
        spec_read_bool(buf, off) == Ok::<(bool, int), ErrorSpec>((v, fin)),
    ensures
        fin == off + 1 + spec_pointer_size(s),
{
}

/// The same cursor law for unsigned integers read through a pointer.
pub proof fn lemma_uint_pointer_hop_cursor(buf: Seq<u8>, off: int, s: int, v: u64, fin: int)
    requires
        spec_control(buf, off) == Ok::<(u8, int, int), ErrorSpec>((DATA_TYPE_POINTER, s, off + 1)),
        spec_read_uint(buf, off) == Ok::<(u64, int), ErrorSpec>((v, fin)),
    ensures
        fin == off + 1 + spec_pointer_size(s),
{
}

/// The same cursor law for doubles read through a pointer.
pub proof fn lemma_f64_pointer_hop_cursor(buf: Seq<u8>, off: int, s: int, v: u64, fin: int)
    requires
        spec_control(buf, off) == Ok::<(u8, int, int), ErrorSpec>((DATA_TYPE_POINTER, s, off + 1)),
        spec_read_f64_bits(buf, off) == Ok::<(u64, int), ErrorSpec>((v, fin)),
    ensures
        fin == off + 1 + spec_pointer_size(s),
{
}


} // verus!
