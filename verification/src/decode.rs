use vstd::prelude::*;
use vstd::slice::{slice_index_get, slice_subrange, slice_to_vec};
use vstd::string::StringSliceAdditionalSpecFns;
use vstd::utf8::{decode_utf8, encode_utf8_decode_utf8, valid_utf8};

use crate::errors::{Error, ErrorSpec};
use crate::format::{
    be_val, be_val64, is_uint_type, spec_read_map, spec_read_str_array, spec_str_elems,
    spec_str_pairs, lemma_pow256_mono, lemma_pow256_pos, pow256, spec_control,
    spec_f64_payload, spec_pointer, spec_read_bool, spec_read_f64_bits, spec_read_str,
    spec_read_uint, spec_str_payload, spec_uint_payload, DATA_TYPE_BOOL, DATA_TYPE_EXTENDED,
    DATA_TYPE_FLOAT64, DATA_TYPE_INT32, DATA_TYPE_MAP, DATA_TYPE_POINTER, DATA_TYPE_SLICE,
    DATA_TYPE_STRING, DATA_TYPE_UINT128, DATA_TYPE_UINT16, DATA_TYPE_UINT32, DATA_TYPE_UINT64,
};

verus! {

/// Compare two string slices for equality of their character sequences.
pub fn str_eq(a: &str, b: &str) -> (r: bool)
    ensures
        r == (a@ == b@),
{
    proof {
        encode_utf8_decode_utf8(a@);
        encode_utf8_decode_utf8(b@);
    }
    let ab = a.as_bytes();
    let bb = b.as_bytes();
    if ab.len() != bb.len() {
        return false;
    }
    let n = ab.len();
    let mut i: usize = 0;
    while i < n
        invariant
            n == ab@.len() == bb@.len(),
            i <= n,
            ab@ == a.spec_bytes(),
            bb@ == b.spec_bytes(),
            forall|j: int| 0 <= j < i ==> ab@[j] == bb@[j],
        decreases n - i,
    {
        if *slice_index_get(ab, i) != *slice_index_get(bb, i) {
            return false;
        }
        i += 1;
    }
    proof {
        assert(ab@ =~= bb@);
    }
    true
}

/// Relies on `String::from_utf8`: it succeeds exactly on valid UTF-8 input
/// and then returns the string whose characters decode those bytes.
#[verifier::external_body]
pub(crate) fn utf8_to_string(bytes: Vec<u8>) -> (r: Option<String>)
    ensures
        r is Some <==> valid_utf8(bytes@),
        r matches Some(s) ==> s@ == decode_utf8(bytes@),
{
    match String::from_utf8(bytes) {
        Ok(s) => Some(s),
        Err(_) => None,
    }
}

/// Appending one byte multiplies the big-endian value by 256 and adds it.
pub proof fn lemma_be_val_snoc(s: Seq<u8>, b: u8)
    ensures
        be_val(s.push(b)) == be_val(s) * 256 + b,
{
    assert(s.push(b).drop_last() =~= s);
    assert(s.push(b).last() == b);
}

/// The big-endian value of a byte run is below 256 to the run's length.
pub proof fn lemma_be_val_bound(s: Seq<u8>)
    ensures
        be_val(s) < pow256(s.len()),
    decreases s.len(),
{
    if s.len() == 0 {
    } else {
        lemma_be_val_bound(s.drop_last());
    }
}

/// Interpret up to 8 bytes as a big-endian unsigned integer.
pub fn bytes_to_usize(buf: &[u8]) -> (r: usize)
    requires
        buf@.len() <= 8,
        be_val(buf@) <= usize::MAX,
    ensures
        r == be_val(buf@),
{
    let value = bytes_to_u64(buf);
    value as usize
}

/// Interpret up to 8 bytes as a big-endian unsigned 64-bit integer.
pub fn bytes_to_u64(buf: &[u8]) -> (r: u64)
    requires
        buf@.len() <= 8,
    ensures
        r == be_val(buf@),
{
    proof {
        reveal_with_fuel(pow256, 9);
    }
    let n = buf.len();
    let mut value: u64 = 0;
    let mut i: usize = 0;
    while i < n
        invariant
            n == buf@.len() <= 8,
            i <= n,
            value == be_val(buf@.subrange(0, i as int)),
            value < pow256(i as nat),
            pow256(8) == 0x1_0000_0000_0000_0000,
        decreases n - i,
    {
        let b = *slice_index_get(buf, i);
        proof {
            assert(buf@.subrange(0, i + 1) =~= buf@.subrange(0, i as int).push(buf@[i as int]));
            lemma_be_val_snoc(buf@.subrange(0, i as int), buf@[i as int]);
            assert(pow256((i + 1) as nat) == 256 * pow256(i as nat));
            lemma_pow256_mono((i + 1) as nat, 8);
        }
        value = value * 256 + (b as u64);
        i += 1;
    }
    proof {
        assert(buf@.subrange(0, n as int) =~= buf@);
    }
    value
}

/// Interpret a numeric prefix followed by up to 7 bytes as a big-endian
/// unsigned integer: the prefix forms the most significant byte group.
pub fn bytes_to_usize_with_prefix(prefix: usize, buf: &[u8]) -> (r: usize)
    requires
        prefix <= 0xff,
        buf@.len() <= 7,
        prefix * pow256(buf@.len()) + be_val(buf@) <= usize::MAX,
    ensures
        r == prefix * pow256(buf@.len()) + be_val(buf@),
{
    proof {
        reveal_with_fuel(pow256, 9);
        assert(buf@.subrange(0, 0) =~= Seq::<u8>::empty());
        assert(be_val(Seq::<u8>::empty()) == 0);
        assert(pow256(0) == 1);
    }
    let n = buf.len();
    let mut value: u64 = prefix as u64;
    let mut i: usize = 0;
    while i < n
        invariant
            n == buf@.len() <= 7,
            i <= n,
            prefix <= 0xff,
            value == prefix * pow256(i as nat) + be_val(buf@.subrange(0, i as int)),
            pow256(8) == 0x1_0000_0000_0000_0000,
        decreases n - i,
    {
        let b = *slice_index_get(buf, i);
        proof {
            let ghost pre = buf@.subrange(0, i as int);
            assert(buf@.subrange(0, i + 1) =~= pre.push(buf@[i as int]));
            lemma_be_val_snoc(pre, buf@[i as int]);
            lemma_be_val_bound(pre);
            assert(pow256((i + 1) as nat) == 256 * pow256(i as nat));
            lemma_pow256_mono((i + 2) as nat, 8);
            assert(pow256((i + 2) as nat) == 256 * pow256((i + 1) as nat));
            assert(value * 256 == prefix * pow256((i + 1) as nat) + be_val(pre) * 256)
                by (nonlinear_arith)
                requires
                    value == prefix * pow256(i as nat) + be_val(pre),
                    pow256((i + 1) as nat) == 256 * pow256(i as nat),
            ;
            assert(value < pow256((i + 1) as nat)) by (nonlinear_arith)
                requires
                    value == prefix * pow256(i as nat) + be_val(pre),
                    prefix <= 0xff,
                    be_val(pre) < pow256(i as nat),
                    pow256((i + 1) as nat) == 256 * pow256(i as nat),
            ;
        }
        value = value * 256 + (b as u64);
        i += 1;
    }
    proof {
        assert(buf@.subrange(0, n as int) =~= buf@);
    }
    value as usize
}

/// Read one control header: the type code and the size field, advancing
/// the offset past the header (including any extended type byte and any
/// size extension bytes).
pub fn read_control(buf: &[u8], offset: &mut usize) -> (r: Result<(u8, usize), Error>)
    ensures
        match r {
            Ok((t, s)) => spec_control(buf@, *old(offset) as int) == Ok::<_, ErrorSpec>(
                (t, s as int, *final(offset) as int),
            ),
            Err(e) => spec_control(buf@, *old(offset) as int) == Err::<(u8, int, int), _>(e@),
        },
{
    let pos0 = *offset;
    if pos0 >= buf.len() {
        return Err(Error::InvalidOffset);
    }
    let control_byte = *slice_index_get(buf, pos0);
    let mut pos = pos0 + 1;
    let mut data_type = control_byte >> 5;
    if data_type == DATA_TYPE_EXTENDED {
        if pos >= buf.len() {
            return Err(Error::InvalidOffset);
        }
        let ext = *slice_index_get(buf, pos);
        if ext > 248 {
            return Err(Error::InvalidDataType(ext));
        }
        data_type = ext + 7;
        pos = pos + 1;
    }
    let size0 = control_byte & 0x1f;
    if size0 < 29 {
        *offset = pos;
        return Ok((data_type, size0 as usize));
    }
    let n = (size0 - 28) as usize;
    if n > buf.len() - pos {
        return Err(Error::InvalidOffset);
    }
    let size: usize;
    if n == 1 {
        size = 29 + (*slice_index_get(buf, pos) as usize);
        pos = pos + 1;
    } else if n == 2 {
        size = 285 + (*slice_index_get(buf, pos) as usize) * 256 + (*slice_index_get(
            buf,
            pos + 1,
        ) as usize);
        pos = pos + 2;
    } else {
        let b0 = *slice_index_get(buf, pos) as usize;
        let b1 = *slice_index_get(buf, pos + 1) as usize;
        let b2 = *slice_index_get(buf, pos + 2) as usize;
        proof {
            let s3 = buf@.subrange(pos as int, pos + 3);
            let s2 = s3.drop_last();
            let s1 = s2.drop_last();
            let s0 = s1.drop_last();
            assert(s0 =~= Seq::<u8>::empty());
            assert(be_val(s0) == 0);
            assert(be_val(s1) == be_val(s0) * 256 + s1.last());
            assert(be_val(s2) == be_val(s1) * 256 + s2.last());
            assert(be_val(s3) == be_val(s2) * 256 + s3.last());
            assert(s1.last() == buf@[pos as int]);
            assert(s2.last() == buf@[pos + 1]);
            assert(s3.last() == buf@[pos + 2]);
            assert(be_val(s3) == buf@[pos as int] * 65536 + buf@[pos + 1] * 256 + buf@[pos + 2]);
        }
        size = 65821 + b0 * 65536 + b1 * 256 + b2;
        pos = pos + 3;
    }
    *offset = pos;
    Ok((data_type, size))
}

/// Decode a pointer's target offset from its size field and address
/// bytes, advancing the offset past the address bytes.
pub fn read_pointer(buf: &[u8], offset: &mut usize, size: usize) -> (r: Result<usize, Error>)
    ensures
        match r {
            Ok(target) => spec_pointer(buf@, *old(offset) as int, size as int) == Ok::<_, ErrorSpec>(
                (target as int, *final(offset) as int),
            ),
            Err(e) => spec_pointer(buf@, *old(offset) as int, size as int) == Err::<(int, int), _>(
                e@,
            ),
        },
{
    proof {
        assert((size >> 3) & 0x3 == (size / 8) % 4) by (bit_vector);
        assert(size & 0x7 == size % 8) by (bit_vector);
    }
    let pointer_size = ((size >> 3) & 0x3) + 1;
    let prefix: usize = if pointer_size != 4 {
        size & 0x7
    } else {
        0
    };
    let pos = *offset;
    if pointer_size > buf.len() || pos > buf.len() - pointer_size {
        return Err(Error::InvalidOffset);
    }
    let bytes = slice_subrange(buf, pos, pos + pointer_size);
    proof {
        reveal_with_fuel(pow256, 9);
        lemma_be_val_bound(bytes@);
        if pointer_size == 4 {
            assert(prefix * pow256(bytes@.len()) + be_val(bytes@) < 0x1_0000_0000);
            assert(usize::MAX >= 0xffff_ffff);
        } else {
            assert(prefix <= 7);
            lemma_pow256_mono(bytes@.len(), 3);
            vstd::arithmetic::mul::lemma_mul_inequality(
                prefix as int,
                7,
                pow256(bytes@.len()) as int,
            );
            vstd::arithmetic::mul::lemma_mul_inequality(
                pow256(bytes@.len()) as int,
                pow256(3) as int,
                7,
            );
            assert(prefix * pow256(bytes@.len()) + be_val(bytes@) <= 7 * 0x100_0000 + 0xff_ffff);
        }
    }
    let unpacked = bytes_to_usize_with_prefix(prefix, bytes);
    let pointer_value_offset: usize = if pointer_size == 2 {
        2048
    } else if pointer_size == 3 {
        526336
    } else {
        0
    };
    *offset = pos + pointer_size;
    Ok(unpacked + pointer_value_offset)
}


/// Copy `size` bytes at the cursor out of the buffer, advancing past them.
pub fn read_bytes(buf: &[u8], offset: &mut usize, size: usize) -> (r: Result<Vec<u8>, Error>)
    ensures
        match r {
            Ok(v) => *old(offset) + size <= buf@.len() && v@ == buf@.subrange(
                *old(offset) as int,
                *old(offset) + size,
            ) && *final(offset) == *old(offset) + size,
            Err(e) => e@ == ErrorSpec::InvalidOffset && *old(offset) + size > buf@.len(),
        },
{
    let pos = *offset;
    if pos > buf.len() || size > buf.len() - pos {
        return Err(Error::InvalidOffset);
    }
    let bytes = slice_subrange(buf, pos, pos + size);
    let v = slice_to_vec(bytes);
    *offset = pos + size;
    Ok(v)
}

/// Read a string payload of `size` bytes at the cursor and validate it as
/// UTF-8.
fn str_payload(buf: &[u8], offset: &mut usize, size: usize) -> (r: Result<String, Error>)
    ensures
        match r {
            Ok(v) => spec_str_payload(buf@, *old(offset) as int, size as int) == Ok::<
                _,
                ErrorSpec,
            >((v@, *final(offset) as int)),
            Err(e) => spec_str_payload(buf@, *old(offset) as int, size as int) == Err::<
                (Seq<char>, int),
                _,
            >(e@),
        },
{
    let bytes = match read_bytes(buf, offset, size) {
        Ok(v) => v,
        Err(e) => {
            return Err(e);
        },
    };
    match utf8_to_string(bytes) {
        Some(v) => Ok(v),
        None => Err(Error::InvalidUtf8),
    }
}

/// Read a string value at the cursor: either in place or through one
/// pointer hop; the cursor never advances past the pointer itself.
pub fn read_str(buf: &[u8], offset: &mut usize) -> (r: Result<String, Error>)
    ensures
        match r {
            Ok(v) => spec_read_str(buf@, *old(offset) as int) == Ok::<_, ErrorSpec>(
                (v@, *final(offset) as int),
            ),
            Err(e) => spec_read_str(buf@, *old(offset) as int) == Err::<(Seq<char>, int), _>(e@),
        },
{
    let (data_type, size) = read_control(buf, offset)?;
    if data_type == DATA_TYPE_STRING {
        str_payload(buf, offset, size)
    } else if data_type == DATA_TYPE_POINTER {
        let mut inner = read_pointer(buf, offset, size)?;
        let (t2, s2) = read_control(buf, &mut inner)?;
        if t2 == DATA_TYPE_STRING {
            let v = str_payload(buf, &mut inner, s2)?;
            Ok(v)
        } else {
            Err(Error::InvalidDataType(t2))
        }
    } else {
        Err(Error::InvalidDataType(data_type))
    }
}

/// Read a boolean value at the cursor; the value is carried by the size
/// field. One pointer hop is allowed.
pub fn read_bool(buf: &[u8], offset: &mut usize) -> (r: Result<bool, Error>)
    ensures
        match r {
            Ok(v) => spec_read_bool(buf@, *old(offset) as int) == Ok::<_, ErrorSpec>(
                (v, *final(offset) as int),
            ),
            Err(e) => spec_read_bool(buf@, *old(offset) as int) == Err::<(bool, int), _>(e@),
        },
{
    let (data_type, size) = read_control(buf, offset)?;
    if data_type == DATA_TYPE_BOOL {
        Ok(size != 0)
    } else if data_type == DATA_TYPE_POINTER {
        let mut inner = read_pointer(buf, offset, size)?;
        let (t2, s2) = read_control(buf, &mut inner)?;
        if t2 == DATA_TYPE_BOOL {
            Ok(s2 != 0)
        } else {
            Err(Error::InvalidDataType(t2))
        }
    } else {
        Err(Error::InvalidDataType(data_type))
    }
}

/// Whether a type code names one of the accepted unsigned integer forms.
fn is_uint_code(t: u8) -> (r: bool)
    ensures
        r == is_uint_type(t),
{
    t == DATA_TYPE_UINT16 || t == DATA_TYPE_UINT32 || t == DATA_TYPE_INT32 || t == DATA_TYPE_UINT64
        || t == DATA_TYPE_UINT128
}

/// Concatenating two byte runs combines their big-endian values.
pub proof fn lemma_be_val_append(a: Seq<u8>, b: Seq<u8>)
    ensures
        be_val(a.add(b)) == be_val(a) * pow256(b.len()) + be_val(b),
    decreases b.len(),
{
    if b.len() == 0 {
        assert(a.add(b) =~= a);
        assert(pow256(0) == 1);
    } else {
        let front = b.drop_last();
        lemma_be_val_append(a, front);
        assert(a.add(b).drop_last() =~= a.add(front));
        assert(a.add(b).last() == b.last());
        assert(pow256(b.len()) == 256 * pow256(front.len()));
        assert((be_val(a) * pow256(front.len()) + be_val(front)) * 256 == be_val(a) * pow256(
            b.len(),
        ) + be_val(front) * 256) by (nonlinear_arith)
            requires
                pow256(b.len()) == 256 * pow256(front.len()),
        ;
    }
}

/// Only the last eight bytes of a run contribute to its value as a 64-bit
/// word.
pub proof fn lemma_be_val64_suffix(s: Seq<u8>)
    requires
        s.len() >= 8,
    ensures
        be_val64(s) == be_val(s.subrange(s.len() - 8, s.len() as int)),
{
    let pre = s.subrange(0, s.len() - 8);
    let suf = s.subrange(s.len() - 8, s.len() as int);
    assert(s =~= pre.add(suf));
    lemma_be_val_append(pre, suf);
    lemma_be_val_bound(suf);
    reveal_with_fuel(pow256, 9);
    assert(pow256(8) == 0x1_0000_0000_0000_0000);
    assert(be_val(s) == be_val(pre) * 0x1_0000_0000_0000_0000 + be_val(suf));
    vstd::arithmetic::div_mod::lemma_mod_multiples_vanish(
        be_val(pre) as int,
        be_val(suf) as int,
        0x1_0000_0000_0000_0000,
    );
    vstd::arithmetic::div_mod::lemma_small_mod(be_val(suf), 0x1_0000_0000_0000_0000);
    assert(be_val64(s) == (be_val(pre) * 0x1_0000_0000_0000_0000 + be_val(suf))
        % 0x1_0000_0000_0000_0000);
}

/// A run of at most eight bytes is its own 64-bit value.
pub proof fn lemma_be_val64_small(s: Seq<u8>)
    requires
        s.len() <= 8,
    ensures
        be_val64(s) == be_val(s),
{
    lemma_be_val_bound(s);
    lemma_pow256_mono(s.len(), 8);
    reveal_with_fuel(pow256, 9);
    vstd::arithmetic::div_mod::lemma_small_mod(be_val(s), 0x1_0000_0000_0000_0000);
}

/// Read an integer payload of `size` big-endian bytes at the cursor as a
/// 64-bit word, discarding any bits above the 64th.
fn uint_payload(buf: &[u8], offset: &mut usize, size: usize) -> (r: Result<u64, Error>)
    ensures
        match r {
            Ok(v) => spec_uint_payload(buf@, *old(offset) as int, size as int) == Ok::<
                _,
                ErrorSpec,
            >((v, *final(offset) as int)),
            Err(e) => spec_uint_payload(buf@, *old(offset) as int, size as int) == Err::<
                (u64, int),
                _,
            >(e@),
        },
{
    if size == 0 {
        return Ok(0u64);
    }
    let pos = *offset;
    if pos > buf.len() || size > buf.len() - pos {
        return Err(Error::InvalidOffset);
    }
    let m: usize = if size > 8 {
        8
    } else {
        size
    };
    let bytes = slice_subrange(buf, pos + size - m, pos + size);
    let value = bytes_to_u64(bytes);
    proof {
        let whole = buf@.subrange(pos as int, pos + size);
        if size > 8 {
            lemma_be_val64_suffix(whole);
            assert(whole.subrange(whole.len() - 8, whole.len() as int) =~= bytes@);
        } else {
            lemma_be_val64_small(whole);
            assert(whole =~= bytes@);
        }
    }
    *offset = pos + size;
    Ok(value)
}

/// Read an unsigned integer value at the cursor, accepting any of the
/// fixed-width integer type codes. One pointer hop is allowed.
pub fn read_usize(buf: &[u8], offset: &mut usize) -> (r: Result<u64, Error>)
    ensures
        match r {
            Ok(v) => spec_read_uint(buf@, *old(offset) as int) == Ok::<_, ErrorSpec>(
                (v, *final(offset) as int),
            ),
            Err(e) => spec_read_uint(buf@, *old(offset) as int) == Err::<(u64, int), _>(e@),
        },
{
    let (data_type, size) = read_control(buf, offset)?;
    if is_uint_code(data_type) {
        uint_payload(buf, offset, size)
    } else if data_type == DATA_TYPE_POINTER {
        let mut inner = read_pointer(buf, offset, size)?;
        let (t2, s2) = read_control(buf, &mut inner)?;
        if is_uint_code(t2) {
            let v = uint_payload(buf, &mut inner, s2)?;
            Ok(v)
        } else {
            Err(Error::InvalidDataType(t2))
        }
    } else {
        Err(Error::InvalidDataType(data_type))
    }
}

/// Read an 8-byte double payload at the cursor as its raw bit pattern.
fn f64_payload(buf: &[u8], offset: &mut usize, size: usize) -> (r: Result<u64, Error>)
    ensures
        match r {
            Ok(v) => spec_f64_payload(buf@, *old(offset) as int, size as int) == Ok::<
                _,
                ErrorSpec,
            >((v, *final(offset) as int)),
            Err(e) => spec_f64_payload(buf@, *old(offset) as int, size as int) == Err::<
                (u64, int),
                _,
            >(e@),
        },
{
    if size != 8 {
        return Err(Error::InvalidDataType(DATA_TYPE_FLOAT64));
    }
    let pos = *offset;
    if pos > buf.len() || 8 > buf.len() - pos {
        return Err(Error::InvalidOffset);
    }
    let bytes = slice_subrange(buf, pos, pos + 8);
    let value = bytes_to_u64(bytes);
    proof {
        lemma_be_val_bound(bytes@);
        reveal_with_fuel(pow256, 9);
    }
    *offset = pos + 8;
    Ok(value)
}

/// Read a double value at the cursor, returned as the raw bits of its
/// 8-byte big-endian IEEE-754 representation. One pointer hop is allowed.
pub fn read_f64_bits(buf: &[u8], offset: &mut usize) -> (r: Result<u64, Error>)
    ensures
        match r {
            Ok(v) => spec_read_f64_bits(buf@, *old(offset) as int) == Ok::<_, ErrorSpec>(
                (v, *final(offset) as int),
            ),
            Err(e) => spec_read_f64_bits(buf@, *old(offset) as int) == Err::<(u64, int), _>(e@),
        },
{
    let (data_type, size) = read_control(buf, offset)?;
    if data_type == DATA_TYPE_FLOAT64 {
        f64_payload(buf, offset, size)
    } else if data_type == DATA_TYPE_POINTER {
        let mut inner = read_pointer(buf, offset, size)?;
        let (t2, s2) = read_control(buf, &mut inner)?;
        if t2 == DATA_TYPE_FLOAT64 {
            let v = f64_payload(buf, &mut inner, s2)?;
            Ok(v)
        } else {
            Err(Error::InvalidDataType(t2))
        }
    } else {
        Err(Error::InvalidDataType(data_type))
    }
}


/// The character sequences of a sequence of strings.
pub open spec fn views_of_strings(s: Seq<String>) -> Seq<Seq<char>> {
    s.map_values(|x: String| x@)
}

/// The character sequences of a sequence of string pairs.
pub open spec fn views_of_pairs(s: Seq<(String, String)>) -> Seq<(Seq<char>, Seq<char>)> {
    s.map_values(|x: (String, String)| (x.0@, x.1@))
}

/// Read `n` consecutive string elements at the cursor.
fn str_elems(buf: &[u8], offset: &mut usize, n: usize) -> (r: Result<Vec<String>, Error>)
    ensures
        match r {
            Ok(v) => spec_str_elems(buf@, *old(offset) as int, n as int) == Ok::<_, ErrorSpec>(
                (views_of_strings(v@), *final(offset) as int),
            ),
            Err(e) => spec_str_elems(buf@, *old(offset) as int, n as int) == Err::<
                (Seq<Seq<char>>, int),
                _,
            >(e@),
        },
    decreases n,
{
    if n == 0 {
        proof {
            assert(views_of_strings(Seq::empty()) =~= Seq::<Seq<char>>::empty());
        }
        return Ok(Vec::new());
    }
    let item = read_str(buf, offset)?;
    let mut rest = str_elems(buf, offset, n - 1)?;
    proof {
        assert(views_of_strings(rest@.insert(0, item)) =~= seq![item@].add(
            views_of_strings(rest@),
        ));
    }
    rest.insert(0, item);
    Ok(rest)
}

/// Read an array of strings at the cursor. One pointer hop to the array
/// itself is allowed.
pub fn read_str_array(buf: &[u8], offset: &mut usize) -> (r: Result<Vec<String>, Error>)
    ensures
        match r {
            Ok(v) => spec_read_str_array(buf@, *old(offset) as int) == Ok::<_, ErrorSpec>(
                (views_of_strings(v@), *final(offset) as int),
            ),
            Err(e) => spec_read_str_array(buf@, *old(offset) as int) == Err::<
                (Seq<Seq<char>>, int),
                _,
            >(e@),
        },
{
    let (data_type, size) = read_control(buf, offset)?;
    if data_type == DATA_TYPE_SLICE {
        str_elems(buf, offset, size)
    } else if data_type == DATA_TYPE_POINTER {
        let mut inner = read_pointer(buf, offset, size)?;
        let (t2, s2) = read_control(buf, &mut inner)?;
        if t2 == DATA_TYPE_SLICE {
            let v = str_elems(buf, &mut inner, s2)?;
            Ok(v)
        } else {
            Err(Error::InvalidDataType(t2))
        }
    } else {
        Err(Error::InvalidDataType(data_type))
    }
}

/// Read `n` consecutive key/value string pairs at the cursor.
fn str_pairs(buf: &[u8], offset: &mut usize, n: usize) -> (r: Result<Vec<(String, String)>, Error>)
    ensures
        match r {
            Ok(v) => spec_str_pairs(buf@, *old(offset) as int, n as int) == Ok::<_, ErrorSpec>(
                (views_of_pairs(v@), *final(offset) as int),
            ),
            Err(e) => spec_str_pairs(buf@, *old(offset) as int, n as int) == Err::<
                (Seq<(Seq<char>, Seq<char>)>, int),
                _,
            >(e@),
        },
    decreases n,
{
    if n == 0 {
        proof {
            assert(views_of_pairs(Seq::empty()) =~= Seq::<(Seq<char>, Seq<char>)>::empty());
        }
        return Ok(Vec::new());
    }
    let key = read_str(buf, offset)?;
    let value = read_str(buf, offset)?;
    let mut rest = str_pairs(buf, offset, n - 1)?;
    proof {
        assert(views_of_pairs(rest@.insert(0, (key, value))) =~= seq![(key@, value@)].add(
            views_of_pairs(rest@),
        ));
    }
    rest.insert(0, (key, value));
    Ok(rest)
}

/// Read a map from string keys to string values at the cursor, in file
/// order. One pointer hop to the map itself is allowed.
pub fn read_map(buf: &[u8], offset: &mut usize) -> (r: Result<Vec<(String, String)>, Error>)
    ensures
        match r {
            Ok(v) => spec_read_map(buf@, *old(offset) as int) == Ok::<_, ErrorSpec>(
                (views_of_pairs(v@), *final(offset) as int),
            ),
            Err(e) => spec_read_map(buf@, *old(offset) as int) == Err::<
                (Seq<(Seq<char>, Seq<char>)>, int),
                _,
            >(e@),
        },
{
    let (data_type, size) = read_control(buf, offset)?;
    if data_type == DATA_TYPE_MAP {
        str_pairs(buf, offset, size)
    } else if data_type == DATA_TYPE_POINTER {
        let mut inner = read_pointer(buf, offset, size)?;
        let (t2, s2) = read_control(buf, &mut inner)?;
        if t2 == DATA_TYPE_MAP {
            let v = str_pairs(buf, &mut inner, s2)?;
            Ok(v)
        } else {
            Err(Error::InvalidDataType(t2))
        }
    } else {
        Err(Error::InvalidDataType(data_type))
    }
}

/// The contract every record schema implements: `decode_with_size` reads
/// exactly `size` key/value pairs at the cursor and fills the record's
/// fields, and `decode` first consumes the MAP control header (following
/// at most one pointer).
pub trait Decoder: View + Sized {
    /// The mathematical meaning of `decode_with_size` on the record's model.
    spec fn sp_decode_size(buf: Seq<u8>, off: int, n: int) -> Result<(Self::V, int), ErrorSpec>;

    fn decode_with_size(buf: &[u8], offset: &mut usize, size: usize) -> (r: Result<Self, Error>)
        ensures
            match r {
                Ok(v) => Self::sp_decode_size(buf@, *old(offset) as int, size as int) == Ok::<
                    _,
                    ErrorSpec,
                >((v@, *final(offset) as int)),
                Err(e) => Self::sp_decode_size(buf@, *old(offset) as int, size as int) == Err::<
                    (Self::V, int),
                    _,
                >(e@),
            },
    ;

    fn decode(buf: &[u8], offset: &mut usize) -> (r: Result<Self, Error>)
        ensures
            match r {
                Ok(v) => match spec_control(buf@, *old(offset) as int) {
                    Err(_) => false,
                    Ok((t, s, p)) => {
                        if t == DATA_TYPE_MAP {
                            Self::sp_decode_size(buf@, p, s) == Ok::<_, ErrorSpec>(
                                (v@, *final(offset) as int),
                            )
                        } else if t == DATA_TYPE_POINTER {
                            match spec_pointer(buf@, p, s) {
                                Err(_) => false,
                                Ok((target, after)) => match spec_control(buf@, target) {
                                    Err(_) => false,
                                    Ok((t2, s2, p2)) => t2 == DATA_TYPE_MAP && after == *final(offset)
                                        && (match Self::sp_decode_size(buf@, p2, s2) {
                                        Ok((w, _)) => w == v@,
                                        Err(_) => false,
                                    }),
                                },
                            }
                        } else {
                            false
                        }
                    },
                },
                Err(e) => match spec_control(buf@, *old(offset) as int) {
                    Err(ec) => ec == e@,
                    Ok((t, s, p)) => {
                        if t == DATA_TYPE_MAP {
                            Self::sp_decode_size(buf@, p, s) == Err::<(Self::V, int), _>(e@)
                        } else if t == DATA_TYPE_POINTER {
                            match spec_pointer(buf@, p, s) {
                                Err(ec) => ec == e@,
                                Ok((target, after)) => match spec_control(buf@, target) {
                                    Err(ec) => ec == e@,
                                    Ok((t2, s2, p2)) => {
                                        if t2 == DATA_TYPE_MAP {
                                            Self::sp_decode_size(buf@, p2, s2) == Err::<
                                                (Self::V, int),
                                                _,
                                            >(e@)
                                        } else {
                                            e@ == ErrorSpec::InvalidDataType(t2)
                                        }
                                    },
                                },
                            }
                        } else {
                            e@ == ErrorSpec::InvalidDataType(t)
                        }
                    },
                },
            },
    {
        let (data_type, size) = read_control(buf, offset)?;
        if data_type == DATA_TYPE_MAP {
            Self::decode_with_size(buf, offset, size)
        } else if data_type == DATA_TYPE_POINTER {
            let mut inner = read_pointer(buf, offset, size)?;
            let (t2, s2) = read_control(buf, &mut inner)?;
            if t2 == DATA_TYPE_MAP {
                let v = Self::decode_with_size(buf, &mut inner, s2)?;
                Ok(v)
            } else {
                Err(Error::InvalidDataType(t2))
            }
        } else {
            Err(Error::InvalidDataType(data_type))
        }
    }
}


/// The view of each element of an optional value.
pub open spec fn view_opt<T: View>(o: Option<T>) -> Option<T::V> {
    match o {
        Some(x) => Some(x@),
        None => None,
    }
}

/// The views of a sequence of values.
pub open spec fn views_of_recs<T: View>(s: Seq<T>) -> Seq<T::V> {
    s.map_values(|x: T| x@)
}

} // verus!
