use vstd::prelude::*;

use crate::decode::{
    read_bool, read_control, read_f64_bits, read_map, read_pointer, read_str, read_usize, str_eq,
    views_of_pairs, views_of_recs, Decoder,
};
use crate::errors::{Error, ErrorSpec};
use crate::format::{
    spec_control, spec_pointer, spec_read_bool, spec_read_f64_bits, spec_read_map, spec_read_str,
    spec_read_uint, DATA_TYPE_MAP, DATA_TYPE_POINTER, DATA_TYPE_SLICE,
};

verus! {

/// The character sequences of an optional string.
pub open spec fn view_opt_str(o: Option<String>) -> Option<Seq<char>> {
    match o {
        Some(s) => Some(s@),
        None => None,
    }
}

/// The character sequences of an optional map of string pairs.
pub open spec fn view_opt_pairs(o: Option<Vec<(String, String)>>) -> Option<
    Seq<(Seq<char>, Seq<char>)>,
> {
    match o {
        Some(v) => Some(views_of_pairs(v@)),
        None => None,
    }
}

/// A 64-bit value narrowed to its low 32 bits, as the integer fields of
/// the record schemas store it.
pub open spec fn trunc32(v: u64) -> u32 {
    (v & 0xffff_ffff) as u32
}

/// A 64-bit value narrowed to its low 16 bits.
pub open spec fn trunc16(v: u64) -> u16 {
    (v & 0xffff) as u16
}

/// Narrow a decoded integer to 32 bits, keeping the low bits.
pub fn u32_of(v: u64) -> (r: u32)
    ensures
        r == trunc32(v),
{
    proof {
        assert(v & 0xffff_ffff <= 0xffff_ffff) by (bit_vector);
    }
    (v & 0xffff_ffff) as u32
}

/// Narrow a decoded integer to 16 bits, keeping the low bits.
pub fn u16_of(v: u64) -> (r: u16)
    ensures
        r == trunc16(v),
{
    proof {
        assert(v & 0xffff <= 0xffff) by (bit_vector);
    }
    (v & 0xffff) as u16
}

/// GeoIP2 City sub-record.
#[derive(Debug, Clone)]
pub struct City {
    pub geoname_id: Option<u32>,
    pub names: Option<Vec<(String, String)>>,
}

/// Model of [`City`].
pub struct CitySpec {
    pub geoname_id: Option<u32>,
    pub names: Option<Seq<(Seq<char>, Seq<char>)>>,
}

impl View for City {
    type V = CitySpec;

    open spec fn view(&self) -> CitySpec {
        CitySpec {
            geoname_id: self.geoname_id,
            names: view_opt_pairs(self.names),
        }
    }
}

/// Field decoding for [`City`]: `n` key/value pairs applied to `m` in
/// file order; an unknown key is fatal.
pub open spec fn sp_city_fields(m: CitySpec, buf: Seq<u8>, off: int, n: int) -> Result<
    (CitySpec, int),
    ErrorSpec,
>
    decreases n,
{
    if n <= 0 {
        Ok((m, off))
    } else {
        match spec_read_str(buf, off) {
            Err(e) => Err(e),
            Ok((key, p)) => {
                if key == "geoname_id"@ {
                    match spec_read_uint(buf, p) {
                        Err(e) => Err(e),
                        Ok((v, q)) => sp_city_fields(
                            CitySpec { geoname_id: Some(trunc32(v)), ..m },
                            buf,
                            q,
                            n - 1,
                        ),
                    }
                } else if key == "names"@ {
                    match spec_read_map(buf, p) {
                        Err(e) => Err(e),
                        Ok((v, q)) => sp_city_fields(
                            CitySpec { names: Some(v), ..m },
                            buf,
                            q,
                            n - 1,
                        ),
                    }
                } else {
                    Err(ErrorSpec::UnknownField(key))
                }
            },
        }
    }
}

/// How a whole [`City`] record is decoded at `off`: a MAP control
/// header (one pointer hop is allowed), then the key/value pairs.
pub open spec fn sp_city_decode(buf: Seq<u8>, off: int) -> Result<(CitySpec, int), ErrorSpec> {
    match spec_control(buf, off) {
        Err(e) => Err(e),
        Ok((t, s, p)) => {
            if t == DATA_TYPE_MAP {
                City::sp_decode_size(buf, p, s)
            } else if t == DATA_TYPE_POINTER {
                match spec_pointer(buf, p, s) {
                    Err(e) => Err(e),
                    Ok((target, after)) => {
                        match spec_control(buf, target) {
                            Err(e) => Err(e),
                            Ok((t2, s2, p2)) => {
                                if t2 == DATA_TYPE_MAP {
                                    match City::sp_decode_size(buf, p2, s2) {
                                        Err(e) => Err(e),
                                        Ok((v, _)) => Ok((v, after)),
                                    }
                                } else {
                                    Err(ErrorSpec::InvalidDataType(t2))
                                }
                            },
                        }
                    },
                }
            } else {
                Err(ErrorSpec::InvalidDataType(t))
            }
        },
    }
}

fn city_fields(acc: City, buf: &[u8], offset: &mut usize, n: usize) -> (r: Result<
    City,
    Error,
>)
    ensures
        match r {
            Ok(v) => sp_city_fields(acc@, buf@, *old(offset) as int, n as int) == Ok::<
                _,
                ErrorSpec,
            >((v@, *final(offset) as int)),
            Err(e) => sp_city_fields(acc@, buf@, *old(offset) as int, n as int) == Err::<
                (CitySpec, int),
                _,
            >(e@),
        },
    decreases n,
{
    if n == 0 {
        return Ok(acc);
    }
    let key = read_str(buf, offset)?;
    if str_eq(key.as_str(), "geoname_id") {
        let v = read_usize(buf, offset)?;
        city_fields(City { geoname_id: Some(u32_of(v)), ..acc }, buf, offset, n - 1)
    } else if str_eq(key.as_str(), "names") {
        let v = read_map(buf, offset)?;
        city_fields(City { names: Some(v), ..acc }, buf, offset, n - 1)
    } else {
        Err(Error::UnknownField(key))
    }
}

impl Decoder for City {
    open spec fn sp_decode_size(buf: Seq<u8>, off: int, n: int) -> Result<
        (CitySpec, int),
        ErrorSpec,
    > {
        sp_city_fields(
            CitySpec { geoname_id: None, names: None },
            buf,
            off,
            n,
        )
    }

    fn decode_with_size(buf: &[u8], offset: &mut usize, size: usize) -> (r: Result<Self, Error>) {
        city_fields(
            City { geoname_id: None, names: None },
            buf,
            offset,
            size,
        )
    }
}

/// GeoIP2 Continent record.
#[derive(Debug, Clone)]
pub struct Continent {
    pub geoname_id: Option<u32>,
    pub code: Option<String>,
    pub names: Option<Vec<(String, String)>>,
}

/// Model of [`Continent`].
pub struct ContinentSpec {
    pub geoname_id: Option<u32>,
    pub code: Option<Seq<char>>,
    pub names: Option<Seq<(Seq<char>, Seq<char>)>>,
}

impl View for Continent {
    type V = ContinentSpec;

    open spec fn view(&self) -> ContinentSpec {
        ContinentSpec {
            geoname_id: self.geoname_id,
            code: view_opt_str(self.code),
            names: view_opt_pairs(self.names),
        }
    }
}

/// Field decoding for [`Continent`]: `n` key/value pairs applied to `m` in
/// file order; an unknown key is fatal.
pub open spec fn sp_continent_fields(m: ContinentSpec, buf: Seq<u8>, off: int, n: int) -> Result<
    (ContinentSpec, int),
    ErrorSpec,
>
    decreases n,
{
    if n <= 0 {
        Ok((m, off))
    } else {
        match spec_read_str(buf, off) {
            Err(e) => Err(e),
            Ok((key, p)) => {
                if key == "geoname_id"@ {
                    match spec_read_uint(buf, p) {
                        Err(e) => Err(e),
                        Ok((v, q)) => sp_continent_fields(
                            ContinentSpec { geoname_id: Some(trunc32(v)), ..m },
                            buf,
                            q,
                            n - 1,
                        ),
                    }
                } else if key == "code"@ {
                    match spec_read_str(buf, p) {
                        Err(e) => Err(e),
                        Ok((v, q)) => sp_continent_fields(
                            ContinentSpec { code: Some(v), ..m },
                            buf,
                            q,
                            n - 1,
                        ),
                    }
                } else if key == "names"@ {
                    match spec_read_map(buf, p) {
                        Err(e) => Err(e),
                        Ok((v, q)) => sp_continent_fields(
                            ContinentSpec { names: Some(v), ..m },
                            buf,
                            q,
                            n - 1,
                        ),
                    }
                } else {
                    Err(ErrorSpec::UnknownField(key))
                }
            },
        }
    }
}

/// How a whole [`Continent`] record is decoded at `off`: a MAP control
/// header (one pointer hop is allowed), then the key/value pairs.
pub open spec fn sp_continent_decode(buf: Seq<u8>, off: int) -> Result<(ContinentSpec, int), ErrorSpec> {
    match spec_control(buf, off) {
        Err(e) => Err(e),
        Ok((t, s, p)) => {
            if t == DATA_TYPE_MAP {
                Continent::sp_decode_size(buf, p, s)
            } else if t == DATA_TYPE_POINTER {
                match spec_pointer(buf, p, s) {
                    Err(e) => Err(e),
                    Ok((target, after)) => {
                        match spec_control(buf, target) {
                            Err(e) => Err(e),
                            Ok((t2, s2, p2)) => {
                                if t2 == DATA_TYPE_MAP {
                                    match Continent::sp_decode_size(buf, p2, s2) {
                                        Err(e) => Err(e),
                                        Ok((v, _)) => Ok((v, after)),
                                    }
                                } else {
                                    Err(ErrorSpec::InvalidDataType(t2))
                                }
                            },
                        }
                    },
                }
            } else {
                Err(ErrorSpec::InvalidDataType(t))
            }
        },
    }
}

fn continent_fields(acc: Continent, buf: &[u8], offset: &mut usize, n: usize) -> (r: Result<
    Continent,
    Error,
>)
    ensures
        match r {
            Ok(v) => sp_continent_fields(acc@, buf@, *old(offset) as int, n as int) == Ok::<
                _,
                ErrorSpec,
            >((v@, *final(offset) as int)),
            Err(e) => sp_continent_fields(acc@, buf@, *old(offset) as int, n as int) == Err::<
                (ContinentSpec, int),
                _,
            >(e@),
        },
    decreases n,
{
    if n == 0 {
        return Ok(acc);
    }
    let key = read_str(buf, offset)?;
    if str_eq(key.as_str(), "geoname_id") {
        let v = read_usize(buf, offset)?;
        continent_fields(Continent { geoname_id: Some(u32_of(v)), ..acc }, buf, offset, n - 1)
    } else if str_eq(key.as_str(), "code") {
        let v = read_str(buf, offset)?;
        continent_fields(Continent { code: Some(v), ..acc }, buf, offset, n - 1)
    } else if str_eq(key.as_str(), "names") {
        let v = read_map(buf, offset)?;
        continent_fields(Continent { names: Some(v), ..acc }, buf, offset, n - 1)
    } else {
        Err(Error::UnknownField(key))
    }
}

impl Decoder for Continent {
    open spec fn sp_decode_size(buf: Seq<u8>, off: int, n: int) -> Result<
        (ContinentSpec, int),
        ErrorSpec,
    > {
        sp_continent_fields(
            ContinentSpec { geoname_id: None, code: None, names: None },
            buf,
            off,
            n,
        )
    }

    fn decode_with_size(buf: &[u8], offset: &mut usize, size: usize) -> (r: Result<Self, Error>) {
        continent_fields(
            Continent { geoname_id: None, code: None, names: None },
            buf,
            offset,
            size,
        )
    }
}

/// GeoIP2 Country sub-record.
#[derive(Debug, Clone)]
pub struct Country {
    pub geoname_id: Option<u32>,
    pub is_in_european_union: Option<bool>,
    pub iso_code: Option<String>,
    pub names: Option<Vec<(String, String)>>,
}

/// Model of [`Country`].
pub struct CountrySpec {
    pub geoname_id: Option<u32>,
    pub is_in_european_union: Option<bool>,
    pub iso_code: Option<Seq<char>>,
    pub names: Option<Seq<(Seq<char>, Seq<char>)>>,
}

impl View for Country {
    type V = CountrySpec;

    open spec fn view(&self) -> CountrySpec {
        CountrySpec {
            geoname_id: self.geoname_id,
            is_in_european_union: self.is_in_european_union,
            iso_code: view_opt_str(self.iso_code),
            names: view_opt_pairs(self.names),
        }
    }
}

/// Field decoding for [`Country`]: `n` key/value pairs applied to `m` in
/// file order; an unknown key is fatal.
pub open spec fn sp_country_fields(m: CountrySpec, buf: Seq<u8>, off: int, n: int) -> Result<
    (CountrySpec, int),
    ErrorSpec,
>
    decreases n,
{
    if n <= 0 {
        Ok((m, off))
    } else {
        match spec_read_str(buf, off) {
            Err(e) => Err(e),
            Ok((key, p)) => {
                if key == "geoname_id"@ {
                    match spec_read_uint(buf, p) {
                        Err(e) => Err(e),
                        Ok((v, q)) => sp_country_fields(
                            CountrySpec { geoname_id: Some(trunc32(v)), ..m },
                            buf,
                            q,
                            n - 1,
                        ),
                    }
                } else if key == "is_in_european_union"@ {
                    match spec_read_bool(buf, p) {
                        Err(e) => Err(e),
                        Ok((v, q)) => sp_country_fields(
                            CountrySpec { is_in_european_union: Some(v), ..m },
                            buf,
                            q,
                            n - 1,
                        ),
                    }
                } else if key == "iso_code"@ {
                    match spec_read_str(buf, p) {
                        Err(e) => Err(e),
                        Ok((v, q)) => sp_country_fields(
                            CountrySpec { iso_code: Some(v), ..m },
                            buf,
                            q,
                            n - 1,
                        ),
                    }
                } else if key == "names"@ {
                    match spec_read_map(buf, p) {
                        Err(e) => Err(e),
                        Ok((v, q)) => sp_country_fields(
                            CountrySpec { names: Some(v), ..m },
                            buf,
                            q,
                            n - 1,
                        ),
                    }
                } else {
                    Err(ErrorSpec::UnknownField(key))
                }
            },
        }
    }
}

/// How a whole [`Country`] record is decoded at `off`: a MAP control
/// header (one pointer hop is allowed), then the key/value pairs.
pub open spec fn sp_country_decode(buf: Seq<u8>, off: int) -> Result<(CountrySpec, int), ErrorSpec> {
    match spec_control(buf, off) {
        Err(e) => Err(e),
        Ok((t, s, p)) => {
            if t == DATA_TYPE_MAP {
                Country::sp_decode_size(buf, p, s)
            } else if t == DATA_TYPE_POINTER {
                match spec_pointer(buf, p, s) {
                    Err(e) => Err(e),
                    Ok((target, after)) => {
                        match spec_control(buf, target) {
                            Err(e) => Err(e),
                            Ok((t2, s2, p2)) => {
                                if t2 == DATA_TYPE_MAP {
                                    match Country::sp_decode_size(buf, p2, s2) {
                                        Err(e) => Err(e),
                                        Ok((v, _)) => Ok((v, after)),
                                    }
                                } else {
                                    Err(ErrorSpec::InvalidDataType(t2))
                                }
                            },
                        }
                    },
                }
            } else {
                Err(ErrorSpec::InvalidDataType(t))
            }
        },
    }
}

fn country_fields(acc: Country, buf: &[u8], offset: &mut usize, n: usize) -> (r: Result<
    Country,
    Error,
>)
    ensures
        match r {
            Ok(v) => sp_country_fields(acc@, buf@, *old(offset) as int, n as int) == Ok::<
                _,
                ErrorSpec,
            >((v@, *final(offset) as int)),
            Err(e) => sp_country_fields(acc@, buf@, *old(offset) as int, n as int) == Err::<
                (CountrySpec, int),
                _,
            >(e@),
        },
    decreases n,
{
    if n == 0 {
        return Ok(acc);
    }
    let key = read_str(buf, offset)?;
    if str_eq(key.as_str(), "geoname_id") {
        let v = read_usize(buf, offset)?;
        country_fields(Country { geoname_id: Some(u32_of(v)), ..acc }, buf, offset, n - 1)
    } else if str_eq(key.as_str(), "is_in_european_union") {
        let v = read_bool(buf, offset)?;
        country_fields(Country { is_in_european_union: Some(v), ..acc }, buf, offset, n - 1)
    } else if str_eq(key.as_str(), "iso_code") {
        let v = read_str(buf, offset)?;
        country_fields(Country { iso_code: Some(v), ..acc }, buf, offset, n - 1)
    } else if str_eq(key.as_str(), "names") {
        let v = read_map(buf, offset)?;
        country_fields(Country { names: Some(v), ..acc }, buf, offset, n - 1)
    } else {
        Err(Error::UnknownField(key))
    }
}

impl Decoder for Country {
    open spec fn sp_decode_size(buf: Seq<u8>, off: int, n: int) -> Result<
        (CountrySpec, int),
        ErrorSpec,
    > {
        sp_country_fields(
            CountrySpec { geoname_id: None, is_in_european_union: None, iso_code: None, names: None },
            buf,
            off,
            n,
        )
    }

    fn decode_with_size(buf: &[u8], offset: &mut usize, size: usize) -> (r: Result<Self, Error>) {
        country_fields(
            Country { geoname_id: None, is_in_european_union: None, iso_code: None, names: None },
            buf,
            offset,
            size,
        )
    }
}

/// GeoIP2 RepresentedCountry record; its representation kind is decoded from the key `type`.
#[derive(Debug, Clone)]
pub struct RepresentedCountry {
    pub geoname_id: Option<u32>,
    pub is_in_european_union: Option<bool>,
    pub iso_code: Option<String>,
    pub names: Option<Vec<(String, String)>>,
    pub representation_type: Option<String>,
}

/// Model of [`RepresentedCountry`].
pub struct RepresentedCountrySpec {
    pub geoname_id: Option<u32>,
    pub is_in_european_union: Option<bool>,
    pub iso_code: Option<Seq<char>>,
    pub names: Option<Seq<(Seq<char>, Seq<char>)>>,
    pub representation_type: Option<Seq<char>>,
}

impl View for RepresentedCountry {
    type V = RepresentedCountrySpec;

    open spec fn view(&self) -> RepresentedCountrySpec {
        RepresentedCountrySpec {
            geoname_id: self.geoname_id,
            is_in_european_union: self.is_in_european_union,
            iso_code: view_opt_str(self.iso_code),
            names: view_opt_pairs(self.names),
            representation_type: view_opt_str(self.representation_type),
        }
    }
}

/// Field decoding for [`RepresentedCountry`]: `n` key/value pairs applied to `m` in
/// file order; an unknown key is fatal.
pub open spec fn sp_represented_country_fields(m: RepresentedCountrySpec, buf: Seq<u8>, off: int, n: int) -> Result<
    (RepresentedCountrySpec, int),
    ErrorSpec,
>
    decreases n,
{
    if n <= 0 {
        Ok((m, off))
    } else {
        match spec_read_str(buf, off) {
            Err(e) => Err(e),
            Ok((key, p)) => {
                if key == "geoname_id"@ {
                    match spec_read_uint(buf, p) {
                        Err(e) => Err(e),
                        Ok((v, q)) => sp_represented_country_fields(
                            RepresentedCountrySpec { geoname_id: Some(trunc32(v)), ..m },
                            buf,
                            q,
                            n - 1,
                        ),
                    }
                } else if key == "is_in_european_union"@ {
                    match spec_read_bool(buf, p) {
                        Err(e) => Err(e),
                        Ok((v, q)) => sp_represented_country_fields(
                            RepresentedCountrySpec { is_in_european_union: Some(v), ..m },
                            buf,
                            q,
                            n - 1,
                        ),
                    }
                } else if key == "iso_code"@ {
                    match spec_read_str(buf, p) {
                        Err(e) => Err(e),
                        Ok((v, q)) => sp_represented_country_fields(
                            RepresentedCountrySpec { iso_code: Some(v), ..m },
                            buf,
                            q,
                            n - 1,
                        ),
                    }
                } else if key == "names"@ {
                    match spec_read_map(buf, p) {
                        Err(e) => Err(e),
                        Ok((v, q)) => sp_represented_country_fields(
                            RepresentedCountrySpec { names: Some(v), ..m },
                            buf,
                            q,
                            n - 1,
                        ),
                    }
                } else if key == "type"@ {
                    match spec_read_str(buf, p) {
                        Err(e) => Err(e),
                        Ok((v, q)) => sp_represented_country_fields(
                            RepresentedCountrySpec { representation_type: Some(v), ..m },
                            buf,
                            q,
                            n - 1,
                        ),
                    }
                } else {
                    Err(ErrorSpec::UnknownField(key))
                }
            },
        }
    }
}

/// How a whole [`RepresentedCountry`] record is decoded at `off`: a MAP control
/// header (one pointer hop is allowed), then the key/value pairs.
pub open spec fn sp_represented_country_decode(buf: Seq<u8>, off: int) -> Result<(RepresentedCountrySpec, int), ErrorSpec> {
    match spec_control(buf, off) {
        Err(e) => Err(e),
        Ok((t, s, p)) => {
            if t == DATA_TYPE_MAP {
                RepresentedCountry::sp_decode_size(buf, p, s)
            } else if t == DATA_TYPE_POINTER {
                match spec_pointer(buf, p, s) {
                    Err(e) => Err(e),
                    Ok((target, after)) => {
                        match spec_control(buf, target) {
                            Err(e) => Err(e),
                            Ok((t2, s2, p2)) => {
                                if t2 == DATA_TYPE_MAP {
                                    match RepresentedCountry::sp_decode_size(buf, p2, s2) {
                                        Err(e) => Err(e),
                                        Ok((v, _)) => Ok((v, after)),
                                    }
                                } else {
                                    Err(ErrorSpec::InvalidDataType(t2))
                                }
                            },
                        }
                    },
                }
            } else {
                Err(ErrorSpec::InvalidDataType(t))
            }
        },
    }
}

fn represented_country_fields(acc: RepresentedCountry, buf: &[u8], offset: &mut usize, n: usize) -> (r: Result<
    RepresentedCountry,
    Error,
>)
    ensures
        match r {
            Ok(v) => sp_represented_country_fields(acc@, buf@, *old(offset) as int, n as int) == Ok::<
                _,
                ErrorSpec,
            >((v@, *final(offset) as int)),
            Err(e) => sp_represented_country_fields(acc@, buf@, *old(offset) as int, n as int) == Err::<
                (RepresentedCountrySpec, int),
                _,
            >(e@),
        },
    decreases n,
{
    if n == 0 {
        return Ok(acc);
    }
    let key = read_str(buf, offset)?;
    if str_eq(key.as_str(), "geoname_id") {
        let v = read_usize(buf, offset)?;
        represented_country_fields(RepresentedCountry { geoname_id: Some(u32_of(v)), ..acc }, buf, offset, n - 1)
    } else if str_eq(key.as_str(), "is_in_european_union") {
        let v = read_bool(buf, offset)?;
        represented_country_fields(RepresentedCountry { is_in_european_union: Some(v), ..acc }, buf, offset, n - 1)
    } else if str_eq(key.as_str(), "iso_code") {
        let v = read_str(buf, offset)?;
        represented_country_fields(RepresentedCountry { iso_code: Some(v), ..acc }, buf, offset, n - 1)
    } else if str_eq(key.as_str(), "names") {
        let v = read_map(buf, offset)?;
        represented_country_fields(RepresentedCountry { names: Some(v), ..acc }, buf, offset, n - 1)
    } else if str_eq(key.as_str(), "type") {
        let v = read_str(buf, offset)?;
        represented_country_fields(RepresentedCountry { representation_type: Some(v), ..acc }, buf, offset, n - 1)
    } else {
        Err(Error::UnknownField(key))
    }
}

impl Decoder for RepresentedCountry {
    open spec fn sp_decode_size(buf: Seq<u8>, off: int, n: int) -> Result<
        (RepresentedCountrySpec, int),
        ErrorSpec,
    > {
        sp_represented_country_fields(
            RepresentedCountrySpec { geoname_id: None, is_in_european_union: None, iso_code: None, names: None, representation_type: None },
            buf,
            off,
            n,
        )
    }

    fn decode_with_size(buf: &[u8], offset: &mut usize, size: usize) -> (r: Result<Self, Error>) {
        represented_country_fields(
            RepresentedCountry { geoname_id: None, is_in_european_union: None, iso_code: None, names: None, representation_type: None },
            buf,
            offset,
            size,
        )
    }
}

/// GeoIP2 Traits record.
#[derive(Debug, Clone)]
pub struct Traits {
    pub is_anonymous_proxy: Option<bool>,
    pub is_anycast: Option<bool>,
    pub is_satellite_provider: Option<bool>,
}

/// Model of [`Traits`].
pub struct TraitsSpec {
    pub is_anonymous_proxy: Option<bool>,
    pub is_anycast: Option<bool>,
    pub is_satellite_provider: Option<bool>,
}

impl View for Traits {
    type V = TraitsSpec;

    open spec fn view(&self) -> TraitsSpec {
        TraitsSpec {
            is_anonymous_proxy: self.is_anonymous_proxy,
            is_anycast: self.is_anycast,
            is_satellite_provider: self.is_satellite_provider,
        }
    }
}

/// Field decoding for [`Traits`]: `n` key/value pairs applied to `m` in
/// file order; an unknown key is fatal.
pub open spec fn sp_traits_fields(m: TraitsSpec, buf: Seq<u8>, off: int, n: int) -> Result<
    (TraitsSpec, int),
    ErrorSpec,
>
    decreases n,
{
    if n <= 0 {
        Ok((m, off))
    } else {
        match spec_read_str(buf, off) {
            Err(e) => Err(e),
            Ok((key, p)) => {
                if key == "is_anonymous_proxy"@ {
                    match spec_read_bool(buf, p) {
                        Err(e) => Err(e),
                        Ok((v, q)) => sp_traits_fields(
                            TraitsSpec { is_anonymous_proxy: Some(v), ..m },
                            buf,
                            q,
                            n - 1,
                        ),
                    }
                } else if key == "is_anycast"@ {
                    match spec_read_bool(buf, p) {
                        Err(e) => Err(e),
                        Ok((v, q)) => sp_traits_fields(
                            TraitsSpec { is_anycast: Some(v), ..m },
                            buf,
                            q,
                            n - 1,
                        ),
                    }
                } else if key == "is_satellite_provider"@ {
                    match spec_read_bool(buf, p) {
                        Err(e) => Err(e),
                        Ok((v, q)) => sp_traits_fields(
                            TraitsSpec { is_satellite_provider: Some(v), ..m },
                            buf,
                            q,
                            n - 1,
                        ),
                    }
                } else {
                    Err(ErrorSpec::UnknownField(key))
                }
            },
        }
    }
}

/// How a whole [`Traits`] record is decoded at `off`: a MAP control
/// header (one pointer hop is allowed), then the key/value pairs.
pub open spec fn sp_traits_decode(buf: Seq<u8>, off: int) -> Result<(TraitsSpec, int), ErrorSpec> {
    match spec_control(buf, off) {
        Err(e) => Err(e),
        Ok((t, s, p)) => {
            if t == DATA_TYPE_MAP {
                Traits::sp_decode_size(buf, p, s)
            } else if t == DATA_TYPE_POINTER {
                match spec_pointer(buf, p, s) {
                    Err(e) => Err(e),
                    Ok((target, after)) => {
                        match spec_control(buf, target) {
                            Err(e) => Err(e),
                            Ok((t2, s2, p2)) => {
                                if t2 == DATA_TYPE_MAP {
                                    match Traits::sp_decode_size(buf, p2, s2) {
                                        Err(e) => Err(e),
                                        Ok((v, _)) => Ok((v, after)),
                                    }
                                } else {
                                    Err(ErrorSpec::InvalidDataType(t2))
                                }
                            },
                        }
                    },
                }
            } else {
                Err(ErrorSpec::InvalidDataType(t))
            }
        },
    }
}

fn traits_fields(acc: Traits, buf: &[u8], offset: &mut usize, n: usize) -> (r: Result<
    Traits,
    Error,
>)
    ensures
        match r {
            Ok(v) => sp_traits_fields(acc@, buf@, *old(offset) as int, n as int) == Ok::<
                _,
                ErrorSpec,
            >((v@, *final(offset) as int)),
            Err(e) => sp_traits_fields(acc@, buf@, *old(offset) as int, n as int) == Err::<
                (TraitsSpec, int),
                _,
            >(e@),
        },
    decreases n,
{
    if n == 0 {
        return Ok(acc);
    }
    let key = read_str(buf, offset)?;
    if str_eq(key.as_str(), "is_anonymous_proxy") {
        let v = read_bool(buf, offset)?;
        traits_fields(Traits { is_anonymous_proxy: Some(v), ..acc }, buf, offset, n - 1)
    } else if str_eq(key.as_str(), "is_anycast") {
        let v = read_bool(buf, offset)?;
        traits_fields(Traits { is_anycast: Some(v), ..acc }, buf, offset, n - 1)
    } else if str_eq(key.as_str(), "is_satellite_provider") {
        let v = read_bool(buf, offset)?;
        traits_fields(Traits { is_satellite_provider: Some(v), ..acc }, buf, offset, n - 1)
    } else {
        Err(Error::UnknownField(key))
    }
}

impl Decoder for Traits {
    open spec fn sp_decode_size(buf: Seq<u8>, off: int, n: int) -> Result<
        (TraitsSpec, int),
        ErrorSpec,
    > {
        sp_traits_fields(
            TraitsSpec { is_anonymous_proxy: None, is_anycast: None, is_satellite_provider: None },
            buf,
            off,
            n,
        )
    }

    fn decode_with_size(buf: &[u8], offset: &mut usize, size: usize) -> (r: Result<Self, Error>) {
        traits_fields(
            Traits { is_anonymous_proxy: None, is_anycast: None, is_satellite_provider: None },
            buf,
            offset,
            size,
        )
    }
}

/// GeoIP2 Location record; latitude and longitude hold the raw bits of the 8-byte big-endian IEEE-754 doubles.
#[derive(Debug, Clone)]
pub struct Location {
    pub latitude: Option<u64>,
    pub longitude: Option<u64>,
    pub accuracy_radius: Option<u16>,
    pub time_zone: Option<String>,
    pub metro_code: Option<u16>,
}

/// Model of [`Location`].
pub struct LocationSpec {
    pub latitude: Option<u64>,
    pub longitude: Option<u64>,
    pub accuracy_radius: Option<u16>,
    pub time_zone: Option<Seq<char>>,
    pub metro_code: Option<u16>,
}

impl View for Location {
    type V = LocationSpec;

    open spec fn view(&self) -> LocationSpec {
        LocationSpec {
            latitude: self.latitude,
            longitude: self.longitude,
            accuracy_radius: self.accuracy_radius,
            time_zone: view_opt_str(self.time_zone),
            metro_code: self.metro_code,
        }
    }
}

/// Field decoding for [`Location`]: `n` key/value pairs applied to `m` in
/// file order; an unknown key is fatal.
pub open spec fn sp_location_fields(m: LocationSpec, buf: Seq<u8>, off: int, n: int) -> Result<
    (LocationSpec, int),
    ErrorSpec,
>
    decreases n,
{
    if n <= 0 {
        Ok((m, off))
    } else {
        match spec_read_str(buf, off) {
            Err(e) => Err(e),
            Ok((key, p)) => {
                if key == "latitude"@ {
                    match spec_read_f64_bits(buf, p) {
                        Err(e) => Err(e),
                        Ok((v, q)) => sp_location_fields(
                            LocationSpec { latitude: Some(v), ..m },
                            buf,
                            q,
                            n - 1,
                        ),
                    }
                } else if key == "longitude"@ {
                    match spec_read_f64_bits(buf, p) {
                        Err(e) => Err(e),
                        Ok((v, q)) => sp_location_fields(
                            LocationSpec { longitude: Some(v), ..m },
                            buf,
                            q,
                            n - 1,
                        ),
                    }
                } else if key == "accuracy_radius"@ {
                    match spec_read_uint(buf, p) {
                        Err(e) => Err(e),
                        Ok((v, q)) => sp_location_fields(
                            LocationSpec { accuracy_radius: Some(trunc16(v)), ..m },
                            buf,
                            q,
                            n - 1,
                        ),
                    }
                } else if key == "time_zone"@ {
                    match spec_read_str(buf, p) {
                        Err(e) => Err(e),
                        Ok((v, q)) => sp_location_fields(
                            LocationSpec { time_zone: Some(v), ..m },
                            buf,
                            q,
                            n - 1,
                        ),
                    }
                } else if key == "metro_code"@ {
                    match spec_read_uint(buf, p) {
                        Err(e) => Err(e),
                        Ok((v, q)) => sp_location_fields(
                            LocationSpec { metro_code: Some(trunc16(v)), ..m },
                            buf,
                            q,
                            n - 1,
                        ),
                    }
                } else {
                    Err(ErrorSpec::UnknownField(key))
                }
            },
        }
    }
}

/// How a whole [`Location`] record is decoded at `off`: a MAP control
/// header (one pointer hop is allowed), then the key/value pairs.
pub open spec fn sp_location_decode(buf: Seq<u8>, off: int) -> Result<(LocationSpec, int), ErrorSpec> {
    match spec_control(buf, off) {
        Err(e) => Err(e),
        Ok((t, s, p)) => {
            if t == DATA_TYPE_MAP {
                Location::sp_decode_size(buf, p, s)
            } else if t == DATA_TYPE_POINTER {
                match spec_pointer(buf, p, s) {
                    Err(e) => Err(e),
                    Ok((target, after)) => {
                        match spec_control(buf, target) {
                            Err(e) => Err(e),
                            Ok((t2, s2, p2)) => {
                                if t2 == DATA_TYPE_MAP {
                                    match Location::sp_decode_size(buf, p2, s2) {
                                        Err(e) => Err(e),
                                        Ok((v, _)) => Ok((v, after)),
                                    }
                                } else {
                                    Err(ErrorSpec::InvalidDataType(t2))
                                }
                            },
                        }
                    },
                }
            } else {
                Err(ErrorSpec::InvalidDataType(t))
            }
        },
    }
}

fn location_fields(acc: Location, buf: &[u8], offset: &mut usize, n: usize) -> (r: Result<
    Location,
    Error,
>)
    ensures
        match r {
            Ok(v) => sp_location_fields(acc@, buf@, *old(offset) as int, n as int) == Ok::<
                _,
                ErrorSpec,
            >((v@, *final(offset) as int)),
            Err(e) => sp_location_fields(acc@, buf@, *old(offset) as int, n as int) == Err::<
                (LocationSpec, int),
                _,
            >(e@),
        },
    decreases n,
{
    if n == 0 {
        return Ok(acc);
    }
    let key = read_str(buf, offset)?;
    if str_eq(key.as_str(), "latitude") {
        let v = read_f64_bits(buf, offset)?;
        location_fields(Location { latitude: Some(v), ..acc }, buf, offset, n - 1)
    } else if str_eq(key.as_str(), "longitude") {
        let v = read_f64_bits(buf, offset)?;
        location_fields(Location { longitude: Some(v), ..acc }, buf, offset, n - 1)
    } else if str_eq(key.as_str(), "accuracy_radius") {
        let v = read_usize(buf, offset)?;
        location_fields(Location { accuracy_radius: Some(u16_of(v)), ..acc }, buf, offset, n - 1)
    } else if str_eq(key.as_str(), "time_zone") {
        let v = read_str(buf, offset)?;
        location_fields(Location { time_zone: Some(v), ..acc }, buf, offset, n - 1)
    } else if str_eq(key.as_str(), "metro_code") {
        let v = read_usize(buf, offset)?;
        location_fields(Location { metro_code: Some(u16_of(v)), ..acc }, buf, offset, n - 1)
    } else {
        Err(Error::UnknownField(key))
    }
}

impl Decoder for Location {
    open spec fn sp_decode_size(buf: Seq<u8>, off: int, n: int) -> Result<
        (LocationSpec, int),
        ErrorSpec,
    > {
        sp_location_fields(
            LocationSpec { latitude: None, longitude: None, accuracy_radius: None, time_zone: None, metro_code: None },
            buf,
            off,
            n,
        )
    }

    fn decode_with_size(buf: &[u8], offset: &mut usize, size: usize) -> (r: Result<Self, Error>) {
        location_fields(
            Location { latitude: None, longitude: None, accuracy_radius: None, time_zone: None, metro_code: None },
            buf,
            offset,
            size,
        )
    }
}

/// GeoIP2 Postal record.
#[derive(Debug, Clone)]
pub struct Postal {
    pub code: Option<String>,
}

/// Model of [`Postal`].
pub struct PostalSpec {
    pub code: Option<Seq<char>>,
}

impl View for Postal {
    type V = PostalSpec;

    open spec fn view(&self) -> PostalSpec {
        PostalSpec {
            code: view_opt_str(self.code),
        }
    }
}

/// Field decoding for [`Postal`]: `n` key/value pairs applied to `m` in
/// file order; an unknown key is fatal.
pub open spec fn sp_postal_fields(m: PostalSpec, buf: Seq<u8>, off: int, n: int) -> Result<
    (PostalSpec, int),
    ErrorSpec,
>
    decreases n,
{
    if n <= 0 {
        Ok((m, off))
    } else {
        match spec_read_str(buf, off) {
            Err(e) => Err(e),
            Ok((key, p)) => {
                if key == "code"@ {
                    match spec_read_str(buf, p) {
                        Err(e) => Err(e),
                        Ok((v, q)) => sp_postal_fields(
                            PostalSpec { code: Some(v), ..m },
                            buf,
                            q,
                            n - 1,
                        ),
                    }
                } else {
                    Err(ErrorSpec::UnknownField(key))
                }
            },
        }
    }
}

/// How a whole [`Postal`] record is decoded at `off`: a MAP control
/// header (one pointer hop is allowed), then the key/value pairs.
pub open spec fn sp_postal_decode(buf: Seq<u8>, off: int) -> Result<(PostalSpec, int), ErrorSpec> {
    match spec_control(buf, off) {
        Err(e) => Err(e),
        Ok((t, s, p)) => {
            if t == DATA_TYPE_MAP {
                Postal::sp_decode_size(buf, p, s)
            } else if t == DATA_TYPE_POINTER {
                match spec_pointer(buf, p, s) {
                    Err(e) => Err(e),
                    Ok((target, after)) => {
                        match spec_control(buf, target) {
                            Err(e) => Err(e),
                            Ok((t2, s2, p2)) => {
                                if t2 == DATA_TYPE_MAP {
                                    match Postal::sp_decode_size(buf, p2, s2) {
                                        Err(e) => Err(e),
                                        Ok((v, _)) => Ok((v, after)),
                                    }
                                } else {
                                    Err(ErrorSpec::InvalidDataType(t2))
                                }
                            },
                        }
                    },
                }
            } else {
                Err(ErrorSpec::InvalidDataType(t))
            }
        },
    }
}

fn postal_fields(acc: Postal, buf: &[u8], offset: &mut usize, n: usize) -> (r: Result<
    Postal,
    Error,
>)
    ensures
        match r {
            Ok(v) => sp_postal_fields(acc@, buf@, *old(offset) as int, n as int) == Ok::<
                _,
                ErrorSpec,
            >((v@, *final(offset) as int)),
            Err(e) => sp_postal_fields(acc@, buf@, *old(offset) as int, n as int) == Err::<
                (PostalSpec, int),
                _,
            >(e@),
        },
    decreases n,
{
    if n == 0 {
        return Ok(acc);
    }
    let key = read_str(buf, offset)?;
    if str_eq(key.as_str(), "code") {
        let v = read_str(buf, offset)?;
        postal_fields(Postal { code: Some(v), ..acc }, buf, offset, n - 1)
    } else {
        Err(Error::UnknownField(key))
    }
}

impl Decoder for Postal {
    open spec fn sp_decode_size(buf: Seq<u8>, off: int, n: int) -> Result<
        (PostalSpec, int),
        ErrorSpec,
    > {
        sp_postal_fields(
            PostalSpec { code: None },
            buf,
            off,
            n,
        )
    }

    fn decode_with_size(buf: &[u8], offset: &mut usize, size: usize) -> (r: Result<Self, Error>) {
        postal_fields(
            Postal { code: None },
            buf,
            offset,
            size,
        )
    }
}

/// GeoIP2 Subdivision record.
#[derive(Debug, Clone)]
pub struct Subdivision {
    pub geoname_id: Option<u32>,
    pub iso_code: Option<String>,
    pub names: Option<Vec<(String, String)>>,
}

/// Model of [`Subdivision`].
pub struct SubdivisionSpec {
    pub geoname_id: Option<u32>,
    pub iso_code: Option<Seq<char>>,
    pub names: Option<Seq<(Seq<char>, Seq<char>)>>,
}

impl View for Subdivision {
    type V = SubdivisionSpec;

    open spec fn view(&self) -> SubdivisionSpec {
        SubdivisionSpec {
            geoname_id: self.geoname_id,
            iso_code: view_opt_str(self.iso_code),
            names: view_opt_pairs(self.names),
        }
    }
}

/// Field decoding for [`Subdivision`]: `n` key/value pairs applied to `m` in
/// file order; an unknown key is fatal.
pub open spec fn sp_subdivision_fields(m: SubdivisionSpec, buf: Seq<u8>, off: int, n: int) -> Result<
    (SubdivisionSpec, int),
    ErrorSpec,
>
    decreases n,
{
    if n <= 0 {
        Ok((m, off))
    } else {
        match spec_read_str(buf, off) {
            Err(e) => Err(e),
            Ok((key, p)) => {
                if key == "geoname_id"@ {
                    match spec_read_uint(buf, p) {
                        Err(e) => Err(e),
                        Ok((v, q)) => sp_subdivision_fields(
                            SubdivisionSpec { geoname_id: Some(trunc32(v)), ..m },
                            buf,
                            q,
                            n - 1,
                        ),
                    }
                } else if key == "iso_code"@ {
                    match spec_read_str(buf, p) {
                        Err(e) => Err(e),
                        Ok((v, q)) => sp_subdivision_fields(
                            SubdivisionSpec { iso_code: Some(v), ..m },
                            buf,
                            q,
                            n - 1,
                        ),
                    }
                } else if key == "names"@ {
                    match spec_read_map(buf, p) {
                        Err(e) => Err(e),
                        Ok((v, q)) => sp_subdivision_fields(
                            SubdivisionSpec { names: Some(v), ..m },
                            buf,
                            q,
                            n - 1,
                        ),
                    }
                } else {
                    Err(ErrorSpec::UnknownField(key))
                }
            },
        }
    }
}

/// How a whole [`Subdivision`] record is decoded at `off`: a MAP control
/// header (one pointer hop is allowed), then the key/value pairs.
pub open spec fn sp_subdivision_decode(buf: Seq<u8>, off: int) -> Result<(SubdivisionSpec, int), ErrorSpec> {
    match spec_control(buf, off) {
        Err(e) => Err(e),
        Ok((t, s, p)) => {
            if t == DATA_TYPE_MAP {
                Subdivision::sp_decode_size(buf, p, s)
            } else if t == DATA_TYPE_POINTER {
                match spec_pointer(buf, p, s) {
                    Err(e) => Err(e),
                    Ok((target, after)) => {
                        match spec_control(buf, target) {
                            Err(e) => Err(e),
                            Ok((t2, s2, p2)) => {
                                if t2 == DATA_TYPE_MAP {
                                    match Subdivision::sp_decode_size(buf, p2, s2) {
                                        Err(e) => Err(e),
                                        Ok((v, _)) => Ok((v, after)),
                                    }
                                } else {
                                    Err(ErrorSpec::InvalidDataType(t2))
                                }
                            },
                        }
                    },
                }
            } else {
                Err(ErrorSpec::InvalidDataType(t))
            }
        },
    }
}

fn subdivision_fields(acc: Subdivision, buf: &[u8], offset: &mut usize, n: usize) -> (r: Result<
    Subdivision,
    Error,
>)
    ensures
        match r {
            Ok(v) => sp_subdivision_fields(acc@, buf@, *old(offset) as int, n as int) == Ok::<
                _,
                ErrorSpec,
            >((v@, *final(offset) as int)),
            Err(e) => sp_subdivision_fields(acc@, buf@, *old(offset) as int, n as int) == Err::<
                (SubdivisionSpec, int),
                _,
            >(e@),
        },
    decreases n,
{
    if n == 0 {
        return Ok(acc);
    }
    let key = read_str(buf, offset)?;
    if str_eq(key.as_str(), "geoname_id") {
        let v = read_usize(buf, offset)?;
        subdivision_fields(Subdivision { geoname_id: Some(u32_of(v)), ..acc }, buf, offset, n - 1)
    } else if str_eq(key.as_str(), "iso_code") {
        let v = read_str(buf, offset)?;
        subdivision_fields(Subdivision { iso_code: Some(v), ..acc }, buf, offset, n - 1)
    } else if str_eq(key.as_str(), "names") {
        let v = read_map(buf, offset)?;
        subdivision_fields(Subdivision { names: Some(v), ..acc }, buf, offset, n - 1)
    } else {
        Err(Error::UnknownField(key))
    }
}

impl Decoder for Subdivision {
    open spec fn sp_decode_size(buf: Seq<u8>, off: int, n: int) -> Result<
        (SubdivisionSpec, int),
        ErrorSpec,
    > {
        sp_subdivision_fields(
            SubdivisionSpec { geoname_id: None, iso_code: None, names: None },
            buf,
            off,
            n,
        )
    }

    fn decode_with_size(buf: &[u8], offset: &mut usize, size: usize) -> (r: Result<Self, Error>) {
        subdivision_fields(
            Subdivision { geoname_id: None, iso_code: None, names: None },
            buf,
            offset,
            size,
        )
    }
}

/// `n` [`Subdivision`] elements read one after another starting at `off`.
pub open spec fn sp_subdivision_elems(buf: Seq<u8>, off: int, n: int) -> Result<
    (Seq<SubdivisionSpec>, int),
    ErrorSpec,
>
    decreases n,
{
    if n <= 0 {
        Ok((Seq::empty(), off))
    } else {
        match sp_subdivision_decode(buf, off) {
            Err(e) => Err(e),
            Ok((first, p)) => {
                match sp_subdivision_elems(buf, p, n - 1) {
                    Err(e) => Err(e),
                    Ok((rest, q)) => Ok((seq![first].add(rest), q)),
                }
            },
        }
    }
}

/// Result of reading an array of [`Subdivision`] records at `off`. One
/// pointer hop to the array itself is allowed.
pub open spec fn sp_read_subdivision_array(buf: Seq<u8>, off: int) -> Result<
    (Seq<SubdivisionSpec>, int),
    ErrorSpec,
> {
    match spec_control(buf, off) {
        Err(e) => Err(e),
        Ok((t, s, p)) => {
            if t == DATA_TYPE_SLICE {
                sp_subdivision_elems(buf, p, s)
            } else if t == DATA_TYPE_POINTER {
                match spec_pointer(buf, p, s) {
                    Err(e) => Err(e),
                    Ok((target, after)) => {
                        match spec_control(buf, target) {
                            Err(e) => Err(e),
                            Ok((t2, s2, p2)) => {
                                if t2 == DATA_TYPE_SLICE {
                                    match sp_subdivision_elems(buf, p2, s2) {
                                        Err(e) => Err(e),
                                        Ok((elems, _)) => Ok((elems, after)),
                                    }
                                } else {
                                    Err(ErrorSpec::InvalidDataType(t2))
                                }
                            },
                        }
                    },
                }
            } else {
                Err(ErrorSpec::InvalidDataType(t))
            }
        },
    }
}

/// Read `n` consecutive [`Subdivision`] elements at the cursor.
#[verifier::spinoff_prover]
#[verifier::rlimit(100)]
fn subdivision_elems(buf: &[u8], offset: &mut usize, n: usize) -> (r: Result<Vec<Subdivision>, Error>)
    ensures
        match r {
            Ok(v) => sp_subdivision_elems(buf@, *old(offset) as int, n as int) == Ok::<_, ErrorSpec>(
                (views_of_recs(v@), *final(offset) as int),
            ),
            Err(e) => sp_subdivision_elems(buf@, *old(offset) as int, n as int) == Err::<
                (Seq<SubdivisionSpec>, int),
                _,
            >(e@),
        },
    decreases n,
{
    if n == 0 {
        proof {
            assert(views_of_recs(Seq::<Subdivision>::empty()) =~= Seq::<SubdivisionSpec>::empty());
        }
        return Ok(Vec::new());
    }
    let ghost p0 = *offset as int;
    let item = match Subdivision::decode(buf, offset) {
        Ok(v) => v,
        Err(e) => {
            proof {
                assert(sp_subdivision_decode(buf@, p0) == Err::<(SubdivisionSpec, int), ErrorSpec>(e@));
            }
            return Err(e);
        },
    };
    let ghost p1 = *offset as int;
    proof {
        assert(sp_subdivision_decode(buf@, p0) == Ok::<_, ErrorSpec>((item@, p1)));
    }
    let mut rest = subdivision_elems(buf, offset, n - 1)?;
    proof {
        assert(views_of_recs(rest@.insert(0, item)) =~= seq![item@].add(
            views_of_recs(rest@),
        ));
    }
    rest.insert(0, item);
    Ok(rest)
}

/// Read an array of [`Subdivision`] records at the cursor. One pointer hop
/// to the array itself is allowed.
pub fn read_subdivision_array(buf: &[u8], offset: &mut usize) -> (r: Result<Vec<Subdivision>, Error>)
    ensures
        match r {
            Ok(v) => sp_read_subdivision_array(buf@, *old(offset) as int) == Ok::<_, ErrorSpec>(
                (views_of_recs(v@), *final(offset) as int),
            ),
            Err(e) => sp_read_subdivision_array(buf@, *old(offset) as int) == Err::<
                (Seq<SubdivisionSpec>, int),
                _,
            >(e@),
        },
{
    let (data_type, size) = read_control(buf, offset)?;
    if data_type == DATA_TYPE_SLICE {
        subdivision_elems(buf, offset, size)
    } else if data_type == DATA_TYPE_POINTER {
        let mut inner = read_pointer(buf, offset, size)?;
        let (t2, s2) = read_control(buf, &mut inner)?;
        if t2 == DATA_TYPE_SLICE {
            let v = subdivision_elems(buf, &mut inner, s2)?;
            Ok(v)
        } else {
            Err(Error::InvalidDataType(t2))
        }
    } else {
        Err(Error::InvalidDataType(data_type))
    }
}

/// GeoIP2 Enterprise Country record.
#[derive(Debug, Clone)]
pub struct EnterpriseCountry {
    pub confidence: Option<u16>,
    pub geoname_id: Option<u32>,
    pub iso_code: Option<String>,
    pub names: Option<Vec<(String, String)>>,
    pub is_in_european_union: Option<bool>,
}

/// Model of [`EnterpriseCountry`].
pub struct EnterpriseCountrySpec {
    pub confidence: Option<u16>,
    pub geoname_id: Option<u32>,
    pub iso_code: Option<Seq<char>>,
    pub names: Option<Seq<(Seq<char>, Seq<char>)>>,
    pub is_in_european_union: Option<bool>,
}

impl View for EnterpriseCountry {
    type V = EnterpriseCountrySpec;

    open spec fn view(&self) -> EnterpriseCountrySpec {
        EnterpriseCountrySpec {
            confidence: self.confidence,
            geoname_id: self.geoname_id,
            iso_code: view_opt_str(self.iso_code),
            names: view_opt_pairs(self.names),
            is_in_european_union: self.is_in_european_union,
        }
    }
}

/// Field decoding for [`EnterpriseCountry`]: `n` key/value pairs applied to `m` in
/// file order; an unknown key is fatal.
pub open spec fn sp_enterprise_country_fields(m: EnterpriseCountrySpec, buf: Seq<u8>, off: int, n: int) -> Result<
    (EnterpriseCountrySpec, int),
    ErrorSpec,
>
    decreases n,
{
    if n <= 0 {
        Ok((m, off))
    } else {
        match spec_read_str(buf, off) {
            Err(e) => Err(e),
            Ok((key, p)) => {
                if key == "confidence"@ {
                    match spec_read_uint(buf, p) {
                        Err(e) => Err(e),
                        Ok((v, q)) => sp_enterprise_country_fields(
                            EnterpriseCountrySpec { confidence: Some(trunc16(v)), ..m },
                            buf,
                            q,
                            n - 1,
                        ),
                    }
                } else if key == "geoname_id"@ {
                    match spec_read_uint(buf, p) {
                        Err(e) => Err(e),
                        Ok((v, q)) => sp_enterprise_country_fields(
                            EnterpriseCountrySpec { geoname_id: Some(trunc32(v)), ..m },
                            buf,
                            q,
                            n - 1,
                        ),
                    }
                } else if key == "iso_code"@ {
                    match spec_read_str(buf, p) {
                        Err(e) => Err(e),
                        Ok((v, q)) => sp_enterprise_country_fields(
                            EnterpriseCountrySpec { iso_code: Some(v), ..m },
                            buf,
                            q,
                            n - 1,
                        ),
                    }
                } else if key == "names"@ {
                    match spec_read_map(buf, p) {
                        Err(e) => Err(e),
                        Ok((v, q)) => sp_enterprise_country_fields(
                            EnterpriseCountrySpec { names: Some(v), ..m },
                            buf,
                            q,
                            n - 1,
                        ),
                    }
                } else if key == "is_in_european_union"@ {
                    match spec_read_bool(buf, p) {
                        Err(e) => Err(e),
                        Ok((v, q)) => sp_enterprise_country_fields(
                            EnterpriseCountrySpec { is_in_european_union: Some(v), ..m },
                            buf,
                            q,
                            n - 1,
                        ),
                    }
                } else {
                    Err(ErrorSpec::UnknownField(key))
                }
            },
        }
    }
}

/// How a whole [`EnterpriseCountry`] record is decoded at `off`: a MAP control
/// header (one pointer hop is allowed), then the key/value pairs.
pub open spec fn sp_enterprise_country_decode(buf: Seq<u8>, off: int) -> Result<(EnterpriseCountrySpec, int), ErrorSpec> {
    match spec_control(buf, off) {
        Err(e) => Err(e),
        Ok((t, s, p)) => {
            if t == DATA_TYPE_MAP {
                EnterpriseCountry::sp_decode_size(buf, p, s)
            } else if t == DATA_TYPE_POINTER {
                match spec_pointer(buf, p, s) {
                    Err(e) => Err(e),
                    Ok((target, after)) => {
                        match spec_control(buf, target) {
                            Err(e) => Err(e),
                            Ok((t2, s2, p2)) => {
                                if t2 == DATA_TYPE_MAP {
                                    match EnterpriseCountry::sp_decode_size(buf, p2, s2) {
                                        Err(e) => Err(e),
                                        Ok((v, _)) => Ok((v, after)),
                                    }
                                } else {
                                    Err(ErrorSpec::InvalidDataType(t2))
                                }
                            },
                        }
                    },
                }
            } else {
                Err(ErrorSpec::InvalidDataType(t))
            }
        },
    }
}

fn enterprise_country_fields(acc: EnterpriseCountry, buf: &[u8], offset: &mut usize, n: usize) -> (r: Result<
    EnterpriseCountry,
    Error,
>)
    ensures
        match r {
            Ok(v) => sp_enterprise_country_fields(acc@, buf@, *old(offset) as int, n as int) == Ok::<
                _,
                ErrorSpec,
            >((v@, *final(offset) as int)),
            Err(e) => sp_enterprise_country_fields(acc@, buf@, *old(offset) as int, n as int) == Err::<
                (EnterpriseCountrySpec, int),
                _,
            >(e@),
        },
    decreases n,
{
    if n == 0 {
        return Ok(acc);
    }
    let key = read_str(buf, offset)?;
    if str_eq(key.as_str(), "confidence") {
        let v = read_usize(buf, offset)?;
        enterprise_country_fields(EnterpriseCountry { confidence: Some(u16_of(v)), ..acc }, buf, offset, n - 1)
    } else if str_eq(key.as_str(), "geoname_id") {
        let v = read_usize(buf, offset)?;
        enterprise_country_fields(EnterpriseCountry { geoname_id: Some(u32_of(v)), ..acc }, buf, offset, n - 1)
    } else if str_eq(key.as_str(), "iso_code") {
        let v = read_str(buf, offset)?;
        enterprise_country_fields(EnterpriseCountry { iso_code: Some(v), ..acc }, buf, offset, n - 1)
    } else if str_eq(key.as_str(), "names") {
        let v = read_map(buf, offset)?;
        enterprise_country_fields(EnterpriseCountry { names: Some(v), ..acc }, buf, offset, n - 1)
    } else if str_eq(key.as_str(), "is_in_european_union") {
        let v = read_bool(buf, offset)?;
        enterprise_country_fields(EnterpriseCountry { is_in_european_union: Some(v), ..acc }, buf, offset, n - 1)
    } else {
        Err(Error::UnknownField(key))
    }
}

impl Decoder for EnterpriseCountry {
    open spec fn sp_decode_size(buf: Seq<u8>, off: int, n: int) -> Result<
        (EnterpriseCountrySpec, int),
        ErrorSpec,
    > {
        sp_enterprise_country_fields(
            EnterpriseCountrySpec { confidence: None, geoname_id: None, iso_code: None, names: None, is_in_european_union: None },
            buf,
            off,
            n,
        )
    }

    fn decode_with_size(buf: &[u8], offset: &mut usize, size: usize) -> (r: Result<Self, Error>) {
        enterprise_country_fields(
            EnterpriseCountry { confidence: None, geoname_id: None, iso_code: None, names: None, is_in_european_union: None },
            buf,
            offset,
            size,
        )
    }
}

/// GeoIP2 Enterprise RepresentedCountry record.
#[derive(Debug, Clone)]
pub struct EnterpriseRepresentedCountry {
    pub confidence: Option<u16>,
    pub geoname_id: Option<u32>,
    pub iso_code: Option<String>,
    pub names: Option<Vec<(String, String)>>,
    pub is_in_european_union: Option<bool>,
    pub country_type: Option<String>,
}

/// Model of [`EnterpriseRepresentedCountry`].
pub struct EnterpriseRepresentedCountrySpec {
    pub confidence: Option<u16>,
    pub geoname_id: Option<u32>,
    pub iso_code: Option<Seq<char>>,
    pub names: Option<Seq<(Seq<char>, Seq<char>)>>,
    pub is_in_european_union: Option<bool>,
    pub country_type: Option<Seq<char>>,
}

impl View for EnterpriseRepresentedCountry {
    type V = EnterpriseRepresentedCountrySpec;

    open spec fn view(&self) -> EnterpriseRepresentedCountrySpec {
        EnterpriseRepresentedCountrySpec {
            confidence: self.confidence,
            geoname_id: self.geoname_id,
            iso_code: view_opt_str(self.iso_code),
            names: view_opt_pairs(self.names),
            is_in_european_union: self.is_in_european_union,
            country_type: view_opt_str(self.country_type),
        }
    }
}

/// Field decoding for [`EnterpriseRepresentedCountry`]: `n` key/value pairs applied to `m` in
/// file order; an unknown key is fatal.
pub open spec fn sp_enterprise_represented_country_fields(m: EnterpriseRepresentedCountrySpec, buf: Seq<u8>, off: int, n: int) -> Result<
    (EnterpriseRepresentedCountrySpec, int),
    ErrorSpec,
>
    decreases n,
{
    if n <= 0 {
        Ok((m, off))
    } else {
        match spec_read_str(buf, off) {
            Err(e) => Err(e),
            Ok((key, p)) => {
                if key == "confidence"@ {
                    match spec_read_uint(buf, p) {
                        Err(e) => Err(e),
                        Ok((v, q)) => sp_enterprise_represented_country_fields(
                            EnterpriseRepresentedCountrySpec { confidence: Some(trunc16(v)), ..m },
                            buf,
                            q,
                            n - 1,
                        ),
                    }
                } else if key == "geoname_id"@ {
                    match spec_read_uint(buf, p) {
                        Err(e) => Err(e),
                        Ok((v, q)) => sp_enterprise_represented_country_fields(
                            EnterpriseRepresentedCountrySpec { geoname_id: Some(trunc32(v)), ..m },
                            buf,
                            q,
                            n - 1,
                        ),
                    }
                } else if key == "iso_code"@ {
                    match spec_read_str(buf, p) {
                        Err(e) => Err(e),
                        Ok((v, q)) => sp_enterprise_represented_country_fields(
                            EnterpriseRepresentedCountrySpec { iso_code: Some(v), ..m },
                            buf,
                            q,
                            n - 1,
                        ),
                    }
                } else if key == "names"@ {
                    match spec_read_map(buf, p) {
                        Err(e) => Err(e),
                        Ok((v, q)) => sp_enterprise_represented_country_fields(
                            EnterpriseRepresentedCountrySpec { names: Some(v), ..m },
                            buf,
                            q,
                            n - 1,
                        ),
                    }
                } else if key == "is_in_european_union"@ {
                    match spec_read_bool(buf, p) {
                        Err(e) => Err(e),
                        Ok((v, q)) => sp_enterprise_represented_country_fields(
                            EnterpriseRepresentedCountrySpec { is_in_european_union: Some(v), ..m },
                            buf,
                            q,
                            n - 1,
                        ),
                    }
                } else if key == "country_type"@ {
                    match spec_read_str(buf, p) {
                        Err(e) => Err(e),
                        Ok((v, q)) => sp_enterprise_represented_country_fields(
                            EnterpriseRepresentedCountrySpec { country_type: Some(v), ..m },
                            buf,
                            q,
                            n - 1,
                        ),
                    }
                } else {
                    Err(ErrorSpec::UnknownField(key))
                }
            },
        }
    }
}

/// How a whole [`EnterpriseRepresentedCountry`] record is decoded at `off`: a MAP control
/// header (one pointer hop is allowed), then the key/value pairs.
pub open spec fn sp_enterprise_represented_country_decode(buf: Seq<u8>, off: int) -> Result<(EnterpriseRepresentedCountrySpec, int), ErrorSpec> {
    match spec_control(buf, off) {
        Err(e) => Err(e),
        Ok((t, s, p)) => {
            if t == DATA_TYPE_MAP {
                EnterpriseRepresentedCountry::sp_decode_size(buf, p, s)
            } else if t == DATA_TYPE_POINTER {
                match spec_pointer(buf, p, s) {
                    Err(e) => Err(e),
                    Ok((target, after)) => {
                        match spec_control(buf, target) {
                            Err(e) => Err(e),
                            Ok((t2, s2, p2)) => {
                                if t2 == DATA_TYPE_MAP {
                                    match EnterpriseRepresentedCountry::sp_decode_size(buf, p2, s2) {
                                        Err(e) => Err(e),
                                        Ok((v, _)) => Ok((v, after)),
                                    }
                                } else {
                                    Err(ErrorSpec::InvalidDataType(t2))
                                }
                            },
                        }
                    },
                }
            } else {
                Err(ErrorSpec::InvalidDataType(t))
            }
        },
    }
}

fn enterprise_represented_country_fields(acc: EnterpriseRepresentedCountry, buf: &[u8], offset: &mut usize, n: usize) -> (r: Result<
    EnterpriseRepresentedCountry,
    Error,
>)
    ensures
        match r {
            Ok(v) => sp_enterprise_represented_country_fields(acc@, buf@, *old(offset) as int, n as int) == Ok::<
                _,
                ErrorSpec,
            >((v@, *final(offset) as int)),
            Err(e) => sp_enterprise_represented_country_fields(acc@, buf@, *old(offset) as int, n as int) == Err::<
                (EnterpriseRepresentedCountrySpec, int),
                _,
            >(e@),
        },
    decreases n,
{
    if n == 0 {
        return Ok(acc);
    }
    let key = read_str(buf, offset)?;
    if str_eq(key.as_str(), "confidence") {
        let v = read_usize(buf, offset)?;
        enterprise_represented_country_fields(EnterpriseRepresentedCountry { confidence: Some(u16_of(v)), ..acc }, buf, offset, n - 1)
    } else if str_eq(key.as_str(), "geoname_id") {
        let v = read_usize(buf, offset)?;
        enterprise_represented_country_fields(EnterpriseRepresentedCountry { geoname_id: Some(u32_of(v)), ..acc }, buf, offset, n - 1)
    } else if str_eq(key.as_str(), "iso_code") {
        let v = read_str(buf, offset)?;
        enterprise_represented_country_fields(EnterpriseRepresentedCountry { iso_code: Some(v), ..acc }, buf, offset, n - 1)
    } else if str_eq(key.as_str(), "names") {
        let v = read_map(buf, offset)?;
        enterprise_represented_country_fields(EnterpriseRepresentedCountry { names: Some(v), ..acc }, buf, offset, n - 1)
    } else if str_eq(key.as_str(), "is_in_european_union") {
        let v = read_bool(buf, offset)?;
        enterprise_represented_country_fields(EnterpriseRepresentedCountry { is_in_european_union: Some(v), ..acc }, buf, offset, n - 1)
    } else if str_eq(key.as_str(), "country_type") {
        let v = read_str(buf, offset)?;
        enterprise_represented_country_fields(EnterpriseRepresentedCountry { country_type: Some(v), ..acc }, buf, offset, n - 1)
    } else {
        Err(Error::UnknownField(key))
    }
}

impl Decoder for EnterpriseRepresentedCountry {
    open spec fn sp_decode_size(buf: Seq<u8>, off: int, n: int) -> Result<
        (EnterpriseRepresentedCountrySpec, int),
        ErrorSpec,
    > {
        sp_enterprise_represented_country_fields(
            EnterpriseRepresentedCountrySpec { confidence: None, geoname_id: None, iso_code: None, names: None, is_in_european_union: None, country_type: None },
            buf,
            off,
            n,
        )
    }

    fn decode_with_size(buf: &[u8], offset: &mut usize, size: usize) -> (r: Result<Self, Error>) {
        enterprise_represented_country_fields(
            EnterpriseRepresentedCountry { confidence: None, geoname_id: None, iso_code: None, names: None, is_in_european_union: None, country_type: None },
            buf,
            offset,
            size,
        )
    }
}

/// GeoIP2 Enterprise City record.
#[derive(Debug, Clone)]
pub struct EnterpriseCity {
    pub confidence: Option<u16>,
    pub geoname_id: Option<u32>,
    pub names: Option<Vec<(String, String)>>,
}

/// Model of [`EnterpriseCity`].
pub struct EnterpriseCitySpec {
    pub confidence: Option<u16>,
    pub geoname_id: Option<u32>,
    pub names: Option<Seq<(Seq<char>, Seq<char>)>>,
}

impl View for EnterpriseCity {
    type V = EnterpriseCitySpec;

    open spec fn view(&self) -> EnterpriseCitySpec {
        EnterpriseCitySpec {
            confidence: self.confidence,
            geoname_id: self.geoname_id,
            names: view_opt_pairs(self.names),
        }
    }
}

/// Field decoding for [`EnterpriseCity`]: `n` key/value pairs applied to `m` in
/// file order; an unknown key is fatal.
pub open spec fn sp_enterprise_city_fields(m: EnterpriseCitySpec, buf: Seq<u8>, off: int, n: int) -> Result<
    (EnterpriseCitySpec, int),
    ErrorSpec,
>
    decreases n,
{
    if n <= 0 {
        Ok((m, off))
    } else {
        match spec_read_str(buf, off) {
            Err(e) => Err(e),
            Ok((key, p)) => {
                if key == "confidence"@ {
                    match spec_read_uint(buf, p) {
                        Err(e) => Err(e),
                        Ok((v, q)) => sp_enterprise_city_fields(
                            EnterpriseCitySpec { confidence: Some(trunc16(v)), ..m },
                            buf,
                            q,
                            n - 1,
                        ),
                    }
                } else if key == "geoname_id"@ {
                    match spec_read_uint(buf, p) {
                        Err(e) => Err(e),
                        Ok((v, q)) => sp_enterprise_city_fields(
                            EnterpriseCitySpec { geoname_id: Some(trunc32(v)), ..m },
                            buf,
                            q,
                            n - 1,
                        ),
                    }
                } else if key == "names"@ {
                    match spec_read_map(buf, p) {
                        Err(e) => Err(e),
                        Ok((v, q)) => sp_enterprise_city_fields(
                            EnterpriseCitySpec { names: Some(v), ..m },
                            buf,
                            q,
                            n - 1,
                        ),
                    }
                } else {
                    Err(ErrorSpec::UnknownField(key))
                }
            },
        }
    }
}

/// How a whole [`EnterpriseCity`] record is decoded at `off`: a MAP control
/// header (one pointer hop is allowed), then the key/value pairs.
pub open spec fn sp_enterprise_city_decode(buf: Seq<u8>, off: int) -> Result<(EnterpriseCitySpec, int), ErrorSpec> {
    match spec_control(buf, off) {
        Err(e) => Err(e),
        Ok((t, s, p)) => {
            if t == DATA_TYPE_MAP {
                EnterpriseCity::sp_decode_size(buf, p, s)
            } else if t == DATA_TYPE_POINTER {
                match spec_pointer(buf, p, s) {
                    Err(e) => Err(e),
                    Ok((target, after)) => {
                        match spec_control(buf, target) {
                            Err(e) => Err(e),
                            Ok((t2, s2, p2)) => {
                                if t2 == DATA_TYPE_MAP {
                                    match EnterpriseCity::sp_decode_size(buf, p2, s2) {
                                        Err(e) => Err(e),
                                        Ok((v, _)) => Ok((v, after)),
                                    }
                                } else {
                                    Err(ErrorSpec::InvalidDataType(t2))
                                }
                            },
                        }
                    },
                }
            } else {
                Err(ErrorSpec::InvalidDataType(t))
            }
        },
    }
}

fn enterprise_city_fields(acc: EnterpriseCity, buf: &[u8], offset: &mut usize, n: usize) -> (r: Result<
    EnterpriseCity,
    Error,
>)
    ensures
        match r {
            Ok(v) => sp_enterprise_city_fields(acc@, buf@, *old(offset) as int, n as int) == Ok::<
                _,
                ErrorSpec,
            >((v@, *final(offset) as int)),
            Err(e) => sp_enterprise_city_fields(acc@, buf@, *old(offset) as int, n as int) == Err::<
                (EnterpriseCitySpec, int),
                _,
            >(e@),
        },
    decreases n,
{
    if n == 0 {
        return Ok(acc);
    }
    let key = read_str(buf, offset)?;
    if str_eq(key.as_str(), "confidence") {
        let v = read_usize(buf, offset)?;
        enterprise_city_fields(EnterpriseCity { confidence: Some(u16_of(v)), ..acc }, buf, offset, n - 1)
    } else if str_eq(key.as_str(), "geoname_id") {
        let v = read_usize(buf, offset)?;
        enterprise_city_fields(EnterpriseCity { geoname_id: Some(u32_of(v)), ..acc }, buf, offset, n - 1)
    } else if str_eq(key.as_str(), "names") {
        let v = read_map(buf, offset)?;
        enterprise_city_fields(EnterpriseCity { names: Some(v), ..acc }, buf, offset, n - 1)
    } else {
        Err(Error::UnknownField(key))
    }
}

impl Decoder for EnterpriseCity {
    open spec fn sp_decode_size(buf: Seq<u8>, off: int, n: int) -> Result<
        (EnterpriseCitySpec, int),
        ErrorSpec,
    > {
        sp_enterprise_city_fields(
            EnterpriseCitySpec { confidence: None, geoname_id: None, names: None },
            buf,
            off,
            n,
        )
    }

    fn decode_with_size(buf: &[u8], offset: &mut usize, size: usize) -> (r: Result<Self, Error>) {
        enterprise_city_fields(
            EnterpriseCity { confidence: None, geoname_id: None, names: None },
            buf,
            offset,
            size,
        )
    }
}

/// GeoIP2 Enterprise Postal record.
#[derive(Debug, Clone)]
pub struct EnterprisePostal {
    pub confidence: Option<u16>,
    pub code: Option<String>,
}

/// Model of [`EnterprisePostal`].
pub struct EnterprisePostalSpec {
    pub confidence: Option<u16>,
    pub code: Option<Seq<char>>,
}

impl View for EnterprisePostal {
    type V = EnterprisePostalSpec;

    open spec fn view(&self) -> EnterprisePostalSpec {
        EnterprisePostalSpec {
            confidence: self.confidence,
            code: view_opt_str(self.code),
        }
    }
}

/// Field decoding for [`EnterprisePostal`]: `n` key/value pairs applied to `m` in
/// file order; an unknown key is fatal.
pub open spec fn sp_enterprise_postal_fields(m: EnterprisePostalSpec, buf: Seq<u8>, off: int, n: int) -> Result<
    (EnterprisePostalSpec, int),
    ErrorSpec,
>
    decreases n,
{
    if n <= 0 {
        Ok((m, off))
    } else {
        match spec_read_str(buf, off) {
            Err(e) => Err(e),
            Ok((key, p)) => {
                if key == "confidence"@ {
                    match spec_read_uint(buf, p) {
                        Err(e) => Err(e),
                        Ok((v, q)) => sp_enterprise_postal_fields(
                            EnterprisePostalSpec { confidence: Some(trunc16(v)), ..m },
                            buf,
                            q,
                            n - 1,
                        ),
                    }
                } else if key == "code"@ {
                    match spec_read_str(buf, p) {
                        Err(e) => Err(e),
                        Ok((v, q)) => sp_enterprise_postal_fields(
                            EnterprisePostalSpec { code: Some(v), ..m },
                            buf,
                            q,
                            n - 1,
                        ),
                    }
                } else {
                    Err(ErrorSpec::UnknownField(key))
                }
            },
        }
    }
}

/// How a whole [`EnterprisePostal`] record is decoded at `off`: a MAP control
/// header (one pointer hop is allowed), then the key/value pairs.
pub open spec fn sp_enterprise_postal_decode(buf: Seq<u8>, off: int) -> Result<(EnterprisePostalSpec, int), ErrorSpec> {
    match spec_control(buf, off) {
        Err(e) => Err(e),
        Ok((t, s, p)) => {
            if t == DATA_TYPE_MAP {
                EnterprisePostal::sp_decode_size(buf, p, s)
            } else if t == DATA_TYPE_POINTER {
                match spec_pointer(buf, p, s) {
                    Err(e) => Err(e),
                    Ok((target, after)) => {
                        match spec_control(buf, target) {
                            Err(e) => Err(e),
                            Ok((t2, s2, p2)) => {
                                if t2 == DATA_TYPE_MAP {
                                    match EnterprisePostal::sp_decode_size(buf, p2, s2) {
                                        Err(e) => Err(e),
                                        Ok((v, _)) => Ok((v, after)),
                                    }
                                } else {
                                    Err(ErrorSpec::InvalidDataType(t2))
                                }
                            },
                        }
                    },
                }
            } else {
                Err(ErrorSpec::InvalidDataType(t))
            }
        },
    }
}

fn enterprise_postal_fields(acc: EnterprisePostal, buf: &[u8], offset: &mut usize, n: usize) -> (r: Result<
    EnterprisePostal,
    Error,
>)
    ensures
        match r {
            Ok(v) => sp_enterprise_postal_fields(acc@, buf@, *old(offset) as int, n as int) == Ok::<
                _,
                ErrorSpec,
            >((v@, *final(offset) as int)),
            Err(e) => sp_enterprise_postal_fields(acc@, buf@, *old(offset) as int, n as int) == Err::<
                (EnterprisePostalSpec, int),
                _,
            >(e@),
        },
    decreases n,
{
    if n == 0 {
        return Ok(acc);
    }
    let key = read_str(buf, offset)?;
    if str_eq(key.as_str(), "confidence") {
        let v = read_usize(buf, offset)?;
        enterprise_postal_fields(EnterprisePostal { confidence: Some(u16_of(v)), ..acc }, buf, offset, n - 1)
    } else if str_eq(key.as_str(), "code") {
        let v = read_str(buf, offset)?;
        enterprise_postal_fields(EnterprisePostal { code: Some(v), ..acc }, buf, offset, n - 1)
    } else {
        Err(Error::UnknownField(key))
    }
}

impl Decoder for EnterprisePostal {
    open spec fn sp_decode_size(buf: Seq<u8>, off: int, n: int) -> Result<
        (EnterprisePostalSpec, int),
        ErrorSpec,
    > {
        sp_enterprise_postal_fields(
            EnterprisePostalSpec { confidence: None, code: None },
            buf,
            off,
            n,
        )
    }

    fn decode_with_size(buf: &[u8], offset: &mut usize, size: usize) -> (r: Result<Self, Error>) {
        enterprise_postal_fields(
            EnterprisePostal { confidence: None, code: None },
            buf,
            offset,
            size,
        )
    }
}

/// GeoIP2 Enterprise Subdivision record.
#[derive(Debug, Clone)]
pub struct EnterpriseSubdivision {
    pub confidence: Option<u16>,
    pub geoname_id: Option<u32>,
    pub iso_code: Option<String>,
    pub names: Option<Vec<(String, String)>>,
}

/// Model of [`EnterpriseSubdivision`].
pub struct EnterpriseSubdivisionSpec {
    pub confidence: Option<u16>,
    pub geoname_id: Option<u32>,
    pub iso_code: Option<Seq<char>>,
    pub names: Option<Seq<(Seq<char>, Seq<char>)>>,
}

impl View for EnterpriseSubdivision {
    type V = EnterpriseSubdivisionSpec;

    open spec fn view(&self) -> EnterpriseSubdivisionSpec {
        EnterpriseSubdivisionSpec {
            confidence: self.confidence,
            geoname_id: self.geoname_id,
            iso_code: view_opt_str(self.iso_code),
            names: view_opt_pairs(self.names),
        }
    }
}

/// Field decoding for [`EnterpriseSubdivision`]: `n` key/value pairs applied to `m` in
/// file order; an unknown key is fatal.
pub open spec fn sp_enterprise_subdivision_fields(m: EnterpriseSubdivisionSpec, buf: Seq<u8>, off: int, n: int) -> Result<
    (EnterpriseSubdivisionSpec, int),
    ErrorSpec,
>
    decreases n,
{
    if n <= 0 {
        Ok((m, off))
    } else {
        match spec_read_str(buf, off) {
            Err(e) => Err(e),
            Ok((key, p)) => {
                if key == "confidence"@ {
                    match spec_read_uint(buf, p) {
                        Err(e) => Err(e),
                        Ok((v, q)) => sp_enterprise_subdivision_fields(
                            EnterpriseSubdivisionSpec { confidence: Some(trunc16(v)), ..m },
                            buf,
                            q,
                            n - 1,
                        ),
                    }
                } else if key == "geoname_id"@ {
                    match spec_read_uint(buf, p) {
                        Err(e) => Err(e),
                        Ok((v, q)) => sp_enterprise_subdivision_fields(
                            EnterpriseSubdivisionSpec { geoname_id: Some(trunc32(v)), ..m },
                            buf,
                            q,
                            n - 1,
                        ),
                    }
                } else if key == "iso_code"@ {
                    match spec_read_str(buf, p) {
                        Err(e) => Err(e),
                        Ok((v, q)) => sp_enterprise_subdivision_fields(
                            EnterpriseSubdivisionSpec { iso_code: Some(v), ..m },
                            buf,
                            q,
                            n - 1,
                        ),
                    }
                } else if key == "names"@ {
                    match spec_read_map(buf, p) {
                        Err(e) => Err(e),
                        Ok((v, q)) => sp_enterprise_subdivision_fields(
                            EnterpriseSubdivisionSpec { names: Some(v), ..m },
                            buf,
                            q,
                            n - 1,
                        ),
                    }
                } else {
                    Err(ErrorSpec::UnknownField(key))
                }
            },
        }
    }
}

/// How a whole [`EnterpriseSubdivision`] record is decoded at `off`: a MAP control
/// header (one pointer hop is allowed), then the key/value pairs.
pub open spec fn sp_enterprise_subdivision_decode(buf: Seq<u8>, off: int) -> Result<(EnterpriseSubdivisionSpec, int), ErrorSpec> {
    match spec_control(buf, off) {
        Err(e) => Err(e),
        Ok((t, s, p)) => {
            if t == DATA_TYPE_MAP {
                EnterpriseSubdivision::sp_decode_size(buf, p, s)
            } else if t == DATA_TYPE_POINTER {
                match spec_pointer(buf, p, s) {
                    Err(e) => Err(e),
                    Ok((target, after)) => {
                        match spec_control(buf, target) {
                            Err(e) => Err(e),
                            Ok((t2, s2, p2)) => {
                                if t2 == DATA_TYPE_MAP {
                                    match EnterpriseSubdivision::sp_decode_size(buf, p2, s2) {
                                        Err(e) => Err(e),
                                        Ok((v, _)) => Ok((v, after)),
                                    }
                                } else {
                                    Err(ErrorSpec::InvalidDataType(t2))
                                }
                            },
                        }
                    },
                }
            } else {
                Err(ErrorSpec::InvalidDataType(t))
            }
        },
    }
}

fn enterprise_subdivision_fields(acc: EnterpriseSubdivision, buf: &[u8], offset: &mut usize, n: usize) -> (r: Result<
    EnterpriseSubdivision,
    Error,
>)
    ensures
        match r {
            Ok(v) => sp_enterprise_subdivision_fields(acc@, buf@, *old(offset) as int, n as int) == Ok::<
                _,
                ErrorSpec,
            >((v@, *final(offset) as int)),
            Err(e) => sp_enterprise_subdivision_fields(acc@, buf@, *old(offset) as int, n as int) == Err::<
                (EnterpriseSubdivisionSpec, int),
                _,
            >(e@),
        },
    decreases n,
{
    if n == 0 {
        return Ok(acc);
    }
    let key = read_str(buf, offset)?;
    if str_eq(key.as_str(), "confidence") {
        let v = read_usize(buf, offset)?;
        enterprise_subdivision_fields(EnterpriseSubdivision { confidence: Some(u16_of(v)), ..acc }, buf, offset, n - 1)
    } else if str_eq(key.as_str(), "geoname_id") {
        let v = read_usize(buf, offset)?;
        enterprise_subdivision_fields(EnterpriseSubdivision { geoname_id: Some(u32_of(v)), ..acc }, buf, offset, n - 1)
    } else if str_eq(key.as_str(), "iso_code") {
        let v = read_str(buf, offset)?;
        enterprise_subdivision_fields(EnterpriseSubdivision { iso_code: Some(v), ..acc }, buf, offset, n - 1)
    } else if str_eq(key.as_str(), "names") {
        let v = read_map(buf, offset)?;
        enterprise_subdivision_fields(EnterpriseSubdivision { names: Some(v), ..acc }, buf, offset, n - 1)
    } else {
        Err(Error::UnknownField(key))
    }
}

impl Decoder for EnterpriseSubdivision {
    open spec fn sp_decode_size(buf: Seq<u8>, off: int, n: int) -> Result<
        (EnterpriseSubdivisionSpec, int),
        ErrorSpec,
    > {
        sp_enterprise_subdivision_fields(
            EnterpriseSubdivisionSpec { confidence: None, geoname_id: None, iso_code: None, names: None },
            buf,
            off,
            n,
        )
    }

    fn decode_with_size(buf: &[u8], offset: &mut usize, size: usize) -> (r: Result<Self, Error>) {
        enterprise_subdivision_fields(
            EnterpriseSubdivision { confidence: None, geoname_id: None, iso_code: None, names: None },
            buf,
            offset,
            size,
        )
    }
}

/// `n` [`EnterpriseSubdivision`] elements read one after another starting at `off`.
pub open spec fn sp_enterprise_subdivision_elems(buf: Seq<u8>, off: int, n: int) -> Result<
    (Seq<EnterpriseSubdivisionSpec>, int),
    ErrorSpec,
>
    decreases n,
{
    if n <= 0 {
        Ok((Seq::empty(), off))
    } else {
        match sp_enterprise_subdivision_decode(buf, off) {
            Err(e) => Err(e),
            Ok((first, p)) => {
                match sp_enterprise_subdivision_elems(buf, p, n - 1) {
                    Err(e) => Err(e),
                    Ok((rest, q)) => Ok((seq![first].add(rest), q)),
                }
            },
        }
    }
}

/// Result of reading an array of [`EnterpriseSubdivision`] records at `off`. One
/// pointer hop to the array itself is allowed.
pub open spec fn sp_read_enterprise_subdivision_array(buf: Seq<u8>, off: int) -> Result<
    (Seq<EnterpriseSubdivisionSpec>, int),
    ErrorSpec,
> {
    match spec_control(buf, off) {
        Err(e) => Err(e),
        Ok((t, s, p)) => {
            if t == DATA_TYPE_SLICE {
                sp_enterprise_subdivision_elems(buf, p, s)
            } else if t == DATA_TYPE_POINTER {
                match spec_pointer(buf, p, s) {
                    Err(e) => Err(e),
                    Ok((target, after)) => {
                        match spec_control(buf, target) {
                            Err(e) => Err(e),
                            Ok((t2, s2, p2)) => {
                                if t2 == DATA_TYPE_SLICE {
                                    match sp_enterprise_subdivision_elems(buf, p2, s2) {
                                        Err(e) => Err(e),
                                        Ok((elems, _)) => Ok((elems, after)),
                                    }
                                } else {
                                    Err(ErrorSpec::InvalidDataType(t2))
                                }
                            },
                        }
                    },
                }
            } else {
                Err(ErrorSpec::InvalidDataType(t))
            }
        },
    }
}

/// Read `n` consecutive [`EnterpriseSubdivision`] elements at the cursor.
#[verifier::spinoff_prover]
#[verifier::rlimit(100)]
fn enterprise_subdivision_elems(buf: &[u8], offset: &mut usize, n: usize) -> (r: Result<Vec<EnterpriseSubdivision>, Error>)
    ensures
        match r {
            Ok(v) => sp_enterprise_subdivision_elems(buf@, *old(offset) as int, n as int) == Ok::<_, ErrorSpec>(
                (views_of_recs(v@), *final(offset) as int),
            ),
            Err(e) => sp_enterprise_subdivision_elems(buf@, *old(offset) as int, n as int) == Err::<
                (Seq<EnterpriseSubdivisionSpec>, int),
                _,
            >(e@),
        },
    decreases n,
{
    if n == 0 {
        proof {
            assert(views_of_recs(Seq::<EnterpriseSubdivision>::empty()) =~= Seq::<EnterpriseSubdivisionSpec>::empty());
        }
        return Ok(Vec::new());
    }
    let ghost p0 = *offset as int;
    let item = match EnterpriseSubdivision::decode(buf, offset) {
        Ok(v) => v,
        Err(e) => {
            proof {
                assert(sp_enterprise_subdivision_decode(buf@, p0) == Err::<(EnterpriseSubdivisionSpec, int), ErrorSpec>(e@));
            }
            return Err(e);
        },
    };
    let ghost p1 = *offset as int;
    proof {
        assert(sp_enterprise_subdivision_decode(buf@, p0) == Ok::<_, ErrorSpec>((item@, p1)));
    }
    let mut rest = enterprise_subdivision_elems(buf, offset, n - 1)?;
    proof {
        assert(views_of_recs(rest@.insert(0, item)) =~= seq![item@].add(
            views_of_recs(rest@),
        ));
    }
    rest.insert(0, item);
    Ok(rest)
}

/// Read an array of [`EnterpriseSubdivision`] records at the cursor. One pointer hop
/// to the array itself is allowed.
pub fn read_enterprise_subdivision_array(buf: &[u8], offset: &mut usize) -> (r: Result<Vec<EnterpriseSubdivision>, Error>)
    ensures
        match r {
            Ok(v) => sp_read_enterprise_subdivision_array(buf@, *old(offset) as int) == Ok::<_, ErrorSpec>(
                (views_of_recs(v@), *final(offset) as int),
            ),
            Err(e) => sp_read_enterprise_subdivision_array(buf@, *old(offset) as int) == Err::<
                (Seq<EnterpriseSubdivisionSpec>, int),
                _,
            >(e@),
        },
{
    let (data_type, size) = read_control(buf, offset)?;
    if data_type == DATA_TYPE_SLICE {
        enterprise_subdivision_elems(buf, offset, size)
    } else if data_type == DATA_TYPE_POINTER {
        let mut inner = read_pointer(buf, offset, size)?;
        let (t2, s2) = read_control(buf, &mut inner)?;
        if t2 == DATA_TYPE_SLICE {
            let v = enterprise_subdivision_elems(buf, &mut inner, s2)?;
            Ok(v)
        } else {
            Err(Error::InvalidDataType(t2))
        }
    } else {
        Err(Error::InvalidDataType(data_type))
    }
}

/// GeoIP2 Enterprise Traits record; the static IP score holds the raw bits of an 8-byte big-endian IEEE-754 double.
#[derive(Debug, Clone)]
pub struct EnterpriseTraits {
    pub autonomous_system_number: Option<u32>,
    pub autonomous_system_organization: Option<String>,
    pub connection_type: Option<String>,
    pub domain: Option<String>,
    pub is_anonymous: Option<bool>,
    pub is_anonymous_proxy: Option<bool>,
    pub is_anonymous_vpn: Option<bool>,
    pub is_anycast: Option<bool>,
    pub is_hosting_provider: Option<bool>,
    pub isp: Option<String>,
    pub is_public_proxy: Option<bool>,
    pub is_residential_proxy: Option<bool>,
    pub is_satellite_provider: Option<bool>,
    pub is_legitimate_proxy: Option<bool>,
    pub static_ip_score: Option<u64>,
    pub is_tor_exit_node: Option<bool>,
    pub mobile_country_code: Option<String>,
    pub mobile_network_code: Option<String>,
    pub organization: Option<String>,
    pub user_type: Option<String>,
}

/// Model of [`EnterpriseTraits`].
pub struct EnterpriseTraitsSpec {
    pub autonomous_system_number: Option<u32>,
    pub autonomous_system_organization: Option<Seq<char>>,
    pub connection_type: Option<Seq<char>>,
    pub domain: Option<Seq<char>>,
    pub is_anonymous: Option<bool>,
    pub is_anonymous_proxy: Option<bool>,
    pub is_anonymous_vpn: Option<bool>,
    pub is_anycast: Option<bool>,
    pub is_hosting_provider: Option<bool>,
    pub isp: Option<Seq<char>>,
    pub is_public_proxy: Option<bool>,
    pub is_residential_proxy: Option<bool>,
    pub is_satellite_provider: Option<bool>,
    pub is_legitimate_proxy: Option<bool>,
    pub static_ip_score: Option<u64>,
    pub is_tor_exit_node: Option<bool>,
    pub mobile_country_code: Option<Seq<char>>,
    pub mobile_network_code: Option<Seq<char>>,
    pub organization: Option<Seq<char>>,
    pub user_type: Option<Seq<char>>,
}

impl View for EnterpriseTraits {
    type V = EnterpriseTraitsSpec;

    open spec fn view(&self) -> EnterpriseTraitsSpec {
        EnterpriseTraitsSpec {
            autonomous_system_number: self.autonomous_system_number,
            autonomous_system_organization: view_opt_str(self.autonomous_system_organization),
            connection_type: view_opt_str(self.connection_type),
            domain: view_opt_str(self.domain),
            is_anonymous: self.is_anonymous,
            is_anonymous_proxy: self.is_anonymous_proxy,
            is_anonymous_vpn: self.is_anonymous_vpn,
            is_anycast: self.is_anycast,
            is_hosting_provider: self.is_hosting_provider,
            isp: view_opt_str(self.isp),
            is_public_proxy: self.is_public_proxy,
            is_residential_proxy: self.is_residential_proxy,
            is_satellite_provider: self.is_satellite_provider,
            is_legitimate_proxy: self.is_legitimate_proxy,
            static_ip_score: self.static_ip_score,
            is_tor_exit_node: self.is_tor_exit_node,
            mobile_country_code: view_opt_str(self.mobile_country_code),
            mobile_network_code: view_opt_str(self.mobile_network_code),
            organization: view_opt_str(self.organization),
            user_type: view_opt_str(self.user_type),
        }
    }
}

/// Field decoding for [`EnterpriseTraits`]: `n` key/value pairs applied to `m` in
/// file order; an unknown key is fatal.
pub open spec fn sp_enterprise_traits_fields(m: EnterpriseTraitsSpec, buf: Seq<u8>, off: int, n: int) -> Result<
    (EnterpriseTraitsSpec, int),
    ErrorSpec,
>
    decreases n,
{
    if n <= 0 {
        Ok((m, off))
    } else {
        match spec_read_str(buf, off) {
            Err(e) => Err(e),
            Ok((key, p)) => {
                if key == "autonomous_system_number"@ {
                    match spec_read_uint(buf, p) {
                        Err(e) => Err(e),
                        Ok((v, q)) => sp_enterprise_traits_fields(
                            EnterpriseTraitsSpec { autonomous_system_number: Some(trunc32(v)), ..m },
                            buf,
                            q,
                            n - 1,
                        ),
                    }
                } else if key == "autonomous_system_organization"@ {
                    match spec_read_str(buf, p) {
                        Err(e) => Err(e),
                        Ok((v, q)) => sp_enterprise_traits_fields(
                            EnterpriseTraitsSpec { autonomous_system_organization: Some(v), ..m },
                            buf,
                            q,
                            n - 1,
                        ),
                    }
                } else if key == "connection_type"@ {
                    match spec_read_str(buf, p) {
                        Err(e) => Err(e),
                        Ok((v, q)) => sp_enterprise_traits_fields(
                            EnterpriseTraitsSpec { connection_type: Some(v), ..m },
                            buf,
                            q,
                            n - 1,
                        ),
                    }
                } else if key == "domain"@ {
                    match spec_read_str(buf, p) {
                        Err(e) => Err(e),
                        Ok((v, q)) => sp_enterprise_traits_fields(
                            EnterpriseTraitsSpec { domain: Some(v), ..m },
                            buf,
                            q,
                            n - 1,
                        ),
                    }
                } else if key == "is_anonymous"@ {
                    match spec_read_bool(buf, p) {
                        Err(e) => Err(e),
                        Ok((v, q)) => sp_enterprise_traits_fields(
                            EnterpriseTraitsSpec { is_anonymous: Some(v), ..m },
                            buf,
                            q,
                            n - 1,
                        ),
                    }
                } else if key == "is_anonymous_proxy"@ {
                    match spec_read_bool(buf, p) {
                        Err(e) => Err(e),
                        Ok((v, q)) => sp_enterprise_traits_fields(
                            EnterpriseTraitsSpec { is_anonymous_proxy: Some(v), ..m },
                            buf,
                            q,
                            n - 1,
                        ),
                    }
                } else if key == "is_anonymous_vpn"@ {
                    match spec_read_bool(buf, p) {
                        Err(e) => Err(e),
                        Ok((v, q)) => sp_enterprise_traits_fields(
                            EnterpriseTraitsSpec { is_anonymous_vpn: Some(v), ..m },
                            buf,
                            q,
                            n - 1,
                        ),
                    }
                } else if key == "is_anycast"@ {
                    match spec_read_bool(buf, p) {
                        Err(e) => Err(e),
                        Ok((v, q)) => sp_enterprise_traits_fields(
                            EnterpriseTraitsSpec { is_anycast: Some(v), ..m },
                            buf,
                            q,
                            n - 1,
                        ),
                    }
                } else if key == "is_hosting_provider"@ {
                    match spec_read_bool(buf, p) {
                        Err(e) => Err(e),
                        Ok((v, q)) => sp_enterprise_traits_fields(
                            EnterpriseTraitsSpec { is_hosting_provider: Some(v), ..m },
                            buf,
                            q,
                            n - 1,
                        ),
                    }
                } else if key == "isp"@ {
                    match spec_read_str(buf, p) {
                        Err(e) => Err(e),
                        Ok((v, q)) => sp_enterprise_traits_fields(
                            EnterpriseTraitsSpec { isp: Some(v), ..m },
                            buf,
                            q,
                            n - 1,
                        ),
                    }
                } else if key == "is_public_proxy"@ {
                    match spec_read_bool(buf, p) {
                        Err(e) => Err(e),
                        Ok((v, q)) => sp_enterprise_traits_fields(
                            EnterpriseTraitsSpec { is_public_proxy: Some(v), ..m },
                            buf,
                            q,
                            n - 1,
                        ),
                    }
                } else if key == "is_residential_proxy"@ {
                    match spec_read_bool(buf, p) {
                        Err(e) => Err(e),
                        Ok((v, q)) => sp_enterprise_traits_fields(
                            EnterpriseTraitsSpec { is_residential_proxy: Some(v), ..m },
                            buf,
                            q,
                            n - 1,
                        ),
                    }
                } else if key == "is_satellite_provider"@ {
                    match spec_read_bool(buf, p) {
                        Err(e) => Err(e),
                        Ok((v, q)) => sp_enterprise_traits_fields(
                            EnterpriseTraitsSpec { is_satellite_provider: Some(v), ..m },
                            buf,
                            q,
                            n - 1,
                        ),
                    }
                } else if key == "is_legitimate_proxy"@ {
                    match spec_read_bool(buf, p) {
                        Err(e) => Err(e),
                        Ok((v, q)) => sp_enterprise_traits_fields(
                            EnterpriseTraitsSpec { is_legitimate_proxy: Some(v), ..m },
                            buf,
                            q,
                            n - 1,
                        ),
                    }
                } else if key == "static_ip_score"@ {
                    match spec_read_f64_bits(buf, p) {
                        Err(e) => Err(e),
                        Ok((v, q)) => sp_enterprise_traits_fields(
                            EnterpriseTraitsSpec { static_ip_score: Some(v), ..m },
                            buf,
                            q,
                            n - 1,
                        ),
                    }
                } else if key == "is_tor_exit_node"@ {
                    match spec_read_bool(buf, p) {
                        Err(e) => Err(e),
                        Ok((v, q)) => sp_enterprise_traits_fields(
                            EnterpriseTraitsSpec { is_tor_exit_node: Some(v), ..m },
                            buf,
                            q,
                            n - 1,
                        ),
                    }
                } else if key == "mobile_country_code"@ {
                    match spec_read_str(buf, p) {
                        Err(e) => Err(e),
                        Ok((v, q)) => sp_enterprise_traits_fields(
                            EnterpriseTraitsSpec { mobile_country_code: Some(v), ..m },
                            buf,
                            q,
                            n - 1,
                        ),
                    }
                } else if key == "mobile_network_code"@ {
                    match spec_read_str(buf, p) {
                        Err(e) => Err(e),
                        Ok((v, q)) => sp_enterprise_traits_fields(
                            EnterpriseTraitsSpec { mobile_network_code: Some(v), ..m },
                            buf,
                            q,
                            n - 1,
                        ),
                    }
                } else if key == "organization"@ {
                    match spec_read_str(buf, p) {
                        Err(e) => Err(e),
                        Ok((v, q)) => sp_enterprise_traits_fields(
                            EnterpriseTraitsSpec { organization: Some(v), ..m },
                            buf,
                            q,
                            n - 1,
                        ),
                    }
                } else if key == "user_type"@ {
                    match spec_read_str(buf, p) {
                        Err(e) => Err(e),
                        Ok((v, q)) => sp_enterprise_traits_fields(
                            EnterpriseTraitsSpec { user_type: Some(v), ..m },
                            buf,
                            q,
                            n - 1,
                        ),
                    }
                } else {
                    Err(ErrorSpec::UnknownField(key))
                }
            },
        }
    }
}

/// How a whole [`EnterpriseTraits`] record is decoded at `off`: a MAP control
/// header (one pointer hop is allowed), then the key/value pairs.
pub open spec fn sp_enterprise_traits_decode(buf: Seq<u8>, off: int) -> Result<(EnterpriseTraitsSpec, int), ErrorSpec> {
    match spec_control(buf, off) {
        Err(e) => Err(e),
        Ok((t, s, p)) => {
            if t == DATA_TYPE_MAP {
                EnterpriseTraits::sp_decode_size(buf, p, s)
            } else if t == DATA_TYPE_POINTER {
                match spec_pointer(buf, p, s) {
                    Err(e) => Err(e),
                    Ok((target, after)) => {
                        match spec_control(buf, target) {
                            Err(e) => Err(e),
                            Ok((t2, s2, p2)) => {
                                if t2 == DATA_TYPE_MAP {
                                    match EnterpriseTraits::sp_decode_size(buf, p2, s2) {
                                        Err(e) => Err(e),
                                        Ok((v, _)) => Ok((v, after)),
                                    }
                                } else {
                                    Err(ErrorSpec::InvalidDataType(t2))
                                }
                            },
                        }
                    },
                }
            } else {
                Err(ErrorSpec::InvalidDataType(t))
            }
        },
    }
}

fn enterprise_traits_fields(acc: EnterpriseTraits, buf: &[u8], offset: &mut usize, n: usize) -> (r: Result<
    EnterpriseTraits,
    Error,
>)
    ensures
        match r {
            Ok(v) => sp_enterprise_traits_fields(acc@, buf@, *old(offset) as int, n as int) == Ok::<
                _,
                ErrorSpec,
            >((v@, *final(offset) as int)),
            Err(e) => sp_enterprise_traits_fields(acc@, buf@, *old(offset) as int, n as int) == Err::<
                (EnterpriseTraitsSpec, int),
                _,
            >(e@),
        },
    decreases n,
{
    if n == 0 {
        return Ok(acc);
    }
    let key = read_str(buf, offset)?;
    if str_eq(key.as_str(), "autonomous_system_number") {
        let v = read_usize(buf, offset)?;
        enterprise_traits_fields(EnterpriseTraits { autonomous_system_number: Some(u32_of(v)), ..acc }, buf, offset, n - 1)
    } else if str_eq(key.as_str(), "autonomous_system_organization") {
        let v = read_str(buf, offset)?;
        enterprise_traits_fields(EnterpriseTraits { autonomous_system_organization: Some(v), ..acc }, buf, offset, n - 1)
    } else if str_eq(key.as_str(), "connection_type") {
        let v = read_str(buf, offset)?;
        enterprise_traits_fields(EnterpriseTraits { connection_type: Some(v), ..acc }, buf, offset, n - 1)
    } else if str_eq(key.as_str(), "domain") {
        let v = read_str(buf, offset)?;
        enterprise_traits_fields(EnterpriseTraits { domain: Some(v), ..acc }, buf, offset, n - 1)
    } else if str_eq(key.as_str(), "is_anonymous") {
        let v = read_bool(buf, offset)?;
        enterprise_traits_fields(EnterpriseTraits { is_anonymous: Some(v), ..acc }, buf, offset, n - 1)
    } else if str_eq(key.as_str(), "is_anonymous_proxy") {
        let v = read_bool(buf, offset)?;
        enterprise_traits_fields(EnterpriseTraits { is_anonymous_proxy: Some(v), ..acc }, buf, offset, n - 1)
    } else if str_eq(key.as_str(), "is_anonymous_vpn") {
        let v = read_bool(buf, offset)?;
        enterprise_traits_fields(EnterpriseTraits { is_anonymous_vpn: Some(v), ..acc }, buf, offset, n - 1)
    } else if str_eq(key.as_str(), "is_anycast") {
        let v = read_bool(buf, offset)?;
        enterprise_traits_fields(EnterpriseTraits { is_anycast: Some(v), ..acc }, buf, offset, n - 1)
    } else if str_eq(key.as_str(), "is_hosting_provider") {
        let v = read_bool(buf, offset)?;
        enterprise_traits_fields(EnterpriseTraits { is_hosting_provider: Some(v), ..acc }, buf, offset, n - 1)
    } else if str_eq(key.as_str(), "isp") {
        let v = read_str(buf, offset)?;
        enterprise_traits_fields(EnterpriseTraits { isp: Some(v), ..acc }, buf, offset, n - 1)
    } else if str_eq(key.as_str(), "is_public_proxy") {
        let v = read_bool(buf, offset)?;
        enterprise_traits_fields(EnterpriseTraits { is_public_proxy: Some(v), ..acc }, buf, offset, n - 1)
    } else if str_eq(key.as_str(), "is_residential_proxy") {
        let v = read_bool(buf, offset)?;
        enterprise_traits_fields(EnterpriseTraits { is_residential_proxy: Some(v), ..acc }, buf, offset, n - 1)
    } else if str_eq(key.as_str(), "is_satellite_provider") {
        let v = read_bool(buf, offset)?;
        enterprise_traits_fields(EnterpriseTraits { is_satellite_provider: Some(v), ..acc }, buf, offset, n - 1)
    } else if str_eq(key.as_str(), "is_legitimate_proxy") {
        let v = read_bool(buf, offset)?;
        enterprise_traits_fields(EnterpriseTraits { is_legitimate_proxy: Some(v), ..acc }, buf, offset, n - 1)
    } else if str_eq(key.as_str(), "static_ip_score") {
        let v = read_f64_bits(buf, offset)?;
        enterprise_traits_fields(EnterpriseTraits { static_ip_score: Some(v), ..acc }, buf, offset, n - 1)
    } else if str_eq(key.as_str(), "is_tor_exit_node") {
        let v = read_bool(buf, offset)?;
        enterprise_traits_fields(EnterpriseTraits { is_tor_exit_node: Some(v), ..acc }, buf, offset, n - 1)
    } else if str_eq(key.as_str(), "mobile_country_code") {
        let v = read_str(buf, offset)?;
        enterprise_traits_fields(EnterpriseTraits { mobile_country_code: Some(v), ..acc }, buf, offset, n - 1)
    } else if str_eq(key.as_str(), "mobile_network_code") {
        let v = read_str(buf, offset)?;
        enterprise_traits_fields(EnterpriseTraits { mobile_network_code: Some(v), ..acc }, buf, offset, n - 1)
    } else if str_eq(key.as_str(), "organization") {
        let v = read_str(buf, offset)?;
        enterprise_traits_fields(EnterpriseTraits { organization: Some(v), ..acc }, buf, offset, n - 1)
    } else if str_eq(key.as_str(), "user_type") {
        let v = read_str(buf, offset)?;
        enterprise_traits_fields(EnterpriseTraits { user_type: Some(v), ..acc }, buf, offset, n - 1)
    } else {
        Err(Error::UnknownField(key))
    }
}

impl Decoder for EnterpriseTraits {
    open spec fn sp_decode_size(buf: Seq<u8>, off: int, n: int) -> Result<
        (EnterpriseTraitsSpec, int),
        ErrorSpec,
    > {
        sp_enterprise_traits_fields(
            EnterpriseTraitsSpec { autonomous_system_number: None, autonomous_system_organization: None, connection_type: None, domain: None, is_anonymous: None, is_anonymous_proxy: None, is_anonymous_vpn: None, is_anycast: None, is_hosting_provider: None, isp: None, is_public_proxy: None, is_residential_proxy: None, is_satellite_provider: None, is_legitimate_proxy: None, static_ip_score: None, is_tor_exit_node: None, mobile_country_code: None, mobile_network_code: None, organization: None, user_type: None },
            buf,
            off,
            n,
        )
    }

    fn decode_with_size(buf: &[u8], offset: &mut usize, size: usize) -> (r: Result<Self, Error>) {
        enterprise_traits_fields(
            EnterpriseTraits { autonomous_system_number: None, autonomous_system_organization: None, connection_type: None, domain: None, is_anonymous: None, is_anonymous_proxy: None, is_anonymous_vpn: None, is_anycast: None, is_hosting_provider: None, isp: None, is_public_proxy: None, is_residential_proxy: None, is_satellite_provider: None, is_legitimate_proxy: None, static_ip_score: None, is_tor_exit_node: None, mobile_country_code: None, mobile_network_code: None, organization: None, user_type: None },
            buf,
            offset,
            size,
        )
    }
}
} // verus!
