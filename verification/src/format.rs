//! The public response document and the mapping of matched rows into it.

use crate::rows::{AsnRow, CityRow, CountryRow, Degrees};
use vstd::prelude::*;
use vstd::string::StrSliceExecFns;

verus! {

/// The matched range: its CIDR text, prefix length and address family.
#[derive(Debug, PartialEq, Eq)]
pub struct Network {
    pub cidr: String,
    pub prefix_length: i64,
    pub ip_version: i64,
}

#[derive(Debug, PartialEq, Eq)]
pub struct Continent {
    pub code: Option<String>,
    pub name: Option<String>,
}

#[derive(Debug, PartialEq, Eq)]
pub struct Country {
    pub iso_code: Option<String>,
    pub name: Option<String>,
    pub flag_emoji: Option<String>,
    pub is_in_european_union: Option<i64>,
}

#[derive(Debug, PartialEq, Eq)]
pub struct Subdivision {
    pub iso_code: Option<String>,
    pub name: Option<String>,
}

#[derive(Debug, PartialEq, Eq)]
pub struct City {
    pub name: Option<String>,
    pub metro_code: Option<String>,
}

#[derive(Debug, PartialEq, Eq)]
pub struct Geo {
    pub continent: Continent,
    pub country: Country,
    pub subdivision_1: Subdivision,
    pub subdivision_2: Subdivision,
    pub city: City,
    pub time_zone: Option<String>,
}

#[derive(Debug, PartialEq, Eq)]
pub struct Coordinates {
    pub latitude: Option<Degrees>,
    pub longitude: Option<Degrees>,
    pub accuracy_radius: Option<i64>,
}

#[derive(Debug, PartialEq, Eq)]
pub struct Traits {
    pub is_anonymous_proxy: Option<i64>,
    pub is_satellite_provider: Option<i64>,
    pub is_anycast: Option<i64>,
}

/// The geographic part of a response.
#[derive(Debug, PartialEq, Eq)]
pub struct Location {
    pub source: String,
    pub network: Network,
    pub geo: Geo,
    pub coordinates: Coordinates,
    pub postal_code: Option<String>,
    pub traits: Traits,
    pub geoname_id: Option<i64>,
    pub registered_country_geoname_id: Option<i64>,
    pub represented_country_geoname_id: Option<i64>,
}

/// The network-ownership part of a response.
#[derive(Debug, PartialEq, Eq)]
pub struct Asn {
    pub network: Network,
    pub number: Option<i64>,
    pub organization: Option<String>,
}

/// The characters of an optional text.
pub open spec fn text_view(text: Option<String>) -> Option<Seq<char>> {
    match text {
        Some(s) => Some(s@),
        None => None,
    }
}

/// Whether `c` is one of the 52 ASCII letters.
pub open spec fn is_letter(c: char) -> bool {
    ('a' as u32 <= c as u32 && c as u32 <= 'z' as u32) || ('A' as u32 <= c as u32 && c as u32
        <= 'Z' as u32)
}

/// The position of an ASCII letter in the alphabet, from 0, whatever its case.
pub open spec fn letter_offset(c: char) -> int {
    if 'a' as u32 <= c as u32 {
        c as u32 - 'a' as u32
    } else {
        c as u32 - 'A' as u32
    }
}

/// The regional indicator symbol of an ASCII letter: `U+1F1E6` for `A`, and
/// so on up the alphabet.
pub open spec fn regional_indicator(c: char) -> char {
    (0x1F1E6 + letter_offset(c)) as char
}

/// The flag of a country code: the regional indicators of its two letters.
/// A code that is not exactly two ASCII letters has no flag.
pub open spec fn flag_of(iso: Seq<char>) -> Option<Seq<char>> {
    if iso.len() == 2 && is_letter(iso[0]) && is_letter(iso[1]) {
        Some(seq![regional_indicator(iso[0]), regional_indicator(iso[1])])
    } else {
        None
    }
}

/// `flag_of` on a code that may be absent.
pub open spec fn flag_of_code(iso: Option<Seq<char>>) -> Option<Seq<char>> {
    match iso {
        Some(code) => flag_of(code),
        None => None,
    }
}

/// Whether `v` is a Unicode scalar value.
pub open spec fn is_scalar_value(v: u32) -> bool {
    v <= 0xD7FF || (0xE000 <= v && v <= 0x10FFFF)
}

/// `char::from_u32` of std: the character with code point `v`, and `None`
/// exactly when `v` is a surrogate or lies above `U+10FFFF`.
#[verifier::external_body]
fn char_from_u32(v: u32) -> (c: Option<char>)
    ensures
        is_scalar_value(v) ==> c == Some(v as char),
        !is_scalar_value(v) ==> c is None,
{
    char::from_u32(v)
}

/// `String::push` of std: appends the one character `c` to `text`.
#[verifier::external_body]
fn push_char(text: &mut String, c: char)
    ensures
        final(text)@ == old(text)@.push(c),
{
    text.push(c)
}

/// The regional indicator of `c`, if `c` is an ASCII letter.
fn indicator_of(c: char) -> (symbol: Option<char>)
    ensures
        is_letter(c) ==> symbol == Some(regional_indicator(c)),
        !is_letter(c) ==> symbol is None,
{
    let v: u32 = c as u32;
    if 97 <= v && v <= 122 {
        char_from_u32(0x1F1E6 + (v - 97))
    } else if 65 <= v && v <= 90 {
        char_from_u32(0x1F1E6 + (v - 65))
    } else {
        None
    }
}

/// The flag emoji of an ISO country code.
///
/// A code of two ASCII letters, in either case, gives the two regional
/// indicator symbols of its letters. Any other code, and an absent one,
/// gives no flag.
pub fn iso_to_flag(iso: Option<&str>) -> (flag: Option<String>)
    ensures
        iso matches Some(code) ==> text_view(flag) == flag_of(code@),
        iso is None ==> flag is None,
{
    let code = match iso {
        Some(code) => code,
        None => {
            return None;
        },
    };
    if code.unicode_len() != 2 {
        return None;
    }
    let first = indicator_of(code.get_char(0));
    let second = indicator_of(code.get_char(1));
    match (first, second) {
        (Some(a), Some(b)) => {
            let mut flag = String::new();
            push_char(&mut flag, a);
            push_char(&mut flag, b);
            assert(flag@ =~= seq![a, b]);
            Some(flag)
        },
        _ => None,
    }
}

/// The document of a city-level match, given its source label and flag.
pub open spec fn city_location(row: CityRow, source: String, flag: Option<String>) -> Location {
    Location {
        source,
        network: Network {
            cidr: row.network,
            prefix_length: row.prefix_length,
            ip_version: row.ip_version,
        },
        geo: Geo {
            continent: Continent { code: row.continent_code, name: row.continent_name },
            country: Country {
                iso_code: row.country_iso_code,
                name: row.country_name,
                flag_emoji: flag,
                is_in_european_union: row.is_in_european_union,
            },
            subdivision_1: Subdivision {
                iso_code: row.subdivision_1_iso_code,
                name: row.subdivision_1_name,
            },
            subdivision_2: Subdivision {
                iso_code: row.subdivision_2_iso_code,
                name: row.subdivision_2_name,
            },
            city: City { name: row.city_name, metro_code: row.metro_code },
            time_zone: row.time_zone,
        },
        coordinates: Coordinates {
            latitude: row.latitude,
            longitude: row.longitude,
            accuracy_radius: row.accuracy_radius,
        },
        postal_code: row.postal_code,
        traits: Traits {
            is_anonymous_proxy: row.is_anonymous_proxy,
            is_satellite_provider: row.is_satellite_provider,
            is_anycast: row.is_anycast,
        },
        geoname_id: row.geoname_id,
        registered_country_geoname_id: row.registered_country_geoname_id,
        represented_country_geoname_id: row.represented_country_geoname_id,
    }
}

/// A country-level row seen as a city-level row: everything that only a city
/// block or a city's names can tell is absent.
pub open spec fn country_as_city(row: CountryRow) -> CityRow {
    CityRow {
        network: row.network,
        prefix_length: row.prefix_length,
        ip_version: row.ip_version,
        geoname_id: row.geoname_id,
        registered_country_geoname_id: row.registered_country_geoname_id,
        represented_country_geoname_id: row.represented_country_geoname_id,
        is_anonymous_proxy: row.is_anonymous_proxy,
        is_satellite_provider: row.is_satellite_provider,
        is_anycast: row.is_anycast,
        postal_code: None,
        latitude: None,
        longitude: None,
        accuracy_radius: None,
        continent_code: row.continent_code,
        continent_name: row.continent_name,
        country_iso_code: row.country_iso_code,
        country_name: row.country_name,
        subdivision_1_iso_code: None,
        subdivision_1_name: None,
        subdivision_2_iso_code: None,
        subdivision_2_name: None,
        city_name: None,
        metro_code: None,
        time_zone: None,
        is_in_european_union: row.is_in_european_union,
    }
}

/// The document of a country-level match: that of the same row seen as a
/// city-level row, so subdivisions, city, time zone, coordinates and postal
/// code are all absent.
pub open spec fn country_location(row: CountryRow, source: String, flag: Option<String>)
    -> Location {
    city_location(country_as_city(row), source, flag)
}

/// The document of an ASN match, if there is one.
pub open spec fn asn_document(row: Option<AsnRow>) -> Option<Asn> {
    match row {
        Some(asn) => Some(
            Asn {
                network: Network {
                    cidr: asn.network,
                    prefix_length: asn.prefix_length,
                    ip_version: asn.ip_version,
                },
                number: asn.autonomous_system_number,
                organization: asn.autonomous_system_organization,
            },
        ),
        None => None,
    }
}

/// The flag of the country code in an optional text column.
fn flag_of_column(code: &Option<String>) -> (flag: Option<String>)
    ensures
        text_view(flag) == flag_of_code(text_view(*code)),
{
    match code {
        Some(iso) => iso_to_flag(Some(iso.as_str())),
        None => iso_to_flag(None),
    }
}

/// Maps a city-level match into the response document.
///
/// Every field of the row is carried over unchanged; the label is `source`
/// and the flag is derived from the row's country code.
pub fn format_location_city(row: CityRow, source: &str) -> (location: Location)
    ensures
        location.source@ == source@,
        text_view(location.geo.country.flag_emoji) == flag_of_code(
            text_view(row.country_iso_code),
        ),
        location == city_location(row, location.source, location.geo.country.flag_emoji),
{
    let flag_emoji = flag_of_column(&row.country_iso_code);
    Location {
        source: source.to_owned(),
        network: Network {
            cidr: row.network,
            prefix_length: row.prefix_length,
            ip_version: row.ip_version,
        },
        geo: Geo {
            continent: Continent { code: row.continent_code, name: row.continent_name },
            country: Country {
                iso_code: row.country_iso_code,
                name: row.country_name,
                flag_emoji,
                is_in_european_union: row.is_in_european_union,
            },
            subdivision_1: Subdivision {
                iso_code: row.subdivision_1_iso_code,
                name: row.subdivision_1_name,
            },
            subdivision_2: Subdivision {
                iso_code: row.subdivision_2_iso_code,
                name: row.subdivision_2_name,
            },
            city: City { name: row.city_name, metro_code: row.metro_code },
            time_zone: row.time_zone,
        },
        coordinates: Coordinates {
            latitude: row.latitude,
            longitude: row.longitude,
            accuracy_radius: row.accuracy_radius,
        },
        postal_code: row.postal_code,
        traits: Traits {
            is_anonymous_proxy: row.is_anonymous_proxy,
            is_satellite_provider: row.is_satellite_provider,
            is_anycast: row.is_anycast,
        },
        geoname_id: row.geoname_id,
        registered_country_geoname_id: row.registered_country_geoname_id,
        represented_country_geoname_id: row.represented_country_geoname_id,
    }
}

/// Maps a country-level match into the response document.
///
/// The block's fields and the country's names are carried over unchanged;
/// subdivisions, city, time zone, coordinates and postal code are absent.
pub fn format_location_country(row: CountryRow, source: &str) -> (location: Location)
    ensures
        location.source@ == source@,
        text_view(location.geo.country.flag_emoji) == flag_of_code(
            text_view(row.country_iso_code),
        ),
        location == country_location(row, location.source, location.geo.country.flag_emoji),
        location.geo.subdivision_1 == (Subdivision { iso_code: None, name: None }),
        location.geo.subdivision_2 == (Subdivision { iso_code: None, name: None }),
        location.geo.city == (City { name: None, metro_code: None }),
        location.geo.time_zone is None,
        location.coordinates == (Coordinates {
            latitude: None,
            longitude: None,
            accuracy_radius: None,
        }),
        location.postal_code is None,
{
    let flag_emoji = flag_of_column(&row.country_iso_code);
    Location {
        source: source.to_owned(),
        network: Network {
            cidr: row.network,
            prefix_length: row.prefix_length,
            ip_version: row.ip_version,
        },
        geo: Geo {
            continent: Continent { code: row.continent_code, name: row.continent_name },
            country: Country {
                iso_code: row.country_iso_code,
                name: row.country_name,
                flag_emoji,
                is_in_european_union: row.is_in_european_union,
            },
            subdivision_1: Subdivision { iso_code: None, name: None },
            subdivision_2: Subdivision { iso_code: None, name: None },
            city: City { name: None, metro_code: None },
            time_zone: None,
        },
        coordinates: Coordinates { latitude: None, longitude: None, accuracy_radius: None },
        postal_code: None,
        traits: Traits {
            is_anonymous_proxy: row.is_anonymous_proxy,
            is_satellite_provider: row.is_satellite_provider,
            is_anycast: row.is_anycast,
        },
        geoname_id: row.geoname_id,
        registered_country_geoname_id: row.registered_country_geoname_id,
        represented_country_geoname_id: row.represented_country_geoname_id,
    }
}

/// Maps an ASN match, if any, into the response document: its network
/// triple, number and organization, each carried over unchanged.
pub fn format_asn(row: Option<AsnRow>) -> (asn: Option<Asn>)
    ensures
        asn == asn_document(row),
{
    match row {
        Some(asn) => Some(
            Asn {
                network: Network {
                    cidr: asn.network,
                    prefix_length: asn.prefix_length,
                    ip_version: asn.ip_version,
                },
                number: asn.autonomous_system_number,
                organization: asn.autonomous_system_organization,
            },
        ),
        None => None,
    }
}

} // verus!
