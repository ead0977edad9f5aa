//! Records held by the range datasets, and the rows a lookup hands back.
//!
//! Every table row is a plain value. Text columns are `String`, nullable
//! columns are `Option`, and a geographic coordinate is carried as the bit
//! pattern of its IEEE 754 double so that it passes through unchanged.

use vstd::prelude::*;

verus! {

/// A latitude or longitude, held as the 64 bits of its IEEE 754 encoding.
#[derive(Debug, Clone, Copy, PartialEq, Eq)]
pub struct Degrees {
    pub bits: u64,
}

/// The part of a block that decides whether and how well it matches a key:
/// the address family, the inclusive key range, and the CIDR prefix length.
#[derive(Debug, Clone, Copy, PartialEq, Eq)]
pub struct Span {
    pub ip_version: i64,
    pub network_start: i64,
    pub network_end: i64,
    pub prefix_length: i64,
}

/// One row of the ASN block table.
#[derive(Debug, PartialEq, Eq)]
pub struct AsnBlock {
    pub span: Span,
    pub network: String,
    pub autonomous_system_number: Option<i64>,
    pub autonomous_system_organization: Option<String>,
}

/// One row of the country block table.
#[derive(Debug, PartialEq, Eq)]
pub struct CountryBlock {
    pub span: Span,
    pub network: String,
    pub geoname_id: Option<i64>,
    pub registered_country_geoname_id: Option<i64>,
    pub represented_country_geoname_id: Option<i64>,
    pub is_anonymous_proxy: Option<i64>,
    pub is_satellite_provider: Option<i64>,
    pub is_anycast: Option<i64>,
}

/// One row of the city block table.
#[derive(Debug, PartialEq, Eq)]
pub struct CityBlock {
    pub span: Span,
    pub network: String,
    pub geoname_id: Option<i64>,
    pub registered_country_geoname_id: Option<i64>,
    pub represented_country_geoname_id: Option<i64>,
    pub is_anonymous_proxy: Option<i64>,
    pub is_satellite_provider: Option<i64>,
    pub is_anycast: Option<i64>,
    pub postal_code: Option<String>,
    pub latitude: Option<Degrees>,
    pub longitude: Option<Degrees>,
    pub accuracy_radius: Option<i64>,
}

/// The localized names of one country, for one locale.
#[derive(Debug, PartialEq, Eq)]
pub struct CountryLocation {
    pub geoname_id: i64,
    pub locale_code: String,
    pub continent_code: Option<String>,
    pub continent_name: Option<String>,
    pub country_iso_code: Option<String>,
    pub country_name: Option<String>,
    pub is_in_european_union: Option<i64>,
}

/// The localized names of one city and of what contains it, for one locale.
#[derive(Debug, PartialEq, Eq)]
pub struct CityLocation {
    pub geoname_id: i64,
    pub locale_code: String,
    pub continent_code: Option<String>,
    pub continent_name: Option<String>,
    pub country_iso_code: Option<String>,
    pub country_name: Option<String>,
    pub subdivision_1_iso_code: Option<String>,
    pub subdivision_1_name: Option<String>,
    pub subdivision_2_iso_code: Option<String>,
    pub subdivision_2_name: Option<String>,
    pub city_name: Option<String>,
    pub metro_code: Option<String>,
    pub time_zone: Option<String>,
    pub is_in_european_union: Option<i64>,
}

/// The result of an ASN lookup: the matched block without its key range.
#[derive(Debug, PartialEq, Eq)]
pub struct AsnRow {
    pub network: String,
    pub prefix_length: i64,
    pub ip_version: i64,
    pub autonomous_system_number: Option<i64>,
    pub autonomous_system_organization: Option<String>,
}

/// The result of a country lookup: the matched block joined with the names
/// of its country in the requested locale, where such names exist.
#[derive(Debug, PartialEq, Eq)]
pub struct CountryRow {
    pub network: String,
    pub prefix_length: i64,
    pub ip_version: i64,
    pub geoname_id: Option<i64>,
    pub registered_country_geoname_id: Option<i64>,
    pub represented_country_geoname_id: Option<i64>,
    pub is_anonymous_proxy: Option<i64>,
    pub is_satellite_provider: Option<i64>,
    pub is_anycast: Option<i64>,
    pub continent_code: Option<String>,
    pub continent_name: Option<String>,
    pub country_iso_code: Option<String>,
    pub country_name: Option<String>,
    pub is_in_european_union: Option<i64>,
}

/// The result of a city lookup: the matched block joined with the names of
/// its city in the requested locale, where such names exist.
#[derive(Debug, PartialEq, Eq)]
pub struct CityRow {
    pub network: String,
    pub prefix_length: i64,
    pub ip_version: i64,
    pub geoname_id: Option<i64>,
    pub registered_country_geoname_id: Option<i64>,
    pub represented_country_geoname_id: Option<i64>,
    pub is_anonymous_proxy: Option<i64>,
    pub is_satellite_provider: Option<i64>,
    pub is_anycast: Option<i64>,
    pub postal_code: Option<String>,
    pub latitude: Option<Degrees>,
    pub longitude: Option<Degrees>,
    pub accuracy_radius: Option<i64>,
    pub continent_code: Option<String>,
    pub continent_name: Option<String>,
    pub country_iso_code: Option<String>,
    pub country_name: Option<String>,
    pub subdivision_1_iso_code: Option<String>,
    pub subdivision_1_name: Option<String>,
    pub subdivision_2_iso_code: Option<String>,
    pub subdivision_2_name: Option<String>,
    pub city_name: Option<String>,
    pub metro_code: Option<String>,
    pub time_zone: Option<String>,
    pub is_in_european_union: Option<i64>,
}

/// A copy of an optional text column.
pub fn copy_text(text: &Option<String>) -> (copy: Option<String>)
    ensures
        copy == *text,
{
    match text {
        Some(s) => Some(s.clone()),
        None => None,
    }
}

impl Clone for AsnBlock {
    fn clone(&self) -> (copy: Self)
        ensures
            copy == *self,
    {
        AsnBlock {
            span: self.span,
            network: self.network.clone(),
            autonomous_system_number: self.autonomous_system_number,
            autonomous_system_organization: copy_text(&self.autonomous_system_organization),
        }
    }
}

impl Clone for CountryBlock {
    fn clone(&self) -> (copy: Self)
        ensures
            copy == *self,
    {
        CountryBlock {
            span: self.span,
            network: self.network.clone(),
            geoname_id: self.geoname_id,
            registered_country_geoname_id: self.registered_country_geoname_id,
            represented_country_geoname_id: self.represented_country_geoname_id,
            is_anonymous_proxy: self.is_anonymous_proxy,
            is_satellite_provider: self.is_satellite_provider,
            is_anycast: self.is_anycast,
        }
    }
}

impl Clone for CityBlock {
    fn clone(&self) -> (copy: Self)
        ensures
            copy == *self,
    {
        CityBlock {
            span: self.span,
            network: self.network.clone(),
            geoname_id: self.geoname_id,
            registered_country_geoname_id: self.registered_country_geoname_id,
            represented_country_geoname_id: self.represented_country_geoname_id,
            is_anonymous_proxy: self.is_anonymous_proxy,
            is_satellite_provider: self.is_satellite_provider,
            is_anycast: self.is_anycast,
            postal_code: copy_text(&self.postal_code),
            latitude: self.latitude,
            longitude: self.longitude,
            accuracy_radius: self.accuracy_radius,
        }
    }
}

impl Clone for CountryLocation {
    fn clone(&self) -> (copy: Self)
        ensures
            copy == *self,
    {
        CountryLocation {
            geoname_id: self.geoname_id,
            locale_code: self.locale_code.clone(),
            continent_code: copy_text(&self.continent_code),
            continent_name: copy_text(&self.continent_name),
            country_iso_code: copy_text(&self.country_iso_code),
            country_name: copy_text(&self.country_name),
            is_in_european_union: self.is_in_european_union,
        }
    }
}

impl Clone for CityLocation {
    fn clone(&self) -> (copy: Self)
        ensures
            copy == *self,
    {
        CityLocation {
            geoname_id: self.geoname_id,
            locale_code: self.locale_code.clone(),
            continent_code: copy_text(&self.continent_code),
            continent_name: copy_text(&self.continent_name),
            country_iso_code: copy_text(&self.country_iso_code),
            country_name: copy_text(&self.country_name),
            subdivision_1_iso_code: copy_text(&self.subdivision_1_iso_code),
            subdivision_1_name: copy_text(&self.subdivision_1_name),
            subdivision_2_iso_code: copy_text(&self.subdivision_2_iso_code),
            subdivision_2_name: copy_text(&self.subdivision_2_name),
            city_name: copy_text(&self.city_name),
            metro_code: copy_text(&self.metro_code),
            time_zone: copy_text(&self.time_zone),
            is_in_european_union: self.is_in_european_union,
        }
    }
}

impl Clone for AsnRow {
    fn clone(&self) -> (copy: Self)
        ensures
            copy == *self,
    {
        AsnRow {
            network: self.network.clone(),
            prefix_length: self.prefix_length,
            ip_version: self.ip_version,
            autonomous_system_number: self.autonomous_system_number,
            autonomous_system_organization: copy_text(&self.autonomous_system_organization),
        }
    }
}

impl Clone for CountryRow {
    fn clone(&self) -> (copy: Self)
        ensures
            copy == *self,
    {
        CountryRow {
            network: self.network.clone(),
            prefix_length: self.prefix_length,
            ip_version: self.ip_version,
            geoname_id: self.geoname_id,
            registered_country_geoname_id: self.registered_country_geoname_id,
            represented_country_geoname_id: self.represented_country_geoname_id,
            is_anonymous_proxy: self.is_anonymous_proxy,
            is_satellite_provider: self.is_satellite_provider,
            is_anycast: self.is_anycast,
            continent_code: copy_text(&self.continent_code),
            continent_name: copy_text(&self.continent_name),
            country_iso_code: copy_text(&self.country_iso_code),
            country_name: copy_text(&self.country_name),
            is_in_european_union: self.is_in_european_union,
        }
    }
}

impl Clone for CityRow {
    fn clone(&self) -> (copy: Self)
        ensures
            copy == *self,
    {
        CityRow {
            network: self.network.clone(),
            prefix_length: self.prefix_length,
            ip_version: self.ip_version,
            geoname_id: self.geoname_id,
            registered_country_geoname_id: self.registered_country_geoname_id,
            represented_country_geoname_id: self.represented_country_geoname_id,
            is_anonymous_proxy: self.is_anonymous_proxy,
            is_satellite_provider: self.is_satellite_provider,
            is_anycast: self.is_anycast,
            postal_code: copy_text(&self.postal_code),
            latitude: self.latitude,
            longitude: self.longitude,
            accuracy_radius: self.accuracy_radius,
            continent_code: copy_text(&self.continent_code),
            continent_name: copy_text(&self.continent_name),
            country_iso_code: copy_text(&self.country_iso_code),
            country_name: copy_text(&self.country_name),
            subdivision_1_iso_code: copy_text(&self.subdivision_1_iso_code),
            subdivision_1_name: copy_text(&self.subdivision_1_name),
            subdivision_2_iso_code: copy_text(&self.subdivision_2_iso_code),
            subdivision_2_name: copy_text(&self.subdivision_2_name),
            city_name: copy_text(&self.city_name),
            metro_code: copy_text(&self.metro_code),
            time_zone: copy_text(&self.time_zone),
            is_in_european_union: self.is_in_european_union,
        }
    }
}

} // verus!
