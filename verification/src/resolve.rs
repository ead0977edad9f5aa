//! The resolution engine: from the text of an address to an outcome.
//!
//! An address is encoded first. Only then is the store consulted: the ASN
//! lookup runs on its own, the city lookup decides the outcome when it
//! matches, and the country lookup is the fallback. Without a geographic
//! match the outcome is `NotFound`, whether or not an ASN block matched.

use crate::ip_key::{ip_key_of, parse_ip, InvalidAddress, IpKey};
use crate::rows::{AsnRow, CityRow, CountryRow};
use crate::store::{
    asn_match, city_match, country_match, lookup_asn, lookup_city, lookup_country, RangeStore,
};
use vstd::prelude::*;
use vstd::string::StringSliceAdditionalSpecFns;

verus! {

/// Why a store could not be consulted.
#[derive(Debug, Clone, Copy, PartialEq, Eq)]
pub enum StoreError {
    /// There is no store at the configured place.
    NotFound,
    /// There is a store, but it could not be opened.
    OpenFailed,
}

/// Why a request holds no usable address.
#[derive(Debug, Clone, Copy, PartialEq, Eq)]
pub enum BadInput {
    /// The address parameter is absent or empty.
    MissingParameter,
    /// The address parameter has no key.
    Invalid(InvalidAddress),
}

/// Every way in which a request ends without a document.
#[derive(Debug, Clone, Copy, PartialEq, Eq)]
pub enum Failure {
    /// The caller must correct the request.
    BadInput(BadInput),
    /// The operator must restore the store.
    StoreUnavailable(StoreError),
    /// The address is well formed and no geographic range holds it.
    NotFound,
    /// The request went to a path that does not exist.
    RouteNotFound,
}

/// The geographic match of a resolution, from the more specific dataset
/// that has one.
#[derive(Debug, PartialEq, Eq)]
pub enum GeoMatch {
    City(CityRow),
    Country(CountryRow),
}

/// What a successful resolution found.
#[derive(Debug, PartialEq, Eq)]
pub struct Resolved {
    pub key: IpKey,
    pub geo: GeoMatch,
    pub asn: Option<AsnRow>,
}

/// How a resolution ended.
#[derive(Debug, PartialEq, Eq)]
pub enum Outcome {
    Found(Resolved),
    Failed(Failure),
}

/// The outcome for a key in an open store: the city match if there is one,
/// else the country match, each with the ASN match beside it; `NotFound`
/// when neither geographic dataset covers the key.
pub open spec fn key_resolution(store: RangeStore, key: IpKey, locale: Seq<char>) -> Outcome {
    let asn = asn_match(store.asn_blocks@, key.version, key.key);
    match city_match(store.city_blocks@, store.city_locations@, key.version, key.key, locale) {
        Some(city) => Outcome::Found(Resolved { key, geo: GeoMatch::City(city), asn }),
        None => match country_match(
            store.country_blocks@,
            store.country_locations@,
            key.version,
            key.key,
            locale,
        ) {
            Some(country) => Outcome::Found(Resolved { key, geo: GeoMatch::Country(country), asn }),
            None => Outcome::Failed(Failure::NotFound),
        },
    }
}

/// The outcome for the bytes of an address: `BadInput` when they have no
/// key, else `StoreUnavailable` when the store could not be had, else the
/// outcome for the key in the store.
pub open spec fn resolution(
    ip: Seq<u8>,
    store: Result<RangeStore, StoreError>,
    locale: Seq<char>,
) -> Outcome {
    match ip_key_of(ip) {
        Err(reason) => Outcome::Failed(Failure::BadInput(BadInput::Invalid(reason))),
        Ok(key) => match store {
            Err(reason) => Outcome::Failed(Failure::StoreUnavailable(reason)),
            Ok(open) => key_resolution(open, key, locale),
        },
    }
}

/// Resolves a key in an open store.
///
/// The ASN match is carried into a `Found` outcome whatever geographic
/// dataset matched. A city match is preferred to a country match.
pub fn resolve_key(store: &RangeStore, key: IpKey, locale: &str) -> (outcome: Outcome)
    ensures
        outcome == key_resolution(*store, key, locale@),
{
    let asn = lookup_asn(store, key.version, key.key);
    if let Some(city) = lookup_city(store, key.version, key.key, locale) {
        return Outcome::Found(Resolved { key, geo: GeoMatch::City(city), asn });
    }
    if let Some(country) = lookup_country(store, key.version, key.key, locale) {
        return Outcome::Found(Resolved { key, geo: GeoMatch::Country(country), asn });
    }
    Outcome::Failed(Failure::NotFound)
}

/// Resolves the text of an address.
///
/// `store` is the store as the caller could obtain it. It is looked at only
/// once the address has a key, so a bad address is reported as such even
/// when the store is unavailable.
pub fn resolve(ip: &str, store: &Result<RangeStore, StoreError>, locale: &str) -> (outcome:
    Outcome)
    ensures
        outcome == resolution(ip.spec_bytes(), *store, locale@),
{
    let key = match parse_ip(ip) {
        Ok(key) => key,
        Err(reason) => {
            return Outcome::Failed(Failure::BadInput(BadInput::Invalid(reason)));
        },
    };
    match store {
        Ok(open) => resolve_key(open, key, locale),
        Err(reason) => Outcome::Failed(Failure::StoreUnavailable(*reason)),
    }
}

/// A city match takes precedence: whenever the city dataset covers a key,
/// the outcome is that city match, whatever the country dataset holds.
pub proof fn lemma_city_takes_precedence(store: RangeStore, key: IpKey, locale: Seq<char>)
    requires
        city_match(store.city_blocks@, store.city_locations@, key.version, key.key, locale)
            is Some,
    ensures
        key_resolution(store, key, locale) matches Outcome::Found(found) && found.geo
            == GeoMatch::City(
            city_match(
                store.city_blocks@,
                store.city_locations@,
                key.version,
                key.key,
                locale,
            )->0,
        ),
{
}

/// The country dataset is the fallback: when the city dataset does not
/// cover a key and the country dataset does, the outcome is that country
/// match.
pub proof fn lemma_country_is_fallback(store: RangeStore, key: IpKey, locale: Seq<char>)
    requires
        city_match(store.city_blocks@, store.city_locations@, key.version, key.key, locale)
            is None,
        country_match(
            store.country_blocks@,
            store.country_locations@,
            key.version,
            key.key,
            locale,
        ) is Some,
    ensures
        key_resolution(store, key, locale) matches Outcome::Found(found) && found.geo
            == GeoMatch::Country(
            country_match(
                store.country_blocks@,
                store.country_locations@,
                key.version,
                key.key,
                locale,
            )->0,
        ),
{
}

/// The ASN match does not depend on the geographic lookups: every `Found`
/// outcome carries the ASN match of its key, so two stores with the same ASN
/// table give the same ASN match whatever their geographic tables and
/// locales are, and whichever of city and country matched.
pub proof fn lemma_asn_independent_of_geo(
    one: RangeStore,
    other: RangeStore,
    key: IpKey,
    one_locale: Seq<char>,
    other_locale: Seq<char>,
)
    requires
        one.asn_blocks@ == other.asn_blocks@,
    ensures
        key_resolution(one, key, one_locale) matches Outcome::Found(found) ==> found.asn
            == asn_match(one.asn_blocks@, key.version, key.key),
        key_resolution(other, key, other_locale) matches Outcome::Found(found) ==> found.asn
            == asn_match(one.asn_blocks@, key.version, key.key),
{
}

/// An ASN match alone is no resolution: a key that neither geographic
/// dataset covers is `NotFound`, whatever the ASN dataset holds.
pub proof fn lemma_asn_alone_is_not_found(store: RangeStore, key: IpKey, locale: Seq<char>)
    requires
        city_match(store.city_blocks@, store.city_locations@, key.version, key.key, locale)
            is None,
        country_match(
            store.country_blocks@,
            store.country_locations@,
            key.version,
            key.key,
            locale,
        ) is None,
    ensures
        key_resolution(store, key, locale) == Outcome::Failed(Failure::NotFound),
{
}

/// A bad address is reported before the store is looked at: the outcome for
/// bytes without a key is the same for every store and locale.
pub proof fn lemma_bad_input_ignores_store(
    ip: Seq<u8>,
    one: Result<RangeStore, StoreError>,
    other: Result<RangeStore, StoreError>,
    one_locale: Seq<char>,
    other_locale: Seq<char>,
)
    requires
        ip_key_of(ip) is Err,
    ensures
        resolution(ip, one, one_locale) == resolution(ip, other, other_locale),
        resolution(ip, one, one_locale) == Outcome::Failed(
            Failure::BadInput(BadInput::Invalid(ip_key_of(ip)->Err_0)),
        ),
{
}

} // verus!
