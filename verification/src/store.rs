//! The range store and its three read-only queries.
//!
//! A store holds the ASN, city and country block tables and the two tables
//! of localized names. Each query picks the authoritative block for a key;
//! the two geographic queries then join the names of the block's geoname in
//! the requested locale, and leave every name absent when there are none.

use crate::rows::{
    copy_text, AsnBlock, AsnRow, CityBlock, CityLocation, CityRow, CountryBlock, CountryLocation,
    CountryRow,
};
use crate::select::{
    best_match, covers, lemma_best_match, lemma_best_match_most_specific, select, spans_of,
};
use vstd::prelude::*;

verus! {

/// The five tables of a range store.
#[derive(Debug, PartialEq, Eq)]
pub struct RangeStore {
    pub asn_blocks: Vec<AsnBlock>,
    pub city_blocks: Vec<CityBlock>,
    pub city_locations: Vec<CityLocation>,
    pub country_blocks: Vec<CountryBlock>,
    pub country_locations: Vec<CountryLocation>,
}

/// A row of localized names, keyed by geoname and locale.
pub trait Localized {
    /// Whether this row holds the names of `geoname_id` in `locale`.
    spec fn describes(&self, geoname_id: i64, locale: Seq<char>) -> bool;

    /// Whether this row holds the names of `geoname_id` in `locale`.
    fn is_for(&self, geoname_id: i64, locale: &String) -> (hit: bool)
        ensures
            hit == self.describes(geoname_id, locale@),
    ;
}

impl Localized for CountryLocation {
    open spec fn describes(&self, geoname_id: i64, locale: Seq<char>) -> bool {
        self.geoname_id == geoname_id && self.locale_code@ == locale
    }

    fn is_for(&self, geoname_id: i64, locale: &String) -> (hit: bool) {
        self.geoname_id == geoname_id && self.locale_code == *locale
    }
}

impl Localized for CityLocation {
    open spec fn describes(&self, geoname_id: i64, locale: Seq<char>) -> bool {
        self.geoname_id == geoname_id && self.locale_code@ == locale
    }

    fn is_for(&self, geoname_id: i64, locale: &String) -> (hit: bool) {
        self.geoname_id == geoname_id && self.locale_code == *locale
    }
}

/// Whether `i` is the first row of `locations` with the names of
/// `geoname_id` in `locale`.
pub open spec fn is_first_names<L: Localized>(
    locations: Seq<L>,
    geoname_id: i64,
    locale: Seq<char>,
    i: int,
) -> bool {
    &&& 0 <= i < locations.len()
    &&& locations[i].describes(geoname_id, locale)
    &&& forall|j: int| 0 <= j < i ==> !(#[trigger] locations[j]).describes(geoname_id, locale)
}

/// The row that a block with `geoname_id` joins to in `locale`: the first
/// one that describes it. A block without a geoname joins to nothing.
pub open spec fn names_index<L: Localized>(
    locations: Seq<L>,
    geoname_id: Option<i64>,
    locale: Seq<char>,
) -> Option<int> {
    match geoname_id {
        Some(id) => if exists|i: int| is_first_names(locations, id, locale, i) {
            Some(choose|i: int| is_first_names(locations, id, locale, i))
        } else {
            None
        },
        None => None,
    }
}

/// `names_index` with the row itself in place of its position.
pub open spec fn names_of<L: Localized>(
    locations: Seq<L>,
    geoname_id: Option<i64>,
    locale: Seq<char>,
) -> Option<L> {
    match names_index(locations, geoname_id, locale) {
        Some(i) => Some(locations[i]),
        None => None,
    }
}

/// The position of the names that a block with `geoname_id` joins to.
fn find_names<L: Localized>(locations: &Vec<L>, geoname_id: Option<i64>, locale: &String) -> (found:
    Option<usize>)
    ensures
        found matches Some(i) ==> i < locations.len(),
        found matches Some(i) ==> names_index(locations@, geoname_id, locale@) == Some(i as int),
        found is None ==> names_index(locations@, geoname_id, locale@) is None,
{
    let id = match geoname_id {
        Some(id) => id,
        None => {
            return None;
        },
    };
    let mut i: usize = 0;
    while i < locations.len()
        invariant
            i <= locations.len(),
            geoname_id == Some(id),
            forall|j: int| 0 <= j < i ==> !(#[trigger] locations@[j]).describes(id, locale@),
        decreases locations.len() - i,
    {
        if locations[i].is_for(id, locale) {
            proof {
                assert(is_first_names(locations@, id, locale@, i as int));
                let k = choose|k: int| is_first_names(locations@, id, locale@, k);
                if k < i {
                    assert(locations@[k].describes(id, locale@));
                } else if i < k {
                    assert(locations@[i as int].describes(id, locale@));
                }
                assert(k == i);
                assert(names_index(locations@, Some(id), locale@) == Some(k));
            }
            return Some(i);
        }
        i += 1;
    }
    proof {
        if exists|k: int| is_first_names(locations@, id, locale@, k) {
            let k = choose|k: int| is_first_names(locations@, id, locale@, k);
            assert(locations@[k].describes(id, locale@));
        }
    }
    None
}

/// The row that an ASN lookup returns for `block`.
pub open spec fn asn_row_of(block: AsnBlock) -> AsnRow {
    AsnRow {
        network: block.network,
        prefix_length: block.span.prefix_length,
        ip_version: block.span.ip_version,
        autonomous_system_number: block.autonomous_system_number,
        autonomous_system_organization: block.autonomous_system_organization,
    }
}

/// The row that a country lookup returns for `block` joined to `names`.
pub open spec fn country_row_of(block: CountryBlock, names: Option<CountryLocation>)
    -> CountryRow {
    CountryRow {
        network: block.network,
        prefix_length: block.span.prefix_length,
        ip_version: block.span.ip_version,
        geoname_id: block.geoname_id,
        registered_country_geoname_id: block.registered_country_geoname_id,
        represented_country_geoname_id: block.represented_country_geoname_id,
        is_anonymous_proxy: block.is_anonymous_proxy,
        is_satellite_provider: block.is_satellite_provider,
        is_anycast: block.is_anycast,
        continent_code: if names is Some { names->0.continent_code } else { None },
        continent_name: if names is Some { names->0.continent_name } else { None },
        country_iso_code: if names is Some { names->0.country_iso_code } else { None },
        country_name: if names is Some { names->0.country_name } else { None },
        is_in_european_union: if names is Some { names->0.is_in_european_union } else { None },
    }
}

/// The row that a city lookup returns for `block` joined to `names`.
pub open spec fn city_row_of(block: CityBlock, names: Option<CityLocation>) -> CityRow {
    CityRow {
        network: block.network,
        prefix_length: block.span.prefix_length,
        ip_version: block.span.ip_version,
        geoname_id: block.geoname_id,
        registered_country_geoname_id: block.registered_country_geoname_id,
        represented_country_geoname_id: block.represented_country_geoname_id,
        is_anonymous_proxy: block.is_anonymous_proxy,
        is_satellite_provider: block.is_satellite_provider,
        is_anycast: block.is_anycast,
        postal_code: block.postal_code,
        latitude: block.latitude,
        longitude: block.longitude,
        accuracy_radius: block.accuracy_radius,
        continent_code: if names is Some { names->0.continent_code } else { None },
        continent_name: if names is Some { names->0.continent_name } else { None },
        country_iso_code: if names is Some { names->0.country_iso_code } else { None },
        country_name: if names is Some { names->0.country_name } else { None },
        subdivision_1_iso_code: if names is Some { names->0.subdivision_1_iso_code } else { None },
        subdivision_1_name: if names is Some { names->0.subdivision_1_name } else { None },
        subdivision_2_iso_code: if names is Some { names->0.subdivision_2_iso_code } else { None },
        subdivision_2_name: if names is Some { names->0.subdivision_2_name } else { None },
        city_name: if names is Some { names->0.city_name } else { None },
        metro_code: if names is Some { names->0.metro_code } else { None },
        time_zone: if names is Some { names->0.time_zone } else { None },
        is_in_european_union: if names is Some { names->0.is_in_european_union } else { None },
    }
}

/// The ASN match for a key: the row of the authoritative block, if any
/// block covers the key.
pub open spec fn asn_match(blocks: Seq<AsnBlock>, version: i64, key: i64) -> Option<AsnRow> {
    match best_match(spans_of(blocks), version, key) {
        Some(i) => Some(asn_row_of(blocks[i])),
        None => None,
    }
}

/// The country match for a key: the authoritative block, if any block covers
/// the key, joined to the names of its geoname in `locale`.
pub open spec fn country_match(
    blocks: Seq<CountryBlock>,
    locations: Seq<CountryLocation>,
    version: i64,
    key: i64,
    locale: Seq<char>,
) -> Option<CountryRow> {
    match best_match(spans_of(blocks), version, key) {
        Some(i) => Some(
            country_row_of(blocks[i], names_of(locations, blocks[i].geoname_id, locale)),
        ),
        None => None,
    }
}

/// The city match for a key: the authoritative block, if any block covers
/// the key, joined to the names of its geoname in `locale`.
pub open spec fn city_match(
    blocks: Seq<CityBlock>,
    locations: Seq<CityLocation>,
    version: i64,
    key: i64,
    locale: Seq<char>,
) -> Option<CityRow> {
    match best_match(spans_of(blocks), version, key) {
        Some(i) => Some(city_row_of(blocks[i], names_of(locations, blocks[i].geoname_id, locale))),
        None => None,
    }
}

/// Longest-prefix match on the ASN dataset: whenever a block covers the
/// key there is a match, and its prefix length is at least that of every
/// block that covers the key.
pub proof fn lemma_asn_match_most_specific(blocks: Seq<AsnBlock>, version: i64, key: i64, j: int)
    requires
        0 <= j < blocks.len(),
        covers(blocks[j].span, version, key),
    ensures
        asn_match(blocks, version, key) matches Some(row) && row.prefix_length
            >= blocks[j].span.prefix_length,
{
    assert(spans_of(blocks)[j] == blocks[j].span);
    lemma_best_match_most_specific(spans_of(blocks), version, key, j);
}

/// Longest-prefix match on the country dataset: whenever a block covers the
/// key there is a match, and its prefix length is at least that of every
/// block that covers the key.
pub proof fn lemma_country_match_most_specific(
    blocks: Seq<CountryBlock>,
    locations: Seq<CountryLocation>,
    version: i64,
    key: i64,
    locale: Seq<char>,
    j: int,
)
    requires
        0 <= j < blocks.len(),
        covers(blocks[j].span, version, key),
    ensures
        country_match(blocks, locations, version, key, locale) matches Some(row)
            && row.prefix_length >= blocks[j].span.prefix_length,
{
    assert(spans_of(blocks)[j] == blocks[j].span);
    lemma_best_match_most_specific(spans_of(blocks), version, key, j);
}

/// Longest-prefix match on the city dataset: whenever a block covers the
/// key there is a match, and its prefix length is at least that of every
/// block that covers the key.
pub proof fn lemma_city_match_most_specific(
    blocks: Seq<CityBlock>,
    locations: Seq<CityLocation>,
    version: i64,
    key: i64,
    locale: Seq<char>,
    j: int,
)
    requires
        0 <= j < blocks.len(),
        covers(blocks[j].span, version, key),
    ensures
        city_match(blocks, locations, version, key, locale) matches Some(row) && row.prefix_length
            >= blocks[j].span.prefix_length,
{
    assert(spans_of(blocks)[j] == blocks[j].span);
    lemma_best_match_most_specific(spans_of(blocks), version, key, j);
}

/// The locale of the names when none is configured.
pub const DEFAULT_LOCALE: &'static str = "en";

/// The locale to look names up in: the configured one, or `en` when none
/// is configured.
pub fn locale_or_default(configured: Option<String>) -> (locale: String)
    ensures
        configured matches Some(given) ==> locale == given,
        configured is None ==> locale@ == DEFAULT_LOCALE@,
{
    match configured {
        Some(given) => given,
        None => DEFAULT_LOCALE.to_owned(),
    }
}

fn asn_row(block: &AsnBlock) -> (row: AsnRow)
    ensures
        row == asn_row_of(*block),
{
    AsnRow {
        network: block.network.clone(),
        prefix_length: block.span.prefix_length,
        ip_version: block.span.ip_version,
        autonomous_system_number: block.autonomous_system_number,
        autonomous_system_organization: copy_text(&block.autonomous_system_organization),
    }
}

fn country_row(block: &CountryBlock, names: Option<&CountryLocation>) -> (row: CountryRow)
    ensures
        names matches Some(n) ==> row == country_row_of(*block, Some(*n)),
        names is None ==> row == country_row_of(*block, None),
{
    let (continent_code, continent_name, country_iso_code, country_name, is_in_european_union) =
        match names {
        Some(n) => (
            copy_text(&n.continent_code),
            copy_text(&n.continent_name),
            copy_text(&n.country_iso_code),
            copy_text(&n.country_name),
            n.is_in_european_union,
        ),
        None => (None, None, None, None, None),
    };
    CountryRow {
        network: block.network.clone(),
        prefix_length: block.span.prefix_length,
        ip_version: block.span.ip_version,
        geoname_id: block.geoname_id,
        registered_country_geoname_id: block.registered_country_geoname_id,
        represented_country_geoname_id: block.represented_country_geoname_id,
        is_anonymous_proxy: block.is_anonymous_proxy,
        is_satellite_provider: block.is_satellite_provider,
        is_anycast: block.is_anycast,
        continent_code,
        continent_name,
        country_iso_code,
        country_name,
        is_in_european_union,
    }
}

fn city_row(block: &CityBlock, names: Option<&CityLocation>) -> (row: CityRow)
    ensures
        names matches Some(n) ==> row == city_row_of(*block, Some(*n)),
        names is None ==> row == city_row_of(*block, None),
{
    let mut row = CityRow {
        network: block.network.clone(),
        prefix_length: block.span.prefix_length,
        ip_version: block.span.ip_version,
        geoname_id: block.geoname_id,
        registered_country_geoname_id: block.registered_country_geoname_id,
        represented_country_geoname_id: block.represented_country_geoname_id,
        is_anonymous_proxy: block.is_anonymous_proxy,
        is_satellite_provider: block.is_satellite_provider,
        is_anycast: block.is_anycast,
        postal_code: copy_text(&block.postal_code),
        latitude: block.latitude,
        longitude: block.longitude,
        accuracy_radius: block.accuracy_radius,
        continent_code: None,
        continent_name: None,
        country_iso_code: None,
        country_name: None,
        subdivision_1_iso_code: None,
        subdivision_1_name: None,
        subdivision_2_iso_code: None,
        subdivision_2_name: None,
        city_name: None,
        metro_code: None,
        time_zone: None,
        is_in_european_union: None,
    };
    if let Some(n) = names {
        row.continent_code = copy_text(&n.continent_code);
        row.continent_name = copy_text(&n.continent_name);
        row.country_iso_code = copy_text(&n.country_iso_code);
        row.country_name = copy_text(&n.country_name);
        row.subdivision_1_iso_code = copy_text(&n.subdivision_1_iso_code);
        row.subdivision_1_name = copy_text(&n.subdivision_1_name);
        row.subdivision_2_iso_code = copy_text(&n.subdivision_2_iso_code);
        row.subdivision_2_name = copy_text(&n.subdivision_2_name);
        row.city_name = copy_text(&n.city_name);
        row.metro_code = copy_text(&n.metro_code);
        row.time_zone = copy_text(&n.time_zone);
        row.is_in_european_union = n.is_in_european_union;
    }
    row
}

/// Looks up the network that owns a key.
///
/// Returns the row of the most specific ASN block of family `ip_version`
/// whose range holds `ip_key`, and `None` when no ASN block covers the key.
/// The geographic tables play no part.
pub fn lookup_asn(store: &RangeStore, ip_version: i64, ip_key: i64) -> (row: Option<AsnRow>)
    ensures
        row == asn_match(store.asn_blocks@, ip_version, ip_key),
{
    match select(&store.asn_blocks, ip_version, ip_key) {
        Some(i) => {
            proof {
                lemma_best_match(spans_of(store.asn_blocks@), ip_version, ip_key);
            }
            Some(asn_row(&store.asn_blocks[i]))
        },
        None => None,
    }
}

/// Looks up the city-level record of a key.
///
/// Returns the most specific city block of family `ip_version` whose range
/// holds `ip_key`, joined to the names of its geoname in `locale`; the names
/// are absent when the store has none for that geoname and locale. Returns
/// `None` when no city block covers the key.
pub fn lookup_city(store: &RangeStore, ip_version: i64, ip_key: i64, locale: &str) -> (row: Option<
    CityRow,
>)
    ensures
        row == city_match(
            store.city_blocks@,
            store.city_locations@,
            ip_version,
            ip_key,
            locale@,
        ),
{
    match select(&store.city_blocks, ip_version, ip_key) {
        Some(i) => {
            proof {
                lemma_best_match(spans_of(store.city_blocks@), ip_version, ip_key);
            }
            let block = &store.city_blocks[i];
            let wanted = locale.to_owned();
            match find_names(&store.city_locations, block.geoname_id, &wanted) {
                Some(n) => Some(city_row(block, Some(&store.city_locations[n]))),
                None => Some(city_row(block, None)),
            }
        },
        None => None,
    }
}

/// Looks up the country-level record of a key.
///
/// Returns the most specific country block of family `ip_version` whose
/// range holds `ip_key`, joined to the names of its geoname in `locale`; the
/// names are absent when the store has none for that geoname and locale.
/// Returns `None` when no country block covers the key.
pub fn lookup_country(store: &RangeStore, ip_version: i64, ip_key: i64, locale: &str) -> (row:
    Option<CountryRow>)
    ensures
        row == country_match(
            store.country_blocks@,
            store.country_locations@,
            ip_version,
            ip_key,
            locale@,
        ),
{
    match select(&store.country_blocks, ip_version, ip_key) {
        Some(i) => {
            proof {
                lemma_best_match(spans_of(store.country_blocks@), ip_version, ip_key);
            }
            let block = &store.country_blocks[i];
            let wanted = locale.to_owned();
            match find_names(&store.country_locations, block.geoname_id, &wanted) {
                Some(n) => Some(country_row(block, Some(&store.country_locations[n]))),
                None => Some(country_row(block, None)),
            }
        },
        None => None,
    }
}

} // verus!
