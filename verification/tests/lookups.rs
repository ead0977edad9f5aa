use geoip_lookup::rows::{
    AsnBlock, AsnRow, CityBlock, CityLocation, CityRow, CountryBlock, CountryLocation,
    CountryRow, Degrees, Span,
};
use geoip_lookup::select::select;
use geoip_lookup::store::{
    locale_or_default, lookup_asn, lookup_city, lookup_country, RangeStore,
};

fn span(ip_version: i64, network_start: i64, network_end: i64, prefix_length: i64) -> Span {
    Span { ip_version, network_start, network_end, prefix_length }
}

fn text(s: &str) -> Option<String> {
    Some(s.to_string())
}

fn asn_block(span: Span, network: &str, number: Option<i64>, org: Option<&str>) -> AsnBlock {
    AsnBlock {
        span,
        network: network.to_string(),
        autonomous_system_number: number,
        autonomous_system_organization: org.map(|o| o.to_string()),
    }
}

fn country_block(span: Span, network: &str, geoname_id: Option<i64>) -> CountryBlock {
    CountryBlock {
        span,
        network: network.to_string(),
        geoname_id,
        registered_country_geoname_id: Some(6252001),
        represented_country_geoname_id: None,
        is_anonymous_proxy: Some(0),
        is_satellite_provider: Some(0),
        is_anycast: None,
    }
}

fn city_block(span: Span, network: &str, geoname_id: Option<i64>) -> CityBlock {
    CityBlock {
        span,
        network: network.to_string(),
        geoname_id,
        registered_country_geoname_id: Some(6252001),
        represented_country_geoname_id: None,
        is_anonymous_proxy: Some(0),
        is_satellite_provider: Some(1),
        is_anycast: None,
        postal_code: text("94043"),
        latitude: Some(Degrees { bits: 37.4056f64.to_bits() }),
        longitude: Some(Degrees { bits: (-122.0775f64).to_bits() }),
        accuracy_radius: Some(1000),
    }
}

fn country_names(geoname_id: i64, locale: &str, name: &str) -> CountryLocation {
    CountryLocation {
        geoname_id,
        locale_code: locale.to_string(),
        continent_code: text("NA"),
        continent_name: text("North America"),
        country_iso_code: text("US"),
        country_name: text(name),
        is_in_european_union: Some(0),
    }
}

fn city_names(geoname_id: i64, locale: &str, city: &str) -> CityLocation {
    CityLocation {
        geoname_id,
        locale_code: locale.to_string(),
        continent_code: text("NA"),
        continent_name: text("North America"),
        country_iso_code: text("US"),
        country_name: text("United States"),
        subdivision_1_iso_code: text("CA"),
        subdivision_1_name: text("California"),
        subdivision_2_iso_code: None,
        subdivision_2_name: None,
        city_name: text(city),
        metro_code: text("807"),
        time_zone: text("America/Los_Angeles"),
        is_in_european_union: Some(0),
    }
}

fn empty_store() -> RangeStore {
    RangeStore {
        asn_blocks: vec![],
        city_blocks: vec![],
        city_locations: vec![],
        country_blocks: vec![],
        country_locations: vec![],
    }
}

fn nested_asn_store() -> RangeStore {
    let mut store = empty_store();
    store.asn_blocks = vec![
        asn_block(span(4, 0x0100_0000, 0x01ff_ffff, 8), "1.0.0.0/8", Some(100), Some("Wide")),
        asn_block(span(4, 0x0102_0000, 0x0102_ffff, 16), "1.2.0.0/16", Some(200), Some("Mid")),
        asn_block(span(4, 0x0102_0300, 0x0102_03ff, 24), "1.2.3.0/24", Some(300), None),
        asn_block(span(6, 0x0102_0300, 0x0102_03ff, 64), "::102:300/64", None, Some("Six")),
        asn_block(span(4, 0x0102_0300, 0x0102_03ff, 24), "1.2.3.0/24", Some(301), Some("Twin")),
    ];
    store
}

#[test]
fn select_takes_the_longest_prefix() {
    let store = nested_asn_store();
    assert_eq!(select(&store.asn_blocks, 4, 0x0102_0304), Some(2));
    assert_eq!(select(&store.asn_blocks, 4, 0x0102_0404), Some(1));
    assert_eq!(select(&store.asn_blocks, 4, 0x0103_0000), Some(0));
    assert_eq!(select(&store.asn_blocks, 4, 0x0200_0000), None);
    assert_eq!(select(&store.asn_blocks, 6, 0x0102_0304), Some(3));
    assert_eq!(select(&store.asn_blocks, 5, 0x0102_0304), None);
}

#[test]
fn select_on_an_empty_table_finds_nothing() {
    let blocks: Vec<AsnBlock> = vec![];
    assert_eq!(select(&blocks, 4, 0), None);
}

#[test]
fn select_takes_the_first_of_equal_prefixes() {
    let blocks = vec![
        asn_block(span(4, 10, 20, 24), "a", None, None),
        asn_block(span(4, 10, 20, 24), "b", None, None),
        asn_block(span(4, 0, 100, 8), "c", None, None),
    ];
    assert_eq!(select(&blocks, 4, 15), Some(0));
    let blocks = vec![
        asn_block(span(4, 0, 100, 8), "c", None, None),
        asn_block(span(4, 10, 20, 24), "b", None, None),
        asn_block(span(4, 10, 20, 24), "a", None, None),
    ];
    assert_eq!(select(&blocks, 4, 15), Some(1));
}

#[test]
fn select_takes_the_longest_prefix_in_any_table_order() {
    let blocks = vec![
        asn_block(span(4, 10, 20, 30), "narrow", None, None),
        asn_block(span(4, 0, 100, 8), "wide", None, None),
    ];
    assert_eq!(select(&blocks, 4, 15), Some(0));
    assert_eq!(select(&blocks, 4, 50), Some(1));
}

#[test]
fn range_ends_are_inclusive() {
    let blocks = vec![asn_block(span(4, 10, 20, 24), "a", None, None)];
    assert_eq!(select(&blocks, 4, 9), None);
    assert_eq!(select(&blocks, 4, 10), Some(0));
    assert_eq!(select(&blocks, 4, 20), Some(0));
    assert_eq!(select(&blocks, 4, 21), None);
}

#[test]
fn negative_prefix_lengths_still_order() {
    let blocks = vec![
        asn_block(span(4, 0, 100, -5), "a", None, None),
        asn_block(span(4, 0, 100, -1), "b", None, None),
    ];
    assert_eq!(select(&blocks, 4, 15), Some(1));
}

#[test]
fn asn_lookup_returns_the_most_specific_row() {
    let store = nested_asn_store();
    assert_eq!(
        lookup_asn(&store, 4, 0x0102_0304),
        Some(AsnRow {
            network: "1.2.3.0/24".to_string(),
            prefix_length: 24,
            ip_version: 4,
            autonomous_system_number: Some(300),
            autonomous_system_organization: None,
        })
    );
    assert_eq!(
        lookup_asn(&store, 4, 0x0109_0000),
        Some(AsnRow {
            network: "1.0.0.0/8".to_string(),
            prefix_length: 8,
            ip_version: 4,
            autonomous_system_number: Some(100),
            autonomous_system_organization: text("Wide"),
        })
    );
    assert_eq!(lookup_asn(&store, 4, 0x0300_0000), None);
    assert_eq!(lookup_asn(&empty_store(), 4, 0x0102_0304), None);
}

#[test]
fn asn_lookup_prefix_is_at_least_every_candidate() {
    let store = nested_asn_store();
    for key in [0x0100_0000i64, 0x0102_0000, 0x0102_0300, 0x0102_03ff, 0x0102_0400, 0x01ff_ffff] {
        let row = lookup_asn(&store, 4, key).unwrap();
        for block in &store.asn_blocks {
            let s = block.span;
            if s.ip_version == 4 && s.network_start <= key && key <= s.network_end {
                assert!(row.prefix_length >= s.prefix_length);
            }
        }
    }
}

fn geo_store() -> RangeStore {
    let mut store = empty_store();
    store.city_blocks = vec![
        city_block(span(4, 0x0800_0000, 0x08ff_ffff, 8), "8.0.0.0/8", Some(1)),
        city_block(span(4, 0x0808_0800, 0x0808_08ff, 24), "8.8.8.0/24", Some(5375480)),
        city_block(span(4, 0x0909_0900, 0x0909_09ff, 24), "9.9.9.0/24", None),
        city_block(span(4, 0x0a0a_0a00, 0x0a0a_0aff, 24), "10.10.10.0/24", Some(77)),
    ];
    store.city_locations = vec![
        city_names(5375480, "de", "Mountain View (de)"),
        city_names(1, "en", "Somewhere"),
        city_names(5375480, "en", "Mountain View"),
        city_names(5375480, "en", "Second Mountain View"),
    ];
    store.country_blocks = vec![
        country_block(span(4, 0x0800_0000, 0x08ff_ffff, 8), "8.0.0.0/8", Some(6252001)),
        country_block(span(4, 0x0b00_0000, 0x0bff_ffff, 8), "11.0.0.0/8", Some(6252001)),
        country_block(span(4, 0x0c00_0000, 0x0cff_ffff, 8), "12.0.0.0/8", Some(42)),
        country_block(span(4, 0x0d00_0000, 0x0dff_ffff, 8), "13.0.0.0/8", None),
    ];
    store.country_locations = vec![
        country_names(6252001, "fr", "Etats-Unis"),
        country_names(6252001, "en", "United States"),
    ];
    store
}

#[test]
fn city_lookup_joins_the_names_of_the_locale() {
    let store = geo_store();
    let row = lookup_city(&store, 4, 0x0808_0808, "en").unwrap();
    assert_eq!(
        row,
        CityRow {
            network: "8.8.8.0/24".to_string(),
            prefix_length: 24,
            ip_version: 4,
            geoname_id: Some(5375480),
            registered_country_geoname_id: Some(6252001),
            represented_country_geoname_id: None,
            is_anonymous_proxy: Some(0),
            is_satellite_provider: Some(1),
            is_anycast: None,
            postal_code: text("94043"),
            latitude: Some(Degrees { bits: 37.4056f64.to_bits() }),
            longitude: Some(Degrees { bits: (-122.0775f64).to_bits() }),
            accuracy_radius: Some(1000),
            continent_code: text("NA"),
            continent_name: text("North America"),
            country_iso_code: text("US"),
            country_name: text("United States"),
            subdivision_1_iso_code: text("CA"),
            subdivision_1_name: text("California"),
            subdivision_2_iso_code: None,
            subdivision_2_name: None,
            city_name: text("Mountain View"),
            metro_code: text("807"),
            time_zone: text("America/Los_Angeles"),
            is_in_european_union: Some(0),
        }
    );
    let row = lookup_city(&store, 4, 0x0808_0808, "de").unwrap();
    assert_eq!(row.city_name, text("Mountain View (de)"));
    let row = lookup_city(&store, 4, 0x0801_0101, "en").unwrap();
    assert_eq!(row.network, "8.0.0.0/8");
    assert_eq!(row.city_name, text("Somewhere"));
}

#[test]
fn city_lookup_without_names_keeps_the_block() {
    let store = geo_store();
    for (key, locale) in [(0x0808_0808i64, "ja"), (0x0909_0909, "en"), (0x0a0a_0a0a, "en")] {
        let row = lookup_city(&store, 4, key, locale).unwrap();
        assert_eq!(row.prefix_length, 24);
        assert_eq!(row.postal_code, text("94043"));
        assert_eq!(row.accuracy_radius, Some(1000));
        assert_eq!(row.continent_code, None);
        assert_eq!(row.continent_name, None);
        assert_eq!(row.country_iso_code, None);
        assert_eq!(row.country_name, None);
        assert_eq!(row.subdivision_1_iso_code, None);
        assert_eq!(row.subdivision_1_name, None);
        assert_eq!(row.subdivision_2_iso_code, None);
        assert_eq!(row.subdivision_2_name, None);
        assert_eq!(row.city_name, None);
        assert_eq!(row.metro_code, None);
        assert_eq!(row.time_zone, None);
        assert_eq!(row.is_in_european_union, None);
    }
}

#[test]
fn city_lookup_misses_outside_every_range() {
    let store = geo_store();
    assert_eq!(lookup_city(&store, 4, 0x0b00_0001, "en"), None);
    assert_eq!(lookup_city(&store, 6, 0x0808_0808, "en"), None);
    assert_eq!(lookup_city(&empty_store(), 4, 0x0808_0808, "en"), None);
}

#[test]
fn country_lookup_joins_the_names_of_the_locale() {
    let store = geo_store();
    assert_eq!(
        lookup_country(&store, 4, 0x0b01_0203, "en"),
        Some(CountryRow {
            network: "11.0.0.0/8".to_string(),
            prefix_length: 8,
            ip_version: 4,
            geoname_id: Some(6252001),
            registered_country_geoname_id: Some(6252001),
            represented_country_geoname_id: None,
            is_anonymous_proxy: Some(0),
            is_satellite_provider: Some(0),
            is_anycast: None,
            continent_code: text("NA"),
            continent_name: text("North America"),
            country_iso_code: text("US"),
            country_name: text("United States"),
            is_in_european_union: Some(0),
        })
    );
    let row = lookup_country(&store, 4, 0x0b01_0203, "fr").unwrap();
    assert_eq!(row.country_name, text("Etats-Unis"));
}

#[test]
fn country_lookup_without_names_keeps_the_block() {
    let store = geo_store();
    for (key, locale) in [(0x0b01_0203i64, "es"), (0x0c01_0203, "en"), (0x0d01_0203, "en")] {
        let row = lookup_country(&store, 4, key, locale).unwrap();
        assert_eq!(row.prefix_length, 8);
        assert_eq!(row.registered_country_geoname_id, Some(6252001));
        assert_eq!(row.continent_code, None);
        assert_eq!(row.continent_name, None);
        assert_eq!(row.country_iso_code, None);
        assert_eq!(row.country_name, None);
        assert_eq!(row.is_in_european_union, None);
    }
    assert_eq!(lookup_country(&store, 4, 0x0e00_0000, "en"), None);
}

#[test]
fn asn_lookup_ignores_the_geographic_tables() {
    let mut with_geo = geo_store();
    with_geo.asn_blocks = nested_asn_store().asn_blocks;
    let without_geo = nested_asn_store();
    for key in [0x0102_0304i64, 0x0808_0808, 0x0b01_0203, 0x0e00_0000] {
        assert_eq!(lookup_asn(&with_geo, 4, key), lookup_asn(&without_geo, 4, key));
    }
}

#[test]
fn locale_defaults_to_en() {
    assert_eq!(locale_or_default(None), "en");
    assert_eq!(locale_or_default(Some("de".to_string())), "de");
    assert_eq!(locale_or_default(Some(String::new())), "");
}

#[test]
fn covering_blocks_alone_give_the_same_match() {
    let store = nested_asn_store();
    for key in [0x0102_0304i64, 0x0102_0404, 0x0103_0000, 0x0200_0000] {
        let mut cut = empty_store();
        cut.asn_blocks = store
            .asn_blocks
            .iter()
            .filter(|b| {
                b.span.ip_version == 4 && b.span.network_start <= key && key <= b.span.network_end
            })
            .cloned()
            .collect();
        assert_eq!(lookup_asn(&cut, 4, key), lookup_asn(&store, 4, key));
    }
}
