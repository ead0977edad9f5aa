use geoip_lookup::format::{
    format_asn, format_location_city, format_location_country, Asn, City, Continent,
    Coordinates, Country, Geo, Location, Network, Subdivision, Traits,
};
use geoip_lookup::rows::{AsnRow, CityRow, CountryRow, Degrees};

fn text(s: &str) -> Option<String> {
    Some(s.to_string())
}

fn city_row() -> CityRow {
    CityRow {
        network: "8.8.8.0/24".to_string(),
        prefix_length: 24,
        ip_version: 4,
        geoname_id: Some(5375480),
        registered_country_geoname_id: Some(6252001),
        represented_country_geoname_id: Some(7),
        is_anonymous_proxy: Some(0),
        is_satellite_provider: Some(1),
        is_anycast: None,
        postal_code: text("94043"),
        latitude: Some(Degrees { bits: 37.4056f64.to_bits() }),
        longitude: Some(Degrees { bits: (-122.0775f64).to_bits() }),
        accuracy_radius: Some(1000),
        continent_code: text("NA"),
        continent_name: text("North America"),
        country_iso_code: text("US"),
        country_name: text("United States"),
        subdivision_1_iso_code: text("CA"),
        subdivision_1_name: text("California"),
        subdivision_2_iso_code: text("085"),
        subdivision_2_name: text("Santa Clara"),
        city_name: text("Mountain View"),
        metro_code: text("807"),
        time_zone: text("America/Los_Angeles"),
        is_in_european_union: Some(0),
    }
}

fn country_row() -> CountryRow {
    CountryRow {
        network: "2.0.0.0/8".to_string(),
        prefix_length: 8,
        ip_version: 4,
        geoname_id: Some(2921044),
        registered_country_geoname_id: Some(2921044),
        represented_country_geoname_id: None,
        is_anonymous_proxy: Some(1),
        is_satellite_provider: None,
        is_anycast: Some(1),
        continent_code: text("EU"),
        continent_name: text("Europe"),
        country_iso_code: text("de"),
        country_name: text("Germany"),
        is_in_european_union: Some(1),
    }
}

#[test]
fn city_row_is_carried_into_every_field() {
    assert_eq!(
        format_location_city(city_row(), "city"),
        Location {
            source: "city".to_string(),
            network: Network { cidr: "8.8.8.0/24".to_string(), prefix_length: 24, ip_version: 4 },
            geo: Geo {
                continent: Continent { code: text("NA"), name: text("North America") },
                country: Country {
                    iso_code: text("US"),
                    name: text("United States"),
                    flag_emoji: text("\u{1F1FA}\u{1F1F8}"),
                    is_in_european_union: Some(0),
                },
                subdivision_1: Subdivision { iso_code: text("CA"), name: text("California") },
                subdivision_2: Subdivision { iso_code: text("085"), name: text("Santa Clara") },
                city: City { name: text("Mountain View"), metro_code: text("807") },
                time_zone: text("America/Los_Angeles"),
            },
            coordinates: Coordinates {
                latitude: Some(Degrees { bits: 37.4056f64.to_bits() }),
                longitude: Some(Degrees { bits: (-122.0775f64).to_bits() }),
                accuracy_radius: Some(1000),
            },
            postal_code: text("94043"),
            traits: Traits {
                is_anonymous_proxy: Some(0),
                is_satellite_provider: Some(1),
                is_anycast: None,
            },
            geoname_id: Some(5375480),
            registered_country_geoname_id: Some(6252001),
            represented_country_geoname_id: Some(7),
        }
    );
}

#[test]
fn coordinates_pass_through_bit_for_bit() {
    let mut row = city_row();
    row.latitude = Some(Degrees { bits: (-0.0f64).to_bits() });
    row.longitude = Some(Degrees { bits: f64::NAN.to_bits() });
    let location = format_location_city(row, "city");
    assert_eq!(location.coordinates.latitude.unwrap().bits, (-0.0f64).to_bits());
    assert_eq!(location.coordinates.longitude.unwrap().bits, f64::NAN.to_bits());
    assert_eq!(f64::from_bits(location.coordinates.latitude.unwrap().bits), 0.0);
}

#[test]
fn country_row_leaves_city_detail_absent() {
    assert_eq!(
        format_location_country(country_row(), "country"),
        Location {
            source: "country".to_string(),
            network: Network { cidr: "2.0.0.0/8".to_string(), prefix_length: 8, ip_version: 4 },
            geo: Geo {
                continent: Continent { code: text("EU"), name: text("Europe") },
                country: Country {
                    iso_code: text("de"),
                    name: text("Germany"),
                    flag_emoji: text("\u{1F1E9}\u{1F1EA}"),
                    is_in_european_union: Some(1),
                },
                subdivision_1: Subdivision { iso_code: None, name: None },
                subdivision_2: Subdivision { iso_code: None, name: None },
                city: City { name: None, metro_code: None },
                time_zone: None,
            },
            coordinates: Coordinates { latitude: None, longitude: None, accuracy_radius: None },
            postal_code: None,
            traits: Traits {
                is_anonymous_proxy: Some(1),
                is_satellite_provider: None,
                is_anycast: Some(1),
            },
            geoname_id: Some(2921044),
            registered_country_geoname_id: Some(2921044),
            represented_country_geoname_id: None,
        }
    );
}

#[test]
fn source_label_is_the_one_given() {
    assert_eq!(format_location_city(city_row(), "anything").source, "anything");
    assert_eq!(format_location_country(country_row(), "").source, "");
}

#[test]
fn rows_without_a_usable_code_have_no_flag() {
    let mut row = city_row();
    row.country_iso_code = None;
    let location = format_location_city(row, "city");
    assert_eq!(location.geo.country.iso_code, None);
    assert_eq!(location.geo.country.flag_emoji, None);
    assert_eq!(location.geo.country.name, text("United States"));

    let mut row = country_row();
    row.country_iso_code = text("DEU");
    let location = format_location_country(row, "country");
    assert_eq!(location.geo.country.iso_code, text("DEU"));
    assert_eq!(location.geo.country.flag_emoji, None);
}

#[test]
fn asn_row_is_carried_into_every_field() {
    assert_eq!(format_asn(None), None);
    assert_eq!(
        format_asn(Some(AsnRow {
            network: "8.8.8.0/24".to_string(),
            prefix_length: 24,
            ip_version: 4,
            autonomous_system_number: Some(15169),
            autonomous_system_organization: text("GOOGLE"),
        })),
        Some(Asn {
            network: Network { cidr: "8.8.8.0/24".to_string(), prefix_length: 24, ip_version: 4 },
            number: Some(15169),
            organization: text("GOOGLE"),
        })
    );
}

#[test]
fn asn_number_and_organization_may_each_be_absent() {
    let asn = format_asn(Some(AsnRow {
        network: "2001:db8::/32".to_string(),
        prefix_length: 32,
        ip_version: 6,
        autonomous_system_number: None,
        autonomous_system_organization: text("Documentation"),
    }))
    .unwrap();
    assert_eq!(asn.number, None);
    assert_eq!(asn.organization, text("Documentation"));
    assert_eq!(asn.network.ip_version, 6);

    let asn = format_asn(Some(AsnRow {
        network: "1.0.0.0/8".to_string(),
        prefix_length: 8,
        ip_version: 4,
        autonomous_system_number: Some(1),
        autonomous_system_organization: None,
    }))
    .unwrap();
    assert_eq!(asn.number, Some(1));
    assert_eq!(asn.organization, None);
}
