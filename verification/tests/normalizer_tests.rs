use air_quality_alerts::data_fetcher::{AirQualityData, Concentration, Index, Pollutant, Quantity};
use air_quality_alerts::data_processor::{AQIData, ForecastAQIData};
use air_quality_alerts::normalizer::{
    conditions_fields, count_field, count_fields, fields_of, index_field, kind_of_code, level_of,
    normalize, pollutant_field, rejected, resolve, Field, NormalizeError, ProviderPayload,
};
use air_quality_alerts::pollutant::PollutantKind;

fn pollutant(code: &str, milli: i64, units: &str) -> Pollutant {
    Pollutant {
        code: code.to_string(),
        concentration: Concentration { value: Quantity::Milli(milli), units: units.to_string() },
    }
}

fn conditions(indexes: Vec<Index>, pollutants: Vec<Pollutant>) -> AirQualityData {
    AirQualityData { date_time: 1_700_000_000, region_code: "us".to_string(), indexes, pollutants }
}

const UGM3: &str = "MICROGRAMS_PER_CUBIC_METER";
const PPB: &str = "PARTS_PER_BILLION";

#[test]
fn station_counts_become_levels() {
    let reading = normalize(ProviderPayload::Observed {
        location_key: "90210".to_string(),
        timestamp: 77,
        data: AQIData { pm25: 40, o3: 12, pm10: 0 },
    })
    .unwrap();
    assert_eq!(reading.location_key, "90210");
    assert_eq!(reading.timestamp, 77);
    assert_eq!(reading.level(PollutantKind::Pm25), Some(40));
    assert_eq!(reading.level(PollutantKind::O3), Some(12));
    assert_eq!(reading.level(PollutantKind::Pm10), Some(0));
    assert_eq!(reading.level(PollutantKind::Aqi), None);
}

#[test]
fn forecast_counts_become_levels() {
    let reading = normalize(ProviderPayload::Forecast {
        location_key: "10001".to_string(),
        timestamp: 9,
        forecast: ForecastAQIData { pm25: 50, o3: 20, pm10: 30 },
    })
    .unwrap();
    assert_eq!(reading.location_key, "10001");
    assert_eq!(reading.timestamp, 9);
    assert_eq!(reading.level(PollutantKind::Pm25), Some(50));
    assert_eq!(reading.level(PollutantKind::O3), Some(20));
    assert_eq!(reading.level(PollutantKind::Pm10), Some(30));
}

#[test]
fn an_invalid_count_is_passed_over() {
    let reading = normalize(ProviderPayload::Observed {
        location_key: "90210".to_string(),
        timestamp: 1,
        data: AQIData { pm25: -1, o3: 12, pm10: -7 },
    })
    .unwrap();
    assert_eq!(reading.level(PollutantKind::Pm25), None);
    assert_eq!(reading.level(PollutantKind::O3), Some(12));
    assert_eq!(reading.level(PollutantKind::Pm10), None);
}

#[test]
fn all_counts_invalid_fails_with_the_first() {
    let r = normalize(ProviderPayload::Observed {
        location_key: "90210".to_string(),
        timestamp: 1,
        data: AQIData { pm25: -1, o3: -2, pm10: -3 },
    });
    assert_eq!(r, Err(NormalizeError::InvalidValue { pollutant: PollutantKind::Pm25 }));
    let r = normalize(ProviderPayload::Forecast {
        location_key: "90210".to_string(),
        timestamp: 1,
        forecast: ForecastAQIData { pm25: i32::MIN, o3: -2, pm10: -3 },
    });
    assert_eq!(r, Err(NormalizeError::InvalidValue { pollutant: PollutantKind::Pm25 }));
}

#[test]
fn largest_count_is_a_level() {
    assert_eq!(
        count_field(PollutantKind::Pm10, i32::MAX),
        Field::Valid(PollutantKind::Pm10, 2_147_483_647)
    );
    assert_eq!(count_field(PollutantKind::Pm10, 0), Field::Valid(PollutantKind::Pm10, 0));
    assert_eq!(count_field(PollutantKind::Pm10, -1), Field::Invalid(PollutantKind::Pm10));
}

#[test]
fn count_fields_are_read_in_order() {
    assert_eq!(
        count_fields(1, -2, 3),
        vec![
            Field::Valid(PollutantKind::Pm25, 1),
            Field::Invalid(PollutantKind::O3),
            Field::Valid(PollutantKind::Pm10, 3),
        ]
    );
}

#[test]
fn codes_name_pollutants() {
    assert_eq!(kind_of_code(&"pm25".to_string()), Some(PollutantKind::Pm25));
    assert_eq!(kind_of_code(&"pm10".to_string()), Some(PollutantKind::Pm10));
    assert_eq!(kind_of_code(&"o3".to_string()), Some(PollutantKind::O3));
    assert_eq!(kind_of_code(&"co".to_string()), None);
    assert_eq!(kind_of_code(&"PM25".to_string()), None);
    assert_eq!(kind_of_code(&"".to_string()), None);
}

#[test]
fn micrograms_are_rounded_down_to_whole_units() {
    let units = UGM3.to_string();
    assert_eq!(level_of(PollutantKind::Pm25, Quantity::Milli(12_999), &units), Some(12));
    assert_eq!(level_of(PollutantKind::Pm10, Quantity::Milli(999), &units), Some(0));
    assert_eq!(level_of(PollutantKind::O3, Quantity::Milli(0), &units), Some(0));
    assert_eq!(level_of(PollutantKind::O3, Quantity::Milli(40_000), &units), Some(40));
}

#[test]
fn ozone_is_converted_from_parts_per_billion() {
    let units = PPB.to_string();
    // 50 ppb * 1.96 = 98 µg/m³
    assert_eq!(level_of(PollutantKind::O3, Quantity::Milli(50_000), &units), Some(98));
    // 10.5 ppb * 1.96 = 20.58 µg/m³
    assert_eq!(level_of(PollutantKind::O3, Quantity::Milli(10_500), &units), Some(20));
    assert_eq!(level_of(PollutantKind::O3, Quantity::Milli(1_000), &units), Some(1));
    assert_eq!(level_of(PollutantKind::O3, Quantity::Milli(510), &units), Some(0));
    assert_eq!(level_of(PollutantKind::O3, Quantity::Milli(511), &units), Some(1));
}

#[test]
fn particulates_have_no_conversion_from_parts_per_billion() {
    let units = PPB.to_string();
    assert_eq!(level_of(PollutantKind::Pm25, Quantity::Milli(5_000), &units), None);
    assert_eq!(level_of(PollutantKind::Pm10, Quantity::Milli(5_000), &units), None);
    assert_eq!(level_of(PollutantKind::Aqi, Quantity::Milli(5_000), &units), None);
}

#[test]
fn invalid_amounts_have_no_level() {
    let units = UGM3.to_string();
    assert_eq!(level_of(PollutantKind::Pm25, Quantity::NonFinite, &units), None);
    assert_eq!(level_of(PollutantKind::Pm25, Quantity::Milli(-1), &units), None);
    assert_eq!(level_of(PollutantKind::Pm25, Quantity::Milli(i64::MIN), &units), None);
    assert_eq!(level_of(PollutantKind::Pm25, Quantity::Milli(1_000), &"GRAMS".to_string()), None);
}

#[test]
fn amounts_past_the_range_have_no_level() {
    let ugm3 = UGM3.to_string();
    let ppb = PPB.to_string();
    assert_eq!(
        level_of(PollutantKind::Pm25, Quantity::Milli(4_294_967_295_999), &ugm3),
        Some(u32::MAX)
    );
    assert_eq!(level_of(PollutantKind::Pm25, Quantity::Milli(4_294_967_296_000), &ugm3), None);
    assert_eq!(level_of(PollutantKind::Pm25, Quantity::Milli(i64::MAX), &ugm3), None);
    assert_eq!(level_of(PollutantKind::O3, Quantity::Milli(i64::MAX), &ppb), None);
    // floor(2_191_309_844_387 * 196 / 100_000) = 4_294_967_294
    assert_eq!(
        level_of(PollutantKind::O3, Quantity::Milli(2_191_309_844_387), &ppb),
        Some(4_294_967_294)
    );
    // floor(2_191_309_844_898 * 196 / 100_000) = 4_294_967_296
    assert_eq!(level_of(PollutantKind::O3, Quantity::Milli(2_191_309_844_898), &ppb), None);
    assert_eq!(level_of(PollutantKind::O3, Quantity::Milli(4_294_967_295_999), &ppb), None);
}

#[test]
fn only_the_universal_index_is_read() {
    assert_eq!(
        index_field(&Index { code: "uaqi".to_string(), aqi: 63 }),
        Field::Valid(PollutantKind::Aqi, 63)
    );
    assert_eq!(
        index_field(&Index { code: "uaqi".to_string(), aqi: -1 }),
        Field::Invalid(PollutantKind::Aqi)
    );
    assert_eq!(index_field(&Index { code: "usa_epa".to_string(), aqi: 63 }), Field::Unrecognized);
}

#[test]
fn pollutants_are_read_by_code_and_unit() {
    assert_eq!(
        pollutant_field(&pollutant("pm25", 8_400, UGM3)),
        Field::Valid(PollutantKind::Pm25, 8)
    );
    assert_eq!(pollutant_field(&pollutant("o3", 50_000, PPB)), Field::Valid(PollutantKind::O3, 98));
    assert_eq!(pollutant_field(&pollutant("pm10", 50_000, PPB)), Field::Invalid(PollutantKind::Pm10));
    assert_eq!(pollutant_field(&pollutant("no2", 50_000, PPB)), Field::Unrecognized);
    assert_eq!(
        pollutant_field(&Pollutant {
            code: "o3".to_string(),
            concentration: Concentration { value: Quantity::NonFinite, units: PPB.to_string() },
        }),
        Field::Invalid(PollutantKind::O3)
    );
}

#[test]
fn conditions_are_read_indexes_first() {
    let data = conditions(
        vec![
            Index { code: "usa_epa".to_string(), aqi: 40 },
            Index { code: "uaqi".to_string(), aqi: 72 },
        ],
        vec![pollutant("co", 300_000, PPB), pollutant("pm25", 9_700, UGM3)],
    );
    assert_eq!(
        conditions_fields(&data),
        vec![
            Field::Unrecognized,
            Field::Valid(PollutantKind::Aqi, 72),
            Field::Unrecognized,
            Field::Valid(PollutantKind::Pm25, 9),
        ]
    );
}

#[test]
fn conditions_become_a_reading() {
    let data = conditions(
        vec![Index { code: "uaqi".to_string(), aqi: 72 }],
        vec![
            pollutant("pm25", 9_700, UGM3),
            pollutant("pm10", 21_050, UGM3),
            pollutant("o3", 30_000, PPB),
            pollutant("so2", 1_000, PPB),
        ],
    );
    let reading = normalize(ProviderPayload::Conditions(data)).unwrap();
    assert_eq!(reading.location_key, "us");
    assert_eq!(reading.timestamp, 1_700_000_000);
    assert_eq!(reading.level(PollutantKind::Aqi), Some(72));
    assert_eq!(reading.level(PollutantKind::Pm25), Some(9));
    assert_eq!(reading.level(PollutantKind::Pm10), Some(21));
    assert_eq!(reading.level(PollutantKind::O3), Some(58));
}

#[test]
fn nothing_recognized_is_rejected() {
    let data = conditions(
        vec![Index { code: "usa_epa".to_string(), aqi: 40 }],
        vec![pollutant("co", 300_000, PPB), pollutant("no2", -5, PPB)],
    );
    assert_eq!(
        normalize(ProviderPayload::Conditions(data)),
        Err(NormalizeError::NoRecognizedPollutants)
    );
    assert_eq!(
        normalize(ProviderPayload::Conditions(conditions(vec![], vec![]))),
        Err(NormalizeError::NoRecognizedPollutants)
    );
}

#[test]
fn recognized_but_all_invalid_names_the_first_invalid_field() {
    let data = conditions(
        vec![Index { code: "other".to_string(), aqi: 1 }],
        vec![
            pollutant("co", 5_000, PPB),
            pollutant("pm10", -3_000, UGM3),
            pollutant("pm25", 4_000, PPB),
        ],
    );
    assert_eq!(
        normalize(ProviderPayload::Conditions(data)),
        Err(NormalizeError::InvalidValue { pollutant: PollutantKind::Pm10 })
    );
}

#[test]
fn one_valid_field_is_enough() {
    let data = conditions(
        vec![Index { code: "uaqi".to_string(), aqi: -4 }],
        vec![pollutant("pm10", -3_000, UGM3), pollutant("o3", 2_000, UGM3)],
    );
    let reading = normalize(ProviderPayload::Conditions(data)).unwrap();
    assert_eq!(reading.level(PollutantKind::O3), Some(2));
    assert_eq!(reading.level(PollutantKind::Aqi), None);
    assert_eq!(reading.level(PollutantKind::Pm10), None);
    assert_eq!(reading.pollutant_levels.len(), 1);
}

#[test]
fn first_valid_field_of_a_pollutant_wins() {
    let fields = vec![
        Field::Invalid(PollutantKind::Pm25),
        Field::Valid(PollutantKind::Pm25, 5),
        Field::Valid(PollutantKind::Pm25, 6),
        Field::Unrecognized,
        Field::Valid(PollutantKind::Aqi, 1),
    ];
    let levels = resolve(&fields).unwrap();
    assert_eq!(levels.get(PollutantKind::Pm25), Some(5));
    assert_eq!(levels.get(PollutantKind::Aqi), Some(1));
    assert_eq!(levels.len(), 2);
}

#[test]
fn resolve_reports_each_failure() {
    assert_eq!(resolve(&vec![]), Err(NormalizeError::NoRecognizedPollutants));
    assert_eq!(
        resolve(&vec![Field::Unrecognized, Field::Unrecognized]),
        Err(NormalizeError::NoRecognizedPollutants)
    );
    assert_eq!(
        resolve(&vec![
            Field::Unrecognized,
            Field::Invalid(PollutantKind::O3),
            Field::Invalid(PollutantKind::Pm25)
        ]),
        Err(NormalizeError::InvalidValue { pollutant: PollutantKind::O3 })
    );
}

#[test]
fn each_invalid_field_is_reported() {
    let fields = vec![
        Field::Invalid(PollutantKind::O3),
        Field::Valid(PollutantKind::Pm25, 5),
        Field::Unrecognized,
        Field::Invalid(PollutantKind::Pm25),
        Field::Invalid(PollutantKind::O3),
    ];
    assert_eq!(
        rejected(&fields),
        vec![
            NormalizeError::InvalidValue { pollutant: PollutantKind::O3 },
            NormalizeError::InvalidValue { pollutant: PollutantKind::Pm25 },
            NormalizeError::InvalidValue { pollutant: PollutantKind::O3 },
        ]
    );
    assert_eq!(rejected(&vec![Field::Unrecognized, Field::Valid(PollutantKind::Aqi, 1)]), vec![]);
    assert_eq!(rejected(&vec![]), vec![]);
}

#[test]
fn fields_of_a_payload_are_those_of_its_provider() {
    let observed = ProviderPayload::Observed {
        location_key: "90210".to_string(),
        timestamp: 1,
        data: AQIData { pm25: 4, o3: -5, pm10: 6 },
    };
    assert_eq!(fields_of(&observed), count_fields(4, -5, 6));
    let forecast = ProviderPayload::Forecast {
        location_key: "90210".to_string(),
        timestamp: 1,
        forecast: ForecastAQIData { pm25: -4, o3: 5, pm10: 6 },
    };
    assert_eq!(fields_of(&forecast), count_fields(-4, 5, 6));
    let data = conditions(
        vec![Index { code: "uaqi".to_string(), aqi: 72 }],
        vec![pollutant("pm25", -9_700, UGM3)],
    );
    let fields = conditions_fields(&data);
    assert_eq!(fields_of(&ProviderPayload::Conditions(data)), fields);
    assert_eq!(
        rejected(&fields),
        vec![NormalizeError::InvalidValue { pollutant: PollutantKind::Pm25 }]
    );
}
