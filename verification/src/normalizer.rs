//! Turns what a provider sent into a canonical [`Reading`].
//!
//! Normalization has two steps. Each provider's payload is first read as a
//! sequence of fields, every field either unrecognized, recognized but
//! invalid, or a valid level in canonical units. The fields are then
//! resolved, the same way for every provider: the first valid field of each
//! pollutant gives its level, invalid fields are passed over as long as one
//! valid field remains, and a payload without any valid field is rejected.
//!
//! Canonical units are whole µg/m³ for concentrations and index points for
//! the overall index. The service's concentrations are converted as follows:
//!
//! | pollutant | `MICROGRAMS_PER_CUBIC_METER` | `PARTS_PER_BILLION`        |
//! |-----------|------------------------------|----------------------------|
//! | `pm25`    | as is                        | no conversion: invalid     |
//! | `pm10`    | as is                        | no conversion: invalid     |
//! | `o3`      | as is                        | 1 ppb = 1.96 µg/m³ (25 °C) |
//!
//! Converted amounts are rounded down to whole units. The overall index is
//! the one with code `uaqi`. Station and forecast counts are canonical
//! already.

use crate::data_fetcher::{AirQualityData, Index, Pollutant, Quantity};
use crate::data_processor::{AQIData, ForecastAQIData};
use crate::pollutant::{KindMap, PollutantKind};
use crate::reading::{Reading, ReadingView};
use vstd::prelude::*;
use vstd::string::*;

verus! {

/// Why a payload could not be normalized.
#[derive(Clone, Copy, Debug, PartialEq, Eq, Structural)]
pub enum NormalizeError {
    /// No field of the payload names a pollutant the engine knows.
    NoRecognizedPollutants,
    /// Every recognized field is invalid; `pollutant` is that of the first.
    InvalidValue { pollutant: PollutantKind },
}

/// One field of a payload, as the engine reads it.
#[derive(Clone, Copy, Debug, PartialEq, Eq, Structural)]
pub enum Field {
    /// The field names nothing the engine knows.
    Unrecognized,
    /// The field names a pollutant, but its value is negative, not finite,
    /// in a unit without conversion, or too large for a level.
    Invalid(PollutantKind),
    /// The field gives a level, in canonical units.
    Valid(PollutantKind, u32),
}

/// What a provider sent, tagged with the provider it came from.
#[derive(Clone, Debug, PartialEq, Eq)]
pub enum ProviderPayload {
    /// Current conditions from the air-quality service.
    Conditions(AirQualityData),
    /// Counts observed at a station.
    Observed { location_key: String, timestamp: u64, data: AQIData },
    /// Counts forecast for a place and time.
    Forecast { location_key: String, timestamp: u64, forecast: ForecastAQIData },
}

/// Thousandths per whole unit.
pub const MILLI: i64 = 1000;

/// µg/m³ per 100 ppb of ozone.
pub const O3_UGM3_PER_100_PPB: i64 = 196;

/// A count is a valid level unless it is negative.
pub open spec fn spec_count_field(kind: PollutantKind, count: i32) -> Field {
    if count < 0 {
        Field::Invalid(kind)
    } else {
        Field::Valid(kind, count as u32)
    }
}

/// The pollutant that a code of the service names.
pub open spec fn spec_kind_of_code(code: Seq<char>) -> Option<PollutantKind> {
    if code == "pm25"@ {
        Some(PollutantKind::Pm25)
    } else if code == "pm10"@ {
        Some(PollutantKind::Pm10)
    } else if code == "o3"@ {
        Some(PollutantKind::O3)
    } else {
        None
    }
}

/// The amount `milli`, given in thousandths of `units`, as whole canonical
/// units of `kind`; `None` where the unit has no conversion for that kind.
pub open spec fn spec_convert(kind: PollutantKind, milli: int, units: Seq<char>) -> Option<int> {
    if units == "MICROGRAMS_PER_CUBIC_METER"@ {
        Some(milli / 1000)
    } else if units == "PARTS_PER_BILLION"@ && kind == PollutantKind::O3 {
        Some((milli * 196) / 100_000)
    } else {
        None
    }
}

/// The level that a concentration stands for, where it is valid.
pub open spec fn spec_level(kind: PollutantKind, value: Quantity, units: Seq<char>) -> Option<u32> {
    match value {
        Quantity::NonFinite => None,
        Quantity::Milli(milli) => {
            if milli < 0 {
                None
            } else {
                match spec_convert(kind, milli as int, units) {
                    Some(level) => if level <= u32::MAX {
                        Some(level as u32)
                    } else {
                        None
                    },
                    None => None,
                }
            }
        },
    }
}

/// How the engine reads one index of the service.
pub open spec fn spec_index_field(index: Index) -> Field {
    if index.code@ == "uaqi"@ {
        spec_count_field(PollutantKind::Aqi, index.aqi)
    } else {
        Field::Unrecognized
    }
}

/// How the engine reads one pollutant of the service.
pub open spec fn spec_pollutant_field(pollutant: Pollutant) -> Field {
    match spec_kind_of_code(pollutant.code@) {
        None => Field::Unrecognized,
        Some(kind) => match spec_level(
            kind,
            pollutant.concentration.value,
            pollutant.concentration.units@,
        ) {
            Some(level) => Field::Valid(kind, level),
            None => Field::Invalid(kind),
        },
    }
}

/// The fields of station or forecast counts, in the order they are read.
pub open spec fn spec_count_fields(pm25: i32, o3: i32, pm10: i32) -> Seq<Field> {
    seq![
        spec_count_field(PollutantKind::Pm25, pm25),
        spec_count_field(PollutantKind::O3, o3),
        spec_count_field(PollutantKind::Pm10, pm10),
    ]
}

/// The fields of a report of the service: its indexes, then its pollutants.
pub open spec fn spec_conditions_fields(data: AirQualityData) -> Seq<Field> {
    Seq::new(
        data.indexes@.len() + data.pollutants@.len(),
        |i: int|
            if i < data.indexes@.len() {
                spec_index_field(data.indexes@[i])
            } else {
                spec_pollutant_field(data.pollutants@[i - data.indexes@.len()])
            },
    )
}

impl ProviderPayload {
    /// The fields of the payload, in the order they are read.
    pub open spec fn spec_fields(self) -> Seq<Field> {
        match self {
            ProviderPayload::Conditions(data) => spec_conditions_fields(data),
            ProviderPayload::Observed { data, .. } => spec_count_fields(
                data.pm25,
                data.o3,
                data.pm10,
            ),
            ProviderPayload::Forecast { forecast, .. } => spec_count_fields(
                forecast.pm25,
                forecast.o3,
                forecast.pm10,
            ),
        }
    }

    /// The place the payload is for.
    pub open spec fn spec_location(self) -> Seq<char> {
        match self {
            ProviderPayload::Conditions(data) => data.region_code@,
            ProviderPayload::Observed { location_key, .. } => location_key@,
            ProviderPayload::Forecast { location_key, .. } => location_key@,
        }
    }

    /// The instant the payload is for.
    pub open spec fn spec_timestamp(self) -> u64 {
        match self {
            ProviderPayload::Conditions(data) => data.date_time,
            ProviderPayload::Observed { timestamp, .. } => timestamp,
            ProviderPayload::Forecast { timestamp, .. } => timestamp,
        }
    }
}

/// The levels that a sequence of fields gives: for each pollutant, the value
/// of its first valid field.
pub open spec fn spec_levels(fields: Seq<Field>) -> Map<PollutantKind, u32>
    decreases fields.len(),
{
    if fields.len() == 0 {
        Map::empty()
    } else {
        let earlier = spec_levels(fields.drop_last());
        match fields.last() {
            Field::Valid(kind, level) => if earlier.contains_key(kind) {
                earlier
            } else {
                earlier.insert(kind, level)
            },
            _ => earlier,
        }
    }
}

/// The pollutant of the first invalid field, if there is an invalid field.
pub open spec fn spec_first_invalid(fields: Seq<Field>) -> Option<PollutantKind>
    decreases fields.len(),
{
    if fields.len() == 0 {
        None
    } else {
        match spec_first_invalid(fields.drop_last()) {
            Some(kind) => Some(kind),
            None => match fields.last() {
                Field::Invalid(kind) => Some(kind),
                _ => None,
            },
        }
    }
}

/// What a sequence of fields resolves to: the levels of its valid fields
/// where there is one, else the error.
pub open spec fn spec_resolve(fields: Seq<Field>) -> Result<Map<PollutantKind, u32>, NormalizeError> {
    let levels = spec_levels(fields);
    if levels != Map::<PollutantKind, u32>::empty() {
        Ok(levels)
    } else {
        match spec_first_invalid(fields) {
            Some(pollutant) => Err(NormalizeError::InvalidValue { pollutant }),
            None => Err(NormalizeError::NoRecognizedPollutants),
        }
    }
}

/// Whether `field` is a valid level of `kind`.
pub open spec fn gives_level(field: Field, kind: PollutantKind) -> bool {
    field matches Field::Valid(k, _) && k == kind
}

/// The levels of a sequence of fields hold a pollutant exactly when one of
/// the fields is a valid level of it, and then hold the level of the first
/// such field.
pub proof fn lemma_levels_first_valid(fields: Seq<Field>, kind: PollutantKind)
    ensures
        spec_levels(fields).contains_key(kind) <==> exists|i: int|
            0 <= i < fields.len() && gives_level(#[trigger] fields[i], kind),
        forall|i: int|
            0 <= i < fields.len() && gives_level(#[trigger] fields[i], kind) && (forall|j: int|
                0 <= j < i ==> !gives_level(#[trigger] fields[j], kind)) ==> spec_levels(
                fields,
            )[kind] == fields[i]->Valid_1,
    decreases fields.len(),
{
    if fields.len() > 0 {
        let front = fields.drop_last();
        let n = front.len() as int;
        lemma_levels_first_valid(front, kind);
        assert forall|i: int| 0 <= i < n implies front[i] == fields[i] by {}
        if spec_levels(front).contains_key(kind) {
            let w = choose|i: int| 0 <= i < front.len() && gives_level(#[trigger] front[i], kind);
            assert(gives_level(fields[w], kind));
        }
        if exists|i: int| 0 <= i < fields.len() && gives_level(#[trigger] fields[i], kind) {
            let w = choose|i: int| 0 <= i < fields.len() && gives_level(#[trigger] fields[i], kind);
            if w < n {
                assert(gives_level(front[w], kind));
            }
        }
        assert forall|i: int|
            0 <= i < fields.len() && gives_level(#[trigger] fields[i], kind) && (forall|j: int|
                0 <= j < i ==> !gives_level(#[trigger] fields[j], kind)) implies spec_levels(
            fields,
        )[kind] == fields[i]->Valid_1 by {
            if i < n {
                assert(gives_level(front[i], kind));
                assert forall|j: int| 0 <= j < i implies !gives_level(#[trigger] front[j], kind) by {
                    assert(front[j] == fields[j]);
                }
            } else {
                if spec_levels(front).contains_key(kind) {
                    let w = choose|w: int|
                        0 <= w < front.len() && gives_level(#[trigger] front[w], kind);
                    assert(gives_level(fields[w], kind));
                }
            }
        }
    }
}

/// The first invalid field, if there is one, gives the pollutant of
/// [`spec_first_invalid`].
pub proof fn lemma_first_invalid(fields: Seq<Field>)
    ensures
        match spec_first_invalid(fields) {
            Some(pollutant) => exists|i: int|
                0 <= i < fields.len() && #[trigger] fields[i] == Field::Invalid(pollutant)
                    && forall|j: int| 0 <= j < i ==> !((#[trigger] fields[j]) is Invalid),
            None => forall|i: int| 0 <= i < fields.len() ==> !((#[trigger] fields[i]) is Invalid),
        },
    decreases fields.len(),
{
    if fields.len() > 0 {
        let front = fields.drop_last();
        let n = front.len() as int;
        lemma_first_invalid(front);
        assert forall|i: int| 0 <= i < n implies front[i] == fields[i] by {}
        match spec_first_invalid(front) {
            Some(pollutant) => {
                let w = choose|i: int|
                    0 <= i < front.len() && #[trigger] front[i] == Field::Invalid(pollutant)
                        && forall|j: int| 0 <= j < i ==> !((#[trigger] front[j]) is Invalid);
                assert(fields[w] == Field::Invalid(pollutant));
                assert forall|j: int| 0 <= j < w implies !((#[trigger] fields[j]) is Invalid) by {
                    assert(front[j] == fields[j]);
                }
            },
            None => {
                assert forall|j: int| 0 <= j < n implies !((#[trigger] fields[j]) is Invalid) by {
                    assert(front[j] == fields[j]);
                }
                if fields.last() is Invalid {
                    assert(fields[n] == fields.last());
                }
            },
        }
    }
}

/// What decides the outcome of normalization. A payload gives a reading
/// exactly when one of its fields is valid, however many others are
/// invalid. It fails with `NoRecognizedPollutants` exactly when no field
/// is recognized, and with `InvalidValue` exactly when a field is invalid
/// and none is valid; the pollutant is then that of the first invalid
/// field.
pub proof fn lemma_resolve_outcomes(fields: Seq<Field>)
    ensures
        spec_resolve(fields) is Ok <==> exists|i: int|
            0 <= i < fields.len() && (#[trigger] fields[i]) is Valid,
        spec_resolve(fields) == Err::<Map<PollutantKind, u32>, NormalizeError>(
            NormalizeError::NoRecognizedPollutants,
        ) <==> forall|i: int| 0 <= i < fields.len() ==> (#[trigger] fields[i]) is Unrecognized,
        spec_resolve(fields) matches Err(NormalizeError::InvalidValue { pollutant }) ==> exists|
            i: int,
        |
            0 <= i < fields.len() && #[trigger] fields[i] == Field::Invalid(pollutant) && forall|
                j: int,
            |
                0 <= j < i ==> (#[trigger] fields[j]) is Unrecognized,
        spec_resolve(fields) matches Ok(levels) ==> levels == spec_levels(fields),
{
    let levels = spec_levels(fields);
    lemma_first_invalid(fields);
    assert forall|kind: PollutantKind|
        levels.contains_key(kind) <==> exists|i: int|
            0 <= i < fields.len() && gives_level(#[trigger] fields[i], kind) by {
        lemma_levels_first_valid(fields, kind);
    }
    if levels == Map::<PollutantKind, u32>::empty() {
        assert forall|i: int| 0 <= i < fields.len() implies !((#[trigger] fields[i]) is Valid) by {
            if fields[i] is Valid {
                let kind = fields[i]->Valid_0;
                assert(gives_level(fields[i], kind));
                assert(levels.contains_key(kind));
            }
        }
    } else {
        assert(exists|kind: PollutantKind| levels.contains_key(kind)) by {
            if forall|kind: PollutantKind| !levels.contains_key(kind) {
                assert(levels =~= Map::<PollutantKind, u32>::empty());
            }
        }
        let kind = choose|kind: PollutantKind| levels.contains_key(kind);
        let w = choose|i: int| 0 <= i < fields.len() && gives_level(#[trigger] fields[i], kind);
        assert(fields[w] is Valid);
    }
}

/// Reads a count as a field of `kind`.
pub fn count_field(kind: PollutantKind, count: i32) -> (field: Field)
    ensures
        field == spec_count_field(kind, count),
{
    if count < 0 {
        Field::Invalid(kind)
    } else {
        Field::Valid(kind, count as u32)
    }
}

/// The pollutant that a code of the service names.
pub fn kind_of_code(code: &String) -> (kind: Option<PollutantKind>)
    ensures
        kind == spec_kind_of_code(code@),
{
    if *code == String::from_str("pm25") {
        Some(PollutantKind::Pm25)
    } else if *code == String::from_str("pm10") {
        Some(PollutantKind::Pm10)
    } else if *code == String::from_str("o3") {
        Some(PollutantKind::O3)
    } else {
        None
    }
}

/// The level that a concentration stands for, where it is valid.
pub fn level_of(kind: PollutantKind, value: Quantity, units: &String) -> (level: Option<u32>)
    ensures
        level == spec_level(kind, value, units@),
{
    match value {
        Quantity::NonFinite => None,
        Quantity::Milli(milli) => {
            if milli < 0 {
                return None;
            }
            let whole: i64 = milli / MILLI;
            if *units == String::from_str("MICROGRAMS_PER_CUBIC_METER") {
                if whole <= u32::MAX as i64 {
                    Some(whole as u32)
                } else {
                    None
                }
            } else if *units == String::from_str("PARTS_PER_BILLION") && kind
                == PollutantKind::O3 {
                if whole > u32::MAX as i64 {
                    // 1.96 times an amount past the range is past the range.
                    None
                } else {
                    let converted: i64 = (milli * O3_UGM3_PER_100_PPB) / (100 * MILLI);
                    if converted <= u32::MAX as i64 {
                        Some(converted as u32)
                    } else {
                        None
                    }
                }
            } else {
                None
            }
        },
    }
}

/// Reads one index of the service.
pub fn index_field(index: &Index) -> (field: Field)
    ensures
        field == spec_index_field(*index),
{
    if index.code == String::from_str("uaqi") {
        count_field(PollutantKind::Aqi, index.aqi)
    } else {
        Field::Unrecognized
    }
}

/// Reads one pollutant of the service.
pub fn pollutant_field(pollutant: &Pollutant) -> (field: Field)
    ensures
        field == spec_pollutant_field(*pollutant),
{
    match kind_of_code(&pollutant.code) {
        None => Field::Unrecognized,
        Some(kind) => match level_of(
            kind,
            pollutant.concentration.value,
            &pollutant.concentration.units,
        ) {
            Some(level) => Field::Valid(kind, level),
            None => Field::Invalid(kind),
        },
    }
}

/// Reads station or forecast counts as fields.
pub fn count_fields(pm25: i32, o3: i32, pm10: i32) -> (fields: Vec<Field>)
    ensures
        fields@ == spec_count_fields(pm25, o3, pm10),
{
    let mut fields: Vec<Field> = Vec::new();
    fields.push(count_field(PollutantKind::Pm25, pm25));
    fields.push(count_field(PollutantKind::O3, o3));
    fields.push(count_field(PollutantKind::Pm10, pm10));
    assert(fields@ =~= spec_count_fields(pm25, o3, pm10));
    fields
}

/// Reads a report of the service as fields.
pub fn conditions_fields(data: &AirQualityData) -> (fields: Vec<Field>)
    ensures
        fields@ == spec_conditions_fields(*data),
{
    let mut fields: Vec<Field> = Vec::new();
    let n = data.indexes.len();
    let m = data.pollutants.len();
    let mut i: usize = 0;
    while i < n
        invariant
            n == data.indexes@.len(),
            i <= n,
            fields@.len() == i,
            forall|j: int| 0 <= j < i ==> fields@[j] == spec_index_field(data.indexes@[j]),
        decreases n - i,
    {
        fields.push(index_field(&data.indexes[i]));
        i = i + 1;
    }
    let mut k: usize = 0;
    while k < m
        invariant
            n == data.indexes@.len(),
            m == data.pollutants@.len(),
            k <= m,
            fields@.len() == n + k,
            forall|j: int| 0 <= j < n ==> fields@[j] == spec_index_field(data.indexes@[j]),
            forall|j: int|
                0 <= j < k ==> fields@[n + j] == spec_pollutant_field(data.pollutants@[j]),
        decreases m - k,
    {
        fields.push(pollutant_field(&data.pollutants[k]));
        k = k + 1;
    }
    assert(fields@ =~= spec_conditions_fields(*data));
    fields
}

/// Resolves fields to levels: the first valid field of each pollutant gives
/// its level. Fails where no field is valid: with the pollutant of the first
/// invalid field if there is one, else because nothing was recognized.
pub fn resolve(fields: &Vec<Field>) -> (r: Result<KindMap<u32>, NormalizeError>)
    ensures
        match spec_resolve(fields@) {
            Ok(levels) => r matches Ok(found) && found@ == levels,
            Err(e) => r == Err::<KindMap<u32>, NormalizeError>(e),
        },
{
    let mut levels: KindMap<u32> = KindMap::new();
    let mut first_invalid: Option<PollutantKind> = None;
    let n = fields.len();
    let mut i: usize = 0;
    while i < n
        invariant
            n == fields@.len(),
            i <= n,
            levels@ == spec_levels(fields@.take(i as int)),
            first_invalid == spec_first_invalid(fields@.take(i as int)),
        decreases n - i,
    {
        proof {
            let next = fields@.take(i + 1);
            assert(next.drop_last() =~= fields@.take(i as int));
            assert(next.last() == fields@[i as int]);
        }
        match fields[i] {
            Field::Valid(kind, level) => {
                if !levels.contains(kind) {
                    levels.insert(kind, level);
                }
            },
            Field::Invalid(kind) => {
                if first_invalid.is_none() {
                    first_invalid = Some(kind);
                }
            },
            Field::Unrecognized => {},
        }
        i = i + 1;
    }
    assert(fields@.take(n as int) =~= fields@);
    if !levels.is_empty() {
        Ok(levels)
    } else {
        match first_invalid {
            Some(pollutant) => Err(NormalizeError::InvalidValue { pollutant }),
            None => Err(NormalizeError::NoRecognizedPollutants),
        }
    }
}

/// The error of each invalid field, in the order of the fields.
pub open spec fn spec_rejected(fields: Seq<Field>) -> Seq<NormalizeError>
    decreases fields.len(),
{
    if fields.len() == 0 {
        Seq::empty()
    } else {
        let earlier = spec_rejected(fields.drop_last());
        match fields.last() {
            Field::Invalid(pollutant) => earlier.push(NormalizeError::InvalidValue { pollutant }),
            _ => earlier,
        }
    }
}

/// The fields that normalization passes over or fails on: an
/// `InvalidValue` for each invalid field, in the order of the fields.
pub fn rejected(fields: &Vec<Field>) -> (errors: Vec<NormalizeError>)
    ensures
        errors@ == spec_rejected(fields@),
{
    let mut errors: Vec<NormalizeError> = Vec::new();
    let n = fields.len();
    let mut i: usize = 0;
    while i < n
        invariant
            n == fields@.len(),
            i <= n,
            errors@ == spec_rejected(fields@.take(i as int)),
        decreases n - i,
    {
        proof {
            let next = fields@.take(i + 1);
            assert(next.drop_last() =~= fields@.take(i as int));
            assert(next.last() == fields@[i as int]);
        }
        match fields[i] {
            Field::Invalid(pollutant) => {
                errors.push(NormalizeError::InvalidValue { pollutant });
            },
            _ => {},
        }
        i = i + 1;
    }
    assert(fields@.take(n as int) =~= fields@);
    errors
}

/// The fields of a payload, in the order they are read.
pub fn fields_of(raw: &ProviderPayload) -> (fields: Vec<Field>)
    ensures
        fields@ == raw.spec_fields(),
{
    match raw {
        ProviderPayload::Conditions(data) => conditions_fields(data),
        ProviderPayload::Observed { data, .. } => count_fields(data.pm25, data.o3, data.pm10),
        ProviderPayload::Forecast { forecast, .. } => count_fields(
            forecast.pm25,
            forecast.o3,
            forecast.pm10,
        ),
    }
}

/// Normalizes a payload into a canonical reading for the payload's place
/// and instant.
///
/// The reading carries the level of every pollutant that has a valid field.
/// Invalid fields are tolerated as long as one field is valid. Without a
/// valid field the payload is rejected: with `InvalidValue` for the first
/// invalid field, or with `NoRecognizedPollutants` where no field names a
/// known pollutant.
pub fn normalize(raw: ProviderPayload) -> (r: Result<Reading, NormalizeError>)
    ensures
        match spec_resolve(raw.spec_fields()) {
            Ok(levels) => r matches Ok(reading) && reading.wf() && reading@ == (ReadingView {
                location_key: raw.spec_location(),
                timestamp: raw.spec_timestamp(),
                pollutant_levels: levels,
            }),
            Err(e) => r == Err::<Reading, NormalizeError>(e),
        },
{
    let fields = fields_of(&raw);
    match resolve(&fields) {
        Err(e) => Err(e),
        Ok(pollutant_levels) => match raw {
            ProviderPayload::Conditions(data) => Ok(
                Reading {
                    location_key: data.region_code,
                    timestamp: data.date_time,
                    pollutant_levels,
                },
            ),
            ProviderPayload::Observed { location_key, timestamp, .. } => Ok(
                Reading { location_key, timestamp, pollutant_levels },
            ),
            ProviderPayload::Forecast { location_key, timestamp, .. } => Ok(
                Reading { location_key, timestamp, pollutant_levels },
            ),
        },
    }
}

} // verus!
