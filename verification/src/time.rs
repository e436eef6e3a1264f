//! Times: from the attributes of a time array to the index of a time in it.

use vstd::prelude::*;

use crate::attributes::{get_string, Attributes};
use crate::error::ZarrError;
use crate::floats::{is_less_64, is_nan_64};
use crate::text::{contains, same, text_before, text_behind, to_lowercase};

#[allow(unused_imports)]
use crate::attributes::{string_attribute, text_view};
#[allow(unused_imports)]
use crate::floats::{less_64, rank_64};
#[allow(unused_imports)]
use crate::text::{
    ascii_lowered, ascii_only, before, behind, first_at, has_part, lemma_first_at, lemma_first_exists,
    lowercased,
    occurs_at,
};

verus! {

/// A moment in UTC: whole seconds since 1970, and nanoseconds beyond them. A
/// leap second is the second before it with a whole second of nanoseconds.
#[derive(Clone, Copy, Debug, PartialEq, Eq, Structural)]
pub struct Moment {
    pub seconds: i64,
    pub nanos: u32,
}

/// How times are counted in a time array.
pub struct TimeMetadata {
    /// The unit of time.
    pub units: String,
    /// The second that is counted from, since 1970.
    pub epoch: i64,
    /// The calendar. Only that of UTC is known; the name is kept as it is.
    pub calendar: String,
}

/// A moment in the unit of a time array, exactly: seconds, times `numerator` over
/// `denominator`.
pub struct RawTime {
    pub seconds: i128,
    pub numerator: u32,
    pub denominator: u32,
}

/// The day 1970-01-01, counted from the first day of the year 1.
pub const UNIX_EPOCH_DAY: i64 = 719_163;

/// Seconds in a day.
pub const DAY_SECONDS: i64 = 86_400;

/// The day that a text names in the given format, counted from the first day of
/// the year 1; none where the text is no date.
pub uninterp spec fn parsed_day(text: Seq<char>, format: Seq<char>) -> Option<int>;

/// The day that a text names: `chrono::NaiveDate::parse_from_str`. The date comes
/// back as its day, which `num_days_from_ce` counts from the first day of the
/// year 1.
#[verifier::external_body]
fn parse_day(text: &str, format: &str) -> (r: Result<i32, chrono::ParseError>)
    ensures
        match r {
            Ok(day) => parsed_day(text@, format@) == Some(day as int),
            Err(_) => parsed_day(text@, format@) is None,
        },
{
    let date = chrono::NaiveDate::parse_from_str(text, format)?;
    Ok(chrono::Datelike::num_days_from_ce(&date))
}

/// The seconds and nanoseconds of a moment that a text names; none where the text
/// names no moment.
pub uninterp spec fn parsed_moment(text: Seq<char>) -> Option<(int, int)>;

/// The moment that a text names: `chrono::DateTime::parse_from_rfc3339`. The
/// moment comes back as its `timestamp` and its `timestamp_subsec_nanos`.
#[verifier::external_body]
pub(crate) fn parse_moment(text: &str) -> (r: Result<Moment, chrono::ParseError>)
    ensures
        match r {
            Ok(m) => parsed_moment(text@) == Some((m.seconds as int, m.nanos as int)),
            Err(_) => parsed_moment(text@) is None,
        },
{
    let at = chrono::DateTime::parse_from_rfc3339(text)?;
    Ok(Moment { seconds: at.timestamp(), nanos: at.timestamp_subsec_nanos() })
}

/// The second at which a day begins, since 1970.
pub open spec fn midnight(day: int) -> int {
    (day - UNIX_EPOCH_DAY) * DAY_SECONDS
}

/// What parts the unit of time from the date that is counted from.
pub open spec fn since() -> Seq<char> {
    " since "@
}

/// The text of the unit in `days since 1970-01-01 00:00:00`.
pub open spec fn unit_text(units: Seq<char>) -> Seq<char> {
    before(units, since())
}

/// The text of the date in `days since 1970-01-01 00:00:00`.
pub open spec fn date_text(units: Seq<char>) -> Seq<char> {
    before(before(behind(units, since()), since()), " "@)
}

/// By what a second is multiplied and divided to be counted in a unit. An unknown
/// unit is seconds.
pub open spec fn unit_scale(unit: Seq<char>) -> (u32, u32) {
    if unit == "days"@ {
        (1, 86400)
    } else if unit == "hours"@ {
        (1, 3600)
    } else if unit == "minutes"@ {
        (1, 60)
    } else if unit == "milliseconds"@ {
        (1000, 1)
    } else if unit == "microseconds"@ {
        (1_000_000, 1)
    } else {
        (1, 1)
    }
}

/// The whole seconds from `epoch` to a moment; a part of a second is dropped.
pub open spec fn seconds_since(at: Moment, epoch: int) -> int {
    let nanos = (at.seconds - epoch) * 1_000_000_000 + at.nanos;
    if nanos >= 0 {
        nanos / 1_000_000_000
    } else {
        -((-nanos) / 1_000_000_000)
    }
}

/// Whether the units of a time array say from when times are counted.
pub fn has_epoch(units: &str) -> (r: bool)
    ensures
        r <==> has_part(units@, since()),
{
    contains(units, " since ")
}

impl TimeMetadata {
    /// How times are counted, from the unit, the day that is counted from and
    /// the calendar.
    pub fn from_day(unit: String, day: i32, calendar: &str) -> (r: TimeMetadata)
        ensures
            r.units@ == unit@,
            r.epoch == midnight(day as int),
            r.calendar@ == calendar@,
    {
        TimeMetadata {
            units: unit,
            epoch: (day as i64 - UNIX_EPOCH_DAY) * DAY_SECONDS,
            calendar: calendar.to_owned(),
        }
    }

    /// Reads the attributes of a time array, such as `days since 1970-01-01`. The
    /// day begins at midnight, whatever time stands behind it.
    pub fn parse_zarr_time_attrs(units: &str, calendar: &str) -> (r: Result<
        TimeMetadata,
        ZarrError,
    >)
        requires
            has_part(units@, since()),
        ensures
            match r {
                Ok(meta) => {
                    &&& parsed_day(date_text(units@), "%Y-%m-%d"@) matches Some(day)
                    &&& meta.epoch == midnight(day)
                    &&& meta.units@ == lowercased(unit_text(units@))
                    &&& ascii_only(unit_text(units@)) ==> meta.units@ == ascii_lowered(
                        unit_text(units@),
                    )
                    &&& meta.calendar@ == calendar@
                },
                Err(e) => {
                    &&& parsed_day(date_text(units@), "%Y-%m-%d"@) is None
                    &&& e is ParseError
                },
            },
    {
        let unit_type = to_lowercase(text_before(units, " since "));
        let rest = text_before(text_behind(units, " since "), " since ");
        match parse_day(text_before(rest, " "), "%Y-%m-%d") {
            Ok(day) => Ok(TimeMetadata::from_day(unit_type, day, calendar)),
            Err(e) => Err(ZarrError::ParseError(e)),
        }
    }

    /// A moment in the unit of the time array.
    pub fn datetime_to_raw(&self, val: &Moment) -> (r: RawTime)
        ensures
            r.seconds == seconds_since(*val, self.epoch as int),
            (r.numerator, r.denominator) == unit_scale(self.units@),
    {
        let nanos: i128 = (val.seconds as i128 - self.epoch as i128) * 1_000_000_000
            + val.nanos as i128;
        let seconds: i128 = if nanos >= 0 {
            nanos / 1_000_000_000
        } else {
            -((-nanos) / 1_000_000_000)
        };
        let units = self.units.as_str();
        let (numerator, denominator): (u32, u32) = if same(units, "days") {
            (1, 86400)
        } else if same(units, "hours") {
            (1, 3600)
        } else if same(units, "minutes") {
            (1, 60)
        } else if same(units, "milliseconds") {
            (1000, 1)
        } else if same(units, "microseconds") {
            (1_000_000, 1)
        } else {
            (1, 1)
        };
        RawTime { seconds, numerator, denominator }
    }
}

/// How the numbers of a time array are stored.
#[derive(Clone, Copy, Debug, PartialEq, Eq, Structural)]
pub enum TimeType {
    Float32,
    Float64,
}

/// How the numbers of a time array with this data type are stored.
pub fn time_type(name: Option<&str>) -> (r: Result<TimeType, ZarrError>)
    ensures
        match r {
            Ok(TimeType::Float32) => name matches Some(n) && n@ == "float32"@,
            Ok(TimeType::Float64) => name matches Some(n) && n@ == "float64"@,
            Err(e) => {
                &&& name matches Some(n) ==> n@ != "float32"@ && n@ != "float64"@
                &&& e.is_dimension_error("Data type not supported"@)
            },
        },
{
    match name {
        Some(text) => {
            if same(text, "float32") {
                return Ok(TimeType::Float32);
            }
            if same(text, "float64") {
                return Ok(TimeType::Float64);
            }
        },
        None => {},
    }
    Err(ZarrError::DimensionError("Data type not supported".to_owned()))
}

/// Whether these are the unit and the calendar of a time array, or the error that
/// says which is missing.
pub open spec fn time_attrs_result(
    units: Option<Seq<char>>,
    calendar: Option<Seq<char>>,
    r: Result<(String, String), ZarrError>,
) -> bool {
    match (units, calendar) {
        (None, _) => r matches Err(e) && e.is_time_error("Could not get time units"@),
        (Some(_), None) => r matches Err(e) && e.is_time_error("Could not get calendar metadata"@),
        (Some(u), Some(c)) => r matches Ok(found) && found.0@ == u && found.1@ == c,
    }
}

/// The unit and the calendar of a time array, which both have to be there.
pub fn time_attrs(units: Option<String>, calendar: Option<String>) -> (r: Result<
    (String, String),
    ZarrError,
>)
    ensures
        time_attrs_result(text_view(units), text_view(calendar), r),
{
    let units = match units {
        Some(units) => units,
        None => {
            return Err(ZarrError::TimeError("Could not get time units".to_owned()));
        },
    };
    match calendar {
        Some(calendar) => Ok((units, calendar)),
        None => Err(ZarrError::TimeError("Could not get calendar metadata".to_owned())),
    }
}

/// The unit and the calendar of a time array: the attributes `units` and
/// `calendar`.
pub fn get_time_attrs(attributes: &Attributes) -> (r: Result<(String, String), ZarrError>)
    ensures
        time_attrs_result(
            string_attribute(attributes@, "units"@),
            string_attribute(attributes@, "calendar"@),
            r,
        ),
{
    time_attrs(get_string(attributes, "units"), get_string(attributes, "calendar"))
}

/// A moment in the unit of a time array with these attributes; none where its
/// units do not say from when times are counted.
pub fn raw_time(attributes: &Attributes, val: &Moment) -> (r: Result<Option<RawTime>, ZarrError>)
    ensures
        match (
            string_attribute(attributes@, "units"@),
            string_attribute(attributes@, "calendar"@),
        ) {
            (None, _) => r matches Err(e) && e.is_time_error("Could not get time units"@),
            (Some(_), None) => r matches Err(e) && e.is_time_error(
                "Could not get calendar metadata"@,
            ),
            (Some(units), Some(_)) => if !has_part(units, since()) {
                r matches Ok(None)
            } else {
                match parsed_day(date_text(units), "%Y-%m-%d"@) {
                    None => r matches Err(e) && e is ParseError,
                    Some(day) => {
                        &&& r matches Ok(Some(raw))
                        &&& raw.seconds == seconds_since(*val, midnight(day))
                        &&& (raw.numerator, raw.denominator) == unit_scale(
                            lowercased(unit_text(units)),
                        )
                        &&& ascii_only(unit_text(units)) ==> (raw.numerator, raw.denominator)
                            == unit_scale(ascii_lowered(unit_text(units)))
                    },
                }
            },
        },
{
    let (units, calendar) = match get_time_attrs(attributes) {
        Ok(found) => found,
        Err(e) => {
            return Err(e);
        },
    };
    if !has_epoch(units.as_str()) {
        return Ok(None);
    }
    match TimeMetadata::parse_zarr_time_attrs(units.as_str(), calendar.as_str()) {
        Ok(meta) => Ok(Some(meta.datetime_to_raw(val))),
        Err(e) => Err(e),
    }
}

/// How a time compares with the one that is looked for.
#[derive(Clone, Copy, Debug, PartialEq, Eq, Structural)]
pub enum Standing {
    Less,
    Equal,
    Greater,
}

/// How a time compares with the one that is looked for. What is no number counts
/// as equal.
pub open spec fn standing(time: u64, target: u64) -> Standing {
    if less_64(time, target) {
        Standing::Less
    } else if less_64(target, time) {
        Standing::Greater
    } else {
        Standing::Equal
    }
}

/// Whether the times that are less than the target come first, and those that are
/// greater come last: the first `from` are less, those from `to` on greater.
pub open spec fn parted(times: Seq<u64>, target: u64, from: int, to: int) -> bool {
    &&& 0 <= from <= to <= times.len()
    &&& forall|i: int| 0 <= i < from ==> standing(#[trigger] times[i], target) == Standing::Less
    &&& forall|i: int| from <= i < to ==> standing(#[trigger] times[i], target) == Standing::Equal
    &&& forall|i: int|
        to <= i < times.len() ==> standing(#[trigger] times[i], target) == Standing::Greater
}

/// The index of the time that is closest to the target, by the distances of the
/// times: one that equals it; else, of the two that it lies between, the one with
/// the lesser distance, the later one where there is none.
pub open spec fn is_closest(
    times: Seq<u64>,
    target: u64,
    distances: Seq<u64>,
    from: int,
    to: int,
    index: int,
) -> bool {
    if from < to {
        from <= index < to
    } else if from == 0 {
        index == 0
    } else if from >= times.len() {
        index == times.len() - 1
    } else if less_64(distances[from - 1], distances[from]) {
        index == from - 1
    } else {
        index == from
    }
}

/// How a time compares with the one that is looked for.
fn stand(time: u64, target: u64) -> (r: Standing)
    ensures
        r == standing(time, target),
{
    if is_less_64(time, target) {
        Standing::Less
    } else if is_less_64(target, time) {
        Standing::Greater
    } else {
        Standing::Equal
    }
}

/// A time that equals the target, or else the place where it would be inserted.
fn search(times: &Vec<u64>, target: u64) -> (r: Result<usize, usize>)
    ensures
        match r {
            Ok(at) => at < times@.len() && standing(times@[at as int], target) == Standing::Equal,
            Err(at) => at <= times@.len(),
        },
        forall|from: int, to: int| #[trigger]
            parted(times@, target, from, to) ==> match r {
                Ok(at) => from <= at < to,
                Err(at) => from == to && at == from,
            },
{
    let mut low: usize = 0;
    let mut high: usize = times.len();
    while low < high
        invariant
            low <= high <= times@.len(),
            forall|from: int, to: int| #[trigger]
                parted(times@, target, from, to) ==> low <= from && to <= high,
        decreases high - low,
    {
        let middle: usize = low + (high - low) / 2;
        match stand(times[middle], target) {
            Standing::Equal => {
                return Ok(middle);
            },
            Standing::Less => {
                low = middle + 1;
            },
            Standing::Greater => {
                high = middle;
            },
        }
    }
    Err(low)
}

/// The index of the time that is closest to the target.
///
/// Times, target and distances are bit patterns of double-precision numbers;
/// `distances` holds how far each time is from the target. There is no array
/// where the times do not lie next to each other in memory. In times that are not
/// in order some index comes back, and of no times the first.
pub fn find_closest_binary(
    time_array: &Option<Vec<u64>>,
    target: u64,
    distances: &Vec<u64>,
) -> (r: Result<usize, ZarrError>)
    requires
        time_array matches Some(times) ==> times@.len() == distances@.len(),
    ensures
        match r {
            Ok(index) => {
                &&& time_array matches Some(times)
                &&& index < times@.len() || (index == 0 && times@.len() == 0)
                &&& forall|from: int, to: int| #[trigger]
                    parted(times@, target, from, to) ==> is_closest(
                        times@,
                        target,
                        distances@,
                        from,
                        to,
                        index as int,
                    )
            },
            Err(e) => *time_array is None && e.is_time_error("Could not convert to slice"@),
        },
{
    let slice = match time_array {
        Some(slice) => slice,
        None => {
            return Err(ZarrError::TimeError("Could not convert to slice".to_owned()));
        },
    };
    match search(slice, target) {
        Ok(index) => Ok(index),
        Err(index) => {
            if index == 0 {
                return Ok(0);
            }
            if index >= slice.len() {
                return Ok(slice.len() - 1);
            }
            if is_less_64(distances[index - 1], distances[index]) {
                Ok(index - 1)
            } else {
                Ok(index)
            }
        },
    }
}

/// Whether the distances are those of times from the target: they are numbers,
/// and one is no less than another between it and the target.
pub open spec fn measure(times: Seq<u64>, target: u64, distances: Seq<u64>) -> bool {
    &&& distances.len() == times.len()
    &&& forall|i: int| 0 <= i < times.len() ==> rank_64(#[trigger] distances[i]) is Some
    &&& forall|i: int, j: int|
        0 <= i <= j < times.len() && standing(times[j], target) != Standing::Greater ==> !less_64(
            #[trigger] distances[i],
            #[trigger] distances[j],
        )
    &&& forall|i: int, j: int|
        0 <= i <= j < times.len() && standing(times[i], target) != Standing::Less ==> !less_64(
            #[trigger] distances[j],
            #[trigger] distances[i],
        )
}

/// The time that is found is the closest one: no other is nearer to the target.
pub proof fn law_closest_is_nearest(
    times: Seq<u64>,
    target: u64,
    distances: Seq<u64>,
    from: int,
    to: int,
    index: int,
    other: int,
)
    requires
        parted(times, target, from, to),
        measure(times, target, distances),
        is_closest(times, target, distances, from, to, index),
        0 <= other < times.len(),
    ensures
        !less_64(distances[other], distances[index]),
{
    assert(rank_64(distances[other]) is Some);
    assert(0 <= index < times.len());
    assert(rank_64(distances[index]) is Some);
    if from < to {
        assert(standing(times[index], target) == Standing::Equal);
    } else if other < from {
        assert(standing(times[from - 1], target) == Standing::Less);
        assert(!less_64(distances[other], distances[from - 1]));
        assert(rank_64(distances[from - 1]) is Some);
    } else {
        assert(standing(times[from], target) == Standing::Greater);
        assert(!less_64(distances[other], distances[from]));
        assert(rank_64(distances[from]) is Some);
    }
}

/// Whether the times are numbers in ascending order.
pub open spec fn ascending(times: Seq<u64>) -> bool {
    &&& forall|i: int| 0 <= i < times.len() ==> rank_64(#[trigger] times[i]) is Some
    &&& forall|i: int, j: int|
        0 <= i <= j < times.len() ==> !less_64(#[trigger] times[j], #[trigger] times[i])
}

/// Times in ascending order are parted by every target: the search for the
/// closest one finds it in any such array.
pub proof fn law_ascending_times_are_parted(times: Seq<u64>, target: u64)
    requires
        ascending(times),
    ensures
        exists|from: int, to: int| parted(times, target, from, to),
{
    let (from, to) = lemma_parted(times, target);
    assert(parted(times, target, from, to));
}

proof fn lemma_parted(times: Seq<u64>, target: u64) -> (r: (int, int))
    requires
        ascending(times),
    ensures
        parted(times, target, r.0, r.1),
    decreases times.len(),
{
    if times.len() == 0 {
        (0, 0)
    } else {
        let shorter = times.drop_last();
        let last = times.len() - 1;
        assert forall|i: int, j: int| 0 <= i <= j < shorter.len() implies !less_64(
            #[trigger] shorter[j],
            #[trigger] shorter[i],
        ) by {
            assert(!less_64(times[j], times[i]));
        }
        assert forall|i: int| 0 <= i < shorter.len() implies rank_64(#[trigger] shorter[i]) is Some by {
            assert(rank_64(times[i]) is Some);
        }
        let (from, to) = lemma_parted(shorter, target);
        assert forall|i: int| 0 <= i < shorter.len() implies #[trigger] times[i] == shorter[i] && !less_64(
            times[last],
            times[i],
        ) by {}
        assert(rank_64(times[last]) is Some);
        match standing(times[last], target) {
            Standing::Less => {
                assert forall|i: int| 0 <= i < times.len() implies standing(
                    #[trigger] times[i],
                    target,
                ) == Standing::Less by {
                    assert(rank_64(times[i]) is Some);
                }
                (times.len() as int, times.len() as int)
            },
            Standing::Equal => {
                assert forall|i: int| to <= i < last implies standing(#[trigger] times[i], target)
                    != Standing::Greater by {
                    assert(rank_64(times[i]) is Some);
                }
                assert(to == last) by {
                    if to < last {
                        assert(standing(shorter[to], target) == Standing::Greater);
                        assert(standing(times[to], target) != Standing::Greater);
                    }
                }
                (from, times.len() as int)
            },
            Standing::Greater => {
                (from, to)
            },
        }
    }
}

/// A later moment is no fewer seconds from the one that is counted from. Of a leap
/// second that lies before it this does not hold against the second right behind:
/// a part of the leap second counts as if that second had begun.
pub proof fn law_later_is_no_less(earlier: Moment, later: Moment, epoch: int)
    requires
        earlier.nanos < 2_000_000_000,
        later.nanos < 2_000_000_000,
        earlier.seconds < later.seconds || (earlier.seconds == later.seconds && earlier.nanos
            <= later.nanos),
        !(earlier.nanos > 1_000_000_000 && earlier.seconds + 1 < epoch && later.seconds
            == earlier.seconds + 1 && later.nanos == 0),
    ensures
        seconds_since(earlier, epoch) <= seconds_since(later, epoch),
{
}

/// Units that are written as a unit, ` since `, a date and perhaps more behind a
/// blank are read as that unit and that date.
pub proof fn law_units_are_read_as_written(
    unit: Seq<char>,
    date: Seq<char>,
    rest: Seq<char>,
)
    requires
        !has_part(unit + " since "@.drop_last(), " since "@),
        !date.contains(' '),
        rest.len() == 0 || rest[0] == ' ',
    ensures
        has_part(unit + " since "@ + date + rest, since()),
        unit_text(unit + " since "@ + date + rest) == unit,
        date_text(unit + " since "@ + date + rest) == date,
{
    reveal_strlit(" since ");
    reveal_strlit(" ");
    let units = unit + since() + date + rest;
    let n = unit.len() as int;
    assert(since().len() == 7);
    assert(occurs_at(units, since(), n)) by {
        assert(units.subrange(n, n + 7) =~= since());
    }
    assert forall|i: int| 0 <= i < n implies !#[trigger] occurs_at(units, since(), i) by {
        let prefix = unit + since().drop_last();
        assert(!occurs_at(prefix, since(), i));
        assert(prefix.subrange(i, i + 7) =~= units.subrange(i, i + 7));
    }
    lemma_first_at(units, since(), n);
    assert(unit_text(units) =~= unit);
    let tail = behind(units, since());
    assert(tail =~= date + rest);
    let part = before(tail, since());
    let d = date.len() as int;
    assert(d <= part.len() && part.subrange(0, d) =~= date && (part.len() > d ==> part[d] == ' ')) by {
        if has_part(tail, since()) {
            lemma_first_exists(tail, since());
            let at = choose|i: int| first_at(tail, since(), i);
            assert(first_at(tail, since(), at));
            assert(tail[at] == since()[0]) by {
                assert(tail.subrange(at, at + 7)[0] == tail[at]);
            }
            if at < d {
                assert(date[at] == ' ');
            }
        }
    }
    let blank = " "@;
    assert(blank.len() == 1 && blank[0] == ' ');
    if part.len() > d {
        assert(part.subrange(d, d + 1) =~= blank);
        assert(occurs_at(part, blank, d));
        assert forall|i: int| 0 <= i < d implies !#[trigger] occurs_at(part, blank, i) by {
            assert(part[i] == part.subrange(0, d)[i]);
            assert(date[i] != ' ');
            if occurs_at(part, blank, i) {
                assert(part.subrange(i, i + 1)[0] == part[i]);
            }
        }
        lemma_first_at(part, blank, d);
        assert(before(part, blank) =~= date);
    } else {
        assert(part =~= date);
        if has_part(part, blank) {
            let i = choose|i: int| #[trigger] occurs_at(part, blank, i);
            assert(part.subrange(i, i + 1)[0] == part[i]);
            assert(date[i] == ' ');
        }
    }
}

/// Seconds are counted exactly, however far the moment lies from the one that is
/// counted from: the count is off by a part of a second that is dropped, never past
/// the epoch. Whole seconds are their difference, and a moment `d` seconds later, on
/// the same side of the epoch, counts `d` more.
pub proof fn law_seconds_are_exact(at: Moment, epoch: int, d: int)
    requires
        i64::MIN <= at.seconds + d <= i64::MAX,
    ensures
        at.nanos == 0 ==> seconds_since(at, epoch) == at.seconds - epoch,
        ({
            let exact = (at.seconds - epoch) * 1_000_000_000 + at.nanos;
            let counted = seconds_since(at, epoch) * 1_000_000_000;
            &&& exact >= 0 ==> counted <= exact < counted + 1_000_000_000
            &&& exact <= 0 ==> counted - 1_000_000_000 < exact <= counted
        }),
        ({
            let exact = (at.seconds - epoch) * 1_000_000_000 + at.nanos;
            let later = Moment { seconds: (at.seconds + d) as i64, nanos: at.nanos };
            (exact >= 0 && exact + d * 1_000_000_000 >= 0) || (exact <= 0 && exact + d
                * 1_000_000_000 <= 0) ==> seconds_since(later, epoch) == seconds_since(at, epoch) + d
        }),
{
}

/// The units of time stand to each other as they should: a day has 24 hours, an hour
/// 60 minutes, a minute 60 seconds, a second 1000 milliseconds, and a millisecond
/// 1000 microseconds. Whatever is no such unit is a second.
pub proof fn law_units_of_time(unit: Seq<char>)
    ensures
        ({
            let days = unit_scale("days"@);
            let hours = unit_scale("hours"@);
            let minutes = unit_scale("minutes"@);
            let seconds = unit_scale("seconds"@);
            let milliseconds = unit_scale("milliseconds"@);
            let microseconds = unit_scale("microseconds"@);
            &&& seconds == (1u32, 1u32)
            &&& seconds.0 * minutes.1 == 60 * minutes.0 * seconds.1
            &&& minutes.0 * hours.1 == 60 * hours.0 * minutes.1
            &&& hours.0 * days.1 == 24 * days.0 * hours.1
            &&& milliseconds.0 * seconds.1 == 1000 * seconds.0 * milliseconds.1
            &&& microseconds.0 * milliseconds.1 == 1000 * milliseconds.0 * microseconds.1
            &&& days.0 > 0 && hours.0 > 0 && minutes.0 > 0 && milliseconds.1 > 0 && microseconds.1 > 0
        }),
        unit_scale(unit).0 > 0 && unit_scale(unit).1 > 0,
        unit != "days"@ && unit != "hours"@ && unit != "minutes"@ && unit != "milliseconds"@ && unit
            != "microseconds"@ ==> unit_scale(unit) == unit_scale("seconds"@),
{
    reveal_strlit("days");
    reveal_strlit("hours");
    reveal_strlit("minutes");
    reveal_strlit("seconds");
    reveal_strlit("milliseconds");
    reveal_strlit("microseconds");
    assert("days"@.len() == 4 && "hours"@.len() == 5 && "minutes"@.len() == 7 && "seconds"@.len() == 7);
    assert("milliseconds"@.len() == 12 && "microseconds"@.len() == 12);
    assert("minutes"@[0] != "seconds"@[0]);
    assert("milliseconds"@[2] != "microseconds"@[2]);
}

/// Days follow each other by 24 hours, and the one that is counted from begins at
/// zero.
pub proof fn law_days_follow_each_other(day: int)
    ensures
        midnight(day + 1) == midnight(day) + 24 * 60 * 60,
        midnight(719_163) == 0,
{
}

/// Of times in ascending order the one that is found is at no greater distance than
/// any other. It equals the target wherever one of them does; else no other time
/// lies between it and the target, and of two neighbours at one distance it is the
/// later.
pub proof fn law_closest_time_is_found(
    times: Seq<u64>,
    target: u64,
    distances: Seq<u64>,
    index: int,
    other: int,
)
    requires
        0 <= other < times.len(),
        distances.len() == times.len(),
        rank_64(target) is Some,
        forall|i: int| 0 <= i < times.len() ==> rank_64(#[trigger] times[i]) is Some,
        forall|i: int, j: int|
            0 <= i <= j < times.len() ==> rank_64(#[trigger] times[i])->Some_0 <= rank_64(
                #[trigger] times[j],
            )->Some_0,
        forall|i: int| 0 <= i < distances.len() ==> rank_64(#[trigger] distances[i]) is Some,
        forall|i: int, j: int|
            0 <= i <= j < times.len() && rank_64(times[j])->Some_0 <= rank_64(target)->Some_0
                ==> rank_64(#[trigger] distances[i])->Some_0 >= rank_64(
                #[trigger] distances[j],
            )->Some_0,
        forall|i: int, j: int|
            0 <= i <= j < times.len() && rank_64(times[i])->Some_0 >= rank_64(target)->Some_0
                ==> rank_64(#[trigger] distances[i])->Some_0 <= rank_64(
                #[trigger] distances[j],
            )->Some_0,
        forall|from: int, to: int| #[trigger]
            parted(times, target, from, to) ==> is_closest(
                times,
                target,
                distances,
                from,
                to,
                index,
            ),
    ensures
        0 <= index < times.len(),
        rank_64(distances[index])->Some_0 <= rank_64(distances[other])->Some_0,
        rank_64(times[other]) == rank_64(target) ==> rank_64(times[index]) == rank_64(target),
        rank_64(times[index])->Some_0 < rank_64(target)->Some_0 && index + 1 < times.len()
            ==> rank_64(distances[index])->Some_0 < rank_64(distances[index + 1])->Some_0,
        rank_64(times[index])->Some_0 < rank_64(target)->Some_0 && index < other ==> rank_64(
            target,
        )->Some_0 < rank_64(times[other])->Some_0,
        rank_64(times[index])->Some_0 > rank_64(target)->Some_0 && other < index ==> rank_64(
            target,
        )->Some_0 > rank_64(times[other])->Some_0,
{
    assert forall|i: int, j: int| 0 <= i <= j < times.len() implies !less_64(
        #[trigger] times[j],
        #[trigger] times[i],
    ) by {
        assert(rank_64(times[i])->Some_0 <= rank_64(times[j])->Some_0);
    }
    assert(ascending(times));
    let (from, to) = lemma_parted(times, target);
    assert(parted(times, target, from, to));
    assert(is_closest(times, target, distances, from, to, index));
    assert forall|i: int| 0 <= i < times.len() implies {
        &&& standing(#[trigger] times[i], target) == Standing::Less <==> rank_64(times[i])->Some_0
            < rank_64(target)->Some_0
        &&& standing(times[i], target) == Standing::Greater <==> rank_64(times[i])->Some_0 > rank_64(
            target,
        )->Some_0
    } by {
        assert(rank_64(times[i]) is Some);
    }
    assert(measure(times, target, distances)) by {
        assert forall|i: int, j: int|
            0 <= i <= j < times.len() && standing(times[j], target)
                != Standing::Greater implies !less_64(#[trigger] distances[i], #[trigger] distances[j]) by {
            assert(rank_64(times[j]) is Some);
            assert(rank_64(distances[i])->Some_0 >= rank_64(distances[j])->Some_0);
        }
        assert forall|i: int, j: int|
            0 <= i <= j < times.len() && standing(times[i], target)
                != Standing::Less implies !less_64(#[trigger] distances[j], #[trigger] distances[i]) by {
            assert(rank_64(times[i]) is Some);
            assert(rank_64(distances[i])->Some_0 <= rank_64(distances[j])->Some_0);
        }
    }
    law_closest_is_nearest(times, target, distances, from, to, index, other);
    assert(rank_64(distances[other]) is Some && rank_64(distances[index]) is Some);
    assert(rank_64(times[other]) is Some && rank_64(times[index]) is Some);
    assert(standing(times[index], target) == Standing::Less || standing(times[index], target)
        != Standing::Less);
    assert(standing(times[other], target) == Standing::Equal <==> rank_64(times[other]) == rank_64(
        target,
    ));
}

/// A time array has its unit and its calendar exactly where both are texts, whatever
/// they say.
pub proof fn law_time_attributes_are_read_as_they_stand(
    units: Option<Seq<char>>,
    calendar: Option<Seq<char>>,
    r: Result<(String, String), ZarrError>,
)
    requires
        time_attrs_result(units, calendar, r),
    ensures
        r is Ok <==> units is Some && calendar is Some,
        r matches Ok(found) ==> units == Some(found.0@) && calendar == Some(found.1@),
        r matches Err(e) ==> e is TimeError,
{
}

} // verus!
