//! One section of a horse's run.

use vstd::prelude::*;
use crate::clock::{clock_text, time_of_text, TimeOfDay};
use crate::decimal::{decimal_of_text, decimal_text, Decimal};
use crate::integer::{i32_of_text, i32_text, int_text, parse_i32};
use crate::text::str_eq;
use crate::{
    ValueProcessor, AVERAGE_DISTANCE_TO_RAIL, AVERAGE_STRIDE_FREQUENCY, AVERAGE_STRIDE_LENGTH,
    AVG_SPEED, CUMULATED_DISTANCE, INTERMEDIATE_TIME, MARGIN_DECIMAL, RANK, REAL_DISTANCE,
    SECTION_TIME, TOP_SPEED,
};

verus! {

/// How a horse ran one section of a race.
#[derive(Clone, Copy, Debug, PartialEq, Eq, Structural)]
pub struct SectionSummary {
    pub cumulated_distance: i32,
    pub margin_decimal: Decimal,
    pub real_distance: Decimal,
    pub rank: i32,
    pub intermediate_time: TimeOfDay,
    pub section_time: TimeOfDay,
    pub avg_speed: Decimal,
    pub top_speed: Decimal,
    pub avg_stride_freq: Decimal,
    pub average_stride_length: Decimal,
    pub avg_distance_rail: Decimal,
}

/// The fields of a section.
#[derive(Clone, Copy, Debug, PartialEq, Eq, Structural)]
pub enum SectionField {
    CumulatedDistance,
    MarginDecimal,
    RealDistance,
    Rank,
    IntermediateTime,
    SectionTime,
    AvgSpeed,
    TopSpeed,
    AverageStrideFrequency,
    AverageStrideLength,
    AverageDistanceToRail,
}

/// The field that a name stands for.
pub open spec fn section_field(name: Seq<char>) -> Option<SectionField> {
    if name == CUMULATED_DISTANCE@ {
        Some(SectionField::CumulatedDistance)
    } else if name == MARGIN_DECIMAL@ {
        Some(SectionField::MarginDecimal)
    } else if name == REAL_DISTANCE@ {
        Some(SectionField::RealDistance)
    } else if name == RANK@ {
        Some(SectionField::Rank)
    } else if name == INTERMEDIATE_TIME@ {
        Some(SectionField::IntermediateTime)
    } else if name == SECTION_TIME@ {
        Some(SectionField::SectionTime)
    } else if name == AVG_SPEED@ {
        Some(SectionField::AvgSpeed)
    } else if name == TOP_SPEED@ {
        Some(SectionField::TopSpeed)
    } else if name == AVERAGE_STRIDE_FREQUENCY@ {
        Some(SectionField::AverageStrideFrequency)
    } else if name == AVERAGE_STRIDE_LENGTH@ {
        Some(SectionField::AverageStrideLength)
    } else if name == AVERAGE_DISTANCE_TO_RAIL@ {
        Some(SectionField::AverageDistanceToRail)
    } else {
        None
    }
}

/// The field that a name stands for.
pub fn section_field_of(name: &str) -> (r: Option<SectionField>)
    ensures
        r == section_field(name@),
{
    if str_eq(name, CUMULATED_DISTANCE) {
        Some(SectionField::CumulatedDistance)
    } else if str_eq(name, MARGIN_DECIMAL) {
        Some(SectionField::MarginDecimal)
    } else if str_eq(name, REAL_DISTANCE) {
        Some(SectionField::RealDistance)
    } else if str_eq(name, RANK) {
        Some(SectionField::Rank)
    } else if str_eq(name, INTERMEDIATE_TIME) {
        Some(SectionField::IntermediateTime)
    } else if str_eq(name, SECTION_TIME) {
        Some(SectionField::SectionTime)
    } else if str_eq(name, AVG_SPEED) {
        Some(SectionField::AvgSpeed)
    } else if str_eq(name, TOP_SPEED) {
        Some(SectionField::TopSpeed)
    } else if str_eq(name, AVERAGE_STRIDE_FREQUENCY) {
        Some(SectionField::AverageStrideFrequency)
    } else if str_eq(name, AVERAGE_STRIDE_LENGTH) {
        Some(SectionField::AverageStrideLength)
    } else if str_eq(name, AVERAGE_DISTANCE_TO_RAIL) {
        Some(SectionField::AverageDistanceToRail)
    } else {
        None
    }
}

impl View for SectionSummary {
    type V = SectionSummary;

    open spec fn view(&self) -> SectionSummary {
        *self
    }
}

impl SectionSummary {
    /// The section that nothing has been written to: numbers at zero, times
    /// at midnight.
    pub open spec fn fresh() -> SectionSummary {
        let zero = Decimal { negative: false, digits: 0, scale: 0 };
        let midnight = TimeOfDay { secs: 0, nanos: 0 };
        SectionSummary {
            cumulated_distance: 0,
            margin_decimal: zero,
            real_distance: zero,
            rank: 0,
            intermediate_time: midnight,
            section_time: midnight,
            avg_speed: zero,
            top_speed: zero,
            avg_stride_freq: zero,
            average_stride_length: zero,
            avg_distance_rail: zero,
        }
    }

    /// A section that nothing has been written to.
    pub fn new() -> (r: Self)
        ensures
            r == Self::fresh(),
            Self::sound(r),
    {
        SectionSummary {
            cumulated_distance: 0,
            margin_decimal: Decimal::zero(),
            real_distance: Decimal::zero(),
            rank: 0,
            intermediate_time: TimeOfDay::midnight(),
            section_time: TimeOfDay::midnight(),
            avg_speed: Decimal::zero(),
            top_speed: Decimal::zero(),
            avg_stride_freq: Decimal::zero(),
            average_stride_length: Decimal::zero(),
            avg_distance_rail: Decimal::zero(),
        }
    }
}

impl ValueProcessor for SectionSummary {
    open spec fn sound(v: SectionSummary) -> bool {
        &&& v.margin_decimal.wf()
        &&& v.real_distance.wf()
        &&& v.intermediate_time.wf()
        &&& v.section_time.wf()
        &&& v.avg_speed.wf()
        &&& v.top_speed.wf()
        &&& v.avg_stride_freq.wf()
        &&& v.average_stride_length.wf()
        &&& v.avg_distance_rail.wf()
    }

    open spec fn field_text(v: SectionSummary, field: Seq<char>) -> Option<Seq<char>> {
        match section_field(field) {
            Some(SectionField::CumulatedDistance) => Some(int_text(v.cumulated_distance as int)),
            Some(SectionField::MarginDecimal) => Some(decimal_text(v.margin_decimal)),
            Some(SectionField::RealDistance) => Some(decimal_text(v.real_distance)),
            Some(SectionField::Rank) => Some(int_text(v.rank as int)),
            Some(SectionField::IntermediateTime) => Some(clock_text(v.intermediate_time)),
            Some(SectionField::SectionTime) => Some(clock_text(v.section_time)),
            Some(SectionField::AvgSpeed) => Some(decimal_text(v.avg_speed)),
            Some(SectionField::TopSpeed) => Some(decimal_text(v.top_speed)),
            Some(SectionField::AverageStrideFrequency) => Some(decimal_text(v.avg_stride_freq)),
            Some(SectionField::AverageStrideLength) => Some(decimal_text(v.average_stride_length)),
            Some(SectionField::AverageDistanceToRail) => Some(decimal_text(v.avg_distance_rail)),
            None => None,
        }
    }

    open spec fn with_field(v: SectionSummary, field: Seq<char>, text: Seq<char>) -> Option<SectionSummary> {
        match section_field(field) {
            Some(SectionField::CumulatedDistance) => match i32_of_text(text) {
                Some(x) => Some(SectionSummary { cumulated_distance: x, ..v }),
                None => None,
            },
            Some(SectionField::MarginDecimal) => match decimal_of_text(text) {
                Some(x) => Some(SectionSummary { margin_decimal: x, ..v }),
                None => None,
            },
            Some(SectionField::RealDistance) => match decimal_of_text(text) {
                Some(x) => Some(SectionSummary { real_distance: x, ..v }),
                None => None,
            },
            Some(SectionField::Rank) => match i32_of_text(text) {
                Some(x) => Some(SectionSummary { rank: x, ..v }),
                None => None,
            },
            Some(SectionField::IntermediateTime) => match time_of_text(text) {
                Some(x) => Some(SectionSummary { intermediate_time: x, ..v }),
                None => None,
            },
            Some(SectionField::SectionTime) => match time_of_text(text) {
                Some(x) => Some(SectionSummary { section_time: x, ..v }),
                None => None,
            },
            Some(SectionField::AvgSpeed) => match decimal_of_text(text) {
                Some(x) => Some(SectionSummary { avg_speed: x, ..v }),
                None => None,
            },
            Some(SectionField::TopSpeed) => match decimal_of_text(text) {
                Some(x) => Some(SectionSummary { top_speed: x, ..v }),
                None => None,
            },
            Some(SectionField::AverageStrideFrequency) => match decimal_of_text(text) {
                Some(x) => Some(SectionSummary { avg_stride_freq: x, ..v }),
                None => None,
            },
            Some(SectionField::AverageStrideLength) => match decimal_of_text(text) {
                Some(x) => Some(SectionSummary { average_stride_length: x, ..v }),
                None => None,
            },
            Some(SectionField::AverageDistanceToRail) => match decimal_of_text(text) {
                Some(x) => Some(SectionSummary { avg_distance_rail: x, ..v }),
                None => None,
            },
            None => None,
        }
    }

    open spec fn refusal(field: Seq<char>) -> Seq<char> {
        match section_field(field) {
            Some(SectionField::CumulatedDistance) => "Invalid value for cumulated_distance"@,
            Some(SectionField::MarginDecimal) => "Invalid value for margin_decimal"@,
            Some(SectionField::RealDistance) => "Invalid value for real_distance"@,
            Some(SectionField::Rank) => "Invalid value for rank"@,
            Some(SectionField::IntermediateTime) => "Invalid value for intermediate_time"@,
            Some(SectionField::SectionTime) => "Invalid value for section_time"@,
            Some(SectionField::AvgSpeed) => "Invalid value for avg_speed"@,
            Some(SectionField::TopSpeed) => "Invalid value for top_speed"@,
            Some(SectionField::AverageStrideFrequency) => "Invalid value for avg_stride_freq"@,
            Some(SectionField::AverageStrideLength) => "Invalid value for average_stride_length"@,
            Some(SectionField::AverageDistanceToRail) => "Invalid value for avg_distance_rail"@,
            None => "Field not found"@,
        }
    }

    open spec fn reads_back(field: Seq<char>) -> bool {
        true
    }

    fn get_single_fields(&self, field: &str) -> (r: Option<String>) {
        match section_field_of(field) {
            Some(SectionField::CumulatedDistance) => Some(i32_text(self.cumulated_distance)),
            Some(SectionField::MarginDecimal) => Some(self.margin_decimal.to_text()),
            Some(SectionField::RealDistance) => Some(self.real_distance.to_text()),
            Some(SectionField::Rank) => Some(i32_text(self.rank)),
            Some(SectionField::IntermediateTime) => Some(self.intermediate_time.to_text()),
            Some(SectionField::SectionTime) => Some(self.section_time.to_text()),
            Some(SectionField::AvgSpeed) => Some(self.avg_speed.to_text()),
            Some(SectionField::TopSpeed) => Some(self.top_speed.to_text()),
            Some(SectionField::AverageStrideFrequency) => Some(self.avg_stride_freq.to_text()),
            Some(SectionField::AverageStrideLength) => Some(self.average_stride_length.to_text()),
            Some(SectionField::AverageDistanceToRail) => Some(self.avg_distance_rail.to_text()),
            None => None,
        }
    }

    fn set_single_fields(&mut self, field: &str, new: String) -> (r: Result<(), &'static str>) {
        match section_field_of(field) {
            Some(SectionField::CumulatedDistance) => match parse_i32(new.as_str()) {
                Some(x) => {
                    self.cumulated_distance = x;
                    Ok(())
                },
                None => Err("Invalid value for cumulated_distance"),
            },
            Some(SectionField::MarginDecimal) => match Decimal::parse(new.as_str()) {
                Some(x) => {
                    self.margin_decimal = x;
                    Ok(())
                },
                None => Err("Invalid value for margin_decimal"),
            },
            Some(SectionField::RealDistance) => match Decimal::parse(new.as_str()) {
                Some(x) => {
                    self.real_distance = x;
                    Ok(())
                },
                None => Err("Invalid value for real_distance"),
            },
            Some(SectionField::Rank) => match parse_i32(new.as_str()) {
                Some(x) => {
                    self.rank = x;
                    Ok(())
                },
                None => Err("Invalid value for rank"),
            },
            Some(SectionField::IntermediateTime) => match TimeOfDay::parse(new.as_str()) {
                Some(x) => {
                    self.intermediate_time = x;
                    Ok(())
                },
                None => Err("Invalid value for intermediate_time"),
            },
            Some(SectionField::SectionTime) => match TimeOfDay::parse(new.as_str()) {
                Some(x) => {
                    self.section_time = x;
                    Ok(())
                },
                None => Err("Invalid value for section_time"),
            },
            Some(SectionField::AvgSpeed) => match Decimal::parse(new.as_str()) {
                Some(x) => {
                    self.avg_speed = x;
                    Ok(())
                },
                None => Err("Invalid value for avg_speed"),
            },
            Some(SectionField::TopSpeed) => match Decimal::parse(new.as_str()) {
                Some(x) => {
                    self.top_speed = x;
                    Ok(())
                },
                None => Err("Invalid value for top_speed"),
            },
            Some(SectionField::AverageStrideFrequency) => match Decimal::parse(new.as_str()) {
                Some(x) => {
                    self.avg_stride_freq = x;
                    Ok(())
                },
                None => Err("Invalid value for avg_stride_freq"),
            },
            Some(SectionField::AverageStrideLength) => match Decimal::parse(new.as_str()) {
                Some(x) => {
                    self.average_stride_length = x;
                    Ok(())
                },
                None => Err("Invalid value for average_stride_length"),
            },
            Some(SectionField::AverageDistanceToRail) => match Decimal::parse(new.as_str()) {
                Some(x) => {
                    self.avg_distance_rail = x;
                    Ok(())
                },
                None => Err("Invalid value for avg_distance_rail"),
            },
            None => Err("Field not found"),
        }
    }
}

} // verus!
