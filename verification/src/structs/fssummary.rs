//! One entry of a race's fastest sections.

use vstd::prelude::*;
use crate::clock::{clock_text, time_of_text, TimeOfDay};
use crate::integer::{i32_of_text, i32_text, int_text, parse_i32};
use crate::text::str_eq;
use crate::{ValueProcessor, CUMULATED_DISTANCE, INTERMEDIATE_TIME, SECTION_TIME};

verus! {

/// The fastest run of one section of a race, by any horse.
#[derive(Clone, Copy, Debug, PartialEq, Eq, Structural)]
pub struct FastestSectionSummary {
    pub cumulated_distance: i32,
    pub intermediate_time: TimeOfDay,
    pub section_time: TimeOfDay,
}

/// The fields of a fastest-section entry.
#[derive(Clone, Copy, Debug, PartialEq, Eq, Structural)]
pub enum FastestField {
    CumulatedDistance,
    IntermediateTime,
    SectionTime,
}

/// The field that a name stands for.
pub open spec fn fastest_field(name: Seq<char>) -> Option<FastestField> {
    if name == CUMULATED_DISTANCE@ {
        Some(FastestField::CumulatedDistance)
    } else if name == INTERMEDIATE_TIME@ {
        Some(FastestField::IntermediateTime)
    } else if name == SECTION_TIME@ {
        Some(FastestField::SectionTime)
    } else {
        None
    }
}

/// The field that a name stands for.
pub fn fastest_field_of(name: &str) -> (r: Option<FastestField>)
    ensures
        r == fastest_field(name@),
{
    if str_eq(name, CUMULATED_DISTANCE) {
        Some(FastestField::CumulatedDistance)
    } else if str_eq(name, INTERMEDIATE_TIME) {
        Some(FastestField::IntermediateTime)
    } else if str_eq(name, SECTION_TIME) {
        Some(FastestField::SectionTime)
    } else {
        None
    }
}

impl View for FastestSectionSummary {
    type V = FastestSectionSummary;

    open spec fn view(&self) -> FastestSectionSummary {
        *self
    }
}

impl FastestSectionSummary {
    /// The entry that nothing has been written to: the distance at zero, the
    /// times at midnight.
    pub open spec fn fresh() -> FastestSectionSummary {
        FastestSectionSummary {
            cumulated_distance: 0,
            intermediate_time: TimeOfDay { secs: 0, nanos: 0 },
            section_time: TimeOfDay { secs: 0, nanos: 0 },
        }
    }

    /// An entry that nothing has been written to.
    pub fn new() -> (r: Self)
        ensures
            r == Self::fresh(),
            Self::sound(r),
    {
        FastestSectionSummary {
            cumulated_distance: 0,
            intermediate_time: TimeOfDay::midnight(),
            section_time: TimeOfDay::midnight(),
        }
    }
}

impl ValueProcessor for FastestSectionSummary {
    open spec fn sound(v: FastestSectionSummary) -> bool {
        v.intermediate_time.wf() && v.section_time.wf()
    }

    open spec fn field_text(v: FastestSectionSummary, field: Seq<char>) -> Option<Seq<char>> {
        match fastest_field(field) {
            Some(FastestField::CumulatedDistance) => Some(int_text(v.cumulated_distance as int)),
            Some(FastestField::IntermediateTime) => Some(clock_text(v.intermediate_time)),
            Some(FastestField::SectionTime) => Some(clock_text(v.section_time)),
            None => None,
        }
    }

    open spec fn with_field(v: FastestSectionSummary, field: Seq<char>, text: Seq<char>) -> Option<
        FastestSectionSummary,
    > {
        match fastest_field(field) {
            Some(FastestField::CumulatedDistance) => match i32_of_text(text) {
                Some(x) => Some(FastestSectionSummary { cumulated_distance: x, ..v }),
                None => None,
            },
            Some(FastestField::IntermediateTime) => match time_of_text(text) {
                Some(t) => Some(FastestSectionSummary { intermediate_time: t, ..v }),
                None => None,
            },
            Some(FastestField::SectionTime) => match time_of_text(text) {
                Some(t) => Some(FastestSectionSummary { section_time: t, ..v }),
                None => None,
            },
            None => None,
        }
    }

    open spec fn refusal(field: Seq<char>) -> Seq<char> {
        match fastest_field(field) {
            Some(FastestField::CumulatedDistance) => "Invalid value for cumulated_distance"@,
            Some(FastestField::IntermediateTime) => "Invalid value for intermediate_time"@,
            Some(FastestField::SectionTime) => "Invalid value for section_time"@,
            None => "Field not found"@,
        }
    }

    open spec fn reads_back(field: Seq<char>) -> bool {
        true
    }

    fn get_single_fields(&self, field: &str) -> (r: Option<String>) {
        match fastest_field_of(field) {
            Some(FastestField::CumulatedDistance) => Some(i32_text(self.cumulated_distance)),
            Some(FastestField::IntermediateTime) => Some(self.intermediate_time.to_text()),
            Some(FastestField::SectionTime) => Some(self.section_time.to_text()),
            None => None,
        }
    }

    fn set_single_fields(&mut self, field: &str, new: String) -> (r: Result<(), &'static str>) {
        match fastest_field_of(field) {
            Some(FastestField::CumulatedDistance) => match parse_i32(new.as_str()) {
                Some(x) => {
                    self.cumulated_distance = x;
                    Ok(())
                },
                None => Err("Invalid value for cumulated_distance"),
            },
            Some(FastestField::IntermediateTime) => match TimeOfDay::parse(new.as_str()) {
                Some(t) => {
                    self.intermediate_time = t;
                    Ok(())
                },
                None => Err("Invalid value for intermediate_time"),
            },
            Some(FastestField::SectionTime) => match TimeOfDay::parse(new.as_str()) {
                Some(t) => {
                    self.section_time = t;
                    Ok(())
                },
                None => Err("Invalid value for section_time"),
            },
            None => Err("Field not found"),
        }
    }
}

} // verus!
