//! One horse of a race: who it is, how it ran, and its sections.

use vstd::prelude::*;
use super::sectionsummary::SectionSummary;
use crate::clock::{clock_text, time_of_text, TimeOfDay};
use crate::decimal::{bare_decimal_of_text, decimal_of_text, decimal_text, Decimal};
use crate::integer::{
    bool_of_text, bool_string, bool_text, i32_of_text, i32_text, int_text, parse_bool, parse_i32,
    parse_u8, u8_of_text, u8_text,
};
use crate::text::str_eq;
use crate::{
    attribute_field, with_attributes, written, ValueProcessor, BIB,
    DISTANCE_TRAVELED_DIFFERENCE, DISTANCE_TRAVELLED, DRAW_NUMBER, FASTEST_SECTION_INDEX,
    FASTEST_SECTION_TIME, FINAL_RANK, FINISH_TIME, HORSE_CODE, IS_FINISH_TIME_OFFICIAL, NAME,
    OFFICIAL_MARGIN_DECIMAL, RANKS, RESULT_STATE, RESULT_SUB_STATE, SPEEDS, TOP_SPEED,
    TOP_SPEED_SECTION_INDEX,
};

verus! {

/// A horse of a race: who it is, how it ran, its speeds and ranks along the
/// way, and its sections.
#[derive(Clone, Debug, PartialEq)]
pub struct HorseSummary {
    pub name: String,
    pub code: i32,
    pub bib: i32,
    pub draw_number: i32,
    pub distance_travelled: i32,
    pub distance_difference: i32,
    pub final_rank: u8,
    pub time_official: bool,
    pub official_margin: Decimal,
    pub fastest_section_time: TimeOfDay,
    pub fastest_section_index: u8,
    pub top_speed: Decimal,
    pub top_speed_index: u8,
    pub finish_time: TimeOfDay,
    pub result_state: String,
    pub result_substate: String,
    pub speeds: Vec<(i32, Decimal)>,
    pub ranks: Vec<(i32, Decimal)>,
    pub sections: Vec<SectionSummary>,
}

/// What a horse's record holds.
pub struct HorseSummaryView {
    pub name: Seq<char>,
    pub code: i32,
    pub bib: i32,
    pub draw_number: i32,
    pub distance_travelled: i32,
    pub distance_difference: i32,
    pub final_rank: u8,
    pub time_official: bool,
    pub official_margin: Decimal,
    pub fastest_section_time: TimeOfDay,
    pub fastest_section_index: u8,
    pub top_speed: Decimal,
    pub top_speed_index: u8,
    pub finish_time: TimeOfDay,
    pub result_state: Seq<char>,
    pub result_substate: Seq<char>,
    pub speeds: Seq<(i32, Decimal)>,
    pub ranks: Seq<(i32, Decimal)>,
    pub sections: Seq<SectionSummary>,
}

/// The fields of a horse that hold one value each.
#[derive(Clone, Copy, Debug, PartialEq, Eq, Structural)]
pub enum HorseField {
    Name,
    Code,
    Bib,
    DrawNumber,
    DistanceTravelled,
    DistanceDifference,
    FinalRank,
    TimeOfficial,
    OfficialMargin,
    FastestSectionTime,
    FastestSectionIndex,
    TopSpeed,
    TopSpeedIndex,
    FinishTime,
    ResultState,
    ResultSubstate,
}

/// The field that a name stands for.
pub open spec fn horse_field(name: Seq<char>) -> Option<HorseField> {
    if name == NAME@ {
        Some(HorseField::Name)
    } else if name == HORSE_CODE@ {
        Some(HorseField::Code)
    } else if name == BIB@ {
        Some(HorseField::Bib)
    } else if name == DRAW_NUMBER@ {
        Some(HorseField::DrawNumber)
    } else if name == DISTANCE_TRAVELLED@ {
        Some(HorseField::DistanceTravelled)
    } else if name == DISTANCE_TRAVELED_DIFFERENCE@ {
        Some(HorseField::DistanceDifference)
    } else if name == FINAL_RANK@ {
        Some(HorseField::FinalRank)
    } else if name == IS_FINISH_TIME_OFFICIAL@ {
        Some(HorseField::TimeOfficial)
    } else if name == OFFICIAL_MARGIN_DECIMAL@ {
        Some(HorseField::OfficialMargin)
    } else if name == FASTEST_SECTION_TIME@ {
        Some(HorseField::FastestSectionTime)
    } else if name == FASTEST_SECTION_INDEX@ {
        Some(HorseField::FastestSectionIndex)
    } else if name == TOP_SPEED@ {
        Some(HorseField::TopSpeed)
    } else if name == TOP_SPEED_SECTION_INDEX@ {
        Some(HorseField::TopSpeedIndex)
    } else if name == FINISH_TIME@ {
        Some(HorseField::FinishTime)
    } else if name == RESULT_STATE@ {
        Some(HorseField::ResultState)
    } else if name == RESULT_SUB_STATE@ {
        Some(HorseField::ResultSubstate)
    } else {
        None
    }
}

/// The field that a name stands for.
pub fn horse_field_of(name: &str) -> (r: Option<HorseField>)
    ensures
        r == horse_field(name@),
{
    if str_eq(name, NAME) {
        Some(HorseField::Name)
    } else if str_eq(name, HORSE_CODE) {
        Some(HorseField::Code)
    } else if str_eq(name, BIB) {
        Some(HorseField::Bib)
    } else if str_eq(name, DRAW_NUMBER) {
        Some(HorseField::DrawNumber)
    } else if str_eq(name, DISTANCE_TRAVELLED) {
        Some(HorseField::DistanceTravelled)
    } else if str_eq(name, DISTANCE_TRAVELED_DIFFERENCE) {
        Some(HorseField::DistanceDifference)
    } else if str_eq(name, FINAL_RANK) {
        Some(HorseField::FinalRank)
    } else if str_eq(name, IS_FINISH_TIME_OFFICIAL) {
        Some(HorseField::TimeOfficial)
    } else if str_eq(name, OFFICIAL_MARGIN_DECIMAL) {
        Some(HorseField::OfficialMargin)
    } else if str_eq(name, FASTEST_SECTION_TIME) {
        Some(HorseField::FastestSectionTime)
    } else if str_eq(name, FASTEST_SECTION_INDEX) {
        Some(HorseField::FastestSectionIndex)
    } else if str_eq(name, TOP_SPEED) {
        Some(HorseField::TopSpeed)
    } else if str_eq(name, TOP_SPEED_SECTION_INDEX) {
        Some(HorseField::TopSpeedIndex)
    } else if str_eq(name, FINISH_TIME) {
        Some(HorseField::FinishTime)
    } else if str_eq(name, RESULT_STATE) {
        Some(HorseField::ResultState)
    } else if str_eq(name, RESULT_SUB_STATE) {
        Some(HorseField::ResultSubstate)
    } else {
        None
    }
}

impl View for HorseSummary {
    type V = HorseSummaryView;

    open spec fn view(&self) -> HorseSummaryView {
        HorseSummaryView {
            name: self.name@,
            code: self.code,
            bib: self.bib,
            draw_number: self.draw_number,
            distance_travelled: self.distance_travelled,
            distance_difference: self.distance_difference,
            final_rank: self.final_rank,
            time_official: self.time_official,
            official_margin: self.official_margin,
            fastest_section_time: self.fastest_section_time,
            fastest_section_index: self.fastest_section_index,
            top_speed: self.top_speed,
            top_speed_index: self.top_speed_index,
            finish_time: self.finish_time,
            result_state: self.result_state@,
            result_substate: self.result_substate@,
            speeds: self.speeds@,
            ranks: self.ranks@,
            sections: self.sections@,
        }
    }
}

/// The pairs that a horse keeps under a name: its speeds or its ranks.
pub open spec fn tuple_field(v: HorseSummaryView, field: Seq<char>) -> Option<Seq<(i32, Decimal)>> {
    if field == SPEEDS@ {
        Some(v.speeds)
    } else if field == RANKS@ {
        Some(v.ranks)
    } else {
        None
    }
}

/// The horse once a pair has been added under a name, or nothing where no
/// pairs are kept under that name.
pub open spec fn with_tuple(v: HorseSummaryView, field: Seq<char>, pair: (i32, Decimal)) -> Option<
    HorseSummaryView,
> {
    if field == SPEEDS@ {
        Some(HorseSummaryView { speeds: v.speeds.push(pair), ..v })
    } else if field == RANKS@ {
        Some(HorseSummaryView { ranks: v.ranks.push(pair), ..v })
    } else {
        None
    }
}

impl HorseSummary {
    /// The horse that nothing has been written to: texts and lists empty,
    /// numbers at zero, times at midnight.
    pub open spec fn fresh() -> HorseSummaryView {
        let zero = Decimal { negative: false, digits: 0, scale: 0 };
        let midnight = TimeOfDay { secs: 0, nanos: 0 };
        HorseSummaryView {
            name: Seq::empty(),
            code: 0,
            bib: 0,
            draw_number: 0,
            distance_travelled: 0,
            distance_difference: 0,
            final_rank: 0,
            time_official: false,
            official_margin: zero,
            fastest_section_time: midnight,
            fastest_section_index: 0,
            top_speed: zero,
            top_speed_index: 0,
            finish_time: midnight,
            result_state: Seq::empty(),
            result_substate: Seq::empty(),
            speeds: Seq::empty(),
            ranks: Seq::empty(),
            sections: Seq::empty(),
        }
    }

    /// A horse that nothing has been written to.
    pub fn new() -> (r: Self)
        ensures
            r@ == Self::fresh(),
            Self::sound(r@),
    {
        HorseSummary {
            name: String::new(),
            code: 0,
            bib: 0,
            draw_number: 0,
            distance_travelled: 0,
            distance_difference: 0,
            final_rank: 0,
            time_official: false,
            official_margin: Decimal::zero(),
            fastest_section_time: TimeOfDay::midnight(),
            fastest_section_index: 0,
            top_speed: Decimal::zero(),
            top_speed_index: 0,
            finish_time: TimeOfDay::midnight(),
            result_state: String::new(),
            result_substate: String::new(),
            speeds: Vec::new(),
            ranks: Vec::new(),
            sections: Vec::new(),
        }
    }

    /// The pairs kept under a name, if any are.
    pub fn get_tuple_field(&self, field: &str) -> (r: Option<&Vec<(i32, Decimal)>>)
        ensures
            r is Some <==> tuple_field(self@, field@) is Some,
            r matches Some(pairs) ==> tuple_field(self@, field@) == Some(pairs@),
    {
        if str_eq(field, SPEEDS) {
            Some(&self.speeds)
        } else if str_eq(field, RANKS) {
            Some(&self.ranks)
        } else {
            None
        }
    }

    /// Adds a pair at the end of the pairs kept under a name.
    pub fn add_tuple_field(&mut self, field: &str, new: (i32, Decimal)) -> (r: Result<
        (),
        &'static str,
    >)
        ensures
            r is Ok <==> with_tuple(old(self)@, field@, new) is Some,
            r is Ok ==> with_tuple(old(self)@, field@, new) == Some(final(self)@),
            r matches Err(m) ==> final(self)@ == old(self)@ && m@ == "Field not found"@,
    {
        if str_eq(field, SPEEDS) {
            self.speeds.push(new);
            Ok(())
        } else if str_eq(field, RANKS) {
            self.ranks.push(new);
            Ok(())
        } else {
            Err("Field not found")
        }
    }

    /// Adds a section at the end of the horse's sections.
    pub fn add_section(&mut self, new: SectionSummary)
        ensures
            final(self)@ == (HorseSummaryView {
                sections: old(self)@.sections.push(new),
                ..old(self)@
            }),
    {
        self.sections.push(new)
    }
}

impl ValueProcessor for HorseSummary {
    open spec fn sound(v: HorseSummaryView) -> bool {
        &&& v.official_margin.wf()
        &&& v.fastest_section_time.wf()
        &&& v.top_speed.wf()
        &&& v.finish_time.wf()
    }

    open spec fn field_text(v: HorseSummaryView, field: Seq<char>) -> Option<Seq<char>> {
        match horse_field(field) {
            Some(HorseField::Name) => Some(v.name),
            Some(HorseField::Code) => Some(int_text(v.code as int)),
            Some(HorseField::Bib) => Some(int_text(v.bib as int)),
            Some(HorseField::DrawNumber) => Some(int_text(v.draw_number as int)),
            Some(HorseField::DistanceTravelled) => Some(int_text(v.distance_travelled as int)),
            Some(HorseField::DistanceDifference) => Some(int_text(v.distance_difference as int)),
            Some(HorseField::FinalRank) => Some(int_text(v.final_rank as int)),
            Some(HorseField::TimeOfficial) => Some(bool_text(v.time_official)),
            Some(HorseField::OfficialMargin) => Some(decimal_text(v.official_margin)),
            Some(HorseField::FastestSectionTime) => Some(clock_text(v.fastest_section_time)),
            Some(HorseField::FastestSectionIndex) => Some(int_text(v.fastest_section_index as int)),
            Some(HorseField::TopSpeed) => Some(decimal_text(v.top_speed)),
            Some(HorseField::TopSpeedIndex) => Some(int_text(v.top_speed_index as int)),
            Some(HorseField::FinishTime) => Some(clock_text(v.finish_time)),
            Some(HorseField::ResultState) => Some(v.result_state),
            Some(HorseField::ResultSubstate) => Some(v.result_substate),
            None => None,
        }
    }

    open spec fn with_field(v: HorseSummaryView, field: Seq<char>, text: Seq<char>) -> Option<HorseSummaryView> {
        match horse_field(field) {
            Some(HorseField::Name) => Some(HorseSummaryView { name: text, ..v }),
            Some(HorseField::Code) => match i32_of_text(text) {
                Some(x) => Some(HorseSummaryView { code: x, ..v }),
                None => None,
            },
            Some(HorseField::Bib) => match i32_of_text(text) {
                Some(x) => Some(HorseSummaryView { bib: x, ..v }),
                None => None,
            },
            Some(HorseField::DrawNumber) => match i32_of_text(text) {
                Some(x) => Some(HorseSummaryView { draw_number: x, ..v }),
                None => None,
            },
            Some(HorseField::DistanceTravelled) => match i32_of_text(text) {
                Some(x) => Some(HorseSummaryView { distance_travelled: x, ..v }),
                None => None,
            },
            Some(HorseField::DistanceDifference) => match i32_of_text(text) {
                Some(x) => Some(HorseSummaryView { distance_difference: x, ..v }),
                None => None,
            },
            Some(HorseField::FinalRank) => match u8_of_text(text) {
                Some(x) => Some(HorseSummaryView { final_rank: x, ..v }),
                None => None,
            },
            Some(HorseField::TimeOfficial) => match bool_of_text(text) {
                Some(x) => Some(HorseSummaryView { time_official: x, ..v }),
                None => None,
            },
            Some(HorseField::OfficialMargin) => match decimal_of_text(text) {
                Some(x) => Some(HorseSummaryView { official_margin: x, ..v }),
                None => None,
            },
            Some(HorseField::FastestSectionTime) => match time_of_text(text) {
                Some(x) => Some(HorseSummaryView { fastest_section_time: x, ..v }),
                None => None,
            },
            Some(HorseField::FastestSectionIndex) => match u8_of_text(text) {
                Some(x) => Some(HorseSummaryView { fastest_section_index: x, ..v }),
                None => None,
            },
            Some(HorseField::TopSpeed) => match bare_decimal_of_text(text) {
                Some(x) => Some(HorseSummaryView { top_speed: x, ..v }),
                None => None,
            },
            Some(HorseField::TopSpeedIndex) => match u8_of_text(text) {
                Some(x) => Some(HorseSummaryView { top_speed_index: x, ..v }),
                None => None,
            },
            Some(HorseField::FinishTime) => match time_of_text(text) {
                Some(x) => Some(HorseSummaryView { finish_time: x, ..v }),
                None => None,
            },
            Some(HorseField::ResultState) => Some(HorseSummaryView { result_state: text, ..v }),
            Some(HorseField::ResultSubstate) => Some(HorseSummaryView { result_substate: text, ..v }),
            None => None,
        }
    }

    open spec fn refusal(field: Seq<char>) -> Seq<char> {
        match horse_field(field) {
            Some(HorseField::Name) => "Invalid value for name"@,
            Some(HorseField::Code) => "Invalid value for code"@,
            Some(HorseField::Bib) => "Invalid value for bib"@,
            Some(HorseField::DrawNumber) => "Invalid value for draw_number"@,
            Some(HorseField::DistanceTravelled) => "Invalid value for distance_travelled"@,
            Some(HorseField::DistanceDifference) => "Invalid value for distance_difference"@,
            Some(HorseField::FinalRank) => "Invalid value for final_rank"@,
            Some(HorseField::TimeOfficial) => "Invalid value for time_official"@,
            Some(HorseField::OfficialMargin) => "Invalid value for official_margin"@,
            Some(HorseField::FastestSectionTime) => "Invalid value for fastest_section_time"@,
            Some(HorseField::FastestSectionIndex) => "Invalid value for fastest_section_index"@,
            Some(HorseField::TopSpeed) => "Invalid value for top_speed"@,
            Some(HorseField::TopSpeedIndex) => "Invalid value for top_speed_index"@,
            Some(HorseField::FinishTime) => "Invalid value for finish_time"@,
            Some(HorseField::ResultState) => "Invalid value for result_state"@,
            Some(HorseField::ResultSubstate) => "Invalid value for result_substate"@,
            None => "Field not found"@,
        }
    }

    open spec fn reads_back(field: Seq<char>) -> bool {
        true
    }

    fn get_single_fields(&self, field: &str) -> (r: Option<String>) {
        match horse_field_of(field) {
            Some(HorseField::Name) => Some(self.name.clone()),
            Some(HorseField::Code) => Some(i32_text(self.code)),
            Some(HorseField::Bib) => Some(i32_text(self.bib)),
            Some(HorseField::DrawNumber) => Some(i32_text(self.draw_number)),
            Some(HorseField::DistanceTravelled) => Some(i32_text(self.distance_travelled)),
            Some(HorseField::DistanceDifference) => Some(i32_text(self.distance_difference)),
            Some(HorseField::FinalRank) => Some(u8_text(self.final_rank)),
            Some(HorseField::TimeOfficial) => Some(bool_string(self.time_official)),
            Some(HorseField::OfficialMargin) => Some(self.official_margin.to_text()),
            Some(HorseField::FastestSectionTime) => Some(self.fastest_section_time.to_text()),
            Some(HorseField::FastestSectionIndex) => Some(u8_text(self.fastest_section_index)),
            Some(HorseField::TopSpeed) => Some(self.top_speed.to_text()),
            Some(HorseField::TopSpeedIndex) => Some(u8_text(self.top_speed_index)),
            Some(HorseField::FinishTime) => Some(self.finish_time.to_text()),
            Some(HorseField::ResultState) => Some(self.result_state.clone()),
            Some(HorseField::ResultSubstate) => Some(self.result_substate.clone()),
            None => None,
        }
    }

    fn set_single_fields(&mut self, field: &str, new: String) -> (r: Result<(), &'static str>) {
        match horse_field_of(field) {
            Some(HorseField::Name) => {
                self.name = new;
                Ok(())
            },
            Some(HorseField::Code) => match parse_i32(new.as_str()) {
                Some(x) => {
                    self.code = x;
                    Ok(())
                },
                None => Err("Invalid value for code"),
            },
            Some(HorseField::Bib) => match parse_i32(new.as_str()) {
                Some(x) => {
                    self.bib = x;
                    Ok(())
                },
                None => Err("Invalid value for bib"),
            },
            Some(HorseField::DrawNumber) => match parse_i32(new.as_str()) {
                Some(x) => {
                    self.draw_number = x;
                    Ok(())
                },
                None => Err("Invalid value for draw_number"),
            },
            Some(HorseField::DistanceTravelled) => match parse_i32(new.as_str()) {
                Some(x) => {
                    self.distance_travelled = x;
                    Ok(())
                },
                None => Err("Invalid value for distance_travelled"),
            },
            Some(HorseField::DistanceDifference) => match parse_i32(new.as_str()) {
                Some(x) => {
                    self.distance_difference = x;
                    Ok(())
                },
                None => Err("Invalid value for distance_difference"),
            },
            Some(HorseField::FinalRank) => match parse_u8(new.as_str()) {
                Some(x) => {
                    self.final_rank = x;
                    Ok(())
                },
                None => Err("Invalid value for final_rank"),
            },
            Some(HorseField::TimeOfficial) => match parse_bool(new.as_str()) {
                Some(x) => {
                    self.time_official = x;
                    Ok(())
                },
                None => Err("Invalid value for time_official"),
            },
            Some(HorseField::OfficialMargin) => match Decimal::parse(new.as_str()) {
                Some(x) => {
                    self.official_margin = x;
                    Ok(())
                },
                None => Err("Invalid value for official_margin"),
            },
            Some(HorseField::FastestSectionTime) => match TimeOfDay::parse(new.as_str()) {
                Some(x) => {
                    self.fastest_section_time = x;
                    Ok(())
                },
                None => Err("Invalid value for fastest_section_time"),
            },
            Some(HorseField::FastestSectionIndex) => match parse_u8(new.as_str()) {
                Some(x) => {
                    self.fastest_section_index = x;
                    Ok(())
                },
                None => Err("Invalid value for fastest_section_index"),
            },
            Some(HorseField::TopSpeed) => match Decimal::parse_bare(new.as_str()) {
                Some(x) => {
                    self.top_speed = x;
                    Ok(())
                },
                None => Err("Invalid value for top_speed"),
            },
            Some(HorseField::TopSpeedIndex) => match parse_u8(new.as_str()) {
                Some(x) => {
                    self.top_speed_index = x;
                    Ok(())
                },
                None => Err("Invalid value for top_speed_index"),
            },
            Some(HorseField::FinishTime) => match TimeOfDay::parse(new.as_str()) {
                Some(x) => {
                    self.finish_time = x;
                    Ok(())
                },
                None => Err("Invalid value for finish_time"),
            },
            Some(HorseField::ResultState) => {
                self.result_state = new;
                Ok(())
            },
            Some(HorseField::ResultSubstate) => {
                self.result_substate = new;
                Ok(())
            },
            None => Err("Field not found"),
        }
    }
}

/// Whether a horse and all that it holds is sound.
pub open spec fn horse_sound(v: HorseSummaryView) -> bool {
    &&& HorseSummary::sound(v)
    &&& forall|i: int| 0 <= i < v.sections.len() ==> SectionSummary::sound(#[trigger] v.sections[i])
    &&& forall|i: int| 0 <= i < v.speeds.len() ==> (#[trigger] v.speeds[i]).1.wf()
    &&& forall|i: int| 0 <= i < v.ranks.len() ==> (#[trigger] v.ranks[i]).1.wf()
}

/// Offering a text to a horse leaves its lists as they were.
pub proof fn lemma_horse_written(v: HorseSummaryView, field: Seq<char>, text: Seq<char>)
    ensures
        written::<HorseSummary>(v, field, text).sections == v.sections,
        written::<HorseSummary>(v, field, text).speeds == v.speeds,
        written::<HorseSummary>(v, field, text).ranks == v.ranks,
{
}

/// Offering the attributes of a tag to a horse leaves its lists as they were.
pub proof fn lemma_horse_attributes(
    v: HorseSummaryView,
    tag: Seq<char>,
    attributes: Seq<(Seq<char>, Seq<char>)>,
)
    ensures
        with_attributes::<HorseSummary>(v, tag, attributes).sections == v.sections,
        with_attributes::<HorseSummary>(v, tag, attributes).speeds == v.speeds,
        with_attributes::<HorseSummary>(v, tag, attributes).ranks == v.ranks,
    decreases attributes.len(),
{
    if attributes.len() > 0 {
        let rest = attributes.drop_last();
        lemma_horse_attributes(v, tag, rest);
        lemma_horse_written(
            with_attributes::<HorseSummary>(v, tag, rest),
            attribute_field(attributes.last().0, tag),
            attributes.last().1,
        );
    }
}

} // verus!
