//! A race: its own fields, its fastest sections and its horses.

use vstd::prelude::*;
use super::fssummary::FastestSectionSummary;
use super::horsesummary::{horse_sound, HorseSummary, HorseSummaryView};
use crate::clock::{
    clock_text, date_of_text, date_text, time_of_text, CalendarDate, TimeOfDay,
};
use crate::integer::{i32_of_text, i32_text, int_text, parse_i32};
use crate::text::str_eq;
use crate::{
    attribute_field, has_key, with_attributes, written, ValueProcessor, COURSE_NAME, EVENT_DATE,
    EVENT_NAME, FINISH_TIME, MEETING_CODE, RACE_CODE, RACE_NAME, RAIL_POSITION, TRACK_CONDITION,
    TRACK_NAME,
};

verus! {

/// The name under which a race's number is read and written. No tag of a
/// document has it: the number comes from outside the document.
pub const RACE_NUMBER: &'static str = "race_number";

/// A race: when and where it was run, its fastest sections, and its horses.
#[derive(Clone, Debug, PartialEq)]
pub struct RaceSummary {
    pub event_date: CalendarDate,
    pub meeting_code: i32,
    pub race_number: i32,
    pub race_code: i32,
    pub event_name: String,
    pub course_name: String,
    pub race_name: String,
    pub finish_time: TimeOfDay,
    pub track_name: String,
    pub track_condition: String,
    pub rail_position: String,
    pub fastest_sections: Vec<FastestSectionSummary>,
    pub horses: Vec<HorseSummary>,
}

/// What a race's record holds.
pub struct RaceSummaryView {
    pub event_date: CalendarDate,
    pub meeting_code: i32,
    pub race_number: i32,
    pub race_code: i32,
    pub event_name: Seq<char>,
    pub course_name: Seq<char>,
    pub race_name: Seq<char>,
    pub finish_time: TimeOfDay,
    pub track_name: Seq<char>,
    pub track_condition: Seq<char>,
    pub rail_position: Seq<char>,
    pub fastest_sections: Seq<FastestSectionSummary>,
    pub horses: Seq<HorseSummaryView>,
}

/// The fields of a race that hold one value each.
#[derive(Clone, Copy, Debug, PartialEq, Eq, Structural)]
pub enum RaceField {
    EventDate,
    MeetingCode,
    RaceCode,
    EventName,
    CourseName,
    RaceName,
    FinishTime,
    TrackName,
    TrackCondition,
    RailPosition,
    RaceNumber,
}

/// The field that a name stands for.
pub open spec fn race_field(name: Seq<char>) -> Option<RaceField> {
    if name == EVENT_DATE@ {
        Some(RaceField::EventDate)
    } else if name == MEETING_CODE@ {
        Some(RaceField::MeetingCode)
    } else if name == RACE_CODE@ {
        Some(RaceField::RaceCode)
    } else if name == EVENT_NAME@ {
        Some(RaceField::EventName)
    } else if name == COURSE_NAME@ {
        Some(RaceField::CourseName)
    } else if name == RACE_NAME@ {
        Some(RaceField::RaceName)
    } else if name == FINISH_TIME@ {
        Some(RaceField::FinishTime)
    } else if name == TRACK_NAME@ {
        Some(RaceField::TrackName)
    } else if name == TRACK_CONDITION@ {
        Some(RaceField::TrackCondition)
    } else if name == RAIL_POSITION@ {
        Some(RaceField::RailPosition)
    } else if name == RACE_NUMBER@ {
        Some(RaceField::RaceNumber)
    } else {
        None
    }
}

/// The field that a name stands for.
pub fn race_field_of(name: &str) -> (r: Option<RaceField>)
    ensures
        r == race_field(name@),
{
    if str_eq(name, EVENT_DATE) {
        Some(RaceField::EventDate)
    } else if str_eq(name, MEETING_CODE) {
        Some(RaceField::MeetingCode)
    } else if str_eq(name, RACE_CODE) {
        Some(RaceField::RaceCode)
    } else if str_eq(name, EVENT_NAME) {
        Some(RaceField::EventName)
    } else if str_eq(name, COURSE_NAME) {
        Some(RaceField::CourseName)
    } else if str_eq(name, RACE_NAME) {
        Some(RaceField::RaceName)
    } else if str_eq(name, FINISH_TIME) {
        Some(RaceField::FinishTime)
    } else if str_eq(name, TRACK_NAME) {
        Some(RaceField::TrackName)
    } else if str_eq(name, TRACK_CONDITION) {
        Some(RaceField::TrackCondition)
    } else if str_eq(name, RAIL_POSITION) {
        Some(RaceField::RailPosition)
    } else if str_eq(name, RACE_NUMBER) {
        Some(RaceField::RaceNumber)
    } else {
        None
    }
}

/// What each horse of a list holds.
pub open spec fn horse_views(horses: Seq<HorseSummary>) -> Seq<HorseSummaryView> {
    horses.map_values(|h: HorseSummary| h@)
}

impl View for RaceSummary {
    type V = RaceSummaryView;

    open spec fn view(&self) -> RaceSummaryView {
        RaceSummaryView {
            event_date: self.event_date,
            meeting_code: self.meeting_code,
            race_number: self.race_number,
            race_code: self.race_code,
            event_name: self.event_name@,
            course_name: self.course_name@,
            race_name: self.race_name@,
            finish_time: self.finish_time,
            track_name: self.track_name@,
            track_condition: self.track_condition@,
            rail_position: self.rail_position@,
            fastest_sections: self.fastest_sections@,
            horses: horse_views(self.horses@),
        }
    }
}

impl RaceSummary {
    /// The race that nothing has been written to: texts and lists empty,
    /// numbers at zero, the date at the first day of 1970, the time at
    /// midnight.
    pub open spec fn fresh() -> RaceSummaryView {
        RaceSummaryView {
            event_date: CalendarDate { year: 1970, month: 1, day: 1 },
            meeting_code: 0,
            race_number: 0,
            race_code: 0,
            event_name: Seq::empty(),
            course_name: Seq::empty(),
            race_name: Seq::empty(),
            finish_time: TimeOfDay { secs: 0, nanos: 0 },
            track_name: Seq::empty(),
            track_condition: Seq::empty(),
            rail_position: Seq::empty(),
            fastest_sections: Seq::empty(),
            horses: Seq::empty(),
        }
    }

    /// A race that nothing has been written to.
    pub fn new() -> (r: Self)
        ensures
            r@ == Self::fresh(),
            Self::sound(r@),
    {
        let r = RaceSummary {
            event_date: CalendarDate::epoch(),
            meeting_code: 0,
            race_number: 0,
            race_code: 0,
            event_name: String::new(),
            course_name: String::new(),
            race_name: String::new(),
            finish_time: TimeOfDay::midnight(),
            track_name: String::new(),
            track_condition: String::new(),
            rail_position: String::new(),
            fastest_sections: Vec::new(),
            horses: Vec::new(),
        };
        assert(horse_views(r.horses@) =~= Seq::empty());
        r
    }

    pub fn get_fastest_sections(&self) -> (r: &Vec<FastestSectionSummary>)
        ensures
            r@ == self@.fastest_sections,
    {
        &self.fastest_sections
    }

    pub fn set_fastest_sections(&mut self, sum: Vec<FastestSectionSummary>)
        ensures
            final(self)@ == (RaceSummaryView { fastest_sections: sum@, ..old(self)@ }),
    {
        self.fastest_sections = sum;
    }

    /// Adds an entry at the end of the race's fastest sections.
    pub fn add_fastest_section(&mut self, sum: FastestSectionSummary)
        ensures
            final(self)@ == (RaceSummaryView {
                fastest_sections: old(self)@.fastest_sections.push(sum),
                ..old(self)@
            }),
    {
        self.fastest_sections.push(sum);
    }

    pub fn get_horses(&self) -> (r: &Vec<HorseSummary>)
        ensures
            horse_views(r@) == self@.horses,
    {
        &self.horses
    }

    /// Adds a horse at the end of the race's horses.
    pub fn add_horse(&mut self, sum: HorseSummary)
        ensures
            final(self)@ == (RaceSummaryView { horses: old(self)@.horses.push(sum@), ..old(self)@ }),
    {
        self.horses.push(sum);
        assert(horse_views(self.horses@) =~= horse_views(old(self).horses@).push(sum@));
    }
}

impl ValueProcessor for RaceSummary {
    open spec fn sound(v: RaceSummaryView) -> bool {
        v.finish_time.wf()
    }

    open spec fn field_text(v: RaceSummaryView, field: Seq<char>) -> Option<Seq<char>> {
        match race_field(field) {
            Some(RaceField::EventDate) => Some(date_text(v.event_date)),
            Some(RaceField::MeetingCode) => Some(int_text(v.meeting_code as int)),
            Some(RaceField::RaceCode) => Some(int_text(v.race_code as int)),
            Some(RaceField::EventName) => Some(v.event_name),
            Some(RaceField::CourseName) => Some(v.course_name),
            Some(RaceField::RaceName) => Some(v.race_name),
            Some(RaceField::FinishTime) => Some(clock_text(v.finish_time)),
            Some(RaceField::TrackName) => Some(v.track_name),
            Some(RaceField::TrackCondition) => Some(v.track_condition),
            Some(RaceField::RailPosition) => Some(v.rail_position),
            Some(RaceField::RaceNumber) => Some(int_text(v.race_number as int)),
            None => None,
        }
    }

    open spec fn with_field(v: RaceSummaryView, field: Seq<char>, text: Seq<char>) -> Option<RaceSummaryView> {
        match race_field(field) {
            Some(RaceField::EventDate) => match date_of_text(text) {
                Some(x) => Some(RaceSummaryView { event_date: x, ..v }),
                None => None,
            },
            Some(RaceField::MeetingCode) => match i32_of_text(text) {
                Some(x) => Some(RaceSummaryView { meeting_code: x, ..v }),
                None => None,
            },
            Some(RaceField::RaceCode) => match i32_of_text(text) {
                Some(x) => Some(RaceSummaryView { race_code: x, ..v }),
                None => None,
            },
            Some(RaceField::EventName) => Some(RaceSummaryView { event_name: text, ..v }),
            Some(RaceField::CourseName) => Some(RaceSummaryView { course_name: text, ..v }),
            Some(RaceField::RaceName) => Some(RaceSummaryView { race_name: text, ..v }),
            Some(RaceField::FinishTime) => match time_of_text(text) {
                Some(x) => Some(RaceSummaryView { finish_time: x, ..v }),
                None => None,
            },
            Some(RaceField::TrackName) => Some(RaceSummaryView { track_name: text, ..v }),
            Some(RaceField::TrackCondition) => Some(RaceSummaryView { track_condition: text, ..v }),
            Some(RaceField::RailPosition) => Some(RaceSummaryView { rail_position: text, ..v }),
            Some(RaceField::RaceNumber) => match i32_of_text(text) {
                Some(x) => Some(RaceSummaryView { race_number: x, ..v }),
                None => None,
            },
            None => None,
        }
    }

    open spec fn refusal(field: Seq<char>) -> Seq<char> {
        match race_field(field) {
            Some(RaceField::EventDate) => "Invalid value for event_date"@,
            Some(RaceField::MeetingCode) => "Invalid value for meeting_code"@,
            Some(RaceField::RaceCode) => "Invalid value for race_code"@,
            Some(RaceField::EventName) => "Invalid value for event_name"@,
            Some(RaceField::CourseName) => "Invalid value for course_name"@,
            Some(RaceField::RaceName) => "Invalid value for race_name"@,
            Some(RaceField::FinishTime) => "Invalid value for finish_time"@,
            Some(RaceField::TrackName) => "Invalid value for track_name"@,
            Some(RaceField::TrackCondition) => "Invalid value for track_condition"@,
            Some(RaceField::RailPosition) => "Invalid value for rail_position"@,
            Some(RaceField::RaceNumber) => "Invalid value for race_number"@,
            None => "Field not found"@,
        }
    }

    open spec fn reads_back(field: Seq<char>) -> bool {
        race_field(field) != Some(RaceField::EventDate)
    }

    fn get_single_fields(&self, field: &str) -> (r: Option<String>) {
        match race_field_of(field) {
            Some(RaceField::EventDate) => Some(self.event_date.to_text()),
            Some(RaceField::MeetingCode) => Some(i32_text(self.meeting_code)),
            Some(RaceField::RaceCode) => Some(i32_text(self.race_code)),
            Some(RaceField::EventName) => Some(self.event_name.clone()),
            Some(RaceField::CourseName) => Some(self.course_name.clone()),
            Some(RaceField::RaceName) => Some(self.race_name.clone()),
            Some(RaceField::FinishTime) => Some(self.finish_time.to_text()),
            Some(RaceField::TrackName) => Some(self.track_name.clone()),
            Some(RaceField::TrackCondition) => Some(self.track_condition.clone()),
            Some(RaceField::RailPosition) => Some(self.rail_position.clone()),
            Some(RaceField::RaceNumber) => Some(i32_text(self.race_number)),
            None => None,
        }
    }

    fn set_single_fields(&mut self, field: &str, new: String) -> (r: Result<(), &'static str>) {
        match race_field_of(field) {
            Some(RaceField::EventDate) => match CalendarDate::parse(new.as_str()) {
                Some(x) => {
                    self.event_date = x;
                    Ok(())
                },
                None => Err("Invalid value for event_date"),
            },
            Some(RaceField::MeetingCode) => match parse_i32(new.as_str()) {
                Some(x) => {
                    self.meeting_code = x;
                    Ok(())
                },
                None => Err("Invalid value for meeting_code"),
            },
            Some(RaceField::RaceCode) => match parse_i32(new.as_str()) {
                Some(x) => {
                    self.race_code = x;
                    Ok(())
                },
                None => Err("Invalid value for race_code"),
            },
            Some(RaceField::EventName) => {
                self.event_name = new;
                Ok(())
            },
            Some(RaceField::CourseName) => {
                self.course_name = new;
                Ok(())
            },
            Some(RaceField::RaceName) => {
                self.race_name = new;
                Ok(())
            },
            Some(RaceField::FinishTime) => match TimeOfDay::parse(new.as_str()) {
                Some(x) => {
                    self.finish_time = x;
                    Ok(())
                },
                None => Err("Invalid value for finish_time"),
            },
            Some(RaceField::TrackName) => {
                self.track_name = new;
                Ok(())
            },
            Some(RaceField::TrackCondition) => {
                self.track_condition = new;
                Ok(())
            },
            Some(RaceField::RailPosition) => {
                self.rail_position = new;
                Ok(())
            },
            Some(RaceField::RaceNumber) => match parse_i32(new.as_str()) {
                Some(x) => {
                    self.race_number = x;
                    Ok(())
                },
                None => Err("Invalid value for race_number"),
            },
            None => Err("Field not found"),
        }
    }
}

/// Whether a race and all that it holds is sound.
pub open spec fn race_sound(v: RaceSummaryView) -> bool {
    &&& RaceSummary::sound(v)
    &&& forall|i: int|
        0 <= i < v.fastest_sections.len() ==> FastestSectionSummary::sound(
            #[trigger] v.fastest_sections[i],
        )
    &&& forall|i: int| 0 <= i < v.horses.len() ==> horse_sound(#[trigger] v.horses[i])
}

/// Offering a text to a race leaves its lists as they were, and its code
/// too unless the text is offered to the code.
pub proof fn lemma_race_written(v: RaceSummaryView, field: Seq<char>, text: Seq<char>)
    ensures
        written::<RaceSummary>(v, field, text).fastest_sections == v.fastest_sections,
        written::<RaceSummary>(v, field, text).horses == v.horses,
        field != RACE_CODE@ ==> written::<RaceSummary>(v, field, text).race_code == v.race_code,
{
}

/// Offering the attributes of a tag to a race leaves its lists as they were,
/// and its code too unless the tag or an attribute names the code.
pub proof fn lemma_race_attributes(
    v: RaceSummaryView,
    tag: Seq<char>,
    attributes: Seq<(Seq<char>, Seq<char>)>,
)
    ensures
        with_attributes::<RaceSummary>(v, tag, attributes).fastest_sections == v.fastest_sections,
        with_attributes::<RaceSummary>(v, tag, attributes).horses == v.horses,
        tag != RACE_CODE@ && !has_key(attributes, RACE_CODE@) ==> with_attributes::<RaceSummary>(
            v,
            tag,
            attributes,
        ).race_code == v.race_code,
    decreases attributes.len(),
{
    if attributes.len() > 0 {
        let rest = attributes.drop_last();
        lemma_race_attributes(v, tag, rest);
        lemma_race_written(
            with_attributes::<RaceSummary>(v, tag, rest),
            attribute_field(attributes.last().0, tag),
            attributes.last().1,
        );
        if tag != RACE_CODE@ && !has_key(attributes, RACE_CODE@) {
            assert(attributes[attributes.len() - 1].0 != RACE_CODE@);
            assert forall|i: int| 0 <= i < rest.len() implies (#[trigger] rest[i]).0
                != RACE_CODE@ by {
                assert(attributes[i].0 != RACE_CODE@);
            }
        }
    }
}

} // verus!
