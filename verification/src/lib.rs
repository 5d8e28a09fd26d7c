//! Decoder for race-timing documents.
//!
//! A document is a stream of markup events. The decoder walks the stream once,
//! keeps the stack of open elements, and routes each attribute and text value
//! to the record that is in scope: the race itself, a fastest-section entry, a
//! horse, or one of a horse's sections.

use vstd::prelude::*;
use crate::text::str_eq;

pub mod clock;
pub mod decimal;
pub mod decoder;
pub mod export;
pub mod integer;
pub mod laws;
pub mod shapes;
pub mod structs;
pub mod text;
pub mod xml;

verus! {

// Race summary tags
pub const RACE_SUMMARY: &'static str = "RaceSummary";

pub const EVENT_DATE: &'static str = "EventDate";

pub const MEETING_CODE: &'static str = "MeetingCode";

pub const RACE_CODE: &'static str = "RaceCode";

pub const EVENT_NAME: &'static str = "EventName";

pub const COURSE_NAME: &'static str = "CourseName";

pub const RACE_NAME: &'static str = "RaceName";

pub const FINISH_TIME: &'static str = "FinishTime";

pub const TIME: &'static str = "Time";

pub const TRACK_NAME: &'static str = "TrackName";

pub const TRACK_CONDITION: &'static str = "TrackCondition";

pub const RAIL_POSITION: &'static str = "RailPosition";

pub const FASTEST_SECTIONS: &'static str = "FastestSections";

pub const HORSES: &'static str = "Horses";

// Section summary tags
pub const SECTION_SUMMARY: &'static str = "SectionSummary";

pub const CUMULATED_DISTANCE: &'static str = "CumulatedDistance";

pub const MARGIN_DECIMAL: &'static str = "MarginDecimal";

pub const REAL_DISTANCE: &'static str = "RealDistance";

pub const RANK: &'static str = "Rank";

pub const INTERMEDIATE_TIME: &'static str = "IntermediateTime";

pub const SECTION_TIME: &'static str = "SectionTime";

pub const AVG_SPEED: &'static str = "AvgSpeed";

pub const TOP_SPEED: &'static str = "TopSpeed";

pub const AVERAGE_STRIDE_FREQUENCY: &'static str = "AverageStrideFrequency";

pub const AVERAGE_STRIDE_LENGTH: &'static str = "AverageStrideLength";

pub const AVERAGE_DISTANCE_TO_RAIL: &'static str = "AverageDistanceToRail";

// Horse summary tags
pub const HORSE_SUMMARY: &'static str = "HorseSummary";

pub const NAME: &'static str = "Name";

pub const HORSE_CODE: &'static str = "HorseCode";

pub const BIB: &'static str = "Bib";

pub const DRAW_NUMBER: &'static str = "DrawNumber";

pub const DISTANCE_TRAVELLED: &'static str = "DistanceTravelled";

pub const DISTANCE_TRAVELED_DIFFERENCE: &'static str = "DistanceTraveledDifference";

pub const FINAL_RANK: &'static str = "FinalRank";

pub const IS_FINISH_TIME_OFFICIAL: &'static str = "IsFinishTimeOfficial";

pub const OFFICIAL_MARGIN_DECIMAL: &'static str = "OfficialMarginDecimal";

pub const FASTEST_SECTION_TIME: &'static str = "FastestSectionTime";

pub const FASTEST_SECTION_INDEX: &'static str = "FastestSectionIndex";

pub const TOP_SPEED_SECTION_INDEX: &'static str = "TopSpeedSectionIndex";

pub const RESULT_STATE: &'static str = "ResultState";

pub const RESULT_SUB_STATE: &'static str = "ResultSubState";

pub const SPEEDS: &'static str = "Speeds";

pub const RANKS: &'static str = "Ranks";

pub const SERIALIZABLE_TUPLE_OF_DOUBLE_DOUBLE: &'static str = "SerializableTupleOfDoubleDouble";

pub const SERIALIZABLE_TUPLE_OF_DOUBLE_INT32: &'static str = "SerializableTupleOfDoubleInt32";

pub const ITEM1: &'static str = "Item1";

pub const ITEM2: &'static str = "Item2";

pub const SECTIONS: &'static str = "Sections";

/// A record whose fields can be read and written by name, as text.
pub trait ValueProcessor: View + Sized {
    /// Whether each value that the record holds is in the one form that its
    /// kind allows.
    spec fn sound(v: Self::V) -> bool;

    /// The text of a field, or nothing where the record has no field of that
    /// name.
    spec fn field_text(v: Self::V, field: Seq<char>) -> Option<Seq<char>>;

    /// The record once a text has been written to a field, or nothing where
    /// the record has no field of that name or the text denotes no value of
    /// the field's kind.
    spec fn with_field(v: Self::V, field: Seq<char>, text: Seq<char>) -> Option<Self::V>;

    /// What a refused write to a field reports.
    spec fn refusal(field: Seq<char>) -> Seq<char>;

    /// Whether the text of a field is a text that the field can be written
    /// with.
    spec fn reads_back(field: Seq<char>) -> bool;

    /// The current text of a field, if the record has a field of that name.
    fn get_single_fields(&self, field: &str) -> (r: Option<String>)
        ensures
            r is Some <==> Self::field_text(self@, field@) is Some,
            r matches Some(s) ==> Self::field_text(self@, field@) == Some(s@),
    ;

    /// Writes a text to a field. A refused write leaves the record as it was.
    /// Writing to a field the text that it has leaves the record as it was,
    /// too.
    fn set_single_fields(&mut self, field: &str, new: String) -> (r: Result<(), &'static str>)
        ensures
            r is Ok <==> Self::with_field(old(self)@, field@, new@) is Some,
            r is Ok ==> Self::with_field(old(self)@, field@, new@) == Some(final(self)@),
            r matches Err(m) ==> final(self)@ == old(self)@ && m@ == Self::refusal(field@),
            Self::sound(old(self)@) ==> Self::sound(final(self)@),
            Self::sound(old(self)@) && Self::reads_back(field@) && Self::field_text(
                old(self)@,
                field@,
            ) == Some(new@) ==> r is Ok && final(self)@ == old(self)@,
    ;
}

/// What a list of attributes holds: the key and the value of each.
pub open spec fn attribute_views(attributes: Seq<(String, String)>) -> Seq<
    (Seq<char>, Seq<char>),
> {
    attributes.map_values(|a: (String, String)| (a.0@, a.1@))
}

/// Whether an attribute of the given key is among the attributes.
pub open spec fn has_key(attributes: Seq<(Seq<char>, Seq<char>)>, key: Seq<char>) -> bool {
    exists|i: int| 0 <= i < attributes.len() && (#[trigger] attributes[i]).0 == key
}

/// The field that an attribute of a tag is written to: the attribute's own
/// key, but for the key `Time`, which stands for the tag.
pub open spec fn attribute_field(key: Seq<char>, tag: Seq<char>) -> Seq<char> {
    if key == TIME@ {
        tag
    } else {
        key
    }
}

/// A record after a text was offered to one of its fields. Where the record
/// has no such field, or the text denotes no value of the field's kind, the
/// record is as it was.
pub open spec fn written<T: ValueProcessor>(v: T::V, field: Seq<char>, text: Seq<char>) -> T::V {
    if T::field_text(v, field) is Some {
        match T::with_field(v, field, text) {
            Some(w) => w,
            None => v,
        }
    } else {
        v
    }
}

/// A record after the attributes of a tag were offered to it, first to last.
pub open spec fn with_attributes<T: ValueProcessor>(
    v: T::V,
    tag: Seq<char>,
    attributes: Seq<(Seq<char>, Seq<char>)>,
) -> T::V
    decreases attributes.len(),
{
    if attributes.len() == 0 {
        v
    } else {
        written::<T>(
            with_attributes::<T>(v, tag, attributes.drop_last()),
            attribute_field(attributes.last().0, tag),
            attributes.last().1,
        )
    }
}

/// Offers the attributes of the tag `tag` to a record, first to last.
pub fn parse_start<T: ValueProcessor>(
    attributes: &Vec<(String, String)>,
    tag: &mut String,
    values: &mut T,
)
    ensures
        final(tag)@ == old(tag)@,
        final(values)@ == with_attributes::<T>(
            old(values)@,
            old(tag)@,
            attribute_views(attributes@),
        ),
        T::sound(old(values)@) ==> T::sound(final(values)@),
{
    let ghost all = attribute_views(attributes@);
    let mut i: usize = 0;
    while i < attributes.len()
        invariant
            i <= attributes.len(),
            all == attribute_views(attributes@),
            tag@ == old(tag)@,
            values@ == with_attributes::<T>(old(values)@, tag@, all.take(i as int)),
            T::sound(old(values)@) ==> T::sound(values@),
        decreases attributes.len() - i,
    {
        let key: &str = if str_eq(attributes[i].0.as_str(), TIME) {
            tag.as_str()
        } else {
            attributes[i].0.as_str()
        };
        proof {
            assert(all.take(i + 1).drop_last() =~= all.take(i as int));
            assert(all.take(i + 1).last() == (attributes@[i as int].0@, attributes@[i as int].1@));
        }
        if values.get_single_fields(key).is_some() {
            let _ = values.set_single_fields(key, attributes[i].1.clone());
        }
        i += 1;
    }
    assert(all.take(attributes.len() as int) =~= all);
}

/// Offers the text inside the tag `tag` to a record, and keeps the text in `txt`.
pub fn parse_text<T: ValueProcessor>(text: String, tag: &mut String, values: &mut T, txt: &mut String)
    ensures
        final(tag)@ == old(tag)@,
        final(txt)@ == text@,
        final(values)@ == written::<T>(old(values)@, old(tag)@, text@),
        T::sound(old(values)@) ==> T::sound(final(values)@),
{
    *txt = text;
    if values.get_single_fields(tag.as_str()).is_some() {
        let _ = values.set_single_fields(tag.as_str(), txt.clone());
    }
}

/// Forgets the current tag name.
pub fn parse_end(tag: &mut String)
    ensures
        final(tag)@ == Seq::<char>::empty(),
{
    *tag = String::new();
}

} // verus!
