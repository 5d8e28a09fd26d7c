//! What comes of documents of the usual shape.
//!
//! A record is written as an element whose fields are elements with a text
//! each; a list is written as an element that holds one element for each of
//! its entries. The laws below say what such a document decodes to: a list of
//! as many entries as the document holds elements for it, in their order,
//! each filled with the fields of its element and of no other.

use vstd::prelude::*;
use crate::decimal::{decimal_of_text, Decimal};
use crate::decoder::{
    active_grouping, decoded, initial, innermost, route_text, run, run_concat, run_push, step,
    DecoderView, Grouping, XmlEventView,
};
use crate::integer::i32_of_text;
use crate::structs::fssummary::FastestSectionSummary;
use crate::structs::horsesummary::{lemma_horse_written, HorseSummary, HorseSummaryView};
use crate::structs::racesummary::{lemma_race_written, RaceSummary, RaceSummaryView};
use crate::structs::sectionsummary::SectionSummary;
use crate::{
    written, ValueProcessor, FASTEST_SECTIONS, HORSES, HORSE_SUMMARY, ITEM1, ITEM2, RACE_SUMMARY,
    SECTIONS, SECTION_SUMMARY, SERIALIZABLE_TUPLE_OF_DOUBLE_DOUBLE,
    SERIALIZABLE_TUPLE_OF_DOUBLE_INT32, SPEEDS,
};

verus! {

/// Whether a name is that of a plain field: not one that opens a list,
/// completes a record, or is part of a pair.
pub open spec fn is_plain(name: Seq<char>) -> bool {
    &&& name != FASTEST_SECTIONS@
    &&& name != HORSES@
    &&& name != SECTIONS@
    &&& name != SECTION_SUMMARY@
    &&& name != HORSE_SUMMARY@
    &&& name != SERIALIZABLE_TUPLE_OF_DOUBLE_DOUBLE@
    &&& name != SERIALIZABLE_TUPLE_OF_DOUBLE_INT32@
    &&& name != ITEM1@
    &&& name != ITEM2@
}

/// Whether the name of each field is that of a plain field.
pub open spec fn all_plain(fields: Seq<(Seq<char>, Seq<char>)>) -> bool {
    forall|i: int| 0 <= i < fields.len() ==> is_plain((#[trigger] fields[i]).0)
}

/// The events of a field: its start tag, its text, its end tag.
pub open spec fn field_events(name: Seq<char>, text: Seq<char>) -> Seq<XmlEventView> {
    seq![
        XmlEventView::Start { name, attributes: Seq::empty() },
        XmlEventView::Text(text),
        XmlEventView::End,
    ]
}

/// The events of fields that follow one another, each a name and a text.
pub open spec fn fields_events(fields: Seq<(Seq<char>, Seq<char>)>) -> Seq<XmlEventView>
    decreases fields.len(),
{
    if fields.len() == 0 {
        Seq::empty()
    } else {
        fields_events(fields.drop_last()) + field_events(fields.last().0, fields.last().1)
    }
}

/// A record after the texts of fields were offered to it, first to last.
pub open spec fn filled<T: ValueProcessor>(v: T::V, fields: Seq<(Seq<char>, Seq<char>)>) -> T::V
    decreases fields.len(),
{
    if fields.len() == 0 {
        v
    } else {
        written::<T>(filled::<T>(v, fields.drop_last()), fields.last().0, fields.last().1)
    }
}

/// The state after fields, where the open elements are those of `d`.
pub open spec fn after_fields(d: DecoderView, fields: Seq<(Seq<char>, Seq<char>)>) -> DecoderView
    decreases fields.len(),
{
    if fields.len() == 0 {
        d
    } else {
        route_text(
            DecoderView { tag: fields.last().0, ..after_fields(d, fields.drop_last()) },
            active_grouping(d.scopes),
            fields.last().1,
        )
    }
}

/// A plain field is offered, under its name, to the record of the grouping
/// that holds around it, and leaves the open elements as they were.
pub proof fn field_is_offered(d: DecoderView, name: Seq<char>, text: Seq<char>)
    requires
        is_plain(name),
    ensures
        run(d, field_events(name, text)) == route_text(
            DecoderView { tag: name, ..d },
            active_grouping(d.scopes),
            text,
        ),
{
    let none = Seq::<(Seq<char>, Seq<char>)>::empty();
    let e1 = XmlEventView::Start { name, attributes: none };
    let e2 = XmlEventView::Text(text);
    let e3 = XmlEventView::End;
    let s0 = Seq::<XmlEventView>::empty();
    let s1 = s0.push(e1);
    let s2 = s1.push(e2);
    let s3 = s2.push(e3);
    assert(field_events(name, text) =~= s3);
    run_push(d, s0, e1);
    run_push(d, s1, e2);
    run_push(d, s2, e3);
    let d1 = run(d, s1);
    let d2 = run(d, s2);
    assert(d1.scopes.drop_last() =~= d.scopes);
    assert(d2.scopes == d1.scopes);
    assert(d1 == DecoderView { tag: name, scopes: d1.scopes, ..d });
}

/// Plain fields that follow one another are offered in their order.
pub proof fn fields_are_offered(d: DecoderView, fields: Seq<(Seq<char>, Seq<char>)>)
    requires
        all_plain(fields),
    ensures
        run(d, fields_events(fields)) == after_fields(d, fields),
        after_fields(d, fields).scopes == d.scopes,
    decreases fields.len(),
{
    if fields.len() > 0 {
        let rest = fields.drop_last();
        assert forall|i: int| 0 <= i < rest.len() implies is_plain((#[trigger] rest[i]).0) by {
            assert(rest[i] == fields[i]);
        }
        fields_are_offered(d, rest);
        assert(is_plain(fields[fields.len() - 1].0));
        field_is_offered(after_fields(d, rest), fields.last().0, fields.last().1);
        run_concat(d, fields_events(rest), field_events(fields.last().0, fields.last().1));
    }
}

/// The names that the decoder acts on are different names.
proof fn lemma_names_differ()
    ensures
        SECTION_SUMMARY@ != FASTEST_SECTIONS@,
        SECTION_SUMMARY@ != HORSES@,
        SECTION_SUMMARY@ != SECTIONS@,
        SECTION_SUMMARY@ != HORSE_SUMMARY@,
        HORSE_SUMMARY@ != FASTEST_SECTIONS@,
        HORSE_SUMMARY@ != HORSES@,
        HORSE_SUMMARY@ != SECTIONS@,
        SECTIONS@ != FASTEST_SECTIONS@,
        SECTIONS@ != HORSES@,
        SECTIONS@ != ITEM1@,
        SECTIONS@ != ITEM2@,
        SECTIONS@ != SERIALIZABLE_TUPLE_OF_DOUBLE_DOUBLE@,
        SECTIONS@ != SERIALIZABLE_TUPLE_OF_DOUBLE_INT32@,
        ITEM1@ != ITEM2@,
        ITEM1@ != SECTION_SUMMARY@,
        ITEM1@ != HORSE_SUMMARY@,
        ITEM1@ != SERIALIZABLE_TUPLE_OF_DOUBLE_DOUBLE@,
        ITEM1@ != SERIALIZABLE_TUPLE_OF_DOUBLE_INT32@,
        ITEM2@ != SECTION_SUMMARY@,
        ITEM2@ != HORSE_SUMMARY@,
        ITEM2@ != SERIALIZABLE_TUPLE_OF_DOUBLE_DOUBLE@,
        ITEM2@ != SERIALIZABLE_TUPLE_OF_DOUBLE_INT32@,
        SERIALIZABLE_TUPLE_OF_DOUBLE_DOUBLE@ != SECTION_SUMMARY@,
        SERIALIZABLE_TUPLE_OF_DOUBLE_DOUBLE@ != HORSE_SUMMARY@,
        FASTEST_SECTIONS@ != HORSES@,
        FASTEST_SECTIONS@ != SERIALIZABLE_TUPLE_OF_DOUBLE_DOUBLE@,
        FASTEST_SECTIONS@ != SERIALIZABLE_TUPLE_OF_DOUBLE_INT32@,
        HORSES@ != SERIALIZABLE_TUPLE_OF_DOUBLE_DOUBLE@,
        HORSES@ != SERIALIZABLE_TUPLE_OF_DOUBLE_INT32@,
        RACE_SUMMARY@ != FASTEST_SECTIONS@,
        RACE_SUMMARY@ != HORSES@,
        RACE_SUMMARY@ != SECTIONS@,
        RACE_SUMMARY@ != SECTION_SUMMARY@,
        RACE_SUMMARY@ != HORSE_SUMMARY@,
        RACE_SUMMARY@ != SERIALIZABLE_TUPLE_OF_DOUBLE_DOUBLE@,
        RACE_SUMMARY@ != SERIALIZABLE_TUPLE_OF_DOUBLE_INT32@,
{
    reveal_strlit("RaceSummary");
    assert(RACE_SUMMARY@.len() == 11);
    reveal_strlit("Item1");
    reveal_strlit("Item2");
    reveal_strlit("Sections");
    reveal_strlit("Horses");
    reveal_strlit("FastestSections");
    reveal_strlit("SectionSummary");
    reveal_strlit("HorseSummary");
    reveal_strlit("SerializableTupleOfDoubleDouble");
    reveal_strlit("SerializableTupleOfDoubleInt32");
    assert(ITEM1@[4] != ITEM2@[4]);
    assert(ITEM1@.len() == 5 && ITEM2@.len() == 5);
    assert(SECTIONS@.len() == 8 && HORSES@.len() == 6 && FASTEST_SECTIONS@.len() == 15);
    assert(SECTION_SUMMARY@.len() == 14 && HORSE_SUMMARY@.len() == 12);
    assert(SERIALIZABLE_TUPLE_OF_DOUBLE_DOUBLE@.len() == 31);
    assert(SERIALIZABLE_TUPLE_OF_DOUBLE_INT32@.len() == 30);
}

/// The name of the field that came last, or the tag of before if none came.
pub open spec fn last_name(tag: Seq<char>, fields: Seq<(Seq<char>, Seq<char>)>) -> Seq<char> {
    if fields.len() == 0 {
        tag
    } else {
        fields.last().0
    }
}

/// Among the fastest sections, fields fill the entry in the making and
/// nothing else.
pub proof fn fields_fill_the_fastest_section(d: DecoderView, fields: Seq<(Seq<char>, Seq<char>)>)
    requires
        active_grouping(d.scopes) == Grouping::FastestSections,
    ensures
        after_fields(d, fields) == (DecoderView {
            fastest: filled::<FastestSectionSummary>(d.fastest, fields),
            tag: last_name(d.tag, fields),
            ..d
        }),
    decreases fields.len(),
{
    if fields.len() > 0 {
        fields_fill_the_fastest_section(d, fields.drop_last());
    }
}

/// Among a horse's sections, fields fill the section in the making and
/// nothing else.
pub proof fn fields_fill_the_section(d: DecoderView, fields: Seq<(Seq<char>, Seq<char>)>)
    requires
        active_grouping(d.scopes) == Grouping::HorseSections,
    ensures
        after_fields(d, fields) == (DecoderView {
            section: filled::<SectionSummary>(d.section, fields),
            tag: last_name(d.tag, fields),
            ..d
        }),
    decreases fields.len(),
{
    if fields.len() > 0 {
        fields_fill_the_section(d, fields.drop_last());
    }
}

/// Among the horses, fields fill the horse in the making and nothing else,
/// and leave its lists as they were.
pub proof fn fields_fill_the_horse(d: DecoderView, fields: Seq<(Seq<char>, Seq<char>)>)
    requires
        active_grouping(d.scopes) == Grouping::Horses,
    ensures
        after_fields(d, fields) == (DecoderView {
            horse: filled::<HorseSummary>(d.horse, fields),
            tag: last_name(d.tag, fields),
            ..d
        }),
        filled::<HorseSummary>(d.horse, fields).sections == d.horse.sections,
        filled::<HorseSummary>(d.horse, fields).speeds == d.horse.speeds,
        filled::<HorseSummary>(d.horse, fields).ranks == d.horse.ranks,
    decreases fields.len(),
{
    if fields.len() > 0 {
        let rest = fields.drop_last();
        fields_fill_the_horse(d, rest);
        lemma_horse_written(
            filled::<HorseSummary>(d.horse, rest),
            fields.last().0,
            fields.last().1,
        );
    }
}

/// Outside every list, fields fill the race and nothing else, and leave its
/// lists as they were.
pub proof fn fields_fill_the_race(d: DecoderView, fields: Seq<(Seq<char>, Seq<char>)>)
    requires
        active_grouping(d.scopes) == Grouping::Root,
    ensures
        after_fields(d, fields) == (DecoderView {
            race: filled::<RaceSummary>(d.race, fields),
            tag: last_name(d.tag, fields),
            ..d
        }),
        filled::<RaceSummary>(d.race, fields).fastest_sections == d.race.fastest_sections,
        filled::<RaceSummary>(d.race, fields).horses == d.race.horses,
    decreases fields.len(),
{
    if fields.len() > 0 {
        let rest = fields.drop_last();
        fields_fill_the_race(d, rest);
        lemma_race_written(filled::<RaceSummary>(d.race, rest), fields.last().0, fields.last().1);
    }
}

/// The events of a record: its start tag, its fields, its end tag.
pub open spec fn record_events(name: Seq<char>, fields: Seq<(Seq<char>, Seq<char>)>) -> Seq<
    XmlEventView,
> {
    seq![XmlEventView::Start { name, attributes: Seq::empty() }] + fields_events(fields) + seq![
        XmlEventView::End,
    ]
}

/// The events of section summaries that follow one another, each given by
/// its fields.
pub open spec fn sections_events(sections: Seq<Seq<(Seq<char>, Seq<char>)>>) -> Seq<XmlEventView>
    decreases sections.len(),
{
    if sections.len() == 0 {
        Seq::empty()
    } else {
        sections_events(sections.drop_last()) + record_events(SECTION_SUMMARY@, sections.last())
    }
}

/// Whether the name of each field of each section is that of a plain field.
pub open spec fn sections_plain(sections: Seq<Seq<(Seq<char>, Seq<char>)>>) -> bool {
    forall|i: int| 0 <= i < sections.len() ==> all_plain(#[trigger] sections[i])
}

/// The entries that the fields of section summaries fill among the fastest
/// sections.
pub open spec fn fastest_entries(sections: Seq<Seq<(Seq<char>, Seq<char>)>>) -> Seq<
    FastestSectionSummary,
> {
    sections.map_values(
        |fields: Seq<(Seq<char>, Seq<char>)>|
            filled::<FastestSectionSummary>(FastestSectionSummary::fresh(), fields),
    )
}

/// The sections that the fields of section summaries fill in a horse.
pub open spec fn section_entries(sections: Seq<Seq<(Seq<char>, Seq<char>)>>) -> Seq<
    SectionSummary,
> {
    sections.map_values(
        |fields: Seq<(Seq<char>, Seq<char>)>|
            filled::<SectionSummary>(SectionSummary::fresh(), fields),
    )
}

proof fn lemma_record_run(d: DecoderView, name: Seq<char>, fields: Seq<(Seq<char>, Seq<char>)>)
    requires
        all_plain(fields),
    ensures
        run(d, record_events(name, fields)) == step(
            after_fields(
                step(d, XmlEventView::Start { name, attributes: Seq::empty() }),
                fields,
            ),
            XmlEventView::End,
        ),
        after_fields(
            step(d, XmlEventView::Start { name, attributes: Seq::empty() }),
            fields,
        ).scopes == step(d, XmlEventView::Start { name, attributes: Seq::empty() }).scopes,
{
    let open = XmlEventView::Start { name, attributes: Seq::empty() };
    let first = Seq::<XmlEventView>::empty().push(open);
    assert(first =~= seq![open]);
    run_push(d, Seq::empty(), open);
    let d1 = step(d, open);
    fields_are_offered(d1, fields);
    run_concat(d, first, fields_events(fields));
    run_push(d, first + fields_events(fields), XmlEventView::End);
    assert(record_events(name, fields) =~= (first + fields_events(fields)).push(
        XmlEventView::End,
    ));
}

/// A section summary directly inside the fastest sections adds one entry,
/// filled with its fields, at the end of the race's fastest sections. The
/// next entry starts afresh, and neither a horse nor a section of a horse is
/// touched.
pub proof fn fastest_section_is_committed(d: DecoderView, fields: Seq<(Seq<char>, Seq<char>)>)
    requires
        innermost(d.scopes) == Some(FASTEST_SECTIONS@),
        active_grouping(d.scopes) == Grouping::FastestSections,
        all_plain(fields),
    ensures
        run(d, record_events(SECTION_SUMMARY@, fields)) == (DecoderView {
            race: RaceSummaryView {
                fastest_sections: d.race.fastest_sections.push(
                    filled::<FastestSectionSummary>(d.fastest, fields),
                ),
                ..d.race
            },
            fastest: FastestSectionSummary::fresh(),
            tag: last_name(SECTION_SUMMARY@, fields),
            ..d
        }),
{
    lemma_names_differ();
    lemma_record_run(d, SECTION_SUMMARY@, fields);
    let d1 = step(d, XmlEventView::Start { name: SECTION_SUMMARY@, attributes: Seq::empty() });
    assert(d1.scopes.drop_last() =~= d.scopes);
    fields_fill_the_fastest_section(d1, fields);
}

/// A section summary among a horse's sections adds one section, filled with
/// its fields, at the end of the sections of the horse in the making. The
/// next section starts afresh, and the race's fastest sections are not
/// touched.
pub proof fn horse_section_is_committed(d: DecoderView, fields: Seq<(Seq<char>, Seq<char>)>)
    requires
        innermost(d.scopes) != Some(FASTEST_SECTIONS@),
        active_grouping(d.scopes) == Grouping::HorseSections,
        all_plain(fields),
    ensures
        run(d, record_events(SECTION_SUMMARY@, fields)) == (DecoderView {
            horse: HorseSummaryView {
                sections: d.horse.sections.push(filled::<SectionSummary>(d.section, fields)),
                ..d.horse
            },
            section: SectionSummary::fresh(),
            tag: last_name(SECTION_SUMMARY@, fields),
            ..d
        }),
{
    lemma_names_differ();
    lemma_record_run(d, SECTION_SUMMARY@, fields);
    let d1 = step(d, XmlEventView::Start { name: SECTION_SUMMARY@, attributes: Seq::empty() });
    assert(d1.scopes.drop_last() =~= d.scopes);
    fields_fill_the_section(d1, fields);
}

/// The name of the tag that came last in section summaries that follow one
/// another, or the tag of before if none came.
pub open spec fn last_section_name(
    tag: Seq<char>,
    sections: Seq<Seq<(Seq<char>, Seq<char>)>>,
) -> Seq<char> {
    if sections.len() == 0 {
        tag
    } else {
        last_name(SECTION_SUMMARY@, sections.last())
    }
}

/// Section summaries that follow one another directly inside the fastest
/// sections add one entry each to the race's fastest sections, in their
/// order, each filled with its own fields. No horse and no section of a horse
/// is touched.
pub proof fn fastest_sections_are_collected(
    d: DecoderView,
    sections: Seq<Seq<(Seq<char>, Seq<char>)>>,
)
    requires
        innermost(d.scopes) == Some(FASTEST_SECTIONS@),
        active_grouping(d.scopes) == Grouping::FastestSections,
        d.fastest == FastestSectionSummary::fresh(),
        sections_plain(sections),
    ensures
        run(d, sections_events(sections)) == (DecoderView {
            race: RaceSummaryView {
                fastest_sections: d.race.fastest_sections + fastest_entries(sections),
                ..d.race
            },
            tag: last_section_name(d.tag, sections),
            ..d
        }),
    decreases sections.len(),
{
    if sections.len() == 0 {
        assert(d.race.fastest_sections + fastest_entries(sections) =~= d.race.fastest_sections);
    } else {
        let rest = sections.drop_last();
        assert forall|i: int| 0 <= i < rest.len() implies all_plain(#[trigger] rest[i]) by {
            assert(rest[i] == sections[i]);
        }
        fastest_sections_are_collected(d, rest);
        let mid = run(d, sections_events(rest));
        assert(all_plain(sections[sections.len() - 1]));
        fastest_section_is_committed(mid, sections.last());
        run_concat(d, sections_events(rest), record_events(SECTION_SUMMARY@, sections.last()));
        assert(fastest_entries(sections) =~= fastest_entries(rest).push(
            filled::<FastestSectionSummary>(FastestSectionSummary::fresh(), sections.last()),
        ));
        assert(d.race.fastest_sections + fastest_entries(sections) =~= (d.race.fastest_sections
            + fastest_entries(rest)).push(
            filled::<FastestSectionSummary>(FastestSectionSummary::fresh(), sections.last()),
        ));
    }
}

/// Section summaries that follow one another among a horse's sections add one
/// section each to the horse in the making, in their order, each filled with
/// its own fields. The race's fastest sections are not touched.
pub proof fn horse_sections_are_collected(
    d: DecoderView,
    sections: Seq<Seq<(Seq<char>, Seq<char>)>>,
)
    requires
        innermost(d.scopes) != Some(FASTEST_SECTIONS@),
        active_grouping(d.scopes) == Grouping::HorseSections,
        d.section == SectionSummary::fresh(),
        sections_plain(sections),
    ensures
        run(d, sections_events(sections)) == (DecoderView {
            horse: HorseSummaryView {
                sections: d.horse.sections + section_entries(sections),
                ..d.horse
            },
            tag: last_section_name(d.tag, sections),
            ..d
        }),
    decreases sections.len(),
{
    if sections.len() == 0 {
        assert(d.horse.sections + section_entries(sections) =~= d.horse.sections);
    } else {
        let rest = sections.drop_last();
        assert forall|i: int| 0 <= i < rest.len() implies all_plain(#[trigger] rest[i]) by {
            assert(rest[i] == sections[i]);
        }
        horse_sections_are_collected(d, rest);
        let mid = run(d, sections_events(rest));
        assert(all_plain(sections[sections.len() - 1]));
        horse_section_is_committed(mid, sections.last());
        run_concat(d, sections_events(rest), record_events(SECTION_SUMMARY@, sections.last()));
        assert(section_entries(sections) =~= section_entries(rest).push(
            filled::<SectionSummary>(SectionSummary::fresh(), sections.last()),
        ));
        assert(d.horse.sections + section_entries(sections) =~= (d.horse.sections
            + section_entries(rest)).push(
            filled::<SectionSummary>(SectionSummary::fresh(), sections.last()),
        ));
    }
}

/// The events of a horse: its start tag, its fields, its sections inside
/// their own element, and its end tag.
pub open spec fn horse_events(
    fields: Seq<(Seq<char>, Seq<char>)>,
    sections: Seq<Seq<(Seq<char>, Seq<char>)>>,
) -> Seq<XmlEventView> {
    seq![XmlEventView::Start { name: HORSE_SUMMARY@, attributes: Seq::empty() }] + fields_events(
        fields,
    ) + seq![XmlEventView::Start { name: SECTIONS@, attributes: Seq::empty() }] + sections_events(
        sections,
    ) + seq![XmlEventView::End, XmlEventView::End]
}

/// The horse that the fields of a horse and of its section summaries fill.
pub open spec fn horse_entry(
    fields: Seq<(Seq<char>, Seq<char>)>,
    sections: Seq<Seq<(Seq<char>, Seq<char>)>>,
) -> HorseSummaryView {
    HorseSummaryView {
        sections: section_entries(sections),
        ..filled::<HorseSummary>(HorseSummary::fresh(), fields)
    }
}

/// A horse among the horses, with its fields and with its sections inside
/// their own element, adds one horse at the end of the race's horses: the
/// horse filled with its fields, holding one section for each of its section
/// summaries, in their order, each filled with its own fields. The next horse
/// starts afresh, and nothing else of the race is touched.
pub proof fn horse_is_committed(
    d: DecoderView,
    fields: Seq<(Seq<char>, Seq<char>)>,
    sections: Seq<Seq<(Seq<char>, Seq<char>)>>,
)
    requires
        active_grouping(d.scopes) == Grouping::Horses,
        d.horse == HorseSummary::fresh(),
        d.section == SectionSummary::fresh(),
        all_plain(fields),
        sections_plain(sections),
    ensures
        run(d, horse_events(fields, sections)) == (DecoderView {
            race: RaceSummaryView {
                horses: d.race.horses.push(horse_entry(fields, sections)),
                ..d.race
            },
            tag: last_section_name(SECTIONS@, sections),
            ..d
        }),
{
    lemma_names_differ();
    let open_horse = XmlEventView::Start { name: HORSE_SUMMARY@, attributes: Seq::empty() };
    let open_sections = XmlEventView::Start { name: SECTIONS@, attributes: Seq::empty() };
    let end = XmlEventView::End;
    let s1 = Seq::<XmlEventView>::empty().push(open_horse);
    let s2 = s1 + fields_events(fields);
    let s3 = s2.push(open_sections);
    let s4 = s3 + sections_events(sections);
    let s5 = s4.push(end);
    let s6 = s5.push(end);
    assert(horse_events(fields, sections) =~= s6);
    run_push(d, Seq::empty(), open_horse);
    let d1 = run(d, s1);
    assert(d1.scopes.drop_last() =~= d.scopes);
    run_concat(d, s1, fields_events(fields));
    fields_are_offered(d1, fields);
    fields_fill_the_horse(d1, fields);
    let d2 = run(d, s2);
    run_push(d, s2, open_sections);
    let d3 = run(d, s3);
    assert(d3.scopes.drop_last() =~= d2.scopes);
    run_concat(d, s3, sections_events(sections));
    horse_sections_are_collected(d3, sections);
    let d4 = run(d, s4);
    assert(d4.horse.sections =~= section_entries(sections));
    run_push(d, s4, end);
    let d5 = run(d, s5);
    assert(d5.scopes == d1.scopes);
    run_push(d, s5, end);
}

/// The events of horses that follow one another, each given by its fields
/// and by the fields of its section summaries.
pub open spec fn horses_events(
    horses: Seq<(Seq<(Seq<char>, Seq<char>)>, Seq<Seq<(Seq<char>, Seq<char>)>>)>,
) -> Seq<XmlEventView>
    decreases horses.len(),
{
    if horses.len() == 0 {
        Seq::empty()
    } else {
        horses_events(horses.drop_last()) + horse_events(horses.last().0, horses.last().1)
    }
}

/// Whether the name of each field of each horse and of each of its sections
/// is that of a plain field.
pub open spec fn horses_plain(
    horses: Seq<(Seq<(Seq<char>, Seq<char>)>, Seq<Seq<(Seq<char>, Seq<char>)>>)>,
) -> bool {
    forall|i: int|
        0 <= i < horses.len() ==> all_plain((#[trigger] horses[i]).0) && sections_plain(
            horses[i].1,
        )
}

/// The horses that the fields of horses and of their section summaries fill.
pub open spec fn horse_entries(
    horses: Seq<(Seq<(Seq<char>, Seq<char>)>, Seq<Seq<(Seq<char>, Seq<char>)>>)>,
) -> Seq<HorseSummaryView> {
    horses.map_values(
        |h: (Seq<(Seq<char>, Seq<char>)>, Seq<Seq<(Seq<char>, Seq<char>)>>)| horse_entry(h.0, h.1),
    )
}

/// The name of the tag that came last in horses that follow one another, or
/// the tag of before if none came.
pub open spec fn last_horse_name(
    tag: Seq<char>,
    horses: Seq<(Seq<(Seq<char>, Seq<char>)>, Seq<Seq<(Seq<char>, Seq<char>)>>)>,
) -> Seq<char> {
    if horses.len() == 0 {
        tag
    } else {
        last_section_name(SECTIONS@, horses.last().1)
    }
}

/// Horses that follow one another among the horses add one horse each to the
/// race's horses, in their order, each with its own fields and sections.
/// Nothing else of the race is touched.
pub proof fn horses_are_collected(
    d: DecoderView,
    horses: Seq<(Seq<(Seq<char>, Seq<char>)>, Seq<Seq<(Seq<char>, Seq<char>)>>)>,
)
    requires
        active_grouping(d.scopes) == Grouping::Horses,
        d.horse == HorseSummary::fresh(),
        d.section == SectionSummary::fresh(),
        horses_plain(horses),
    ensures
        run(d, horses_events(horses)) == (DecoderView {
            race: RaceSummaryView { horses: d.race.horses + horse_entries(horses), ..d.race },
            tag: last_horse_name(d.tag, horses),
            ..d
        }),
    decreases horses.len(),
{
    if horses.len() == 0 {
        assert(d.race.horses + horse_entries(horses) =~= d.race.horses);
    } else {
        let rest = horses.drop_last();
        let last = horses.last();
        assert forall|i: int| 0 <= i < rest.len() implies all_plain((#[trigger] rest[i]).0)
            && sections_plain(rest[i].1) by {
            assert(rest[i] == horses[i]);
        }
        horses_are_collected(d, rest);
        let mid = run(d, horses_events(rest));
        assert(horses[horses.len() - 1] == last);
        horse_is_committed(mid, last.0, last.1);
        run_concat(d, horses_events(rest), horse_events(last.0, last.1));
        assert(horse_entries(horses) =~= horse_entries(rest).push(horse_entry(last.0, last.1)));
        assert(d.race.horses + horse_entries(horses) =~= (d.race.horses + horse_entries(
            rest,
        )).push(horse_entry(last.0, last.1)));
    }
}

/// The events of a document: the race with its fields, then its fastest
/// sections, then its horses.
pub open spec fn document_events(
    fields: Seq<(Seq<char>, Seq<char>)>,
    fastest: Seq<Seq<(Seq<char>, Seq<char>)>>,
    horses: Seq<(Seq<(Seq<char>, Seq<char>)>, Seq<Seq<(Seq<char>, Seq<char>)>>)>,
) -> Seq<XmlEventView> {
    seq![XmlEventView::Start { name: RACE_SUMMARY@, attributes: Seq::empty() }] + fields_events(
        fields,
    ) + seq![XmlEventView::Start { name: FASTEST_SECTIONS@, attributes: Seq::empty() }]
        + sections_events(fastest) + seq![
        XmlEventView::End,
        XmlEventView::Start { name: HORSES@, attributes: Seq::empty() },
    ] + horses_events(horses) + seq![XmlEventView::End, XmlEventView::End]
}

/// A document of the usual shape decodes to the race filled with its fields,
/// with one fastest section for each section summary among its fastest
/// sections and one horse for each horse summary among its horses, in the
/// order of the document, each filled with its own fields and with nothing
/// of another.
pub proof fn document_is_decoded(
    fields: Seq<(Seq<char>, Seq<char>)>,
    fastest: Seq<Seq<(Seq<char>, Seq<char>)>>,
    horses: Seq<(Seq<(Seq<char>, Seq<char>)>, Seq<Seq<(Seq<char>, Seq<char>)>>)>,
)
    requires
        all_plain(fields),
        sections_plain(fastest),
        horses_plain(horses),
    ensures
        decoded(document_events(fields, fastest, horses)) == (RaceSummaryView {
            fastest_sections: fastest_entries(fastest),
            horses: horse_entries(horses),
            ..filled::<RaceSummary>(RaceSummary::fresh(), fields)
        }),
{
    lemma_names_differ();
    let d = initial();
    let open_race = XmlEventView::Start { name: RACE_SUMMARY@, attributes: Seq::empty() };
    let open_fastest = XmlEventView::Start { name: FASTEST_SECTIONS@, attributes: Seq::empty() };
    let open_horses = XmlEventView::Start { name: HORSES@, attributes: Seq::empty() };
    let end = XmlEventView::End;
    let s1 = Seq::<XmlEventView>::empty().push(open_race);
    let s2 = s1 + fields_events(fields);
    let s3 = s2.push(open_fastest);
    let s4 = s3 + sections_events(fastest);
    let s5 = s4.push(end);
    let s6 = s5.push(open_horses);
    let s7 = s6 + horses_events(horses);
    let s8 = s7.push(end);
    let s9 = s8.push(end);
    assert(document_events(fields, fastest, horses) =~= s9);
    run_push(d, Seq::empty(), open_race);
    let d1 = run(d, s1);
    assert(d1.scopes.drop_last() =~= d.scopes);
    run_concat(d, s1, fields_events(fields));
    fields_are_offered(d1, fields);
    fields_fill_the_race(d1, fields);
    let d2 = run(d, s2);
    run_push(d, s2, open_fastest);
    let d3 = run(d, s3);
    assert(d3.scopes.drop_last() =~= d2.scopes);
    run_concat(d, s3, sections_events(fastest));
    fastest_sections_are_collected(d3, fastest);
    let d4 = run(d, s4);
    assert(d4.race.fastest_sections =~= fastest_entries(fastest));
    run_push(d, s4, end);
    let d5 = run(d, s5);
    assert(d5.scopes == d1.scopes);
    run_push(d, s5, open_horses);
    let d6 = run(d, s6);
    assert(d6.scopes.drop_last() =~= d5.scopes);
    run_concat(d, s6, horses_events(horses));
    horses_are_collected(d6, horses);
    let d7 = run(d, s7);
    assert(d7.race.horses =~= horse_entries(horses));
    run_push(d, s7, end);
    let d8 = run(d, s8);
    assert(d8.scopes == d1.scopes);
    run_push(d, s8, end);
}

/// The events of one pair: the start tag of its wrapper, `Item1` and `Item2`
/// with the text of each, and the end tag of the wrapper.
pub open spec fn pair_events(first: Seq<char>, second: Seq<char>) -> Seq<XmlEventView> {
    seq![
        XmlEventView::Start { name: SERIALIZABLE_TUPLE_OF_DOUBLE_DOUBLE@, attributes: Seq::empty() },
        XmlEventView::Start { name: ITEM1@, attributes: Seq::empty() },
        XmlEventView::Text(first),
        XmlEventView::End,
        XmlEventView::Start { name: ITEM2@, attributes: Seq::empty() },
        XmlEventView::Text(second),
        XmlEventView::End,
        XmlEventView::End,
    ]
}

/// The events of pairs that follow one another.
pub open spec fn pairs_events(texts: Seq<(Seq<char>, Seq<char>)>) -> Seq<XmlEventView>
    decreases texts.len(),
{
    if texts.len() == 0 {
        Seq::empty()
    } else {
        pairs_events(texts.drop_last()) + pair_events(texts.last().0, texts.last().1)
    }
}

/// Whether both texts of each pair denote a number.
pub open spec fn pairs_denote(texts: Seq<(Seq<char>, Seq<char>)>) -> bool {
    forall|i: int|
        0 <= i < texts.len() ==> i32_of_text((#[trigger] texts[i]).0) is Some && decimal_of_text(
            texts[i].1,
        ) is Some
}

/// The pairs that the texts of pairs denote.
pub open spec fn pair_values(texts: Seq<(Seq<char>, Seq<char>)>) -> Seq<(i32, Decimal)> {
    texts.map_values(
        |t: (Seq<char>, Seq<char>)| (i32_of_text(t.0).unwrap(), decimal_of_text(t.1).unwrap()),
    )
}

/// One pair among a horse's speeds, with texts that denote numbers, adds the
/// pair of those numbers at the end of the speeds, and leaves the open
/// elements and the ranks as they were.
pub proof fn pair_is_combined(d: DecoderView, first: Seq<char>, second: Seq<char>)
    requires
        innermost(d.scopes) == Some(SPEEDS@),
        i32_of_text(first) is Some,
        decimal_of_text(second) is Some,
    ensures
        run(d, pair_events(first, second)).horse.speeds == d.horse.speeds.push(
            (i32_of_text(first).unwrap(), decimal_of_text(second).unwrap()),
        ),
        run(d, pair_events(first, second)).horse.ranks == d.horse.ranks,
        run(d, pair_events(first, second)).scopes == d.scopes,
{
    reveal_strlit("Item1");
    reveal_strlit("Item2");
    reveal_strlit("SectionSummary");
    reveal_strlit("HorseSummary");
    reveal_strlit("SerializableTupleOfDoubleDouble");
    reveal_strlit("SerializableTupleOfDoubleInt32");
    assert(ITEM1@[4] != ITEM2@[4]);
    assert(ITEM1@.len() == 5 && ITEM2@.len() == 5);
    assert(SECTION_SUMMARY@.len() == 14 && HORSE_SUMMARY@.len() == 12);
    assert(SERIALIZABLE_TUPLE_OF_DOUBLE_DOUBLE@.len() == 31);
    assert(SERIALIZABLE_TUPLE_OF_DOUBLE_INT32@.len() == 30);
    let none = Seq::<(Seq<char>, Seq<char>)>::empty();
    let e1 = XmlEventView::Start { name: SERIALIZABLE_TUPLE_OF_DOUBLE_DOUBLE@, attributes: none };
    let e2 = XmlEventView::Start { name: ITEM1@, attributes: none };
    let e3 = XmlEventView::Text(first);
    let e4 = XmlEventView::End;
    let e5 = XmlEventView::Start { name: ITEM2@, attributes: none };
    let e6 = XmlEventView::Text(second);
    let s0 = Seq::<XmlEventView>::empty();
    let s1 = s0.push(e1);
    let s2 = s1.push(e2);
    let s3 = s2.push(e3);
    let s4 = s3.push(e4);
    let s5 = s4.push(e5);
    let s6 = s5.push(e6);
    let s7 = s6.push(e4);
    let s8 = s7.push(e4);
    assert(pair_events(first, second) =~= s8);
    run_push(d, s0, e1);
    run_push(d, s1, e2);
    run_push(d, s2, e3);
    run_push(d, s3, e4);
    run_push(d, s4, e5);
    run_push(d, s5, e6);
    run_push(d, s6, e4);
    run_push(d, s7, e4);
    let d1 = run(d, s1);
    let d2 = run(d, s2);
    let d3 = run(d, s3);
    let d4 = run(d, s4);
    let d5 = run(d, s5);
    let d6 = run(d, s6);
    let d7 = run(d, s7);
    let d8 = run(d, s8);
    assert(d1.scopes.drop_last() =~= d.scopes);
    assert(d2.scopes.drop_last() =~= d1.scopes);
    assert(d3 == DecoderView { item1: i32_of_text(first).unwrap(), ..d2 });
    assert(d4.scopes == d1.scopes);
    assert(d5.scopes.drop_last() =~= d4.scopes);
    assert(d6 == DecoderView { item2: decimal_of_text(second).unwrap(), ..d5 });
    assert(d7.scopes == d1.scopes);
    assert(d7.horse == d.horse);
    assert(d8.scopes == d.scopes);
}

/// Pairs that follow one another among a horse's speeds, with texts that
/// denote numbers, add their pairs of numbers at the end of the speeds, one
/// for each and in their order.
pub proof fn pairs_are_combined(d: DecoderView, texts: Seq<(Seq<char>, Seq<char>)>)
    requires
        innermost(d.scopes) == Some(SPEEDS@),
        pairs_denote(texts),
    ensures
        run(d, pairs_events(texts)).horse.speeds == d.horse.speeds + pair_values(texts),
        run(d, pairs_events(texts)).horse.ranks == d.horse.ranks,
        run(d, pairs_events(texts)).scopes == d.scopes,
    decreases texts.len(),
{
    if texts.len() == 0 {
        assert(d.horse.speeds + pair_values(texts) =~= d.horse.speeds);
    } else {
        let rest = texts.drop_last();
        let last = texts.last();
        assert forall|i: int| 0 <= i < rest.len() implies i32_of_text((#[trigger] rest[i]).0)
            is Some && decimal_of_text(rest[i].1) is Some by {
            assert(rest[i] == texts[i]);
        }
        pairs_are_combined(d, rest);
        let mid = run(d, pairs_events(rest));
        assert(texts[texts.len() - 1] == last);
        pair_is_combined(mid, last.0, last.1);
        run_concat(d, pairs_events(rest), pair_events(last.0, last.1));
        assert(pair_values(texts) =~= pair_values(rest).push(
            (i32_of_text(last.0).unwrap(), decimal_of_text(last.1).unwrap()),
        ));
        assert(d.horse.speeds + pair_values(texts) =~= (d.horse.speeds + pair_values(rest)).push(
            (i32_of_text(last.0).unwrap(), decimal_of_text(last.1).unwrap()),
        ));
    }
}

} // verus!
