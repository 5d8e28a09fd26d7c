//! What holds of every document.
//!
//! The decoder changes a list in one way only: by adding, at the end, the
//! record that an end tag completes. So each list holds what was completed, in
//! the order of the document, and nothing else. The laws below say so, event
//! by event and for whole documents.

use vstd::prelude::*;
use crate::decoder::{decoded, initial, innermost, run, step, DecoderView, XmlEventView};
use crate::structs::horsesummary::{lemma_horse_attributes, lemma_horse_written};
use crate::structs::racesummary::{lemma_race_attributes, lemma_race_written};
use crate::{
    has_key, FASTEST_SECTIONS, HORSE_SUMMARY, RACE_CODE, RANKS, SECTION_SUMMARY,
    SERIALIZABLE_TUPLE_OF_DOUBLE_DOUBLE, SERIALIZABLE_TUPLE_OF_DOUBLE_INT32, SPEEDS,
};

verus! {

/// What an event completes.
pub enum Commit {
    /// Nothing.
    Nothing,
    /// An entry of the race's fastest sections.
    FastestSection,
    /// A section of the horse in the making.
    HorseSection,
    /// A horse.
    Horse,
    /// A pair of the speeds of the horse in the making.
    Speed,
    /// A pair of the ranks of the horse in the making.
    Rank,
}

/// What an event completes in a state: an end tag completes what the
/// innermost open element stands for, where it stands; no other event
/// completes anything.
pub open spec fn commit_of(d: DecoderView, event: XmlEventView) -> Commit {
    if event is End && d.scopes.len() > 0 {
        let closed = d.scopes.last().name;
        let parent = innermost(d.scopes.drop_last());
        if closed == SECTION_SUMMARY@ {
            if parent == Some(FASTEST_SECTIONS@) {
                Commit::FastestSection
            } else {
                Commit::HorseSection
            }
        } else if closed == HORSE_SUMMARY@ {
            Commit::Horse
        } else if closed == SERIALIZABLE_TUPLE_OF_DOUBLE_DOUBLE@ || closed
            == SERIALIZABLE_TUPLE_OF_DOUBLE_INT32@ {
            if parent == Some(SPEEDS@) {
                Commit::Speed
            } else if parent == Some(RANKS@) {
                Commit::Rank
            } else {
                Commit::Nothing
            }
        } else {
            Commit::Nothing
        }
    } else {
        Commit::Nothing
    }
}

/// How often the events of a run complete a thing of the given kind.
pub open spec fn commit_count(d: DecoderView, events: Seq<XmlEventView>, kind: Commit) -> nat
    decreases events.len(),
{
    if events.len() == 0 {
        0
    } else {
        let before = commit_count(d, events.drop_last(), kind);
        if commit_of(run(d, events.drop_last()), events.last()) == kind {
            before + 1
        } else {
            before
        }
    }
}

/// How often the events of a run complete a thing of the given kind after
/// the last horse that they complete.
pub open spec fn commit_count_in_horse(
    d: DecoderView,
    events: Seq<XmlEventView>,
    kind: Commit,
) -> nat
    decreases events.len(),
{
    if events.len() == 0 {
        0
    } else {
        let commit = commit_of(run(d, events.drop_last()), events.last());
        let before = commit_count_in_horse(d, events.drop_last(), kind);
        if commit is Horse {
            0
        } else if commit == kind {
            before + 1
        } else {
            before
        }
    }
}

/// Whether a start tag of the given name is among the events.
pub open spec fn has_start(events: Seq<XmlEventView>, name: Seq<char>) -> bool {
    exists|i: int| 0 <= i < events.len() && #[trigger] events[i] == (XmlEventView::Start {
        name,
        attributes: events[i]->Start_attributes,
    })
}

/// Whether the events name a field: as a tag, or as the key of an attribute.
pub open spec fn names_field(events: Seq<XmlEventView>, field: Seq<char>) -> bool {
    exists|i: int| 0 <= i < events.len() && event_names_field(#[trigger] events[i], field)
}

/// Whether an event names a field: as a tag, or as the key of an attribute.
pub open spec fn event_names_field(event: XmlEventView, field: Seq<char>) -> bool {
    match event {
        XmlEventView::Start { name, attributes } => name == field || has_key(attributes, field),
        XmlEventView::Empty { name, attributes } => name == field || has_key(attributes, field),
        _ => false,
    }
}

/// Lists change by commits alone, and a commit adds at the end. An event that
/// completes a fastest section adds the entry in the making to the race's
/// fastest sections; one that completes a horse adds the horse in the making
/// to the race's horses, and the next horse starts with empty lists; one that
/// completes a section, or a pair of speeds or ranks, adds it to the list of
/// the horse in the making. Every other list is left as it was: what is
/// completed among the fastest sections never reaches a horse, and what is
/// completed in a horse never reaches the fastest sections.
pub proof fn commits_are_appended(d: DecoderView, event: XmlEventView)
    ensures
        step(d, event).race.fastest_sections == if commit_of(d, event) is FastestSection {
            d.race.fastest_sections.push(d.fastest)
        } else {
            d.race.fastest_sections
        },
        step(d, event).race.horses == if commit_of(d, event) is Horse {
            d.race.horses.push(d.horse)
        } else {
            d.race.horses
        },
        step(d, event).horse.sections == if commit_of(d, event) is Horse {
            Seq::empty()
        } else if commit_of(d, event) is HorseSection {
            d.horse.sections.push(d.section)
        } else {
            d.horse.sections
        },
        step(d, event).horse.speeds == if commit_of(d, event) is Horse {
            Seq::empty()
        } else if commit_of(d, event) is Speed {
            d.horse.speeds.push((d.item1, d.item2))
        } else {
            d.horse.speeds
        },
        step(d, event).horse.ranks == if commit_of(d, event) is Horse {
            Seq::empty()
        } else if commit_of(d, event) is Rank {
            d.horse.ranks.push((d.item1, d.item2))
        } else {
            d.horse.ranks
        },
{
    match event {
        XmlEventView::Start { name, attributes } => {
            lemma_race_attributes(d.race, name, attributes);
            lemma_horse_attributes(d.horse, name, attributes);
        },
        XmlEventView::Empty { name, attributes } => {
            lemma_race_attributes(d.race, name, attributes);
            lemma_horse_attributes(d.horse, name, attributes);
        },
        XmlEventView::Text(text) => {
            lemma_race_written(d.race, d.tag, text);
            lemma_horse_written(d.horse, d.tag, text);
        },
        XmlEventView::End => {},
        XmlEventView::Other => {},
    }
}

/// A document's lists hold one entry for each commit, no more and no fewer:
/// the race's fastest sections one for each section summary closed directly
/// inside the fastest sections, and the race's horses one for each horse
/// closed.
pub proof fn commits_are_counted(events: Seq<XmlEventView>)
    ensures
        decoded(events).fastest_sections.len() == commit_count(
            initial(),
            events,
            Commit::FastestSection,
        ),
        decoded(events).horses.len() == commit_count(initial(), events, Commit::Horse),
    decreases events.len(),
{
    if events.len() > 0 {
        commits_are_counted(events.drop_last());
        commits_are_appended(run(initial(), events.drop_last()), events.last());
    }
}

/// The horse in the making holds one section for each section summary that
/// was closed outside the fastest sections since the last horse was closed,
/// and one pair of speeds and of ranks for each that was closed since then.
pub proof fn horse_lists_are_counted(events: Seq<XmlEventView>)
    ensures
        run(initial(), events).horse.sections.len() == commit_count_in_horse(
            initial(),
            events,
            Commit::HorseSection,
        ),
        run(initial(), events).horse.speeds.len() == commit_count_in_horse(
            initial(),
            events,
            Commit::Speed,
        ),
        run(initial(), events).horse.ranks.len() == commit_count_in_horse(
            initial(),
            events,
            Commit::Rank,
        ),
    decreases events.len(),
{
    if events.len() > 0 {
        horse_lists_are_counted(events.drop_last());
        commits_are_appended(run(initial(), events.drop_last()), events.last());
    }
}

/// Lists keep the order of the document: what the race holds after the first
/// `k` events of a document, it holds at the same places after all of them.
pub proof fn lists_keep_document_order(events: Seq<XmlEventView>, k: int)
    requires
        0 <= k <= events.len(),
    ensures
        decoded(events.take(k)).fastest_sections.is_prefix_of(decoded(events).fastest_sections),
        decoded(events.take(k)).horses.is_prefix_of(decoded(events).horses),
    decreases events.len() - k,
{
    if k == events.len() {
        assert(events.take(k) =~= events);
    } else {
        lists_keep_document_order(events.drop_last(), k);
        assert(events.drop_last().take(k) =~= events.take(k));
        commits_are_appended(run(initial(), events.drop_last()), events.last());
    }
}

proof fn lemma_open_names(events: Seq<XmlEventView>, name: Seq<char>)
    requires
        !has_start(events, name),
    ensures
        forall|k: int|
            0 <= k < run(initial(), events).scopes.len() ==> (#[trigger] run(
                initial(),
                events,
            ).scopes[k]).name != name,
    decreases events.len(),
{
    if events.len() > 0 {
        let rest = events.drop_last();
        assert forall|i: int| 0 <= i < rest.len() implies #[trigger] rest[i] != (
        XmlEventView::Start { name, attributes: rest[i]->Start_attributes }) by {
            assert(events[i] == rest[i]);
        }
        lemma_open_names(rest, name);
        let d = run(initial(), rest);
        let after = run(initial(), events);
        match events.last() {
            XmlEventView::Start { name: opened, attributes } => {
                assert(events[events.len() - 1] == (XmlEventView::Start {
                    name: opened,
                    attributes,
                }));
                assert(opened != name);
                assert forall|k: int| 0 <= k < after.scopes.len() implies (
                #[trigger] after.scopes[k]).name != name by {
                    if k < d.scopes.len() {
                        assert(after.scopes[k] == d.scopes[k]);
                    }
                }
            },
            XmlEventView::End => {
                assert forall|k: int| 0 <= k < after.scopes.len() implies (
                #[trigger] after.scopes[k]).name != name by {
                    assert(after.scopes[k] == d.scopes[k]);
                }
            },
            _ => {},
        }
    }
}

proof fn lemma_no_commit_without_start(events: Seq<XmlEventView>, name: Seq<char>, kind: Commit)
    requires
        !has_start(events, name),
        forall|d: DecoderView, event: XmlEventView|
            #[trigger] commit_of(d, event) == kind ==> d.scopes.len() > 0 && d.scopes.last().name
                == name,
    ensures
        commit_count(initial(), events, kind) == 0,
    decreases events.len(),
{
    if events.len() > 0 {
        let rest = events.drop_last();
        assert forall|i: int| 0 <= i < rest.len() implies #[trigger] rest[i] != (
        XmlEventView::Start { name, attributes: rest[i]->Start_attributes }) by {
            assert(events[i] == rest[i]);
        }
        lemma_no_commit_without_start(rest, name, kind);
        lemma_open_names(rest, name);
        let d = run(initial(), rest);
        if commit_of(d, events.last()) == kind {
            assert(d.scopes[d.scopes.len() - 1].name != name);
        }
    }
}

/// A document without a horse summary tag decodes to a race without horses,
/// and one without a section summary tag to a race without fastest sections.
pub proof fn nothing_comes_of_no_tag(events: Seq<XmlEventView>)
    ensures
        !has_start(events, HORSE_SUMMARY@) ==> decoded(events).horses.len() == 0,
        !has_start(events, SECTION_SUMMARY@) ==> decoded(events).fastest_sections.len() == 0,
{
    commits_are_counted(events);
    if !has_start(events, HORSE_SUMMARY@) {
        lemma_no_commit_without_start(events, HORSE_SUMMARY@, Commit::Horse);
    }
    if !has_start(events, SECTION_SUMMARY@) {
        lemma_no_commit_without_start(events, SECTION_SUMMARY@, Commit::FastestSection);
    }
}

/// A document that names no race code, neither as a tag nor as the key of an
/// attribute, decodes to a race whose code is zero.
pub proof fn race_code_stays_zero(events: Seq<XmlEventView>)
    requires
        !names_field(events, RACE_CODE@),
    ensures
        decoded(events).race_code == 0,
{
    lemma_race_code_untouched(events);
}

proof fn lemma_race_code_untouched(events: Seq<XmlEventView>)
    requires
        !names_field(events, RACE_CODE@),
    ensures
        run(initial(), events).race.race_code == 0,
        run(initial(), events).tag != RACE_CODE@,
    decreases events.len(),
{
    reveal_strlit("RaceCode");
    if events.len() > 0 {
        let rest = events.drop_last();
        assert forall|i: int| 0 <= i < rest.len() implies !event_names_field(
            #[trigger] rest[i],
            RACE_CODE@,
        ) by {
            assert(events[i] == rest[i]);
        }
        lemma_race_code_untouched(rest);
        let d = run(initial(), rest);
        assert(!event_names_field(events[events.len() - 1], RACE_CODE@));
        match events.last() {
            XmlEventView::Start { name, attributes } => {
                lemma_race_attributes(d.race, name, attributes);
            },
            XmlEventView::Empty { name, attributes } => {
                lemma_race_attributes(d.race, name, attributes);
            },
            XmlEventView::Text(text) => {
                lemma_race_written(d.race, d.tag, text);
            },
            XmlEventView::End => {},
            XmlEventView::Other => {},
        }
    } else {
        assert(RACE_CODE@.len() == 8);
    }
}

} // verus!
