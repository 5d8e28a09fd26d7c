//! The decoder: one pass over the events of a document.
//!
//! The decoder keeps the elements that are open, and with each the grouping
//! that holds inside it. The grouping says which record a value belongs to:
//! the same tag means one kind of record among a race's fastest sections and
//! another among a horse's sections.

use vstd::prelude::*;
use crate::decimal::{decimal_of_text, Decimal};
use crate::integer::{i32_of_text, parse_i32};
use crate::ValueProcessor;
use crate::structs::fssummary::FastestSectionSummary;
use crate::structs::horsesummary::{
    horse_sound, lemma_horse_attributes, lemma_horse_written, HorseSummary, HorseSummaryView,
};
use crate::structs::racesummary::{
    lemma_race_attributes, lemma_race_written, race_sound, RaceSummary, RaceSummaryView,
};
use crate::structs::sectionsummary::SectionSummary;
use crate::text::str_eq;
use crate::{
    attribute_views, parse_start, parse_text, with_attributes, written, FASTEST_SECTIONS, HORSES,
    HORSE_SUMMARY, ITEM1, ITEM2, RANKS, SECTIONS, SECTION_SUMMARY,
    SERIALIZABLE_TUPLE_OF_DOUBLE_DOUBLE, SERIALIZABLE_TUPLE_OF_DOUBLE_INT32, SPEEDS,
};

verus! {

/// The collection that is open, which decides the record that values go to.
#[derive(Clone, Copy, Debug, PartialEq, Eq, Structural)]
pub enum Grouping {
    /// No collection: values go to the race.
    Root,
    /// The race's fastest sections: values go to the entry in the making.
    FastestSections,
    /// The race's horses: values go to the horse in the making.
    Horses,
    /// The sections of a horse: values go to the section in the making.
    HorseSections,
}

/// One event of a document.
#[derive(Clone, Debug, PartialEq)]
pub enum XmlEvent {
    /// A start tag, with its attributes in the order of the document.
    Start { name: String, attributes: Vec<(String, String)> },
    /// A tag that is its own end, with its attributes.
    Empty { name: String, attributes: Vec<(String, String)> },
    /// Text between tags.
    Text(String),
    /// An end tag.
    End,
    /// Anything else: a declaration, a comment, an instruction.
    Other,
}

/// What an event holds.
pub enum XmlEventView {
    Start { name: Seq<char>, attributes: Seq<(Seq<char>, Seq<char>)> },
    Empty { name: Seq<char>, attributes: Seq<(Seq<char>, Seq<char>)> },
    Text(Seq<char>),
    End,
    Other,
}

impl View for XmlEvent {
    type V = XmlEventView;

    open spec fn view(&self) -> XmlEventView {
        match *self {
            XmlEvent::Start { name, attributes } => XmlEventView::Start {
                name: name@,
                attributes: attribute_views(attributes@),
            },
            XmlEvent::Empty { name, attributes } => XmlEventView::Empty {
                name: name@,
                attributes: attribute_views(attributes@),
            },
            XmlEvent::Text(text) => XmlEventView::Text(text@),
            XmlEvent::End => XmlEventView::End,
            XmlEvent::Other => XmlEventView::Other,
        }
    }
}

/// What each event of a list holds.
pub open spec fn event_views(events: Seq<XmlEvent>) -> Seq<XmlEventView> {
    events.map_values(|e: XmlEvent| e@)
}

/// An open element, and the grouping that holds inside it.
#[derive(Clone, Debug, PartialEq)]
pub struct Scope {
    pub name: String,
    pub grouping: Grouping,
}

/// What a scope holds.
pub struct ScopeView {
    pub name: Seq<char>,
    pub grouping: Grouping,
}

impl View for Scope {
    type V = ScopeView;

    open spec fn view(&self) -> ScopeView {
        ScopeView { name: self.name@, grouping: self.grouping }
    }
}

/// What each scope of a list holds.
pub open spec fn scope_views(scopes: Seq<Scope>) -> Seq<ScopeView> {
    scopes.map_values(|s: Scope| s@)
}

/// The state of a decoder between two events.
#[derive(Clone, Debug, PartialEq)]
pub struct Decoder {
    /// The race, with what was committed to it so far.
    pub race: RaceSummary,
    /// The fastest-section entry in the making.
    pub fastest: FastestSectionSummary,
    /// The horse in the making.
    pub horse: HorseSummary,
    /// The section in the making.
    pub section: SectionSummary,
    /// The first part of the pair in the making.
    pub item1: i32,
    /// The second part of the pair in the making.
    pub item2: Decimal,
    /// The name of the tag that was opened last.
    pub tag: String,
    /// The open elements, outermost first.
    pub scopes: Vec<Scope>,
}

/// What a decoder holds.
pub struct DecoderView {
    pub race: RaceSummaryView,
    pub fastest: FastestSectionSummary,
    pub horse: HorseSummaryView,
    pub section: SectionSummary,
    pub item1: i32,
    pub item2: Decimal,
    pub tag: Seq<char>,
    pub scopes: Seq<ScopeView>,
}

impl View for Decoder {
    type V = DecoderView;

    open spec fn view(&self) -> DecoderView {
        DecoderView {
            race: self.race@,
            fastest: self.fastest,
            horse: self.horse@,
            section: self.section,
            item1: self.item1,
            item2: self.item2,
            tag: self.tag@,
            scopes: scope_views(self.scopes@),
        }
    }
}

/// Whether each value that a decoder holds, in the records in the making and
/// in those that were committed, is in the one form that its kind allows.
pub open spec fn sound_state(d: DecoderView) -> bool {
    &&& race_sound(d.race)
    &&& FastestSectionSummary::sound(d.fastest)
    &&& horse_sound(d.horse)
    &&& SectionSummary::sound(d.section)
    &&& d.item2.wf()
}

/// The grouping that holds where the innermost open element is.
pub open spec fn active_grouping(scopes: Seq<ScopeView>) -> Grouping {
    if scopes.len() == 0 {
        Grouping::Root
    } else {
        scopes.last().grouping
    }
}

/// The grouping that holds inside an element of the given name, opened where
/// `current` holds. A horse's sections are entered only from among the horses.
pub open spec fn entered_grouping(current: Grouping, name: Seq<char>) -> Grouping {
    if name == FASTEST_SECTIONS@ {
        Grouping::FastestSections
    } else if name == HORSES@ {
        Grouping::Horses
    } else if name == SECTIONS@ && current == Grouping::Horses {
        Grouping::HorseSections
    } else {
        current
    }
}

/// The name of the innermost open element, if any is open.
pub open spec fn innermost(scopes: Seq<ScopeView>) -> Option<Seq<char>> {
    if scopes.len() == 0 {
        None
    } else {
        Some(scopes.last().name)
    }
}

/// The state before the first event.
pub open spec fn initial() -> DecoderView {
    DecoderView {
        race: RaceSummary::fresh(),
        fastest: FastestSectionSummary::fresh(),
        horse: HorseSummary::fresh(),
        section: SectionSummary::fresh(),
        item1: 0,
        item2: Decimal { negative: false, digits: 0, scale: 0 },
        tag: Seq::empty(),
        scopes: Seq::empty(),
    }
}

/// The state after the attributes of the current tag were offered to the
/// record that the grouping selects.
pub open spec fn route_attributes(
    d: DecoderView,
    grouping: Grouping,
    attributes: Seq<(Seq<char>, Seq<char>)>,
) -> DecoderView {
    match grouping {
        Grouping::Root => DecoderView {
            race: with_attributes::<RaceSummary>(d.race, d.tag, attributes),
            ..d
        },
        Grouping::FastestSections => DecoderView {
            fastest: with_attributes::<FastestSectionSummary>(d.fastest, d.tag, attributes),
            ..d
        },
        Grouping::Horses => DecoderView {
            horse: with_attributes::<HorseSummary>(d.horse, d.tag, attributes),
            ..d
        },
        Grouping::HorseSections => DecoderView {
            section: with_attributes::<SectionSummary>(d.section, d.tag, attributes),
            ..d
        },
    }
}

/// The state after a text was offered, under the name of the current tag, to
/// the record that the grouping selects.
pub open spec fn route_text(d: DecoderView, grouping: Grouping, text: Seq<char>) -> DecoderView {
    match grouping {
        Grouping::Root => DecoderView { race: written::<RaceSummary>(d.race, d.tag, text), ..d },
        Grouping::FastestSections => DecoderView {
            fastest: written::<FastestSectionSummary>(d.fastest, d.tag, text),
            ..d
        },
        Grouping::Horses => DecoderView {
            horse: written::<HorseSummary>(d.horse, d.tag, text),
            ..d
        },
        Grouping::HorseSections => DecoderView {
            section: written::<SectionSummary>(d.section, d.tag, text),
            ..d
        },
    }
}

/// The state after a start tag: the element is open, its name is the current
/// tag, and its attributes were offered to the record of the grouping that
/// holds inside it.
pub open spec fn after_start(
    d: DecoderView,
    name: Seq<char>,
    attributes: Seq<(Seq<char>, Seq<char>)>,
) -> DecoderView {
    let grouping = entered_grouping(active_grouping(d.scopes), name);
    let opened = DecoderView {
        tag: name,
        scopes: d.scopes.push(ScopeView { name, grouping }),
        ..d
    };
    route_attributes(opened, grouping, attributes)
}

/// The state after a tag that is its own end: nothing is opened, its name is
/// the current tag, and its attributes were offered to the record of the
/// grouping that holds around it.
pub open spec fn after_empty(
    d: DecoderView,
    name: Seq<char>,
    attributes: Seq<(Seq<char>, Seq<char>)>,
) -> DecoderView {
    route_attributes(DecoderView { tag: name, ..d }, active_grouping(d.scopes), attributes)
}

/// The state after a text. Inside `Item1` and `Item2` the text is a part of
/// the pair in the making; a text that denotes no number leaves the part as
/// it was. Anywhere else the text is offered to a record.
pub open spec fn after_text(d: DecoderView, text: Seq<char>) -> DecoderView {
    if innermost(d.scopes) == Some(ITEM1@) {
        match i32_of_text(text) {
            Some(x) => DecoderView { item1: x, ..d },
            None => d,
        }
    } else if innermost(d.scopes) == Some(ITEM2@) {
        match decimal_of_text(text) {
            Some(x) => DecoderView { item2: x, ..d },
            None => d,
        }
    } else {
        route_text(d, active_grouping(d.scopes), text)
    }
}

/// The state after the end tag of the innermost open element. The element is
/// closed, and what it completed is committed: a section summary among the
/// fastest sections to the race, any other to the horse in the making; a
/// horse to the race; a pair to the horse's speeds or ranks. A record that
/// was committed starts afresh. With no element open, nothing changes.
pub open spec fn after_end(d: DecoderView) -> DecoderView {
    if d.scopes.len() == 0 {
        d
    } else {
        let closed = d.scopes.last().name;
        let rest = d.scopes.drop_last();
        let parent = innermost(rest);
        let shut = DecoderView { scopes: rest, ..d };
        if closed == SECTION_SUMMARY@ {
            if parent == Some(FASTEST_SECTIONS@) {
                DecoderView {
                    race: RaceSummaryView {
                        fastest_sections: d.race.fastest_sections.push(d.fastest),
                        ..d.race
                    },
                    fastest: FastestSectionSummary::fresh(),
                    ..shut
                }
            } else {
                DecoderView {
                    horse: HorseSummaryView {
                        sections: d.horse.sections.push(d.section),
                        ..d.horse
                    },
                    section: SectionSummary::fresh(),
                    ..shut
                }
            }
        } else if closed == HORSE_SUMMARY@ {
            DecoderView {
                race: RaceSummaryView { horses: d.race.horses.push(d.horse), ..d.race },
                horse: HorseSummary::fresh(),
                ..shut
            }
        } else if closed == SERIALIZABLE_TUPLE_OF_DOUBLE_DOUBLE@ || closed
            == SERIALIZABLE_TUPLE_OF_DOUBLE_INT32@ {
            if parent == Some(SPEEDS@) {
                DecoderView {
                    horse: HorseSummaryView {
                        speeds: d.horse.speeds.push((d.item1, d.item2)),
                        ..d.horse
                    },
                    ..shut
                }
            } else if parent == Some(RANKS@) {
                DecoderView {
                    horse: HorseSummaryView {
                        ranks: d.horse.ranks.push((d.item1, d.item2)),
                        ..d.horse
                    },
                    ..shut
                }
            } else {
                shut
            }
        } else {
            shut
        }
    }
}

/// The state after one event.
pub open spec fn step(d: DecoderView, event: XmlEventView) -> DecoderView {
    match event {
        XmlEventView::Start { name, attributes } => after_start(d, name, attributes),
        XmlEventView::Empty { name, attributes } => after_empty(d, name, attributes),
        XmlEventView::Text(text) => after_text(d, text),
        XmlEventView::End => after_end(d),
        XmlEventView::Other => d,
    }
}

/// The state after a run of events, first to last.
pub open spec fn run(d: DecoderView, events: Seq<XmlEventView>) -> DecoderView
    decreases events.len(),
{
    if events.len() == 0 {
        d
    } else {
        step(run(d, events.drop_last()), events.last())
    }
}

/// Taking an event after a run of events is one more step.
pub proof fn run_push(d: DecoderView, events: Seq<XmlEventView>, event: XmlEventView)
    ensures
        run(d, events.push(event)) == step(run(d, events), event),
{
    assert(events.push(event).drop_last() =~= events);
}

/// Taking one run of events after another is taking the two as one.
pub proof fn run_concat(d: DecoderView, first: Seq<XmlEventView>, second: Seq<XmlEventView>)
    ensures
        run(d, first + second) == run(run(d, first), second),
    decreases second.len(),
{
    if second.len() == 0 {
        assert(first + second =~= first);
    } else {
        run_concat(d, first, second.drop_last());
        assert((first + second).drop_last() =~= first + second.drop_last());
    }
}

/// The race that a document's events decode to.
pub open spec fn decoded(events: Seq<XmlEventView>) -> RaceSummaryView {
    run(initial(), events).race
}

impl Decoder {
    /// A decoder before the first event.
    pub fn new() -> (r: Self)
        ensures
            r@ == initial(),
            sound_state(r@),
    {
        let r = Decoder {
            race: RaceSummary::new(),
            fastest: FastestSectionSummary::new(),
            horse: HorseSummary::new(),
            section: SectionSummary::new(),
            item1: 0,
            item2: Decimal::zero(),
            tag: String::new(),
            scopes: Vec::new(),
        };
        assert(scope_views(r.scopes@) =~= Seq::empty());
        r
    }

    /// The grouping that holds where the innermost open element is.
    pub fn grouping(&self) -> (r: Grouping)
        ensures
            r == active_grouping(self@.scopes),
    {
        let n = self.scopes.len();
        if n == 0 {
            Grouping::Root
        } else {
            self.scopes[n - 1].grouping
        }
    }

    /// Offers the attributes of the current tag to the record that the
    /// grouping selects.
    fn offer_attributes(&mut self, grouping: Grouping, attributes: &Vec<(String, String)>)
        ensures
            final(self)@ == route_attributes(old(self)@, grouping, attribute_views(attributes@)),
            sound_state(old(self)@) ==> sound_state(final(self)@),
    {
        proof {
            lemma_race_attributes(self@.race, self@.tag, attribute_views(attributes@));
            lemma_horse_attributes(self@.horse, self@.tag, attribute_views(attributes@));
        }
        match grouping {
            Grouping::Root => parse_start(attributes, &mut self.tag, &mut self.race),
            Grouping::FastestSections => parse_start(attributes, &mut self.tag, &mut self.fastest),
            Grouping::Horses => parse_start(attributes, &mut self.tag, &mut self.horse),
            Grouping::HorseSections => parse_start(attributes, &mut self.tag, &mut self.section),
        }
    }

    /// Takes a start tag.
    pub fn start_element(&mut self, name: &String, attributes: &Vec<(String, String)>)
        ensures
            final(self)@ == after_start(old(self)@, name@, attribute_views(attributes@)),
            sound_state(old(self)@) ==> sound_state(final(self)@),
    {
        let current = self.grouping();
        let grouping = if str_eq(name.as_str(), FASTEST_SECTIONS) {
            Grouping::FastestSections
        } else if str_eq(name.as_str(), HORSES) {
            Grouping::Horses
        } else if str_eq(name.as_str(), SECTIONS) && current == Grouping::Horses {
            Grouping::HorseSections
        } else {
            current
        };
        self.tag = name.clone();
        self.scopes.push(Scope { name: name.clone(), grouping });
        assert(scope_views(self.scopes@) =~= scope_views(old(self).scopes@).push(
            ScopeView { name: name@, grouping },
        ));
        self.offer_attributes(grouping, attributes);
    }

    /// Takes a tag that is its own end.
    pub fn empty_element(&mut self, name: &String, attributes: &Vec<(String, String)>)
        ensures
            final(self)@ == after_empty(old(self)@, name@, attribute_views(attributes@)),
            sound_state(old(self)@) ==> sound_state(final(self)@),
    {
        let grouping = self.grouping();
        self.tag = name.clone();
        self.offer_attributes(grouping, attributes);
    }

    /// Takes a text.
    pub fn text(&mut self, text: &String)
        ensures
            final(self)@ == after_text(old(self)@, text@),
            sound_state(old(self)@) ==> sound_state(final(self)@),
    {
        proof {
            lemma_race_written(self@.race, self@.tag, text@);
            lemma_horse_written(self@.horse, self@.tag, text@);
        }
        let n = self.scopes.len();
        if n > 0 && str_eq(self.scopes[n - 1].name.as_str(), ITEM1) {
            match parse_i32(text.as_str()) {
                Some(x) => {
                    self.item1 = x;
                },
                None => {},
            }
        } else if n > 0 && str_eq(self.scopes[n - 1].name.as_str(), ITEM2) {
            match Decimal::parse(text.as_str()) {
                Some(x) => {
                    self.item2 = x;
                },
                None => {},
            }
        } else {
            let mut txt = String::new();
            match self.grouping() {
                Grouping::Root => parse_text(text.clone(), &mut self.tag, &mut self.race, &mut txt),
                Grouping::FastestSections => parse_text(
                    text.clone(),
                    &mut self.tag,
                    &mut self.fastest,
                    &mut txt,
                ),
                Grouping::Horses => parse_text(
                    text.clone(),
                    &mut self.tag,
                    &mut self.horse,
                    &mut txt,
                ),
                Grouping::HorseSections => parse_text(
                    text.clone(),
                    &mut self.tag,
                    &mut self.section,
                    &mut txt,
                ),
            }
        }
    }

    /// Takes an end tag.
    pub fn end_element(&mut self)
        ensures
            final(self)@ == after_end(old(self)@),
            sound_state(old(self)@) ==> sound_state(final(self)@),
    {
        let closed = match self.scopes.pop() {
            Some(scope) => scope,
            None => {
                return ;
            },
        };
        assert(scope_views(self.scopes@) =~= scope_views(old(self).scopes@).drop_last());
        assert(closed@ == scope_views(old(self).scopes@).last());
        let n = self.scopes.len();
        if str_eq(closed.name.as_str(), SECTION_SUMMARY) {
            if n > 0 && str_eq(self.scopes[n - 1].name.as_str(), FASTEST_SECTIONS) {
                let done = self.fastest;
                self.fastest = FastestSectionSummary::new();
                self.race.add_fastest_section(done);
            } else {
                let done = self.section;
                self.section = SectionSummary::new();
                self.horse.add_section(done);
            }
        } else if str_eq(closed.name.as_str(), HORSE_SUMMARY) {
            let mut done = HorseSummary::new();
            core::mem::swap(&mut self.horse, &mut done);
            self.race.add_horse(done);
        } else if str_eq(closed.name.as_str(), SERIALIZABLE_TUPLE_OF_DOUBLE_DOUBLE) || str_eq(
            closed.name.as_str(),
            SERIALIZABLE_TUPLE_OF_DOUBLE_INT32,
        ) {
            if n > 0 && str_eq(self.scopes[n - 1].name.as_str(), SPEEDS) {
                let _ = self.horse.add_tuple_field(SPEEDS, (self.item1, self.item2));
            } else if n > 0 && str_eq(self.scopes[n - 1].name.as_str(), RANKS) {
                let _ = self.horse.add_tuple_field(RANKS, (self.item1, self.item2));
            }
        }
    }

    /// Takes one event.
    pub fn step(&mut self, event: &XmlEvent)
        ensures
            final(self)@ == step(old(self)@, event@),
            sound_state(old(self)@) ==> sound_state(final(self)@),
    {
        match event {
            XmlEvent::Start { name, attributes } => self.start_element(name, attributes),
            XmlEvent::Empty { name, attributes } => self.empty_element(name, attributes),
            XmlEvent::Text(text) => self.text(text),
            XmlEvent::End => self.end_element(),
            XmlEvent::Other => {},
        }
    }

    /// The race as it stands, once no event is left.
    pub fn finish(self) -> (r: RaceSummary)
        ensures
            r@ == self@.race,
    {
        self.race
    }
}

/// Decodes the events of a document, first to last. Each value of the race
/// that comes of it is in the one form that its kind allows, so that it reads
/// back from its text as itself.
pub fn decode_events(events: &Vec<XmlEvent>) -> (r: RaceSummary)
    ensures
        r@ == decoded(event_views(events@)),
        race_sound(r@),
{
    let ghost all = event_views(events@);
    let mut decoder = Decoder::new();
    let mut i: usize = 0;
    while i < events.len()
        invariant
            i <= events.len(),
            all == event_views(events@),
            decoder@ == run(initial(), all.take(i as int)),
            sound_state(decoder@),
        decreases events.len() - i,
    {
        proof {
            assert(all.take(i + 1).drop_last() =~= all.take(i as int));
            assert(all.take(i + 1).last() == events@[i as int]@);
        }
        decoder.step(&events[i]);
        i += 1;
    }
    assert(all.take(events.len() as int) =~= all);
    decoder.finish()
}

} // verus!
