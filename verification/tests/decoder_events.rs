use sectionals::clock::TimeOfDay;
use sectionals::decimal::Decimal;
use sectionals::decoder::{decode_events, Decoder, Grouping, XmlEvent};
use sectionals::structs::fssummary::FastestSectionSummary;
use sectionals::structs::sectionsummary::SectionSummary;

fn start(name: &str) -> XmlEvent {
    XmlEvent::Start { name: name.to_string(), attributes: Vec::new() }
}

fn start_with(name: &str, pairs: &[(&str, &str)]) -> XmlEvent {
    XmlEvent::Start {
        name: name.to_string(),
        attributes: pairs.iter().map(|(k, v)| (k.to_string(), v.to_string())).collect(),
    }
}

fn empty_with(name: &str, pairs: &[(&str, &str)]) -> XmlEvent {
    XmlEvent::Empty {
        name: name.to_string(),
        attributes: pairs.iter().map(|(k, v)| (k.to_string(), v.to_string())).collect(),
    }
}

fn text(t: &str) -> XmlEvent {
    XmlEvent::Text(t.to_string())
}

fn leaf(name: &str, t: &str) -> Vec<XmlEvent> {
    vec![start(name), text(t), XmlEvent::End]
}

fn pair(wrapper: &str, first: &str, second: &str) -> Vec<XmlEvent> {
    let mut events = vec![start(wrapper)];
    events.extend(leaf("Item1", first));
    events.extend(leaf("Item2", second));
    events.push(XmlEvent::End);
    events
}

fn dec(t: &str) -> Decimal {
    Decimal::parse(t).unwrap()
}

fn time(t: &str) -> TimeOfDay {
    TimeOfDay::parse(t).unwrap()
}

#[test]
fn no_events_decode_to_a_new_race() {
    let race = decode_events(&Vec::new());
    assert_eq!(race, sectionals::structs::racesummary::RaceSummary::new());
}

#[test]
fn a_document_without_horse_tags_has_no_horses_and_no_fastest_sections() {
    let mut events = vec![start("RaceSummary")];
    events.extend(leaf("RaceCode", "4711"));
    events.extend(leaf("CourseName", "Ascot"));
    events.push(XmlEvent::End);
    let race = decode_events(&events);
    assert_eq!(race.race_code, 4711);
    assert_eq!(race.course_name, "Ascot");
    assert!(race.horses.is_empty());
    assert!(race.fastest_sections.is_empty());
}

#[test]
fn fastest_sections_come_in_document_order() {
    let mut events = vec![start("RaceSummary"), start("FastestSections")];
    for (distance, time) in [("200", "00:00:12.100"), ("400", "00:00:11.900"), ("600", "00:00:12.300")] {
        events.push(start("SectionSummary"));
        events.extend(leaf("CumulatedDistance", distance));
        events.extend(leaf("SectionTime", time));
        events.extend(leaf("Rank", "9"));
        events.push(XmlEvent::End);
    }
    events.push(XmlEvent::End);
    events.push(XmlEvent::End);
    let race = decode_events(&events);
    assert_eq!(
        race.fastest_sections,
        vec![
            FastestSectionSummary {
                cumulated_distance: 200,
                intermediate_time: TimeOfDay::midnight(),
                section_time: time("00:00:12.100"),
            },
            FastestSectionSummary {
                cumulated_distance: 400,
                intermediate_time: TimeOfDay::midnight(),
                section_time: time("00:00:11.900"),
            },
            FastestSectionSummary {
                cumulated_distance: 600,
                intermediate_time: TimeOfDay::midnight(),
                section_time: time("00:00:12.300"),
            },
        ]
    );
    assert!(race.horses.is_empty());
}

#[test]
fn the_sections_of_a_horse_go_to_the_horse() {
    let mut events = vec![start("RaceSummary"), start("Horses"), start("HorseSummary")];
    events.extend(leaf("Name", "Red Rum"));
    events.push(start("Sections"));
    for (distance, rank, speed) in [("200", "3", "15.5"), ("400", "2", "16.25")] {
        events.push(start("SectionSummary"));
        events.extend(leaf("CumulatedDistance", distance));
        events.extend(leaf("Rank", rank));
        events.extend(leaf("AvgSpeed", speed));
        events.extend(leaf("TopSpeed", speed));
        events.push(XmlEvent::End);
    }
    events.push(XmlEvent::End);
    events.extend(leaf("TopSpeed", "17.5"));
    events.push(XmlEvent::End);
    events.push(XmlEvent::End);
    events.push(XmlEvent::End);
    let race = decode_events(&events);
    assert!(race.fastest_sections.is_empty());
    assert_eq!(race.horses.len(), 1);
    let horse = &race.horses[0];
    assert_eq!(horse.name, "Red Rum");
    assert_eq!(horse.top_speed, dec("17.5"));
    let mut first = SectionSummary::new();
    first.cumulated_distance = 200;
    first.rank = 3;
    first.avg_speed = dec("15.5");
    first.top_speed = dec("15.5");
    let mut second = SectionSummary::new();
    second.cumulated_distance = 400;
    second.rank = 2;
    second.avg_speed = dec("16.25");
    second.top_speed = dec("16.25");
    assert_eq!(horse.sections, vec![first, second]);
}

#[test]
fn a_section_starts_afresh_after_it_is_committed() {
    let mut events = vec![start("Horses"), start("HorseSummary"), start("Sections")];
    events.push(start("SectionSummary"));
    events.extend(leaf("Rank", "3"));
    events.extend(leaf("AvgSpeed", "15.5"));
    events.push(XmlEvent::End);
    events.push(start("SectionSummary"));
    events.extend(leaf("Rank", "1"));
    events.push(XmlEvent::End);
    events.extend(vec![XmlEvent::End, XmlEvent::End, XmlEvent::End]);
    let race = decode_events(&events);
    let sections = &race.horses[0].sections;
    assert_eq!(sections.len(), 2);
    assert_eq!(sections[0].avg_speed, dec("15.5"));
    assert_eq!(sections[1].rank, 1);
    assert_eq!(sections[1].avg_speed, Decimal::zero());
}

#[test]
fn speeds_are_pairs_in_document_order() {
    let mut events = vec![start("Horses"), start("HorseSummary"), start("Speeds")];
    events.extend(pair("SerializableTupleOfDoubleDouble", "3", "15.2"));
    events.extend(pair("SerializableTupleOfDoubleDouble", "4", "16"));
    events.extend(pair("SerializableTupleOfDoubleDouble", "5", "14.75"));
    events.push(XmlEvent::End);
    events.push(start("Ranks"));
    events.extend(pair("SerializableTupleOfDoubleInt32", "3", "7"));
    events.extend(pair("SerializableTupleOfDoubleInt32", "4", "6"));
    events.push(XmlEvent::End);
    events.push(XmlEvent::End);
    events.push(XmlEvent::End);
    let race = decode_events(&events);
    let horse = &race.horses[0];
    assert_eq!(horse.speeds, vec![(3, dec("15.2")), (4, dec("16")), (5, dec("14.75"))]);
    assert_eq!(horse.ranks, vec![(3, dec("7")), (4, dec("6"))]);
}

#[test]
fn a_pair_outside_speeds_and_ranks_is_dropped() {
    let mut events = vec![start("Horses"), start("HorseSummary"), start("Other")];
    events.extend(pair("SerializableTupleOfDoubleDouble", "3", "15.2"));
    events.push(XmlEvent::End);
    events.extend(pair("SerializableTupleOfDoubleDouble", "4", "16"));
    events.push(XmlEvent::End);
    events.push(XmlEvent::End);
    let race = decode_events(&events);
    assert!(race.horses[0].speeds.is_empty());
    assert!(race.horses[0].ranks.is_empty());
}

#[test]
fn a_part_that_denotes_no_number_leaves_the_part_as_it_was() {
    let mut events = vec![start("Horses"), start("HorseSummary"), start("Speeds")];
    events.extend(pair("SerializableTupleOfDoubleDouble", "3", "15.2"));
    events.extend(pair("SerializableTupleOfDoubleDouble", "x", "16"));
    events.extend(pair("SerializableTupleOfDoubleDouble", "5", "fast"));
    events.extend(vec![XmlEvent::End, XmlEvent::End, XmlEvent::End]);
    let race = decode_events(&events);
    assert_eq!(race.horses[0].speeds, vec![(3, dec("15.2")), (3, dec("16")), (5, dec("16"))]);
}

#[test]
fn a_bad_value_does_not_stop_the_decoder() {
    let mut events = vec![start("RaceSummary")];
    events.extend(leaf("MeetingCode", "12"));
    events.extend(leaf("MeetingCode", "abc"));
    events.extend(leaf("RaceCode", "99999999999"));
    events.extend(leaf("FinishTime", "never"));
    events.extend(leaf("CourseName", "Ascot"));
    events.push(XmlEvent::End);
    let race = decode_events(&events);
    assert_eq!(race.meeting_code, 12);
    assert_eq!(race.race_code, 0);
    assert_eq!(race.finish_time, TimeOfDay::midnight());
    assert_eq!(race.course_name, "Ascot");
}

#[test]
fn a_document_without_a_race_code_leaves_the_code_at_zero() {
    let mut events = vec![start("RaceSummary")];
    events.extend(leaf("MeetingCode", "12"));
    events.extend(vec![start("Horses"), start("HorseSummary")]);
    events.extend(leaf("HorseCode", "77"));
    events.extend(vec![XmlEvent::End, XmlEvent::End, XmlEvent::End]);
    let race = decode_events(&events);
    assert_eq!(race.race_code, 0);
    assert_eq!(race.horses[0].code, 77);
}

#[test]
fn a_bracketed_time_in_a_document_is_read() {
    let mut events = vec![start("Horses"), start("HorseSummary")];
    events.extend(leaf("FastestSectionTime", "[00:35:12.450 ]"));
    events.extend(leaf("FinishTime", "[00:01:37.000 ]"));
    events.extend(vec![XmlEvent::End, XmlEvent::End]);
    let race = decode_events(&events);
    assert_eq!(race.horses[0].fastest_section_time, TimeOfDay { secs: 2112, nanos: 450_000_000 });
    assert_eq!(race.horses[0].finish_time, TimeOfDay { secs: 97, nanos: 0 });
}

#[test]
fn the_same_tag_means_the_record_of_the_grouping() {
    let mut events = vec![start("RaceSummary")];
    events.extend(leaf("FinishTime", "00:01:56.900"));
    events.push(start("FastestSections"));
    events.push(start("SectionSummary"));
    events.extend(leaf("CumulatedDistance", "200"));
    events.extend(leaf("FinishTime", "00:00:01"));
    events.push(XmlEvent::End);
    events.push(XmlEvent::End);
    events.extend(vec![start("Horses"), start("HorseSummary")]);
    events.extend(leaf("FinishTime", "00:01:57.100"));
    events.extend(leaf("CumulatedDistance", "999"));
    events.push(start("Sections"));
    events.push(start("SectionSummary"));
    events.extend(leaf("CumulatedDistance", "400"));
    events.extend(leaf("TopSpeed", "17.5"));
    events.push(XmlEvent::End);
    events.push(XmlEvent::End);
    events.extend(leaf("TopSpeed", "[18.5 ]"));
    events.extend(vec![XmlEvent::End, XmlEvent::End, XmlEvent::End]);
    let race = decode_events(&events);
    assert_eq!(race.finish_time, time("00:01:56.900"));
    assert_eq!(race.fastest_sections.len(), 1);
    assert_eq!(race.fastest_sections[0].cumulated_distance, 200);
    assert_eq!(race.horses.len(), 1);
    assert_eq!(race.horses[0].finish_time, time("00:01:57.100"));
    assert_eq!(race.horses[0].top_speed, dec("18.5"));
    assert_eq!(race.horses[0].sections.len(), 1);
    assert_eq!(race.horses[0].sections[0].cumulated_distance, 400);
    assert_eq!(race.horses[0].sections[0].top_speed, dec("17.5"));
}

#[test]
fn the_grouping_of_before_holds_again_after_a_grouping_ends() {
    let mut events = vec![start("RaceSummary"), start("FastestSections"), XmlEvent::End];
    events.extend(leaf("TrackName", "Turf"));
    events.extend(vec![start("Horses"), XmlEvent::End]);
    events.extend(leaf("RaceCode", "4711"));
    events.push(XmlEvent::End);
    let race = decode_events(&events);
    assert_eq!(race.track_name, "Turf");
    assert_eq!(race.race_code, 4711);
}

#[test]
fn sections_are_a_grouping_only_among_horses() {
    let mut decoder = Decoder::new();
    assert_eq!(decoder.grouping(), Grouping::Root);
    decoder.step(&start("RaceSummary"));
    assert_eq!(decoder.grouping(), Grouping::Root);
    decoder.step(&start("Sections"));
    assert_eq!(decoder.grouping(), Grouping::Root);
    decoder.step(&XmlEvent::End);
    decoder.step(&start("FastestSections"));
    assert_eq!(decoder.grouping(), Grouping::FastestSections);
    decoder.step(&start("Sections"));
    assert_eq!(decoder.grouping(), Grouping::FastestSections);
    decoder.step(&XmlEvent::End);
    decoder.step(&XmlEvent::End);
    assert_eq!(decoder.grouping(), Grouping::Root);
    decoder.step(&start("Horses"));
    assert_eq!(decoder.grouping(), Grouping::Horses);
    decoder.step(&start("HorseSummary"));
    assert_eq!(decoder.grouping(), Grouping::Horses);
    decoder.step(&start("Sections"));
    assert_eq!(decoder.grouping(), Grouping::HorseSections);
    decoder.step(&start("SectionSummary"));
    assert_eq!(decoder.grouping(), Grouping::HorseSections);
    decoder.step(&XmlEvent::End);
    decoder.step(&XmlEvent::End);
    assert_eq!(decoder.grouping(), Grouping::Horses);
    decoder.step(&XmlEvent::End);
    decoder.step(&XmlEvent::End);
    assert_eq!(decoder.grouping(), Grouping::Root);
    assert_eq!(decoder.scopes.len(), 1);
    let race = decoder.finish();
    assert_eq!(race.horses.len(), 1);
    assert_eq!(race.horses[0].sections.len(), 1);
}

#[test]
fn attributes_go_to_the_record_of_the_grouping() {
    let events = vec![
        start_with("RaceSummary", &[("RaceCode", "4711"), ("CourseName", "Ascot"), ("Bib", "1")]),
        empty_with("FinishTime", &[("Time", "00:01:56.900")]),
        start("FastestSections"),
        start_with("SectionSummary", &[("CumulatedDistance", "200"), ("Rank", "1")]),
        XmlEvent::End,
        XmlEvent::End,
        start("Horses"),
        start_with("HorseSummary", &[("Name", "Red Rum"), ("Bib", "7"), ("RaceCode", "1")]),
        empty_with("FinishTime", &[("Time", "00:01:57.100")]),
        empty_with("FastestSectionTime", &[("Time", "[00:00:11.250 ]"), ("Index", "5")]),
        XmlEvent::End,
        XmlEvent::End,
        XmlEvent::End,
    ];
    let race = decode_events(&events);
    assert_eq!(race.race_code, 4711);
    assert_eq!(race.course_name, "Ascot");
    assert_eq!(race.finish_time, time("00:01:56.900"));
    assert_eq!(race.fastest_sections.len(), 1);
    assert_eq!(race.fastest_sections[0].cumulated_distance, 200);
    assert_eq!(race.horses[0].name, "Red Rum");
    assert_eq!(race.horses[0].bib, 7);
    assert_eq!(race.horses[0].finish_time, time("00:01:57.100"));
    assert_eq!(race.horses[0].fastest_section_time, time("00:00:11.250"));
}

#[test]
fn a_tag_that_is_its_own_end_completes_nothing() {
    let events = vec![
        start("FastestSections"),
        empty_with("SectionSummary", &[("CumulatedDistance", "200")]),
        XmlEvent::End,
        start("Horses"),
        empty_with("HorseSummary", &[("Name", "Red Rum")]),
        XmlEvent::End,
    ];
    let race = decode_events(&events);
    assert!(race.fastest_sections.is_empty());
    assert!(race.horses.is_empty());
}

#[test]
fn a_text_goes_under_the_tag_that_was_opened_last() {
    let mut events = vec![start("RaceSummary"), start("CourseName"), text("Ascot"), XmlEvent::End];
    events.push(text("Epsom"));
    events.push(XmlEvent::End);
    let race = decode_events(&events);
    assert_eq!(race.course_name, "Epsom");
}

#[test]
fn an_end_tag_with_nothing_open_changes_nothing() {
    let mut decoder = Decoder::new();
    decoder.step(&XmlEvent::End);
    decoder.step(&XmlEvent::Other);
    assert_eq!(decoder, Decoder::new());
    decoder.step(&start("SectionSummary"));
    decoder.step(&XmlEvent::End);
    assert!(decoder.race.fastest_sections.is_empty());
    assert_eq!(decoder.horse.sections.len(), 1);
    decoder.step(&start("HorseSummary"));
    decoder.step(&XmlEvent::End);
    assert_eq!(decoder.race.horses.len(), 1);
    assert_eq!(decoder.race.horses[0].sections.len(), 1);
    assert!(decoder.horse.sections.is_empty());
}

#[test]
fn a_horse_starts_afresh_after_it_is_committed() {
    let mut events = vec![start("Horses")];
    events.push(start("HorseSummary"));
    events.extend(leaf("Name", "Red Rum"));
    events.extend(leaf("Bib", "7"));
    events.push(start("Speeds"));
    events.extend(pair("SerializableTupleOfDoubleDouble", "1", "15"));
    events.push(XmlEvent::End);
    events.push(XmlEvent::End);
    events.push(start("HorseSummary"));
    events.extend(leaf("Name", "Arkle"));
    events.push(XmlEvent::End);
    events.push(XmlEvent::End);
    let race = decode_events(&events);
    assert_eq!(race.horses.len(), 2);
    assert_eq!(race.horses[0].name, "Red Rum");
    assert_eq!(race.horses[0].bib, 7);
    assert_eq!(race.horses[0].speeds.len(), 1);
    assert_eq!(race.horses[1].name, "Arkle");
    assert_eq!(race.horses[1].bib, 0);
    assert!(race.horses[1].speeds.is_empty());
}
