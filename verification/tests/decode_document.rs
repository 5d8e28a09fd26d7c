use sectionals::clock::TimeOfDay;
use sectionals::decimal::Decimal;
use sectionals::xml::proccess_basic;

#[test]
fn decodes_a_small_document() {
    let xml = "<?xml version=\"1.0\"?>\n<RaceSummary>\n  <RaceCode>4711</RaceCode>\n  <CourseName>Ascot &amp; Co</CourseName>\n  <FinishTime Time=\"00:01:56.900\"/>\n  <FastestSections>\n    <SectionSummary CumulatedDistance=\"200\" SectionTime=\"00:00:12.345\"></SectionSummary>\n    <SectionSummary><CumulatedDistance>400</CumulatedDistance></SectionSummary>\n  </FastestSections>\n  <Horses>\n    <HorseSummary>\n      <Name>Red Rum</Name>\n      <Bib>7</Bib>\n      <Sections>\n        <SectionSummary><Rank>2</Rank><AvgSpeed>15.25</AvgSpeed></SectionSummary>\n      </Sections>\n      <Speeds>\n        <SerializableTupleOfDoubleDouble><Item1>3</Item1><Item2>15.2</Item2></SerializableTupleOfDoubleDouble>\n      </Speeds>\n    </HorseSummary>\n  </Horses>\n</RaceSummary>\n";
    let race = proccess_basic(xml.as_bytes()).unwrap();
    assert_eq!(race.race_code, 4711);
    assert_eq!(race.course_name, "Ascot & Co");
    assert_eq!(race.finish_time, TimeOfDay { secs: 116, nanos: 900_000_000 });
    assert_eq!(race.fastest_sections.len(), 2);
    assert_eq!(race.fastest_sections[0].cumulated_distance, 200);
    assert_eq!(race.fastest_sections[0].section_time, TimeOfDay { secs: 12, nanos: 345_000_000 });
    assert_eq!(race.fastest_sections[1].cumulated_distance, 400);
    assert_eq!(race.horses.len(), 1);
    let horse = &race.horses[0];
    assert_eq!(horse.name, "Red Rum");
    assert_eq!(horse.bib, 7);
    assert_eq!(horse.sections.len(), 1);
    assert_eq!(horse.sections[0].rank, 2);
    assert_eq!(horse.sections[0].avg_speed, Decimal { negative: false, digits: 1525, scale: 2 });
    assert_eq!(horse.speeds, vec![(3, Decimal { negative: false, digits: 152, scale: 1 })]);
    assert!(horse.ranks.is_empty());
}
