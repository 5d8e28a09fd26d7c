use sectionals::decimal::Decimal;
use sectionals::decoder::XmlEvent;
use sectionals::xml::{event_of_token, proccess_basic, DecodeError, Fault, RawToken};

fn fault_of(xml: &[u8]) -> Fault {
    proccess_basic(xml).unwrap_err().fault
}

#[test]
fn an_empty_document_is_a_new_race() {
    let race = proccess_basic(b"").unwrap();
    assert_eq!(race, sectionals::structs::racesummary::RaceSummary::new());
    assert_eq!(proccess_basic(b"   \n  ").unwrap().race_code, 0);
}

#[test]
fn texts_are_trimmed_and_their_escapes_resolved() {
    let xml = "<RaceSummary><RaceCode> 12 </RaceCode><CourseName>\n  A &lt; B &amp; C &#65;&#x42; \n</CourseName></RaceSummary>";
    let race = proccess_basic(xml.as_bytes()).unwrap();
    assert_eq!(race.race_code, 12);
    assert_eq!(race.course_name, "A < B & C AB");
}

#[test]
fn a_byte_order_mark_is_passed_over() {
    let race = proccess_basic(b"\xef\xbb\xbf<RaceSummary><RaceCode>12</RaceCode></RaceSummary>").unwrap();
    assert_eq!(race.race_code, 12);
}

#[test]
fn attribute_values_are_taken_as_they_stand() {
    let xml = "<Horses><HorseSummary Name=\"A &amp; B\" Bib = '7'   DrawNumber=\"3\"></HorseSummary></Horses>";
    let race = proccess_basic(xml.as_bytes()).unwrap();
    assert_eq!(race.horses.len(), 1);
    assert_eq!(race.horses[0].name, "A &amp; B");
    assert_eq!(race.horses[0].bib, 7);
    assert_eq!(race.horses[0].draw_number, 3);
}

#[test]
fn a_repeated_attribute_is_written_twice() {
    let race = proccess_basic(b"<RaceSummary RaceCode='1' RaceCode='2'></RaceSummary>").unwrap();
    assert_eq!(race.race_code, 2);
}

#[test]
fn text_in_other_alphabets_is_kept() {
    let xml = "<Horses><HorseSummary><Name>\u{30c7}\u{30a3}\u{30fc}\u{30d7} \u{e9}t\u{e9}</Name></HorseSummary></Horses>";
    let race = proccess_basic(xml.as_bytes()).unwrap();
    assert_eq!(race.horses[0].name, "\u{30c7}\u{30a3}\u{30fc}\u{30d7} \u{e9}t\u{e9}");
}

#[test]
fn comments_declarations_and_instructions_are_passed_over() {
    let xml = "<?xml version=\"1.0\" encoding=\"utf-8\"?><!DOCTYPE r><RaceSummary><!-- <RaceCode>1</RaceCode> --><?pi x?><RaceCode>7</RaceCode><![CDATA[<RaceCode>9</RaceCode>]]></RaceSummary>";
    let race = proccess_basic(xml.as_bytes()).unwrap();
    assert_eq!(race.race_code, 7);
}

#[test]
fn a_whole_race_is_decoded() {
    let xml = r#"<?xml version="1.0" encoding="utf-8"?>
<RaceSummary xmlns:xsi="http://www.w3.org/2001/XMLSchema-instance">
  <EventDate>2024-05-17T00:00:00</EventDate>
  <MeetingCode>31</MeetingCode>
  <RaceCode>4711</RaceCode>
  <EventName>Spring Meeting</EventName>
  <CourseName>Ascot</CourseName>
  <RaceName>Gold Cup</RaceName>
  <FinishTime>00:01:56.900</FinishTime>
  <TrackName>Turf</TrackName>
  <TrackCondition>Good</TrackCondition>
  <RailPosition>+3m</RailPosition>
  <FastestSections>
    <SectionSummary>
      <CumulatedDistance>200</CumulatedDistance>
      <IntermediateTime>00:00:12.100</IntermediateTime>
      <SectionTime>00:00:12.100</SectionTime>
    </SectionSummary>
    <SectionSummary>
      <CumulatedDistance>400</CumulatedDistance>
      <IntermediateTime>00:00:24.000</IntermediateTime>
      <SectionTime>00:00:11.900</SectionTime>
    </SectionSummary>
  </FastestSections>
  <Horses>
    <HorseSummary>
      <Name>Red Rum</Name>
      <HorseCode>1234</HorseCode>
      <Bib>7</Bib>
      <FinalRank>1</FinalRank>
      <IsFinishTimeOfficial>true</IsFinishTimeOfficial>
      <OfficialMarginDecimal>0</OfficialMarginDecimal>
      <FastestSectionTime>[00:00:11.900 ]</FastestSectionTime>
      <TopSpeed>[17.9 ]</TopSpeed>
      <FinishTime>00:01:56.900</FinishTime>
      <ResultState>Finished</ResultState>
      <ResultSubState />
      <Sections>
        <SectionSummary>
          <CumulatedDistance>200</CumulatedDistance>
          <MarginDecimal>0.25</MarginDecimal>
          <Rank>2</Rank>
          <SectionTime>00:00:12.150</SectionTime>
          <AvgSpeed>16.46</AvgSpeed>
        </SectionSummary>
        <SectionSummary>
          <CumulatedDistance>400</CumulatedDistance>
          <MarginDecimal>0</MarginDecimal>
          <Rank>1</Rank>
          <SectionTime>00:00:11.900</SectionTime>
          <AvgSpeed>16.8</AvgSpeed>
        </SectionSummary>
      </Sections>
      <Speeds>
        <SerializableTupleOfDoubleDouble>
          <Item1>3</Item1>
          <Item2>15.2</Item2>
        </SerializableTupleOfDoubleDouble>
        <SerializableTupleOfDoubleDouble>
          <Item1>4</Item1>
          <Item2>16.1</Item2>
        </SerializableTupleOfDoubleDouble>
      </Speeds>
      <Ranks>
        <SerializableTupleOfDoubleInt32>
          <Item1>3</Item1>
          <Item2>2</Item2>
        </SerializableTupleOfDoubleInt32>
      </Ranks>
    </HorseSummary>
    <HorseSummary>
      <Name>Arkle</Name>
      <Bib>2</Bib>
      <FinalRank>2</FinalRank>
      <OfficialMarginDecimal>1.5</OfficialMarginDecimal>
    </HorseSummary>
  </Horses>
</RaceSummary>
"#;
    let race = proccess_basic(xml.as_bytes()).unwrap();
    assert_eq!(race.event_date.to_text(), "2024-05-17");
    assert_eq!(race.meeting_code, 31);
    assert_eq!(race.race_code, 4711);
    assert_eq!(race.race_number, 0);
    assert_eq!(race.event_name, "Spring Meeting");
    assert_eq!(race.course_name, "Ascot");
    assert_eq!(race.race_name, "Gold Cup");
    assert_eq!(race.finish_time.to_text(), "00:01:56.900");
    assert_eq!(race.track_name, "Turf");
    assert_eq!(race.track_condition, "Good");
    assert_eq!(race.rail_position, "+3m");
    assert_eq!(race.fastest_sections.len(), 2);
    assert_eq!(race.fastest_sections[0].cumulated_distance, 200);
    assert_eq!(race.fastest_sections[1].cumulated_distance, 400);
    assert_eq!(race.fastest_sections[1].intermediate_time.to_text(), "00:00:24");
    assert_eq!(race.fastest_sections[1].section_time.to_text(), "00:00:11.900");
    assert_eq!(race.horses.len(), 2);
    let first = &race.horses[0];
    assert_eq!(first.name, "Red Rum");
    assert_eq!(first.code, 1234);
    assert_eq!(first.bib, 7);
    assert_eq!(first.final_rank, 1);
    assert!(first.time_official);
    assert_eq!(first.fastest_section_time.to_text(), "00:00:11.900");
    assert_eq!(first.top_speed.to_text(), "17.9");
    assert_eq!(first.finish_time.to_text(), "00:01:56.900");
    assert_eq!(first.result_state, "Finished");
    assert_eq!(first.result_substate, "");
    assert_eq!(first.sections.len(), 2);
    assert_eq!(first.sections[0].rank, 2);
    assert_eq!(first.sections[0].margin_decimal.to_text(), "0.25");
    assert_eq!(first.sections[0].avg_speed.to_text(), "16.46");
    assert_eq!(first.sections[1].rank, 1);
    assert_eq!(first.sections[1].cumulated_distance, 400);
    assert_eq!(
        first.speeds,
        vec![
            (3, Decimal { negative: false, digits: 152, scale: 1 }),
            (4, Decimal { negative: false, digits: 161, scale: 1 }),
        ]
    );
    assert_eq!(first.ranks, vec![(3, Decimal { negative: false, digits: 2, scale: 0 })]);
    let second = &race.horses[1];
    assert_eq!(second.name, "Arkle");
    assert_eq!(second.bib, 2);
    assert_eq!(second.official_margin.to_text(), "1.5");
    assert!(second.sections.is_empty());
    assert!(second.speeds.is_empty());
}

#[test]
fn an_end_tag_that_closes_nothing_open_is_a_fault_of_syntax() {
    let error = proccess_basic(b"<RaceSummary><RaceCode>1</RaceCode></Wrong>").unwrap_err();
    assert_eq!(error.position, 37);
    assert!(matches!(error.fault, Fault::Syntax(_)));
    assert!(matches!(fault_of(b"</a>"), Fault::Syntax(_)));
    assert!(matches!(fault_of(b"<a><b></a>"), Fault::Syntax(_)));
}

#[test]
fn a_tag_that_never_ends_is_a_fault_of_syntax() {
    let error = proccess_basic(b"<a").unwrap_err();
    assert_eq!(error.position, 1);
    assert!(matches!(error.fault, Fault::Syntax(_)));
}

#[test]
fn bytes_that_are_no_text_are_a_fault_of_encoding() {
    assert_eq!(
        proccess_basic(b"<Name>\xff</Name>"),
        Err(DecodeError { position: 7, fault: Fault::Encoding })
    );
    assert_eq!(fault_of(b"<\xffa></\xffa>"), Fault::Encoding);
    assert_eq!(fault_of(b"<a \xff='1'></a>"), Fault::Encoding);
    assert_eq!(fault_of(b"<a/><b x='\xc3\x28'/>"), Fault::Encoding);
}

#[test]
fn an_escape_that_stands_for_nothing_is_a_fault() {
    assert_eq!(
        proccess_basic(b"<Name>&bogus;</Name>"),
        Err(DecodeError { position: 13, fault: Fault::Escape })
    );
    assert_eq!(fault_of(b"<a>&#0;</a>"), Fault::Escape);
    assert_eq!(fault_of(b"<a>fish &amp chips</a>"), Fault::Escape);
}

#[test]
fn attributes_that_cannot_be_told_apart_are_a_fault() {
    assert_eq!(
        proccess_basic(b"<a b=c></a>"),
        Err(DecodeError { position: 7, fault: Fault::Attribute })
    );
    assert_eq!(fault_of(b"<a b></a>"), Fault::Attribute);
    assert_eq!(fault_of(b"<a b='1' c></a>"), Fault::Attribute);
    assert!(matches!(fault_of(b"<a b=\"1></a>"), Fault::Syntax(_)));
}

#[test]
fn what_stands_before_a_fault_is_lost_with_the_document() {
    assert!(proccess_basic(b"<RaceSummary><RaceCode>4711</RaceCode><Name>&x;</Name></RaceSummary>").is_err());
}

#[test]
fn a_token_becomes_an_event() {
    assert_eq!(
        event_of_token(RawToken::Start { content: b"Name  a='1' b=\"x y\"".to_vec(), name_len: 4 }),
        Ok(XmlEvent::Start {
            name: "Name".to_string(),
            attributes: vec![("a".to_string(), "1".to_string()), ("b".to_string(), "x y".to_string())],
        })
    );
    assert_eq!(
        event_of_token(RawToken::Empty { content: b"Bib".to_vec(), name_len: 3 }),
        Ok(XmlEvent::Empty { name: "Bib".to_string(), attributes: Vec::new() })
    );
    assert_eq!(
        event_of_token(RawToken::Text(b"a &gt; b".to_vec())),
        Ok(XmlEvent::Text("a > b".to_string()))
    );
    assert_eq!(event_of_token(RawToken::End), Ok(XmlEvent::End));
    assert_eq!(event_of_token(RawToken::Other), Ok(XmlEvent::Other));
    assert_eq!(event_of_token(RawToken::Eof), Ok(XmlEvent::Other));
    assert_eq!(
        event_of_token(RawToken::Malformed("bad".to_string())),
        Err(Fault::Syntax("bad".to_string()))
    );
}

#[test]
fn a_token_with_a_fault_becomes_no_event() {
    assert_eq!(event_of_token(RawToken::Text(vec![0xff])), Err(Fault::Encoding));
    assert_eq!(event_of_token(RawToken::Text(b"&nope;".to_vec())), Err(Fault::Escape));
    assert_eq!(
        event_of_token(RawToken::Start { content: b"a".to_vec(), name_len: 2 }),
        Err(Fault::Encoding)
    );
    assert_eq!(
        event_of_token(RawToken::Start { content: "\u{e9}".as_bytes().to_vec(), name_len: 1 }),
        Err(Fault::Encoding)
    );
    assert_eq!(
        event_of_token(RawToken::Start { content: b"a b".to_vec(), name_len: 1 }),
        Err(Fault::Attribute)
    );
    assert_eq!(
        event_of_token(RawToken::Empty { content: vec![b'a', 0x80], name_len: 1 }),
        Err(Fault::Encoding)
    );
}
