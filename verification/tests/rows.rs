use sectionals::decimal::Decimal;
use sectionals::export::{race_number_of, row_of, ROW_WIDTH};
use sectionals::structs::horsesummary::HorseSummary;
use sectionals::structs::racesummary::RaceSummary;
use sectionals::structs::sectionsummary::SectionSummary;
use sectionals::ValueProcessor;

fn section(rank: i32, distance: i32, speed: &str) -> SectionSummary {
    let mut s = SectionSummary::new();
    s.rank = rank;
    s.cumulated_distance = distance;
    s.avg_speed = Decimal::parse(speed).unwrap();
    s.set_single_fields("SectionTime", "00:00:12.500".to_string()).unwrap();
    s
}

fn race() -> RaceSummary {
    let mut race = RaceSummary::new();
    race.set_single_fields("EventDate", "2024-05-17T00:00:00".to_string()).unwrap();
    race.meeting_code = 31;
    race.race_number = 6;
    race.race_code = 4711;
    race.event_name = "Spring Meeting".to_string();
    race.course_name = "Ascot".to_string();
    race.race_name = "Gold Cup".to_string();
    race.set_single_fields("FinishTime", "00:01:56.900".to_string()).unwrap();
    race.track_name = "Turf".to_string();
    race.track_condition = "Good".to_string();
    race.rail_position = "+3m".to_string();
    race
}

fn horse() -> HorseSummary {
    let mut horse = HorseSummary::new();
    horse.name = "Red Rum".to_string();
    horse.code = 1234;
    horse.bib = 7;
    horse.draw_number = 3;
    horse.distance_travelled = 1612;
    horse.distance_difference = -12;
    horse.final_rank = 2;
    horse.time_official = true;
    horse.official_margin = Decimal::parse("0.75").unwrap();
    horse.set_single_fields("FastestSectionTime", "00:00:11.250".to_string()).unwrap();
    horse.fastest_section_index = 5;
    horse.top_speed = Decimal::parse("17.9").unwrap();
    horse.top_speed_index = 6;
    horse.set_single_fields("FinishTime", "00:01:57.100".to_string()).unwrap();
    horse.result_state = "Finished".to_string();
    horse.result_substate = "None".to_string();
    horse
}

const HEAD: [&str; 27] = [
    "2024-05-17",
    "31",
    "6",
    "4711",
    "Spring Meeting",
    "Ascot",
    "Gold Cup",
    "00:01:56.900",
    "Turf",
    "Good",
    "+3m",
    "Red Rum",
    "1234",
    "7",
    "3",
    "1612",
    "-12",
    "2",
    "true",
    "0.75",
    "00:00:11.250",
    "5",
    "17.9",
    "6",
    "00:01:57.100",
    "Finished",
    "None",
];

#[test]
fn a_row_without_sections_holds_placeholders() {
    let row = row_of(&race(), &horse());
    assert_eq!(row.len(), ROW_WIDTH);
    assert_eq!(row.len(), 55);
    assert_eq!(&row[..27], &HEAD[..]);
    let gap = ["0", "N/A", "N/A", "N/A", "N/A", "N/A"];
    assert_eq!(&row[27..33], &gap[..]);
    assert_eq!(&row[33..39], &gap[..]);
    assert_eq!(&row[39..45], &gap[..]);
    assert_eq!(row[45], "0");
    assert!(row[46..].iter().all(|c| c == "N/A"));
}

#[test]
fn a_row_holds_the_last_three_sections() {
    let mut h = horse();
    for k in 1..=5 {
        h.add_section(section(k, 200 * k, "16.5"));
    }
    let row = row_of(&race(), &h);
    assert_eq!(row.len(), 55);
    assert_eq!(&row[..27], &HEAD[..]);
    for (n, rank) in [(0, "3"), (1, "4"), (2, "5")] {
        let at = 27 + 9 * n;
        let expected = [rank, "00:00:12.500", "00:00:00", "0", "16.5", "0", "0", "0", "0"];
        assert_eq!(&row[at..at + 9], &expected[..]);
    }
    assert_eq!(row[54], "1000");
}

#[test]
fn a_row_with_two_sections_holds_one_run_of_placeholders() {
    let mut h = horse();
    h.add_section(section(4, 200, "15"));
    h.add_section(section(2, 400, "17.25"));
    let row = row_of(&race(), &h);
    assert_eq!(row.len(), 55);
    assert_eq!(&row[27..36], &["4", "00:00:12.500", "00:00:00", "0", "15", "0", "0", "0", "0"][..]);
    assert_eq!(&row[36..45], &["2", "00:00:12.500", "00:00:00", "0", "17.25", "0", "0", "0", "0"][..]);
    assert_eq!(&row[45..51], &["0", "N/A", "N/A", "N/A", "N/A", "N/A"][..]);
    assert_eq!(row[51], "400");
    assert_eq!(&row[52..], &["N/A", "N/A", "N/A"][..]);
}

#[test]
fn the_number_of_a_race_is_in_the_name_of_its_file() {
    assert_eq!(race_number_of("../unzipped_sectionals/20240517_ASC_R7.xml"), Some(7));
    assert_eq!(race_number_of("a_R12.xml"), Some(12));
    assert_eq!(race_number_of("R3.xml"), Some(3));
    assert_eq!(race_number_of("x_R-3.xml"), Some(-3));
    assert_eq!(race_number_of("x_R007.xml"), Some(7));
}

#[test]
fn a_name_without_a_number_gives_none() {
    assert_eq!(race_number_of(""), None);
    assert_eq!(race_number_of("R.xml"), None);
    assert_eq!(race_number_of("a_7.xml"), None);
    assert_eq!(race_number_of("a_R7.XML"), None);
    assert_eq!(race_number_of("a_R7"), None);
    assert_eq!(race_number_of("a_R7.xml_"), None);
    assert_eq!(race_number_of("a_Rx.xml"), None);
    assert_eq!(race_number_of("a_r7.xml"), None);
    assert_eq!(race_number_of("R7.xml_b"), None);
    assert_eq!(race_number_of("a_R99999999999.xml"), None);
}
