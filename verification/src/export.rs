//! Rows of a table of races: one row for each horse of a race.
//!
//! A row holds the fields of the race, the fields of the horse, and the last
//! three sections of the horse. Where a horse has fewer sections, placeholders
//! stand for those that are missing.

use vstd::prelude::*;
use crate::clock::{clock_text, date_text};
use crate::decimal::decimal_text;
use crate::integer::{
    bool_string, bool_text, i32_of_text, i32_text, int_text, parse_i32, u8_text,
};
use crate::structs::horsesummary::{HorseSummary, HorseSummaryView};
use crate::structs::racesummary::{RaceSummary, RaceSummaryView};
use crate::structs::sectionsummary::SectionSummary;
use crate::text::{chars_of, string_of};

verus! {

/// The number of columns of a row.
pub const ROW_WIDTH: usize = 55;

/// What each text of a list holds.
pub open spec fn texts(row: Seq<String>) -> Seq<Seq<char>> {
    row.map_values(|s: String| s@)
}

/// The columns of a race.
pub open spec fn race_columns(race: RaceSummaryView) -> Seq<Seq<char>> {
    seq![
        date_text(race.event_date),
        int_text(race.meeting_code as int),
        int_text(race.race_number as int),
        int_text(race.race_code as int),
        race.event_name,
        race.course_name,
        race.race_name,
        clock_text(race.finish_time),
        race.track_name,
        race.track_condition,
        race.rail_position,
    ]
}

/// The columns of a horse, without its sections.
pub open spec fn horse_columns(horse: HorseSummaryView) -> Seq<Seq<char>> {
    seq![
        horse.name,
        int_text(horse.code as int),
        int_text(horse.bib as int),
        int_text(horse.draw_number as int),
        int_text(horse.distance_travelled as int),
        int_text(horse.distance_difference as int),
        int_text(horse.final_rank as int),
        bool_text(horse.time_official),
        decimal_text(horse.official_margin),
        clock_text(horse.fastest_section_time),
        int_text(horse.fastest_section_index as int),
        decimal_text(horse.top_speed),
        int_text(horse.top_speed_index as int),
        clock_text(horse.finish_time),
        horse.result_state,
        horse.result_substate,
    ]
}

/// The columns of a section.
pub open spec fn section_columns(section: SectionSummary) -> Seq<Seq<char>> {
    seq![
        int_text(section.rank as int),
        clock_text(section.section_time),
        clock_text(section.intermediate_time),
        decimal_text(section.real_distance),
        decimal_text(section.avg_speed),
        decimal_text(section.top_speed),
        decimal_text(section.avg_stride_freq),
        decimal_text(section.average_stride_length),
        decimal_text(section.avg_distance_rail),
    ]
}

/// The columns of sections, one section after the other.
pub open spec fn sections_columns(sections: Seq<SectionSummary>) -> Seq<Seq<char>>
    decreases sections.len(),
{
    if sections.len() == 0 {
        Seq::empty()
    } else {
        sections_columns(sections.drop_last()) + section_columns(sections.last())
    }
}

/// The last three of a horse's sections, or all of them if they are fewer.
pub open spec fn last_sections(sections: Seq<SectionSummary>) -> Seq<SectionSummary> {
    if sections.len() > 3 {
        sections.subrange(sections.len() - 3, sections.len() as int)
    } else {
        sections
    }
}

/// The placeholders that stand for one missing section.
pub open spec fn section_placeholders() -> Seq<Seq<char>> {
    seq!["0"@, "N/A"@, "N/A"@, "N/A"@, "N/A"@, "N/A"@]
}

/// The placeholders that stand for `missing` sections.
pub open spec fn placeholders(missing: nat) -> Seq<Seq<char>>
    decreases missing,
{
    if missing == 0 {
        Seq::empty()
    } else {
        placeholders((missing - 1) as nat) + section_placeholders()
    }
}

/// The column of the distance run in all: that of the last section, or zero
/// for a horse without sections.
pub open spec fn distance_column(sections: Seq<SectionSummary>) -> Seq<char> {
    if sections.len() == 0 {
        "0"@
    } else {
        int_text(sections.last().cumulated_distance as int)
    }
}

/// A row brought to the width `width` with `N/A` at its end; a row that is at
/// least as wide stays as it is.
pub open spec fn padded(row: Seq<Seq<char>>, width: nat) -> Seq<Seq<char>>
    decreases width - row.len(),
{
    if row.len() >= width {
        row
    } else {
        padded(row.push("N/A"@), width)
    }
}

/// The row of a horse of a race.
pub open spec fn horse_row(race: RaceSummaryView, horse: HorseSummaryView) -> Seq<Seq<char>> {
    let last = last_sections(horse.sections);
    padded(
        race_columns(race) + horse_columns(horse) + sections_columns(last) + placeholders(
            (3 - last.len()) as nat,
        ) + seq![distance_column(last)],
        ROW_WIDTH as nat,
    )
}

/// What follows the last underscore of a text, or the text itself if it holds
/// none.
pub open spec fn last_piece(s: Seq<char>) -> Seq<char> {
    match s.index_of_last('_') {
        Some(k) => s.skip(k + 1),
        None => s,
    }
}

/// The number of a race, from the name of the file that holds the race: the
/// name's last piece is `R`, the number and `.xml`.
pub open spec fn race_number_in(name: Seq<char>) -> Option<i32> {
    let piece = last_piece(name);
    if piece.len() >= 5 && piece[0] == 'R' && piece.skip(piece.len() - 4) == ".xml"@ {
        i32_of_text(piece.subrange(1, piece.len() - 4))
    } else {
        None
    }
}

fn push_text(row: &mut Vec<String>, s: String)
    ensures
        texts(final(row)@) == texts(old(row)@).push(s@),
        final(row).len() == old(row).len() + 1,
{
    row.push(s);
    assert(texts(row@) =~= texts(old(row)@).push(s@));
}

fn push_race(row: &mut Vec<String>, race: &RaceSummary)
    ensures
        texts(final(row)@) == texts(old(row)@) + race_columns(race@),
{
    push_text(row, race.event_date.to_text());
    push_text(row, i32_text(race.meeting_code));
    push_text(row, i32_text(race.race_number));
    push_text(row, i32_text(race.race_code));
    push_text(row, race.event_name.clone());
    push_text(row, race.course_name.clone());
    push_text(row, race.race_name.clone());
    push_text(row, race.finish_time.to_text());
    push_text(row, race.track_name.clone());
    push_text(row, race.track_condition.clone());
    push_text(row, race.rail_position.clone());
    assert(texts(row@) =~= texts(old(row)@) + race_columns(race@));
}

fn push_horse(row: &mut Vec<String>, horse: &HorseSummary)
    ensures
        texts(final(row)@) == texts(old(row)@) + horse_columns(horse@),
{
    push_text(row, horse.name.clone());
    push_text(row, i32_text(horse.code));
    push_text(row, i32_text(horse.bib));
    push_text(row, i32_text(horse.draw_number));
    push_text(row, i32_text(horse.distance_travelled));
    push_text(row, i32_text(horse.distance_difference));
    push_text(row, u8_text(horse.final_rank));
    push_text(row, bool_string(horse.time_official));
    push_text(row, horse.official_margin.to_text());
    push_text(row, horse.fastest_section_time.to_text());
    push_text(row, u8_text(horse.fastest_section_index));
    push_text(row, horse.top_speed.to_text());
    push_text(row, u8_text(horse.top_speed_index));
    push_text(row, horse.finish_time.to_text());
    push_text(row, horse.result_state.clone());
    push_text(row, horse.result_substate.clone());
    assert(texts(row@) =~= texts(old(row)@) + horse_columns(horse@));
}

fn push_section(row: &mut Vec<String>, section: &SectionSummary)
    ensures
        texts(final(row)@) == texts(old(row)@) + section_columns(*section),
{
    push_text(row, i32_text(section.rank));
    push_text(row, section.section_time.to_text());
    push_text(row, section.intermediate_time.to_text());
    push_text(row, section.real_distance.to_text());
    push_text(row, section.avg_speed.to_text());
    push_text(row, section.top_speed.to_text());
    push_text(row, section.avg_stride_freq.to_text());
    push_text(row, section.average_stride_length.to_text());
    push_text(row, section.avg_distance_rail.to_text());
    assert(texts(row@) =~= texts(old(row)@) + section_columns(*section));
}

fn push_placeholders(row: &mut Vec<String>)
    ensures
        texts(final(row)@) == texts(old(row)@) + section_placeholders(),
{
    push_text(row, "0".to_owned());
    push_text(row, "N/A".to_owned());
    push_text(row, "N/A".to_owned());
    push_text(row, "N/A".to_owned());
    push_text(row, "N/A".to_owned());
    push_text(row, "N/A".to_owned());
    assert(texts(row@) =~= texts(old(row)@) + section_placeholders());
}

/// Adds the columns of a horse's last sections, the placeholders for those
/// that are missing, and the column of the distance.
fn push_last_sections(row: &mut Vec<String>, sections: &Vec<SectionSummary>)
    ensures
        texts(final(row)@) == texts(old(row)@) + sections_columns(last_sections(sections@))
            + placeholders((3 - last_sections(sections@).len()) as nat) + seq![
            distance_column(last_sections(sections@)),
        ],
{
    let ghost before = texts(row@);
    let count = sections.len();
    let start: usize = if count > 3 {
        count - 3
    } else {
        0
    };
    let ghost last = last_sections(sections@);
    assert(last =~= sections@.subrange(start as int, count as int));
    let mut i: usize = start;
    while i < count
        invariant
            start <= i <= count == sections.len(),
            last == sections@.subrange(start as int, count as int),
            texts(row@) == before + sections_columns(last.take(i - start)),
        decreases count - i,
    {
        proof {
            assert(last.take(i - start + 1).drop_last() =~= last.take(i - start));
            assert(last.take(i - start + 1).last() == sections@[i as int]);
        }
        push_section(row, &sections[i]);
        assert(texts(row@) =~= before + sections_columns(last.take(i - start + 1)));
        i += 1;
    }
    assert(last.take(count - start) =~= last);
    let ghost with_sections = texts(row@);
    let mut shown: usize = count - start;
    while shown < 3
        invariant
            count - start <= shown <= 3,
            texts(row@) == with_sections + placeholders((shown - (count - start)) as nat),
        decreases 3 - shown,
    {
        push_placeholders(row);
        assert(texts(row@) =~= with_sections + placeholders((shown + 1 - (count - start)) as nat));
        shown += 1;
    }
    if count > 0 {
        push_text(row, i32_text(sections[count - 1].cumulated_distance));
    } else {
        push_text(row, "0".to_owned());
    }
    assert(texts(row@) =~= before + sections_columns(last) + placeholders(
        (3 - last.len()) as nat,
    ) + seq![distance_column(last)]);
}

/// The row of a horse of a race. Every row has the same width.
pub fn row_of(race: &RaceSummary, horse: &HorseSummary) -> (row: Vec<String>)
    ensures
        texts(row@) == horse_row(race@, horse@),
        row.len() == ROW_WIDTH,
{
    proof {
        row_is_full(race@, horse@);
    }
    let mut row: Vec<String> = Vec::new();
    assert(texts(row@) =~= Seq::empty());
    push_race(&mut row, race);
    push_horse(&mut row, horse);
    push_last_sections(&mut row, &horse.sections);
    let ghost last = last_sections(horse@.sections);
    let ghost body = race_columns(race@) + horse_columns(horse@) + sections_columns(last)
        + placeholders((3 - last.len()) as nat) + seq![distance_column(last)];
    assert(texts(row@) =~= body);
    while row.len() < ROW_WIDTH
        invariant
            padded(texts(row@), ROW_WIDTH as nat) == padded(body, ROW_WIDTH as nat),
        decreases ROW_WIDTH - row.len(),
    {
        push_text(&mut row, "N/A".to_owned());
    }
    row
}

proof fn lemma_sections_width(sections: Seq<SectionSummary>)
    ensures
        sections_columns(sections).len() == 9 * sections.len(),
    decreases sections.len(),
{
    if sections.len() > 0 {
        lemma_sections_width(sections.drop_last());
    }
}

proof fn lemma_placeholders_width(missing: nat)
    ensures
        placeholders(missing).len() == 6 * missing,
    decreases missing,
{
    if missing > 0 {
        lemma_placeholders_width((missing - 1) as nat);
    }
}

proof fn lemma_padded_width(row: Seq<Seq<char>>, width: nat)
    ensures
        padded(row, width).len() == if row.len() >= width {
            row.len()
        } else {
            width
        },
    decreases width - row.len(),
{
    if row.len() < width {
        lemma_padded_width(row.push("N/A"@), width);
    }
}

/// Every row has the same width, whatever the number of a horse's sections.
pub proof fn row_is_full(race: RaceSummaryView, horse: HorseSummaryView)
    ensures
        horse_row(race, horse).len() == ROW_WIDTH,
{
    let last = last_sections(horse.sections);
    let body = race_columns(race) + horse_columns(horse) + sections_columns(last) + placeholders(
        (3 - last.len()) as nat,
    ) + seq![distance_column(last)];
    lemma_sections_width(last);
    lemma_placeholders_width((3 - last.len()) as nat);
    lemma_padded_width(body, ROW_WIDTH as nat);
}

/// The number of a race, from the name of the file that holds the race.
pub fn race_number_of(name: &str) -> (r: Option<i32>)
    ensures
        r == race_number_in(name@),
{
    let v = chars_of(name);
    let n = v.len();
    let mut from: usize = n;
    while from > 0 && v[from - 1] != '_'
        invariant
            from <= n == v.len(),
            forall|j: int| from <= j < n ==> v@[j] != '_',
        decreases from,
    {
        from -= 1;
    }
    proof {
        v@.index_of_last_ensures('_');
        if from > 0 {
            assert(v@.contains('_'));
        }
        assert(last_piece(v@) =~= v@.subrange(from as int, n as int));
    }
    let ghost piece = v@.subrange(from as int, n as int);
    if n - from < 5 || v[from] != 'R' {
        assert(piece.len() >= 5 ==> piece[0] == v@[from as int]);
        return None;
    }
    proof {
        reveal_strlit(".xml");
        assert(".xml"@.len() == 4 && ".xml"@[0] == '.' && ".xml"@[1] == 'x' && ".xml"@[2] == 'm'
            && ".xml"@[3] == 'l');
        let tail = piece.skip(piece.len() - 4);
        assert(tail.len() == 4);
        assert(forall|k: int| 0 <= k < 4 ==> tail[k] == v@[n - 4 + k]);
        assert(tail == ".xml"@ <==> v@[n - 4] == '.' && v@[n - 3] == 'x' && v@[n - 2] == 'm' && v@[n
            - 1] == 'l') by {
            if v@[n - 4] == '.' && v@[n - 3] == 'x' && v@[n - 2] == 'm' && v@[n - 1] == 'l' {
                assert(tail =~= ".xml"@);
            }
        }
        assert(piece.subrange(1, piece.len() - 4) =~= v@.subrange(from + 1, n - 4));
    }
    if v[n - 4] != '.' || v[n - 3] != 'x' || v[n - 2] != 'm' || v[n - 1] != 'l' {
        return None;
    }
    let digits = string_of(&v, from + 1, n - 4);
    parse_i32(digits.as_str())
}

} // verus!
