//! A race as a result sheet lists it.

use vstd::prelude::*;
use super::horse::{Horse, HorseView};
use crate::clock::{CalendarDate, TimeOfDay};

verus! {

/// What each horse of a list holds.
pub open spec fn horse_views(horses: Seq<Horse>) -> Seq<HorseView> {
    horses.map_values(|h: Horse| h@)
}

/// A race as a result sheet lists it.
#[derive(Clone, Debug, PartialEq)]
pub struct Race {
    pub abandoned: bool,
    pub date: CalendarDate,
    pub time: TimeOfDay,
    pub track: String,
    pub name: String,
    pub race_number: i32,
    pub distance: i32,
    pub grade: String,
    pub rail: String,
    pub conditions: String,
    pub total_prizemoney: i32,
    pub prizemoney_structure: Vec<i32>,
    pub horse: Vec<Horse>,
}

/// What a listed race holds.
pub struct RaceView {
    pub abandoned: bool,
    pub date: CalendarDate,
    pub time: TimeOfDay,
    pub track: Seq<char>,
    pub name: Seq<char>,
    pub race_number: i32,
    pub distance: i32,
    pub grade: Seq<char>,
    pub rail: Seq<char>,
    pub conditions: Seq<char>,
    pub total_prizemoney: i32,
    pub prizemoney_structure: Seq<i32>,
    pub horse: Seq<HorseView>,
}

impl View for Race {
    type V = RaceView;

    open spec fn view(&self) -> RaceView {
        RaceView {
            abandoned: self.abandoned,
            date: self.date,
            time: self.time,
            track: self.track@,
            name: self.name@,
            race_number: self.race_number,
            distance: self.distance,
            grade: self.grade@,
            rail: self.rail@,
            conditions: self.conditions@,
            total_prizemoney: self.total_prizemoney,
            prizemoney_structure: self.prizemoney_structure@,
            horse: horse_views(self.horse@),
        }
    }
}

impl Race {
    /// The race of which nothing is known yet: texts and lists empty, numbers
    /// at zero, the date at the first day of 1970, the time at midnight.
    pub open spec fn fresh() -> RaceView {
        RaceView {
            abandoned: false,
            date: CalendarDate { year: 1970, month: 1, day: 1 },
            time: TimeOfDay { secs: 0, nanos: 0 },
            track: Seq::empty(),
            name: Seq::empty(),
            race_number: 0,
            distance: 0,
            grade: Seq::empty(),
            rail: Seq::empty(),
            conditions: Seq::empty(),
            total_prizemoney: 0,
            prizemoney_structure: Seq::empty(),
            horse: Seq::empty(),
        }
    }

    /// A race of which nothing is known yet.
    pub fn new() -> (r: Self)
        ensures
            r@ == Self::fresh(),
    {
        let r = Race {
            abandoned: false,
            date: CalendarDate::epoch(),
            time: TimeOfDay::midnight(),
            track: String::new(),
            name: String::new(),
            race_number: 0,
            distance: 0,
            grade: String::new(),
            rail: String::new(),
            conditions: String::new(),
            total_prizemoney: 0,
            prizemoney_structure: Vec::new(),
            horse: Vec::new(),
        };
        assert(horse_views(r.horse@) =~= Seq::empty());
        r
    }

    pub fn get_abandoned(&self) -> (r: bool)
        ensures
            r == self@.abandoned,
    {
        self.abandoned
    }

    pub fn get_date(&self) -> (r: CalendarDate)
        ensures
            r == self@.date,
    {
        self.date
    }

    pub fn get_time(&self) -> (r: &TimeOfDay)
        ensures
            *r == self@.time,
    {
        &self.time
    }

    pub fn get_track(&self) -> (r: &str)
        ensures
            r@ == self@.track,
    {
        self.track.as_str()
    }

    pub fn get_name(&self) -> (r: &str)
        ensures
            r@ == self@.name,
    {
        self.name.as_str()
    }

    pub fn get_distance(&self) -> (r: i32)
        ensures
            r == self@.distance,
    {
        self.distance
    }

    pub fn get_grade(&self) -> (r: &str)
        ensures
            r@ == self@.grade,
    {
        self.grade.as_str()
    }

    pub fn get_rail(&self) -> (r: &str)
        ensures
            r@ == self@.rail,
    {
        self.rail.as_str()
    }

    pub fn get_conditions(&self) -> (r: &str)
        ensures
            r@ == self@.conditions,
    {
        self.conditions.as_str()
    }

    pub fn get_total_prizemoney(&self) -> (r: &i32)
        ensures
            *r == self@.total_prizemoney,
    {
        &self.total_prizemoney
    }

    pub fn get_prizemoney_structure(&self) -> (r: &Vec<i32>)
        ensures
            r@ == self@.prizemoney_structure,
    {
        &self.prizemoney_structure
    }

    pub fn get_horses(&self) -> (r: &Vec<Horse>)
        ensures
            horse_views(r@) == self@.horse,
    {
        &self.horse
    }

    pub fn set_abandoned(&mut self, abandoned: bool)
        ensures
            final(self)@ == (RaceView { abandoned: abandoned, ..old(self)@ }),
    {
        self.abandoned = abandoned;
    }

    pub fn set_date(&mut self, date: CalendarDate)
        ensures
            final(self)@ == (RaceView { date: date, ..old(self)@ }),
    {
        self.date = date;
    }

    pub fn set_time(&mut self, time: TimeOfDay)
        ensures
            final(self)@ == (RaceView { time: time, ..old(self)@ }),
    {
        self.time = time;
    }

    pub fn set_track(&mut self, track: String)
        ensures
            final(self)@ == (RaceView { track: track@, ..old(self)@ }),
    {
        self.track = track;
    }

    pub fn set_name(&mut self, name: String)
        ensures
            final(self)@ == (RaceView { name: name@, ..old(self)@ }),
    {
        self.name = name;
    }

    pub fn set_race_number(&mut self, number: i32)
        ensures
            final(self)@ == (RaceView { race_number: number, ..old(self)@ }),
    {
        self.race_number = number;
    }

    pub fn set_distance(&mut self, distance: i32)
        ensures
            final(self)@ == (RaceView { distance: distance, ..old(self)@ }),
    {
        self.distance = distance;
    }

    pub fn set_grade(&mut self, grade: String)
        ensures
            final(self)@ == (RaceView { grade: grade@, ..old(self)@ }),
    {
        self.grade = grade;
    }

    pub fn set_rail(&mut self, rail: String)
        ensures
            final(self)@ == (RaceView { rail: rail@, ..old(self)@ }),
    {
        self.rail = rail;
    }

    pub fn set_conditions(&mut self, conditions: String)
        ensures
            final(self)@ == (RaceView { conditions: conditions@, ..old(self)@ }),
    {
        self.conditions = conditions;
    }

    pub fn set_total_prizemoney(&mut self, prizemoney: i32)
        ensures
            final(self)@ == (RaceView { total_prizemoney: prizemoney, ..old(self)@ }),
    {
        self.total_prizemoney = prizemoney;
    }

    pub fn set_prizemoney_structure(&mut self, prizemoney: Vec<i32>)
        ensures
            final(self)@ == (RaceView { prizemoney_structure: prizemoney@, ..old(self)@ }),
    {
        self.prizemoney_structure = prizemoney;
    }

    pub fn set_horses(&mut self, horses: Vec<Horse>)
        ensures
            final(self)@ == (RaceView { horse: horse_views(horses@), ..old(self)@ }),
    {
        self.horse = horses;
    }

    /// Adds a horse at the end of the race's horses.
    pub fn add_horses(&mut self, horses: Horse)
        ensures
            final(self)@ == (RaceView { horse: old(self)@.horse.push(horses@), ..old(self)@ }),
    {
        self.horse.push(horses);
        assert(horse_views(self.horse@) =~= horse_views(old(self).horse@).push(horses@));
    }
}

} // verus!
