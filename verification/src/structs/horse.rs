//! A horse as a race result lists it.

use vstd::prelude::*;
use crate::decimal::Decimal;

verus! {

/// A horse as a race result lists it.
#[derive(Clone, Debug, PartialEq)]
pub struct Horse {
    pub result: i32,
    pub name: String,
    pub trainer: String,
    pub jockey: String,
    pub barrier: i32,
    pub weight: Decimal,
    pub margin: Decimal,
    pub time: String,
    pub progression: String,
    pub steward_comment: String,
    pub starting_price: Decimal,
}

/// What a listed horse holds.
pub struct HorseView {
    pub result: i32,
    pub name: Seq<char>,
    pub trainer: Seq<char>,
    pub jockey: Seq<char>,
    pub barrier: i32,
    pub weight: Decimal,
    pub margin: Decimal,
    pub time: Seq<char>,
    pub progression: Seq<char>,
    pub steward_comment: Seq<char>,
    pub starting_price: Decimal,
}

impl View for Horse {
    type V = HorseView;

    open spec fn view(&self) -> HorseView {
        HorseView {
            result: self.result,
            name: self.name@,
            trainer: self.trainer@,
            jockey: self.jockey@,
            barrier: self.barrier,
            weight: self.weight,
            margin: self.margin,
            time: self.time@,
            progression: self.progression@,
            steward_comment: self.steward_comment@,
            starting_price: self.starting_price,
        }
    }
}

impl Horse {
    /// The horse of which nothing is known yet: texts empty, numbers at zero.
    pub open spec fn fresh() -> HorseView {
        HorseView {
            result: 0,
            name: Seq::empty(),
            trainer: Seq::empty(),
            jockey: Seq::empty(),
            barrier: 0,
            weight: Decimal { negative: false, digits: 0, scale: 0 },
            margin: Decimal { negative: false, digits: 0, scale: 0 },
            time: Seq::empty(),
            progression: Seq::empty(),
            steward_comment: Seq::empty(),
            starting_price: Decimal { negative: false, digits: 0, scale: 0 },
        }
    }

    /// A horse of which nothing is known yet.
    pub fn new() -> (r: Self)
        ensures
            r@ == Self::fresh(),
    {
        Horse {
            result: 0,
            name: String::new(),
            trainer: String::new(),
            jockey: String::new(),
            barrier: 0,
            weight: Decimal::zero(),
            margin: Decimal::zero(),
            time: String::new(),
            progression: String::new(),
            steward_comment: String::new(),
            starting_price: Decimal::zero(),
        }
    }

    pub fn get_result(&self) -> (r: i32)
        ensures
            r == self@.result,
    {
        self.result
    }

    pub fn get_name(&self) -> (r: &str)
        ensures
            r@ == self@.name,
    {
        self.name.as_str()
    }

    pub fn get_trainer(&self) -> (r: &str)
        ensures
            r@ == self@.trainer,
    {
        self.trainer.as_str()
    }

    pub fn get_jockey(&self) -> (r: &str)
        ensures
            r@ == self@.jockey,
    {
        self.jockey.as_str()
    }

    pub fn get_barrier(&self) -> (r: i32)
        ensures
            r == self@.barrier,
    {
        self.barrier
    }

    pub fn get_margin(&self) -> (r: Decimal)
        ensures
            r == self@.margin,
    {
        self.margin
    }

    pub fn get_time(&self) -> (r: &str)
        ensures
            r@ == self@.time,
    {
        self.time.as_str()
    }

    pub fn get_progression(&self) -> (r: &String)
        ensures
            r@ == self@.progression,
    {
        &self.progression
    }

    pub fn get_steward_comment(&self) -> (r: &str)
        ensures
            r@ == self@.steward_comment,
    {
        self.steward_comment.as_str()
    }

    pub fn get_starting_price(&self) -> (r: Decimal)
        ensures
            r == self@.starting_price,
    {
        self.starting_price
    }

    pub fn set_result(&mut self, new: i32)
        ensures
            final(self)@ == (HorseView { result: new, ..old(self)@ }),
    {
        self.result = new;
    }

    pub fn set_name(&mut self, new: String)
        ensures
            final(self)@ == (HorseView { name: new@, ..old(self)@ }),
    {
        self.name = new;
    }

    pub fn set_trainer(&mut self, new: String)
        ensures
            final(self)@ == (HorseView { trainer: new@, ..old(self)@ }),
    {
        self.trainer = new;
    }

    pub fn set_jockey(&mut self, new: String)
        ensures
            final(self)@ == (HorseView { jockey: new@, ..old(self)@ }),
    {
        self.jockey = new;
    }

    pub fn set_barrier(&mut self, new: i32)
        ensures
            final(self)@ == (HorseView { barrier: new, ..old(self)@ }),
    {
        self.barrier = new;
    }

    pub fn set_margin(&mut self, new: Decimal)
        ensures
            final(self)@ == (HorseView { margin: new, ..old(self)@ }),
    {
        self.margin = new;
    }

    pub fn set_time(&mut self, new: String)
        ensures
            final(self)@ == (HorseView { time: new@, ..old(self)@ }),
    {
        self.time = new;
    }

    pub fn set_progression(&mut self, new: String)
        ensures
            final(self)@ == (HorseView { progression: new@, ..old(self)@ }),
    {
        self.progression = new;
    }

    pub fn set_steward_comment(&mut self, new: String)
        ensures
            final(self)@ == (HorseView { steward_comment: new@, ..old(self)@ }),
    {
        self.steward_comment = new;
    }

    pub fn set_starting_price(&mut self, new: Decimal)
        ensures
            final(self)@ == (HorseView { starting_price: new, ..old(self)@ }),
    {
        self.starting_price = new;
    }
}

} // verus!
