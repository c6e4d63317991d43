//! The selection algorithms that a configuration can name.

use crate::text::{chars_of, reads_as, reads_as_word};
use std::str::FromStr;
use vstd::prelude::*;

verus! {

/// A selection algorithm. `Broadcast` can be configured, and selects as
/// `MinLatency` does.
#[derive(Debug, Clone, Copy, PartialEq, Eq, Structural)]
pub enum Algo {
    MinLatency,
    RoundRobin,
    Broadcast,
}

impl Algo {
    /// The algorithm that a word names: `min_latency`, `round_robin` or
    /// `broadcast`, in any mix of ASCII capitals and small letters.
    pub open spec fn named(word: Seq<char>) -> Option<Algo> {
        if reads_as(word, "min_latency"@) {
            Some(Algo::MinLatency)
        } else if reads_as(word, "round_robin"@) {
            Some(Algo::RoundRobin)
        } else if reads_as(word, "broadcast"@) {
            Some(Algo::Broadcast)
        } else {
            None
        }
    }

    /// Reads an algorithm from its name.
    pub fn parse(word: &str) -> (algo: Option<Algo>)
        ensures
            algo == Self::named(word@),
    {
        let letters: Vec<char> = chars_of(word);
        if reads_as_word(&letters, "min_latency") {
            Some(Algo::MinLatency)
        } else if reads_as_word(&letters, "round_robin") {
            Some(Algo::RoundRobin)
        } else if reads_as_word(&letters, "broadcast") {
            Some(Algo::Broadcast)
        } else {
            None
        }
    }
}

impl FromStr for Algo {
    type Err = ();

    fn from_str(s: &str) -> (algo: Result<Self, Self::Err>)
        ensures
            algo == (match Algo::named(s@) {
                Some(a) => Ok::<Algo, ()>(a),
                None => Err(()),
            }),
    {
        match Algo::parse(s) {
            Some(algo) => Ok(algo),
            None => Err(()),
        }
    }
}

impl Default for Algo {
    fn default() -> (algo: Self)
        ensures
            algo == Algo::MinLatency,
    {
        Algo::MinLatency
    }
}

} // verus!
