//! Calendar entries: the dated items the calendar endpoints return, and the
//! date key each one is bucketed under by the range reconciler.

use vstd::prelude::*;
use vstd::string::*;
use crate::model::{Episode, Movie, Show};

verus! {

/// A movie released on some calendar day.
#[derive(Clone, Debug)]
pub struct CalendarMovie {
    pub released: Option<String>,
    pub movie: Movie,
}

/// An episode airing on some calendar day.
#[derive(Clone, Debug)]
pub struct CalendarShow {
    pub first_aired: Option<String>,
    pub episode: Option<Episode>,
    pub show: Show,
}

/// A calendar item exposes the `YYYY-MM-DD` date it is bucketed and sorted
/// under, when it has one.
pub trait CalendarItemDate {
    /// The date key of this item.
    spec fn date_spec(&self) -> Option<Seq<char>>;

    /// Reads the date key of this item.
    fn get_date_str(&self) -> (r: Option<String>)
        ensures
            (match (r, self.date_spec()) {
                (Some(a), Some(b)) => a@ == b,
                (None, None) => true,
                _ => false,
            }),
    ;
}

impl CalendarItemDate for CalendarMovie {
    /// A movie's release date is already a bare date.
    open spec fn date_spec(&self) -> Option<Seq<char>> {
        match self.released {
            Some(ref s) => Some(s@),
            None => None,
        }
    }

    fn get_date_str(&self) -> (r: Option<String>) {
        match &self.released {
            Some(s) => Some(s.clone()),
            None => None,
        }
    }
}

impl CalendarItemDate for CalendarShow {
    /// An episode's air time is a full timestamp; its first ten characters
    /// are the calendar date.
    open spec fn date_spec(&self) -> Option<Seq<char>> {
        match self.first_aired {
            Some(ref s) => if s@.len() >= 10 {
                Some(s@.subrange(0, 10))
            } else {
                Some(s@)
            },
            None => None,
        }
    }

    fn get_date_str(&self) -> (r: Option<String>) {
        match &self.first_aired {
            Some(s) => {
                let n = s.as_str().unicode_len();
                if n >= 10 {
                    Some(s.as_str().substring_char(0, 10).to_owned())
                } else {
                    Some(s.clone())
                }
            }
            None => None,
        }
    }
}

} // verus!
