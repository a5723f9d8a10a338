//! Standings, and the cached rank of a region.

use crate::time::Timestamp;
use vstd::prelude::*;

verus! {

/// How one participant of a region stands: the number of problems solved
/// and the number of submissions made.
#[derive(Debug, Clone, Copy, PartialEq, Eq, Structural)]
pub struct UserStanding {
    pub user_id: i32,
    pub accepted: u64,
    pub submissions: u64,
}

impl UserStanding {
    /// `self` stands above `other`: it has solved more; or as much with fewer
    /// submissions; or as much with as many and has the smaller user id.
    pub open spec fn outranks(self, other: UserStanding) -> bool {
        self.accepted > other.accepted || (self.accepted == other.accepted && (self.submissions
            < other.submissions || (self.submissions == other.submissions && self.user_id
            < other.user_id)))
    }

    /// Whether `self` stands above `other`.
    pub fn is_above(&self, other: &UserStanding) -> (b: bool)
        ensures
            b == self.outranks(*other),
    {
        self.accepted > other.accepted || (self.accepted == other.accepted && (self.submissions
            < other.submissions || (self.submissions == other.submissions && self.user_id
            < other.user_id)))
    }
}

/// The rank of one region as it was worked out at `last_updated_time`. A
/// final entry is that of a contest that has ended: it is never worked out
/// again.
#[derive(Debug)]
pub struct RankCacheEntry {
    pub region: String,
    pub rows: Vec<UserStanding>,
    pub last_updated_time: Timestamp,
    pub is_final: bool,
}

/// A `RankCacheEntry` with its region as a sequence of characters.
pub struct RankCacheEntryView {
    pub region: Seq<char>,
    pub rows: Seq<UserStanding>,
    pub last_updated_time: Timestamp,
    pub is_final: bool,
}

impl View for RankCacheEntry {
    type V = RankCacheEntryView;

    open spec fn view(&self) -> RankCacheEntryView {
        RankCacheEntryView {
            region: self.region@,
            rows: self.rows@,
            last_updated_time: self.last_updated_time,
            is_final: self.is_final,
        }
    }
}

impl Clone for RankCacheEntry {
    fn clone(&self) -> (entry: RankCacheEntry)
        ensures
            entry@ == self@,
    {
        RankCacheEntry {
            region: self.region.clone(),
            rows: self.rows.clone(),
            last_updated_time: self.last_updated_time,
            is_final: self.is_final,
        }
    }
}

} // verus!
