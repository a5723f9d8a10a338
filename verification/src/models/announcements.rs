//! Announcements.

use crate::time::Timestamp;
use vstd::prelude::*;

verus! {

/// An announcement as the store holds it.
#[derive(Debug)]
pub struct Announcement {
    pub id: i32,
    pub title: String,
    pub author: String,
    pub contents: String,
    pub release_time: Option<Timestamp>,
    pub last_update_time: Timestamp,
}

/// The row written when an announcement is made.
#[derive(Debug)]
pub struct InsertableAnnouncement {
    pub title: String,
    pub author: String,
    pub contents: String,
    pub release_time: Option<Timestamp>,
    pub last_update_time: Timestamp,
}

/// The changes to make to an announcement; `None` leaves a column as it is.
#[derive(Debug)]
pub struct AnnouncementForm {
    pub title: Option<String>,
    pub author: Option<String>,
    pub contents: Option<String>,
    pub release_time: Option<Timestamp>,
    pub last_update_time: Option<Timestamp>,
}

/// An announcement as a list shows it: without its contents.
#[derive(Debug)]
pub struct OutAnnouncement {
    pub id: i32,
    pub title: String,
    pub author: String,
    pub release_time: Option<Timestamp>,
    pub last_update_time: Timestamp,
}

impl From<Announcement> for OutAnnouncement {
    fn from(announcement: Announcement) -> (out: OutAnnouncement) {
        OutAnnouncement {
            id: announcement.id,
            title: announcement.title,
            author: announcement.author,
            release_time: announcement.release_time,
            last_update_time: announcement.last_update_time,
        }
    }
}

impl vstd::std_specs::convert::FromSpecImpl<Announcement> for OutAnnouncement {
    open spec fn obeys_from_spec() -> bool {
        true
    }

    open spec fn from_spec(announcement: Announcement) -> OutAnnouncement {
        OutAnnouncement {
            id: announcement.id,
            title: announcement.title,
            author: announcement.author,
            release_time: announcement.release_time,
            last_update_time: announcement.last_update_time,
        }
    }
}

} // verus!
