//! Contests and the clock that tells which state a contest is in.

use crate::text::{opt_bytes, opt_chars};
use crate::time::Timestamp;
use vstd::prelude::*;

verus! {

/// The six switches of a contest's policy.
#[derive(Debug, Clone, Copy, PartialEq, Eq, Structural)]
pub struct ContestSettings {
    pub register_after_start: bool,
    pub unrate_after_start: bool,
    pub view_before_start: bool,
    pub view_after_end: bool,
    pub public_after_end: bool,
    pub submit_after_end: bool,
}

impl Default for ContestSettings {
    fn default() -> (s: ContestSettings)
        ensures
            s.register_after_start,
            s.unrate_after_start,
            s.view_before_start,
            s.view_after_end,
            !s.public_after_end,
            s.submit_after_end,
    {
        ContestSettings {
            register_after_start: true,
            unrate_after_start: true,
            view_before_start: true,
            view_after_end: true,
            public_after_end: false,
            submit_after_end: true,
        }
    }
}

/// Where a contest stands at some moment.
#[derive(Debug, Clone, Copy, PartialEq, Eq, Structural)]
pub enum ContestState {
    Preparing,
    Running,
    SealedRunning,
    Ended,
}

/// The state of a contest that starts at `start`, seals its board at `seal`
/// and ends at `end`, at the moment `now`. Every bound is inclusive at its
/// start: at `start` itself the contest is no longer preparing, and at `end`
/// itself it has ended.
pub open spec fn contest_state(
    start: Timestamp,
    seal: Option<Timestamp>,
    end: Option<Timestamp>,
    now: Timestamp,
) -> ContestState {
    if now.before(start) {
        ContestState::Preparing
    } else if seal is Some && now.before(seal->Some_0) {
        ContestState::Running
    } else if end is Some && !now.before(end->Some_0) {
        ContestState::Ended
    } else if seal is Some {
        ContestState::SealedRunning
    } else {
        ContestState::Running
    }
}

impl ContestState {
    /// The name under which the state is stored and shown.
    pub open spec fn spec_name(self) -> Seq<char> {
        match self {
            ContestState::Preparing => "Preparing"@,
            ContestState::Running => "Running"@,
            ContestState::SealedRunning => "SealedRunning"@,
            ContestState::Ended => "Ended"@,
        }
    }

    /// The name under which the state is stored and shown.
    pub fn name(&self) -> (s: String)
        ensures
            s@ == self.spec_name(),
    {
        match self {
            ContestState::Preparing => "Preparing".to_owned(),
            ContestState::Running => "Running".to_owned(),
            ContestState::SealedRunning => "SealedRunning".to_owned(),
            ContestState::Ended => "Ended".to_owned(),
        }
    }

    /// The contest has started and has not ended.
    pub open spec fn is_underway(self) -> bool {
        self == ContestState::Running || self == ContestState::SealedRunning
    }
}

/// A contest as the store holds it: the settings still as text.
#[derive(Debug)]
pub struct RawContest {
    pub region: String,
    pub title: String,
    pub introduction: Option<String>,
    pub start_time: Timestamp,
    pub end_time: Option<Timestamp>,
    pub seal_time: Option<Timestamp>,
    pub settings: String,
    pub self_type: String,
    pub salt: Option<String>,
    pub hash: Option<Vec<u8>>,
}

/// A contest with its settings read and its state worked out.
#[derive(Debug)]
pub struct Contest {
    pub region: String,
    pub title: String,
    pub self_type: String,
    pub introduction: Option<String>,
    pub start_time: Timestamp,
    pub end_time: Option<Timestamp>,
    pub seal_time: Option<Timestamp>,
    pub settings: ContestSettings,
    pub state: String,
    pub salt: Option<String>,
    pub hash: Option<Vec<u8>>,
}

/// A `Contest` with its texts as sequences of characters.
pub struct ContestView {
    pub region: Seq<char>,
    pub title: Seq<char>,
    pub self_type: Seq<char>,
    pub introduction: Option<Seq<char>>,
    pub start_time: Timestamp,
    pub end_time: Option<Timestamp>,
    pub seal_time: Option<Timestamp>,
    pub settings: ContestSettings,
    pub state: Seq<char>,
    pub salt: Option<Seq<char>>,
    pub hash: Option<Seq<u8>>,
}

impl View for Contest {
    type V = ContestView;

    open spec fn view(&self) -> ContestView {
        ContestView {
            region: self.region@,
            title: self.title@,
            self_type: self.self_type@,
            introduction: opt_chars(self.introduction),
            start_time: self.start_time,
            end_time: self.end_time,
            seal_time: self.seal_time,
            settings: self.settings,
            state: self.state@,
            salt: opt_chars(self.salt),
            hash: opt_bytes(self.hash),
        }
    }
}

impl Clone for Contest {
    fn clone(&self) -> (c: Contest)
        ensures
            c@ == self@,
    {
        Contest {
            region: self.region.clone(),
            title: self.title.clone(),
            self_type: self.self_type.clone(),
            introduction: self.introduction.clone(),
            start_time: self.start_time,
            end_time: self.end_time,
            seal_time: self.seal_time,
            settings: self.settings,
            state: self.state.clone(),
            salt: self.salt.clone(),
            hash: self.hash.clone(),
        }
    }
}

impl ContestView {
    /// The state of the contest at the moment `now`.
    pub open spec fn state_at(self, now: Timestamp) -> ContestState {
        contest_state(self.start_time, self.seal_time, self.end_time, now)
    }

    /// Whoever enters the contest must know its password.
    pub open spec fn has_password(self) -> bool {
        self.hash is Some
    }
}

/// The state of `contest` at the moment `cur_time`.
pub fn get_contest_state(contest: &Contest, cur_time: Timestamp) -> (state: ContestState)
    ensures
        state == contest@.state_at(cur_time),
{
    if cur_time.is_before(&contest.start_time) {
        ContestState::Preparing
    } else {
        if let Some(seal_time) = contest.seal_time {
            if cur_time.is_before(&seal_time) {
                ContestState::Running
            } else {
                if let Some(end_time) = contest.end_time {
                    if cur_time.is_before(&end_time) {
                        ContestState::SealedRunning
                    } else {
                        ContestState::Ended
                    }
                } else {
                    ContestState::SealedRunning
                }
            }
        } else {
            if let Some(end_time) = contest.end_time {
                if cur_time.is_before(&end_time) {
                    ContestState::Running
                } else {
                    ContestState::Ended
                }
            } else {
                ContestState::Running
            }
        }
    }
}

/// A `RawContest` with its texts as sequences of characters.
pub struct RawContestView {
    pub region: Seq<char>,
    pub title: Seq<char>,
    pub introduction: Option<Seq<char>>,
    pub start_time: Timestamp,
    pub end_time: Option<Timestamp>,
    pub seal_time: Option<Timestamp>,
    pub settings: Seq<char>,
    pub self_type: Seq<char>,
    pub salt: Option<Seq<char>>,
    pub hash: Option<Seq<u8>>,
}

impl View for RawContest {
    type V = RawContestView;

    open spec fn view(&self) -> RawContestView {
        RawContestView {
            region: self.region@,
            title: self.title@,
            introduction: opt_chars(self.introduction),
            start_time: self.start_time,
            end_time: self.end_time,
            seal_time: self.seal_time,
            settings: self.settings@,
            self_type: self.self_type@,
            salt: opt_chars(self.salt),
            hash: opt_bytes(self.hash),
        }
    }
}

impl Clone for RawContest {
    fn clone(&self) -> (c: RawContest)
        ensures
            c@ == self@,
    {
        RawContest {
            region: self.region.clone(),
            title: self.title.clone(),
            introduction: self.introduction.clone(),
            start_time: self.start_time,
            end_time: self.end_time,
            seal_time: self.seal_time,
            settings: self.settings.clone(),
            self_type: self.self_type.clone(),
            salt: self.salt.clone(),
            hash: self.hash.clone(),
        }
    }
}

impl RawContestView {
    /// The contest that this row describes, once its settings have been read
    /// as `settings`, seen at the moment `now`.
    pub open spec fn read(self, settings: ContestSettings, now: Timestamp) -> ContestView {
        ContestView {
            region: self.region,
            title: self.title,
            self_type: self.self_type,
            introduction: self.introduction,
            start_time: self.start_time,
            end_time: self.end_time,
            seal_time: self.seal_time,
            settings,
            state: contest_state(self.start_time, self.seal_time, self.end_time, now).spec_name(),
            salt: self.salt,
            hash: self.hash,
        }
    }

    /// The salt and the hash of the password are both there or both missing.
    pub open spec fn password_well_formed(self) -> bool {
        self.salt is Some <==> self.hash is Some
    }
}

impl Contest {
    /// The contest that the row `raw` describes. `settings` is what the text
    /// `raw.settings` reads as; `cur_time` is the moment for which the state
    /// is worked out.
    pub fn from_raw(raw: RawContest, settings: ContestSettings, cur_time: Timestamp) -> (contest: Contest)
        ensures
            contest@ == raw@.read(settings, cur_time),
    {
        let mut res = Contest {
            region: raw.region,
            title: raw.title,
            self_type: raw.self_type,
            introduction: raw.introduction,
            start_time: raw.start_time,
            end_time: raw.end_time,
            seal_time: raw.seal_time,
            settings,
            state: ContestState::Ended.name(),
            salt: raw.salt,
            hash: raw.hash,
        };
        res.state = get_contest_state(&res, cur_time).name();
        res
    }
}

/// A contest as a list of contests shows it.
#[derive(Debug)]
pub struct SlimContest {
    pub region: String,
    pub title: String,
    pub self_type: String,
    pub introduction: Option<String>,
    pub start_time: Timestamp,
    pub end_time: Option<Timestamp>,
    pub seal_time: Option<Timestamp>,
    pub state: String,
    pub is_registered: bool,
    pub need_pass: bool,
    pub settings: ContestSettings,
}

/// A `SlimContest` with its texts as sequences of characters.
pub struct SlimContestView {
    pub region: Seq<char>,
    pub title: Seq<char>,
    pub self_type: Seq<char>,
    pub introduction: Option<Seq<char>>,
    pub start_time: Timestamp,
    pub end_time: Option<Timestamp>,
    pub seal_time: Option<Timestamp>,
    pub state: Seq<char>,
    pub is_registered: bool,
    pub need_pass: bool,
    pub settings: ContestSettings,
}

impl View for SlimContest {
    type V = SlimContestView;

    open spec fn view(&self) -> SlimContestView {
        SlimContestView {
            region: self.region@,
            title: self.title@,
            self_type: self.self_type@,
            introduction: opt_chars(self.introduction),
            start_time: self.start_time,
            end_time: self.end_time,
            seal_time: self.seal_time,
            state: self.state@,
            is_registered: self.is_registered,
            need_pass: self.need_pass,
            settings: self.settings,
        }
    }
}

impl ContestView {
    /// The contest as a list shows it to someone not known to be registered:
    /// it asks for a password exactly if the contest has one.
    pub open spec fn slim(self) -> SlimContestView {
        SlimContestView {
            region: self.region,
            title: self.title,
            self_type: self.self_type,
            introduction: self.introduction,
            start_time: self.start_time,
            end_time: self.end_time,
            seal_time: self.seal_time,
            state: self.state,
            is_registered: false,
            need_pass: self.has_password(),
            settings: self.settings,
        }
    }
}

impl From<Contest> for SlimContest {
    /// The contest as a list shows it, not yet marked as registered.
    fn from(contest: Contest) -> (slim: SlimContest) {
        SlimContest {
            region: contest.region,
            title: contest.title,
            self_type: contest.self_type,
            introduction: contest.introduction,
            start_time: contest.start_time,
            end_time: contest.end_time,
            seal_time: contest.seal_time,
            state: contest.state,
            is_registered: false,
            need_pass: contest.hash.is_some(),
            settings: contest.settings,
        }
    }
}

impl vstd::std_specs::convert::FromSpecImpl<Contest> for SlimContest {
    open spec fn obeys_from_spec() -> bool {
        true
    }

    open spec fn from_spec(contest: Contest) -> SlimContest {
        SlimContest {
            region: contest.region,
            title: contest.title,
            self_type: contest.self_type,
            introduction: contest.introduction,
            start_time: contest.start_time,
            end_time: contest.end_time,
            seal_time: contest.seal_time,
            state: contest.state,
            is_registered: false,
            need_pass: contest.hash is Some,
            settings: contest.settings,
        }
    }
}

/// A contest turned into a list entry shows what the contest holds, is not
/// marked as registered, and asks for a password exactly if the contest has
/// one.
pub proof fn lemma_slim_of_contest(contest: Contest)
    ensures
        <SlimContest as vstd::std_specs::convert::FromSpec<Contest>>::from_spec(contest)@ == contest@.slim(),
{
}

/// The changes to make to a contest; `None` leaves a column as it is.
#[derive(Debug)]
pub struct ContestForm {
    pub title: Option<String>,
    pub introduction: Option<String>,
    pub start_time: Option<Timestamp>,
    pub end_time: Option<Timestamp>,
    pub seal_time: Option<Timestamp>,
    pub settings: Option<String>,
    pub self_type: Option<String>,
    pub salt: Option<String>,
    pub hash: Option<Vec<u8>>,
}

/// The clock follows its table: before the start a contest is preparing;
/// from the start on it runs until the seal time, if one is set; from the
/// seal time on, or from the start on without one, it has ended once the end
/// time is reached, if one is set; until then a sealed contest runs sealed
/// and an unsealed one runs.
pub proof fn lemma_state_table(
    start: Timestamp,
    seal: Option<Timestamp>,
    end: Option<Timestamp>,
    now: Timestamp,
)
    ensures
        contest_state(start, seal, end, now) == (if now.before(start) {
            ContestState::Preparing
        } else {
            match seal {
                Some(seal_time) => {
                    if now.before(seal_time) {
                        ContestState::Running
                    } else {
                        match end {
                            Some(end_time) => {
                                if now.before(end_time) {
                                    ContestState::SealedRunning
                                } else {
                                    ContestState::Ended
                                }
                            },
                            None => ContestState::SealedRunning,
                        }
                    }
                },
                None => {
                    match end {
                        Some(end_time) => {
                            if now.before(end_time) {
                                ContestState::Running
                            } else {
                                ContestState::Ended
                            }
                        },
                        None => ContestState::Running,
                    }
                },
            }
        }),
{
}

/// At its very start a contest is no longer preparing, whatever its seal and
/// end times are.
pub proof fn lemma_started_at_start(start: Timestamp, seal: Option<Timestamp>, end: Option<Timestamp>)
    ensures
        contest_state(start, seal, end, start) != ContestState::Preparing,
{
}

/// At its very end a contest has ended, provided that the end does not lie
/// before the start nor before the seal time.
pub proof fn lemma_ended_at_end(start: Timestamp, seal: Option<Timestamp>, end: Timestamp)
    requires
        !end.before(start),
        seal is Some ==> !end.before(seal->Some_0),
    ensures
        contest_state(start, seal, Some(end), end) == ContestState::Ended,
{
}

/// Time only moves a contest forward: a later moment never finds it in an
/// earlier state, provided that its times are in order (start, then seal,
/// then end).
pub proof fn lemma_state_monotone(
    start: Timestamp,
    seal: Option<Timestamp>,
    end: Option<Timestamp>,
    earlier: Timestamp,
    later: Timestamp,
)
    requires
        !later.before(earlier),
        seal is Some ==> !seal->Some_0.before(start),
        end is Some ==> !end->Some_0.before(start),
        seal is Some && end is Some ==> !end->Some_0.before(seal->Some_0),
    ensures
        contest_state(start, seal, end, earlier).rank() <= contest_state(start, seal, end, later).rank(),
{
}

impl ContestState {
    /// The place of the state in the life of a contest.
    pub open spec fn rank(self) -> nat {
        match self {
            ContestState::Preparing => 0,
            ContestState::Running => 1,
            ContestState::SealedRunning => 2,
            ContestState::Ended => 3,
        }
    }
}

} // verus!
