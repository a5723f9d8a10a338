//! Users: logging in, passwords, and what a user has submitted.

use crate::errors::{outcome, ErrorView, ServiceError, ServiceResult};
use crate::models::users::{AuthConfig, AuthConfigView, SlimUser, User, UserForm, UserSubmissionTime};
use crate::services::contest::{hash_of, salt_of, PasswordHash};
use crate::text::{i32_to_string, is_word, opt_bytes, opt_chars, same_bytes, texts, decimal};
use crate::time::{Timestamp, SECS_PER_DAY};
use rand::Rng;
use vstd::prelude::*;

verus! {

/// What is answered to a login that names no user or gives a wrong password.
/// The answer does not tell the two apart.
pub open spec fn wrong_credentials() -> ErrorView {
    ErrorView::BadRequest("用户名或密码错误"@)
}

/// Logs a user in. `user` is the user found under the name or the address
/// that was given, if one was found; `password_hash` is the hash, made with
/// that user's salt, of the password that was given. The login succeeds
/// exactly if a user was found whose stored hash is `password_hash`, byte
/// for byte.
pub fn login(user: Option<User>, password_hash: &Vec<u8>) -> (res: ServiceResult<SlimUser>)
    ensures
        res is Ok <==> user is Some && opt_bytes(user->Some_0.hash) == Some(password_hash@),
        res matches Ok(slim) ==> slim.id == user->Some_0.id && slim.role@ == user->Some_0.role@,
        res matches Err(e) ==> e@ == wrong_credentials(),
{
    match user {
        Some(found) => {
            let matches = match &found.hash {
                Some(stored) => same_bytes(stored, password_hash),
                None => false,
            };
            if matches {
                Ok(SlimUser::from(found))
            } else {
                Err(ServiceError::bad_request("用户名或密码错误"))
            }
        },
        None => Err(ServiceError::bad_request("用户名或密码错误")),
    }
}

/// What is answered for a path of which the configuration knows nothing.
pub open spec fn path_not_set() -> ErrorView {
    ErrorView::BadRequest("Path not set in config."@)
}

/// The methods that `config` allows `role`. The roles `sup`, `admin`,
/// `student` and `teacher` have their own lists; every other role has the
/// list of the others. A list that is not set allows nothing.
pub open spec fn methods_for(config: AuthConfigView, role: Seq<char>) -> Seq<Seq<char>> {
    let list = if role == "sup"@ {
        config.sup
    } else if role == "admin"@ {
        config.admin
    } else if role == "student"@ {
        config.student
    } else if role == "teacher"@ {
        config.teacher
    } else {
        config.others
    };
    match list {
        Some(methods) => methods,
        None => Seq::empty(),
    }
}

/// The methods that `role` may use on a path. `config` is what the
/// configuration holds for the path, if it holds anything.
pub fn get_permitted_methods(role: &String, config: Option<&AuthConfig>) -> (res: ServiceResult<
    Vec<String>,
>)
    ensures
        res is Ok <==> config is Some,
        res matches Ok(methods) ==> texts(methods@) == methods_for(config->Some_0@, role@),
        res matches Err(e) ==> e@ == path_not_set(),
{
    match config {
        Some(config) => {
            let list = if is_word(role, "sup") {
                &config.sup
            } else if is_word(role, "admin") {
                &config.admin
            } else if is_word(role, "student") {
                &config.student
            } else if is_word(role, "teacher") {
                &config.teacher
            } else {
                &config.others
            };
            match list {
                Some(methods) => {
                    let copy = methods.clone();
                    assert(texts(copy@) =~= texts(methods@));
                    Ok(copy)
                },
                None => {
                    let none: Vec<String> = Vec::new();
                    assert(texts(none@) =~= Seq::<Seq<char>>::empty());
                    Ok(none)
                },
            }
        },
        None => Err(ServiceError::bad_request("Path not set in config.")),
    }
}

/// Lays out the changes of an update of a user; `None` leaves a column as it
/// is. `role` is the role of whoever asks. `new_password` is the salt and
/// hash of the new password: it is taken only from someone who runs the
/// site, and dropped otherwise.
pub fn update(
    role: &String,
    new_username: Option<String>,
    new_password: Option<PasswordHash>,
    new_email: Option<String>,
    new_role: Option<String>,
    new_real_name: Option<String>,
    new_school: Option<String>,
    new_student_number: Option<String>,
) -> (form: UserForm)
    ensures
        opt_chars(form.salt) == (if crate::auth::role::is_staff(role@) {
            salt_of(new_password)
        } else {
            None
        }),
        opt_bytes(form.hash) == (if crate::auth::role::is_staff(role@) {
            hash_of(new_password)
        } else {
            None
        }),
        opt_chars(form.username) == opt_chars(new_username),
        opt_chars(form.email) == opt_chars(new_email),
        opt_chars(form.role) == opt_chars(new_role),
        opt_chars(form.real_name) == opt_chars(new_real_name),
        opt_chars(form.school) == opt_chars(new_school),
        opt_chars(form.student_number) == opt_chars(new_student_number),
{
    let (salt, hash) = if !crate::auth::role::runs_site(role) {
        (None, None)
    } else {
        match new_password {
            Some(p) => (Some(p.salt), Some(p.hash)),
            None => (None, None),
        }
    };
    UserForm {
        salt,
        hash,
        username: new_username,
        email: new_email,
        role: new_role,
        real_name: new_real_name,
        school: new_school,
        student_number: new_student_number,
    }
}

/// The day on which the second `secs` falls, counted from the day of the
/// epoch.
pub fn day_of(secs: i64) -> (day: i64)
    ensures
        day == secs as int / SECS_PER_DAY as int,
{
    if secs >= 0 {
        secs / SECS_PER_DAY
    } else {
        let back: i64 = -(secs + 1);
        -(back / SECS_PER_DAY) - 1
    }
}

/// The days of `times` with, for each run of moments that fall on one day,
/// the length of the run: one entry per run, in the order of the runs.
pub open spec fn runs_by_day(times: Seq<Timestamp>) -> Seq<UserSubmissionTime>
    decreases times.len(),
{
    if times.len() == 0 {
        Seq::empty()
    } else {
        let rest = runs_by_day(times.drop_last());
        let day = times.last().day();
        if rest.len() > 0 && rest.last().date == day {
            rest.drop_last().push(
                UserSubmissionTime { date: rest.last().date, count: (rest.last().count + 1) as i32 },
            )
        } else {
            rest.push(UserSubmissionTime { date: day as i64, count: 1 })
        }
    }
}

/// Counts the submissions of a user day by day. `times` are the moments of
/// the submissions, newest first; moments that follow each other and fall on
/// one day are counted together.
pub fn get_submissions_time(times: &Vec<Timestamp>) -> (days: Vec<UserSubmissionTime>)
    requires
        times.len() <= i32::MAX,
    ensures
        days@ == runs_by_day(times@),
{
    let mut days: Vec<UserSubmissionTime> = Vec::new();
    let mut i: usize = 0;
    assert(days@ =~= runs_by_day(times@.take(0)));
    while i < times.len()
        invariant
            i <= times.len() <= i32::MAX,
            days@ == runs_by_day(times@.take(i as int)),
            days.len() <= i,
            forall|k: int| 0 <= k < days.len() ==> 1 <= (#[trigger] days[k]).count <= i,
        decreases times.len() - i,
    {
        assert(times@.take(i + 1).drop_last() =~= times@.take(i as int));
        let date = day_of(times[i].secs);
        let n = days.len();
        if n > 0 && days[n - 1].date == date {
            let count = days[n - 1].count + 1;
            days.set(n - 1, UserSubmissionTime { date, count });
            assert(days@ =~= runs_by_day(times@.take(i + 1)));
        } else {
            days.push(UserSubmissionTime { date, count: 1 });
        }
        i += 1;
    }
    assert(times@.take(i as int) =~= times@);
    days
}

/// The days of a count, taken apart again, are the days of the moments that
/// were counted: every moment is counted once.
pub proof fn lemma_runs_count_everything(times: Seq<Timestamp>)
    requires
        times.len() <= i32::MAX,
    ensures
        total_count(runs_by_day(times)) == times.len(),
        forall|k: int| 0 <= k < runs_by_day(times).len() ==> 1 <= (#[trigger] runs_by_day(times)[k]).count,
    decreases times.len(),
{
    if times.len() > 0 {
        let front = times.drop_last();
        lemma_runs_count_everything(front);
        let rest = runs_by_day(front);
        let day = times.last().day();
        if rest.len() > 0 && rest.last().date == day {
            lemma_count_bounded(rest, rest.len() - 1);
            let bumped = UserSubmissionTime { date: rest.last().date, count: (rest.last().count + 1) as i32 };
            assert(rest.drop_last().push(bumped).drop_last() =~= rest.drop_last());
        } else {
            assert(rest.push(UserSubmissionTime { date: day as i64, count: 1 }).drop_last() =~= rest);
        }
    }
}

/// No entry of a count is larger than the count as a whole.
proof fn lemma_count_bounded(days: Seq<UserSubmissionTime>, k: int)
    requires
        0 <= k < days.len(),
        forall|j: int| 0 <= j < days.len() ==> 1 <= (#[trigger] days[j]).count,
    ensures
        days[k].count <= total_count(days),
        total_count(days) >= 0,
    decreases days.len(),
{
    lemma_total_nonnegative(days);
    if k < days.len() - 1 {
        lemma_count_bounded(days.drop_last(), k);
    } else {
        lemma_total_nonnegative(days.drop_last());
    }
}

/// A count of entries that are all positive is not negative.
proof fn lemma_total_nonnegative(days: Seq<UserSubmissionTime>)
    requires
        forall|j: int| 0 <= j < days.len() ==> 1 <= (#[trigger] days[j]).count,
    ensures
        total_count(days) >= 0,
    decreases days.len(),
{
    if days.len() > 0 {
        lemma_total_nonnegative(days.drop_last());
    }
}

/// How many submissions `days` count in all.
pub open spec fn total_count(days: Seq<UserSubmissionTime>) -> int
    decreases days.len(),
{
    if days.len() == 0 {
        0
    } else {
        total_count(days.drop_last()) + days.last().count
    }
}

/// For how many seconds a token that resets a password is good, and for how
/// long no second one is sent.
pub const RESET_TOKEN_SECS: i64 = 7200;

/// What is answered to a request for a token while the last one is good.
pub open spec fn token_sent_recently() -> ErrorView {
    ErrorView::BadRequest("两小时之内只能发送一封验证邮件"@)
}

/// Whether a token that resets the password may be sent at the moment
/// `cur_time`: not while an earlier token is still good. `expiration` is the
/// moment at which the last token sent runs out, if one was sent.
pub fn check_reset_interval(expiration: Option<Timestamp>, cur_time: Timestamp) -> (res: ServiceResult<()>)
    ensures
        res is Err <==> expiration is Some && cur_time.before(expiration->Some_0),
        res matches Err(e) ==> e@ == token_sent_recently(),
{
    if let Some(until) = expiration {
        if cur_time.is_before(&until) {
            return Err(ServiceError::bad_request("两小时之内只能发送一封验证邮件"));
        }
    }
    Ok(())
}

/// The moment at which a token sent at the moment `cur_time` runs out.
pub fn token_expiration(cur_time: Timestamp) -> (until: Timestamp)
    requires
        cur_time.secs + RESET_TOKEN_SECS <= i64::MAX,
    ensures
        until.secs == cur_time.secs + RESET_TOKEN_SECS,
        until.nanos == cur_time.nanos,
{
    Timestamp { secs: cur_time.secs + RESET_TOKEN_SECS, nanos: cur_time.nanos }
}

/// Draws a number at random. Calls `rand::Rng::gen_range` on the generator
/// that `rand::thread_rng` hands out; for a range `low..high` that is not
/// empty it is trusted to give a number of the range, `high` excluded. (The
/// generator stops the program if the system cannot seed it.)
#[verifier::external_body]
fn random_between(low: i32, high: i32) -> (n: i32)
    requires
        low < high,
    ensures
        low <= n < high,
{
    rand::thread_rng().gen_range(low..high)
}

/// Draws the token that is mailed to a user who wants to reset the password:
/// six digits, written in base ten.
pub fn new_reset_token() -> (token: String)
    ensures
        exists|n: int| 100000 <= n < 999999 && token@ == decimal(n),
{
    let n = random_between(100000, 999999);
    i32_to_string(n)
}

/// What is answered to a token where none was sent.
pub open spec fn no_token_sent() -> ErrorView {
    ErrorView::BadRequest("未发送验证码."@)
}

/// What is answered to a token that has run out.
pub open spec fn token_expired() -> ErrorView {
    ErrorView::BadRequest("验证码已过期, 请重新发送验证码."@)
}

/// What is answered to a wrong token.
pub open spec fn wrong_token() -> ErrorView {
    ErrorView::BadRequest("验证码错误."@)
}

/// What becomes of an attempt to reset a password with a token.
///
/// It fails if no token was sent; then if the token has run out, which it
/// has once the moment of its expiration lies before `now`; then if the hash
/// of the token given is not the stored one, byte for byte.
pub open spec fn token_outcome(
    stored: Option<Seq<u8>>,
    expiration: Timestamp,
    now: Timestamp,
    token_hash: Seq<u8>,
) -> Result<(), ErrorView> {
    if stored is None {
        Err(no_token_sent())
    } else if expiration.before(now) {
        Err(token_expired())
    } else if stored != Some(token_hash) {
        Err(wrong_token())
    } else {
        Ok(())
    }
}

/// Decides whether a password may be reset with a token at the moment
/// `cur_time`. `stored` is the hash of the token that was sent, if one was,
/// and `expiration` the moment at which it runs out; `token_hash` is the
/// hash, made with the user's salt, of the token that was given.
pub fn reset_password_by_email_token(
    stored: &Option<Vec<u8>>,
    expiration: Option<Timestamp>,
    cur_time: Timestamp,
    token_hash: &Vec<u8>,
) -> (res: ServiceResult<()>)
    requires
        stored is Some ==> expiration is Some,
    ensures
        outcome(res) == (if stored is None {
            Err(no_token_sent())
        } else {
            token_outcome(opt_bytes(*stored), expiration->Some_0, cur_time, token_hash@)
        }),
{
    let stored_hash = match stored {
        None => {
            return Err(ServiceError::bad_request("未发送验证码."));
        },
        Some(h) => h,
    };
    let until = match expiration {
        Some(t) => t,
        None => {
            return Err(ServiceError::InternalServerError);
        },
    };
    if until.is_before(&cur_time) {
        return Err(ServiceError::bad_request("验证码已过期, 请重新发送验证码."));
    }
    if !same_bytes(token_hash, stored_hash) {
        return Err(ServiceError::bad_request("验证码错误."));
    }
    Ok(())
}

/// What is answered to a wrong old password.
pub open spec fn wrong_old_password() -> ErrorView {
    ErrorView::BadRequest("Password is wrong."@)
}

/// Decides whether a password may be reset by giving the old one. `stored`
/// is the stored hash of the user's password; `old_hash` is the hash, made
/// with the user's salt, of the old password as it was given. They must be
/// the same, byte for byte.
pub fn reset_password_by_old_password(stored: &Option<Vec<u8>>, old_hash: &Vec<u8>) -> (res: ServiceResult<
    (),
>)
    ensures
        res is Ok <==> opt_bytes(*stored) == Some(old_hash@),
        res matches Err(e) ==> e@ == wrong_old_password(),
{
    let same = match stored {
        Some(h) => same_bytes(h, old_hash),
        None => false,
    };
    if same {
        Ok(())
    } else {
        Err(ServiceError::bad_request("Password is wrong."))
    }
}

} // verus!
