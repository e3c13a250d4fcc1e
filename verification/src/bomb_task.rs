//! Timed tasks that expire, and the decisions taken over them: how much time
//! a task has left, which tasks are worth a warning mail, and which have
//! already gone off. The rows come from the caller's store, the clock from
//! the caller; every decision is a function of those plain values.

use vstd::prelude::*;
use vstd::string::StringExecFns;
use crate::decimal::{dec_digits, u64_to_string};
use crate::notifications::email_idxs;

verus! {

/// Microseconds in one day.
pub const DAY_MICROS: i64 = 86_400_000_000;

/// A task is worth a warning when it expires within this many microseconds:
/// two hours.
pub const WARNING_MICROS: i64 = 7_200_000_000;

/// A stored time limit: calendar months are never set by the store's schema
/// and the day count and sub-day remainder are what the deadline arithmetic
/// reads.
pub struct TimeLimit {
    pub months: i32,
    pub days: i32,
    pub microseconds: i64,
}

/// One timed task, as plain values; instants are microseconds since the
/// epoch.
pub struct BombTask {
    pub task_title: String,
    pub time_accepted_micros: i64,
    pub bomb_time_limit: Option<TimeLimit>,
    pub assigned_username: String,
    pub assigned_email: String,
}

/// The span of a time limit, in microseconds: its days plus its sub-day
/// remainder (calendar months are not consulted).
pub open spec fn limit_micros(l: TimeLimit) -> int {
    (l.days as int) * (DAY_MICROS as int) + l.microseconds as int
}

impl BombTask {
    /// How much time the task has left at the instant `now`: it expires a
    /// time-limit span after it was accepted. A task without a time limit
    /// has no deadline, so it is ruled out, as is arithmetic that would not
    /// fit the instant type.
    pub fn time_left(&self, now_micros: i64) -> (r: i64)
        requires
            self.bomb_time_limit is Some,
            i64::MIN <= (self.bomb_time_limit.unwrap().days as int) * (DAY_MICROS as int)
                <= i64::MAX,
            i64::MIN <= limit_micros(self.bomb_time_limit.unwrap()) <= i64::MAX,
            i64::MIN <= self.time_accepted_micros as int
                + limit_micros(self.bomb_time_limit.unwrap()) <= i64::MAX,
            i64::MIN <= self.time_accepted_micros as int
                + limit_micros(self.bomb_time_limit.unwrap()) - now_micros as int <= i64::MAX,
        ensures
            r as int == self.time_accepted_micros as int
                + limit_micros(self.bomb_time_limit.unwrap()) - now_micros as int,
    {
        match &self.bomb_time_limit {
            Some(l) => {
                let days_span: i64 = (l.days as i64) * DAY_MICROS;
                let duration: i64 = days_span + l.microseconds;
                let expire: i64 = self.time_accepted_micros + duration;
                expire - now_micros
            },
            None => vstd::pervasive::unreached(),
        }
    }
}

/// Whether a task with this much time left is about to expire and so is
/// bundled into a warning mail.
pub fn needs_warning(time_left: i64) -> (r: bool)
    ensures
        r == (time_left < WARNING_MICROS),
{
    time_left < WARNING_MICROS
}

/// Whether a task with this much time left has already gone off and so is
/// marked exploded.
pub fn has_exploded(time_left: i64) -> (r: bool)
    ensures
        r == (time_left < 0),
{
    time_left < 0
}

/// The countdown text of a positive time left: each calendar component that
/// its truncated total exceeds, largest first, rendered with a trailing
/// space, wrapped in `in ...`; and `NOW` where no component is positive.
pub open spec fn human_readable_spec(tl: int) -> Seq<char> {
    let days = tl / 86_400_000_000;
    let hours = tl / 3_600_000_000;
    let minutes = tl / 60_000_000;
    let seconds = tl / 1_000_000;
    let parts = (if days > 0 {
        dec_digits(days) + " days "@
    } else {
        Seq::empty()
    }) + (if hours > 0 {
        dec_digits(hours % 24) + " hours "@
    } else {
        Seq::empty()
    }) + (if minutes > 0 {
        dec_digits(minutes % 60) + " minutes "@
    } else {
        Seq::empty()
    }) + (if seconds > 0 {
        dec_digits(seconds % 60) + " seconds "@
    } else {
        Seq::empty()
    });
    if parts.len() == 0 {
        "NOW"@
    } else {
        "in "@ + parts
    }
}

/// Renders how much time a task has left for a warning mail: days, then
/// hours, minutes and seconds within their larger unit, each only when the
/// truncated total in that unit is positive; `NOW` for a task with under a
/// second left or already over.
pub fn human_readable_time_left(time_left: i64) -> (r: String)
    ensures
        r@ == human_readable_spec(time_left as int),
{
    if time_left > 0 {
        let m: u64 = time_left as u64;
        let days: u64 = m / 86_400_000_000;
        let hours: u64 = m / 3_600_000_000;
        let minutes: u64 = m / 60_000_000;
        let seconds: u64 = m / 1_000_000;
        let mut s = String::new();
        if days > 0 {
            s.append(u64_to_string(days).as_str());
            s.append(" days ");
        }
        if hours > 0 {
            s.append(u64_to_string(hours % 24).as_str());
            s.append(" hours ");
        }
        if minutes > 0 {
            s.append(u64_to_string(minutes % 60).as_str());
            s.append(" minutes ");
        }
        if seconds > 0 {
            s.append(u64_to_string(seconds % 60).as_str());
            s.append(" seconds ");
        }
        if s.as_str().is_empty() {
            proof {
                reveal_strlit("");
            }
            String::from_str("NOW")
        } else {
            let mut r = String::from_str("in ");
            r.append(s.as_str());
            proof {
                assert(r@ =~= human_readable_spec(time_left as int));
            }
            r
        }
    } else {
        proof {
            assert(human_readable_spec(time_left as int) =~= "NOW"@);
        }
        String::from_str("NOW")
    }
}

/// The plain-text body of a warning mail about `count` expiring tasks.
pub fn expiry_mail_body(count: u64) -> (r: String)
    ensures
        r@ == "You have "@ + dec_digits(count as int)
            + " task(s) that are expiring soon. You can view them at https://www.sustainandgain.fun/tasks/. Sustainability Steve"@,
{
    let mut r = String::from_str("You have ");
    r.append(u64_to_string(count).as_str());
    r.append(
        " task(s) that are expiring soon. You can view them at https://www.sustainandgain.fun/tasks/. Sustainability Steve",
    );
    r
}

/// The view of each assigned address in a batch of tasks.
pub open spec fn assigned_views(ts: Seq<BombTask>) -> Seq<Seq<char>> {
    Seq::new(ts.len(), |i: int| ts[i].assigned_email@)
}

/// Picks, in order, the positions of the tasks assigned to `target`: the
/// warning mail for one address bundles exactly these.
pub fn task_indices_with_email(ts: &Vec<BombTask>, target: &String) -> (r: Vec<usize>)
    ensures
        r@ == email_idxs(assigned_views(ts@), target@, ts@.len() as int),
{
    let mut r: Vec<usize> = Vec::new();
    let n: usize = ts.len();
    for i in 0..n
        invariant
            n == ts@.len(),
            r@ == email_idxs(assigned_views(ts@), target@, i as int),
    {
        proof {
            assert(assigned_views(ts@)[i as int] == ts@[i as int].assigned_email@);
        }
        if ts[i].assigned_email.eq(target) {
            r.push(i);
        }
    }
    r
}

/// The positions, in order, of the values below `bound` among the first `n`.
pub open spec fn below_idxs(vals: Seq<i64>, bound: int, n: int) -> Seq<usize>
    decreases n,
{
    if n <= 0 {
        Seq::empty()
    } else {
        let p = below_idxs(vals, bound, n - 1);
        if vals[n - 1] < bound {
            p.push((n - 1) as usize)
        } else {
            p
        }
    }
}

/// Picks, in order, the positions of the time-left values below `bound`.
pub fn below_indices(vals: &Vec<i64>, bound: i64) -> (r: Vec<usize>)
    ensures
        r@ == below_idxs(vals@, bound as int, vals@.len() as int),
{
    let mut r: Vec<usize> = Vec::new();
    let n: usize = vals.len();
    for i in 0..n
        invariant
            n == vals@.len(),
            r@ == below_idxs(vals@, bound as int, i as int),
    {
        if vals[i] < bound {
            r.push(i);
        }
    }
    r
}

/// The positions of the tasks that are about to expire: those whose time
/// left is under the warning threshold.
pub fn warning_indices(time_lefts: &Vec<i64>) -> (r: Vec<usize>)
    ensures
        r@ == below_idxs(time_lefts@, WARNING_MICROS as int, time_lefts@.len() as int),
{
    below_indices(time_lefts, WARNING_MICROS)
}

/// The positions of the tasks that have already gone off: those whose time
/// left is negative.
pub fn exploded_indices(time_lefts: &Vec<i64>) -> (r: Vec<usize>)
    ensures
        r@ == below_idxs(time_lefts@, 0, time_lefts@.len() as int),
{
    below_indices(time_lefts, 0)
}

} // verus!
