//! # Scheduler
//!
//! Provides background task scheduling to run tasks at specific
//! fixed intervals independent of when the task started

use vstd::prelude::*;

verus! {

/// The instant, in seconds since the Unix epoch, of the `nth` multiple of
/// `interval` after the one at or before `seconds`.
pub open spec fn spec_nth_interval(seconds: int, interval: int, nth: int) -> int {
    (seconds / interval + nth) * interval
}

/// Gets the instant, in seconds since the Unix epoch, of the `nth` interval
/// boundary after `seconds`.
pub fn get_nth_interval_seconds(seconds: u64, interval: u64, nth: u64) -> (r: u64)
    requires
        interval > 0,
        spec_nth_interval(seconds as int, interval as int, nth as int) <= u64::MAX,
    ensures
        r == spec_nth_interval(seconds as int, interval as int, nth as int),
{
    let q = seconds / interval;
    proof {
        assert(q + nth <= (q + nth) * interval) by (nonlinear_arith)
            requires
                interval > 0,
                q >= 0,
                nth >= 0,
        ;
    }
    (q + nth) * interval
}

/// The first boundary after `seconds` lies strictly after it, at most one
/// interval ahead, on a multiple of the interval.
pub proof fn lemma_next_interval_bounds(seconds: int, interval: int)
    requires
        seconds >= 0,
        interval > 0,
    ensures
        seconds < spec_nth_interval(seconds, interval, 1) <= seconds + interval,
        spec_nth_interval(seconds, interval, 1) % interval == 0,
{
    let q = seconds / interval;
    let r = seconds % interval;
    assert(seconds == q * interval + r && 0 <= r < interval) by (nonlinear_arith)
        requires
            interval > 0,
            q == seconds / interval,
            r == seconds % interval,
    ;
    assert((q + 1) * interval == q * interval + interval) by (nonlinear_arith);
    assert(((q + 1) * interval) % interval == 0) by (nonlinear_arith)
        requires
            interval > 0,
    ;
}

/// Each further boundary lies one interval after the one before it.
pub proof fn lemma_nth_interval_step(seconds: int, interval: int, nth: int)
    ensures
        spec_nth_interval(seconds, interval, nth + 1) == spec_nth_interval(seconds, interval, nth) + interval,
{
    assert((seconds / interval + nth + 1) * interval == (seconds / interval + nth) * interval + interval)
        by (nonlinear_arith);
}

pub struct SchedulerQueueEvent<E> {
    /// Data for the event
    pub event: E,
    /// Interval the event executes at in seconds
    pub interval: u64,
}

pub struct ScheduledEvent<E> {
    /// Data for the event to execute
    pub event: E,
    /// Interval the event executes at in seconds
    /// (For further scheduling)
    pub interval: u64,
    /// Next instant the event runs at, in seconds since the Unix epoch
    pub next_run: u64,
}

/// The event scheduled for the first interval boundary after `now`.
pub open spec fn scheduled_at<E>(event: E, interval: u64, now: u64) -> ScheduledEvent<E> {
    ScheduledEvent { event, interval, next_run: spec_nth_interval(now as int, interval as int, 1) as u64 }
}

/// Every interval of the queue is positive and its next boundary after `now`
/// fits the clock.
pub open spec fn intervals_fit(intervals: Seq<u64>, now: u64) -> bool {
    forall|i: int| 0 <= i < intervals.len() ==> 0 < #[trigger] intervals[i] && now + intervals[i] <= u64::MAX
}

/// Schedules `event` for the first boundary of `interval` after `now`.
pub fn create_scheduled_event<E>(event: E, interval: u64, now: u64) -> (r: ScheduledEvent<E>)
    requires
        interval > 0,
        now + interval <= u64::MAX,
    ensures
        r == scheduled_at(event, interval, now),
{
    proof {
        lemma_next_interval_bounds(now as int, interval as int);
    }
    let next_run = get_nth_interval_seconds(now, interval, 1);
    ScheduledEvent { event, interval, next_run }
}

/// The index of the event due first: the earliest `next_run`, the first
/// such among equals.
pub open spec fn is_first_due<E>(events: Seq<ScheduledEvent<E>>, i: int) -> bool {
    &&& 0 <= i < events.len()
    &&& forall|j: int| 0 <= j < events.len() ==> events[i].next_run <= (#[trigger] events[j]).next_run
    &&& forall|j: int| 0 <= j < i ==> events[i].next_run < (#[trigger] events[j]).next_run
}

/// What the stream of events does next.
pub enum SchedulerStep<E> {
    /// No event is scheduled; nothing will come.
    Idle,
    /// The event is due and was rescheduled for its next interval.
    Fire(E),
    /// Nothing is due before this instant, in seconds since the Unix epoch.
    SleepUntil(u64),
}

/// What a poll at `now` does to the scheduled events `before`, leaving
/// `after`: nothing when none is scheduled; the event due first fires and is
/// rescheduled for the first boundary of its interval after `now` when its
/// instant has passed; otherwise a sleep until that instant.
pub open spec fn poll_post<E: Clone>(
    before: Seq<ScheduledEvent<E>>,
    now: u64,
    r: SchedulerStep<E>,
    after: Seq<ScheduledEvent<E>>,
) -> bool {
    &&& before.len() == 0 ==> r is Idle && after == before
    &&& forall|i: int| #[trigger] is_first_due(before, i) ==> {
        let due = before[i];
        if due.next_run < now {
            &&& r == SchedulerStep::Fire(due.event)
            &&& after.len() == before.len()
            &&& after.take(before.len() - 1) == before.remove(i)
            &&& after.last().interval == due.interval
            &&& after.last().next_run == scheduled_at(due.event, due.interval, now).next_run
            &&& cloned(due.event, after.last().event)
        } else {
            r == SchedulerStep::<E>::SleepUntil(due.next_run) && after == before
        }
    }
}

/// The scheduled events, each with the instant it is next due.
pub struct SchedulerEventStream<E> {
    /// Scheduled events, in the order they were scheduled
    events: Vec<ScheduledEvent<E>>,
}

impl<E: Clone> SchedulerEventStream<E> {
    pub closed spec fn view(&self) -> Seq<ScheduledEvent<E>> {
        self.events@
    }

    /// The intervals of the scheduled events.
    pub open spec fn intervals(&self) -> Seq<u64> {
        self.view().map_values(|e: ScheduledEvent<E>| e.interval)
    }

    /// Schedules each event for the first boundary of its interval after `now`.
    pub fn new(events: Vec<SchedulerQueueEvent<E>>, now: u64) -> (r: Self)
        requires
            forall|i: int| 0 <= i < events@.len() ==> 0 < (#[trigger] events@[i]).interval && now + events@[i].interval
                <= u64::MAX,
        ensures
            r.view() == events@.map_values(|e: SchedulerQueueEvent<E>| scheduled_at(e.event, e.interval, now)),
    {
        let ghost all = events@;
        let mut rest = events;
        let mut scheduled: Vec<ScheduledEvent<E>> = Vec::new();
        while rest.len() > 0
            invariant
                scheduled@.len() + rest@.len() == all.len(),
                rest@ == all.skip(scheduled@.len() as int),
                scheduled@ == all.take(scheduled@.len() as int).map_values(
                    |e: SchedulerQueueEvent<E>| scheduled_at(e.event, e.interval, now),
                ),
                forall|i: int| 0 <= i < all.len() ==> 0 < (#[trigger] all[i]).interval && now + all[i].interval
                    <= u64::MAX,
            decreases rest@.len(),
        {
            let ghost k = scheduled@.len() as int;
            let event = rest.remove(0);
            proof {
                assert(event == all[k]);
                assert(rest@ =~= all.skip(k + 1));
                assert(all.take(k + 1) =~= all.take(k).push(all[k]));
            }
            scheduled.push(create_scheduled_event(event.event, event.interval, now));
            proof {
                assert(scheduled@ =~= all.take(k + 1).map_values(
                    |e: SchedulerQueueEvent<E>| scheduled_at(e.event, e.interval, now),
                ));
            }
        }
        proof {
            assert(all.take(all.len() as int) =~= all);
        }
        SchedulerEventStream { events: scheduled }
    }

    /// The index of the event due first, if any.
    fn first_due(&self) -> (r: Option<usize>)
        ensures
            match r {
                Some(i) => is_first_due(self.view(), i as int),
                None => self.view().len() == 0,
            },
    {
        if self.events.len() == 0 {
            return None;
        }
        let mut best: usize = 0;
        let mut i: usize = 1;
        while i < self.events.len()
            invariant
                1 <= i <= self.events@.len(),
                best < i,
                forall|j: int| 0 <= j < i ==> self.events@[best as int].next_run <= (#[trigger] self.events@[j]).next_run,
                forall|j: int| 0 <= j < best ==> self.events@[best as int].next_run < (#[trigger] self.events@[j]).next_run,
            decreases self.events@.len() - i,
        {
            if self.events[i].next_run < self.events[best].next_run {
                best = i;
            }
            i = i + 1;
        }
        Some(best)
    }

    /// Takes the event due first and schedules its next run, for the first
    /// boundary of its interval after `now`; returns the event.
    pub fn reschedule_current_event(&mut self, now: u64) -> (r: Option<E>)
        requires
            intervals_fit(old(self).intervals(), now),
        ensures
            intervals_fit(final(self).intervals(), now),
            match r {
                None => old(self).view().len() == 0 && final(self).view() == old(self).view(),
                Some(e) => exists|i: int|
                    is_first_due(old(self).view(), i) && e == old(self).view()[i].event && {
                        let due = old(self).view()[i];
                        &&& final(self).view().len() == old(self).view().len()
                        &&& final(self).view().take(old(self).view().len() - 1) == old(self).view().remove(i)
                        &&& final(self).view().last().interval == due.interval
                        &&& final(self).view().last().next_run == scheduled_at(due.event, due.interval, now).next_run
                        &&& cloned(due.event, final(self).view().last().event)
                    },
            },
    {
        let i = match self.first_due() {
            Some(i) => i,
            None => return None,
        };
        let ghost before = self.events@;
        proof {
            assert(self.intervals()[i as int] == before[i as int].interval);
        }
        let event = self.events.remove(i);
        // Create the next iteration of the event
        let next = create_scheduled_event(event.event.clone(), event.interval, now);
        self.events.push(next);
        proof {
            assert(self.events@.take(before.len() - 1) =~= before.remove(i as int));
            assert forall|j: int| 0 <= j < self.intervals().len() implies 0 < #[trigger] self.intervals()[j]
                && now + self.intervals()[j] <= u64::MAX by {
                if j < before.len() - 1 {
                    if j < i {
                        assert(self.intervals()[j] == before.map_values(|e: ScheduledEvent<E>| e.interval)[j]);
                    } else {
                        assert(self.intervals()[j] == before.map_values(|e: ScheduledEvent<E>| e.interval)[j + 1]);
                    }
                }
            }
        }
        // Emit event
        Some(event.event)
    }

    /// What comes next at `now`: nothing when no event is scheduled; the event
    /// due first, rescheduled, when its instant has passed; otherwise a sleep
    /// until that instant.
    pub fn poll_next(&mut self, now: u64) -> (r: SchedulerStep<E>)
        requires
            intervals_fit(old(self).intervals(), now),
        ensures
            intervals_fit(final(self).intervals(), now),
            poll_post(old(self).view(), now, r, final(self).view()),
    {
        let i = match self.first_due() {
            Some(i) => i,
            None => return SchedulerStep::Idle,
        };
        // Check if the event has already passed
        let next_run = self.events[i].next_run;
        if next_run < now {
            match self.reschedule_current_event(now) {
                Some(event) => SchedulerStep::Fire(event),
                None => SchedulerStep::Idle,
            }
        } else {
            SchedulerStep::SleepUntil(next_run)
        }
    }
}

/// The number of boundaries `next`, `next + k`, ... that lie before `t`.
pub open spec fn boundaries_before(next: int, k: int, t: int) -> int {
    if t <= next {
        0
    } else {
        (t - next - 1) / k + 1
    }
}

/// The number of events fired among the steps.
pub open spec fn fired<E>(steps: Seq<SchedulerStep<E>>) -> int
    decreases steps.len(),
{
    if steps.len() == 0 {
        0
    } else {
        (if steps[0] is Fire { 1int } else { 0int }) + fired(steps.drop_first())
    }
}

/// A run of polls: at each time of `polls` the stream goes from `views[i]` to
/// `views[i + 1]` and answers `steps[i]`, as `poll_next` does.
pub open spec fn is_poll_run<E: Clone>(
    views: Seq<Seq<ScheduledEvent<E>>>,
    polls: Seq<u64>,
    steps: Seq<SchedulerStep<E>>,
) -> bool {
    &&& views.len() == polls.len() + 1
    &&& steps.len() == polls.len()
    &&& forall|i: int| 0 <= i < polls.len() ==> poll_post(views[i], #[trigger] polls[i], steps[i], views[i + 1])
}

/// The polls come no more than one interval apart, starting within one
/// interval of `start`, and never go back in time; each leaves room on the
/// clock for one more interval, as `poll_next` requires.
pub open spec fn polls_dense(start: int, k: int, polls: Seq<u64>) -> bool {
    &&& polls.len() > 0 ==> start <= polls[0] < start + k
    &&& forall|i: int| 0 <= i < polls.len() ==> #[trigger] polls[i] + k <= u64::MAX
    &&& forall|i: int| 0 <= i < polls.len() - 1 ==> polls[i] <= #[trigger] polls[i + 1] < polls[i] + k
}

/// A poll strictly after a boundary and within one interval of it schedules
/// the event for the next boundary.
proof fn lemma_next_boundary(next: int, k: int, t: int)
    requires
        k > 0,
        next >= 0,
        next % k == 0,
        next < t < next + k,
    ensures
        spec_nth_interval(t, k, 1) == next + k,
{
    let q = next / k;
    vstd::arithmetic::div_mod::lemma_fundamental_div_mod(next, k);
    assert(next == q * k) by (nonlinear_arith)
        requires
            next == k * (next / k) + next % k,
            next % k == 0,
            q == next / k,
    ;
    vstd::arithmetic::div_mod::lemma_fundamental_div_mod_converse_div(t, k, q, t - next);
    assert((q + 1) * k == q * k + k) by (nonlinear_arith);
}

/// Counting the boundaries before `t` from `next` counts `next` and then those
/// from `next + k`.
proof fn lemma_boundaries_step(next: int, k: int, t: int)
    requires
        k > 0,
        next < t,
    ensures
        boundaries_before(next, k, t) == 1 + boundaries_before(next + k, k, t),
{
    let x = t - next - 1;
    if t <= next + k {
        vstd::arithmetic::div_mod::lemma_fundamental_div_mod_converse_div(x, k, 0, x);
    } else {
        vstd::arithmetic::div_mod::lemma_div_plus_one(x - k, k);
    }
}

proof fn lemma_one_event_run<E: Clone>(
    views: Seq<Seq<ScheduledEvent<E>>>,
    polls: Seq<u64>,
    steps: Seq<SchedulerStep<E>>,
    k: int,
    start: int,
)
    requires
        is_poll_run(views, polls, steps),
        polls.len() > 0,
        views[0].len() == 1,
        views[0][0].interval == k,
        k > 0,
        (views[0][0].next_run as int) % k == 0,
        start <= views[0][0].next_run <= start + k,
        polls_dense(start, k, polls),
    ensures
        fired(steps) == boundaries_before(views[0][0].next_run as int, k, polls.last() as int),
        polls[0] <= polls.last(),
    decreases polls.len(),
{
    let before = views[0];
    let after = views[1];
    let next = before[0].next_run as int;
    let t = polls[0] as int;
    assert(poll_post(views[0], polls[0], steps[0], views[1]));
    assert(is_first_due(before, 0));
    let rest_views = views.drop_first();
    let rest_polls = polls.drop_first();
    let rest_steps = steps.drop_first();
    assert(is_poll_run(rest_views, rest_polls, rest_steps)) by {
        assert forall|i: int| 0 <= i < rest_polls.len() implies poll_post(
            rest_views[i],
            #[trigger] rest_polls[i],
            rest_steps[i],
            rest_views[i + 1],
        ) by {
            assert(rest_polls[i] == polls[i + 1]);
            assert(poll_post(views[i + 1], polls[i + 1], steps[i + 1], views[i + 2]));
        }
    }
    if next < t {
        // The poll fires, and the event is next due one interval later.
        lemma_next_boundary(next, k, t);
        assert(after.len() == 1);
        assert(after[0] == after.last());
        assert(polls[0] + k <= u64::MAX);
        assert(after[0].next_run == next + k);
        if polls.len() == 1 {
            lemma_boundaries_step(next, k, polls.last() as int);
            assert(fired(rest_steps) == 0);
            assert(boundaries_before(next + k, k, t) == 0);
        } else {
            assert(polls_dense(t, k, rest_polls)) by {
                assert(polls[0] <= polls[1] < polls[0] + k);
                assert forall|i: int| 0 <= i < rest_polls.len() - 1 implies rest_polls[i] <= #[trigger] rest_polls[i
                    + 1] < rest_polls[i] + k by {
                    assert(polls[i + 1] <= polls[i + 2] < polls[i + 1] + k);
                }
            }
            assert((next + k) % k == 0) by {
                vstd::arithmetic::div_mod::lemma_mod_add_multiples_vanish(next, k);
            }
            assert forall|i: int| 0 <= i < rest_polls.len() implies #[trigger] rest_polls[i] + k <= u64::MAX by {
                assert(rest_polls[i] == polls[i + 1]);
            }
            lemma_one_event_run(rest_views, rest_polls, rest_steps, k, t);
            assert(rest_polls.last() == polls.last());
            lemma_boundaries_step(next, k, polls.last() as int);
        }
        assert(steps[0] is Fire);
    } else {
        assert(after == before);
        if polls.len() == 1 {
            assert(fired(rest_steps) == 0);
        } else {
            assert(polls_dense(t, k, rest_polls)) by {
                assert(polls[0] <= polls[1] < polls[0] + k);
                assert forall|i: int| 0 <= i < rest_polls.len() - 1 implies rest_polls[i] <= #[trigger] rest_polls[i
                    + 1] < rest_polls[i] + k by {
                    assert(polls[i + 1] <= polls[i + 2] < polls[i + 1] + k);
                }
            }
            assert forall|i: int| 0 <= i < rest_polls.len() implies #[trigger] rest_polls[i] + k <= u64::MAX by {
                assert(rest_polls[i] == polls[i + 1]);
            }
            lemma_one_event_run(rest_views, rest_polls, rest_steps, k, t);
            assert(rest_polls.last() == polls.last());
        }
        assert(steps[0] is SleepUntil);
    }
}

/// A stream of one event, polled at least once per interval from its
/// creation at `created`, fires once per interval boundary: up to the last
/// poll it has fired exactly once for each boundary after `created` and
/// before that poll, and never before a boundary has passed.
pub proof fn lemma_fires_once_per_boundary<E: Clone>(
    views: Seq<Seq<ScheduledEvent<E>>>,
    polls: Seq<u64>,
    steps: Seq<SchedulerStep<E>>,
    event: E,
    interval: u64,
    created: u64,
)
    requires
        is_poll_run(views, polls, steps),
        polls.len() > 0,
        interval > 0,
        views[0] == seq![scheduled_at(event, interval, created)],
        spec_nth_interval(created as int, interval as int, 1) <= u64::MAX,
        polls_dense(created as int, interval as int, polls),
    ensures
        fired(steps) == boundaries_before(
            spec_nth_interval(created as int, interval as int, 1),
            interval as int,
            polls.last() as int,
        ),
{
    lemma_next_interval_bounds(created as int, interval as int);
    lemma_one_event_run(views, polls, steps, interval as int, created as int);
}

} // verus!
