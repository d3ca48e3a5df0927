use vstd::prelude::*;

use crate::aggregate::{folded, kept_average};
use crate::config::seconds_of;
use crate::model::{average_view_names, index_of, lemma_index_of, mean, unique_names, AverageView, OutcomeView, ResponseView};
use crate::state::{fire, lemma_step_wf, step, AppView, CommandView, EventView};

verus! {

/// "Refresh now" fires a round at once with the current settings and restarts
/// the countdown from the full interval, however much of it was left.
pub proof fn lemma_manual_trigger(s: AppView)
    requires
        s.wf(),
    ensures
        step(s, EventView::TimerReset).1 == seq![CommandView::TimerElapsed(s.config())],
        step(s, EventView::TimerReset).0 == (AppView { timer_count: s.timer_duration, ..s }),
{
}

/// A new refresh interval sends nothing and leaves the running countdown as it
/// is; the next round restarts the countdown from the new interval.
pub proof fn lemma_interval_change_waits(s: AppView, text: Seq<char>)
    requires
        s.wf(),
    ensures
        step(s, EventView::TimerDurationChanged(text)).1 == Seq::<CommandView>::empty(),
        step(s, EventView::TimerDurationChanged(text)).0.timer_count == s.timer_count,
        step(s, EventView::TimerDurationChanged(text)).0.config() == s.config(),
        seconds_of(text) matches Some(v) ==> fire(step(s, EventView::TimerDurationChanged(text)).0).0.timer_count
            == v,
{
}

/// A new timeout sends nothing and leaves the countdown as it is; rounds
/// already sent keep theirs, and the next round carries the new one.
pub proof fn lemma_timeout_change_waits(s: AppView, text: Seq<char>)
    requires
        s.wf(),
    ensures
        step(s, EventView::TimeoutDurationChanged(text)).1 == Seq::<CommandView>::empty(),
        step(s, EventView::TimeoutDurationChanged(text)).0.timer_count == s.timer_count,
        step(s, EventView::TimeoutDurationChanged(text)).0.timer_duration == s.timer_duration,
        seconds_of(text) matches Some(v) ==> fire(step(s, EventView::TimeoutDurationChanged(text)).0).1
            == seq![CommandView::TimerElapsed(crate::state::RoundConfig { timeout: v, payload: s.payload })],
        seconds_of(text) is None ==> step(s, EventView::TimeoutDurationChanged(text)).0 == s,
{
}

/// Switching averaging off and on again starts every target's average from
/// zero samples, one per target, before any outcome is folded in.
pub proof fn lemma_toggle_twice_resets(s: AppView)
    requires
        s.wf(),
    ensures
        ({
            let s2 = step(step(s, EventView::AverageTogglePressed).0, EventView::AverageTogglePressed).0;
            &&& s2.show_average == s.show_average
            &&& s2.sites == s.sites
            &&& s2.history.len() == s.sites.len()
            &&& forall|i: int|
                0 <= i < s2.history.len() ==> #[trigger] s2.history[i] == AverageView::empty(s.sites[i].name)
                    && s2.history[i].sum == 0 && s2.history[i].len == 0
        }),
{
}

/// A timeout or a transport error, or a response with no outcome, leaves every
/// running average as it was.
pub proof fn lemma_failures_not_averaged(s: AppView, r: ResponseView)
    requires
        s.wf(),
        !(r.response matches Some(OutcomeView::Success(_))),
    ensures
        step(s, EventView::PingResponse(r)).0.history == s.history,
{
}

/// The states a sequence of events leads through, from `s`.
pub open spec fn run(s: AppView, events: Seq<EventView>) -> AppView
    decreases events.len(),
{
    if events.len() == 0 {
        s
    } else {
        step(run(s, events.drop_last()), events.last()).0
    }
}

/// The latencies of the successes reported for `name`, in order.
pub open spec fn successes(events: Seq<EventView>, name: Seq<char>) -> Seq<u64>
    decreases events.len(),
{
    if events.len() == 0 {
        seq![]
    } else {
        let prev = successes(events.drop_last(), name);
        match events.last() {
            EventView::PingResponse(r) => match r.response {
                Some(OutcomeView::Success(l)) => if r.name == name {
                    prev.push(l)
                } else {
                    prev
                },
                _ => prev,
            },
            _ => prev,
        }
    }
}

/// The sum of some latencies.
pub open spec fn total(s: Seq<u64>) -> int
    decreases s.len(),
{
    if s.len() == 0 {
        0
    } else {
        total(s.drop_last()) + s.last()
    }
}

/// No event of the sequence switches averaging or reloads the targets.
pub open spec fn no_reset(events: Seq<EventView>) -> bool {
    forall|i: int|
        0 <= i < events.len() ==> !(#[trigger] events[i] is AverageTogglePressed) && !(events[i] is RefreshSites)
}

proof fn lemma_kept_after_fold(h: Seq<AverageView>, m: Seq<char>, l: u64, n: Seq<char>)
    requires
        unique_names(average_view_names(h)),
        unique_names(average_view_names(folded(h, m, l))),
        m == n ==> kept_average(h, n).len < u64::MAX,
    ensures
        kept_average(folded(h, m, l), n) == if m == n {
            kept_average(h, n).added(l as int)
        } else {
            kept_average(h, n)
        },
{
    let names = average_view_names(h);
    let h2 = folded(h, m, l);
    let names2 = average_view_names(h2);
    assert(h2.len() >= h.len());
    if names.contains(n) {
        let i = index_of(names, n);
        assert(names2[i] == n);
        lemma_index_of(names2, n, i);
    } else if m == n {
        assert(names2[h.len() as int] == n);
        lemma_index_of(names2, n, h.len() as int);
    } else {
        if names2.contains(n) {
            let j = index_of(names2, n);
            if j < h.len() {
                assert(names[j] == n);
            }
        }
    }
}

/// While averaging stays on, the average of a target counts exactly the
/// successes reported for it, adds up exactly their latencies, and stays their
/// mean; failures change neither.
pub proof fn lemma_average_counts_successes(s: AppView, events: Seq<EventView>, name: Seq<char>)
    requires
        s.wf(),
        s.show_average,
        no_reset(events),
        kept_average(s.history, name).len + successes(events, name).len() <= u64::MAX,
    ensures
        run(s, events).wf(),
        kept_average(run(s, events).history, name).len == kept_average(s.history, name).len
            + successes(events, name).len(),
        kept_average(run(s, events).history, name).sum == kept_average(s.history, name).sum
            + total(successes(events, name)),
        kept_average(run(s, events).history, name).avg == mean(
            kept_average(run(s, events).history, name).sum,
            kept_average(run(s, events).history, name).len,
        ),
    decreases events.len(),
{
    if events.len() > 0 {
        let prev = events.drop_last();
        let e = events.last();
        assert forall|i: int| 0 <= i < prev.len() implies !(#[trigger] prev[i] is AverageTogglePressed)
            && !(prev[i] is RefreshSites) by {
            assert(prev[i] == events[i]);
        }
        assert(!(events[events.len() - 1] is AverageTogglePressed));
        lemma_average_counts_successes(s, prev, name);
        let p = run(s, prev);
        lemma_step_wf(p, e);
        assert(p.show_average) by {
            lemma_show_average_kept(s, prev);
        }
        match e {
            EventView::PingResponse(r) => {
                match r.response {
                    Some(OutcomeView::Success(l)) => {
                        crate::state::lemma_folded_wf(p.history, r.name, l);
                        lemma_kept_after_fold(p.history, r.name, l, name);
                        if r.name == name {
                            assert(successes(events, name) == successes(prev, name).push(l));
                            assert(successes(events, name).drop_last() =~= successes(prev, name));
                        }
                    },
                    _ => {},
                }
            },
            _ => {},
        }
        assert(kept_average(run(s, events).history, name).wf()) by {
            lemma_kept_wf(run(s, events).history, name);
        }
    } else {
        lemma_kept_wf(s.history, name);
    }
}

proof fn lemma_show_average_kept(s: AppView, events: Seq<EventView>)
    requires
        s.show_average,
        no_reset(events),
    ensures
        run(s, events).show_average,
    decreases events.len(),
{
    if events.len() > 0 {
        let prev = events.drop_last();
        assert forall|i: int| 0 <= i < prev.len() implies !(#[trigger] prev[i] is AverageTogglePressed)
            && !(prev[i] is RefreshSites) by {
            assert(prev[i] == events[i]);
        }
        assert(!(events[events.len() - 1] is AverageTogglePressed));
        lemma_show_average_kept(s, prev);
    }
}

proof fn lemma_kept_wf(h: Seq<AverageView>, name: Seq<char>)
    requires
        crate::aggregate::all_wf(h),
    ensures
        kept_average(h, name).wf(),
        kept_average(h, name).name == name,
{
    let names = average_view_names(h);
    if names.contains(name) {
        let i = index_of(names, name);
        assert(h[i].wf());
        assert(names[i] == name);
    }
}

} // verus!
