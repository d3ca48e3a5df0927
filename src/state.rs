use vstd::prelude::*;

use crate::aggregate::{
    all_wf, fold_latency, kept_average, kept_response, folded, reload_history, reload_sites, reloaded_history, reloaded_sites,
    upsert_response, upserted,
};
use crate::config::{parse_seconds, seconds_of, Payload};
use crate::model::{
    index_of, max_latency, average_view_names, averages_view, register, register_sites, response_view_names,
    responses_view, site_view_names, sites_view, start_history, unique_names, AverageView,
    OutcomeView, PingResponse, ProbeOutcome, ResponseView, SiteAddress, SiteAverage, SiteView,
};

verus! {

/// The settings a round is dispatched with: the reply timeout in seconds and
/// the payload size class.
#[derive(Clone, Copy, Debug, PartialEq, Eq, Structural)]
pub struct RoundConfig {
    pub timeout: u32,
    pub payload: Payload,
}

/// Messages from the state machine to the probing side.
pub enum TokioEvent {
    /// The target set was replaced by this one.
    RefreshSites(Vec<SiteAddress>),
    /// A round is due, with the settings of the moment it fired.
    TimerElapsed(RoundConfig),
}

/// The value of a `TokioEvent`.
pub enum CommandView {
    RefreshSites(Seq<SiteView>),
    TimerElapsed(RoundConfig),
}

impl View for TokioEvent {
    type V = CommandView;

    open spec fn view(&self) -> CommandView {
        match self {
            TokioEvent::RefreshSites(l) => CommandView::RefreshSites(sites_view(l@)),
            TokioEvent::TimerElapsed(c) => CommandView::TimerElapsed(*c),
        }
    }
}

pub open spec fn commands_view(s: Seq<TokioEvent>) -> Seq<CommandView> {
    s.map_values(|c: TokioEvent| c@)
}

/// Events handled by the state machine.
pub enum ViziaEvent {
    /// One second of the countdown has passed.
    TimerIncrement,
    /// Start a round now and restart the countdown.
    TimerReset,
    /// An outcome for a target arrived.
    PingResponse(PingResponse),
    /// Show or hide the settings.
    MenuTogglePressed,
    /// A new refresh interval was entered, as text.
    TimerDurationChanged(String),
    /// A new timeout was entered, as text.
    TimeoutDurationChanged(String),
    /// A payload size class was picked.
    PayloadChanged(Payload),
    /// The target list was loaded again; it may name a target twice.
    RefreshSites(Vec<SiteAddress>),
    /// Switch between latest outcomes and running averages.
    AverageTogglePressed,
}

/// The value of a `ViziaEvent`.
pub enum EventView {
    TimerIncrement,
    TimerReset,
    PingResponse(ResponseView),
    MenuTogglePressed,
    TimerDurationChanged(Seq<char>),
    TimeoutDurationChanged(Seq<char>),
    PayloadChanged(Payload),
    RefreshSites(Seq<SiteView>),
    AverageTogglePressed,
}

impl View for ViziaEvent {
    type V = EventView;

    open spec fn view(&self) -> EventView {
        match self {
            ViziaEvent::TimerIncrement => EventView::TimerIncrement,
            ViziaEvent::TimerReset => EventView::TimerReset,
            ViziaEvent::PingResponse(r) => EventView::PingResponse(r@),
            ViziaEvent::MenuTogglePressed => EventView::MenuTogglePressed,
            ViziaEvent::TimerDurationChanged(t) => EventView::TimerDurationChanged(t@),
            ViziaEvent::TimeoutDurationChanged(t) => EventView::TimeoutDurationChanged(t@),
            ViziaEvent::PayloadChanged(p) => EventView::PayloadChanged(*p),
            ViziaEvent::RefreshSites(l) => EventView::RefreshSites(sites_view(l@)),
            ViziaEvent::AverageTogglePressed => EventView::AverageTogglePressed,
        }
    }
}

/// The state of the monitor: the latest state of each target, the countdown
/// to the next round, the settings, and the running averages.
pub struct AppData {
    pub sites: Vec<PingResponse>,
    pub timer_count: u32,
    pub timer_duration: u32,
    pub menu_visible: bool,
    pub show_average: bool,
    pub history: Vec<SiteAverage>,
    pub payload: Payload,
    pub timeout: u32,
}

/// The value of an `AppData`.
pub struct AppView {
    pub sites: Seq<ResponseView>,
    pub timer_count: u32,
    pub timer_duration: u32,
    pub menu_visible: bool,
    pub show_average: bool,
    pub history: Seq<AverageView>,
    pub payload: Payload,
    pub timeout: u32,
}

impl View for AppData {
    type V = AppView;

    open spec fn view(&self) -> AppView {
        AppView {
            sites: responses_view(self.sites@),
            timer_count: self.timer_count,
            timer_duration: self.timer_duration,
            menu_visible: self.menu_visible,
            show_average: self.show_average,
            history: averages_view(self.history@),
            payload: self.payload,
            timeout: self.timeout,
        }
    }
}

impl AppView {
    /// Interval and timeout are positive, a round is at least a second away,
    /// names are unique, and every running average is consistent.
    pub open spec fn wf(self) -> bool {
        &&& self.timer_duration >= 1
        &&& self.timeout >= 1
        &&& self.timer_count >= 1
        &&& unique_names(response_view_names(self.sites))
        &&& unique_names(average_view_names(self.history))
        &&& all_wf(self.history)
    }

    /// The settings a round fired now would use.
    pub open spec fn config(self) -> RoundConfig {
        RoundConfig { timeout: self.timeout, payload: self.payload }
    }
}

/// A round fires: the countdown restarts from the full interval.
pub open spec fn fire(s: AppView) -> (AppView, Seq<CommandView>) {
    (AppView { timer_count: s.timer_duration, ..s }, seq![CommandView::TimerElapsed(s.config())])
}

/// A fresh running average for each target state.
pub open spec fn fresh_history(sites: Seq<ResponseView>) -> Seq<AverageView> {
    response_view_names(sites).map_values(|n: Seq<char>| AverageView::empty(n))
}

/// What one event does to the state, and the messages it sends.
pub open spec fn step(s: AppView, e: EventView) -> (AppView, Seq<CommandView>) {
    match e {
        EventView::TimerIncrement => {
            if s.timer_count <= 1 {
                fire(s)
            } else {
                (AppView { timer_count: (s.timer_count - 1) as u32, ..s }, seq![])
            }
        },
        EventView::TimerReset => fire(s),
        EventView::PingResponse(r) => {
            let history = match r.response {
                Some(OutcomeView::Success(l)) => if s.show_average {
                    folded(s.history, r.name, l)
                } else {
                    s.history
                },
                _ => s.history,
            };
            (AppView { sites: upserted(s.sites, r), history, ..s }, seq![])
        },
        EventView::MenuTogglePressed => (AppView { menu_visible: !s.menu_visible, ..s }, seq![]),
        EventView::TimerDurationChanged(t) => match seconds_of(t) {
            Some(v) => (AppView { timer_duration: v, ..s }, seq![]),
            None => (s, seq![]),
        },
        EventView::TimeoutDurationChanged(t) => match seconds_of(t) {
            Some(v) => (AppView { timeout: v, ..s }, seq![]),
            None => (s, seq![]),
        },
        EventView::PayloadChanged(p) => (AppView { payload: p, ..s }, seq![]),
        EventView::RefreshSites(l) => {
            let targets = register(l);
            let f = fire(
                AppView {
                    sites: reloaded_sites(s.sites, targets),
                    history: reloaded_history(s.history, targets),
                    ..s
                },
            );
            (f.0, seq![CommandView::RefreshSites(targets)] + f.1)
        },
        EventView::AverageTogglePressed => (
            AppView { history: fresh_history(s.sites), show_average: !s.show_average, ..s },
            seq![],
        ),
    }
}

proof fn lemma_register_unique(l: Seq<SiteView>)
    ensures
        unique_names(site_view_names(register(l))),
    decreases l.len(),
{
    if l.len() > 0 {
        let prev = register(l.drop_last());
        let x = l.last();
        let names = site_view_names(prev);
        lemma_register_unique(l.drop_last());
        if names.contains(x.name) {
            let i = index_of(names, x.name);
            assert(site_view_names(prev.update(i, x)) =~= names);
        } else {
            assert(site_view_names(prev.push(x)) =~= names.push(x.name));
        }
    } else {
        assert(site_view_names(register(l)) =~= seq![]);
    }
}

proof fn lemma_added_wf(a: AverageView, latency: u64)
    requires
        a.wf(),
        a.len < u64::MAX,
    ensures
        a.added(latency as int).wf(),
{
    assert(a.sum + latency <= (a.len + 1) * max_latency()) by (nonlinear_arith)
        requires
            a.sum <= a.len * max_latency(),
            latency <= max_latency(),
    ;
}

pub proof fn lemma_folded_wf(h: Seq<AverageView>, name: Seq<char>, latency: u64)
    requires
        unique_names(average_view_names(h)),
        all_wf(h),
    ensures
        unique_names(average_view_names(folded(h, name, latency))),
        all_wf(folded(h, name, latency)),
{
    let names = average_view_names(h);
    if names.contains(name) {
        let i = index_of(names, name);
        if h[i].len < u64::MAX {
            lemma_added_wf(h[i], latency);
            assert(average_view_names(h.update(i, h[i].added(latency as int))) =~= names);
        }
    } else {
        lemma_added_wf(AverageView::empty(name), latency);
        assert(average_view_names(folded(h, name, latency)) =~= names.push(name));
    }
}

proof fn lemma_upserted_unique(s: Seq<ResponseView>, r: ResponseView)
    requires
        unique_names(response_view_names(s)),
    ensures
        unique_names(response_view_names(upserted(s, r))),
{
    let names = response_view_names(s);
    if names.contains(r.name) {
        let i = index_of(names, r.name);
        assert(response_view_names(s.update(i, r)) =~= names);
    } else {
        assert(response_view_names(s.push(r)) =~= names.push(r.name));
    }
}

proof fn lemma_reloaded_names(s: Seq<ResponseView>, h: Seq<AverageView>, targets: Seq<SiteView>)
    requires
        all_wf(h),
    ensures
        response_view_names(reloaded_sites(s, targets)) == site_view_names(targets),
        average_view_names(reloaded_history(h, targets)) == site_view_names(targets),
        all_wf(reloaded_history(h, targets)),
{
    assert forall|k: int| 0 <= k < targets.len() implies #[trigger] kept_response(s, targets[k].name).name
        == targets[k].name && kept_average(h, targets[k].name).name == targets[k].name
        && kept_average(h, targets[k].name).wf() by {
        let n = targets[k].name;
        let rn = response_view_names(s);
        if rn.contains(n) {
            let i = index_of(rn, n);
            assert(rn[i] == n);
        }
        let an = average_view_names(h);
        if an.contains(n) {
            let i = index_of(an, n);
            assert(an[i] == n);
            assert(h[i].wf());
        }
    }
    assert(response_view_names(reloaded_sites(s, targets)) =~= site_view_names(targets));
    assert(average_view_names(reloaded_history(h, targets)) =~= site_view_names(targets));
}

/// Every event keeps the state well formed; in particular each running
/// average stays the mean of its samples.
pub proof fn lemma_step_wf(s: AppView, e: EventView)
    requires
        s.wf(),
    ensures
        step(s, e).0.wf(),
{
    match e {
        EventView::PingResponse(r) => {
            lemma_upserted_unique(s.sites, r);
            match r.response {
                Some(OutcomeView::Success(l)) => {
                    lemma_folded_wf(s.history, r.name, l);
                },
                _ => {},
            }
        },
        EventView::RefreshSites(l) => {
            lemma_register_unique(l);
            lemma_reloaded_names(s.sites, s.history, register(l));
        },
        EventView::AverageTogglePressed => {
            assert(average_view_names(fresh_history(s.sites)) =~= response_view_names(s.sites));
        },
        _ => {},
    }
}

impl AppData {
    pub open spec fn wf(&self) -> bool {
        self@.wf()
    }

    /// The settings a round fired now would use.
    pub fn config(&self) -> (r: RoundConfig)
        ensures
            r == self@.config(),
    {
        RoundConfig { timeout: self.timeout, payload: self.payload }
    }

    /// The state at start-up for a target list: no outcomes yet, averaging
    /// off, a 30 second interval, a 4 second timeout and the smallest payload.
    pub fn new(sites: Vec<SiteAddress>) -> (r: AppData)
        ensures
            r.wf(),
            r@.sites == reloaded_sites(seq![], register(sites_view(sites@))),
            r@.history == fresh_history(r@.sites),
            r@.timer_count == 30,
            r@.timer_duration == 30,
            r@.timeout == 4,
            r@.payload == Payload::Tiny,
            !r@.menu_visible,
            !r@.show_average,
    {
        let targets = register_sites(sites);
        let none: Vec<PingResponse> = Vec::new();
        proof {
            assert(response_view_names(responses_view(none@)) =~= seq![]);
        }
        let sites = reload_sites(&none, &targets);
        let history = start_history(&sites);
        let r = AppData {
            sites,
            timer_count: 30,
            timer_duration: 30,
            menu_visible: false,
            show_average: false,
            history,
            payload: Payload::Tiny,
            timeout: 4,
        };
        proof {
            assert(responses_view(none@) =~= seq![]);
            lemma_reloaded_names(seq![], seq![], sites_view(targets@));
            assert(averages_view(r.history@) =~= fresh_history(r@.sites));
            assert(average_view_names(fresh_history(r@.sites)) =~= response_view_names(r@.sites));
            assert forall|i: int| 0 <= i < r@.history.len() implies (#[trigger] r@.history[i]).wf() by {
                assert(r.history@[i].wf());
            }
        }
        r
    }

    fn fire(&mut self) -> (c: TokioEvent)
        ensures
            final(self)@ == fire(old(self)@).0,
            seq![c@] == fire(old(self)@).1,
    {
        self.timer_count = self.timer_duration;
        TokioEvent::TimerElapsed(RoundConfig { timeout: self.timeout, payload: self.payload })
    }

    /// Handles one event: updates the state as `step` says and returns the
    /// messages for the probing side.
    pub fn event(&mut self, event: ViziaEvent) -> (out: Vec<TokioEvent>)
        requires
            old(self).wf(),
        ensures
            final(self).wf(),
            final(self)@ == step(old(self)@, event@).0,
            commands_view(out@) == step(old(self)@, event@).1,
    {
        proof {
            lemma_step_wf(self@, event@);
        }
        let ghost pre = self@;
        let mut out: Vec<TokioEvent> = Vec::new();
        match event {
            ViziaEvent::TimerIncrement => {
                self.timer_count = self.timer_count - 1;
                if self.timer_count == 0 {
                    let c = self.fire();
                    out.push(c);
                }
            },
            ViziaEvent::TimerReset => {
                let c = self.fire();
                out.push(c);
            },
            ViziaEvent::PingResponse(response) => {
                if self.show_average {
                    if let Some(ProbeOutcome::Success(l)) = &response.response {
                        fold_latency(&mut self.history, &response.name, *l);
                    }
                }
                upsert_response(&mut self.sites, response);
            },
            ViziaEvent::MenuTogglePressed => {
                self.menu_visible = !self.menu_visible;
            },
            ViziaEvent::TimerDurationChanged(t) => {
                if let Some(v) = parse_seconds(t.as_str()) {
                    self.timer_duration = v;
                }
            },
            ViziaEvent::TimeoutDurationChanged(t) => {
                if let Some(v) = parse_seconds(t.as_str()) {
                    self.timeout = v;
                }
            },
            ViziaEvent::PayloadChanged(p) => {
                self.payload = p;
            },
            ViziaEvent::RefreshSites(list) => {
                let targets = register_sites(list);
                let sites = reload_sites(&self.sites, &targets);
                let history = reload_history(&self.history, &targets);
                self.sites = sites;
                self.history = history;
                out.push(TokioEvent::RefreshSites(targets));
                let c = self.fire();
                out.push(c);
            },
            ViziaEvent::AverageTogglePressed => {
                self.history = start_history(&self.sites);
                self.show_average = !self.show_average;
            },
        }
        proof {
            assert(commands_view(out@) =~= step(pre, event@).1);
            assert(self@ == step(pre, event@).0);
        }
        out
    }
}

} // verus!
