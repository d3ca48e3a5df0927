use vstd::prelude::*;

use crate::model::{
    average_view_names, averages_view, find_by_name, index_of, lemma_index_of,
    response_view_names, responses_view, sites_view, unique_names, unprobed,
    AverageView, Named, PingResponse, ProbeOutcome, ResponseView, SiteAddress, SiteAverage, SiteView,
};

verus! {

/// The target states after an outcome for `r.name` arrives: the entry of that
/// name is replaced, or added at the end when there is none.
pub open spec fn upserted(s: Seq<ResponseView>, r: ResponseView) -> Seq<ResponseView> {
    let names = response_view_names(s);
    if names.contains(r.name) {
        s.update(index_of(names, r.name), r)
    } else {
        s.push(r)
    }
}

/// The running averages after a success of `latency` nanoseconds for `name`.
/// An entry that already holds `u64::MAX` samples stays as it is.
pub open spec fn folded(h: Seq<AverageView>, name: Seq<char>, latency: u64) -> Seq<AverageView> {
    let names = average_view_names(h);
    if names.contains(name) {
        let i = index_of(names, name);
        if h[i].len < u64::MAX {
            h.update(i, h[i].added(latency as int))
        } else {
            h
        }
    } else {
        h.push(AverageView::empty(name).added(latency as int))
    }
}

/// The state kept for `name`, or a state with no outcome.
pub open spec fn kept_response(s: Seq<ResponseView>, name: Seq<char>) -> ResponseView {
    let names = response_view_names(s);
    if names.contains(name) {
        s[index_of(names, name)]
    } else {
        unprobed(name)
    }
}

/// The running average kept for `name`, or a fresh one.
pub open spec fn kept_average(h: Seq<AverageView>, name: Seq<char>) -> AverageView {
    let names = average_view_names(h);
    if names.contains(name) {
        h[index_of(names, name)]
    } else {
        AverageView::empty(name)
    }
}

/// After a reload: one state per registered target, in registry order; the
/// state of a target that stays registered is kept, the others are dropped.
pub open spec fn reloaded_sites(s: Seq<ResponseView>, targets: Seq<SiteView>) -> Seq<ResponseView> {
    targets.map_values(|t: SiteView| kept_response(s, t.name))
}

/// After a reload: one running average per registered target, kept where the
/// target stays registered.
pub open spec fn reloaded_history(h: Seq<AverageView>, targets: Seq<SiteView>) -> Seq<AverageView> {
    targets.map_values(|t: SiteView| kept_average(h, t.name))
}

/// Every running average is consistent.
pub open spec fn all_wf(h: Seq<AverageView>) -> bool {
    forall|i: int| 0 <= i < h.len() ==> (#[trigger] h[i]).wf()
}

fn copy_outcome(o: &ProbeOutcome) -> (r: ProbeOutcome)
    ensures
        r@ == o@,
{
    match o {
        ProbeOutcome::Success(l) => ProbeOutcome::Success(*l),
        ProbeOutcome::Timeout => ProbeOutcome::Timeout,
        ProbeOutcome::TransportError(m) => ProbeOutcome::TransportError(m.clone()),
    }
}

fn copy_response(p: &PingResponse) -> (r: PingResponse)
    ensures
        r@ == p@,
{
    let response = match &p.response {
        Some(o) => Some(copy_outcome(o)),
        None => None,
    };
    PingResponse { name: p.name.clone(), response }
}

fn copy_average(a: &SiteAverage) -> (r: SiteAverage)
    ensures
        r@ == a@,
{
    SiteAverage { name: a.name.clone(), sum: a.sum, avg: a.avg, len: a.len }
}

/// Records the latest outcome of a target.
pub fn upsert_response(sites: &mut Vec<PingResponse>, r: PingResponse)
    requires
        unique_names(response_view_names(responses_view(old(sites)@))),
    ensures
        responses_view(final(sites)@) == upserted(responses_view(old(sites)@), r@),
        unique_names(response_view_names(responses_view(final(sites)@))),
{
    let ghost pre = responses_view(sites@);
    let ghost names = response_view_names(pre);
    let ghost rv = r@;
    match find_by_name(sites, &r.name) {
        Some(i) => {
            proof {
                assert(names[i as int] == rv.name);
                lemma_index_of(names, rv.name, i as int);
            }
            sites.set(i, r);
            proof {
                assert(responses_view(sites@) =~= pre.update(i as int, rv));
                assert(response_view_names(responses_view(sites@)) =~= names);
            }
        },
        None => {
            proof {
                assert forall|k: int| 0 <= k < names.len() implies names[k] != rv.name by {
                    assert(old(sites)@[k].key() != rv.name);
                }
            }
            sites.push(r);
            proof {
                assert(responses_view(sites@) =~= pre.push(rv));
                assert(response_view_names(responses_view(sites@)) =~= names.push(rv.name));
            }
        },
    }
}

/// Folds a success of `latency` nanoseconds for `name` into the running averages.
pub fn fold_latency(history: &mut Vec<SiteAverage>, name: &String, latency: u64)
    requires
        unique_names(average_view_names(averages_view(old(history)@))),
        all_wf(averages_view(old(history)@)),
    ensures
        averages_view(final(history)@) == folded(averages_view(old(history)@), name@, latency),
        unique_names(average_view_names(averages_view(final(history)@))),
        all_wf(averages_view(final(history)@)),
{
    let ghost pre = averages_view(history@);
    let ghost names = average_view_names(pre);
    match find_by_name(history, name) {
        Some(i) => {
            proof {
                assert(names[i as int] == name@);
                lemma_index_of(names, name@, i as int);
                assert(pre[i as int].wf());
            }
            if history[i].len < u64::MAX {
                let mut a = copy_average(&history[i]);
                a.add(latency);
                let ghost av = a@;
                history.set(i, a);
                proof {
                    assert(averages_view(history@) =~= pre.update(i as int, av));
                    assert(average_view_names(averages_view(history@)) =~= names);
                }
            }
        },
        None => {
            proof {
                assert forall|k: int| 0 <= k < names.len() implies names[k] != name@ by {
                    assert(old(history)@[k].key() != name@);
                }
            }
            let mut a = SiteAverage::new(name.clone());
            a.add(latency);
            let ghost av = a@;
            history.push(a);
            proof {
                assert(averages_view(history@) =~= pre.push(av));
                assert(average_view_names(averages_view(history@)) =~= names.push(name@));
            }
        },
    }
}

/// The target states for a new target set.
pub fn reload_sites(sites: &Vec<PingResponse>, targets: &Vec<SiteAddress>) -> (r: Vec<PingResponse>)
    requires
        unique_names(response_view_names(responses_view(sites@))),
    ensures
        responses_view(r@) == reloaded_sites(responses_view(sites@), sites_view(targets@)),
{
    let ghost pre = responses_view(sites@);
    let ghost names = response_view_names(pre);
    let mut r: Vec<PingResponse> = Vec::new();
    let mut i: usize = 0;
    while i < targets.len()
        invariant
            i <= targets@.len(),
            pre == responses_view(sites@),
            names == response_view_names(pre),
            unique_names(names),
            responses_view(r@) == reloaded_sites(pre, sites_view(targets@).take(i as int)),
        decreases targets@.len() - i,
    {
        let name = &targets[i].name;
        let p = match find_by_name(sites, name) {
            Some(j) => {
                proof {
                    assert(names[j as int] == name@);
                    lemma_index_of(names, name@, j as int);
                }
                copy_response(&sites[j])
            },
            None => {
                proof {
                    assert forall|k: int| 0 <= k < names.len() implies names[k] != name@ by {
                        assert(sites@[k].key() != name@);
                    }
                }
                PingResponse { name: name.clone(), response: None }
            },
        };
        let ghost before = r@;
        r.push(p);
        proof {
            assert(sites_view(targets@).take(i + 1) =~= sites_view(targets@).take(i as int).push(
                targets@[i as int]@,
            ));
            assert(responses_view(r@) =~= responses_view(before).push(p@));
            assert(responses_view(r@) =~= reloaded_sites(pre, sites_view(targets@).take(i + 1)));
        }
        i = i + 1;
    }
    proof {
        assert(sites_view(targets@).take(i as int) =~= sites_view(targets@));
    }
    r
}

/// The running averages for a new target set.
pub fn reload_history(history: &Vec<SiteAverage>, targets: &Vec<SiteAddress>) -> (r: Vec<SiteAverage>)
    requires
        unique_names(average_view_names(averages_view(history@))),
    ensures
        averages_view(r@) == reloaded_history(averages_view(history@), sites_view(targets@)),
{
    let ghost pre = averages_view(history@);
    let ghost names = average_view_names(pre);
    let mut r: Vec<SiteAverage> = Vec::new();
    let mut i: usize = 0;
    while i < targets.len()
        invariant
            i <= targets@.len(),
            pre == averages_view(history@),
            names == average_view_names(pre),
            unique_names(names),
            averages_view(r@) == reloaded_history(pre, sites_view(targets@).take(i as int)),
        decreases targets@.len() - i,
    {
        let name = &targets[i].name;
        let a = match find_by_name(history, name) {
            Some(j) => {
                proof {
                    assert(names[j as int] == name@);
                    lemma_index_of(names, name@, j as int);
                }
                copy_average(&history[j])
            },
            None => {
                proof {
                    assert forall|k: int| 0 <= k < names.len() implies names[k] != name@ by {
                        assert(history@[k].key() != name@);
                    }
                }
                SiteAverage::new(name.clone())
            },
        };
        let ghost before = r@;
        r.push(a);
        proof {
            assert(sites_view(targets@).take(i + 1) =~= sites_view(targets@).take(i as int).push(
                targets@[i as int]@,
            ));
            assert(averages_view(r@) =~= averages_view(before).push(a@));
            assert(averages_view(r@) =~= reloaded_history(pre, sites_view(targets@).take(i + 1)));
        }
        i = i + 1;
    }
    proof {
        assert(sites_view(targets@).take(i as int) =~= sites_view(targets@));
    }
    r
}

} // verus!
