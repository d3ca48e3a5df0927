use site_monitor::config::{index_to_payload, parse_seconds, Payload};
use site_monitor::model::{
    register_sites, sites_to_pings, start_history, IpAddress, PingResponse, ProbeOutcome,
    SiteAddress, SiteAverage,
};
use site_monitor::state::{AppData, RoundConfig, TokioEvent, ViziaEvent};
use site_monitor::worker::{plan_round, Dispatch, Worker};

fn site(name: &str, addr: IpAddress) -> SiteAddress {
    SiteAddress { name: name.to_string(), addr }
}

fn v4(a: u8, b: u8, c: u8, d: u8) -> IpAddress {
    IpAddress::V4([a, b, c, d])
}

fn v6_loopback() -> IpAddress {
    IpAddress::V6([0, 0, 0, 0, 0, 0, 0, 1])
}

fn response(name: &str, outcome: ProbeOutcome) -> PingResponse {
    PingResponse { name: name.to_string(), response: Some(outcome) }
}

fn state_of<'a>(data: &'a AppData, name: &str) -> &'a PingResponse {
    data.sites.iter().find(|s| s.name == name).expect("target state")
}

fn average_of<'a>(data: &'a AppData, name: &str) -> &'a SiteAverage {
    data.history.iter().find(|h| h.name == name).expect("running average")
}

fn is_round(c: &TokioEvent, timeout: u32, payload: Payload) -> bool {
    matches!(c, TokioEvent::TimerElapsed(cfg) if *cfg == RoundConfig { timeout, payload })
}

#[test]
fn site_average_new_is_empty() {
    let a = SiteAverage::new("A".to_string());
    assert_eq!(a.name, "A");
    assert_eq!((a.sum, a.avg, a.len), (0, 0, 0));
}

#[test]
fn site_average_add_keeps_mean() {
    let mut a = SiteAverage::new("A".to_string());
    a.add(10);
    assert_eq!((a.sum, a.avg, a.len), (10, 10, 1));
    a.add(25);
    assert_eq!((a.sum, a.avg, a.len), (35, 17, 2));
    a.add(u64::MAX);
    assert_eq!(a.sum, 35 + u64::MAX as u128);
    assert_eq!(a.avg, ((35 + u64::MAX as u128) / 3) as u64);
    assert_eq!(a.len, 3);
}

#[test]
fn site_average_clear_resets() {
    let mut a = SiteAverage::new("A".to_string());
    a.add(7);
    a.add(9);
    a.clear();
    assert_eq!(a.name, "A");
    assert_eq!((a.sum, a.avg, a.len), (0, 0, 0));
}

#[test]
fn sites_to_pings_has_no_outcomes() {
    let pings = sites_to_pings(vec![site("A", v4(127, 0, 0, 1)), site("B", v6_loopback())]);
    assert_eq!(pings.len(), 2);
    assert_eq!(pings[0].name, "A");
    assert_eq!(pings[1].name, "B");
    assert!(pings.iter().all(|p| p.response.is_none() && p.is_err()));
}

#[test]
fn start_history_one_per_site() {
    let pings = sites_to_pings(vec![site("A", v4(127, 0, 0, 1)), site("B", v6_loopback())]);
    let h = start_history(&pings);
    assert_eq!(h.len(), 2);
    assert_eq!(h[0].name, "A");
    assert_eq!(h[1].name, "B");
    assert!(h.iter().all(|a| a.len == 0 && a.sum == 0 && a.avg == 0));
}

#[test]
fn register_sites_last_write_wins() {
    let r = register_sites(vec![
        site("A", v4(10, 0, 0, 1)),
        site("B", v4(10, 0, 0, 2)),
        site("A", v4(10, 0, 0, 3)),
    ]);
    assert_eq!(r.len(), 2);
    assert_eq!(r[0].name, "A");
    assert!(matches!(r[0].addr, IpAddress::V4([10, 0, 0, 3])));
    assert_eq!(r[1].name, "B");
    assert!(matches!(r[1].addr, IpAddress::V4([10, 0, 0, 2])));
}

#[test]
fn register_sites_empty() {
    assert!(register_sites(Vec::new()).is_empty());
}

#[test]
fn parse_seconds_accepts_positive_integers() {
    assert_eq!(parse_seconds("30"), Some(30));
    assert_eq!(parse_seconds("1"), Some(1));
    assert_eq!(parse_seconds("007"), Some(7));
    assert_eq!(parse_seconds("4294967295"), Some(u32::MAX));
}

#[test]
fn parse_seconds_rejects_invalid() {
    assert_eq!(parse_seconds(""), None);
    assert_eq!(parse_seconds("0"), None);
    assert_eq!(parse_seconds("000"), None);
    assert_eq!(parse_seconds("-5"), None);
    assert_eq!(parse_seconds(" 5"), None);
    assert_eq!(parse_seconds("5s"), None);
    assert_eq!(parse_seconds("abc"), None);
    assert_eq!(parse_seconds("4294967296"), None);
    assert_eq!(parse_seconds("99999999999999999999"), None);
    assert_eq!(parse_seconds("\u{663}"), None);
}

#[test]
fn payload_classes_in_order() {
    let expected = [
        (Payload::Tiny, 16, "Tiny"),
        (Payload::Small, 64, "Small"),
        (Payload::Medium, 256, "Medium"),
        (Payload::Large, 1024, "Large"),
        (Payload::Huge, 4096, "Huge"),
        (Payload::Giant, 16384, "Giant"),
    ];
    for (i, (p, size, label)) in expected.iter().enumerate() {
        let got = index_to_payload(i);
        assert_eq!(got, *p);
        assert_eq!(got.size(), *size);
        assert_eq!(got.label(), *label);
        let bytes = got.bytes();
        assert_eq!(bytes.len(), *size);
        assert!(bytes.iter().all(|b| *b == 0));
    }
}

#[test]
fn new_state_defaults() {
    let data = AppData::new(vec![site("A", v4(127, 0, 0, 1)), site("A", v6_loopback())]);
    assert_eq!(data.sites.len(), 1);
    assert_eq!(data.history.len(), 1);
    assert_eq!(data.timer_count, 30);
    assert_eq!(data.timer_duration, 30);
    assert_eq!(data.timeout, 4);
    assert_eq!(data.payload, Payload::Tiny);
    assert!(!data.menu_visible);
    assert!(!data.show_average);
    assert_eq!(data.config(), RoundConfig { timeout: 4, payload: Payload::Tiny });
}

#[test]
fn countdown_fires_at_zero_and_restarts() {
    let mut data = AppData::new(vec![site("A", v4(127, 0, 0, 1))]);
    for remaining in (1..30).rev() {
        assert!(data.event(ViziaEvent::TimerIncrement).is_empty());
        assert_eq!(data.timer_count, remaining);
    }
    let out = data.event(ViziaEvent::TimerIncrement);
    assert_eq!(out.len(), 1);
    assert!(is_round(&out[0], 4, Payload::Tiny));
    assert_eq!(data.timer_count, 30);
}

#[test]
fn manual_trigger_fires_and_resets_countdown() {
    let mut data = AppData::new(vec![site("A", v4(127, 0, 0, 1))]);
    for _ in 0..12 {
        data.event(ViziaEvent::TimerIncrement);
    }
    assert_eq!(data.timer_count, 18);
    let out = data.event(ViziaEvent::TimerReset);
    assert_eq!(out.len(), 1);
    assert!(is_round(&out[0], 4, Payload::Tiny));
    assert_eq!(data.timer_count, 30);
}

#[test]
fn interval_change_applies_to_next_round() {
    let mut data = AppData::new(vec![site("A", v4(127, 0, 0, 1))]);
    data.event(ViziaEvent::TimerIncrement);
    assert!(data.event(ViziaEvent::TimerDurationChanged("5".to_string())).is_empty());
    assert_eq!(data.timer_duration, 5);
    assert_eq!(data.timer_count, 29);
    let out = data.event(ViziaEvent::TimerReset);
    assert!(is_round(&out[0], 4, Payload::Tiny));
    assert_eq!(data.timer_count, 5);
}

#[test]
fn timeout_change_applies_to_next_round() {
    let mut data = AppData::new(vec![site("A", v4(127, 0, 0, 1))]);
    let first = data.event(ViziaEvent::TimerReset);
    assert!(data.event(ViziaEvent::TimeoutDurationChanged("9".to_string())).is_empty());
    assert!(data.event(ViziaEvent::PayloadChanged(Payload::Huge)).is_empty());
    assert!(is_round(&first[0], 4, Payload::Tiny));
    assert_eq!(data.timer_count, 30);
    let second = data.event(ViziaEvent::TimerReset);
    assert!(is_round(&second[0], 9, Payload::Huge));
}

#[test]
fn invalid_settings_keep_previous_values() {
    let mut data = AppData::new(vec![site("A", v4(127, 0, 0, 1))]);
    data.event(ViziaEvent::TimerDurationChanged("0".to_string()));
    data.event(ViziaEvent::TimerDurationChanged("ten".to_string()));
    data.event(ViziaEvent::TimeoutDurationChanged("-1".to_string()));
    data.event(ViziaEvent::TimeoutDurationChanged("".to_string()));
    assert_eq!(data.timer_duration, 30);
    assert_eq!(data.timeout, 4);
}

#[test]
fn menu_toggle_flips() {
    let mut data = AppData::new(Vec::new());
    data.event(ViziaEvent::MenuTogglePressed);
    assert!(data.menu_visible);
    data.event(ViziaEvent::MenuTogglePressed);
    assert!(!data.menu_visible);
}

#[test]
fn response_upserts_by_name() {
    let mut data = AppData::new(vec![site("A", v4(127, 0, 0, 1)), site("B", v6_loopback())]);
    data.event(ViziaEvent::PingResponse(response("B", ProbeOutcome::Success(1_500_000))));
    assert_eq!(data.sites.len(), 2);
    assert!(matches!(state_of(&data, "B").response, Some(ProbeOutcome::Success(1_500_000))));
    assert!(!state_of(&data, "B").is_err());
    assert!(state_of(&data, "A").response.is_none());
    data.event(ViziaEvent::PingResponse(response("B", ProbeOutcome::Timeout)));
    assert_eq!(data.sites.len(), 2);
    assert!(matches!(state_of(&data, "B").response, Some(ProbeOutcome::Timeout)));
    assert!(state_of(&data, "B").is_err());
    data.event(ViziaEvent::PingResponse(response("Z", ProbeOutcome::TransportError("down".to_string()))));
    assert_eq!(data.sites.len(), 3);
    assert_eq!(data.sites[2].name, "Z");
}

#[test]
fn averaging_counts_only_successes() {
    let mut data = AppData::new(vec![site("A", v4(127, 0, 0, 1)), site("B", v6_loopback())]);
    data.event(ViziaEvent::AverageTogglePressed);
    assert!(data.show_average);
    data.event(ViziaEvent::PingResponse(response("A", ProbeOutcome::Success(100))));
    data.event(ViziaEvent::PingResponse(response("A", ProbeOutcome::Timeout)));
    data.event(ViziaEvent::PingResponse(response("A", ProbeOutcome::Success(300))));
    data.event(ViziaEvent::PingResponse(response("A", ProbeOutcome::TransportError("x".to_string()))));
    data.event(ViziaEvent::PingResponse(response("B", ProbeOutcome::Timeout)));
    let a = average_of(&data, "A");
    assert_eq!((a.sum, a.len, a.avg), (400, 2, 200));
    let b = average_of(&data, "B");
    assert_eq!((b.sum, b.len, b.avg), (0, 0, 0));
}

#[test]
fn averaging_off_ignores_successes() {
    let mut data = AppData::new(vec![site("A", v4(127, 0, 0, 1))]);
    data.event(ViziaEvent::PingResponse(response("A", ProbeOutcome::Success(100))));
    let a = average_of(&data, "A");
    assert_eq!((a.sum, a.len, a.avg), (0, 0, 0));
}

#[test]
fn averaging_creates_missing_entry() {
    let mut data = AppData::new(Vec::new());
    data.event(ViziaEvent::AverageTogglePressed);
    data.event(ViziaEvent::PingResponse(response("N", ProbeOutcome::Success(42))));
    let n = average_of(&data, "N");
    assert_eq!((n.sum, n.len, n.avg), (42, 1, 42));
}

#[test]
fn toggle_off_and_on_resets_averages() {
    let mut data = AppData::new(vec![site("A", v4(127, 0, 0, 1)), site("B", v6_loopback())]);
    data.event(ViziaEvent::AverageTogglePressed);
    data.event(ViziaEvent::PingResponse(response("A", ProbeOutcome::Success(100))));
    data.event(ViziaEvent::PingResponse(response("B", ProbeOutcome::Success(50))));
    data.event(ViziaEvent::AverageTogglePressed);
    data.event(ViziaEvent::AverageTogglePressed);
    assert!(data.show_average);
    assert_eq!(data.history.len(), 2);
    assert!(data.history.iter().all(|h| h.sum == 0 && h.len == 0 && h.avg == 0));
}

#[test]
fn reload_keeps_registered_and_drops_removed() {
    let mut data = AppData::new(vec![site("A", v4(127, 0, 0, 1)), site("B", v6_loopback())]);
    data.event(ViziaEvent::AverageTogglePressed);
    data.event(ViziaEvent::PingResponse(response("A", ProbeOutcome::Success(80))));
    data.event(ViziaEvent::PingResponse(response("B", ProbeOutcome::Timeout)));
    for _ in 0..10 {
        data.event(ViziaEvent::TimerIncrement);
    }
    let out = data.event(ViziaEvent::RefreshSites(vec![
        site("C", v4(10, 0, 0, 1)),
        site("A", v4(127, 0, 0, 1)),
        site("C", v4(10, 0, 0, 2)),
    ]));
    assert_eq!(out.len(), 2);
    match &out[0] {
        TokioEvent::RefreshSites(l) => {
            assert_eq!(l.len(), 2);
            assert_eq!(l[0].name, "C");
            assert!(matches!(l[0].addr, IpAddress::V4([10, 0, 0, 2])));
            assert_eq!(l[1].name, "A");
        }
        _ => panic!("expected the new target set first"),
    }
    assert!(is_round(&out[1], 4, Payload::Tiny));
    assert_eq!(data.timer_count, 30);
    assert_eq!(data.sites.len(), 2);
    assert_eq!(data.sites[0].name, "C");
    assert!(data.sites[0].response.is_none());
    assert_eq!(data.sites[1].name, "A");
    assert!(matches!(data.sites[1].response, Some(ProbeOutcome::Success(80))));
    assert_eq!(data.history.len(), 2);
    assert_eq!((data.history[0].name.as_str(), data.history[0].len), ("C", 0));
    assert_eq!((data.history[1].name.as_str(), data.history[1].sum, data.history[1].len), ("A", 80, 1));
}

#[test]
fn round_dispatches_every_target_with_snapshot() {
    let sites = vec![site("A", v4(127, 0, 0, 1)), site("B", v6_loopback())];
    let config = RoundConfig { timeout: 4, payload: Payload::Medium };
    let plan = plan_round(&sites, config, true, true);
    assert_eq!(plan.len(), 2);
    for (d, name) in plan.iter().zip(["A", "B"]) {
        match d {
            Dispatch::Probe(p) => {
                assert_eq!(p.name, name);
                assert_eq!(p.timeout, 4);
                assert_eq!(p.payload, Payload::Medium);
            }
            Dispatch::Skipped(_) => panic!("both families are ready"),
        }
    }
}

#[test]
fn round_without_facility_reports_transport_error() {
    let sites = vec![site("A", v4(127, 0, 0, 1)), site("B", v6_loopback())];
    let plan = plan_round(&sites, RoundConfig { timeout: 2, payload: Payload::Tiny }, true, false);
    assert_eq!(plan.len(), 2);
    assert!(matches!(&plan[0], Dispatch::Probe(p) if p.name == "A"));
    match &plan[1] {
        Dispatch::Skipped(r) => {
            assert_eq!(r.name, "B");
            match &r.response {
                Some(ProbeOutcome::TransportError(m)) => {
                    assert_eq!(m, "no probing facility for this address family")
                }
                _ => panic!("expected a transport error"),
            }
        }
        Dispatch::Probe(_) => panic!("no IPv6 facility"),
    }
}

#[test]
fn empty_round_dispatches_nothing() {
    let plan = plan_round(&Vec::new(), RoundConfig { timeout: 4, payload: Payload::Tiny }, true, true);
    assert!(plan.is_empty());
}

#[test]
fn worker_replaces_targets_then_fires() {
    let mut w = Worker { sites: vec![site("A", v4(127, 0, 0, 1))], v4_ready: true, v6_ready: true };
    assert!(w.handle(TokioEvent::RefreshSites(vec![site("B", v6_loopback()), site("C", v4(10, 0, 0, 1))])).is_empty());
    assert_eq!(w.sites.len(), 2);
    let plan = w.handle(TokioEvent::TimerElapsed(RoundConfig { timeout: 7, payload: Payload::Giant }));
    assert_eq!(plan.len(), 2);
    assert!(matches!(&plan[0], Dispatch::Probe(p) if p.name == "B" && p.timeout == 7));
    assert!(matches!(&plan[1], Dispatch::Probe(p) if p.name == "C" && p.payload == Payload::Giant));
}

#[test]
fn loopback_round_yields_two_successes() {
    let mut data = AppData::new(vec![site("A", v4(127, 0, 0, 1)), site("B", v6_loopback())]);
    let mut worker = Worker { sites: vec![site("A", v4(127, 0, 0, 1)), site("B", v6_loopback())], v4_ready: true, v6_ready: true };
    data.event(ViziaEvent::TimeoutDurationChanged("4".to_string()));
    let out = data.event(ViziaEvent::TimerReset);
    assert_eq!(out.len(), 1);
    let mut outcomes = 0;
    for c in out {
        for d in worker.handle(c) {
            match d {
                Dispatch::Probe(p) => {
                    assert_eq!(p.timeout, 4);
                    let r = p.respond(ProbeOutcome::Success(250_000));
                    data.event(ViziaEvent::PingResponse(r));
                    outcomes += 1;
                }
                Dispatch::Skipped(_) => panic!("both families are ready"),
            }
        }
    }
    assert_eq!(outcomes, 2);
    for name in ["A", "B"] {
        match state_of(&data, name).response {
            Some(ProbeOutcome::Success(ns)) => assert!(ns < 4_000_000_000),
            _ => panic!("expected a success"),
        }
    }
}

#[test]
fn unreachable_target_times_out_without_delaying_countdown() {
    let mut data = AppData::new(vec![site("C", v4(203, 0, 113, 1))]);
    let mut worker = Worker { sites: vec![site("C", v4(203, 0, 113, 1))], v4_ready: true, v6_ready: true };
    data.event(ViziaEvent::TimeoutDurationChanged("1".to_string()));
    let out = data.event(ViziaEvent::TimerReset);
    let mut pending = Vec::new();
    for c in out {
        for d in worker.handle(c) {
            match d {
                Dispatch::Probe(p) => {
                    assert_eq!(p.timeout, 1);
                    pending.push(p);
                }
                Dispatch::Skipped(_) => panic!("IPv4 is ready"),
            }
        }
    }
    assert_eq!(pending.len(), 1);
    assert!(data.event(ViziaEvent::TimerIncrement).is_empty());
    assert_eq!(data.timer_count, 29);
    let r = pending.pop().unwrap().respond(ProbeOutcome::Timeout);
    data.event(ViziaEvent::PingResponse(r));
    assert!(matches!(state_of(&data, "C").response, Some(ProbeOutcome::Timeout)));
    assert_eq!(data.timer_count, 29);
}

#[test]
fn respond_carries_name_and_outcome() {
    let plan = plan_round(&vec![site("A", v4(127, 0, 0, 1))], RoundConfig { timeout: 4, payload: Payload::Tiny }, true, true);
    let p = match plan.into_iter().next() {
        Some(Dispatch::Probe(p)) => p,
        _ => panic!("expected a probe"),
    };
    let r = p.respond(ProbeOutcome::TransportError("unreachable".to_string()));
    assert_eq!(r.name, "A");
    assert!(matches!(&r.response, Some(ProbeOutcome::TransportError(m)) if m == "unreachable"));
}

#[test]
fn ip_family() {
    assert!(v4(1, 2, 3, 4).is_v4());
    assert!(!v6_loopback().is_v4());
}
