use vstd::prelude::*;

use crate::config::Payload;
use crate::model::{sites_view, IpAddress, OutcomeView, PingResponse, ProbeOutcome, ResponseView, SiteAddress, SiteView};
use crate::state::{RoundConfig, TokioEvent};

verus! {

/// Relies on rand::random: a value drawn from the thread-local generator, of
/// which nothing is known.
pub assume_specification<T>[ rand::random::<T> ]() -> (r: T)
    where
        rand::distributions::Standard: rand::distributions::Distribution<T>,
;

/// One echo exchange to carry out: the target, the random identifier and
/// sequence number of the request, and the settings of the round.
pub struct ProbeRequest {
    pub name: String,
    pub addr: IpAddress,
    pub ident: u16,
    pub seq: u16,
    pub timeout: u32,
    pub payload: Payload,
}

/// What a round does for one target: probe it, or report at once that it
/// cannot be probed.
pub enum Dispatch {
    Probe(ProbeRequest),
    Skipped(PingResponse),
}

/// The message of the outcome of a target whose address family has no
/// probing facility.
pub open spec fn no_facility_message() -> Seq<char> {
    "no probing facility for this address family"@
}

/// The dispatch for target `t` in a round with settings `c`, given which
/// address families can be probed.
pub open spec fn dispatch_ok(d: Dispatch, t: SiteView, c: RoundConfig, v4_ready: bool, v6_ready: bool) -> bool {
    if (t.addr is V4 && v4_ready) || (t.addr is V6 && v6_ready) {
        d matches Dispatch::Probe(p) && p.name@ == t.name && p.addr == t.addr && p.timeout == c.timeout
            && p.payload == c.payload
    } else {
        d matches Dispatch::Skipped(r) && r@ == ResponseView {
            name: t.name,
            response: Some(OutcomeView::TransportError(no_facility_message())),
        }
    }
}

/// A round: one dispatch per target, in target order, each with the settings
/// the round fired with.
pub fn plan_round(sites: &Vec<SiteAddress>, config: RoundConfig, v4_ready: bool, v6_ready: bool) -> (r: Vec<Dispatch>)
    ensures
        r@.len() == sites@.len(),
        forall|i: int|
            0 <= i < r@.len() ==> dispatch_ok(#[trigger] r@[i], sites@[i]@, config, v4_ready, v6_ready),
{
    let mut r: Vec<Dispatch> = Vec::new();
    let mut i: usize = 0;
    while i < sites.len()
        invariant
            i <= sites@.len(),
            r@.len() == i,
            forall|k: int|
                0 <= k < i ==> dispatch_ok(#[trigger] r@[k], sites@[k]@, config, v4_ready, v6_ready),
        decreases sites@.len() - i,
    {
        let site = &sites[i];
        let ready = if site.addr.is_v4() {
            v4_ready
        } else {
            v6_ready
        };
        let d = if ready {
            let ident: u16 = rand::random();
            let seq: u16 = rand::random();
            Dispatch::Probe(
                ProbeRequest {
                    name: site.name.clone(),
                    addr: site.addr,
                    ident,
                    seq,
                    timeout: config.timeout,
                    payload: config.payload,
                },
            )
        } else {
            let message = "no probing facility for this address family".to_owned();
            Dispatch::Skipped(
                PingResponse {
                    name: site.name.clone(),
                    response: Some(ProbeOutcome::TransportError(message)),
                },
            )
        };
        r.push(d);
        i = i + 1;
    }
    r
}

impl ProbeRequest {
    /// The target state that an outcome of this request makes.
    pub fn respond(self, outcome: ProbeOutcome) -> (r: PingResponse)
        ensures
            r@ == (ResponseView { name: self.name@, response: Some(outcome@) }),
    {
        PingResponse { name: self.name, response: Some(outcome) }
    }
}

impl Payload {
    /// The zero bytes carried by a request of this class.
    pub fn bytes(&self) -> (r: Vec<u8>)
        ensures
            r@ == Seq::new(self.spec_size(), |i: int| 0u8),
    {
        let n = self.size();
        let mut r: Vec<u8> = Vec::new();
        let mut i: usize = 0;
        while i < n
            invariant
                i <= n,
                n == self.spec_size(),
                r@ == Seq::new(i as nat, |k: int| 0u8),
            decreases n - i,
        {
            r.push(0u8);
            i = i + 1;
            assert(r@ =~= Seq::new(i as nat, |k: int| 0u8));
        }
        r
    }
}

/// The probing side: the current target set and which address families it
/// can probe.
pub struct Worker {
    pub sites: Vec<SiteAddress>,
    pub v4_ready: bool,
    pub v6_ready: bool,
}

impl Worker {
    /// Handles one message: a new target set replaces the old one and starts
    /// nothing; a due round dispatches every current target.
    pub fn handle(&mut self, event: TokioEvent) -> (r: Vec<Dispatch>)
        ensures
            final(self).v4_ready == old(self).v4_ready,
            final(self).v6_ready == old(self).v6_ready,
            match event@ {
                crate::state::CommandView::RefreshSites(l) => {
                    &&& sites_view(final(self).sites@) == l
                    &&& r@.len() == 0
                },
                crate::state::CommandView::TimerElapsed(c) => {
                    &&& final(self).sites@ == old(self).sites@
                    &&& r@.len() == old(self).sites@.len()
                    &&& forall|i: int| 0 <= i < r@.len() ==> dispatch_ok(
                        #[trigger] r@[i],
                        old(self).sites@[i]@,
                        c,
                        old(self).v4_ready,
                        old(self).v6_ready,
                    )
                },
            },
    {
        match event {
            TokioEvent::RefreshSites(l) => {
                self.sites = l;
                Vec::new()
            },
            TokioEvent::TimerElapsed(c) => plan_round(&self.sites, c, self.v4_ready, self.v6_ready),
        }
    }
}

} // verus!
