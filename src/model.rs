use vstd::prelude::*;

verus! {

/// An IP address held as plain values: four octets or eight 16-bit segments.
#[derive(Clone, Copy, Debug)]
pub enum IpAddress {
    V4([u8; 4]),
    V6([u16; 8]),
}

impl IpAddress {
    pub open spec fn spec_is_v4(self) -> bool {
        self is V4
    }

    pub fn is_v4(&self) -> (r: bool)
        ensures
            r == self.spec_is_v4(),
    {
        match self {
            IpAddress::V4(_) => true,
            IpAddress::V6(_) => false,
        }
    }
}

/// A named target: the name is the key, the address picks the probing facility.
pub struct SiteAddress {
    pub name: String,
    pub addr: IpAddress,
}

/// What one probe came to.
pub enum ProbeOutcome {
    /// A matching reply arrived; the round-trip time in nanoseconds.
    Success(u64),
    /// No reply before the deadline.
    Timeout,
    /// The probe could not be carried out; the reason.
    TransportError(String),
}

/// The value of a `ProbeOutcome`, with the message as a sequence of characters.
pub enum OutcomeView {
    Success(u64),
    Timeout,
    TransportError(Seq<char>),
}

impl View for ProbeOutcome {
    type V = OutcomeView;

    open spec fn view(&self) -> OutcomeView {
        match self {
            ProbeOutcome::Success(l) => OutcomeView::Success(*l),
            ProbeOutcome::Timeout => OutcomeView::Timeout,
            ProbeOutcome::TransportError(m) => OutcomeView::TransportError(m@),
        }
    }
}

/// The latest known state of one target: its name and its last outcome, if any
/// has arrived yet.
pub struct PingResponse {
    pub name: String,
    pub response: Option<ProbeOutcome>,
}

/// The value of a `PingResponse`.
pub struct ResponseView {
    pub name: Seq<char>,
    pub response: Option<OutcomeView>,
}

impl View for PingResponse {
    type V = ResponseView;

    open spec fn view(&self) -> ResponseView {
        ResponseView {
            name: self.name@,
            response: match self.response {
                Some(o) => Some(o@),
                None => None,
            },
        }
    }
}

impl PingResponse {
    /// A state is an error state unless its last outcome is a success.
    pub open spec fn spec_is_err(&self) -> bool {
        !(self.response matches Some(ProbeOutcome::Success(_)))
    }

    pub fn is_err(&self) -> (r: bool)
        ensures
            r == self.spec_is_err(),
    {
        match &self.response {
            Some(ProbeOutcome::Success(_)) => false,
            _ => true,
        }
    }
}

/// The views of a sequence of target states.
pub open spec fn responses_view(s: Seq<PingResponse>) -> Seq<ResponseView> {
    s.map_values(|r: PingResponse| r@)
}

/// Running average of the successful latencies of one target, in nanoseconds.
pub struct SiteAverage {
    pub name: String,
    pub sum: u128,
    pub avg: u64,
    pub len: u64,
}

/// The value of a `SiteAverage`.
pub struct AverageView {
    pub name: Seq<char>,
    pub sum: int,
    pub avg: int,
    pub len: int,
}

impl View for SiteAverage {
    type V = AverageView;

    open spec fn view(&self) -> AverageView {
        AverageView { name: self.name@, sum: self.sum as int, avg: self.avg as int, len: self.len as int }
    }
}

/// The views of a sequence of running averages.
pub open spec fn averages_view(s: Seq<SiteAverage>) -> Seq<AverageView> {
    s.map_values(|a: SiteAverage| a@)
}

/// The average of `len` samples that add up to `sum`: zero when there are none.
pub open spec fn mean(sum: int, len: int) -> int {
    if len == 0 {
        0
    } else {
        sum / len
    }
}

/// The maximum latency, as an integer.
pub open spec fn max_latency() -> int {
    u64::MAX as int
}

impl AverageView {
    /// `avg` is the mean of the samples, and their sum is no more than `len`
    /// samples of the largest latency can add up to.
    pub open spec fn wf(self) -> bool {
        &&& 0 <= self.len
        &&& 0 <= self.sum <= self.len * max_latency()
        &&& self.avg == mean(self.sum, self.len)
    }

    /// The entry after one more sample of `latency` nanoseconds.
    pub open spec fn added(self, latency: int) -> AverageView {
        AverageView {
            name: self.name,
            sum: self.sum + latency,
            avg: mean(self.sum + latency, self.len + 1),
            len: self.len + 1,
        }
    }

    /// A fresh entry for `name`.
    pub open spec fn empty(name: Seq<char>) -> AverageView {
        AverageView { name, sum: 0, avg: 0, len: 0 }
    }
}

proof fn lemma_mean_fits(sum: int, len: int)
    requires
        0 < len,
        0 <= sum <= len * max_latency(),
    ensures
        0 <= mean(sum, len) <= max_latency(),
{
    assert(0 <= sum / len <= max_latency()) by (nonlinear_arith)
        requires
            0 < len,
            0 <= sum <= len * max_latency(),
    ;
}

impl SiteAverage {
    pub open spec fn wf(&self) -> bool {
        self@.wf()
    }

    pub fn new(name: String) -> (r: SiteAverage)
        ensures
            r@ == AverageView::empty(name@),
            r.wf(),
    {
        SiteAverage { name, sum: 0, avg: 0, len: 0 }
    }

    /// Folds one successful latency into the average.
    pub fn add(&mut self, result: u64)
        requires
            old(self).wf(),
            old(self).len < u64::MAX,
        ensures
            final(self).wf(),
            final(self)@ == old(self)@.added(result as int),
    {
        let ghost pre = self@;
        proof {
            assert(pre.sum + result <= (pre.len + 1) * max_latency()) by (nonlinear_arith)
                requires
                    pre.sum <= pre.len * max_latency(),
                    result <= max_latency(),
            ;
            assert((pre.len + 1) * max_latency() <= u64::MAX as int * u64::MAX as int)
                by (nonlinear_arith)
                requires
                    pre.len + 1 <= u64::MAX,
                    max_latency() == u64::MAX,
            ;
            lemma_mean_fits(pre.sum + result, pre.len + 1);
        }
        self.sum = self.sum + result as u128;
        self.len = self.len + 1;
        self.avg = (self.sum / (self.len as u128)) as u64;
    }

    /// Starts the average again from no samples.
    pub fn clear(&mut self)
        requires
            old(self).wf(),
        ensures
            final(self).wf(),
            final(self)@ == AverageView::empty(old(self)@.name),
    {
        self.len = 0;
        self.sum = 0;
        self.avg = 0;
    }
}

/// The state of a target that has no outcome yet.
pub open spec fn unprobed(name: Seq<char>) -> ResponseView {
    ResponseView { name, response: None }
}

/// The value of a `SiteAddress`.
pub struct SiteView {
    pub name: Seq<char>,
    pub addr: IpAddress,
}

impl View for SiteAddress {
    type V = SiteView;

    open spec fn view(&self) -> SiteView {
        SiteView { name: self.name@, addr: self.addr }
    }
}

/// The views of a list of targets.
pub open spec fn sites_view(s: Seq<SiteAddress>) -> Seq<SiteView> {
    s.map_values(|a: SiteAddress| a@)
}

/// No two entries share a name.
pub open spec fn unique_names(s: Seq<Seq<char>>) -> bool {
    forall|i: int, j: int| 0 <= i < s.len() && 0 <= j < s.len() && i != j ==> s[i] != s[j]
}

/// The position of `n` in a list of names that holds it.
pub open spec fn index_of(names: Seq<Seq<char>>, n: Seq<char>) -> int {
    choose|i: int| 0 <= i < names.len() && names[i] == n
}

pub proof fn lemma_index_of(names: Seq<Seq<char>>, n: Seq<char>, i: int)
    requires
        unique_names(names),
        0 <= i < names.len(),
        names[i] == n,
    ensures
        index_of(names, n) == i,
{
    let j = index_of(names, n);
    assert(0 <= j < names.len() && names[j] == n);
}

pub open spec fn site_view_names(s: Seq<SiteView>) -> Seq<Seq<char>> {
    s.map_values(|a: SiteView| a.name)
}

pub open spec fn response_view_names(s: Seq<ResponseView>) -> Seq<Seq<char>> {
    s.map_values(|r: ResponseView| r.name)
}

pub open spec fn average_view_names(s: Seq<AverageView>) -> Seq<Seq<char>> {
    s.map_values(|a: AverageView| a.name)
}

/// A value that carries a name.
pub trait Named {
    spec fn key(&self) -> Seq<char>;

    fn name_ref(&self) -> (r: &String)
        ensures
            r@ == self.key(),
    ;
}

impl Named for SiteAddress {
    open spec fn key(&self) -> Seq<char> {
        self.name@
    }

    fn name_ref(&self) -> (r: &String) {
        &self.name
    }
}

impl Named for PingResponse {
    open spec fn key(&self) -> Seq<char> {
        self.name@
    }

    fn name_ref(&self) -> (r: &String) {
        &self.name
    }
}

impl Named for SiteAverage {
    open spec fn key(&self) -> Seq<char> {
        self.name@
    }

    fn name_ref(&self) -> (r: &String) {
        &self.name
    }
}

/// The first position of an entry named `name`, if there is one.
pub fn find_by_name<T: Named>(v: &Vec<T>, name: &String) -> (r: Option<usize>)
    ensures
        match r {
            Some(i) => i < v@.len() && v@[i as int].key() == name@ && forall|j: int|
                0 <= j < i ==> (#[trigger] v@[j]).key() != name@,
            None => forall|j: int| 0 <= j < v@.len() ==> (#[trigger] v@[j]).key() != name@,
        },
{
    let mut i: usize = 0;
    while i < v.len()
        invariant
            i <= v@.len(),
            forall|j: int| 0 <= j < i ==> (#[trigger] v@[j]).key() != name@,
        decreases v@.len() - i,
    {
        if v[i].name_ref().eq(name) {
            return Some(i);
        }
        i = i + 1;
    }
    None
}

/// The target list with one entry per name: a later entry for a name replaces
/// the earlier one in its place.
pub open spec fn register(s: Seq<SiteView>) -> Seq<SiteView>
    decreases s.len(),
{
    if s.len() == 0 {
        seq![]
    } else {
        let prev = register(s.drop_last());
        let x = s.last();
        let names = site_view_names(prev);
        if names.contains(x.name) {
            prev.update(index_of(names, x.name), x)
        } else {
            prev.push(x)
        }
    }
}

/// Builds the target set from a list that may name a target more than once.
pub fn register_sites(sites: Vec<SiteAddress>) -> (r: Vec<SiteAddress>)
    ensures
        sites_view(r@) == register(sites_view(sites@)),
        unique_names(site_view_names(sites_view(r@))),
{
    let mut r: Vec<SiteAddress> = Vec::new();
    let mut i: usize = 0;
    while i < sites.len()
        invariant
            i <= sites@.len(),
            sites_view(r@) == register(sites_view(sites@).take(i as int)),
            unique_names(site_view_names(sites_view(r@))),
        decreases sites@.len() - i,
    {
        let x = SiteAddress { name: sites[i].name.clone(), addr: sites[i].addr };
        let ghost pre = sites_view(r@);
        let ghost names = site_view_names(pre);
        let ghost taken = sites_view(sites@).take(i + 1);
        proof {
            assert(taken.drop_last() =~= sites_view(sites@).take(i as int));
            assert(taken.last() == x@);
        }
        match find_by_name(&r, &x.name) {
            Some(j) => {
                proof {
                    assert(names[j as int] == x@.name);
                    lemma_index_of(names, x@.name, j as int);
                }
                r.set(j, x);
                proof {
                    assert(sites_view(r@) =~= pre.update(j as int, x@));
                    assert(site_view_names(sites_view(r@)) =~= names);
                }
            },
            None => {
                proof {
                    assert forall|k: int| 0 <= k < names.len() implies names[k] != x@.name by {
                        assert(r@[k].key() != x.name@);
                    }
                }
                r.push(x);
                proof {
                    assert(sites_view(r@) =~= pre.push(x@));
                    assert(site_view_names(sites_view(r@)) =~= names.push(x@.name));
                }
            },
        }
        i = i + 1;
    }
    proof {
        assert(sites_view(sites@).take(i as int) =~= sites_view(sites@));
    }
    r
}

/// A fresh running average for each target state, in the same order.
pub fn start_history(sites: &Vec<PingResponse>) -> (r: Vec<SiteAverage>)
    ensures
        averages_view(r@) == response_view_names(responses_view(sites@)).map_values(|n: Seq<char>| AverageView::empty(n)),
        forall|i: int| 0 <= i < r@.len() ==> (#[trigger] r@[i]).wf(),
{
    let mut sites_averages: Vec<SiteAverage> = Vec::new();
    let mut i: usize = 0;
    while i < sites.len()
        invariant
            i <= sites@.len(),
            averages_view(sites_averages@) == response_view_names(responses_view(sites@)).take(i as int).map_values(
                |n: Seq<char>| AverageView::empty(n),
            ),
            forall|k: int| 0 <= k < sites_averages@.len() ==> (#[trigger] sites_averages@[k]).wf(),
        decreases sites@.len() - i,
    {
        let a = SiteAverage::new(sites[i].name.clone());
        let ghost before = sites_averages@;
        sites_averages.push(a);
        proof {
            assert(averages_view(sites_averages@) =~= averages_view(before).push(a@));
            assert(response_view_names(responses_view(sites@)).take(i + 1) =~= response_view_names(responses_view(sites@)).take(i as int).push(
                sites@[i as int].name@,
            ));
            assert(averages_view(sites_averages@) =~= response_view_names(responses_view(sites@)).take(i + 1).map_values(
                |n: Seq<char>| AverageView::empty(n),
            ));
        }
        i = i + 1;
    }
    proof {
        assert(response_view_names(responses_view(sites@)).take(i as int) =~= response_view_names(responses_view(sites@)));
    }
    sites_averages
}

/// A state with no outcome for each target, in the order of the list.
pub fn sites_to_pings(sites: Vec<SiteAddress>) -> (r: Vec<PingResponse>)
    ensures
        responses_view(r@) == site_view_names(sites_view(sites@)).map_values(|n: Seq<char>| unprobed(n)),
{
    let mut map: Vec<PingResponse> = Vec::new();
    let mut i: usize = 0;
    while i < sites.len()
        invariant
            i <= sites@.len(),
            responses_view(map@) == site_view_names(sites_view(sites@)).take(i as int).map_values(
                |n: Seq<char>| unprobed(n),
            ),
        decreases sites@.len() - i,
    {
        let p = PingResponse { name: sites[i].name.clone(), response: None };
        let ghost before = map@;
        map.push(p);
        proof {
            assert(responses_view(map@) =~= responses_view(before).push(p@));
            assert(site_view_names(sites_view(sites@)).take(i + 1) =~= site_view_names(sites_view(sites@)).take(i as int).push(
                sites@[i as int].name@,
            ));
            assert(responses_view(map@) =~= site_view_names(sites_view(sites@)).take(i + 1).map_values(
                |n: Seq<char>| unprobed(n),
            ));
        }
        i = i + 1;
    }
    proof {
        assert(site_view_names(sites_view(sites@)).take(i as int) =~= site_view_names(sites_view(sites@)));
    }
    map
}

} // verus!
