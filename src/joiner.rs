use vstd::prelude::*;
use crate::bundle::ResourceBundle;
use crate::fetch::{FetchError, ResourceRequest, result_view};

verus! {

/// The abstract state of a join: the requested names, the texts received so
/// far, and the first failure, if one came.
pub struct JoinView {
    pub names: Seq<Seq<char>>,
    pub received: Map<Seq<char>, Seq<char>>,
    pub error: Option<FetchError>,
}

/// One arrival: the name it is tagged with and its result.
pub type Arrival = (Seq<char>, Result<Seq<char>, FetchError>);

pub open spec fn all_received(s: JoinView) -> bool {
    forall|i: int| 0 <= i < s.names.len() ==> s.received.contains_key(#[trigger] s.names[i])
}

/// A join is settled once it has failed or once every requested name has a text.
pub open spec fn is_settled(s: JoinView) -> bool {
    s.error is Some || all_received(s)
}

/// The join before anything has arrived.
pub open spec fn initial_join(names: Seq<Seq<char>>) -> JoinView {
    JoinView { names, received: Map::empty(), error: None }
}

/// The effect of one arrival. A settled join ignores it, and so it does an
/// arrival for a name that was not requested or that already has a text.
/// Otherwise a failure settles the join with that failure, and a text is
/// recorded under its name.
pub open spec fn deliver_spec(s: JoinView, name: Seq<char>, result: Result<Seq<char>, FetchError>) -> JoinView {
    if is_settled(s) || !s.names.contains(name) || s.received.contains_key(name) {
        s
    } else {
        match result {
            Err(e) => JoinView { error: Some(e), ..s },
            Ok(t) => JoinView { received: s.received.insert(name, t), ..s },
        }
    }
}

/// The effect of a sequence of arrivals, in the order in which they came.
pub open spec fn deliver_all(s: JoinView, arrivals: Seq<Arrival>) -> JoinView
    decreases arrivals.len(),
{
    if arrivals.len() == 0 {
        s
    } else {
        deliver_spec(deliver_all(s, arrivals.drop_last()), arrivals.last().0, arrivals.last().1)
    }
}

/// What a join has come to: nothing yet, the failure, or the full bundle.
pub open spec fn outcome_spec(s: JoinView) -> Option<Result<Map<Seq<char>, Seq<char>>, FetchError>> {
    match s.error {
        Some(e) => Some(Err(e)),
        None => if all_received(s) {
            Some(Ok(s.received))
        } else {
            None
        },
    }
}

pub open spec fn request_names(requests: Seq<ResourceRequest>) -> Seq<Seq<char>> {
    requests.map_values(|r: ResourceRequest| r.name@)
}

/// One completed fetch, tagged with the name of its resource.
pub struct Completion {
    pub name: String,
    pub result: Result<String, FetchError>,
}

impl Completion {
    pub open spec fn view(&self) -> Arrival {
        (self.name@, result_view(self.result))
    }
}

pub open spec fn arrivals_view(cs: Seq<Completion>) -> Seq<Arrival> {
    cs.map_values(|c: Completion| c@)
}

/// The abstract value of a finished join, as handed out.
pub open spec fn handed_out(r: Option<Result<ResourceBundle, FetchError>>) -> Option<
    Result<Map<Seq<char>, Seq<char>>, FetchError>,
> {
    match r {
        None => None,
        Some(Ok(b)) => Some(Ok(b@)),
        Some(Err(e)) => Some(Err(e)),
    }
}

/// An all-or-nothing barrier over a fixed set of named results: completes
/// once every requested name has a text, or fails on the first failure.
pub struct Joiner {
    names: Vec<String>,
    bundle: ResourceBundle,
    error: Option<FetchError>,
}

impl Joiner {
    pub closed spec fn view(&self) -> JoinView {
        JoinView {
            names: self.names@.map_values(|n: String| n@),
            received: self.bundle@,
            error: self.error,
        }
    }

    pub closed spec fn wf(&self) -> bool {
        self.bundle.wf()
    }

    /// A join over `requests` to which nothing has arrived yet.
    pub fn new(requests: &Vec<ResourceRequest>) -> (r: Joiner)
        ensures
            r.wf(),
            r@ == initial_join(request_names(requests@)),
    {
        let mut names: Vec<String> = Vec::new();
        let mut i: usize = 0;
        while i < requests.len()
            invariant
                i <= requests@.len(),
                names@.len() == i,
                forall|k: int| 0 <= k < i ==> names@[k]@ == requests@[k].name@,
            decreases requests@.len() - i,
        {
            names.push(requests[i].name.clone());
            i = i + 1;
        }
        assert(names@.map_values(|n: String| n@) =~= request_names(requests@));
        Joiner { names, bundle: ResourceBundle::new(), error: None }
    }

    fn is_requested(&self, name: &String) -> (r: bool)
        ensures
            r == self@.names.contains(name@),
    {
        let mut i: usize = 0;
        while i < self.names.len()
            invariant
                i <= self.names@.len(),
                forall|j: int| 0 <= j < i ==> self.names@[j]@ != name@,
            decreases self.names@.len() - i,
        {
            if self.names[i] == *name {
                assert(self@.names[i as int] == name@);
                return true;
            }
            i = i + 1;
        }
        assert(!self@.names.contains(name@)) by {
            if self@.names.contains(name@) {
                let j = choose|j: int| 0 <= j < self@.names.len() && self@.names[j] == name@;
                assert(self.names@[j]@ == name@);
            }
        }
        false
    }

    /// Whether the join has failed or has every requested text.
    pub fn is_settled(&self) -> (r: bool)
        requires
            self.wf(),
        ensures
            r == is_settled(self@),
    {
        if self.error.is_some() {
            return true;
        }
        let mut i: usize = 0;
        while i < self.names.len()
            invariant
                self.bundle.wf(),
                self.error is None,
                i <= self.names@.len(),
                forall|j: int| 0 <= j < i ==> self.bundle@.contains_key(#[trigger] self@.names[j]),
            decreases self.names@.len() - i,
        {
            if !self.bundle.contains(&self.names[i]) {
                assert(self@.names[i as int] == self.names@[i as int]@);
                return false;
            }
            i = i + 1;
        }
        true
    }

    /// Takes one arrival into account (see `deliver_spec`).
    pub fn deliver(&mut self, name: &String, result: &Result<String, FetchError>)
        requires
            old(self).wf(),
        ensures
            final(self).wf(),
            final(self)@ == deliver_spec(old(self)@, name@, result_view(*result)),
    {
        if self.is_settled() || !self.is_requested(name) || self.bundle.contains(name) {
            return ;
        }
        match result {
            Err(e) => {
                self.error = Some(*e);
            },
            Ok(t) => {
                self.bundle.insert(name.clone(), t.clone());
            },
        }
        assert(self@ =~= deliver_spec(old(self)@, name@, result_view(*result)));
    }

    /// Hands out what the join has come to: `None` while it is still waiting,
    /// else the failure or the bundle of all requested texts.
    pub fn into_outcome(self) -> (r: Option<Result<ResourceBundle, FetchError>>)
        requires
            self.wf(),
        ensures
            handed_out(r) == outcome_spec(self@),
            r matches Some(Ok(b)) ==> b.wf(),
    {
        match self.error {
            Some(e) => Some(Err(e)),
            None => {
                if self.is_settled() {
                    Some(Ok(self.bundle))
                } else {
                    None
                }
            },
        }
    }
}

/// Joins `requests` given the completions in the order in which they arrived.
pub fn join_completions(requests: &Vec<ResourceRequest>, arrivals: &Vec<Completion>) -> (r: Option<
    Result<ResourceBundle, FetchError>,
>)
    ensures
        handed_out(r) == outcome_spec(
            deliver_all(initial_join(request_names(requests@)), arrivals_view(arrivals@)),
        ),
        r matches Some(Ok(b)) ==> b.wf(),
{
    let mut joiner = Joiner::new(requests);
    let ghost start = joiner@;
    let mut i: usize = 0;
    while i < arrivals.len()
        invariant
            i <= arrivals@.len(),
            joiner.wf(),
            joiner@ == deliver_all(start, arrivals_view(arrivals@.take(i as int))),
        decreases arrivals@.len() - i,
    {
        joiner.deliver(&arrivals[i].name, &arrivals[i].result);
        i = i + 1;
        proof {
            assert(arrivals_view(arrivals@.take(i as int)).drop_last() =~= arrivals_view(
                arrivals@.take(i - 1),
            ));
        }
    }
    assert(arrivals@.take(i as int) == arrivals@);
    joiner.into_outcome()
}

/// Two texts for different names may arrive in either order: the join ends
/// in the same state.
pub proof fn lemma_arrival_order_irrelevant(
    s: JoinView,
    a: Seq<char>,
    ta: Seq<char>,
    b: Seq<char>,
    tb: Seq<char>,
)
    requires
        a != b,
    ensures
        deliver_spec(deliver_spec(s, a, Ok(ta)), b, Ok(tb)) == deliver_spec(
            deliver_spec(s, b, Ok(tb)),
            a,
            Ok(ta),
        ),
{
    let ab = deliver_spec(deliver_spec(s, a, Ok(ta)), b, Ok(tb));
    let ba = deliver_spec(deliver_spec(s, b, Ok(tb)), a, Ok(ta));
    let sa = deliver_spec(s, a, Ok(ta));
    let sb = deliver_spec(s, b, Ok(tb));
    if sa != s && sb != s {
        // both are recorded from a pending join; neither insertion alone settles it
        if is_settled(sa) {
            assert(s.names.contains(b) && !sa.received.contains_key(b));
            let k = choose|k: int| 0 <= k < s.names.len() && s.names[k] == b;
            assert(!sa.received.contains_key(sa.names[k]));
        }
        if is_settled(sb) {
            assert(s.names.contains(a) && !sb.received.contains_key(a));
            let k = choose|k: int| 0 <= k < s.names.len() && s.names[k] == a;
            assert(!sb.received.contains_key(sb.names[k]));
        }
        assert(ab.received =~= ba.received);
    }
}

/// With two requested resources, both arrival orders of their texts give the
/// same bundle, holding both texts.
pub proof fn lemma_two_resources_any_order(
    vertex: Seq<char>,
    fragment: Seq<char>,
    vertex_text: Seq<char>,
    fragment_text: Seq<char>,
)
    requires
        vertex != fragment,
    ensures
        ({
            let start = initial_join(seq![vertex, fragment]);
            let bundle = map![vertex => vertex_text, fragment => fragment_text];
            &&& outcome_spec(
                deliver_all(start, seq![(vertex, Ok(vertex_text)), (fragment, Ok(fragment_text))]),
            ) == Some(Ok::<Map<Seq<char>, Seq<char>>, FetchError>(bundle))
            &&& outcome_spec(
                deliver_all(start, seq![(fragment, Ok(fragment_text)), (vertex, Ok(vertex_text))]),
            ) == Some(Ok::<Map<Seq<char>, Seq<char>>, FetchError>(bundle))
        }),
{
    let start = initial_join(seq![vertex, fragment]);
    let bundle = map![vertex => vertex_text, fragment => fragment_text];
    let vf: Seq<Arrival> = seq![(vertex, Ok(vertex_text)), (fragment, Ok(fragment_text))];
    let fv: Seq<Arrival> = seq![(fragment, Ok(fragment_text)), (vertex, Ok(vertex_text))];
    assert(vf.drop_last().drop_last() =~= Seq::<Arrival>::empty());
    assert(fv.drop_last().drop_last() =~= Seq::<Arrival>::empty());
    assert(start.names.contains(vertex) && start.names[0] == vertex);
    assert(start.names.contains(fragment) && start.names[1] == fragment);
    assert(!is_settled(start) && !start.received.contains_key(start.names[0]));
    let sv = deliver_spec(start, vertex, Ok(vertex_text));
    let sf = deliver_spec(start, fragment, Ok(fragment_text));
    assert(sv.received == Map::<Seq<char>, Seq<char>>::empty().insert(vertex, vertex_text));
    assert(!sv.received.contains_key(sv.names[1]));
    assert(!is_settled(sv));
    assert(sf.received == Map::<Seq<char>, Seq<char>>::empty().insert(fragment, fragment_text));
    assert(!sf.received.contains_key(sf.names[0]));
    assert(!is_settled(sf));
    assert(deliver_all(start, vf.drop_last().drop_last()) == start);
    assert(deliver_all(start, fv.drop_last().drop_last()) == start);
    assert(vf.drop_last().last() == (vertex, Ok::<Seq<char>, FetchError>(vertex_text)));
    assert(fv.drop_last().last() == (fragment, Ok::<Seq<char>, FetchError>(fragment_text)));
    assert(vf.last() == (fragment, Ok::<Seq<char>, FetchError>(fragment_text)));
    assert(fv.last() == (vertex, Ok::<Seq<char>, FetchError>(vertex_text)));
    assert(deliver_all(start, vf.drop_last()) == sv);
    assert(deliver_all(start, fv.drop_last()) == sf);
    assert(deliver_all(start, vf).received =~= bundle);
    assert(deliver_all(start, fv).received =~= bundle);
    lemma_arrival_order_irrelevant(start, vertex, vertex_text, fragment, fragment_text);
}

/// A failed join stays failed, whatever arrives later.
pub proof fn lemma_failure_is_final(s: JoinView, later: Seq<Arrival>)
    requires
        s.error is Some,
    ensures
        deliver_all(s, later) == s,
    decreases later.len(),
{
    if later.len() > 0 {
        lemma_failure_is_final(s, later.drop_last());
    }
}

/// A failure for a requested resource that has no text yet, arriving while the
/// join still waits, makes the join fail with that very failure, whether the
/// other resources have already arrived or not, and whatever arrives after it.
pub proof fn lemma_first_failure_wins(
    s: JoinView,
    name: Seq<char>,
    e: FetchError,
    later: Seq<Arrival>,
)
    requires
        !is_settled(s),
        s.names.contains(name),
        !s.received.contains_key(name),
    ensures
        outcome_spec(deliver_all(deliver_spec(s, name, Err(e)), later)) == Some(
            Err::<Map<Seq<char>, Seq<char>>, FetchError>(e),
        ),
{
    lemma_failure_is_final(deliver_spec(s, name, Err(e)), later);
}

/// A join over no requests is complete, with an empty bundle, before anything
/// arrives.
pub proof fn lemma_no_requests_complete_at_once()
    ensures
        outcome_spec(initial_join(Seq::empty())) == Some(
            Ok::<Map<Seq<char>, Seq<char>>, FetchError>(Map::empty()),
        ),
{
}

} // verus!
