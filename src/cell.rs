//! The resolution cell of one buffer: it starts the byte resolver at most once
//! and hands the one terminal outcome to every requester.
//!
//! The cell decides; whoever owns it performs. A request answers with an
//! [`Action`]: start the resolver, wait for the outcome, or take the outcome
//! now. When the resolver finishes, its result is handed to [`ResolutionCell::complete`],
//! which settles the cell and returns the outcome for every waiter.

use crate::data::BufferData;
use vstd::prelude::*;

verus! {

/// Why the byte resolver could not produce a buffer's bytes. The cell does not
/// look inside it; it hands the same value to every requester.
#[derive(Clone, Debug)]
pub struct ResolveError {
    pub message: String,
}

impl ResolveError {
    pub fn new(message: String) -> (r: ResolveError)
        ensures
            r.message == message,
    {
        ResolveError { message }
    }

    /// An equal copy, for a further requester.
    pub fn duplicate(&self) -> (r: ResolveError)
        ensures
            r == *self,
    {
        ResolveError { message: self.message.clone() }
    }

    pub fn message(&self) -> (r: &str)
        ensures
            r@ == self.message@,
    {
        self.message.as_str()
    }
}

/// The terminal outcome of a buffer's resolution, over the bytes it holds.
pub open spec fn outcome_view(o: Result<BufferData, ResolveError>) -> Result<Seq<u8>, ResolveError> {
    match o {
        Ok(b) => Ok(b@),
        Err(e) => Err(e),
    }
}

/// The completion event of a resolver's result.
pub open spec fn completion(result: Result<Vec<u8>, ResolveError>) -> Event {
    Event::Complete(
        match result {
            Ok(v) => Ok(v@),
            Err(e) => Err(e),
        },
    )
}

/// The reply of a completion that returned `r`.
pub open spec fn settled(r: Option<Result<BufferData, ResolveError>>) -> Reply {
    Reply::Settled(
        match r {
            Some(x) => Some(outcome_view(x)),
            None => None,
        },
    )
}

/// The states of a cell.
pub enum Phase {
    /// Nobody has asked for the bytes.
    Unstarted,
    /// The resolver runs; its result has not come back.
    Pending,
    /// The resolver produced these bytes.
    Resolved(Seq<u8>),
    /// The resolver failed.
    Failed(ResolveError),
}

/// What a request or a completion answers, over views.
pub enum Reply {
    /// The requester is the first: it must start the resolver.
    Start,
    /// The resolver runs: the requester waits for the completion.
    Wait,
    /// The outcome is known, and handed over.
    Ready(Result<Seq<u8>, ResolveError>),
    /// A completion, with the outcome for the waiters (none if nothing was started).
    Settled(Option<Result<Seq<u8>, ResolveError>>),
}

/// What happens to a cell.
pub enum Event {
    Request,
    Complete(Result<Seq<u8>, ResolveError>),
}

pub open spec fn terminal(p: Phase) -> Option<Result<Seq<u8>, ResolveError>> {
    match p {
        Phase::Resolved(b) => Some(Ok(b)),
        Phase::Failed(e) => Some(Err(e)),
        _ => None,
    }
}

pub open spec fn after_request(p: Phase) -> Phase {
    match p {
        Phase::Unstarted => Phase::Pending,
        _ => p,
    }
}

pub open spec fn request_reply(p: Phase) -> Reply {
    match p {
        Phase::Unstarted => Reply::Start,
        Phase::Pending => Reply::Wait,
        Phase::Resolved(b) => Reply::Ready(Ok(b)),
        Phase::Failed(e) => Reply::Ready(Err(e)),
    }
}

/// Only the first completion of a started resolver settles the cell.
pub open spec fn after_completion(p: Phase, o: Result<Seq<u8>, ResolveError>) -> Phase {
    match p {
        Phase::Pending => match o {
            Ok(b) => Phase::Resolved(b),
            Err(e) => Phase::Failed(e),
        },
        _ => p,
    }
}

pub open spec fn next(p: Phase, ev: Event) -> Phase {
    match ev {
        Event::Request => after_request(p),
        Event::Complete(o) => after_completion(p, o),
    }
}

pub open spec fn reply(p: Phase, ev: Event) -> Reply {
    match ev {
        Event::Request => request_reply(p),
        Event::Complete(o) => Reply::Settled(terminal(after_completion(p, o))),
    }
}

/// The phase after a sequence of events.
pub open spec fn final_phase(p: Phase, evs: Seq<Event>) -> Phase
    decreases evs.len(),
{
    if evs.len() == 0 {
        p
    } else {
        final_phase(next(p, evs[0]), evs.drop_first())
    }
}

/// The replies to a sequence of events, in order.
pub open spec fn replies(p: Phase, evs: Seq<Event>) -> Seq<Reply>
    decreases evs.len(),
{
    if evs.len() == 0 {
        Seq::empty()
    } else {
        seq![reply(p, evs[0])] + replies(next(p, evs[0]), evs.drop_first())
    }
}

/// How many times the resolver is started during a sequence of events.
pub open spec fn starts(p: Phase, evs: Seq<Event>) -> nat
    decreases evs.len(),
{
    if evs.len() == 0 {
        0
    } else {
        (if reply(p, evs[0]) is Start { 1nat } else { 0nat }) + starts(next(p, evs[0]), evs.drop_first())
    }
}

pub open spec fn has_request(evs: Seq<Event>) -> bool {
    exists|i: int| 0 <= i < evs.len() && evs[i] is Request
}

/// The outcome that a reply hands over, if any.
pub open spec fn carried(r: Reply) -> Option<Result<Seq<u8>, ResolveError>> {
    match r {
        Reply::Ready(o) => Some(o),
        Reply::Settled(o) => o,
        _ => None,
    }
}

proof fn lemma_no_start_once_started(p: Phase, evs: Seq<Event>)
    requires
        !(p is Unstarted),
    ensures
        starts(p, evs) == 0,
        !(final_phase(p, evs) is Unstarted),
    decreases evs.len(),
{
    if evs.len() > 0 {
        lemma_no_start_once_started(next(p, evs[0]), evs.drop_first());
    }
}

proof fn lemma_unstarted_without_request(evs: Seq<Event>)
    requires
        !has_request(evs),
    ensures
        starts(Phase::Unstarted, evs) == 0,
    decreases evs.len(),
{
    if evs.len() > 0 {
        assert(!has_request(evs.drop_first())) by {
            if has_request(evs.drop_first()) {
                let i = choose|i: int| 0 <= i < evs.drop_first().len() && evs.drop_first()[i] is Request;
                assert(evs[i + 1] is Request);
            }
        }
        lemma_unstarted_without_request(evs.drop_first());
    }
}

/// However many requests a cell receives, and however they interleave with
/// completions, the resolver is started exactly once if at least one request
/// came, and never otherwise.
pub proof fn lemma_resolver_started_once(evs: Seq<Event>)
    ensures
        starts(Phase::Unstarted, evs) == (if has_request(evs) { 1nat } else { 0nat }),
    decreases evs.len(),
{
    if evs.len() == 0 {
        return;
    }
    match evs[0] {
        Event::Request => {
            assert(has_request(evs));
            lemma_no_start_once_started(Phase::Pending, evs.drop_first());
        },
        Event::Complete(o) => {
            lemma_resolver_started_once(evs.drop_first());
            if has_request(evs) {
                let i = choose|i: int| 0 <= i < evs.len() && evs[i] is Request;
                assert(evs.drop_first()[i - 1] is Request);
            } else {
                assert(!has_request(evs.drop_first())) by {
                    if has_request(evs.drop_first()) {
                        let i = choose|i: int|
                            0 <= i < evs.drop_first().len() && evs.drop_first()[i] is Request;
                        assert(evs[i + 1] is Request);
                    }
                }
            }
        },
    }
}

proof fn lemma_replies_len(p: Phase, evs: Seq<Event>)
    ensures
        replies(p, evs).len() == evs.len(),
    decreases evs.len(),
{
    if evs.len() > 0 {
        lemma_replies_len(next(p, evs[0]), evs.drop_first());
    }
}

proof fn lemma_carried_is_final(p: Phase, evs: Seq<Event>)
    ensures
        replies(p, evs).len() == evs.len(),
        terminal(p) is Some ==> final_phase(p, evs) == p,
        forall|i: int|
            0 <= i < evs.len() && (#[trigger] carried(replies(p, evs)[i])) is Some ==> carried(
                replies(p, evs)[i],
            ) == terminal(final_phase(p, evs)),
    decreases evs.len(),
{
    if evs.len() > 0 {
        let q = next(p, evs[0]);
        lemma_carried_is_final(q, evs.drop_first());
        lemma_replies_len(p, evs);
        if terminal(p) is Some {
            assert(q == p);
        }
        if terminal(q) is Some {
            assert(final_phase(q, evs.drop_first()) == q);
        }
        assert forall|i: int|
            0 <= i < evs.len() && (#[trigger] carried(replies(p, evs)[i])) is Some implies carried(
                replies(p, evs)[i],
            ) == terminal(final_phase(p, evs)) by {
            if i > 0 {
                assert(replies(p, evs)[i] == replies(q, evs.drop_first())[i - 1]);
            }
        }
    } else {
        lemma_replies_len(p, evs);
    }
}

/// Every requester that is handed an outcome, at once or when the resolver
/// completes, is handed the same one: the cell's terminal outcome.
pub proof fn lemma_one_outcome_for_all(p: Phase, evs: Seq<Event>, i: int, j: int)
    requires
        0 <= i < evs.len(),
        0 <= j < evs.len(),
        carried(replies(p, evs)[i]) is Some,
        carried(replies(p, evs)[j]) is Some,
    ensures
        carried(replies(p, evs)[i]) == carried(replies(p, evs)[j]),
        carried(replies(p, evs)[i]) == terminal(final_phase(p, evs)),
{
    lemma_carried_is_final(p, evs);
}

/// What a request asks of the cell's owner.
pub enum Action {
    /// Start the resolver and hand its result to `complete`.
    StartResolver,
    /// The resolver runs: wait for the outcome that `complete` returns.
    Wait,
    /// The outcome, at once.
    Ready(Result<BufferData, ResolveError>),
}

impl Action {
    pub open spec fn reply(self) -> Reply {
        match self {
            Action::StartResolver => Reply::Start,
            Action::Wait => Reply::Wait,
            Action::Ready(o) => Reply::Ready(outcome_view(o)),
        }
    }
}

enum CellState {
    Unstarted,
    Pending,
    Resolved(BufferData),
    Failed(ResolveError),
}

/// The memoised resolution of one buffer's bytes.
pub struct ResolutionCell {
    state: CellState,
}

/// A second handle to an outcome: the bytes are shared, the error copied.
pub fn share_outcome(o: &Result<BufferData, ResolveError>) -> (r: Result<BufferData, ResolveError>)
    ensures
        outcome_view(r) == outcome_view(*o),
{
    match o {
        Ok(b) => Ok(b.share()),
        Err(e) => Err(e.duplicate()),
    }
}

impl View for ResolutionCell {
    type V = Phase;

    closed spec fn view(&self) -> Phase {
        match self.state {
            CellState::Unstarted => Phase::Unstarted,
            CellState::Pending => Phase::Pending,
            CellState::Resolved(b) => Phase::Resolved(b@),
            CellState::Failed(e) => Phase::Failed(e),
        }
    }
}

impl ResolutionCell {
    pub fn new() -> (r: ResolutionCell)
        ensures
            r@ == Phase::Unstarted,
    {
        ResolutionCell { state: CellState::Unstarted }
    }

    /// A request for the bytes. The first one starts the resolver; those that
    /// come while it runs wait; those after it settled get the outcome.
    pub fn request(&mut self) -> (r: Action)
        ensures
            final(self)@ == after_request(old(self)@),
            r.reply() == request_reply(old(self)@),
    {
        match &self.state {
            CellState::Unstarted => {
                self.state = CellState::Pending;
                Action::StartResolver
            },
            CellState::Pending => Action::Wait,
            CellState::Resolved(b) => Action::Ready(Ok(b.share())),
            CellState::Failed(e) => Action::Ready(Err(e.duplicate())),
        }
    }

    /// The resolver's result. It settles a pending cell; a cell that is
    /// settled already keeps its outcome, and one that never started stays
    /// unstarted. Returns the outcome for the waiters, if the cell is settled.
    pub fn complete(&mut self, result: Result<Vec<u8>, ResolveError>) -> (r: Option<
        Result<BufferData, ResolveError>,
    >)
        ensures
            final(self)@ == next(old(self)@, completion(result)),
            reply(old(self)@, completion(result)) == settled(r),
    {
        if let CellState::Pending = self.state {
            self.state = match result {
                Ok(bytes) => CellState::Resolved(BufferData::new(bytes)),
                Err(e) => CellState::Failed(e),
            };
        }
        self.outcome()
    }

    /// The terminal outcome, if the cell is settled.
    pub fn outcome(&self) -> (r: Option<Result<BufferData, ResolveError>>)
        ensures
            match r {
                Some(x) => terminal(self@) == Some(outcome_view(x)),
                None => terminal(self@) is None,
            },
    {
        match &self.state {
            CellState::Resolved(b) => Some(Ok(b.share())),
            CellState::Failed(e) => Some(Err(e.duplicate())),
            _ => None,
        }
    }
}

} // verus!
