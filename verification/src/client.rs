use vstd::prelude::*;
use crate::envelope::ReplyEnvelope;
use crate::envelope::RequestEnvelope;
use crate::route::Route;

verus! {

/// What one `Ask` call returns to its caller: a decodable success payload,
/// the peer's structured failure, or the absence of a correlated reply
/// within the deadline. A reply is owned by exactly one waiting caller.
#[derive(Debug)]
pub enum Reply {
    Successful(Vec<u8>),
    Failed(ApiFailure),
    Timeout,
}

/// A failure the peer reported explicitly, to be kept distinct from
/// transport failures and local decode failures.
#[derive(Debug)]
pub struct ApiFailure {
    pub status: u32,
    pub message: Vec<u8>,
}

/// The mathematical value of a `Reply`.
pub enum ReplyModel {
    Successful(Seq<u8>),
    Failed(u32, Seq<u8>),
    Timeout,
}

impl View for Reply {
    type V = ReplyModel;

    open spec fn view(&self) -> ReplyModel {
        match self {
            Reply::Successful(b) => ReplyModel::Successful(b@),
            Reply::Failed(f) => ReplyModel::Failed(f.status, f.message@),
            Reply::Timeout => ReplyModel::Timeout,
        }
    }
}

/// The errors an `ask` or `tell` surfaces to its caller. A local decode
/// failure, a transport-level failure and an explicit remote failure are
/// distinct outcomes and are never conflated.
#[derive(Debug)]
pub enum ClientError {
    ConnectionError(crate::errors::TransportError),
    Timeout,
    DecodeFailed,
    RemoteFailure(ApiFailure),
}

/// One observation made while a call waits: a reply frame delivered by the
/// transport, or the call's timer elapsing.
pub enum AskEvent {
    ReplyArrived(ReplyEnvelope),
    TimerElapsed,
}

/// What the wait does after one event.
pub enum AskStep {
    Pending,
    Finished(Reply),
}

/// The mathematical value of an `AskStep`.
pub enum StepModel {
    Pending,
    Finished(ReplyModel),
}

impl View for AskStep {
    type V = StepModel;

    open spec fn view(&self) -> StepModel {
        match self {
            AskStep::Pending => StepModel::Pending,
            AskStep::Finished(rep) => StepModel::Finished(rep@),
        }
    }
}

/// The correlation rule of one waiting call: the timer ends the wait with
/// `Timeout`; a reply whose id is not the call's own is discarded and the
/// wait goes on; the correlated reply ends the wait with the peer's payload
/// or failure.
pub open spec fn spec_ask_step(id: u64, ev: AskEvent) -> StepModel {
    match ev {
        AskEvent::TimerElapsed => StepModel::Finished(ReplyModel::Timeout),
        AskEvent::ReplyArrived(env) => {
            if env.id != id {
                StepModel::Pending
            } else if env.success {
                StepModel::Finished(ReplyModel::Successful(env.body@))
            } else {
                StepModel::Finished(ReplyModel::Failed(env.status, env.body@))
            }
        },
    }
}

/// The outcome of a whole wait over the events it observes, first deciding
/// event first; a wait whose event source is exhausted has timed out, since
/// the timer is itself an event.
pub open spec fn spec_run_ask(id: u64, events: Seq<AskEvent>) -> ReplyModel
    decreases events.len(),
{
    if events.len() == 0 {
        ReplyModel::Timeout
    } else {
        match spec_ask_step(id, events[0]) {
            StepModel::Finished(rep) => rep,
            StepModel::Pending => spec_run_ask(id, events.drop_first()),
        }
    }
}

/// Copy a byte vector.
fn clone_bytes(src: &Vec<u8>) -> (r: Vec<u8>)
    ensures
        r@ == src@,
{
    let mut out: Vec<u8> = Vec::new();
    let mut i: usize = 0;
    while i < src.len()
        invariant
            i <= src@.len(),
            out@ == src@.subrange(0, i as int),
        decreases src@.len() - i,
    {
        out.push(src[i]);
        proof {
            assert(out@ =~= src@.subrange(0, i + 1 as int));
        }
        i += 1;
    }
    proof {
        assert(out@ =~= src@);
    }
    out
}

/// Apply the correlation rule to one event.
pub fn ask_step(id: u64, ev: &AskEvent) -> (r: AskStep)
    ensures
        r@ == spec_ask_step(id, *ev),
{
    match ev {
        AskEvent::TimerElapsed => AskStep::Finished(Reply::Timeout),
        AskEvent::ReplyArrived(env) => {
            if env.id != id {
                AskStep::Pending
            } else if env.success {
                AskStep::Finished(Reply::Successful(clone_bytes(&env.body)))
            } else {
                AskStep::Finished(
                    Reply::Failed(
                        ApiFailure { status: env.status, message: clone_bytes(&env.body) },
                    ),
                )
            }
        },
    }
}

/// Run one call's wait over the events it observed, in order.
pub fn run_ask(id: u64, events: &Vec<AskEvent>) -> (r: Reply)
    ensures
        r@ == spec_run_ask(id, events@),
{
    proof {
        assert(events@.subrange(0, events@.len() as int) =~= events@);
    }
    let mut i: usize = 0;
    while i < events.len()
        invariant
            i <= events@.len(),
            spec_run_ask(id, events@.subrange(i as int, events@.len() as int)) == spec_run_ask(
                id,
                events@,
            ),
        decreases events@.len() - i,
    {
        let ghost rest = events@.subrange(i as int, events@.len() as int);
        match ask_step(id, &events[i]) {
            AskStep::Finished(rep) => {
                proof {
                    assert(rest[0] == events@[i as int]);
                }
                return rep;
            },
            AskStep::Pending => {
                proof {
                    assert(rest[0] == events@[i as int]);
                    assert(rest.drop_first() =~= events@.subrange(
                        i + 1 as int,
                        events@.len() as int,
                    ));
                }
            },
        }
        i += 1;
    }
    proof {
        assert(events@.subrange(events@.len() as int, events@.len() as int).len() == 0);
    }
    Reply::Timeout
}

impl Reply {
    /// The delivery contract of `ask` and `tell`: a successful reply hands
    /// its payload over; anything else is the distinct error it stands for.
    pub fn success(self) -> (r: Result<Vec<u8>, ClientError>)
        ensures
            match self@ {
                ReplyModel::Successful(body) => r matches Ok(b) && b@ == body,
                ReplyModel::Failed(status, message) => r matches Err(e) && e
                    matches ClientError::RemoteFailure(f) && f.status == status && f.message@
                    == message,
                ReplyModel::Timeout => r matches Err(e) && e matches ClientError::Timeout,
            },
    {
        match self {
            Reply::Successful(body) => Ok(body),
            Reply::Failed(f) => Err(ClientError::RemoteFailure(f)),
            Reply::Timeout => Err(ClientError::Timeout),
        }
    }
}

/// A request/reply client bound to one route, decoupling callers from
/// transport and correlation mechanics. The timeout is carried per client;
/// the timer it configures reaches the wait as a `TimerElapsed` event.
pub struct Client {
    pub route: Route,
    pub timeout_ms: Option<u64>,
}

impl Client {
    pub fn new(route: &Route, timeout_ms: Option<u64>) -> (r: Client)
        ensures
            r.route@ == route@,
            r.timeout_ms == timeout_ms,
    {
        Client { route: route.clone(), timeout_ms }
    }

    /// Send `req` along the route and wait for its correlated reply: the
    /// outcome over the observed events, by the correlation rule.
    pub fn ask(&self, req: &RequestEnvelope, events: &Vec<AskEvent>) -> (r: Reply)
        ensures
            r@ == spec_run_ask(req.id, events@),
    {
        run_ask(req.id, events)
    }

    /// Fire-and-forget variant: still waits for the delivery
    /// acknowledgement but hands no payload back.
    pub fn tell(&self, req: &RequestEnvelope, events: &Vec<AskEvent>) -> (r: Result<
        (),
        ClientError,
    >)
        ensures
            match spec_run_ask(req.id, events@) {
                ReplyModel::Successful(_) => r is Ok,
                ReplyModel::Failed(status, message) => r matches Err(e) && e
                    matches ClientError::RemoteFailure(f) && f.status == status && f.message@
                    == message,
                ReplyModel::Timeout => r matches Err(e) && e matches ClientError::Timeout,
            },
    {
        match run_ask(req.id, events) {
            Reply::Successful(_) => Ok(()),
            Reply::Failed(f) => Err(ClientError::RemoteFailure(f)),
            Reply::Timeout => Err(ClientError::Timeout),
        }
    }
}

/// No cross-call leakage: a wait keyed by its own fresh id discards every
/// reply correlated to another call — a late reply to an earlier, timed-out
/// call cannot finish it — and the timer alone yields `Timeout`.
pub proof fn lemma_no_cross_call_leakage(id1: u64, id2: u64, late: ReplyEnvelope)
    requires
        late.id == id1,
        id1 != id2,
    ensures
        spec_ask_step(id2, AskEvent::ReplyArrived(late)) == StepModel::Pending,
        spec_ask_step(id2, AskEvent::TimerElapsed) == StepModel::Finished(ReplyModel::Timeout),
        spec_ask_step(id1, AskEvent::TimerElapsed) == StepModel::Finished(ReplyModel::Timeout),
{
}

/// The wait skips every discarded reply: prepending events that do not
/// decide the wait leaves its outcome unchanged.
pub proof fn lemma_discarded_events_do_not_decide(
    id: u64,
    pre: Seq<AskEvent>,
    events: Seq<AskEvent>,
)
    requires
        forall|i: int|
            0 <= i < pre.len() ==> spec_ask_step(id, #[trigger] pre[i]) == StepModel::Pending,
    ensures
        spec_run_ask(id, pre + events) == spec_run_ask(id, events),
    decreases pre.len(),
{
    if pre.len() == 0 {
        assert(pre + events =~= events);
    } else {
        assert((pre + events)[0] == pre[0]);
        assert((pre + events).drop_first() =~= pre.drop_first() + events);
        assert forall|i: int|
            0 <= i < pre.drop_first().len() implies spec_ask_step(
            id,
            #[trigger] pre.drop_first()[i],
        ) == StepModel::Pending by {
            assert(pre.drop_first()[i] == pre[i + 1]);
        };
        lemma_discarded_events_do_not_decide(id, pre.drop_first(), events);
    }
}

} // verus!
