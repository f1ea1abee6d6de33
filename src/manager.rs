use vstd::prelude::*;
use vstd::set_lib::{lemma_int_range, lemma_len_subset, set_int_range};

use crate::field::FieldTable;
use crate::protocol::{decode_delivery, decodes_to, Binding, ConnectionCommand, ConnectionUpdate, Delivery};
use crate::uri::AmqpUri;

verus! {

/// A bind that was sent to the broker and is waiting for its acknowledgement.
#[derive(Debug)]
pub struct BindRequest {
    pub exchange: String,
    pub routing_key: String,
    pub arguments: FieldTable,
}

/// Where the connection manager stands.
#[derive(Debug)]
pub enum Phase {
    /// No connection; only `Connect` is acted on.
    Disconnected,
    /// Connecting: transport, channel, queue and consumer are being set up.
    Opening,
    /// Connected and consuming; commands and deliveries are both served.
    Connected,
    /// Connected, with a bind outstanding at the broker.
    Binding(BindRequest),
    /// Connected, with an unbind outstanding at the broker.
    Unbinding(Binding),
    /// The manager has finished, cleanly or through a broker failure.
    Stopped,
}

/// Something that happened, handed to the manager by whoever runs its loop.
pub enum Event<H> {
    /// A command arrived.
    Command(ConnectionCommand<H>),
    /// Every sender of commands is gone.
    CommandsClosed,
    /// The connection, channel, queue and consumer asked for by `Effect::Open`
    /// are all in place.
    Opened,
    /// The broker acknowledged the outstanding bind or unbind.
    Acknowledged,
    /// Connecting, declaring, binding or unbinding failed at the broker.
    BrokerFailed,
    /// The consumer delivered a message.
    Delivery(Delivery),
    /// The broker closed the consumer stream.
    StreamEnded,
    /// The consumer stream yielded a delivery error.
    StreamFailed,
}

/// What the loop must do after the manager has taken a step.
#[derive(Debug)]
pub enum Effect {
    /// Nothing: wait for the next event.
    Wait,
    /// The event was a command that does not apply in this phase: record a
    /// warning and wait for the next event.
    Warn,
    /// Open a connection to the URI, open a channel, declare a fresh anonymous,
    /// exclusive, auto-delete, non-durable queue and start an exclusive,
    /// no-acknowledgement consumer on it; then report `Opened` or `BrokerFailed`.
    Open(AmqpUri),
    /// Bind the queue as the phase's `BindRequest` says; then report
    /// `Acknowledged` or `BrokerFailed`.
    Bind,
    /// Unbind the queue from the phase's binding; then report `Acknowledged` or
    /// `BrokerFailed`.
    Unbind,
    /// Close or abandon the connection, channel, queue and consumer.
    Close,
    /// Stop: the commands are closed.
    Exit,
    /// Stop with an error: a broker operation failed.
    Fail,
}

/// The outcome of one step: the updates to send, in order, what to do next,
/// and whether to ask the presentation layer for a repaint.
#[derive(Debug)]
pub struct Reaction {
    pub updates: Vec<ConnectionUpdate>,
    pub effect: Effect,
    pub repaint: bool,
}

/// The connection manager's decisions, from event to reaction.
///
/// `issued` holds every binding id this manager has handed out.
pub struct Manager<H> {
    pub phase: Phase,
    pub handle: Option<H>,
    pub issued: Vec<u128>,
}

/// The step leaves the manager as it was and emits nothing.
pub open spec fn unchanged<H>(pre: Manager<H>, post: Manager<H>, r: Reaction, effect: Effect) -> bool {
    &&& post == pre
    &&& r.updates@.len() == 0
    &&& r.effect == effect
}

/// The step moves to `phase`, keeps the handle and the issued ids, emits
/// `updates` and asks for `effect`.
pub open spec fn moves<H>(
    pre: Manager<H>,
    post: Manager<H>,
    r: Reaction,
    phase: Phase,
    updates: Seq<ConnectionUpdate>,
    effect: Effect,
) -> bool {
    &&& post.phase == phase
    &&& post.handle == pre.handle
    &&& post.issued == pre.issued
    &&& r.updates@ == updates
    &&& r.effect == effect
}

/// The step ends the connected episode: back to `Disconnected`, the handle
/// dropped, a `Disconnected` update, and the connection closed.
pub open spec fn drops_link<H>(pre: Manager<H>, post: Manager<H>, r: Reaction) -> bool {
    &&& post.phase == Phase::Disconnected
    &&& post.handle is None
    &&& post.issued == pre.issued
    &&& r.updates@ == seq![ConnectionUpdate::Disconnected]
    &&& r.effect == Effect::Close
}

/// The step of the manager from `pre` on event `e` to `post` with reaction `r`.
pub open spec fn next<H>(pre: Manager<H>, e: Event<H>, post: Manager<H>, r: Reaction) -> bool {
    &&& r.repaint == (post.phase is Connected)
    &&& match pre.phase {
        Phase::Stopped => unchanged(pre, post, r, Effect::Wait),
        Phase::Disconnected => match e {
            Event::Command(ConnectionCommand::Connect(uri, h)) => {
                &&& post.phase == Phase::Opening
                &&& post.handle == Some(h)
                &&& post.issued == pre.issued
                &&& r.updates@ == seq![ConnectionUpdate::Connecting]
                &&& r.effect == Effect::Open(uri)
            },
            Event::Command(_) => unchanged(pre, post, r, Effect::Warn),
            Event::CommandsClosed => moves(pre, post, r, Phase::Stopped, seq![], Effect::Exit),
            _ => unchanged(pre, post, r, Effect::Wait),
        },
        Phase::Opening => match e {
            Event::Opened => moves(
                pre,
                post,
                r,
                Phase::Connected,
                seq![ConnectionUpdate::Connected],
                Effect::Wait,
            ),
            Event::BrokerFailed => moves(pre, post, r, Phase::Stopped, seq![], Effect::Fail),
            Event::CommandsClosed => moves(pre, post, r, Phase::Stopped, seq![], Effect::Exit),
            Event::Command(_) => unchanged(pre, post, r, Effect::Warn),
            _ => unchanged(pre, post, r, Effect::Wait),
        },
        Phase::Connected => match e {
            Event::Command(ConnectionCommand::Disconnect) => drops_link(pre, post, r),
            Event::Command(ConnectionCommand::Connect(_, _)) => unchanged(pre, post, r, Effect::Warn),
            Event::Command(ConnectionCommand::Bind { exchange, routing_key, arguments }) => moves(
                pre,
                post,
                r,
                Phase::Binding(BindRequest { exchange, routing_key, arguments }),
                seq![],
                Effect::Bind,
            ),
            Event::Command(ConnectionCommand::Unbind(b)) => moves(
                pre,
                post,
                r,
                Phase::Unbinding(b),
                seq![],
                Effect::Unbind,
            ),
            Event::Delivery(d) => {
                &&& post == pre
                &&& r.updates@.len() == 1
                &&& decodes_to(d, r.updates@[0])
                &&& r.effect == Effect::Wait
            },
            Event::StreamEnded => drops_link(pre, post, r),
            Event::StreamFailed => drops_link(pre, post, r),
            Event::CommandsClosed => moves(pre, post, r, Phase::Stopped, seq![], Effect::Exit),
            _ => unchanged(pre, post, r, Effect::Wait),
        },
        Phase::Binding(req) => match e {
            Event::Acknowledged => {
                &&& post.phase == Phase::Connected
                &&& post.handle == pre.handle
                &&& !pre.issued@.contains(post.issued@.last())
                &&& post.issued@ == pre.issued@.push(post.issued@.last())
                &&& r.updates@ == seq![
                    ConnectionUpdate::Bound(
                        Binding {
                            id: post.issued@.last(),
                            exchange: req.exchange,
                            routing_key: req.routing_key,
                            arguments: req.arguments,
                        },
                    ),
                ]
                &&& r.effect == Effect::Wait
            },
            Event::BrokerFailed => moves(pre, post, r, Phase::Stopped, seq![], Effect::Fail),
            Event::CommandsClosed => moves(pre, post, r, Phase::Stopped, seq![], Effect::Exit),
            Event::Command(_) => unchanged(pre, post, r, Effect::Warn),
            _ => unchanged(pre, post, r, Effect::Wait),
        },
        Phase::Unbinding(b) => match e {
            Event::Acknowledged => moves(
                pre,
                post,
                r,
                Phase::Connected,
                seq![ConnectionUpdate::Unbound(b)],
                Effect::Wait,
            ),
            Event::BrokerFailed => moves(pre, post, r, Phase::Stopped, seq![], Effect::Fail),
            Event::CommandsClosed => moves(pre, post, r, Phase::Stopped, seq![], Effect::Exit),
            Event::Command(_) => unchanged(pre, post, r, Effect::Warn),
            _ => unchanged(pre, post, r, Effect::Wait),
        },
    }
}

/// Relies on `uuid::Uuid::new_v4`: a random version-4 UUID, taken as its
/// 128-bit value. Nothing is known of which value comes back.
#[verifier::external_body]
fn random_id() -> u128 {
    uuid::Uuid::new_v4().as_u128()
}

/// Whether `id` occurs in `ids`.
fn holds_id(ids: &Vec<u128>, id: u128) -> (r: bool)
    ensures
        r == ids@.contains(id),
{
    let mut i: usize = 0;
    while i < ids.len()
        invariant
            i <= ids@.len(),
            forall|k: int| 0 <= k < i ==> ids@[k] != id,
        decreases ids@.len() - i,
    {
        if ids[i] == id {
            assert(ids@[i as int] == id);
            return true;
        }
        i += 1;
    }
    false
}

/// Among the values `0..=ids.len()` at least one does not occur in `ids`.
proof fn lemma_small_id_missing(ids: Seq<u128>)
    requires
        ids.len() < u128::MAX,
    ensures
        exists|j: int| 0 <= j <= ids.len() && !#[trigger] ids.contains(j as u128),
{
    if forall|j: int| 0 <= j <= ids.len() ==> #[trigger] ids.contains(j as u128) {
        let ints = ids.map_values(|x: u128| x as int);
        let range = set_int_range(0, ids.len() as int + 1);
        assert forall|j: int| range.contains(j) implies ints.to_set().contains(j) by {
            assert(ids.contains(j as u128));
            let k = choose|k: int| 0 <= k < ids.len() && ids[k] == j as u128;
            assert(ints[k] == ids[k] as int);
        }
        ints.lemma_cardinality_of_set();
        lemma_int_range(0, ids.len() as int + 1);
        lemma_len_subset(range, ints.to_set());
    }
}

/// An id that does not occur in `ids`: a random one, or, should that one
/// collide, the least value that is free.
fn fresh_id(ids: &Vec<u128>) -> (id: u128)
    ensures
        !ids@.contains(id),
{
    let drawn = random_id();
    if !holds_id(ids, drawn) {
        return drawn;
    }
    let n = ids.len() as u128;
    let mut k: u128 = 0;
    while k <= n
        invariant
            n == ids@.len(),
            n <= usize::MAX,
            k <= n + 1,
            forall|j: int| 0 <= j < k ==> #[trigger] ids@.contains(j as u128),
        decreases n + 1 - k,
    {
        if !holds_id(ids, k) {
            return k;
        }
        k += 1;
    }
    proof {
        lemma_small_id_missing(ids@);
    }
    drawn
}

/// A vector holding the single update `u`.
fn just(u: ConnectionUpdate) -> (v: Vec<ConnectionUpdate>)
    ensures
        v@ == seq![u],
{
    let mut v: Vec<ConnectionUpdate> = Vec::new();
    v.push(u);
    v
}

impl<H> Manager<H> {
    /// A manager that is disconnected and has issued no ids.
    pub fn new() -> (m: Self)
        ensures
            m.phase is Disconnected,
            m.handle is None,
            m.issued@.len() == 0,
    {
        Manager { phase: Phase::Disconnected, handle: None, issued: Vec::new() }
    }

    /// Takes one step on the event `e`.
    pub fn step(&mut self, e: Event<H>) -> (r: Reaction)
        ensures
            next(*old(self), e, *final(self), r),
    {
        let mut phase = Phase::Stopped;
        std::mem::swap(&mut self.phase, &mut phase);
        let (updates, effect) = match phase {
            Phase::Stopped => (Vec::new(), Effect::Wait),
            Phase::Disconnected => match e {
                Event::Command(ConnectionCommand::Connect(uri, h)) => {
                    self.phase = Phase::Opening;
                    self.handle = Some(h);
                    (just(ConnectionUpdate::Connecting), Effect::Open(uri))
                },
                Event::Command(_) => {
                    self.phase = Phase::Disconnected;
                    (Vec::new(), Effect::Warn)
                },
                Event::CommandsClosed => (Vec::new(), Effect::Exit),
                _ => {
                    self.phase = Phase::Disconnected;
                    (Vec::new(), Effect::Wait)
                },
            },
            Phase::Opening => match e {
                Event::Opened => {
                    self.phase = Phase::Connected;
                    (just(ConnectionUpdate::Connected), Effect::Wait)
                },
                Event::BrokerFailed => (Vec::new(), Effect::Fail),
                Event::CommandsClosed => (Vec::new(), Effect::Exit),
                Event::Command(_) => {
                    self.phase = Phase::Opening;
                    (Vec::new(), Effect::Warn)
                },
                _ => {
                    self.phase = Phase::Opening;
                    (Vec::new(), Effect::Wait)
                },
            },
            Phase::Connected => match e {
                Event::Command(ConnectionCommand::Disconnect) => self.drop_link(),
                Event::Command(ConnectionCommand::Connect(_, _)) => {
                    self.phase = Phase::Connected;
                    (Vec::new(), Effect::Warn)
                },
                Event::Command(ConnectionCommand::Bind { exchange, routing_key, arguments }) => {
                    self.phase = Phase::Binding(BindRequest { exchange, routing_key, arguments });
                    (Vec::new(), Effect::Bind)
                },
                Event::Command(ConnectionCommand::Unbind(b)) => {
                    self.phase = Phase::Unbinding(b);
                    (Vec::new(), Effect::Unbind)
                },
                Event::Delivery(d) => {
                    self.phase = Phase::Connected;
                    (just(decode_delivery(d)), Effect::Wait)
                },
                Event::StreamEnded => self.drop_link(),
                Event::StreamFailed => self.drop_link(),
                Event::CommandsClosed => (Vec::new(), Effect::Exit),
                _ => {
                    self.phase = Phase::Connected;
                    (Vec::new(), Effect::Wait)
                },
            },
            Phase::Binding(req) => match e {
                Event::Acknowledged => {
                    let id = fresh_id(&self.issued);
                    self.issued.push(id);
                    self.phase = Phase::Connected;
                    let BindRequest { exchange, routing_key, arguments } = req;
                    let b = Binding { id, exchange, routing_key, arguments };
                    (just(ConnectionUpdate::Bound(b)), Effect::Wait)
                },
                Event::BrokerFailed => (Vec::new(), Effect::Fail),
                Event::CommandsClosed => (Vec::new(), Effect::Exit),
                Event::Command(_) => {
                    self.phase = Phase::Binding(req);
                    (Vec::new(), Effect::Warn)
                },
                _ => {
                    self.phase = Phase::Binding(req);
                    (Vec::new(), Effect::Wait)
                },
            },
            Phase::Unbinding(b) => match e {
                Event::Acknowledged => {
                    self.phase = Phase::Connected;
                    (just(ConnectionUpdate::Unbound(b)), Effect::Wait)
                },
                Event::BrokerFailed => (Vec::new(), Effect::Fail),
                Event::CommandsClosed => (Vec::new(), Effect::Exit),
                Event::Command(_) => {
                    self.phase = Phase::Unbinding(b);
                    (Vec::new(), Effect::Warn)
                },
                _ => {
                    self.phase = Phase::Unbinding(b);
                    (Vec::new(), Effect::Wait)
                },
            },
        };
        let repaint = matches!(self.phase, Phase::Connected);
        Reaction { updates, effect, repaint }
    }

    /// Ends the connected episode.
    fn drop_link(&mut self) -> (r: (Vec<ConnectionUpdate>, Effect))
        ensures
            final(self).phase == Phase::Disconnected,
            final(self).handle is None,
            final(self).issued == old(self).issued,
            r.0@ == seq![ConnectionUpdate::Disconnected],
            r.1 == Effect::Close,
    {
        self.phase = Phase::Disconnected;
        self.handle = None;
        (just(ConnectionUpdate::Disconnected), Effect::Close)
    }
}

/// While disconnected, no command but `Connect` reaches the broker or emits an
/// update: over any run of other commands every step only records a warning,
/// and the manager ends as it began.
pub proof fn lemma_disconnected_ignores_commands<H>(
    states: Seq<Manager<H>>,
    commands: Seq<ConnectionCommand<H>>,
    reactions: Seq<Reaction>,
)
    requires
        states.len() == commands.len() + 1,
        reactions.len() == commands.len(),
        states[0].phase is Disconnected,
        forall|i: int| 0 <= i < commands.len() ==> !(#[trigger] commands[i] is Connect),
        forall|i: int|
            #![trigger commands[i]]
            0 <= i < commands.len() ==> next(
                states[i],
                Event::Command(commands[i]),
                states[i + 1],
                reactions[i],
            ),
    ensures
        forall|i: int|
            0 <= i < commands.len() ==> {
                &&& (#[trigger] reactions[i]).updates@.len() == 0
                &&& reactions[i].effect == Effect::Warn
            },
        forall|i: int| 0 <= i < states.len() ==> #[trigger] states[i] == states[0],
    decreases commands.len(),
{
    if commands.len() > 0 {
        let n = commands.len() - 1;
        lemma_disconnected_ignores_commands(
            states.drop_last(),
            commands.drop_last(),
            reactions.drop_last(),
        );
        assert(states.drop_last()[n] == states[n]);
        assert(commands.drop_last().len() == n);
        assert(next(states[n], Event::Command(commands[n]), states[n + 1], reactions[n]));
        assert forall|i: int| 0 <= i < states.len() implies #[trigger] states[i] == states[0] by {
            if i < states.len() - 1 {
                assert(states.drop_last()[i] == states[i]);
            }
        }
        assert forall|i: int| 0 <= i < commands.len() implies {
            &&& (#[trigger] reactions[i]).updates@.len() == 0
            &&& reactions[i].effect == Effect::Warn
        } by {
            if i < n {
                assert(reactions.drop_last()[i] == reactions[i]);
            }
        }
    }
}

/// A successful `Connect` emits exactly `Connecting` and then `Connected`,
/// with the connection asked for in between, and leaves the manager connected.
pub proof fn lemma_connect_emits_connecting_then_connected<H>(
    s0: Manager<H>,
    uri: AmqpUri,
    h: H,
    s1: Manager<H>,
    r1: Reaction,
    s2: Manager<H>,
    r2: Reaction,
)
    requires
        s0.phase is Disconnected,
        next(s0, Event::Command(ConnectionCommand::Connect(uri, h)), s1, r1),
        next(s1, Event::Opened, s2, r2),
    ensures
        r1.updates@ == seq![ConnectionUpdate::Connecting],
        r1.effect == Effect::Open(uri),
        r2.updates@ == seq![ConnectionUpdate::Connected],
        r2.effect == Effect::Wait,
        s2.phase is Connected,
{
}

/// The binding reported for a successful `Bind` carries the command's exchange,
/// routing key and arguments, and an id that this manager had never issued
/// before and now records as issued.
pub proof fn lemma_bound_echoes_bind<H>(
    s0: Manager<H>,
    exchange: String,
    routing_key: String,
    arguments: FieldTable,
    s1: Manager<H>,
    r1: Reaction,
    s2: Manager<H>,
    r2: Reaction,
)
    requires
        s0.phase is Connected,
        next(
            s0,
            Event::Command(ConnectionCommand::Bind { exchange, routing_key, arguments }),
            s1,
            r1,
        ),
        next(s1, Event::Acknowledged, s2, r2),
    ensures
        r1.updates@.len() == 0,
        r1.effect == Effect::Bind,
        r2.updates@.len() == 1,
        r2.updates@[0] is Bound,
        r2.updates@[0]->Bound_0.exchange == exchange,
        r2.updates@[0]->Bound_0.routing_key == routing_key,
        r2.updates@[0]->Bound_0.arguments == arguments,
        !s0.issued@.contains(r2.updates@[0]->Bound_0.id),
        s2.issued@ == s0.issued@.push(r2.updates@[0]->Bound_0.id),
        s2.phase is Connected,
{
}

/// No step forgets an issued id: the ids issued before a step stay, in order,
/// at the front of those issued after it.
pub proof fn lemma_issued_ids_kept<H>(pre: Manager<H>, e: Event<H>, post: Manager<H>, r: Reaction)
    requires
        next(pre, e, post, r),
    ensures
        pre.issued@.len() <= post.issued@.len(),
        post.issued@.subrange(0, pre.issued@.len() as int) == pre.issued@,
{
    if post.issued@ != pre.issued@ {
        assert(post.issued@ == pre.issued@.push(post.issued@.last()));
        assert(post.issued@.subrange(0, pre.issued@.len() as int) =~= pre.issued@);
    } else {
        assert(post.issued@.subrange(0, pre.issued@.len() as int) =~= pre.issued@);
    }
}

/// Unbinding a binding reports that very binding back, id and all, and leaves
/// the manager connected.
pub proof fn lemma_unbound_echoes_binding<H>(
    s0: Manager<H>,
    b: Binding,
    s1: Manager<H>,
    r1: Reaction,
    s2: Manager<H>,
    r2: Reaction,
)
    requires
        s0.phase is Connected,
        next(s0, Event::Command(ConnectionCommand::Unbind(b)), s1, r1),
        next(s1, Event::Acknowledged, s2, r2),
    ensures
        r1.updates@.len() == 0,
        r1.effect == Effect::Unbind,
        r2.updates@ == seq![ConnectionUpdate::Unbound(b)],
        s2.phase is Connected,
{
}

/// When the consumer stream ends or fails while connected, a single
/// `Disconnected` is emitted, and a following `Connect` is taken up as from the
/// start.
pub proof fn lemma_stream_loss_then_reconnect<H>(
    s0: Manager<H>,
    loss: Event<H>,
    s1: Manager<H>,
    r1: Reaction,
    uri: AmqpUri,
    h: H,
    s2: Manager<H>,
    r2: Reaction,
)
    requires
        s0.phase is Connected,
        loss is StreamEnded || loss is StreamFailed,
        next(s0, loss, s1, r1),
        next(s1, Event::Command(ConnectionCommand::Connect(uri, h)), s2, r2),
    ensures
        r1.updates@ == seq![ConnectionUpdate::Disconnected],
        r1.effect == Effect::Close,
        s1.phase is Disconnected,
        r2.updates@ == seq![ConnectionUpdate::Connecting],
        r2.effect == Effect::Open(uri),
        s2.phase is Opening,
{
}

/// `states`, `events` and `reactions` are a run of the manager: each event
/// takes the state before it to the state after it with its reaction.
pub open spec fn is_run<H>(states: Seq<Manager<H>>, events: Seq<Event<H>>, reactions: Seq<Reaction>) -> bool {
    &&& states.len() == events.len() + 1
    &&& reactions.len() == events.len()
    &&& forall|k: int|
        #![trigger events[k]]
        0 <= k < events.len() ==> next(states[k], events[k], states[k + 1], reactions[k])
}

/// A `Bound` update carries an id that was not issued before its step and is
/// issued after it.
proof fn lemma_bound_step<H>(pre: Manager<H>, e: Event<H>, post: Manager<H>, r: Reaction, p: int)
    requires
        next(pre, e, post, r),
        0 <= p < r.updates@.len(),
        r.updates@[p] is Bound,
    ensures
        !pre.issued@.contains(r.updates@[p]->Bound_0.id),
        post.issued@.contains(r.updates@[p]->Bound_0.id),
{
    if let Event::Delivery(d) = e {
        if pre.phase is Connected {
            assert(decodes_to(d, r.updates@[0]));
        }
    }
    assert(post.issued@.len() > 0 ==> post.issued@[post.issued@.len() - 1] == post.issued@.last());
}

/// Along a run, the ids issued at one point stay issued at every later point.
proof fn lemma_run_keeps_issued<H>(
    states: Seq<Manager<H>>,
    events: Seq<Event<H>>,
    reactions: Seq<Reaction>,
    i: int,
    j: int,
    id: u128,
)
    requires
        is_run(states, events, reactions),
        0 <= i <= j < states.len(),
        states[i].issued@.contains(id),
    ensures
        states[j].issued@.contains(id),
    decreases j - i,
{
    if i < j {
        lemma_run_keeps_issued(states, events, reactions, i, j - 1, id);
        assert(next(states[j - 1], events[j - 1], states[j], reactions[j - 1]));
        lemma_issued_ids_kept(states[j - 1], events[j - 1], states[j], reactions[j - 1]);
        let pre = states[j - 1].issued@;
        let k = choose|k: int| 0 <= k < pre.len() && pre[k] == id;
        assert(states[j].issued@.subrange(0, pre.len() as int)[k] == id);
    }
}

/// Over any run, no two `Bound` updates carry the same id: each binding id is
/// fresh.
pub proof fn lemma_bound_ids_distinct<H>(
    states: Seq<Manager<H>>,
    events: Seq<Event<H>>,
    reactions: Seq<Reaction>,
    i: int,
    p: int,
    j: int,
    q: int,
)
    requires
        is_run(states, events, reactions),
        0 <= i < j < events.len(),
        0 <= p < reactions[i].updates@.len(),
        0 <= q < reactions[j].updates@.len(),
        reactions[i].updates@[p] is Bound,
        reactions[j].updates@[q] is Bound,
    ensures
        reactions[i].updates@[p]->Bound_0.id != reactions[j].updates@[q]->Bound_0.id,
{
    assert(next(states[i], events[i], states[i + 1], reactions[i]));
    assert(next(states[j], events[j], states[j + 1], reactions[j]));
    lemma_bound_step(states[i], events[i], states[i + 1], reactions[i], p);
    lemma_bound_step(states[j], events[j], states[j + 1], reactions[j], q);
    lemma_run_keeps_issued(states, events, reactions, i + 1, j, reactions[i].updates@[p]->Bound_0.id);
}

} // verus!
