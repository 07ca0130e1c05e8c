//! SUB: receives from its pipes in fair-queue order the messages that match
//! one of its subscriptions, and does not send.
//!
//! A message matches when some subscription is a prefix of its body. A
//! message that matches none is dropped, and the receive goes on with the
//! next pipe.

use std::collections::HashMap;
use vstd::prelude::*;
use crate::error::{invalid_input_io_error, other_io_error, Error, ErrorKind};
use crate::ids::{EndpointId, SocketId};
use crate::message::Message;
use crate::options::SocketOption;
use crate::prio_state::PrioState;
use crate::priolist::PrioList;
use crate::proto::context::{
    cancelled,
    lemma_replies_concat,
    lemma_replies_short,
    recv_replies,
    send_replies,
    Context,
    ProtoCmd,
    Reply,
    Timeout,
};
use crate::proto::pipe::Pipe;
use crate::proto::policy::{recv_timeout_reached, WithPipes, WithUnicastRecv};
use crate::socket_type::{PUB, SUB};
use crate::transport::readiness::{event_set_bits, is_readable, readable_in};

verus! {

broadcast use vstd::std_specs::hash::group_hash_axioms;

/// Where a SUB socket stands with the user's receive.
#[derive(Debug, PartialEq, Eq, Clone, Copy)]
pub enum State {
    /// No receive is pending.
    Idle,
    /// The pipe on which the fair queue rests was asked for a message.
    Receiving(Timeout),
    /// A receive is pending, and no pipe could serve it yet.
    RecvOnHold(Timeout),
}

impl State {
    /// The name of the state.
    pub fn name(&self) -> (name: &'static str)
        ensures
            name == match *self {
                State::Idle => "Idle",
                State::Receiving(_) => "Receiving",
                State::RecvOnHold(_) => "RecvOnHold",
            },
    {
        match *self {
            State::Idle => "Idle",
            State::Receiving(_) => "Receiving",
            State::RecvOnHold(_) => "RecvOnHold",
        }
    }
}

/// The content of a SUB socket: its state, its pipes by the number of their
/// endpoint, its fair queue and its subscriptions.
pub struct SubView {
    pub state: State,
    pub pipes: Map<usize, Pipe>,
    pub fq: PrioState,
    pub subscriptions: Set<Seq<u8>>,
}

/// The outcome of a step: the content that follows, and what the step wrote
/// into the context.
pub struct SubStep {
    pub next: SubView,
    pub cmds: Seq<ProtoCmd>,
}

/// Some subscription is a prefix of `body`.
pub open spec fn accepts(subscriptions: Set<Seq<u8>>, body: Seq<u8>) -> bool {
    exists|s: Seq<u8>| #[trigger] subscriptions.contains(s) && s.is_prefix_of(body)
}

/// The error that answers a send.
pub open spec fn send_not_supported() -> Error {
    Error { kind: ErrorKind::Other, message: "send not supported by protocol" }
}

/// The error that answers a receive whose deadline has passed.
pub open spec fn recv_timed_out() -> Error {
    recv_timeout_reached()
}

/// The error that answers a pipe that is added twice.
pub open spec fn pipe_already_added() -> Error {
    Error {
        kind: ErrorKind::InvalidInput,
        message: "A pipe has already been added with that token",
    }
}

/// The error that answers an option that SUB does not have.
pub open spec fn option_not_supported() -> Error {
    Error { kind: ErrorKind::InvalidInput, message: "option not supported by protocol" }
}

impl SubView {
    /// The invariant: the fair queue is well formed.
    pub open spec fn wf(self) -> bool {
        self.fq.wf()
    }

    /// A socket without pipes and subscriptions, at rest.
    pub open spec fn empty() -> SubView {
        SubView {
            state: State::Idle,
            pipes: Map::empty(),
            fq: PrioState::empty(),
            subscriptions: Set::empty(),
        }
    }

    /// The same content in another state.
    pub open spec fn with_state(self, state: State) -> SubView {
        SubView { state, pipes: self.pipes, fq: self.fq, subscriptions: self.subscriptions }
    }

    /// The same content with another fair queue.
    pub open spec fn with_fq(self, fq: PrioState) -> SubView {
        SubView { state: self.state, pipes: self.pipes, fq, subscriptions: self.subscriptions }
    }

    /// A step that changes nothing.
    pub open spec fn ignore(self) -> SubStep {
        SubStep { next: self, cmds: Seq::empty() }
    }

    /// The number of receives that the socket owes an answer to.
    pub open spec fn owed(self) -> nat {
        match self.state {
            State::Idle => 0,
            _ => 1,
        }
    }

    /// The fair queue rests on the pipe of `eid`.
    pub open spec fn is_active_pipe(self, eid: EndpointId) -> bool {
        self.fq.get() == Some(eid)
    }

    /// `add_pipe`: the pipe joins the fair queue, inactive, with its receive
    /// priority. A pipe that is added a second time takes the place of the
    /// first, and keeps its place in the fair queue.
    pub open spec fn add_pipe(self, eid: EndpointId, pipe: Pipe) -> SubView {
        SubView {
            state: self.state,
            pipes: self.pipes.insert(eid.0, pipe),
            fq: self.fq.insert(eid, pipe.recv_priority),
            subscriptions: self.subscriptions,
        }
    }

    /// `remove_pipe`: the pipe leaves. A receive that it was serving is put
    /// on hold, with its deadline.
    pub open spec fn remove_pipe(self, eid: EndpointId) -> SubView {
        SubView {
            state: if self.pipes.contains_key(eid.0) && self.is_active_pipe(eid) {
                match self.state {
                    State::Receiving(timeout) => State::RecvOnHold(timeout),
                    _ => self.state,
                }
            } else {
                self.state
            },
            pipes: self.pipes.remove(eid.0),
            fq: self.fq.remove(eid),
            subscriptions: self.subscriptions,
        }
    }

    /// The pipe that serves the next receive: the one on which the fair
    /// queue rests, if the socket has it.
    pub open spec fn next_pipe(self) -> Option<EndpointId> {
        match self.fq.get() {
            Some(eid) => if self.pipes.contains_key(eid.0) {
                Some(eid)
            } else {
                None
            },
            None => None,
        }
    }

    /// A receive is started: the next pipe is asked for a message, or the
    /// receive is put on hold.
    pub open spec fn start_recv(self, timeout: Timeout) -> SubStep {
        match self.next_pipe() {
            Some(eid) => SubStep {
                next: self.with_state(State::Receiving(timeout)),
                cmds: seq![ProtoCmd::Recv(eid)],
            },
            None => SubStep {
                next: self.with_state(State::RecvOnHold(timeout)),
                cmds: Seq::empty(),
            },
        }
    }

    /// `recv`: a receive is started if none is pending, and ignored
    /// otherwise.
    pub open spec fn recv(self, timeout: Timeout) -> SubStep {
        match self.state {
            State::Idle => self.start_recv(timeout),
            _ => self.ignore(),
        }
    }

    /// `send`: refused at once, and its timer is cancelled.
    pub open spec fn send(self, timeout: Timeout) -> SubStep {
        SubStep {
            next: self,
            cmds: seq![ProtoCmd::ReplySend(Reply::Error(send_not_supported()))] + cancelled(
                timeout,
            ),
        }
    }

    /// `on_recv_ack`: the pipe that was asked hands over a message, and
    /// leaves the active set of the fair queue until it can receive again. A
    /// message that matches a subscription answers the receive. Any other is
    /// dropped, and the receive is started again. From any other pipe, or
    /// with no receive under way, the message is ignored.
    pub open spec fn on_recv_ack(self, eid: EndpointId, msg: Message) -> SubStep {
        match self.state {
            State::Receiving(timeout) => if self.is_active_pipe(eid) {
                let moved = self.with_fq(self.fq.deactivate_and_advance());
                if accepts(self.subscriptions, msg.body@) {
                    SubStep {
                        next: moved.with_state(State::Idle),
                        cmds: seq![ProtoCmd::ReplyRecv(Reply::Recv(msg))] + cancelled(timeout),
                    }
                } else {
                    moved.start_recv(timeout)
                }
            } else {
                self.ignore()
            },
            _ => self.ignore(),
        }
    }

    /// `on_recv_timeout`: a pending receive is answered with an error of
    /// kind `TimedOut`, and the pipe that did not serve it in time leaves the
    /// active set of the fair queue. With none pending, nothing happens.
    pub open spec fn on_recv_timeout(self) -> SubStep {
        match self.state {
            State::Idle => self.ignore(),
            _ => SubStep {
                next: self.with_fq(self.fq.deactivate_and_advance()).with_state(State::Idle),
                cmds: seq![ProtoCmd::ReplyRecv(Reply::Error(recv_timed_out()))],
            },
        }
    }

    /// `on_recv_ready`: the pipe becomes active in the fair queue, and a
    /// receive on hold is started.
    pub open spec fn on_recv_ready(self, eid: EndpointId) -> SubStep {
        let ready = self.with_fq(self.fq.activate(eid));
        match self.state {
            State::RecvOnHold(timeout) => ready.start_recv(timeout),
            _ => ready.ignore(),
        }
    }

    /// `ready`: a readable pipe is ready to receive; any other readiness
    /// means nothing to the socket.
    pub open spec fn ready(self, eid: EndpointId, bits: usize) -> SubStep {
        if readable_in(bits) {
            self.on_recv_ready(eid)
        } else {
            self.ignore()
        }
    }

    /// `subscribe`: one more prefix is accepted.
    pub open spec fn subscribe(self, subscription: Seq<u8>) -> SubView {
        SubView {
            state: self.state,
            pipes: self.pipes,
            fq: self.fq,
            subscriptions: self.subscriptions.insert(subscription),
        }
    }

    /// `unsubscribe`: a prefix is accepted no longer.
    pub open spec fn unsubscribe(self, subscription: Seq<u8>) -> SubView {
        SubView {
            state: self.state,
            pipes: self.pipes,
            fq: self.fq,
            subscriptions: self.subscriptions.remove(subscription),
        }
    }

    /// `set_option`: a subscription is taken or taken back; SUB has no other
    /// option.
    pub open spec fn set_option(self, option: SocketOption) -> (SubView, Result<(), Error>) {
        match option {
            SocketOption::Subscribe(subscription) => (self.subscribe(subscription@), Ok(())),
            SocketOption::Unsubscribe(subscription) => (self.unsubscribe(subscription@), Ok(())),
            _ => (self, Err(option_not_supported())),
        }
    }

    /// Every step keeps the invariant, and answers exactly the receives and
    /// sends that it owes an answer: a send is answered at once; a receive
    /// is owed an answer from the step that accepts it to the step that
    /// answers it, and no more than one receive is owed an answer at a time.
    /// A message that matches no subscription answers nothing.
    pub proof fn lemma_steps(
        self,
        eid: EndpointId,
        pipe: Pipe,
        msg: Message,
        timeout: Timeout,
        bits: usize,
    )
        requires
            self.wf(),
        ensures
            pipe.wf() ==> self.add_pipe(eid, pipe).wf(),
            self.add_pipe(eid, pipe).owed() == self.owed(),
            self.remove_pipe(eid).wf(),
            self.remove_pipe(eid).owed() == self.owed(),
            accounted(self, self.recv(timeout), 0, if self.state is Idle {
                1
            } else {
                0
            }),
            accounted(self, self.send(timeout), 1, 0),
            accounted(self, self.on_recv_ack(eid, msg), 0, 0),
            accounted(self, self.on_recv_timeout(), 0, 0),
            accounted(self, self.on_recv_ready(eid), 0, 0),
            accounted(self, self.ready(eid, bits), 0, 0),
            !accepts(self.subscriptions, msg.body@) ==> recv_replies(
                self.on_recv_ack(eid, msg).cmds,
            ) == 0,
    {
        if pipe.wf() {
            self.fq.lemma_insert_wf(eid, pipe.recv_priority);
        }
        self.fq.lemma_remove_wf(eid);
        self.fq.lemma_deactivate_and_advance_wf();
        self.fq.lemma_activate_wf(eid);
        let any = ProtoCmd::Recv(eid);
        lemma_replies_short(any, any);
        lemma_replies_short(ProtoCmd::ReplySend(Reply::Error(send_not_supported())), any);
        lemma_replies_short(ProtoCmd::ReplyRecv(Reply::Recv(msg)), any);
        lemma_replies_short(ProtoCmd::ReplyRecv(Reply::Error(recv_timed_out())), any);
        if let Some(s) = timeout {
            lemma_replies_short(ProtoCmd::Cancel(s), any);
        }
        lemma_replies_concat(
            seq![ProtoCmd::ReplySend(Reply::Error(send_not_supported()))],
            cancelled(timeout),
        );
        if let State::Receiving(t) = self.state {
            if let Some(s) = t {
                lemma_replies_short(ProtoCmd::Cancel(s), any);
            }
            lemma_replies_concat(seq![ProtoCmd::ReplyRecv(Reply::Recv(msg))], cancelled(t));
        }
        let ready = self.with_fq(self.fq.activate(eid));
        if let Some(next) = ready.next_pipe() {
            lemma_replies_short(ProtoCmd::Recv(next), any);
        }
        if let Some(next) = self.next_pipe() {
            lemma_replies_short(ProtoCmd::Recv(next), any);
        }
        let moved = self.with_fq(self.fq.deactivate_and_advance());
        if let Some(next) = moved.next_pipe() {
            lemma_replies_short(ProtoCmd::Recv(next), any);
        }
    }
}

/// A step keeps the invariant and accounts for every answer: what the socket
/// owed before, and the receives that the step accepts, are either answered
/// by the step or owed afterwards; and the step answers `sends` sends.
pub open spec fn accounted(before: SubView, step: SubStep, sends: nat, accepted: nat) -> bool {
    &&& step.next.wf()
    &&& send_replies(step.cmds) == sends
    &&& before.owed() + accepted == recv_replies(step.cmds) + step.next.owed()
    &&& step.next.owed() <= 1
}

/// Whether `prefix` is a prefix of `bytes`.
pub fn starts_with(bytes: &Vec<u8>, prefix: &Vec<u8>) -> (yes: bool)
    ensures
        yes == prefix@.is_prefix_of(bytes@),
{
    if prefix.len() > bytes.len() {
        return false;
    }
    let mut i: usize = 0;
    while i < prefix.len()
        invariant
            i <= prefix@.len() <= bytes@.len(),
            forall|k: int| 0 <= k < i ==> prefix@[k] == bytes@[k],
        decreases prefix@.len() - i,
    {
        if prefix[i] != bytes[i] {
            assert(bytes@.subrange(0, prefix@.len() as int)[i as int] != prefix@[i as int]);
            return false;
        }
        i += 1;
    }
    assert(bytes@.subrange(0, prefix@.len() as int) =~= prefix@);
    true
}

/// Whether two byte strings are the same.
pub fn same_bytes(a: &Vec<u8>, b: &Vec<u8>) -> (yes: bool)
    ensures
        yes == (a@ == b@),
{
    if a.len() != b.len() {
        return false;
    }
    let mut i: usize = 0;
    while i < a.len()
        invariant
            i <= a@.len(),
            a@.len() == b@.len(),
            forall|k: int| 0 <= k < i ==> a@[k] == b@[k],
        decreases a@.len() - i,
    {
        if a[i] != b[i] {
            return false;
        }
        i += 1;
    }
    assert(a@ =~= b@);
    true
}

struct Body {
    pipes: HashMap<usize, Pipe>,
    fq: PrioList,
    subscriptions: Vec<Vec<u8>>,
}

/// SUB, the receiving end of publish and subscribe.
pub struct Sub {
    id: SocketId,
    body: Body,
    state: State,
}

impl WithPipes for Body {
    closed spec fn pipes(&self) -> Map<usize, Pipe> {
        self.pipes@
    }

    fn get_pipe(&self, eid: &EndpointId) -> (pipe: Option<Pipe>) {
        match self.pipes.get(&eid.0) {
            Some(pipe) => Some(*pipe),
            None => None,
        }
    }
}

impl WithUnicastRecv for Body {}

impl Body {
    spec fn subscribed(&self) -> Set<Seq<u8>> {
        Set::new(
            |s: Seq<u8>|
                exists|i: int|
                    0 <= i < self.subscriptions@.len() && (#[trigger] self.subscriptions@[i])@ == s,
        )
    }

    spec fn distinct(&self) -> bool {
        forall|i: int, j: int|
            0 <= i < j < self.subscriptions@.len() ==> (#[trigger] self.subscriptions@[i])@ != (
            #[trigger] self.subscriptions@[j])@
    }

    spec fn with_state(&self, state: State) -> SubView {
        SubView { state, pipes: self.pipes@, fq: self.fq@, subscriptions: self.subscribed() }
    }

    fn find_subscription(&self, subscription: &Vec<u8>) -> (index: Option<usize>)
        ensures
            match index {
                Some(i) => i < self.subscriptions@.len() && self.subscriptions@[i as int]@
                    == subscription@,
                None => !self.subscribed().contains(subscription@),
            },
    {
        let mut i: usize = 0;
        while i < self.subscriptions.len()
            invariant
                i <= self.subscriptions@.len(),
                forall|k: int| 0 <= k < i ==> (#[trigger] self.subscriptions@[k])@ != subscription@,
            decreases self.subscriptions@.len() - i,
        {
            if same_bytes(&self.subscriptions[i], subscription) {
                return Some(i);
            }
            i += 1;
        }
        None
    }

    fn subscribe(&mut self, subscription: Vec<u8>)
        requires
            old(self).distinct(),
        ensures
            final(self).distinct(),
            final(self).subscribed() == old(self).subscribed().insert(subscription@),
            final(self).pipes == old(self).pipes,
            final(self).fq == old(self).fq,
    {
        if self.find_subscription(&subscription).is_none() {
            self.subscriptions.push(subscription);
            assert forall|s: Seq<u8>| self.subscribed().contains(s) implies old(
                self,
            ).subscribed().insert(subscription@).contains(s) by {
                let i = choose|i: int|
                    0 <= i < self.subscriptions@.len() && (#[trigger] self.subscriptions@[i])@ == s;
                if i < old(self).subscriptions@.len() {
                    assert(old(self).subscriptions@[i]@ == s);
                }
            }
            assert forall|s: Seq<u8>|
                old(self).subscribed().insert(subscription@).contains(
                    s,
                ) implies self.subscribed().contains(s) by {
                if s == subscription@ {
                    assert(self.subscriptions@[old(self).subscriptions@.len() as int]@ == s);
                } else {
                    let i = choose|i: int|
                        0 <= i < old(self).subscriptions@.len() && (#[trigger] old(
                            self,
                        ).subscriptions@[i])@ == s;
                    assert(self.subscriptions@[i]@ == s);
                }
            }
            assert(self.subscribed() =~= old(self).subscribed().insert(subscription@));
        } else {
            assert(self.subscribed() =~= old(self).subscribed().insert(subscription@));
        }
    }

    fn unsubscribe(&mut self, subscription: Vec<u8>)
        requires
            old(self).distinct(),
        ensures
            final(self).distinct(),
            final(self).subscribed() == old(self).subscribed().remove(subscription@),
            final(self).pipes == old(self).pipes,
            final(self).fq == old(self).fq,
    {
        if let Some(k) = self.find_subscription(&subscription) {
            self.subscriptions.remove(k);
            let ghost before = old(self).subscriptions@;
            let ghost after = self.subscriptions@;
            assert forall|j: int| 0 <= j < after.len() implies #[trigger] after[j] == before[if j
                < k {
                j
            } else {
                j + 1
            }] by {}
            assert forall|s: Seq<u8>| self.subscribed().contains(s) implies old(
                self,
            ).subscribed().remove(subscription@).contains(s) by {
                let j = choose|j: int| 0 <= j < after.len() && (#[trigger] after[j])@ == s;
                let i = if j < k { j } else { j + 1 };
                assert(before[i]@ == s);
                if i < k {
                    assert(before[i]@ != before[k as int]@);
                } else {
                    assert(before[k as int]@ != before[i]@);
                }
            }
            assert forall|s: Seq<u8>|
                old(self).subscribed().remove(subscription@).contains(
                    s,
                ) implies self.subscribed().contains(s) by {
                let i = choose|i: int| 0 <= i < before.len() && (#[trigger] before[i])@ == s;
                let j = if i < k { i } else { i - 1 };
                assert(after[j]@ == s);
            }
            assert(self.subscribed() =~= old(self).subscribed().remove(subscription@));
            assert forall|a: int, b: int| 0 <= a < b < after.len() implies (#[trigger] after[a])@
                != (#[trigger] after[b])@ by {
                let a0 = if a < k { a } else { a + 1 };
                let b0 = if b < k { b } else { b + 1 };
                assert(before[a0]@ != before[b0]@);
            }
        } else {
            assert(self.subscribed() =~= old(self).subscribed().remove(subscription@));
        }
    }

    fn accept(&self, msg: &Message) -> (yes: bool)
        ensures
            yes == accepts(self.subscribed(), msg.body@),
    {
        let mut i: usize = 0;
        while i < self.subscriptions.len()
            invariant
                i <= self.subscriptions@.len(),
                forall|k: int|
                    0 <= k < i ==> !(#[trigger] self.subscriptions@[k])@.is_prefix_of(msg.body@),
            decreases self.subscriptions@.len() - i,
        {
            if starts_with(&msg.body, &self.subscriptions[i]) {
                assert(self.subscribed().contains(self.subscriptions@[i as int]@));
                return true;
            }
            i += 1;
        }
        assert forall|s: Seq<u8>| #[trigger]
            self.subscribed().contains(s) implies !s.is_prefix_of(msg.body@) by {
            let k = choose|k: int|
                0 <= k < self.subscriptions@.len() && (#[trigger] self.subscriptions@[k])@ == s;
            assert(!self.subscriptions@[k]@.is_prefix_of(msg.body@));
        }
        false
    }

    fn get_active_pipe(&self) -> (eid: Option<EndpointId>)
        requires
            self.fq.wf(),
        ensures
            forall|state: State|
                #![trigger self.with_state(state)]
                eid == self.with_state(state).next_pipe(),
    {
        match self.fq.get() {
            Some(eid) => if self.can_recv(eid) {
                Some(eid)
            } else {
                None
            },
            None => None,
        }
    }

    fn is_active_pipe(&self, eid: EndpointId) -> (yes: bool)
        requires
            self.fq.wf(),
        ensures
            yes == (self.fq@.get() == Some(eid)),
    {
        match self.fq.get() {
            Some(id) => id == eid,
            None => false,
        }
    }

    fn recv(&self, ctx: &mut Context) -> (started: bool)
        requires
            self.fq.wf(),
        ensures
            forall|state: State|
                #![trigger self.with_state(state)]
                {
                    &&& started == (self.with_state(state).next_pipe() is Some)
                    &&& final(ctx)@ == old(ctx)@ + match self.with_state(state).next_pipe() {
                        Some(eid) => seq![ProtoCmd::Recv(eid)],
                        None => Seq::empty(),
                    }
                },
    {
        let ghost any = self.with_state(State::Idle);
        match self.get_active_pipe() {
            Some(eid) => {
                assert(Some(eid) == any.next_pipe());
                WithUnicastRecv::recv(self, ctx, eid)
            },
            None => {
                assert(any.next_pipe() is None);
                assert(ctx@ =~= old(ctx)@ + Seq::<ProtoCmd>::empty());
                false
            },
        }
    }
}

impl View for Sub {
    type V = SubView;

    closed spec fn view(&self) -> SubView {
        self.body.with_state(self.state)
    }
}

impl Sub {
    /// The invariant that every operation keeps.
    pub closed spec fn wf(&self) -> bool {
        self@.wf() && self.body.distinct()
    }

    /// The socket that the protocol belongs to.
    pub closed spec fn socket_id(&self) -> SocketId {
        self.id
    }

    /// What well-formedness says of the content.
    pub proof fn lemma_wf(&self)
        requires
            self.wf(),
        ensures
            self@.wf(),
    {
    }

    /// A SUB socket without pipes and without subscriptions, at rest.
    pub fn new(socket_id: SocketId) -> (sub: Sub)
        ensures
            sub@ == SubView::empty(),
            sub.socket_id() == socket_id,
            sub.wf(),
    {
        let body = Body { pipes: HashMap::new(), fq: PrioList::new(), subscriptions: Vec::new() };
        let sub = Sub { id: socket_id, body, state: State::Idle };
        assert(sub@.pipes =~= Map::<usize, Pipe>::empty());
        assert(sub@.subscriptions =~= Set::<Seq<u8>>::empty());
        sub
    }

    /// The protocol identifier of SUB.
    pub fn id(&self) -> (id: u16)
        ensures
            id == SUB,
    {
        SUB
    }

    /// The protocol identifier of the peer, PUB.
    pub fn peer_id(&self) -> (id: u16)
        ensures
            id == PUB,
    {
        PUB
    }

    /// The state of the socket.
    pub fn state(&self) -> (state: State)
        ensures
            state == self@.state,
    {
        self.state
    }

    /// Takes a pipe in. It joins the fair queue, inactive, with its receive
    /// priority. If the socket has a pipe of that endpoint already, the new
    /// pipe takes its place and the call fails with an error of kind
    /// `InvalidInput`.
    pub fn add_pipe(&mut self, ctx: &mut Context, eid: EndpointId, pipe: Pipe) -> (res: Result<
        (),
        Error,
    >)
        requires
            old(self).wf(),
            pipe.wf(),
        ensures
            final(self)@ == old(self)@.add_pipe(eid, pipe),
            final(self).wf(),
            final(self).socket_id() == old(self).socket_id(),
            final(ctx)@ == old(ctx)@,
            res == if old(self)@.pipes.contains_key(eid.0) {
                Err::<(), Error>(pipe_already_added())
            } else {
                Ok::<(), Error>(())
            },
    {
        proof {
            self@.fq.lemma_insert_wf(eid, pipe.recv_priority);
        }
        self.body.fq.insert(eid, pipe.get_recv_priority());
        match self.body.pipes.insert(eid.0, pipe) {
            None => Ok(()),
            Some(_) => Err(invalid_input_io_error("A pipe has already been added with that token")),
        }
    }

    /// Gives a pipe up, and hands it back if the socket had it. A receive
    /// that the pipe was serving is put on hold.
    pub fn remove_pipe(&mut self, ctx: &mut Context, eid: EndpointId) -> (pipe: Option<Pipe>)
        requires
            old(self).wf(),
        ensures
            final(self)@ == old(self)@.remove_pipe(eid),
            final(self).wf(),
            final(self).socket_id() == old(self).socket_id(),
            final(ctx)@ == old(ctx)@,
            pipe == if old(self)@.pipes.contains_key(eid.0) {
                Some(old(self)@.pipes[eid.0])
            } else {
                None
            },
    {
        proof {
            self@.fq.lemma_remove_wf(eid);
        }
        let was_active = self.body.is_active_pipe(eid);
        self.body.fq.remove(eid);
        let pipe = self.body.pipes.remove(&eid.0);

        if pipe.is_some() && was_active {
            self.state = match self.state {
                State::Receiving(timeout) => State::RecvOnHold(timeout),
                other => other,
            };
        }

        pipe
    }

    /// A send is refused at once: the user gets an error of kind `Other`,
    /// and the timer of the send is cancelled.
    pub fn send(&mut self, ctx: &mut Context, msg: Message, timeout: Timeout)
        ensures
            final(self)@ == old(self)@,
            final(self).wf() == old(self).wf(),
            final(self).socket_id() == old(self).socket_id(),
            final(ctx)@ == old(ctx)@ + old(self)@.send(timeout).cmds,
    {
        let error = other_io_error("send not supported by protocol");
        ctx.reply_send(Reply::Error(error));
        ctx.cancel_timeout(timeout);
        assert(ctx@ =~= old(ctx)@ + (seq![ProtoCmd::ReplySend(Reply::Error(send_not_supported()))]
            + cancelled(timeout)));
    }

    /// Nothing is ever sent, so no pipe acknowledges a send.
    pub fn on_send_ack(&mut self, ctx: &mut Context, eid: EndpointId)
        ensures
            final(self)@ == old(self)@,
            final(self).wf() == old(self).wf(),
            final(self).socket_id() == old(self).socket_id(),
            final(ctx)@ == old(ctx)@,
    {
    }

    /// Nothing is ever sent, so no send runs out of time.
    pub fn on_send_timeout(&mut self, ctx: &mut Context)
        ensures
            final(self)@ == old(self)@,
            final(self).wf() == old(self).wf(),
            final(self).socket_id() == old(self).socket_id(),
            final(ctx)@ == old(ctx)@,
    {
    }

    /// Nothing is ever sent, so it does not matter which pipe could send.
    pub fn on_send_ready(&mut self, ctx: &mut Context, eid: EndpointId)
        ensures
            final(self)@ == old(self)@,
            final(self).wf() == old(self).wf(),
            final(self).socket_id() == old(self).socket_id(),
            final(ctx)@ == old(ctx)@,
    {
    }

    fn start_recv(&mut self, ctx: &mut Context, timeout: Timeout)
        requires
            old(self).wf(),
        ensures
            final(self)@ == old(self)@.start_recv(timeout).next,
            final(ctx)@ == old(ctx)@ + old(self)@.start_recv(timeout).cmds,
            final(self).wf(),
            final(self).socket_id() == old(self).socket_id(),
    {
        let ghost before = self.body.with_state(self.state);
        if self.body.recv(ctx) {
            assert(before.next_pipe() is Some);
            self.state = State::Receiving(timeout);
        } else {
            assert(before.next_pipe() is None);
            self.state = State::RecvOnHold(timeout);
        }
    }

    /// The user asks for a message. The pipe on which the fair queue rests
    /// is asked for one; if there is none, the receive is put on hold. While
    /// a receive is pending, a second one is ignored.
    pub fn recv(&mut self, ctx: &mut Context, timeout: Timeout)
        requires
            old(self).wf(),
        ensures
            final(self)@ == old(self)@.recv(timeout).next,
            final(ctx)@ == old(ctx)@ + old(self)@.recv(timeout).cmds,
            final(self).wf(),
            final(self).socket_id() == old(self).socket_id(),
    {
        match self.state {
            State::Idle => self.start_recv(ctx, timeout),
            _ => {
                assert(ctx@ =~= old(ctx)@ + Seq::<ProtoCmd>::empty());
            },
        }
    }

    /// A pipe hands over a message. If it is the pipe that was asked, it
    /// leaves the active set of the fair queue; a message that matches a
    /// subscription goes to the user and the timer of the receive is
    /// cancelled; any other message is dropped and the receive is started
    /// again.
    pub fn on_recv_ack(&mut self, ctx: &mut Context, eid: EndpointId, msg: Message)
        requires
            old(self).wf(),
        ensures
            final(self)@ == old(self)@.on_recv_ack(eid, msg).next,
            final(ctx)@ == old(ctx)@ + old(self)@.on_recv_ack(eid, msg).cmds,
            final(self).wf(),
            final(self).socket_id() == old(self).socket_id(),
    {
        proof {
            self@.fq.lemma_deactivate_and_advance_wf();
        }
        match self.state {
            State::Receiving(timeout) => {
                if self.body.is_active_pipe(eid) {
                    let accepted = self.body.accept(&msg);
                    self.body.fq.deactivate_and_advance();
                    if accepted {
                        self.body.on_recv_done(ctx, msg, timeout);
                        self.state = State::Idle;
                    } else {
                        self.start_recv(ctx, timeout);
                    }
                } else {
                    assert(ctx@ =~= old(ctx)@ + Seq::<ProtoCmd>::empty());
                }
            },
            _ => {
                assert(ctx@ =~= old(ctx)@ + Seq::<ProtoCmd>::empty());
            },
        }
    }

    /// The deadline of the receive has passed: the user gets an error of
    /// kind `TimedOut`, and the pipe that was asked leaves the active set of
    /// the fair queue.
    pub fn on_recv_timeout(&mut self, ctx: &mut Context)
        requires
            old(self).wf(),
        ensures
            final(self)@ == old(self)@.on_recv_timeout().next,
            final(ctx)@ == old(ctx)@ + old(self)@.on_recv_timeout().cmds,
            final(self).wf(),
            final(self).socket_id() == old(self).socket_id(),
    {
        proof {
            self@.fq.lemma_deactivate_and_advance_wf();
        }
        match self.state {
            State::Idle => {
                assert(ctx@ =~= old(ctx)@ + Seq::<ProtoCmd>::empty());
            },
            _ => {
                self.body.on_recv_timeout(ctx);
                self.body.fq.deactivate_and_advance();
                self.state = State::Idle;
            },
        }
    }

    /// A pipe reports that it can receive. It becomes active in the fair
    /// queue, and a receive on hold is started.
    pub fn on_recv_ready(&mut self, ctx: &mut Context, eid: EndpointId)
        requires
            old(self).wf(),
        ensures
            final(self)@ == old(self)@.on_recv_ready(eid).next,
            final(ctx)@ == old(ctx)@ + old(self)@.on_recv_ready(eid).cmds,
            final(self).wf(),
            final(self).socket_id() == old(self).socket_id(),
    {
        proof {
            self@.fq.lemma_activate_wf(eid);
        }
        self.body.fq.activate(eid);
        match self.state {
            State::RecvOnHold(timeout) => self.start_recv(ctx, timeout),
            _ => {
                assert(ctx@ =~= old(ctx)@ + Seq::<ProtoCmd>::empty());
            },
        }
    }

    /// The reactor reports the pipe of `eid` ready. A readable pipe is
    /// ready to receive.
    pub fn ready(&mut self, ctx: &mut Context, eid: EndpointId, events: mio::EventSet)
        requires
            old(self).wf(),
        ensures
            final(self)@ == old(self)@.ready(eid, event_set_bits(events)).next,
            final(ctx)@ == old(ctx)@ + old(self)@.ready(eid, event_set_bits(events)).cmds,
            final(self).wf(),
            final(self).socket_id() == old(self).socket_id(),
    {
        if is_readable(&events) {
            self.on_recv_ready(ctx, eid);
        } else {
            assert(ctx@ =~= old(ctx)@ + Seq::<ProtoCmd>::empty());
        }
    }

    /// Takes a subscription, or takes one back. SUB has no other option: any
    /// other fails with an error of kind `InvalidInput`.
    pub fn set_option(&mut self, option: SocketOption) -> (res: Result<(), Error>)
        requires
            old(self).wf(),
        ensures
            final(self)@ == old(self)@.set_option(option).0,
            res == old(self)@.set_option(option).1,
            final(self).wf(),
            final(self).socket_id() == old(self).socket_id(),
    {
        match option {
            SocketOption::Subscribe(subscription) => {
                self.body.subscribe(subscription);
                Ok(())
            },
            SocketOption::Unsubscribe(subscription) => {
                self.body.unsubscribe(subscription);
                Ok(())
            },
            _ => Err(invalid_input_io_error("option not supported by protocol")),
        }
    }

    /// Whether the message matches a subscription.
    pub fn accept(&self, msg: &Message) -> (yes: bool)
        ensures
            yes == accepts(self@.subscriptions, msg.body@),
    {
        self.body.accept(msg)
    }
}

} // verus!
