//! The executor: it owns one transport and drives one command at a time
//! over it.
use crate::cbor::decode::{decode, decode_value, CodecError};
use crate::cbor::encode::encode;
use crate::cbor::value::{encode_value, CborModel, CborValue};
use crate::commands::errors::{parse_err_response, reported, DeviceError, ErrResponse};
use crate::commands::{identity_of, CommandIdentity, McuMgrCommand};
use crate::frame::{
    build_request, check_response, request_frame, response_payload, Malformed, MAX_PAYLOAD_LEN,
};
use crate::progress::{FirmwareUpdateProgressCallback, ProgressCallback};
use crate::transport::{Transport, TransportError};
use vstd::prelude::*;

verus! {

/// Why a command did not come back with a response.
#[derive(Debug, Clone, PartialEq, Eq)]
pub enum ExecuteError {
    /// The payload is longer than a frame can announce; nothing was sent.
    PayloadTooLarge,
    /// The transport failed to write the request or to read the response.
    Transport(TransportError),
    /// What came back is not the response frame that was waited for.
    Malformed(Malformed),
    /// The payload of the response could not be read.
    Codec(CodecError),
    /// The device reported a failure.
    Device(DeviceError),
}

/// What came back for a request.
pub enum Reply {
    /// The transport failed to write the request.
    NotSent(TransportError),
    /// The request was written and the transport failed to read.
    Lost(TransportError),
    /// The request was written and this frame was read.
    Frame(Seq<u8>),
}

/// What a connection did with the outside.
pub enum Event {
    /// The frame `request` was handed to the transport, and `reply` came
    /// back.
    Exchange { request: Seq<u8>, reply: Reply },
    /// The progress callback of a transfer was called with `current` and
    /// `total`, and answered `proceed`.
    Progress { current: u64, total: u64, proceed: bool },
    /// The progress callback of a firmware update was called with `label`
    /// and `progress`, and answered `proceed`.
    Step { label: Seq<char>, progress: Option<(u64, u64)>, proceed: bool },
}

/// The reply of an exchange.
pub open spec fn reply_of(event: Event) -> Reply
    recommends
        event is Exchange,
{
    match event {
        Event::Exchange { reply, .. } => reply,
        _ => Reply::Frame(Seq::empty()),
    }
}

/// Whether a transport that is `before` is `after` where `request` is
/// handed to it once and `reply` comes back: the request is written, once;
/// where the write fails, nothing is read; where it does not, one frame is
/// read, once.
pub open spec fn exchanged<T: Transport>(before: T, request: Seq<u8>, reply: Reply, after: T)
    -> bool {
    match reply {
        Reply::NotSent(e) => before.may_write(request, Some(e), after),
        Reply::Lost(e) => exists|between: T| #[trigger]
            before.may_write(request, None, between) && between.may_read(Err(e), after),
        Reply::Frame(frame) => exists|between: T| #[trigger]
            before.may_write(request, None, between) && between.may_read(Ok(frame), after),
    }
}

/// Whether `states` are what a party to `events` is before the first of
/// them, between them and after the last, where `step` says what an event
/// may make of the party.
pub open spec fn chain<S>(
    events: Seq<Event>,
    states: Seq<S>,
    step: spec_fn(S, Event, S) -> bool,
) -> bool {
    &&& states.len() == events.len() + 1
    &&& forall|i: int|
        0 <= i < events.len() ==> step(#[trigger] states[i], events[i], states[i + 1])
}

/// Whether a party that is `start` is `end` after `events`, one after the
/// other, and nothing else, where `step` says what an event may make of
/// the party.
pub open spec fn run<S>(
    events: Seq<Event>,
    start: S,
    end: S,
    step: spec_fn(S, Event, S) -> bool,
) -> bool {
    exists|states: Seq<S>| #[trigger]
        chain(events, states, step) && states[0] == start && states.last() == end
}

/// What an event may make of a transport: an exchange is handed to it
/// once, and anything else leaves it alone.
pub open spec fn transport_step<T: Transport>() -> spec_fn(T, Event, T) -> bool {
    |before: T, event: Event, after: T|
        match event {
            Event::Exchange { request, reply } => exchanged(before, request, reply, after),
            _ => before == after,
        }
}

/// What an event may make of the callback of a transfer: a report is
/// answered by it once, and anything else leaves it alone.
pub open spec fn report_step<P: ProgressCallback>() -> spec_fn(P, Event, P) -> bool {
    |before: P, event: Event, after: P|
        match event {
            Event::Progress { current, total, proceed } => before.may_answer(
                current,
                total,
                proceed,
                after,
            ),
            _ => before == after,
        }
}

/// What an event may make of the callback of a firmware update: the
/// report of a step is answered by it once, and anything else leaves it
/// alone.
pub open spec fn label_step<F: FirmwareUpdateProgressCallback>() -> spec_fn(F, Event, F) -> bool {
    |before: F, event: Event, after: F|
        match event {
            Event::Step { label, progress, proceed } => before.may_answer_step(
                label,
                progress,
                proceed,
                after,
            ),
            _ => before == after,
        }
}

/// Whether a transport that is `start` is `end` after the exchanges among
/// `events`, one after the other, and nothing else.
pub open spec fn transport_run<T: Transport>(events: Seq<Event>, start: T, end: T) -> bool {
    run(events, start, end, transport_step::<T>())
}

/// Whether a callback that is `start` is `end` after the reports of a
/// transfer among `events`, one after the other, and nothing else.
pub open spec fn reports_run<P: ProgressCallback>(events: Seq<Event>, start: P, end: P) -> bool {
    run(events, start, end, report_step::<P>())
}

/// Whether a callback that is `start` is `end` after the reports of
/// steps among `events`, one after the other, and nothing else.
pub open spec fn steps_run<F: FirmwareUpdateProgressCallback>(
    events: Seq<Event>,
    start: F,
    end: F,
) -> bool {
    run(events, start, end, label_step::<F>())
}

/// The sequence token that follows `token`.
pub open spec fn next_token(token: u8) -> u8 {
    if token == 255 {
        0
    } else {
        (token + 1) as u8
    }
}

/// What `execute` returns where `reply` came back for the request for
/// `identity` with `sequence`.
pub open spec fn outcome(identity: CommandIdentity, sequence: u8, reply: Reply) -> Result<
    Seq<u8>,
    ExecuteError,
> {
    match reply {
        Reply::NotSent(e) => Err(ExecuteError::Transport(e)),
        Reply::Lost(e) => Err(ExecuteError::Transport(e)),
        Reply::Frame(frame) => match response_payload(identity, sequence, frame) {
            Ok(payload) => Ok(payload),
            Err(m) => Err(ExecuteError::Malformed(m)),
        },
    }
}

/// The item that the payload of a response spells, where the device
/// reported no failure. A failure that the device reported comes before
/// anything else that the payload may hold.
pub open spec fn response_item(payload: Seq<u8>) -> Result<CborModel, ExecuteError> {
    match decode_value(payload) {
        None => Err(ExecuteError::Codec(CodecError::Malformed)),
        Some(m) => match parse_err_response(m) {
            Err(e) => Err(ExecuteError::Codec(e)),
            Ok(fields) => match reported(fields) {
                Some(failure) => Err(ExecuteError::Device(failure)),
                None => Ok(m),
            },
        },
    }
}

/// What a command gives: the response that `parse` reads from the item
/// that came back.
pub open spec fn parsed<R>(
    item: Result<CborModel, ExecuteError>,
    parse: spec_fn(CborModel) -> Result<R, CodecError>,
) -> Result<R, ExecuteError> {
    match item {
        Err(e) => Err(e),
        Ok(m) => match parse(m) {
            Ok(response) => Ok(response),
            Err(e) => Err(ExecuteError::Codec(e)),
        },
    }
}

/// Reads the item that the payload of a response spells, where the device
/// reported no failure.
pub fn read_response_item(payload: &[u8]) -> (r: Result<CborValue, ExecuteError>)
    ensures
        match response_item(payload@) {
            Ok(m) => r matches Ok(v) && v@ == m,
            Err(e) => r matches Err(f) && f == e,
        },
{
    let value = match decode(payload) {
        Ok(value) => value,
        Err(e) => {
            return Err(ExecuteError::Codec(e));
        },
    };
    let fields = match ErrResponse::from_value(&value) {
        Ok(fields) => fields,
        Err(e) => {
            return Err(ExecuteError::Codec(e));
        },
    };
    match fields.device_error() {
        Some(failure) => Err(ExecuteError::Device(failure)),
        None => Ok(value),
    }
}

/// A connection to a device.
pub struct Connection<T: Transport> {
    transport: T,
    next_sequence: u8,
    history: Ghost<Seq<Event>>,
}

impl<T: Transport> Connection<T> {
    /// What this connection did with the outside, oldest first: every
    /// request that it handed to its transport with what came back for it,
    /// and every call of a progress callback with its answer.
    pub closed spec fn history(&self) -> Seq<Event> {
        self.history@
    }

    /// The sequence token of the next request.
    pub closed spec fn next_sequence(&self) -> u8 {
        self.next_sequence
    }

    /// The transport that this connection owns.
    pub closed spec fn owned(&self) -> T {
        self.transport
    }

    /// Whether this connection has done all that `before` had done, in the
    /// same order, and possibly more after it.
    pub open spec fn extends(self, before: Self) -> bool {
        &&& before.history().len() <= self.history().len()
        &&& self.history().take(before.history().len() as int) == before.history()
    }

    /// What this connection has done since it was `before`.
    pub open spec fn since(self, before: Self) -> Seq<Event> {
        self.history().skip(before.history().len() as int)
    }

    /// Whether the transport of this connection is what the transport of
    /// `before` becomes by the exchanges that this connection has made
    /// since it was `before`, one after the other, and by nothing else.
    pub open spec fn ran(self, before: Self) -> bool {
        transport_run(self.since(before), before.owned(), self.owned())
    }

    /// Whether the transport of this connection is what the transport of
    /// `before` becomes where `request` is handed to it once and `reply`
    /// comes back: the request is written, once; where the write fails,
    /// nothing is read; where it does not, one frame is read, once.
    pub open spec fn handed_over(self, before: Self, request: Seq<u8>, reply: Reply) -> bool {
        exchanged(before.owned(), request, reply, self.owned())
    }

    /// Whether this connection is what `before` becomes by one command with
    /// `identity` and `payload`: the frame of the command under the
    /// sequence token that was next is handed to the transport once, the
    /// exchange is one more in the history, and the token after it is next
    /// now. A payload that is too long to be framed changes nothing, and
    /// nothing is handed to the transport.
    pub open spec fn follows(self, before: Self, identity: CommandIdentity, payload: Seq<u8>)
        -> bool {
        if payload.len() > MAX_PAYLOAD_LEN {
            &&& self.history() == before.history()
            &&& self.next_sequence() == before.next_sequence()
            &&& self.owned() == before.owned()
        } else {
            &&& self.history() == before.history().push(
                Event::Exchange {
                    request: request_frame(identity, before.next_sequence(), payload),
                    reply: reply_of(self.history().last()),
                },
            )
            &&& self.next_sequence() == next_token(before.next_sequence())
            &&& self.handed_over(
                before,
                request_frame(identity, before.next_sequence(), payload),
                reply_of(self.history().last()),
            )
        }
    }

    /// The payload that came back for the command by which this connection
    /// follows `before`, or why there is none.
    pub open spec fn answer(self, before: Self, identity: CommandIdentity, payload: Seq<u8>)
        -> Result<Seq<u8>, ExecuteError> {
        if payload.len() > MAX_PAYLOAD_LEN {
            Err(ExecuteError::PayloadTooLarge)
        } else {
            outcome(identity, before.next_sequence(), reply_of(self.history().last()))
        }
    }

    /// The item that came back for the command by which this connection
    /// follows `before`, or why there is none.
    pub open spec fn answer_item(self, before: Self, identity: CommandIdentity, payload: Seq<u8>)
        -> Result<CborModel, ExecuteError> {
        match self.answer(before, identity, payload) {
            Err(e) => Err(e),
            Ok(p) => response_item(p),
        }
    }

    /// A connection over `transport` that has sent nothing yet.
    pub fn new(transport: T) -> (c: Self)
        ensures
            c.history() == Seq::<Event>::empty(),
            c.next_sequence() == 0,
            c.owned() == transport,
    {
        Connection { transport, next_sequence: 0, history: Ghost(Seq::empty()) }
    }

    /// The transport.
    pub fn transport(&self) -> (transport: &T)
        ensures
            *transport == self.owned(),
    {
        &self.transport
    }

    /// Ends the connection and hands the transport back.
    pub fn into_transport(self) -> (transport: T)
        ensures
            transport == self.owned(),
    {
        self.transport
    }

    /// Frames `payload` as the request for `identity`, writes it, reads one
    /// frame and takes the payload out of it. One exchange is added to the
    /// history, unless the payload is too long to be framed.
    pub fn execute(&mut self, identity: CommandIdentity, payload: &[u8]) -> (r: Result<
        Vec<u8>,
        ExecuteError,
    >)
        ensures
            final(self).follows(*old(self), identity, payload@),
            match final(self).answer(*old(self), identity, payload@) {
                Ok(p) => r matches Ok(got) && got@ == p,
                Err(e) => r matches Err(f) && f == e,
            },
    {
        if payload.len() > MAX_PAYLOAD_LEN {
            return Err(ExecuteError::PayloadTooLarge);
        }
        let sequence = self.next_sequence;
        self.next_sequence = if sequence == 255 {
            0
        } else {
            sequence + 1
        };
        let request = build_request(&identity, sequence, payload);
        match self.transport.write(request.as_slice()) {
            Ok(()) => {},
            Err(e) => {
                proof {
                    self.history@ = self.history@.push(
                        Event::Exchange { request: request@, reply: Reply::NotSent(e) },
                    );
                }
                return Err(ExecuteError::Transport(e));
            },
        }
        let ghost between = self.transport;
        let frame = match self.transport.read() {
            Ok(frame) => frame,
            Err(e) => {
                proof {
                    self.history@ = self.history@.push(
                        Event::Exchange { request: request@, reply: Reply::Lost(e) },
                    );
                    assert(old(self).owned().may_write(request@, None, between)
                        && between.may_read(Err(e), self.owned()));
                }
                return Err(ExecuteError::Transport(e));
            },
        };
        proof {
            self.history@ = self.history@.push(
                Event::Exchange { request: request@, reply: Reply::Frame(frame@) },
            );
            assert(old(self).owned().may_write(request@, None, between) && between.may_read(
                Ok(frame@),
                self.owned(),
            ));
        }
        match check_response(&identity, sequence, frame.as_slice()) {
            Ok(payload) => Ok(payload),
            Err(m) => Err(ExecuteError::Malformed(m)),
        }
    }

    /// Calls the progress callback of a transfer once with `current` and
    /// `total`, records the call, and gives the answer of the callback.
    /// The transport is left alone.
    pub fn notify<P: ProgressCallback>(&mut self, progress: &mut P, current: u64, total: u64) -> (proceed:
        bool)
        ensures
            old(progress).may_answer(current, total, proceed, *final(progress)),
            final(self).history() == old(self).history().push(
                Event::Progress { current, total, proceed },
            ),
            final(self).next_sequence() == old(self).next_sequence(),
            final(self).owned() == old(self).owned(),
    {
        let proceed = progress.report(current, total);
        proof {
            self.history@ = self.history@.push(Event::Progress { current, total, proceed });
        }
        proceed
    }

    /// Calls the progress callback of a firmware update once with `label`
    /// and `progress`, records the call, and gives the answer of the
    /// callback. The transport is left alone.
    pub fn notify_step<F: FirmwareUpdateProgressCallback>(
        &mut self,
        callback: &mut F,
        label: &str,
        progress: Option<(u64, u64)>,
    ) -> (proceed: bool)
        ensures
            old(callback).may_answer_step(label@, progress, proceed, *final(callback)),
            final(self).history() == old(self).history().push(
                Event::Step { label: label@, progress, proceed },
            ),
            final(self).next_sequence() == old(self).next_sequence(),
            final(self).owned() == old(self).owned(),
    {
        let proceed = callback.report_step(label, progress);
        proof {
            self.history@ = self.history@.push(Event::Step { label: label@, progress, proceed });
        }
        proceed
    }

    /// Executes `command`: sends its payload, and reads its response from
    /// the payload that comes back. A failure that the device reports comes
    /// before the attempt to read the response.
    pub fn execute_command<C: McuMgrCommand>(&mut self, command: &C) -> (r: Result<
        C::Response,
        ExecuteError,
    >)
        ensures
            exists|identity: CommandIdentity, data: CborValue|
                {
                    &&& #[trigger] sent_for(command, identity, data)
                    &&& final(self).follows(*old(self), identity, encode_value(data@))
                    &&& match final(self).answer_item(*old(self), identity, encode_value(data@)) {
                        Err(e) => r matches Err(f) && f == e,
                        Ok(m) => exists|item: CborValue, parsed: Result<C::Response, CodecError>|
                            {
                                &&& item@ == m
                                &&& #[trigger] call_ensures(
                                    C::parse_response,
                                    (command, &item),
                                    parsed,
                                )
                                &&& match parsed {
                                    Ok(response) => r == Ok::<C::Response, ExecuteError>(response),
                                    Err(e) => r matches Err(f) && f == ExecuteError::Codec(e),
                                }
                            },
                    }
                },
    {
        let identity = identity_of(command);
        let data = command.data();
        assert(sent_for(command, identity, data));
        let payload = encode(&data);
        let raw = self.execute(identity, payload.as_slice())?;
        let item = read_response_item(raw.as_slice())?;
        match command.parse_response(&item) {
            Ok(response) => Ok(response),
            Err(e) => Err(ExecuteError::Codec(e)),
        }
    }
}

/// Whether `identity` and `data` are what `command` gives as its identity
/// and its payload.
pub open spec fn sent_for<C: McuMgrCommand>(command: &C, identity: CommandIdentity, data: CborValue)
    -> bool {
    &&& call_ensures(C::group_id, (command,), identity.group_id)
    &&& call_ensures(C::command_id, (command,), identity.command_id)
    &&& exists|is_write: bool| #[trigger]
        call_ensures(C::is_write_operation, (command,), is_write) && identity.direction
            == crate::commands::direction_of(is_write)
    &&& call_ensures(C::data, (command,), data)
}

/// A connection that has done one thing more than one that extends
/// `origin` extends `origin` too, and has done since `origin` what the
/// other had, and that one thing.
pub proof fn lemma_since_push<T: Transport>(
    now: Connection<T>,
    before: Connection<T>,
    origin: Connection<T>,
    event: Event,
)
    requires
        before.extends(origin),
        now.history() == before.history().push(event),
    ensures
        now.extends(origin),
        now.since(origin) == before.since(origin).push(event),
{
    assert(now.history().take(origin.history().len() as int) =~= before.history().take(
        origin.history().len() as int,
    ));
    assert(now.since(origin) =~= before.since(origin).push(event));
}

/// A connection that extends one that extends `origin` extends `origin`
/// too, and has done since `origin` what the other had, and then what it
/// has done since the other.
pub proof fn lemma_since_add<T: Transport>(
    now: Connection<T>,
    before: Connection<T>,
    origin: Connection<T>,
)
    requires
        before.extends(origin),
        now.extends(before),
    ensures
        now.extends(origin),
        now.since(origin) == before.since(origin) + now.since(before),
{
    let n = origin.history().len() as int;
    let m = before.history().len() as int;
    assert(now.history().take(n) =~= now.history().take(m).take(n));
    assert(now.since(origin) =~= before.since(origin) + now.since(before)) by {
        assert forall|i: int| 0 <= i < m - n implies now.since(origin)[i] == before.since(
            origin,
        )[i] by {
            assert(now.history().take(m)[n + i] == before.history()[n + i]);
        }
    }
}

/// A connection that has done one thing more than one that extends
/// `origin`, and whose transport is what that thing makes of it, has a
/// transport that all that was done since `origin` has made.
pub proof fn lemma_ran_push<T: Transport>(
    now: Connection<T>,
    before: Connection<T>,
    origin: Connection<T>,
    event: Event,
)
    requires
        before.extends(origin),
        before.ran(origin),
        now.history() == before.history().push(event),
        transport_step::<T>()(before.owned(), event, now.owned()),
    ensures
        now.extends(origin),
        now.since(origin) == before.since(origin).push(event),
        now.ran(origin),
{
    lemma_since_push(now, before, origin, event);
    lemma_run_push(
        before.since(origin),
        origin.owned(),
        before.owned(),
        event,
        now.owned(),
        transport_step::<T>(),
    );
}

/// A connection that extends one that extends `origin`, each with a
/// transport that what was done in between has made, has a transport that
/// all that was done since `origin` has made.
pub proof fn lemma_ran_add<T: Transport>(
    now: Connection<T>,
    before: Connection<T>,
    origin: Connection<T>,
)
    requires
        before.extends(origin),
        before.ran(origin),
        now.extends(before),
        now.ran(before),
    ensures
        now.extends(origin),
        now.since(origin) == before.since(origin) + now.since(before),
        now.ran(origin),
{
    lemma_since_add(now, before, origin);
    lemma_run_add(
        before.since(origin),
        now.since(before),
        origin.owned(),
        before.owned(),
        now.owned(),
        transport_step::<T>(),
    );
}

/// A connection has done nothing since it was itself, and its transport
/// is its transport.
pub proof fn lemma_ran_nothing<T: Transport>(now: Connection<T>)
    ensures
        now.extends(now),
        now.since(now) == Seq::<Event>::empty(),
        now.ran(now),
{
    assert(now.history().take(now.history().len() as int) =~= now.history());
    assert(now.since(now) =~= Seq::<Event>::empty());
    lemma_run_empty(now.owned(), transport_step::<T>());
}

/// A party is after no events what it was before.
pub proof fn lemma_run_empty<S>(state: S, step: spec_fn(S, Event, S) -> bool)
    ensures
        run(Seq::<Event>::empty(), state, state, step),
{
    let states = seq![state];
    assert(chain(Seq::<Event>::empty(), states, step));
    assert(states[0] == state && states.last() == state);
}

/// What events made of a party, and then one event more.
pub proof fn lemma_run_push<S>(
    events: Seq<Event>,
    start: S,
    mid: S,
    event: Event,
    end: S,
    step: spec_fn(S, Event, S) -> bool,
)
    requires
        run(events, start, mid, step),
        step(mid, event, end),
    ensures
        run(events.push(event), start, end, step),
{
    let states = choose|states: Seq<S>| #[trigger]
        chain(events, states, step) && states[0] == start && states.last() == mid;
    let longer = states.push(end);
    let all = events.push(event);
    assert forall|i: int| 0 <= i < all.len() implies step(
        #[trigger] longer[i],
        all[i],
        longer[i + 1],
    ) by {
        if i < events.len() {
            assert(step(states[i], events[i], states[i + 1]));
        }
    }
    assert(chain(all, longer, step));
    assert(longer[0] == start && longer.last() == end);
}

/// What events made of a party, and then what more events made of it.
pub proof fn lemma_run_add<S>(
    first: Seq<Event>,
    then: Seq<Event>,
    start: S,
    mid: S,
    end: S,
    step: spec_fn(S, Event, S) -> bool,
)
    requires
        run(first, start, mid, step),
        run(then, mid, end, step),
    ensures
        run(first + then, start, end, step),
{
    let before = choose|states: Seq<S>| #[trigger]
        chain(first, states, step) && states[0] == start && states.last() == mid;
    let after = choose|states: Seq<S>| #[trigger]
        chain(then, states, step) && states[0] == mid && states.last() == end;
    let all = first + then;
    let states = before + after.skip(1);
    assert forall|i: int| 0 <= i < all.len() implies step(
        #[trigger] states[i],
        all[i],
        states[i + 1],
    ) by {
        if i < first.len() {
            assert(step(before[i], first[i], before[i + 1]));
            if i + 1 == first.len() {
                assert(states[i + 1] == after[0]);
            }
        } else {
            let j = i - first.len();
            assert(step(after[j], then[j], after[j + 1]));
            assert(states[i + 1] == after[j + 1]);
            if j == 0 {
                assert(states[i] == before.last());
            } else {
                assert(states[i] == after[j]);
            }
        }
    }
    assert(chain(all, states, step));
    assert(states[0] == start && states.last() == end);
}

/// Nothing is tried again. Where the transport fails to write the request
/// of a command, the command fails with that failure, and the transport
/// is what the one write left: nothing was read. Where it fails to read,
/// the command fails with that failure, and the transport is what the one
/// write and the one read left.
pub proof fn lemma_failure_is_not_tried_again<T: Transport>(
    now: Connection<T>,
    before: Connection<T>,
    identity: CommandIdentity,
    payload: Seq<u8>,
    e: TransportError,
)
    requires
        payload.len() <= MAX_PAYLOAD_LEN,
        now.follows(before, identity, payload),
        reply_of(now.history().last()) == Reply::NotSent(e) || reply_of(now.history().last())
            == Reply::Lost(e),
    ensures
        now.answer(before, identity, payload) == Err::<Seq<u8>, ExecuteError>(
            ExecuteError::Transport(e),
        ),
        now.history().len() == before.history().len() + 1,
        reply_of(now.history().last()) == Reply::NotSent(e) ==> before.owned().may_write(
            request_frame(identity, before.next_sequence(), payload),
            Some(e),
            now.owned(),
        ),
        reply_of(now.history().last()) == Reply::Lost(e) ==> exists|between: T| #[trigger]
            before.owned().may_write(
                request_frame(identity, before.next_sequence(), payload),
                None,
                between,
            ) && between.may_read(Err(e), now.owned()),
{
}

} // verus!
