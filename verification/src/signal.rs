use vstd::prelude::*;

use core::marker::PhantomData;

use crate::text_format::{decimal_digits, push_decimal, push_str};

verus! {

/// A queued signal together with the kind it was emitted as.
#[derive(Debug, Clone, Copy, PartialEq, Eq, Structural)]
pub struct SignalEnvelope<Signal> {
    pub signal_type_id: u64,
    pub signal: Signal,
}

/// Signals waiting for the next dispatch, in emission order.
pub struct SignalQueue<Signal> {
    pending: Vec<SignalEnvelope<Signal>>,
}

impl<Signal> SignalQueue<Signal> {
    pub closed spec fn view(&self) -> Seq<SignalEnvelope<Signal>> {
        self.pending@
    }

    pub fn new() -> (r: Self)
        ensures
            r@ == Seq::<SignalEnvelope<Signal>>::empty(),
    {
        SignalQueue { pending: Vec::new() }
    }

    pub fn len(&self) -> (r: usize)
        ensures
            r == self@.len(),
    {
        self.pending.len()
    }

    /// Removes and returns every queued signal, leaving the queue empty.
    pub fn take(&mut self) -> (r: Vec<SignalEnvelope<Signal>>)
        ensures
            r@ == old(self)@,
            final(self)@ == Seq::<SignalEnvelope<Signal>>::empty(),
    {
        let mut taken: Vec<SignalEnvelope<Signal>> = Vec::new();
        core::mem::swap(&mut taken, &mut self.pending);
        taken
    }

    fn push(&mut self, envelope: SignalEnvelope<Signal>)
        ensures
            final(self)@ == old(self)@.push(envelope),
    {
        self.pending.push(envelope);
    }
}

/// The handle through which signals of one registered kind are emitted.
pub struct SignalEmitter<Signal> {
    signal_type_id: u64,
    signal_type: PhantomData<Signal>,
}

impl<Signal> SignalEmitter<Signal> {
    pub closed spec fn spec_signal_type_id(&self) -> u64 {
        self.signal_type_id
    }

    pub fn signal_type_id(&self) -> (r: u64)
        ensures
            r == self.spec_signal_type_id(),
    {
        self.signal_type_id
    }

    /// Queues a signal for the bus's next dispatch.
    pub fn emit(&self, signals: &mut SignalQueue<Signal>, signal: Signal)
        ensures
            final(signals)@ == old(signals)@.push(
                SignalEnvelope { signal_type_id: self.spec_signal_type_id(), signal },
            ),
    {
        signals.push(SignalEnvelope { signal_type_id: self.signal_type_id, signal });
    }
}

impl<Signal> Clone for SignalEmitter<Signal> {
    fn clone(&self) -> (r: Self)
        ensures
            r.spec_signal_type_id() == self.spec_signal_type_id(),
    {
        SignalEmitter { signal_type_id: self.signal_type_id, signal_type: PhantomData }
    }
}

/// The signals one listener emitted while handling a signal, in order.
pub type EmittedSignals<Signal> = Seq<SignalEnvelope<Signal>>;

/// Something that reacts to dispatched signals; it may emit further signals, which wait for
/// the next dispatch.
pub trait SignalListener<Signal, Context, HandlerError> {
    /// Whether handling `signal` may take the context from `before` to `after`, emit the
    /// signals `emitted`, in order, and end in `result`.
    spec fn handles(
        &self,
        signal: Signal,
        before: Context,
        after: Context,
        emitted: EmittedSignals<Signal>,
        result: Result<(), HandlerError>,
    ) -> bool;

    /// Handles `signal`: changes the context and appends what it emits to `signals`, as
    /// `handles` describes.
    fn handle(&self, signal: &Signal, context: &mut Context, signals: &mut SignalQueue<Signal>) -> (r: Result<(), HandlerError>)
        ensures
            old(signals)@.len() <= final(signals)@.len(),
            final(signals)@.take(old(signals)@.len() as int) == old(signals)@,
            self.handles(*signal, *old(context), *final(context), final(signals)@.skip(old(signals)@.len() as int), r),
    ;
}

/// A listener of one signal kind. The errors of a fallible listener stop a dispatch; those of
/// any other listener are ignored.
pub struct Subscription<Listener> {
    pub signal_type: u64,
    pub listener: Listener,
    pub fallible: bool,
}

#[derive(Debug, PartialEq, Eq, Clone, Copy, Structural)]
pub struct RegisterSignalError {
    pub signal_type: u64,
}

#[derive(Debug, PartialEq, Eq, Clone, Copy, Structural)]
pub struct ListenSignalError {
    pub signal_type: u64,
}

impl RegisterSignalError {
    /// The error as text, naming the signal kind.
    pub fn message(&self) -> (r: String)
        ensures
            r@ == "signal "@ + decimal_digits(self.signal_type as nat) + " is already registered"@,
    {
        let mut text = String::new();
        push_str(&mut text, "signal ");
        push_decimal(&mut text, self.signal_type);
        push_str(&mut text, " is already registered");
        text
    }
}

impl ListenSignalError {
    /// The error as text, naming the signal kind.
    pub fn message(&self) -> (r: String)
        ensures
            r@ == "signal "@ + decimal_digits(self.signal_type as nat) + " is not registered"@,
    {
        let mut text = String::new();
        push_str(&mut text, "signal ");
        push_decimal(&mut text, self.signal_type);
        push_str(&mut text, " is not registered");
        text
    }
}

#[derive(Debug, PartialEq, Eq)]
pub enum DispatchSignalError<HandlerError> {
    UnexpectedSignalType { expected: u64 },
    Handler(HandlerError),
}

/// The kinds of the listeners, in registration order.
pub open spec fn listener_kinds<Listener>(listeners: Seq<Subscription<Listener>>) -> Seq<u64> {
    Seq::new(listeners.len(), |i: int| listeners[i].signal_type)
}

/// The deliveries of one envelope: a pair (listener index, envelope) for each listener of
/// its kind among the first `upto`, in registration order.
pub open spec fn deliveries_of<Signal>(envelope: SignalEnvelope<Signal>, kinds: Seq<u64>, upto: int) -> Seq<(int, SignalEnvelope<Signal>)>
    decreases upto,
{
    if upto <= 0 {
        Seq::empty()
    } else {
        let before = deliveries_of(envelope, kinds, upto - 1);
        if kinds[upto - 1] == envelope.signal_type_id {
            before.push((upto - 1, envelope))
        } else {
            before
        }
    }
}

/// The deliveries of the first `upto` queued envelopes, in emission order.
pub open spec fn schedule<Signal>(pending: Seq<SignalEnvelope<Signal>>, kinds: Seq<u64>, upto: int) -> Seq<(int, SignalEnvelope<Signal>)>
    decreases upto,
{
    if upto <= 0 {
        Seq::empty()
    } else {
        schedule(pending, kinds, upto - 1) + deliveries_of(pending[upto - 1], kinds, kinds.len() as int)
    }
}

/// Every delivery of a dispatch of `pending`.
pub open spec fn dispatch_schedule<Signal>(pending: Seq<SignalEnvelope<Signal>>, kinds: Seq<u64>) -> Seq<(int, SignalEnvelope<Signal>)> {
    schedule(pending, kinds, pending.len() as int)
}

/// A dispatch reaches every listener registered for a signal's kind, and only those: listener
/// `j` receives queued signal `i` exactly when it was registered for that signal's kind.
pub proof fn lemma_dispatch_reaches_the_listeners_of_the_kind<Signal>(
    pending: Seq<SignalEnvelope<Signal>>,
    kinds: Seq<u64>,
    i: int,
    j: int,
)
    requires
        0 <= i < pending.len(),
        0 <= j < kinds.len(),
    ensures
        dispatch_schedule(pending, kinds).contains((j, pending[i])) <==> kinds[j] == pending[i].signal_type_id,
{
    lemma_schedule_members(pending, kinds, pending.len() as int, j, pending[i]);
    if kinds[j] == pending[i].signal_type_id {
        lemma_deliveries_members(pending[i], kinds, kinds.len() as int, j, pending[i]);
        lemma_schedule_holds(pending, kinds, i, pending.len() as int, (j, pending[i]));
    }
}

/// The deliveries of an envelope among the first `upto` listeners hold `(j, e)` exactly when
/// `e` is the envelope and listener `j`, among them, has its kind.
proof fn lemma_deliveries_members<Signal>(
    envelope: SignalEnvelope<Signal>,
    kinds: Seq<u64>,
    upto: int,
    j: int,
    e: SignalEnvelope<Signal>,
)
    requires
        upto <= kinds.len(),
    ensures
        deliveries_of(envelope, kinds, upto).contains((j, e)) <==> (0 <= j < upto && e == envelope && kinds[j]
            == envelope.signal_type_id),
    decreases upto,
{
    if upto > 0 {
        lemma_deliveries_members(envelope, kinds, upto - 1, j, e);
        let before = deliveries_of(envelope, kinds, upto - 1);
        if kinds[upto - 1] == envelope.signal_type_id {
            let last = (upto - 1, envelope);
            if before.push(last).contains((j, e)) {
                let k = choose|k: int| 0 <= k < before.push(last).len() && before.push(last)[k] == (j, e);
                if k < before.len() {
                    assert(before[k] == (j, e));
                }
            }
            if before.contains((j, e)) {
                let k = choose|k: int| 0 <= k < before.len() && before[k] == (j, e);
                assert(before.push(last)[k] == (j, e));
            }
            if (j, e) == last {
                assert(before.push(last)[before.len() as int] == (j, e));
            }
        }
    }
}

/// Every delivery in the schedule of the first `upto` envelopes goes to a listener of the
/// delivered envelope's kind.
proof fn lemma_schedule_members<Signal>(
    pending: Seq<SignalEnvelope<Signal>>,
    kinds: Seq<u64>,
    upto: int,
    j: int,
    e: SignalEnvelope<Signal>,
)
    requires
        upto <= pending.len(),
    ensures
        schedule(pending, kinds, upto).contains((j, e)) ==> 0 <= j < kinds.len() && kinds[j] == e.signal_type_id,
    decreases upto,
{
    if upto > 0 {
        lemma_schedule_members(pending, kinds, upto - 1, j, e);
        lemma_deliveries_members(pending[upto - 1], kinds, kinds.len() as int, j, e);
        let a = schedule(pending, kinds, upto - 1);
        let b = deliveries_of(pending[upto - 1], kinds, kinds.len() as int);
        if (a + b).contains((j, e)) {
            let k = choose|k: int| 0 <= k < (a + b).len() && (a + b)[k] == (j, e);
            if k < a.len() {
                assert(a[k] == (j, e));
            } else {
                assert(b[k - a.len()] == (j, e));
            }
        }
    }
}

/// A delivery made for envelope `i` stays in the schedule of any longer prefix.
proof fn lemma_schedule_holds<Signal>(
    pending: Seq<SignalEnvelope<Signal>>,
    kinds: Seq<u64>,
    i: int,
    upto: int,
    delivery: (int, SignalEnvelope<Signal>),
)
    requires
        0 <= i < upto <= pending.len(),
        deliveries_of(pending[i], kinds, kinds.len() as int).contains(delivery),
    ensures
        schedule(pending, kinds, upto).contains(delivery),
    decreases upto,
{
    let a = schedule(pending, kinds, upto - 1);
    let b = deliveries_of(pending[upto - 1], kinds, kinds.len() as int);
    if i < upto - 1 {
        lemma_schedule_holds(pending, kinds, i, upto - 1, delivery);
        let k = choose|k: int| 0 <= k < a.len() && a[k] == delivery;
        assert((a + b)[k] == delivery);
    } else {
        let k = choose|k: int| 0 <= k < b.len() && b[k] == delivery;
        assert((a + b)[a.len() + k] == delivery);
    }
}

fn contains_kind(kinds: &Vec<u64>, kind: u64) -> (r: bool)
    ensures
        r == kinds@.contains(kind),
{
    let mut i: usize = 0;
    while i < kinds.len()
        invariant
            i <= kinds@.len(),
            forall|j: int| 0 <= j < i ==> kinds@[j] != kind,
        decreases kinds@.len() - i,
    {
        if kinds[i] == kind {
            assert(kinds@[i as int] == kind);
            return true;
        }
        i = i + 1;
    }
    false
}

/// Collects signal kinds and listeners, then builds the bus.
pub struct SignalBusBuilder<Signal, Listener> {
    signals_pending: SignalQueue<Signal>,
    listeners: Vec<Subscription<Listener>>,
    registered_signals: Vec<u64>,
}

impl<Signal, Listener> SignalBusBuilder<Signal, Listener> {
    pub closed spec fn spec_registered(&self) -> Seq<u64> {
        self.registered_signals@
    }

    pub closed spec fn spec_listeners(&self) -> Seq<Subscription<Listener>> {
        self.listeners@
    }

    pub closed spec fn spec_pending(&self) -> Seq<SignalEnvelope<Signal>> {
        self.signals_pending@
    }

    /// No kind is registered twice.
    pub open spec fn wf(&self) -> bool {
        self.spec_registered().no_duplicates()
    }

    pub fn new() -> (r: Self)
        ensures
            r.wf(),
            r.spec_registered() == Seq::<u64>::empty(),
            r.spec_listeners() == Seq::<Subscription<Listener>>::empty(),
            r.spec_pending() == Seq::<SignalEnvelope<Signal>>::empty(),
    {
        SignalBusBuilder { signals_pending: SignalQueue::new(), listeners: Vec::new(), registered_signals: Vec::new() }
    }

    /// Registers a signal kind and hands out its emitter; a kind registers once only.
    pub fn register(&mut self, signal_type: u64) -> (r: Result<SignalEmitter<Signal>, RegisterSignalError>)
        requires
            old(self).wf(),
        ensures
            final(self).wf(),
            final(self).spec_listeners() == old(self).spec_listeners(),
            final(self).spec_pending() == old(self).spec_pending(),
            old(self).spec_registered().contains(signal_type) ==> {
                &&& r == Err::<SignalEmitter<Signal>, RegisterSignalError>(RegisterSignalError { signal_type })
                &&& final(self).spec_registered() == old(self).spec_registered()
            },
            !old(self).spec_registered().contains(signal_type) ==> {
                &&& r matches Ok(emitter) && emitter.spec_signal_type_id() == signal_type
                &&& final(self).spec_registered() == old(self).spec_registered().push(signal_type)
            },
    {
        if contains_kind(&self.registered_signals, signal_type) {
            return Err(RegisterSignalError { signal_type });
        }
        self.registered_signals.push(signal_type);
        proof {
            let kinds = self.registered_signals@;
            assert forall|i: int, j: int| 0 <= i < kinds.len() && 0 <= j < kinds.len() && i != j implies kinds[i]
                != kinds[j] by {
                if i < kinds.len() - 1 && j < kinds.len() - 1 {
                    assert(old(self).registered_signals@[i] == kinds[i]);
                    assert(old(self).registered_signals@[j] == kinds[j]);
                } else if i == kinds.len() - 1 {
                    assert(old(self).registered_signals@[j] == kinds[j]);
                } else {
                    assert(old(self).registered_signals@[i] == kinds[i]);
                }
            }
        }
        Ok(SignalEmitter { signal_type_id: signal_type, signal_type: PhantomData })
    }

    /// best-effort attempt to listen on a signal kind: ignored when the kind is not
    /// registered. The listener's errors never stop a dispatch.
    pub fn on(&mut self, signal_type: u64, listener: Listener)
        ensures
            final(self).spec_registered() == old(self).spec_registered(),
            final(self).spec_pending() == old(self).spec_pending(),
            old(self).spec_registered().contains(signal_type) ==> final(self).spec_listeners()
                == old(self).spec_listeners().push(Subscription { signal_type, listener, fallible: false }),
            !old(self).spec_registered().contains(signal_type) ==> final(self).spec_listeners()
                == old(self).spec_listeners(),
    {
        if contains_kind(&self.registered_signals, signal_type) {
            self.listeners.push(Subscription { signal_type, listener, fallible: false });
        }
    }

    /// listens on a signal kind, fails if no emitter for it is already registered. An error
    /// the listener returns stops the dispatch and is handed back by it.
    pub fn try_on(&mut self, signal_type: u64, listener: Listener) -> (r: Result<(), ListenSignalError>)
        ensures
            final(self).spec_registered() == old(self).spec_registered(),
            final(self).spec_pending() == old(self).spec_pending(),
            old(self).spec_registered().contains(signal_type) ==> {
                &&& r is Ok
                &&& final(self).spec_listeners() == old(self).spec_listeners().push(
                    Subscription { signal_type, listener, fallible: true },
                )
            },
            !old(self).spec_registered().contains(signal_type) ==> {
                &&& r == Err::<(), ListenSignalError>(ListenSignalError { signal_type })
                &&& final(self).spec_listeners() == old(self).spec_listeners()
            },
    {
        if !contains_kind(&self.registered_signals, signal_type) {
            return Err(ListenSignalError { signal_type });
        }
        self.listeners.push(Subscription { signal_type, listener, fallible: true });
        Ok(())
    }

    pub fn build(self) -> (r: SignalBus<Signal, Listener>)
        ensures
            r.spec_listeners() == self.spec_listeners(),
            r.spec_pending() == self.spec_pending(),
    {
        SignalBus { signals_pending: self.signals_pending, signal_subscribers: self.listeners }
    }
}

/// Whether a delivery that ended in `result` stops the dispatch: an error of a fallible
/// listener.
pub open spec fn stops<Listener, HandlerError>(subscription: Subscription<Listener>, result: Result<(), HandlerError>) -> bool {
    subscription.fallible && result is Err
}

/// The first `n` deliveries of `schedule` to `listeners` ran as recorded: delivery `i`, of
/// its envelope's signal to its listener, took the context from `contexts[i]` to
/// `contexts[i + 1]`, emitted `emitted[i]` and ended in `results[i]`.
pub open spec fn spec_ran<Signal, Context, HandlerError, Listener: SignalListener<Signal, Context, HandlerError>>(
    listeners: Seq<Subscription<Listener>>,
    schedule: Seq<(int, SignalEnvelope<Signal>)>,
    contexts: Seq<Context>,
    emitted: Seq<Seq<SignalEnvelope<Signal>>>,
    results: Seq<Result<(), HandlerError>>,
    n: int,
) -> bool {
    &&& 0 <= n <= schedule.len()
    &&& contexts.len() == n + 1
    &&& emitted.len() == n
    &&& results.len() == n
    &&& forall|i: int|
        0 <= i < n ==> #[trigger] listeners[schedule[i].0].listener.handles(
            schedule[i].1.signal,
            contexts[i],
            contexts[i + 1],
            emitted[i],
            results[i],
        )
}

/// Whether a dispatch of `schedule` to `listeners` from `before` ended in `result`, with the
/// context `after` and the queue `pending`. On success every delivery ran, none stopping the
/// dispatch; on failure the deliveries ran up to the first that stopped it, and the error is
/// the one that listener returned. The queue holds exactly what the deliveries that ran
/// emitted, in order.
pub open spec fn spec_dispatched<Signal, Context, HandlerError, Listener: SignalListener<Signal, Context, HandlerError>>(
    listeners: Seq<Subscription<Listener>>,
    schedule: Seq<(int, SignalEnvelope<Signal>)>,
    before: Context,
    result: Result<(), DispatchSignalError<HandlerError>>,
    after: Context,
    pending: Seq<SignalEnvelope<Signal>>,
) -> bool {
    match result {
        Ok(()) => exists|contexts: Seq<Context>, emitted: Seq<Seq<SignalEnvelope<Signal>>>, results: Seq<Result<(), HandlerError>>|
            #![trigger spec_ran(listeners, schedule, contexts, emitted, results, schedule.len() as int)]
            {
                &&& spec_ran(listeners, schedule, contexts, emitted, results, schedule.len() as int)
                &&& contexts[0] == before
                &&& contexts.last() == after
                &&& pending == emitted.flatten()
                &&& forall|i: int| 0 <= i < schedule.len() ==> !stops(#[trigger] listeners[schedule[i].0], results[i])
            },
        Err(DispatchSignalError::Handler(error)) => exists|
            contexts: Seq<Context>,
            emitted: Seq<Seq<SignalEnvelope<Signal>>>,
            results: Seq<Result<(), HandlerError>>,
            k: int,
        |
            #![trigger spec_ran(listeners, schedule, contexts, emitted, results, k + 1)]
            {
                &&& 0 <= k < schedule.len()
                &&& spec_ran(listeners, schedule, contexts, emitted, results, k + 1)
                &&& contexts[0] == before
                &&& contexts.last() == after
                &&& pending == emitted.flatten()
                &&& forall|i: int| 0 <= i < k ==> !stops(#[trigger] listeners[schedule[i].0], results[i])
                &&& listeners[schedule[k].0].fallible
                &&& results[k] == Err::<(), HandlerError>(error)
            },
        Err(DispatchSignalError::UnexpectedSignalType { .. }) => false,
    }
}

/// Queues signals and delivers them to the listeners of their kind.
pub struct SignalBus<Signal, Listener> {
    signals_pending: SignalQueue<Signal>,
    signal_subscribers: Vec<Subscription<Listener>>,
}

impl<Signal, Listener> SignalBus<Signal, Listener> {
    pub closed spec fn spec_listeners(&self) -> Seq<Subscription<Listener>> {
        self.signal_subscribers@
    }

    pub closed spec fn spec_pending(&self) -> Seq<SignalEnvelope<Signal>> {
        self.signals_pending@
    }

    /// Queues a signal through `emitter` for the next dispatch.
    pub fn emit(&mut self, emitter: &SignalEmitter<Signal>, signal: Signal)
        ensures
            final(self).spec_listeners() == old(self).spec_listeners(),
            final(self).spec_pending() == old(self).spec_pending().push(
                SignalEnvelope { signal_type_id: emitter.spec_signal_type_id(), signal },
            ),
    {
        emitter.emit(&mut self.signals_pending, signal);
    }

    /// Dispatches the current queue in emission order: each signal goes to every listener
    /// of its kind, in registration order. Signals emitted by listeners remain queued for
    /// the next dispatch. The first error of a listener added with `try_on` stops the
    /// dispatch and is handed back; the rest of the taken queue is dropped.
    pub fn dispatch_pending<Context, HandlerError>(&mut self, context: &mut Context) -> (r: Result<(), DispatchSignalError<HandlerError>>)
        where
            Listener: SignalListener<Signal, Context, HandlerError>,
        ensures
            final(self).spec_listeners() == old(self).spec_listeners(),
            spec_dispatched(
                old(self).spec_listeners(),
                dispatch_schedule(old(self).spec_pending(), listener_kinds(old(self).spec_listeners())),
                *old(context),
                r,
                *final(context),
                final(self).spec_pending(),
            ),
    {
        let signals_pending = self.signals_pending.take();
        let ghost listeners = self.signal_subscribers@;
        let ghost kinds = listener_kinds(listeners);
        let ghost whole = dispatch_schedule(signals_pending@, kinds);
        let ghost mut contexts: Seq<Context> = seq![*context];
        let ghost mut emitted: Seq<Seq<SignalEnvelope<Signal>>> = Seq::empty();
        let ghost mut results: Seq<Result<(), HandlerError>> = Seq::empty();
        proof {
            assert(Seq::<Seq<SignalEnvelope<Signal>>>::empty().flatten() =~= Seq::<SignalEnvelope<Signal>>::empty());
        }
        let mut i: usize = 0;
        while i < signals_pending.len()
            invariant
                i <= signals_pending@.len(),
                self.signal_subscribers@ == listeners,
                listeners == old(self).signal_subscribers@,
                kinds == listener_kinds(listeners),
                signals_pending@ == old(self).signals_pending@,
                whole == dispatch_schedule(signals_pending@, kinds),
                spec_ran(listeners, schedule(signals_pending@, kinds, i as int), contexts, emitted, results, schedule(signals_pending@, kinds, i as int).len() as int),
                contexts[0] == *old(context),
                contexts.last() == *context,
                self.signals_pending@ == emitted.flatten(),
                forall|k: int| 0 <= k < results.len() ==> !stops(#[trigger] listeners[schedule(signals_pending@, kinds, i as int)[k].0], results[k]),
            decreases signals_pending@.len() - i,
        {
            let envelope = &signals_pending[i];
            let ghost before_signal = schedule(signals_pending@, kinds, i as int);
            let mut j: usize = 0;
            proof {
                assert(before_signal + deliveries_of(*envelope, kinds, 0) =~= before_signal);
            }
            while j < self.signal_subscribers.len()
                invariant
                    i < signals_pending@.len(),
                    j <= self.signal_subscribers@.len(),
                    self.signal_subscribers@ == listeners,
                    listeners == old(self).signal_subscribers@,
                    kinds == listener_kinds(listeners),
                    signals_pending@ == old(self).signals_pending@,
                    *envelope == signals_pending@[i as int],
                    whole == dispatch_schedule(signals_pending@, kinds),
                    before_signal == schedule(signals_pending@, kinds, i as int),
                    spec_ran(listeners, before_signal + deliveries_of(*envelope, kinds, j as int), contexts, emitted, results, (before_signal + deliveries_of(*envelope, kinds, j as int)).len() as int),
                    contexts[0] == *old(context),
                    contexts.last() == *context,
                    self.signals_pending@ == emitted.flatten(),
                    forall|k: int| 0 <= k < results.len() ==> !stops(#[trigger] listeners[(before_signal + deliveries_of(*envelope, kinds, j as int))[k].0], results[k]),
                decreases self.signal_subscribers@.len() - j,
            {
                let ghost made = before_signal + deliveries_of(*envelope, kinds, j as int);
                if self.signal_subscribers[j].signal_type == envelope.signal_type_id {
                    let ghost context_before = *context;
                    let ghost queue_before = self.signals_pending@;
                    let result = self.signal_subscribers[j].listener.handle(&envelope.signal, context, &mut self.signals_pending);
                    let ghost out = self.signals_pending@.skip(queue_before.len() as int);
                    proof {
                        let next = before_signal + deliveries_of(*envelope, kinds, j + 1);
                        assert(next =~= made.push((j as int, *envelope)));
                        assert(self.signals_pending@ =~= queue_before + out);
                        emitted.lemma_flatten_push(out);
                        let next_contexts = contexts.push(*context);
                        let next_emitted = emitted.push(out);
                        let next_results = results.push(result);
                        assert forall|k: int| 0 <= k < next.len() implies #[trigger] listeners[next[k].0].listener.handles(
                            next[k].1.signal,
                            next_contexts[k],
                            next_contexts[k + 1],
                            next_emitted[k],
                            next_results[k],
                        ) by {
                            if k < made.len() {
                                assert(next[k] == made[k]);
                                assert(next_contexts[k] == contexts[k]);
                                assert(next_contexts[k + 1] == contexts[k + 1]);
                                assert(next_emitted[k] == emitted[k]);
                                assert(next_results[k] == results[k]);
                                assert(listeners[made[k].0].listener.handles(made[k].1.signal, contexts[k], contexts[k + 1], emitted[k], results[k]));
                            } else {
                                assert(next[k] == (j as int, *envelope));
                                assert(next_contexts[k] == context_before);
                            }
                        }
                        contexts = next_contexts;
                        emitted = next_emitted;
                        results = next_results;
                    }
                    if self.signal_subscribers[j].fallible {
                        match result {
                            Ok(()) => {},
                            Err(error) => {
                                proof {
                                    let next = before_signal + deliveries_of(*envelope, kinds, j + 1);
                                    lemma_schedule_prefix(signals_pending@, kinds, i as int, j as int);
                                    let k = next.len() - 1;
                                    assert(next == whole.take(k + 1));
                                    assert(whole.take(k + 1)[k] == whole[k]);
                                    assert forall|n: int| 0 <= n < k + 1 implies #[trigger] whole[n] == next[n] by {
                                        assert(whole.take(k + 1)[n] == whole[n]);
                                    }
                                    assert(spec_ran(listeners, whole, contexts, emitted, results, k + 1)) by {
                                        assert forall|n: int| 0 <= n < k + 1 implies #[trigger] listeners[whole[n].0].listener.handles(
                                            whole[n].1.signal,
                                            contexts[n],
                                            contexts[n + 1],
                                            emitted[n],
                                            results[n],
                                        ) by {
                                            assert(whole[n] == next[n]);
                                        }
                                    }
                                    assert forall|n: int| 0 <= n < k implies !stops(#[trigger] listeners[whole[n].0], results[n]) by {
                                        assert(whole[n] == next[n]);
                                        assert(next[n] == made[n]);
                                    }
                                    assert(whole[k] == (j as int, *envelope));
                                    assert(results[k] == Err::<(), HandlerError>(error));
                                    assert(listener_kinds(old(self).spec_listeners()) == kinds);
                                    assert(old(self).spec_pending() == signals_pending@);
                                }
                                return Err(DispatchSignalError::Handler(error));
                            },
                        }
                    }
                    proof {
                        let next = before_signal + deliveries_of(*envelope, kinds, j + 1);
                        assert forall|k: int| 0 <= k < results.len() implies !stops(#[trigger] listeners[next[k].0], results[k]) by {
                            if k < made.len() {
                                assert(next[k] == made[k]);
                            }
                        }
                    }
                } else {
                    proof {
                        assert(made =~= before_signal + deliveries_of(*envelope, kinds, j + 1));
                    }
                }
                j = j + 1;
            }
            proof {
                assert(before_signal + deliveries_of(*envelope, kinds, kinds.len() as int) =~= schedule(signals_pending@, kinds, i + 1));
            }
            i = i + 1;
        }
        proof {
            assert(listener_kinds(old(self).spec_listeners()) == kinds);
            assert(old(self).spec_pending() == signals_pending@);
            assert(spec_ran(listeners, whole, contexts, emitted, results, whole.len() as int));
        }
        Ok(())
    }
}

/// A dispatch stopped inside the deliveries of envelope `i`, just after listener `j`,
/// has made a non-empty prefix of the whole schedule.
proof fn lemma_schedule_prefix<Signal>(pending: Seq<SignalEnvelope<Signal>>, kinds: Seq<u64>, i: int, j: int)
    requires
        0 <= i < pending.len(),
        0 <= j < kinds.len(),
        kinds[j] == pending[i].signal_type_id,
    ensures
        ({
            let made = schedule(pending, kinds, i) + deliveries_of(pending[i], kinds, j + 1);
            let k = made.len() as int;
            &&& 1 <= k <= dispatch_schedule(pending, kinds).len()
            &&& made == dispatch_schedule(pending, kinds).take(k)
        }),
{
    let whole = dispatch_schedule(pending, kinds);
    let made = schedule(pending, kinds, i) + deliveries_of(pending[i], kinds, j + 1);
    lemma_deliveries_prefix(pending[i], kinds, j + 1, kinds.len() as int);
    lemma_schedule_grows(pending, kinds, i + 1, pending.len() as int);
    let upto_i1 = schedule(pending, kinds, i + 1);
    assert(upto_i1 == schedule(pending, kinds, i) + deliveries_of(pending[i], kinds, kinds.len() as int));
    assert(made =~= upto_i1.take(made.len() as int));
    assert(made =~= whole.take(made.len() as int));
}

/// The deliveries among the first `a` listeners are a prefix of those among the first `b`.
proof fn lemma_deliveries_prefix<Signal>(envelope: SignalEnvelope<Signal>, kinds: Seq<u64>, a: int, b: int)
    requires
        0 <= a <= b,
    ensures
        deliveries_of(envelope, kinds, b).len() >= deliveries_of(envelope, kinds, a).len(),
        deliveries_of(envelope, kinds, a) == deliveries_of(envelope, kinds, b).take(deliveries_of(envelope, kinds, a).len() as int),
    decreases b - a,
{
    if a < b {
        lemma_deliveries_prefix(envelope, kinds, a, b - 1);
        let prev = deliveries_of(envelope, kinds, b - 1);
        let cur = deliveries_of(envelope, kinds, b);
        let short = deliveries_of(envelope, kinds, a);
        assert(short =~= cur.take(short.len() as int));
    } else {
        assert(deliveries_of(envelope, kinds, a) =~= deliveries_of(envelope, kinds, b).take(deliveries_of(envelope, kinds, a).len() as int));
    }
}

/// The schedule of the first `a` envelopes is a prefix of that of the first `b`.
proof fn lemma_schedule_grows<Signal>(pending: Seq<SignalEnvelope<Signal>>, kinds: Seq<u64>, a: int, b: int)
    requires
        0 <= a <= b,
    ensures
        schedule(pending, kinds, b).len() >= schedule(pending, kinds, a).len(),
        schedule(pending, kinds, a) == schedule(pending, kinds, b).take(schedule(pending, kinds, a).len() as int),
    decreases b - a,
{
    if a < b {
        lemma_schedule_grows(pending, kinds, a, b - 1);
        let short = schedule(pending, kinds, a);
        let cur = schedule(pending, kinds, b);
        assert(short =~= cur.take(short.len() as int));
    } else {
        assert(schedule(pending, kinds, a) =~= schedule(pending, kinds, b).take(schedule(pending, kinds, a).len() as int));
    }
}

} // verus!
