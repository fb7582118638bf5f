//! Cooperative stopping: what a guarded operation resolves to, and when it
//! tells its partner to stop.
//!
//! Two operations that run side by side are linked by two one-shot signals,
//! one in each direction. A side fires the signal towards its partner when
//! its own operation completes, or when it is dropped before that. A side
//! whose operation is still pending resolves to "stopped" once the signal
//! towards it has fired.

use vstd::prelude::*;

verus! {

/// What a guarded operation resolves to.
pub enum Resolution<T> {
    /// The operation ran to completion, with this output.
    Finished(T),
    /// The operation was told to stop before it completed.
    Stopped,
}

/// The means to fire the signal towards the partner, held until it is used.
pub struct Notifier<S> {
    sender: Option<S>,
}

impl<S> View for Notifier<S> {
    type V = Option<S>;

    closed spec fn view(&self) -> Option<S> {
        self.sender
    }
}

impl<S> Notifier<S> {
    /// A notifier that still holds `sender`.
    pub fn new(sender: S) -> (notifier: Self)
        ensures
            notifier@ == Some(sender),
    {
        Notifier { sender: Some(sender) }
    }

    /// Gives the sender up, for it to be fired or dropped. It is given up
    /// once: from then on there is nothing left to give.
    pub fn release(&mut self) -> (sender: Option<S>)
        ensures
            sender == old(self)@,
            final(self)@ is None,
    {
        self.sender.take()
    }
}

/// One side's end of the two signals: the means to signal the partner, and
/// the place where the partner's signal arrives.
pub struct LinkEnd<S, R> {
    pub notifier: Notifier<S>,
    pub signal: R,
}

/// Wires two one-shot channels into a pair of ends. Each channel is given as
/// its sender and its receiver. The first side holds the sender of the first
/// channel and listens on the second; the second side holds the sender of
/// the second channel and listens on the first.
pub fn cross_link<S, R>(first: (S, R), second: (S, R)) -> (ends: (LinkEnd<S, R>, LinkEnd<S, R>))
    ensures
        ends.0.notifier@ == Some(first.0),
        ends.0.signal == second.1,
        ends.1.notifier@ == Some(second.0),
        ends.1.signal == first.1,
{
    let (first_sender, first_receiver) = first;
    let (second_sender, second_receiver) = second;
    (
        LinkEnd { notifier: Notifier::new(first_sender), signal: second_receiver },
        LinkEnd { notifier: Notifier::new(second_sender), signal: first_receiver },
    )
}

impl<T> Resolution<T> {
    /// The output, if the operation ran to completion.
    pub fn into_option(self) -> (output: Option<T>)
        ensures
            output == match self {
                Resolution::Finished(value) => Some(value),
                Resolution::Stopped => None,
            },
    {
        match self {
            Resolution::Finished(value) => Some(value),
            Resolution::Stopped => None,
        }
    }
}

/// What a poll of a guarded operation comes to: `inner` is the operation's
/// output if it has completed, `fired` tells whether the signal towards this
/// side has fired. Completion wins over the signal; `None` stands for
/// "still pending".
pub open spec fn poll_result<T>(inner: Option<T>, fired: bool) -> Option<Resolution<T>> {
    match inner {
        Some(output) => Some(Resolution::Finished(output)),
        None => if fired {
            Some(Resolution::Stopped)
        } else {
            None
        },
    }
}

/// What is to be done once the guarded operation has been polled.
pub enum AfterInner<T> {
    /// The operation completed: the poll resolves to this.
    Resolve(Resolution<T>),
    /// The operation is still pending: look at the signal towards this side.
    ConsultSignal,
}

/// Decides what follows a poll of the guarded operation: `inner` is its
/// output if it completed. A completed operation resolves at once, and the
/// signal is not looked at.
pub fn after_inner_poll<T>(inner: Option<T>) -> (next: AfterInner<T>)
    ensures
        next == match inner {
            Some(output) => AfterInner::Resolve(Resolution::Finished(output)),
            None => AfterInner::ConsultSignal,
        },
        forall|fired: bool|
            next matches AfterInner::Resolve(resolution) ==> #[trigger] poll_result(inner, fired)
                == Some(resolution),
{
    match inner {
        Some(output) => AfterInner::Resolve(Resolution::Finished(output)),
        None => AfterInner::ConsultSignal,
    }
}

/// Decides what follows a poll of the guarded operation of a linked side.
/// Besides what [`after_inner_poll`] decides, a side whose operation has
/// completed releases its notifier: the sender comes back to be fired.
pub fn after_group_poll<T, S>(notifier: &mut Notifier<S>, inner: Option<T>) -> (next: (
    AfterInner<T>,
    Option<S>,
))
    ensures
        next.0 == match inner {
            Some(output) => AfterInner::Resolve(Resolution::Finished(output)),
            None => AfterInner::ConsultSignal,
        },
        next.1 == match inner {
            Some(_) => old(notifier)@,
            None => None,
        },
        final(notifier)@ == match inner {
            Some(_) => None,
            None => old(notifier)@,
        },
{
    let fire = if inner.is_some() {
        notifier.release()
    } else {
        None
    };
    (after_inner_poll(inner), fire)
}

/// Decides what follows a look at the signal, for an operation that is still
/// pending: it resolves to "stopped" if the signal has fired and stays
/// pending otherwise.
pub fn after_signal_poll<T>(fired: bool) -> (resolution: Option<Resolution<T>>)
    ensures
        resolution == poll_result(None::<T>, fired),
{
    if fired {
        Some(Resolution::Stopped)
    } else {
        None
    }
}

/// One of the two linked sides.
pub enum Side {
    First,
    Second,
}

/// What happens to a pair, as far as stopping goes.
pub enum PairEvent {
    /// A side is polled; its operation has completed or is still pending.
    Polled { side: Side, completed: bool },
    /// A side is dropped.
    Dropped { side: Side },
}

/// A linked pair, as far as stopping goes: whether each side still holds its
/// notifier, and whether the signal towards each side has fired.
pub struct Pair {
    pub first_armed: bool,
    pub second_armed: bool,
    pub first_signalled: bool,
    pub second_signalled: bool,
}

impl Pair {
    /// A pair as it is made: both notifiers held, no signal fired.
    pub open spec fn fresh() -> Pair {
        Pair {
            first_armed: true,
            second_armed: true,
            first_signalled: false,
            second_signalled: false,
        }
    }

    /// Whether `side` still holds its notifier.
    pub open spec fn armed(self, side: Side) -> bool {
        match side {
            Side::First => self.first_armed,
            Side::Second => self.second_armed,
        }
    }

    /// Whether the signal towards `side` has fired.
    pub open spec fn signalled(self, side: Side) -> bool {
        match side {
            Side::First => self.first_signalled,
            Side::Second => self.second_signalled,
        }
    }

    /// The partner of `side`.
    pub open spec fn partner(side: Side) -> Side {
        match side {
            Side::First => Side::Second,
            Side::Second => Side::First,
        }
    }

    /// `side` releases its notifier. Whether the sender is then fired or
    /// merely dropped, the signal towards the partner has fired.
    pub open spec fn release(self, side: Side) -> Pair {
        match side {
            Side::First => Pair { first_armed: false, second_signalled: true, ..self },
            Side::Second => Pair { second_armed: false, first_signalled: true, ..self },
        }
    }

    /// What a poll of `side` comes to, with `inner` the output of its
    /// operation if that has completed.
    pub open spec fn observe<T>(self, side: Side, inner: Option<T>) -> Option<Resolution<T>> {
        poll_result(inner, self.signalled(side))
    }

    /// The pair after `event`. A side that completes releases its notifier,
    /// and so does a side that is dropped; a side that stays pending or is
    /// stopped keeps what it holds.
    pub open spec fn after(self, event: PairEvent) -> Pair {
        match event {
            PairEvent::Polled { side, completed } => if completed {
                self.release(side)
            } else {
                self
            },
            PairEvent::Dropped { side } => self.release(side),
        }
    }

    /// The pair after `events`, in this order.
    pub open spec fn after_all(self, events: Seq<PairEvent>) -> Pair
        decreases events.len(),
    {
        if events.len() == 0 {
            self
        } else {
            self.after_all(events.drop_last()).after(events.last())
        }
    }

    /// A side that no longer holds its notifier has signalled its partner.
    pub open spec fn consistent(self) -> bool {
        &&& !self.first_armed ==> self.second_signalled
        &&& !self.second_armed ==> self.first_signalled
    }
}

/// A signal that has fired stays fired, and a pair stays consistent,
/// whatever happens to it.
pub proof fn lemma_signal_stays(pair: Pair, events: Seq<PairEvent>, side: Side)
    requires
        pair.consistent(),
    ensures
        pair.after_all(events).consistent(),
        pair.signalled(side) ==> pair.after_all(events).signalled(side),
    decreases events.len(),
{
    if events.len() > 0 {
        lemma_signal_stays(pair, events.drop_last(), side);
    }
}

/// Whatever happened to a pair since it was made: once a side has completed
/// or has been dropped, its partner, polled at any later time while its own
/// operation is still pending, resolves to "stopped".
pub proof fn lemma_first_to_finish_stops_partner<T>(
    before: Seq<PairEvent>,
    side: Side,
    dropped: bool,
    later: Seq<PairEvent>,
)
    ensures
        ({
            let ending = if dropped {
                PairEvent::Dropped { side }
            } else {
                PairEvent::Polled { side, completed: true }
            };
            Pair::fresh().after_all(before).after(ending).after_all(later).observe(
                Pair::partner(side),
                None::<T>,
            ) == Some(Resolution::<T>::Stopped)
        }),
{
    let ending = if dropped {
        PairEvent::Dropped { side }
    } else {
        PairEvent::Polled { side, completed: true }
    };
    let partner = Pair::partner(side);
    lemma_signal_stays(Pair::fresh(), before, partner);
    let ended = Pair::fresh().after_all(before).after(ending);
    assert(ended.signalled(partner));
    lemma_signal_stays(ended, later, partner);
}

/// A side whose operation completes resolves to its output, signal or no
/// signal.
pub proof fn lemma_completion_wins<T>(pair: Pair, side: Side, output: T)
    ensures
        pair.observe(side, Some(output)) == Some(Resolution::Finished(output)),
{
}

/// As long as neither side has completed or been dropped, no side is
/// stopped: a pending side stays pending.
pub proof fn lemma_nobody_stops_unasked<T>(events: Seq<PairEvent>, side: Side)
    requires
        forall|i: int|
            0 <= i < events.len() ==> #[trigger] events[i] matches PairEvent::Polled {
                completed: false,
                ..
            },
    ensures
        Pair::fresh().after_all(events) == Pair::fresh(),
        Pair::fresh().after_all(events).observe(side, None::<T>) == None::<Resolution<T>>,
    decreases events.len(),
{
    if events.len() > 0 {
        assert forall|i: int| 0 <= i < events.drop_last().len() implies #[trigger] events.drop_last()[i] matches PairEvent::Polled {
            completed: false,
            ..
        } by {
            assert(events.drop_last()[i] == events[i]);
        }
        lemma_nobody_stops_unasked::<T>(events.drop_last(), side);
        assert(events.last() == events[events.len() - 1]);
    }
}

} // verus!
