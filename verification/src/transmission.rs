//! A T=1 engine together with the callbacks of a connection
//! interface, and its builder.
//!
//! The interface is opened by an init callback, read and written
//! through callbacks that get the interface context, reset by a
//! reset callback and closed by a release callback. What a callback
//! returns is not known here: each function that calls one says what
//! it does with every result.
use vstd::prelude::*;
use crate::model::{
    exchanged_over, kept_from, lemma_exchanged_wider, reads_of, writes_of, Nad, Need, T1State,
};
use crate::proto::T1Proto;

verus! {

/// Why a call on a [`Transmission`] failed. `E` is the error of the
/// callbacks.
#[derive(Debug, PartialEq)]
pub enum Error<E> {
    /// The protocol engine failed.
    T1(crate::proto::Error<E>),
    /// The init callback failed.
    InitCbErr(E),
    /// The release callback failed.
    ReleaseCbErr(E),
    /// The reset callback failed.
    ResetCbErr(E),
    /// A node address is not set.
    NadNotSet,
    /// The read callback is not set.
    NoReadCb,
    /// The write callback is not set.
    NoWriteCb,
    /// The sleep callback is not set.
    NoSleepCb,
    /// `init` was called on an initialised transmission.
    AlreadyInited,
}

/// What a transmission consists of, apart from what its callbacks do.
pub struct TxState<T> {
    /// State of the protocol engine.
    pub t1: T1State,
    /// Context of the open interface.
    pub interface: Option<T>,
    pub card_nad: Option<u8>,
    pub dev_nad: Option<u8>,
    pub inited: bool,
    pub soft_reset: bool,
    pub has_init_cb: bool,
    pub has_release_cb: bool,
    pub has_reset_cb: bool,
    pub has_read_cb: bool,
    pub has_write_cb: bool,
    pub has_sleep_cb: bool,
}

impl<T> TxState<T> {
    /// State after initialisation when the interface was opened with
    /// outcome `opened`: the context is kept, then the node addresses
    /// are handed to the engine, then, if there is a sleep callback,
    /// the engine is told whether to reset the card and the
    /// transmission counts as initialised. Each step is only taken if
    /// the one before succeeded.
    pub open spec fn inited_with<E>(self, opened: Result<Option<T>, E>) -> TxState<T> {
        match opened {
            Err(_) => self,
            Ok(interface) => {
                if self.card_nad is None || self.dev_nad is None {
                    TxState { interface, ..self }
                } else {
                    let nad = Nad { card: self.card_nad->0, dev: self.dev_nad->0 };
                    if !self.has_sleep_cb {
                        TxState { interface, t1: T1State { nad, ..self.t1 }, ..self }
                    } else {
                        TxState {
                            interface,
                            t1: T1State {
                                nad,
                                need: Need { reset: self.soft_reset, ..self.t1.need },
                                ..self.t1
                            },
                            inited: true,
                            ..self
                        }
                    }
                }
            },
        }
    }

    /// Result of initialisation when the interface was opened with
    /// outcome `opened`.
    pub open spec fn init_verdict<E>(self, opened: Result<Option<T>, E>) -> Result<(), Error<E>> {
        match opened {
            Err(e) => Err(Error::InitCbErr(e)),
            Ok(_) => {
                if self.card_nad is None || self.dev_nad is None {
                    Err(Error::NadNotSet)
                } else if !self.has_sleep_cb {
                    Err(Error::NoSleepCb)
                } else {
                    Ok(())
                }
            },
        }
    }

    /// State after a release whose callback returned `released`.
    pub open spec fn released_with<E>(self, released: Result<Option<T>, E>) -> TxState<T> {
        match released {
            Err(_) => self,
            Ok(interface) => TxState { interface, inited: false, ..self },
        }
    }

    /// Result of a release whose callback returned `released`.
    pub open spec fn release_verdict<E>(self, released: Result<Option<T>, E>) -> Result<
        (),
        Error<E>,
    > {
        match released {
            Err(e) => Err(Error::ReleaseCbErr(e)),
            Ok(_) => Ok(()),
        }
    }

    /// The callback that an exchange lacks, if it lacks one.
    pub open spec fn lacks<E>(self) -> Option<Error<E>> {
        if !self.has_read_cb {
            Some(Error::NoReadCb)
        } else if !self.has_write_cb {
            Some(Error::NoWriteCb)
        } else {
            None
        }
    }

    /// State in which a call goes on after it made sure that the
    /// transmission is initialised, when opening the interface gave
    /// `opened`.
    pub open spec fn entry<E>(self, opened: Result<Option<T>, E>) -> TxState<T> {
        if self.inited {
            self
        } else {
            self.inited_with(opened)
        }
    }

    /// Whether the call goes on at all.
    pub open spec fn entry_verdict<E>(self, opened: Result<Option<T>, E>) -> Result<(), Error<E>> {
        if self.inited {
            Ok(())
        } else {
            self.init_verdict(opened)
        }
    }

    /// A reset from state `self` ends in `end` with `outcome` when the
    /// reset callback returned `cold`: a failed cold reset and a
    /// missing callback end the call; without soft reset nothing more
    /// is done; with it the engine resets the card.
    pub open spec fn reset_to<E>(
        self,
        writes: spec_fn(Seq<u8>, Result<usize, E>) -> bool,
        reads: spec_fn(nat, Result<usize, E>) -> bool,
        cold: Result<(), E>,
        end: TxState<T>,
        outcome: Result<(), Error<E>>,
    ) -> bool {
        match cold {
            Err(e) => end == self && outcome == Err::<(), Error<E>>(Error::ResetCbErr(e)),
            Ok(()) => match self.lacks::<E>() {
                Some(e) => end == self && outcome == Err::<(), Error<E>>(e),
                None => if !self.soft_reset {
                    end == self && outcome == Ok::<(), Error<E>>(())
                } else {
                    exists|reset: Result<(), crate::proto::Error<E>>|
                        {
                            &&& #[trigger] exchanged_over(
                                writes,
                                reads,
                                self.t1.resetting(),
                                Seq::<u8>::empty(),
                                end.t1,
                                reset,
                            )
                            &&& end == self.with_engine(end.t1)
                            &&& outcome == match reset {
                                Ok(()) => Ok::<(), Error<E>>(()),
                                Err(e) => Err(Error::T1(e)),
                            }
                        }
                },
            },
        }
    }

    /// Asking for the Answer To Reset in state `self` ends in `end`
    /// with `outcome`: a missing callback ends the call; if no reset is
    /// due the stored answer is returned; else the engine resets the
    /// card and returns the answer it got.
    pub open spec fn atr_to<E>(
        self,
        writes: spec_fn(Seq<u8>, Result<usize, E>) -> bool,
        reads: spec_fn(nat, Result<usize, E>) -> bool,
        end: TxState<T>,
        outcome: Result<Seq<u8>, Error<E>>,
    ) -> bool {
        match self.lacks::<E>() {
            Some(e) => end == self && outcome == Err::<Seq<u8>, Error<E>>(e),
            None => if !self.t1.need.reset {
                end == self && outcome == Ok::<Seq<u8>, Error<E>>(self.t1.atr)
            } else {
                exists|reset: Result<(), crate::proto::Error<E>>|
                    {
                        &&& #[trigger] exchanged_over(
                            writes,
                            reads,
                            self.t1.resetting(),
                            Seq::<u8>::empty(),
                            end.t1,
                            reset,
                        )
                        &&& end == self.with_engine(end.t1)
                        &&& outcome == match reset {
                            Ok(()) => Ok::<Seq<u8>, Error<E>>(end.t1.atr),
                            Err(e) => Err(Error::T1(e)),
                        }
                    }
            },
        }
    }

    /// Transmitting `capdu` with `room` bytes for the response in state
    /// `self` ends in `end` with `outcome`: a missing callback ends the
    /// call; else the engine runs the exchange and the response is what
    /// it received.
    pub open spec fn transmit_to<E>(
        self,
        writes: spec_fn(Seq<u8>, Result<usize, E>) -> bool,
        reads: spec_fn(nat, Result<usize, E>) -> bool,
        capdu: Seq<u8>,
        room: nat,
        end: TxState<T>,
        outcome: Result<Seq<u8>, Error<E>>,
    ) -> bool {
        match self.lacks::<E>() {
            Some(e) => end == self && outcome == Err::<Seq<u8>, Error<E>>(e),
            None => exists|sent: Result<(), crate::proto::Error<E>>|
                {
                    &&& #[trigger] exchanged_over(
                        writes,
                        reads,
                        self.t1.opened(capdu.len(), room),
                        capdu,
                        end.t1,
                        sent,
                    )
                    &&& end == self.with_engine(end.t1)
                    &&& outcome == match sent {
                        Ok(()) => Ok::<Seq<u8>, Error<E>>(end.t1.received),
                        Err(e) => Err(Error::T1(e)),
                    }
                },
        }
    }

    /// The same transmission with the engine in state `t1`.
    pub open spec fn with_engine(self, t1: T1State) -> TxState<T> {
        TxState { t1, ..self }
    }
}

/// The callbacks of a transmission or of its builder.
pub struct Callbacks<I, L, C, R, W, S> {
    /// Opens the interface.
    pub init: Option<I>,
    /// Closes the interface.
    pub release: Option<L>,
    /// Resets the interface.
    pub reset: Option<C>,
    /// Reads from the interface.
    pub read: Option<R>,
    /// Writes to the interface.
    pub write: Option<W>,
    /// Waits.
    pub sleep: Option<S>,
}

impl<I, L, C, R, W, S> Callbacks<I, L, C, R, W, S> {
    /// No callback is set.
    pub open spec fn none() -> Self {
        Callbacks { init: None, release: None, reset: None, read: None, write: None, sleep: None }
    }
}

impl<T, E, I, L, C, R, W, S> Callbacks<I, L, C, R, W, S> where
    I: Fn() -> Result<Option<T>, E>,
    L: Fn(Option<&T>) -> Result<Option<T>, E>,
    C: Fn(Option<&T>) -> Result<(), E>,
    R: Fn(Option<&T>, &mut [u8]) -> Result<usize, E>,
    W: Fn(Option<&T>, &[u8]) -> Result<usize, E>,
    S: Fn(u32),
 {
    /// Every callback that is set may be called with any argument.
    pub open spec fn callable(self) -> bool {
        &&& self.init matches Some(cb) ==> cb.requires(())
        &&& self.release matches Some(cb) ==> forall|ifc: Option<&T>| cb.requires((ifc,))
        &&& self.reset matches Some(cb) ==> forall|ifc: Option<&T>| cb.requires((ifc,))
        &&& self.read matches Some(cb) ==> forall|ifc: Option<&T>, b: &mut [u8]|
            cb.requires((ifc, b))
        &&& self.write matches Some(cb) ==> forall|ifc: Option<&T>, b: &[u8]|
            cb.requires((ifc, b))
        &&& self.sleep matches Some(cb) ==> forall|ms: u32| cb.requires((ms,))
    }

    /// `opened` is what opening the interface can give: a result of
    /// the init callback, or no context if there is no such callback.
    pub open spec fn opens(self, opened: Result<Option<T>, E>) -> bool {
        match self.init {
            Some(cb) => cb.ensures((), opened),
            None => opened == Ok::<Option<T>, E>(None),
        }
    }

    /// `released` is what closing the interface in context `ifc` can
    /// give: a result of the release callback, or no context if there
    /// is no such callback.
    pub open spec fn closes(self, ifc: Option<T>, released: Result<Option<T>, E>) -> bool {
        match self.release {
            Some(cb) => cb.ensures((context(&ifc),), released),
            None => released == Ok::<Option<T>, E>(None),
        }
    }

    /// `cold` is what a cold reset of the interface in context `ifc`
    /// can give: a result of the reset callback, or success if there
    /// is no such callback.
    pub open spec fn resets(self, ifc: Option<T>, cold: Result<(), E>) -> bool {
        match self.reset {
            Some(cb) => cb.ensures((context(&ifc),), cold),
            None => cold == Ok::<(), E>(()),
        }
    }

    /// What reading from the interface in context `ifc` can give, as a
    /// relation between the length of the slice to fill and the result
    /// of the read callback.
    pub open spec fn reads(self, ifc: Option<T>) -> spec_fn(nat, Result<usize, E>) -> bool {
        |len: nat, got: Result<usize, E>|
            match self.read {
                Some(cb) => exists|b: &mut [u8]|
                    b@.len() == len && #[trigger] cb.ensures((context(&ifc), b), got),
                None => false,
            }
    }

    /// What writing to the interface in context `ifc` can give, as a
    /// relation between the bytes written and the result of the write
    /// callback.
    pub open spec fn writes(self, ifc: Option<T>) -> spec_fn(Seq<u8>, Result<usize, E>) -> bool {
        |block: Seq<u8>, wrote: Result<usize, E>|
            match self.write {
                Some(cb) => exists|b: &[u8]|
                    b@ == block && #[trigger] cb.ensures((context(&ifc), b), wrote),
                None => false,
            }
    }
}

/// The interface context as the callbacks get it.
pub open spec fn context<T>(ifc: &Option<T>) -> Option<&T> {
    match ifc {
        Some(t) => Some(t),
        None => None,
    }
}

/// The bytes of a result that holds a slice.
pub open spec fn seen<E>(r: Result<&[u8], Error<E>>) -> Result<Seq<u8>, Error<E>> {
    match r {
        Ok(bytes) => Ok(bytes@),
        Err(e) => Err(e),
    }
}

/// A protocol engine and the callbacks of its connection interface.
pub struct Transmission<T, I, L, C, R, W, S> {
    t1: T1Proto<S>,
    interface: Option<T>,
    init_cb: Option<I>,
    release_cb: Option<L>,
    reset_cb: Option<C>,
    read_cb: Option<R>,
    write_cb: Option<W>,
    card_nad: Option<u8>,
    dev_nad: Option<u8>,
    inited: bool,
    soft_reset: bool,
}

impl<T, I, L, C, R, W, S> View for Transmission<T, I, L, C, R, W, S> where S: Fn(u32) {
    type V = TxState<T>;

    closed spec fn view(&self) -> TxState<T> {
        TxState {
            t1: self.t1@,
            interface: self.interface,
            card_nad: self.card_nad,
            dev_nad: self.dev_nad,
            inited: self.inited,
            soft_reset: self.soft_reset,
            has_init_cb: self.init_cb is Some,
            has_release_cb: self.release_cb is Some,
            has_reset_cb: self.reset_cb is Some,
            has_read_cb: self.read_cb is Some,
            has_write_cb: self.write_cb is Some,
            has_sleep_cb: self.t1.has_sleep_cb(),
        }
    }
}

impl<T, I, L, C, R, W, S> Transmission<T, I, L, C, R, W, S> where S: Fn(u32) {
    /// The callbacks of the transmission.
    pub closed spec fn callbacks(&self) -> Callbacks<I, L, C, R, W, S> {
        Callbacks {
            init: self.init_cb,
            release: self.release_cb,
            reset: self.reset_cb,
            read: self.read_cb,
            write: self.write_cb,
            sleep: self.t1.on_sleep(),
        }
    }

    /// The engine keeps its bounds.
    pub closed spec fn engine_wf(&self) -> bool {
        self.t1.wf()
    }
}

impl<T, E, I, L, C, R, W, S> Transmission<T, I, L, C, R, W, S> where
    I: Fn() -> Result<Option<T>, E>,
    L: Fn(Option<&T>) -> Result<Option<T>, E>,
    C: Fn(Option<&T>) -> Result<(), E>,
    R: Fn(Option<&T>, &mut [u8]) -> Result<usize, E>,
    W: Fn(Option<&T>, &[u8]) -> Result<usize, E>,
    S: Fn(u32),
 {
    /// The engine keeps its bounds, every callback that is set may be
    /// called with any argument, and the state tells which callbacks
    /// are set.
    pub open spec fn wf(&self) -> bool {
        &&& self.engine_wf()
        &&& self@.t1.wf()
        &&& self.callbacks().callable()
        &&& self@.has_init_cb == (self.callbacks().init is Some)
        &&& self@.has_release_cb == (self.callbacks().release is Some)
        &&& self@.has_reset_cb == (self.callbacks().reset is Some)
        &&& self@.has_read_cb == (self.callbacks().read is Some)
        &&& self@.has_write_cb == (self.callbacks().write is Some)
        &&& self@.has_sleep_cb == (self.callbacks().sleep is Some)
    }

    /// `opened` is what opening the interface can give.
    pub open spec fn opens(&self, opened: Result<Option<T>, E>) -> bool {
        self.callbacks().opens(opened)
    }

    /// `released` is what closing the interface can give.
    pub open spec fn closes(&self, released: Result<Option<T>, E>) -> bool {
        self.callbacks().closes(self@.interface, released)
    }

    /// The callbacks are the same as those of `other`.
    pub open spec fn same_callbacks(&self, other: &Self) -> bool {
        self.callbacks() == other.callbacks()
    }

    /// Finishes an initialisation in which opening the interface gave
    /// `opened`.
    pub fn init_with(&mut self, opened: Result<Option<T>, E>) -> (r: Result<(), Error<E>>)
        requires
            old(self).wf(),
            !old(self)@.inited,
        ensures
            final(self)@ == old(self)@.inited_with(opened),
            r == old(self)@.init_verdict(opened),
            final(self).wf(),
            final(self).same_callbacks(old(self)),
    {
        let interface: Option<T> = match opened {
            Ok(interface) => interface,
            Err(e) => {
                return Err(Error::InitCbErr(e));
            },
        };
        self.interface = interface;
        let card_nad: u8 = match self.card_nad {
            Some(nad) => nad,
            None => {
                return Err(Error::NadNotSet);
            },
        };
        let dev_nad: u8 = match self.dev_nad {
            Some(nad) => nad,
            None => {
                return Err(Error::NadNotSet);
            },
        };
        self.t1.set_nad(card_nad, dev_nad);
        if !self.t1.sleeps() {
            return Err(Error::NoSleepCb);
        }
        self.t1.set_soft_reset(self.soft_reset);
        self.inited = true;
        Ok(())
    }

    /// Initialises the transmission: opens the interface and hands the
    /// configuration to the engine. Refused on an initialised
    /// transmission.
    pub fn init(&mut self) -> (r: Result<(), Error<E>>)
        requires
            old(self).wf(),
        ensures
            old(self)@.inited ==> r == Err::<(), Error<E>>(Error::AlreadyInited) && final(self)@
                == old(self)@,
            !old(self)@.inited ==> exists|opened: Result<Option<T>, E>|
                {
                    &&& #[trigger] old(self).opens(opened)
                    &&& final(self)@ == old(self)@.inited_with(opened)
                    &&& r == old(self)@.init_verdict(opened)
                },
            final(self).wf(),
            final(self).same_callbacks(old(self)),
    {
        if self.inited {
            return Err(Error::AlreadyInited);
        }
        let opened: Result<Option<T>, E> = match &self.init_cb {
            Some(cb) => cb(),
            None => Ok(None),
        };
        assert(self.opens(opened));
        self.init_with(opened)
    }

    /// Finishes a release in which closing the interface gave
    /// `released`.
    pub fn release_with(&mut self, released: Result<Option<T>, E>) -> (r: Result<(), Error<E>>)
        requires
            old(self).wf(),
        ensures
            final(self)@ == old(self)@.released_with(released),
            r == old(self)@.release_verdict(released),
            final(self).wf(),
            final(self).same_callbacks(old(self)),
    {
        let interface: Option<T> = match released {
            Ok(interface) => interface,
            Err(e) => {
                return Err(Error::ReleaseCbErr(e));
            },
        };
        self.interface = interface;
        self.inited = false;
        Ok(())
    }

    /// Releases the transmission: closes the interface and marks the
    /// transmission as not initialised.
    pub fn release(&mut self) -> (r: Result<(), Error<E>>)
        requires
            old(self).wf(),
        ensures
            exists|released: Result<Option<T>, E>|
                {
                    &&& #[trigger] old(self).closes(released)
                    &&& final(self)@ == old(self)@.released_with(released)
                    &&& r == old(self)@.release_verdict(released)
                },
            final(self).wf(),
            final(self).same_callbacks(old(self)),
    {
        let released: Result<Option<T>, E> = match &self.release_cb {
            Some(cb) => cb(self.interface.as_ref()),
            None => Ok(None),
        };
        assert(self.closes(released));
        self.release_with(released)
    }

    /// Initialises the transmission unless that was done.
    fn try_init(&mut self) -> (r: Result<(), Error<E>>)
        requires
            old(self).wf(),
        ensures
            old(self)@.inited ==> r == Ok::<(), Error<E>>(()) && final(self)@ == old(self)@,
            !old(self)@.inited ==> exists|opened: Result<Option<T>, E>|
                {
                    &&& #[trigger] old(self).opens(opened)
                    &&& final(self)@ == old(self)@.inited_with(opened)
                    &&& r == old(self)@.init_verdict(opened)
                },
            final(self).wf(),
            final(self).same_callbacks(old(self)),
    {
        if !self.inited {
            return self.init();
        }
        Ok(())
    }

    /// `opened` is what opening the interface can give, where the call
    /// has to open it.
    pub open spec fn enters(&self, opened: Result<Option<T>, E>) -> bool {
        self@.inited || self.opens(opened)
    }

    /// `cold` is what a cold reset can give with the interface in
    /// context `ifc`.
    pub open spec fn resets(&self, ifc: Option<T>, cold: Result<(), E>) -> bool {
        self.callbacks().resets(ifc, cold)
    }

    /// What reading from the interface can give once the call has made
    /// sure that the transmission is initialised, when opening the
    /// interface gave `opened`.
    pub open spec fn reads(&self, opened: Result<Option<T>, E>) -> spec_fn(
        nat,
        Result<usize, E>,
    ) -> bool {
        self.callbacks().reads(self@.entry(opened).interface)
    }

    /// What writing to the interface can give once the call has made
    /// sure that the transmission is initialised, when opening the
    /// interface gave `opened`.
    pub open spec fn writes(&self, opened: Result<Option<T>, E>) -> spec_fn(
        Seq<u8>,
        Result<usize, E>,
    ) -> bool {
        self.callbacks().writes(self@.entry(opened).interface)
    }

    /// A call of `reset` leads to state `end` and result `r` when
    /// opening the interface gives `opened` and the cold reset `cold`.
    pub open spec fn reset_from(
        &self,
        opened: Result<Option<T>, E>,
        cold: Result<(), E>,
        end: TxState<T>,
        r: Result<(), Error<E>>,
    ) -> bool {
        &&& self.enters(opened)
        &&& match self@.entry_verdict(opened) {
            Err(e) => end == self@.entry(opened) && r == Err::<(), Error<E>>(e),
            Ok(()) => {
                &&& self.resets(self@.entry(opened).interface, cold)
                &&& self@.entry(opened).reset_to(
                    self.writes(opened),
                    self.reads(opened),
                    cold,
                    end,
                    r,
                )
            },
        }
    }

    /// A call of `atr` leads to state `end` and outcome `outcome` when
    /// opening the interface gives `opened`.
    pub open spec fn atr_from(
        &self,
        opened: Result<Option<T>, E>,
        end: TxState<T>,
        outcome: Result<Seq<u8>, Error<E>>,
    ) -> bool {
        &&& self.enters(opened)
        &&& match self@.entry_verdict(opened) {
            Err(e) => end == self@.entry(opened) && outcome == Err::<Seq<u8>, Error<E>>(e),
            Ok(()) => self@.entry(opened).atr_to(
                self.writes(opened),
                self.reads(opened),
                end,
                outcome,
            ),
        }
    }

    /// A call of `transmit` with command `capdu` and `room` bytes for
    /// the response leads to state `end` and outcome `outcome` when
    /// opening the interface gives `opened`.
    pub open spec fn transmit_from(
        &self,
        opened: Result<Option<T>, E>,
        capdu: Seq<u8>,
        room: nat,
        end: TxState<T>,
        outcome: Result<Seq<u8>, Error<E>>,
    ) -> bool {
        &&& self.enters(opened)
        &&& match self@.entry_verdict(opened) {
            Err(e) => end == self@.entry(opened) && outcome == Err::<Seq<u8>, Error<E>>(e),
            Ok(()) => self@.entry(opened).transmit_to(
                self.writes(opened),
                self.reads(opened),
                capdu,
                room,
                end,
                outcome,
            ),
        }
    }

    /// Makes sure that the transmission is initialised and returns,
    /// beside the result, what opening the interface gave.
    fn enter(&mut self) -> (out: (Result<(), Error<E>>, Ghost<Result<Option<T>, E>>))
        requires
            old(self).wf(),
        ensures
            old(self).enters(out.1@),
            final(self)@ == old(self)@.entry(out.1@),
            out.0 == old(self)@.entry_verdict(out.1@),
            final(self).wf(),
            final(self).same_callbacks(old(self)),
    {
        let r: Result<(), Error<E>> = self.try_init();
        let ghost opened: Result<Option<T>, E> = if old(self)@.inited {
            Ok(None)
        } else {
            choose|o: Result<Option<T>, E>|
                #[trigger] old(self).opens(o) && self@ == old(self)@.inited_with(o) && r == old(
                    self,
                )@.init_verdict(o)
        };
        (r, Ghost(opened))
    }

    /// Resets the card: initialises the transmission if need be, asks
    /// the interface for a cold reset and, if soft reset is enabled,
    /// has the engine reset the card.
    pub fn reset(&mut self) -> (r: Result<(), Error<E>>)
        requires
            old(self).wf(),
        ensures
            exists|opened: Result<Option<T>, E>, cold: Result<(), E>| #[trigger]
                old(self).reset_from(opened, cold, final(self)@, r),
            final(self).wf(),
            final(self).same_callbacks(old(self)),
    {
        let (entry, Ghost(opened)) = self.enter();
        match entry {
            Ok(()) => {},
            Err(e) => {
                assert(old(self).reset_from(opened, Ok(()), self@, Err::<(), Error<E>>(e)));
                return Err(e);
            },
        }
        let ghost entered = self@;
        let cold: Result<(), E> = match &self.reset_cb {
            Some(cb) => cb(self.interface.as_ref()),
            None => Ok(()),
        };
        let ghost witness = cold;
        match cold {
            Ok(()) => {},
            Err(e) => {
                assert(old(self).reset_from(
                    opened,
                    witness,
                    self@,
                    Err::<(), Error<E>>(Error::ResetCbErr(e)),
                ));
                return Err(Error::ResetCbErr(e));
            },
        }
        let ifc: Option<&T> = self.interface.as_ref();
        let read: &R = match self.read_cb.as_ref() {
            Some(cb) => cb,
            None => {
                assert(old(self).reset_from(
                    opened,
                    witness,
                    self@,
                    Err::<(), Error<E>>(Error::NoReadCb),
                ));
                return Err(Error::NoReadCb);
            },
        };
        let write: &W = match self.write_cb.as_ref() {
            Some(cb) => cb,
            None => {
                assert(old(self).reset_from(
                    opened,
                    witness,
                    self@,
                    Err::<(), Error<E>>(Error::NoWriteCb),
                ));
                return Err(Error::NoWriteCb);
            },
        };
        if !self.soft_reset {
            assert(old(self).reset_from(opened, witness, self@, Ok::<(), Error<E>>(())));
            return Ok(());
        }
        let send = |b: &[u8]| -> (n: Result<usize, E>)
            ensures
                write.ensures((ifc, b), n),
            { write(ifc, b) };
        let recv = |b: &mut [u8]| -> (n: Result<usize, E>)
            ensures
                exists|c: &mut [u8]|
                    c@.len() == old(b)@.len() && #[trigger] read.ensures((ifc, c), n),
            { read(ifc, b) };
        let reset: Result<(), crate::proto::Error<E>> = self.t1.reset(recv, send);
        let ghost done = reset;
        let r: Result<(), Error<E>> = match reset {
            Ok(()) => Ok(()),
            Err(e) => Err(Error::T1(e)),
        };
        proof {
            lemma_exchanged_wider(
                writes_of(send),
                reads_of(recv),
                old(self).writes(opened),
                old(self).reads(opened),
                entered.t1.resetting(),
                Seq::<u8>::empty(),
                self@.t1,
                done,
            );
            assert(old(self).reset_from(opened, witness, self@, r));
        }
        r
    }

    /// Returns the Answer To Reset: initialises the transmission if
    /// need be and has the engine reset the card if a reset is due.
    pub fn atr(&mut self) -> (r: Result<&[u8], Error<E>>)
        requires
            old(self).wf(),
        ensures
            exists|opened: Result<Option<T>, E>| #[trigger]
                old(self).atr_from(opened, final(self)@, seen(r)),
            final(self).wf(),
            final(self).same_callbacks(old(self)),
    {
        let (entry, Ghost(opened)) = self.enter();
        match entry {
            Ok(()) => {},
            Err(e) => {
                assert(old(self).atr_from(opened, self@, Err::<Seq<u8>, Error<E>>(e)));
                return Err(e);
            },
        }
        let ghost entered = self@;
        let ifc: Option<&T> = self.interface.as_ref();
        let read: &R = match self.read_cb.as_ref() {
            Some(cb) => cb,
            None => {
                assert(old(self).atr_from(
                    opened,
                    self@,
                    Err::<Seq<u8>, Error<E>>(Error::NoReadCb),
                ));
                return Err(Error::NoReadCb);
            },
        };
        let write: &W = match self.write_cb.as_ref() {
            Some(cb) => cb,
            None => {
                assert(old(self).atr_from(
                    opened,
                    self@,
                    Err::<Seq<u8>, Error<E>>(Error::NoWriteCb),
                ));
                return Err(Error::NoWriteCb);
            },
        };
        let send = |b: &[u8]| -> (n: Result<usize, E>)
            ensures
                write.ensures((ifc, b), n),
            { write(ifc, b) };
        let recv = |b: &mut [u8]| -> (n: Result<usize, E>)
            ensures
                exists|c: &mut [u8]|
                    c@.len() == old(b)@.len() && #[trigger] read.ensures((ifc, c), n),
            { read(ifc, b) };
        let got: Result<&[u8], crate::proto::Error<E>> = self.t1.atr(recv, send);
        let r: Result<&[u8], Error<E>> = match got {
            Ok(atr) => Ok(atr),
            Err(e) => Err(Error::T1(e)),
        };
        proof {
            let end = after_borrow(*self)@;
            if entered.t1.need.reset {
                let reset = choose|reset: Result<(), crate::proto::Error<E>>|
                    {
                        &&& #[trigger] exchanged_over(
                            writes_of(send),
                            reads_of(recv),
                            entered.t1.resetting(),
                            Seq::<u8>::empty(),
                            end.t1,
                            reset,
                        )
                        &&& match reset {
                            Ok(()) => got matches Ok(atr) && atr@ == end.t1.atr,
                            Err(e) => got matches Err(cause) && cause == e,
                        }
                    };
                lemma_exchanged_wider(
                    writes_of(send),
                    reads_of(recv),
                    old(self).writes(opened),
                    old(self).reads(opened),
                    entered.t1.resetting(),
                    Seq::<u8>::empty(),
                    end.t1,
                    reset,
                );
            }
            assert(old(self).atr_from(opened, end, seen(r)));
        }
        r
    }

    /// Sends the command `capdu` and returns the response, stored at
    /// the front of `rapdu`: initialises the transmission if need be
    /// and has the engine run the exchange.
    pub fn transmit<'a>(&mut self, capdu: &[u8], rapdu: &'a mut [u8]) -> (r: Result<
        &'a [u8],
        Error<E>,
    >)
        requires
            old(self).wf(),
        ensures
            exists|opened: Result<Option<T>, E>| #[trigger]
                old(self).transmit_from(
                    opened,
                    capdu@,
                    old(rapdu)@.len(),
                    final(self)@,
                    seen(r),
                ),
            final(rapdu)@.len() == old(rapdu)@.len(),
            r matches Ok(rsp) ==> final(rapdu)@.take(rsp@.len() as int) == rsp@,
            r matches Ok(rsp) ==> kept_from(final(rapdu)@, old(rapdu)@, rsp@.len()),
            final(self)@.t1.recv_size == 0 || !(r is Ok || r matches Err(Error::T1(_)))
                ==> final(rapdu)@ == old(rapdu)@,
            final(self).wf(),
            final(self).same_callbacks(old(self)),
    {
        let ghost room = rapdu@.len();
        let (entry, Ghost(opened)) = self.enter();
        match entry {
            Ok(()) => {},
            Err(e) => {
                assert(old(self).transmit_from(
                    opened,
                    capdu@,
                    room,
                    self@,
                    Err::<Seq<u8>, Error<E>>(e),
                ));
                return Err(e);
            },
        }
        let ghost entered = self@;
        let ifc: Option<&T> = self.interface.as_ref();
        let read: &R = match self.read_cb.as_ref() {
            Some(cb) => cb,
            None => {
                assert(old(self).transmit_from(
                    opened,
                    capdu@,
                    room,
                    self@,
                    Err::<Seq<u8>, Error<E>>(Error::NoReadCb),
                ));
                return Err(Error::NoReadCb);
            },
        };
        let write: &W = match self.write_cb.as_ref() {
            Some(cb) => cb,
            None => {
                assert(old(self).transmit_from(
                    opened,
                    capdu@,
                    room,
                    self@,
                    Err::<Seq<u8>, Error<E>>(Error::NoWriteCb),
                ));
                return Err(Error::NoWriteCb);
            },
        };
        let send = |b: &[u8]| -> (n: Result<usize, E>)
            ensures
                write.ensures((ifc, b), n),
            { write(ifc, b) };
        let recv = |b: &mut [u8]| -> (n: Result<usize, E>)
            ensures
                exists|c: &mut [u8]|
                    c@.len() == old(b)@.len() && #[trigger] read.ensures((ifc, c), n),
            { read(ifc, b) };
        let got: Result<&'a [u8], crate::proto::Error<E>> = self.t1.transmit(
            capdu,
            rapdu,
            recv,
            send,
        );
        let ghost given = got;
        let r: Result<&'a [u8], Error<E>> = match got {
            Ok(rsp) => Ok(rsp),
            Err(e) => Err(Error::T1(e)),
        };
        proof {
            let start = entered.t1.opened(capdu@.len(), room);
            let sent = choose|sent: Result<(), crate::proto::Error<E>>|
                {
                    &&& #[trigger] exchanged_over(
                        writes_of(send),
                        reads_of(recv),
                        start,
                        capdu@,
                        self@.t1,
                        sent,
                    )
                    &&& match sent {
                        Ok(()) => given matches Ok(rsp) && rsp@ == self@.t1.received,
                        Err(e) => given matches Err(cause) && cause == e,
                    }
                };
            lemma_exchanged_wider(
                writes_of(send),
                reads_of(recv),
                old(self).writes(opened),
                old(self).reads(opened),
                start,
                capdu@,
                self@.t1,
                sent,
            );
            assert(old(self).transmit_from(opened, capdu@, room, self@, seen(r)));
        }
        r
    }
}

/// Collects the configuration of a [`Transmission`].
pub struct TransmissionBuilder<T, I, L, C, R, W, S> {
    init_cb: Option<I>,
    release_cb: Option<L>,
    reset_cb: Option<C>,
    read_cb: Option<R>,
    write_cb: Option<W>,
    sleep_cb: Option<S>,
    card_nad: Option<u8>,
    dev_nad: Option<u8>,
    soft_reset: bool,
    interface: core::marker::PhantomData<T>,
}

/// What a builder holds, apart from what its callbacks do.
pub struct Config {
    pub card_nad: Option<u8>,
    pub dev_nad: Option<u8>,
    pub soft_reset: bool,
    pub has_init_cb: bool,
    pub has_release_cb: bool,
    pub has_reset_cb: bool,
    pub has_read_cb: bool,
    pub has_write_cb: bool,
    pub has_sleep_cb: bool,
}

impl Config {
    /// Nothing is set.
    pub open spec fn empty() -> Config {
        Config {
            card_nad: None,
            dev_nad: None,
            soft_reset: false,
            has_init_cb: false,
            has_release_cb: false,
            has_reset_cb: false,
            has_read_cb: false,
            has_write_cb: false,
            has_sleep_cb: false,
        }
    }
}

impl<T, I, L, C, R, W, S> View for TransmissionBuilder<T, I, L, C, R, W, S> {
    type V = Config;

    closed spec fn view(&self) -> Config {
        Config {
            card_nad: self.card_nad,
            dev_nad: self.dev_nad,
            soft_reset: self.soft_reset,
            has_init_cb: self.init_cb is Some,
            has_release_cb: self.release_cb is Some,
            has_reset_cb: self.reset_cb is Some,
            has_read_cb: self.read_cb is Some,
            has_write_cb: self.write_cb is Some,
            has_sleep_cb: self.sleep_cb is Some,
        }
    }
}

impl<T, I, L, C, R, W, S> TransmissionBuilder<T, I, L, C, R, W, S> {
    /// The callbacks set so far.
    pub closed spec fn callbacks(&self) -> Callbacks<I, L, C, R, W, S> {
        Callbacks {
            init: self.init_cb,
            release: self.release_cb,
            reset: self.reset_cb,
            read: self.read_cb,
            write: self.write_cb,
            sleep: self.sleep_cb,
        }
    }
}

impl<T, E, I, L, C, R, W, S> TransmissionBuilder<T, I, L, C, R, W, S> where
    I: Fn() -> Result<Option<T>, E>,
    L: Fn(Option<&T>) -> Result<Option<T>, E>,
    C: Fn(Option<&T>) -> Result<(), E>,
    R: Fn(Option<&T>, &mut [u8]) -> Result<usize, E>,
    W: Fn(Option<&T>, &[u8]) -> Result<usize, E>,
    S: Fn(u32),
 {
    /// Every callback that is set may be called with any argument, and
    /// the configuration tells which callbacks are set.
    pub open spec fn wf(&self) -> bool {
        &&& self.callbacks().callable()
        &&& self@.has_init_cb == (self.callbacks().init is Some)
        &&& self@.has_release_cb == (self.callbacks().release is Some)
        &&& self@.has_reset_cb == (self.callbacks().reset is Some)
        &&& self@.has_read_cb == (self.callbacks().read is Some)
        &&& self@.has_write_cb == (self.callbacks().write is Some)
        &&& self@.has_sleep_cb == (self.callbacks().sleep is Some)
    }

    /// A builder in which nothing is set.
    pub fn new() -> (builder: Self)
        ensures
            builder@ == Config::empty(),
            builder.callbacks() == Callbacks::<I, L, C, R, W, S>::none(),
            builder.wf(),
    {
        TransmissionBuilder {
            init_cb: None,
            release_cb: None,
            reset_cb: None,
            read_cb: None,
            write_cb: None,
            sleep_cb: None,
            card_nad: None,
            dev_nad: None,
            soft_reset: false,
            interface: core::marker::PhantomData,
        }
    }

    /// Sets the callback that opens the interface.
    pub fn set_init_cb(self, cb: I) -> (builder: Self)
        requires
            self.wf(),
            cb.requires(()),
        ensures
            builder@ == (Config { has_init_cb: true, ..self@ }),
            builder.callbacks() == (Callbacks { init: Some(cb), ..self.callbacks() }),
            builder.wf(),
    {
        TransmissionBuilder { init_cb: Some(cb), ..self }
    }

    /// Sets the callback that closes the interface.
    pub fn set_release_cb(self, cb: L) -> (builder: Self)
        requires
            self.wf(),
            forall|ifc: Option<&T>| cb.requires((ifc,)),
        ensures
            builder@ == (Config { has_release_cb: true, ..self@ }),
            builder.callbacks() == (Callbacks { release: Some(cb), ..self.callbacks() }),
            builder.wf(),
    {
        TransmissionBuilder { release_cb: Some(cb), ..self }
    }

    /// Sets the callback that resets the interface.
    pub fn set_reset_cb(self, cb: C) -> (builder: Self)
        requires
            self.wf(),
            forall|ifc: Option<&T>| cb.requires((ifc,)),
        ensures
            builder@ == (Config { has_reset_cb: true, ..self@ }),
            builder.callbacks() == (Callbacks { reset: Some(cb), ..self.callbacks() }),
            builder.wf(),
    {
        TransmissionBuilder { reset_cb: Some(cb), ..self }
    }

    /// Sets the callback that reads from the interface.
    pub fn set_read_cb(self, cb: R) -> (builder: Self)
        requires
            self.wf(),
            forall|ifc: Option<&T>, b: &mut [u8]| cb.requires((ifc, b)),
        ensures
            builder@ == (Config { has_read_cb: true, ..self@ }),
            builder.callbacks() == (Callbacks { read: Some(cb), ..self.callbacks() }),
            builder.wf(),
    {
        TransmissionBuilder { read_cb: Some(cb), ..self }
    }

    /// Sets the callback that writes to the interface.
    pub fn set_write_cb(self, cb: W) -> (builder: Self)
        requires
            self.wf(),
            forall|ifc: Option<&T>, b: &[u8]| cb.requires((ifc, b)),
        ensures
            builder@ == (Config { has_write_cb: true, ..self@ }),
            builder.callbacks() == (Callbacks { write: Some(cb), ..self.callbacks() }),
            builder.wf(),
    {
        TransmissionBuilder { write_cb: Some(cb), ..self }
    }

    /// Sets the callback that waits.
    pub fn set_sleep_cb(self, cb: S) -> (builder: Self)
        requires
            self.wf(),
            forall|ms: u32| cb.requires((ms,)),
        ensures
            builder@ == (Config { has_sleep_cb: true, ..self@ }),
            builder.callbacks() == (Callbacks { sleep: Some(cb), ..self.callbacks() }),
            builder.wf(),
    {
        TransmissionBuilder { sleep_cb: Some(cb), ..self }
    }

    /// Sets the node addresses of the card and of the device.
    pub fn set_nad(self, card_nad: u8, dev_nad: u8) -> (builder: Self)
        requires
            self.wf(),
        ensures
            builder@ == (Config { card_nad: Some(card_nad), dev_nad: Some(dev_nad), ..self@ }),
            builder.callbacks() == self.callbacks(),
            builder.wf(),
    {
        TransmissionBuilder { card_nad: Some(card_nad), dev_nad: Some(dev_nad), ..self }
    }

    /// Has the engine reset the card by an S(RESET) request.
    pub fn enable_soft_reset(self) -> (builder: Self)
        requires
            self.wf(),
        ensures
            builder@ == (Config { soft_reset: true, ..self@ }),
            builder.callbacks() == self.callbacks(),
            builder.wf(),
    {
        TransmissionBuilder { soft_reset: true, ..self }
    }

    /// The transmission with this configuration: a new engine, no
    /// interface context, not initialised.
    pub fn build(self) -> (t: Transmission<T, I, L, C, R, W, S>)
        requires
            self.wf(),
        ensures
            t@ == (TxState::<T> {
                t1: T1State::initial(),
                interface: None,
                card_nad: self@.card_nad,
                dev_nad: self@.dev_nad,
                inited: false,
                soft_reset: self@.soft_reset,
                has_init_cb: self@.has_init_cb,
                has_release_cb: self@.has_release_cb,
                has_reset_cb: self@.has_reset_cb,
                has_read_cb: self@.has_read_cb,
                has_write_cb: self@.has_write_cb,
                has_sleep_cb: self@.has_sleep_cb,
            }),
            t.callbacks() == self.callbacks(),
            t.wf(),
    {
        let mut t1: T1Proto<S> = T1Proto::default();
        match self.sleep_cb {
            Some(cb) => {
                t1.set_sleep_cb(cb);
            },
            None => {},
        }
        Transmission {
            t1,
            interface: None,
            init_cb: self.init_cb,
            release_cb: self.release_cb,
            reset_cb: self.reset_cb,
            read_cb: self.read_cb,
            write_cb: self.write_cb,
            card_nad: self.card_nad,
            dev_nad: self.dev_nad,
            inited: false,
            soft_reset: self.soft_reset,
        }
    }
}

impl<T, I, L, C, R, W, S> Default for TransmissionBuilder<T, I, L, C, R, W, S> {
    /// A builder in which nothing is set, as [`TransmissionBuilder::new`]
    /// gives it. With no callback set the builder is well-formed.
    fn default() -> (builder: Self)
        ensures
            builder@ == Config::empty(),
            builder.callbacks() == Callbacks::<I, L, C, R, W, S>::none(),
    {
        TransmissionBuilder {
            init_cb: None,
            release_cb: None,
            reset_cb: None,
            read_cb: None,
            write_cb: None,
            sleep_cb: None,
            card_nad: None,
            dev_nad: None,
            soft_reset: false,
            interface: core::marker::PhantomData,
        }
    }
}

impl<T, I, L, C, R, W, S> Default for Transmission<T, I, L, C, R, W, S> where S: Fn(u32) {
    /// The transmission that an empty builder builds: a new engine, no
    /// interface context, no callback, no node address, not
    /// initialised. With no callback set the transmission is
    /// well-formed.
    fn default() -> (t: Self)
        ensures
            t@ == (TxState::<T> {
                t1: T1State::initial(),
                interface: None,
                card_nad: None,
                dev_nad: None,
                inited: false,
                soft_reset: false,
                has_init_cb: false,
                has_release_cb: false,
                has_reset_cb: false,
                has_read_cb: false,
                has_write_cb: false,
                has_sleep_cb: false,
            }),
            t.callbacks() == Callbacks::<I, L, C, R, W, S>::none(),
            t.engine_wf(),
    {
        Transmission {
            t1: T1Proto::default(),
            interface: None,
            init_cb: None,
            release_cb: None,
            reset_cb: None,
            read_cb: None,
            write_cb: None,
            card_nad: None,
            dev_nad: None,
            inited: false,
            soft_reset: false,
        }
    }
}

} // verus!
