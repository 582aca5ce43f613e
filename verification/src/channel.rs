use vstd::prelude::*;

verus! {

#[verifier::external_type_specification]
#[verifier::external_body]
#[verifier::reject_recursive_types(T)]
pub struct ExMpscSender<T>(std::sync::mpsc::Sender<T>);

#[verifier::external_type_specification]
#[verifier::external_body]
#[verifier::reject_recursive_types(T)]
pub struct ExMpscReceiver<T>(std::sync::mpsc::Receiver<T>);

#[verifier::external_type_specification]
#[verifier::external_body]
#[verifier::reject_recursive_types(T)]
pub struct ExMpscSyncSender<T>(std::sync::mpsc::SyncSender<T>);

/// Why a non-blocking send did not store its value: the bounded
/// buffer was full, or every receiver is gone.  The value comes back
/// either way.
pub enum TrySendError<T> {
    Full(T),
    Disconnected(T),
}

/// Why a non-blocking receive returned no value: nothing was
/// waiting, or every sender is gone.
#[derive(Clone, Copy, Debug, PartialEq, Eq, Structural)]
pub enum TryRecvError {
    Empty,
    Disconnected,
}

/// The sending end of an unbounded channel.  What order delivery
/// keeps is proved on the channel's model, [`crate::chan::ChanModel`];
/// this end carries values to a receiver that may live on another
/// worker.
#[verifier::reject_recursive_types(T)]
pub struct Sender<T> {
    inner: std::sync::mpsc::Sender<T>,
}

/// The receiving end of an unbounded channel.
#[verifier::reject_recursive_types(T)]
pub struct Receiver<T> {
    inner: std::sync::mpsc::Receiver<T>,
}

/// Relies on std::sync::mpsc::channel: a connected sender/receiver
/// pair.
#[verifier::external_body]
fn mpsc_pair<T>() -> (r: (Sender<T>, Receiver<T>)) {
    let (s, r) = std::sync::mpsc::channel();
    (Sender { inner: s }, Receiver { inner: r })
}

/// An unbounded channel: values go in at the sender and come out at
/// the receiver in send order.
pub fn channel<T>() -> (r: (Sender<T>, Receiver<T>)) {
    mpsc_pair()
}

/// An unbounded channel, under the other conventional name.
pub fn unbounded<T>() -> (r: (Sender<T>, Receiver<T>)) {
    mpsc_pair()
}

impl<T> Sender<T> {
    /// Relies on std::sync::mpsc::Sender::send: hands the value to
    /// the channel; it comes back only when every receiver is gone.
    #[verifier::external_body]
    pub fn send(&self, v: T) -> (r: Result<(), T>) {
        match self.inner.send(v) {
            Ok(()) => Ok(()),
            Err(e) => Err(e.0),
        }
    }

    /// Relies on std::sync::mpsc::Sender::clone: another sending end
    /// of the same channel.
    #[verifier::external_body]
    pub fn clone(&self) -> (r: Sender<T>) {
        Sender { inner: self.inner.clone() }
    }
}

impl<T> Receiver<T> {
    /// Relies on std::sync::mpsc::Receiver::recv: waits for the next
    /// value; `None` means every sender is gone and nothing is left.
    #[verifier::external_body]
    pub fn recv(&self) -> (r: Option<T>) {
        match self.inner.recv() {
            Ok(v) => Some(v),
            Err(_) => None,
        }
    }

    /// Relies on std::sync::mpsc::Receiver::try_recv: the next value
    /// if one is already waiting; otherwise the reason there was
    /// none, one arm per error.
    #[verifier::external_body]
    pub fn try_recv(&self) -> (r: Result<T, TryRecvError>) {
        match self.inner.try_recv() {
            Ok(v) => Ok(v),
            Err(std::sync::mpsc::TryRecvError::Empty) => Err(TryRecvError::Empty),
            Err(std::sync::mpsc::TryRecvError::Disconnected) => Err(TryRecvError::Disconnected),
        }
    }
}

/// The sending end of a bounded channel: a send on a full buffer
/// waits for a receive to make room, which is the backpressure the
/// bounded variant exists for.  What capacity and order guarantee is
/// proved on [`crate::chan::ChanModel`].
#[verifier::reject_recursive_types(T)]
pub struct BoundedSender<T> {
    inner: std::sync::mpsc::SyncSender<T>,
}

/// Relies on std::sync::mpsc::sync_channel: a connected bounded
/// sender/receiver pair with `cap` values of buffer.
#[verifier::external_body]
fn mpsc_bounded_pair<T>(cap: usize) -> (r: (BoundedSender<T>, Receiver<T>)) {
    let (s, r) = std::sync::mpsc::sync_channel(cap);
    (BoundedSender { inner: s }, Receiver { inner: r })
}

/// A bounded channel holding at most `cap` values in flight: a send
/// on a full buffer blocks until a receive makes room.
pub fn bounded<T>(cap: usize) -> (r: (BoundedSender<T>, Receiver<T>)) {
    mpsc_bounded_pair(cap)
}

/// A bounded channel, under the other conventional name.
pub fn channel_buf<T>(cap: usize) -> (r: (BoundedSender<T>, Receiver<T>)) {
    mpsc_bounded_pair(cap)
}

impl<T> BoundedSender<T> {
    /// Relies on std::sync::mpsc::SyncSender::send: hands the value
    /// to the channel, waiting while the buffer is full; it comes
    /// back only when every receiver is gone.
    #[verifier::external_body]
    pub fn send(&self, v: T) -> (r: Result<(), T>) {
        match self.inner.send(v) {
            Ok(()) => Ok(()),
            Err(e) => Err(e.0),
        }
    }

    /// Relies on std::sync::mpsc::SyncSender::try_send: stores the
    /// value if there is room, and otherwise reports why not, one
    /// arm per error, moving the value back.
    #[verifier::external_body]
    pub fn try_send(&self, v: T) -> (r: Result<(), TrySendError<T>>) {
        match self.inner.try_send(v) {
            Ok(()) => Ok(()),
            Err(std::sync::mpsc::TrySendError::Full(v)) => Err(TrySendError::Full(v)),
            Err(std::sync::mpsc::TrySendError::Disconnected(v)) => Err(
                TrySendError::Disconnected(v),
            ),
        }
    }

    /// Relies on std::sync::mpsc::SyncSender::clone: another sending
    /// end of the same channel.
    #[verifier::external_body]
    pub fn clone(&self) -> (r: BoundedSender<T>) {
        BoundedSender { inner: self.inner.clone() }
    }
}

/// A stream fed over a channel: each item is wrapped in `Some`, and
/// a closing `None` marks the end, so a reader stops without ever
/// blocking on a drained stream.
#[verifier::reject_recursive_types(T)]
#[verifier::reject_recursive_types(E)]
pub struct ChanStream<T, E> {
    pub recv: Receiver<Option<Result<T, E>>>,
    pub send: Sender<Option<Result<T, E>>>,
}

impl<T, E> ChanStream<T, E> {
    /// Builds a stream by running `f` with a sending end: whatever
    /// `f` sends becomes the stream, an error from `f` becomes the
    /// last item, and the closing `None` is appended so readers
    /// terminate.
    pub fn new<F: FnOnce(Sender<Option<Result<T, E>>>) -> Result<(), E>>(f: F) -> (r: Self)
        requires
            forall|s: Sender<Option<Result<T, E>>>| #[trigger] f.requires((s,)),
    {
        let (s, r) = channel::<Option<Result<T, E>>>();
        let result = f(s.clone());
        match result {
            Err(e) => {
                let _ = s.send(Some(Err(e)));
            },
            Ok(()) => {},
        }
        let _ = s.send(None);
        ChanStream { recv: r, send: s }
    }

    /// The next item, or `None` at the end of the stream.
    pub fn next(&mut self) -> (r: Option<Result<T, E>>) {
        match self.recv.recv() {
            Some(v) => v,
            None => None,
        }
    }
}

} // verus!
