use vstd::prelude::*;

verus! {

/// What a send attempt did: the value was stored, or the buffer was
/// full and the value comes back while its sender parks until a
/// receive makes room.
pub enum SendPoll<T> {
    Stored,
    Full(T),
}

/// The state of one channel, as the runtime reasons about it: the
/// values in flight, the capacity of the bounded variant, and the
/// histories of what was sent and received.  The histories tie the
/// two ends together: what has been received is exactly the oldest
/// prefix of what has been sent.
pub struct ChanModel<T> {
    buf: Vec<T>,
    cap: Option<usize>,
    sent: Ghost<Seq<T>>,
    recvd: Ghost<Seq<T>>,
}

impl<T> ChanModel<T> {
    /// The values in flight, oldest first.
    pub closed spec fn spec_buf(&self) -> Seq<T> {
        self.buf@
    }

    /// The capacity of the bounded variant.
    pub closed spec fn spec_cap(&self) -> Option<usize> {
        self.cap
    }

    /// Every value ever sent, in send order.
    pub closed spec fn spec_sent(&self) -> Seq<T> {
        self.sent@
    }

    /// Every value ever received, in receive order.
    pub closed spec fn spec_recvd(&self) -> Seq<T> {
        self.recvd@
    }

    /// Sends accepted so far are the receives so far followed by the
    /// values still in flight, and a bounded buffer never exceeds its
    /// capacity.
    pub open spec fn inv(&self) -> bool {
        &&& self.spec_sent() == self.spec_recvd() + self.spec_buf()
        &&& match self.spec_cap() {
            Some(c) => self.spec_buf().len() <= c,
            None => true,
        }
    }

    /// An unbounded channel.
    pub fn new_unbounded() -> (r: ChanModel<T>)
        ensures
            r.inv(),
            r.spec_cap() is None,
            r.spec_sent() =~= Seq::<T>::empty(),
            r.spec_recvd() =~= Seq::<T>::empty(),
            r.spec_buf() =~= Seq::<T>::empty(),
    {
        ChanModel {
            buf: Vec::new(),
            cap: None,
            sent: Ghost(Seq::empty()),
            recvd: Ghost(Seq::empty()),
        }
    }

    /// A bounded channel holding at most `cap` values in flight.
    pub fn new_bounded(cap: usize) -> (r: ChanModel<T>)
        ensures
            r.inv(),
            r.spec_cap() == Some(cap),
            r.spec_sent() =~= Seq::<T>::empty(),
            r.spec_recvd() =~= Seq::<T>::empty(),
            r.spec_buf() =~= Seq::<T>::empty(),
    {
        ChanModel {
            buf: Vec::new(),
            cap: Some(cap),
            sent: Ghost(Seq::empty()),
            recvd: Ghost(Seq::empty()),
        }
    }

    /// One send attempt.  On a full bounded buffer the value comes
    /// back (`Full`): the sender parks, and retries when a receive
    /// has made room.  Otherwise the value joins the back of the
    /// buffer and the send history.
    pub fn send(&mut self, v: T) -> (r: SendPoll<T>)
        requires
            old(self).inv(),
            old(self).spec_buf().len() < usize::MAX,
        ensures
            final(self).inv(),
            final(self).spec_cap() == old(self).spec_cap(),
            final(self).spec_recvd() == old(self).spec_recvd(),
            r matches SendPoll::Full(w) ==> {
                &&& w == v
                &&& old(self).spec_cap() matches Some(c) && old(self).spec_buf().len() == c
                &&& final(self).spec_buf() == old(self).spec_buf()
                &&& final(self).spec_sent() == old(self).spec_sent()
            },
            r is Stored ==> {
                &&& final(self).spec_buf() == old(self).spec_buf().push(v)
                &&& final(self).spec_sent() == old(self).spec_sent().push(v)
            },
            r is Stored <==> !(old(self).spec_cap() matches Some(c) && old(self).spec_buf().len()
                >= c),
    {
        match self.cap {
            Some(c) => {
                if self.buf.len() >= c {
                    return SendPoll::Full(v);
                }
            },
            None => {},
        }
        proof {
            self.sent@ = self.sent@.push(v);
        }
        self.buf.push(v);
        SendPoll::Stored
    }

    /// One receive attempt.  An empty buffer gives `None`: the
    /// receiver parks until a send arrives.  Otherwise the oldest
    /// value in flight — which is exactly the next sent value not
    /// yet received — is delivered.
    pub fn recv(&mut self) -> (r: Option<T>)
        requires
            old(self).inv(),
        ensures
            final(self).inv(),
            final(self).spec_cap() == old(self).spec_cap(),
            final(self).spec_sent() == old(self).spec_sent(),
            r is None <==> old(self).spec_buf().len() == 0,
            r is None ==> final(self).spec_buf() == old(self).spec_buf() && final(self).spec_recvd() == old(self).spec_recvd(),
            r matches Some(v) ==> {
                &&& v == old(self).spec_buf()[0]
                &&& v == old(self).spec_sent()[old(self).spec_recvd().len() as int]
                &&& final(self).spec_buf() == old(self).spec_buf().remove(0)
                &&& final(self).spec_recvd() == old(self).spec_recvd().push(v)
            },
    {
        if self.buf.len() == 0 {
            return None;
        }
        let v = self.buf.remove(0);
        proof {
            assert(old(self).spec_sent()[old(self).spec_recvd().len() as int] == v);
            self.recvd@ = self.recvd@.push(v);
            assert(self.spec_sent() =~= self.spec_recvd() + self.spec_buf());
        }
        Some(v)
    }

    /// How many values are in flight.
    pub fn remain(&self) -> (r: usize)
        ensures
            r == self.spec_buf().len(),
    {
        self.buf.len()
    }
}

/// First in, first out, per channel: every value received was sent,
/// the receive order is the send order, and the next receive always
/// delivers the oldest value not yet received.
pub proof fn lemma_channel_fifo<T>(c: ChanModel<T>)
    requires
        c.inv(),
    ensures
        c.spec_recvd().is_prefix_of(c.spec_sent()),
        forall|i: int|
            0 <= i < c.spec_recvd().len() ==> #[trigger] c.spec_recvd()[i] == c.spec_sent()[i],
{
    assert(c.spec_recvd() =~= c.spec_sent().subrange(0, c.spec_recvd().len() as int));
}

} // verus!
