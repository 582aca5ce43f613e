use vstd::prelude::*;

verus! {

/// The completion queue behind a select over `arms` event sources:
/// each arm runs as a sibling coroutine that posts its token here
/// when its event fires, and the first token to arrive wins.  The
/// winner never changes afterwards, so exactly one arm's body runs
/// per completed select; the losers are cancelled.
pub struct CQueue {
    arms: usize,
    winner: Option<usize>,
}

impl CQueue {
    /// How many arms compete.
    pub closed spec fn spec_arms(&self) -> usize {
        self.arms
    }

    /// The arm whose token arrived first, if any has yet.
    pub closed spec fn spec_winner(&self) -> Option<usize> {
        self.winner
    }

    /// A select over `arms` arms with no completion yet.
    pub fn new(arms: usize) -> (r: CQueue)
        ensures
            r.spec_arms() == arms,
            r.spec_winner() is None,
    {
        CQueue { arms, winner: None }
    }

    /// Posts arm `arm`'s completion token.  The first post wins and
    /// is told so; every later post loses and changes nothing: at
    /// most one arm ever wins one select.
    pub fn post(&mut self, arm: usize) -> (won: bool)
        requires
            arm < old(self).spec_arms(),
        ensures
            final(self).spec_arms() == old(self).spec_arms(),
            old(self).spec_winner() is None ==> won && final(self).spec_winner() == Some(arm),
            old(self).spec_winner() matches Some(i) ==> !won && final(self).spec_winner() == Some(
                i,
            ),
    {
        match self.winner {
            None => {
                self.winner = Some(arm);
                true
            },
            Some(_) => false,
        }
    }

    /// The winning arm, if a token has arrived.
    pub fn winner(&self) -> (r: Option<usize>)
        ensures
            r == self.spec_winner(),
    {
        self.winner
    }
}

/// The host side of a select picks the first ready arm: the returned
/// index is ready and every arm before it is not; with nothing ready
/// there is no pick and the host parks on the completion queue.
pub fn select_first(ready: &Vec<bool>) -> (r: Option<usize>)
    ensures
        r is None ==> forall|i: int| 0 <= i < ready@.len() ==> !(#[trigger] ready@[i]),
        r matches Some(i) ==> i < ready@.len() && ready@[i as int] && forall|j: int|
            0 <= j < i ==> !(#[trigger] ready@[j]),
{
    let mut i: usize = 0;
    while i < ready.len()
        invariant
            i <= ready@.len(),
            forall|j: int| 0 <= j < i ==> !(#[trigger] ready@[j]),
        decreases ready@.len() - i,
    {
        if ready[i] {
            return Some(i);
        }
        i = i + 1;
    }
    None
}

} // verus!
