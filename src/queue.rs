use vstd::prelude::*;

use crate::episode::{episode_views, Episode, EpisodeView};

verus! {

/// The episodes still waiting for a worker. Workers share it under mutual
/// exclusion and take one episode at a time from its end.
pub struct EpisodeQueue {
    pending: Vec<Episode>,
}

impl View for EpisodeQueue {
    type V = Seq<EpisodeView>;

    closed spec fn view(&self) -> Seq<EpisodeView> {
        episode_views(self.pending@)
    }
}

/// The order in which successive takes hand out the episodes of a queue
/// that holds `s`: from the last to the first.
pub open spec fn claims(s: Seq<EpisodeView>) -> Seq<EpisodeView>
    decreases s.len(),
{
    if s.len() == 0 {
        Seq::empty()
    } else {
        seq![s.last()] + claims(s.drop_last())
    }
}

impl EpisodeQueue {
    /// A queue holding `episodes`.
    pub fn new(episodes: Vec<Episode>) -> (r: EpisodeQueue)
        ensures
            r@ == episode_views(episodes@),
    {
        EpisodeQueue { pending: episodes }
    }

    /// Number of episodes still waiting.
    pub fn len(&self) -> (r: usize)
        ensures
            r == self@.len(),
    {
        self.pending.len()
    }

    /// Whether no episode is left.
    pub fn is_empty(&self) -> (r: bool)
        ensures
            r == (self@.len() == 0),
    {
        self.pending.len() == 0
    }

    /// Takes the next episode, or `None` once the queue is empty.
    pub fn take(&mut self) -> (r: Option<Episode>)
        ensures
            old(self)@.len() == 0 ==> r is None && final(self)@ == old(self)@,
            old(self)@.len() > 0 ==> (r matches Some(e) && e@ == old(self)@.last()
                && final(self)@ == old(self)@.drop_last()),
    {
        let ghost before = self.pending@;
        let r = self.pending.pop();
        proof {
            if before.len() > 0 {
                assert(episode_views(self.pending@) =~= episode_views(before).drop_last());
            }
        }
        r
    }
}

/// Taking from a queue until it is empty hands out every episode exactly
/// once: the `k`-th take gets the episode at position `len - 1 - k`, so no
/// position is handed out twice and none is left over, whichever worker
/// makes each take.
pub proof fn lemma_each_episode_claimed_once(s: Seq<EpisodeView>)
    ensures
        claims(s).len() == s.len(),
        forall|k: int| 0 <= k < s.len() ==> #[trigger] claims(s)[k] == s[s.len() - 1 - k],
    decreases s.len(),
{
    if s.len() > 0 {
        lemma_each_episode_claimed_once(s.drop_last());
        assert forall|k: int| 0 <= k < s.len() implies #[trigger] claims(s)[k] == s[s.len() - 1 - k] by {
            if k > 0 {
                assert(claims(s)[k] == claims(s.drop_last())[k - 1]);
            }
        }
    }
}

} // verus!
