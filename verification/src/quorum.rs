//! The quorum rules of the leader.
//!
//! A write is acknowledged to the client once a majority of the cluster
//! has it: the leader itself, which counts as one, and enough peers to
//! make up the rest. A read on the leader asks the peers for their value
//! of the key, needs answers from a majority, the leader's own included,
//! and returns the newest of them.
//!
//! Asking the peers is left to the caller. For a write the caller feeds
//! the replies, as they come in, to an [`AckTally`], and may stop waiting
//! as soon as the tally says that the quorum is reached.

use vstd::prelude::*;
use crate::value::{Value, ValueView};

verus! {

/// The size of a majority among `nodes` nodes.
pub open spec fn majority(nodes: nat) -> nat {
    nodes / 2 + 1
}

/// How many of the replies are acknowledgements.
pub open spec fn count_acks(replies: Seq<bool>) -> nat
    decreases replies.len(),
{
    if replies.len() == 0 {
        0
    } else {
        count_acks(replies.drop_last()) + (if replies.last() {
            1nat
        } else {
            0nat
        })
    }
}

/// Whether a write has its quorum: the leader and the peers that
/// acknowledged are at least `quorum` nodes.
pub open spec fn quorum_reached(replies: Seq<bool>, quorum: nat) -> bool {
    1 + count_acks(replies) >= quorum
}

/// The contents of a list of values, in order.
pub open spec fn values_view(values: Seq<Value>) -> Seq<ValueView> {
    values.map_values(|v: Value| v@)
}

/// The place of the value that a read returns: the newest of the answers,
/// and of several that are equally new the last.
pub open spec fn freshest_index(answers: Seq<ValueView>) -> int
    decreases answers.len(),
{
    if answers.len() <= 1 {
        0
    } else {
        let before = freshest_index(answers.drop_last());
        if answers[before].is_newer_than(Some(answers.last())) {
            before
        } else {
            answers.len() - 1
        }
    }
}

/// The quorum of a cluster with `peer_count` peers beside this node: a
/// majority of all its nodes.
pub fn quorum_size(peer_count: usize) -> (quorum: usize)
    ensures
        quorum == majority(peer_count as nat + 1),
{
    peer_count / 2 + peer_count % 2 + 1
}

/// How far a write is from its quorum.
#[derive(Debug, Clone, Copy, PartialEq, Eq, Structural)]
pub enum QuorumProgress {
    /// Enough nodes have the write.
    Reached,
    /// Not enough yet, and some peers have not replied.
    Waiting,
    /// Not enough, and no peer is left to reply.
    Failed,
}

/// The state of a count of acknowledgements.
pub struct TallyView {
    /// The peers that acknowledged.
    pub peer_acks: nat,
    /// The peers that have not replied yet.
    pub outstanding: nat,
    /// The quorum to reach, the leader included.
    pub needed: nat,
}

impl TallyView {
    /// The count before any peer replied.
    pub open spec fn start(peers: nat, needed: nat) -> TallyView {
        TallyView { peer_acks: 0, outstanding: peers, needed }
    }

    /// The count after one more reply. A reply that no peer is left to
    /// give is not counted.
    pub open spec fn record(self, acked: bool) -> TallyView {
        if self.outstanding == 0 {
            self
        } else {
            TallyView {
                peer_acks: if acked {
                    self.peer_acks + 1
                } else {
                    self.peer_acks
                },
                outstanding: (self.outstanding - 1) as nat,
                needed: self.needed,
            }
        }
    }

    /// The count after a run of replies, the first of them first.
    pub open spec fn record_all(self, replies: Seq<bool>) -> TallyView
        decreases replies.len(),
    {
        if replies.len() == 0 {
            self
        } else {
            self.record_all(replies.drop_last()).record(replies.last())
        }
    }

    /// How far the write is from its quorum. The leader counts as one.
    pub open spec fn progress(self) -> QuorumProgress {
        if 1 + self.peer_acks >= self.needed {
            QuorumProgress::Reached
        } else if self.outstanding > 0 {
            QuorumProgress::Waiting
        } else {
            QuorumProgress::Failed
        }
    }
}

/// The count of acknowledgements for one write.
#[derive(Debug)]
pub struct AckTally {
    peer_acks: usize,
    outstanding: usize,
    needed: usize,
}

impl View for AckTally {
    type V = TallyView;

    closed spec fn view(&self) -> TallyView {
        TallyView {
            peer_acks: self.peer_acks as nat,
            outstanding: self.outstanding as nat,
            needed: self.needed as nat,
        }
    }
}

impl AckTally {
    #[verifier::type_invariant]
    spec fn fits(self) -> bool {
        self.peer_acks + self.outstanding <= usize::MAX
    }

    /// The count for a write that goes to `peers` peers and needs
    /// `write_quorum` nodes, the leader included.
    pub fn start(peers: usize, write_quorum: usize) -> (tally: Self)
        ensures
            tally@ == TallyView::start(peers as nat, write_quorum as nat),
    {
        AckTally { peer_acks: 0, outstanding: peers, needed: write_quorum }
    }

    /// Counts the reply of one peer: an acknowledgement, or a failure (a
    /// refusal, an error, a timeout).
    pub fn record(&mut self, acked: bool)
        ensures
            final(self)@ == old(self)@.record(acked),
    {
        proof {
            use_type_invariant(&*self);
        }
        if self.outstanding > 0 {
            let acks: usize = if acked {
                self.peer_acks + 1
            } else {
                self.peer_acks
            };
            *self = AckTally {
                peer_acks: acks,
                outstanding: self.outstanding - 1,
                needed: self.needed,
            };
        }
    }

    /// How far the write is from its quorum.
    pub fn progress(&self) -> (progress: QuorumProgress)
        ensures
            progress == self@.progress(),
    {
        let reached = self.needed == 0 || self.peer_acks >= self.needed - 1;
        if reached {
            QuorumProgress::Reached
        } else if self.outstanding > 0 {
            QuorumProgress::Waiting
        } else {
            QuorumProgress::Failed
        }
    }
}

/// Decides a write from the replies of all the peers it went to: it
/// succeeds when the leader and the peers that acknowledged are at least
/// `write_quorum` nodes.
pub fn quorum_write(replies: &Vec<bool>, write_quorum: usize) -> (outcome: Result<(), ()>)
    ensures
        outcome is Ok <==> quorum_reached(replies@, write_quorum as nat),
{
    let mut tally = AckTally::start(replies.len(), write_quorum);
    let mut i: usize = 0;
    proof {
        assert(replies@.take(0) =~= Seq::<bool>::empty());
    }
    while i < replies.len()
        invariant
            i <= replies.len(),
            tally@ == TallyView::start(replies@.len(), write_quorum as nat).record_all(
                replies@.take(i as int),
            ),
        decreases replies.len() - i,
    {
        proof {
            assert(replies@.take(i + 1).drop_last() =~= replies@.take(i as int));
        }
        tally.record(replies[i]);
        i = i + 1;
    }
    proof {
        assert(replies@.take(i as int) =~= replies@);
        lemma_tally_agrees_with_count(replies@.len(), write_quorum as nat, replies@);
    }
    match tally.progress() {
        QuorumProgress::Reached => Ok(()),
        _ => Err(()),
    }
}

/// Decides a read on the leader from its own value for the key and the
/// values that the peers answered with. With fewer than `read_quorum`
/// values, the leader's included, the read fails; otherwise it returns
/// the newest of them.
pub fn quorum_read(local_value: Value, responses: Vec<Value>, read_quorum: usize) -> (outcome:
    Result<Value, ()>)
    ensures
        outcome is Ok <==> 1 + responses@.len() >= read_quorum,
        outcome matches Ok(v) ==> {
            let answers = seq![local_value@] + values_view(responses@);
            v@ == answers[freshest_index(answers)]
        },
{
    if read_quorum >= 2 && responses.len() < read_quorum - 1 {
        return Err(());
    }
    let ghost answers = seq![local_value@] + values_view(responses@);
    let mut best = local_value;
    let mut i: usize = 0;
    proof {
        assert(answers.take(1) =~= seq![local_value@]);
    }
    while i < responses.len()
        invariant
            i <= responses.len(),
            answers == seq![local_value@] + values_view(responses@),
            best@ == answers[freshest_index(answers.take(i + 1))],
            0 <= freshest_index(answers.take(i + 1)) <= i,
        decreases responses.len() - i,
    {
        let candidate = &responses[i];
        proof {
            let seen = answers.take(i + 2);
            assert(seen.drop_last() =~= answers.take(i + 1));
            assert(seen.last() == candidate@);
            assert(seen[freshest_index(seen.drop_last())] == answers[freshest_index(
                answers.take(i + 1),
            )]);
        }
        if !best.is_newer_than(Some(candidate)) {
            best = candidate.clone();
        }
        i = i + 1;
    }
    proof {
        assert(answers.take(i + 1) =~= answers);
    }
    Ok(best)
}

/// A count that has room for the replies counts their acknowledgements.
pub proof fn lemma_tally_counts_acks(tally: TallyView, replies: Seq<bool>)
    requires
        replies.len() <= tally.outstanding,
    ensures
        tally.record_all(replies) == (TallyView {
            peer_acks: tally.peer_acks + count_acks(replies),
            outstanding: (tally.outstanding - replies.len()) as nat,
            needed: tally.needed,
        }),
    decreases replies.len(),
{
    if replies.len() > 0 {
        lemma_tally_counts_acks(tally, replies.drop_last());
    }
}

/// Once every peer has replied the count is settled: the quorum is
/// reached when the leader and the peers that acknowledged are enough,
/// and has failed otherwise.
pub proof fn lemma_tally_agrees_with_count(peers: nat, needed: nat, replies: Seq<bool>)
    requires
        replies.len() == peers,
    ensures
        TallyView::start(peers, needed).record_all(replies).progress() == (if quorum_reached(
            replies,
            needed,
        ) {
            QuorumProgress::Reached
        } else {
            QuorumProgress::Failed
        }),
{
    lemma_tally_counts_acks(TallyView::start(peers, needed), replies);
}

/// A quorum that is reached stays reached, whatever replies follow: the
/// caller may stop waiting at that point.
pub proof fn lemma_reached_quorum_stays(tally: TallyView, replies: Seq<bool>)
    requires
        tally.progress() is Reached,
    ensures
        tally.record_all(replies).progress() is Reached,
        tally.record_all(replies).needed == tally.needed,
        tally.record_all(replies).peer_acks >= tally.peer_acks,
    decreases replies.len(),
{
    if replies.len() > 0 {
        lemma_reached_quorum_stays(tally, replies.drop_last());
    }
}

/// A node alone is its own majority: its writes reach their quorum
/// before any peer is asked.
pub proof fn lemma_single_node_has_quorum()
    ensures
        TallyView::start(0, majority(1)).progress() is Reached,
{
}

/// The acknowledgements among the replies are no more than the replies.
pub proof fn lemma_acks_are_bounded(replies: Seq<bool>)
    ensures
        count_acks(replies) <= replies.len(),
    decreases replies.len(),
{
    if replies.len() > 0 {
        lemma_acks_are_bounded(replies.drop_last());
    }
}

/// The value that a read returns is the newest of the answers: none of
/// them is newer, and those that follow it in the list are older.
pub proof fn lemma_freshest_is_newest(answers: Seq<ValueView>)
    requires
        answers.len() > 0,
    ensures
        0 <= freshest_index(answers) < answers.len(),
        forall|j: int|
            0 <= j < answers.len() ==> !(#[trigger] answers[j]).is_newer_than(
                Some(answers[freshest_index(answers)]),
            ),
        forall|j: int|
            freshest_index(answers) < j < answers.len() ==> answers[freshest_index(
                answers,
            )].is_newer_than(Some(#[trigger] answers[j])),
    decreases answers.len(),
{
    if answers.len() > 1 {
        let front = answers.drop_last();
        lemma_freshest_is_newest(front);
        let before = freshest_index(front);
        let chosen = freshest_index(answers);
        assert forall|j: int| 0 <= j < answers.len() implies !(#[trigger] answers[j]).is_newer_than(
            Some(answers[chosen]),
        ) by {
            if j < front.len() {
                assert(front[j] == answers[j]);
            }
        }
        assert forall|j: int| chosen < j < answers.len() implies answers[chosen].is_newer_than(
            Some(#[trigger] answers[j]),
        ) by {
            if j < front.len() {
                assert(front[j] == answers[j]);
            }
        }
    }
}

} // verus!
