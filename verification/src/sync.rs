use crate::retry::{
    after_report, next_move, started, wait, Attempt, Move, RETRIES, SLEEP_UNIT,
};
use crate::settings::Permissions;
use vstd::prelude::*;

verus! {

/// Code of the message that asks a node whether it allows interactions.
pub const PROTO_SYNC_REQ: u8 = 0x10;

/// Code of the answer of a node that allows them.
pub const PROTO_SYNC_OK: u8 = 0x11;

/// Code of the answer of a node that does not.
pub const PROTO_SYNC_NA: u8 = 0x12;

/// What a node answered to the handshake.
#[derive(Clone, Copy, Debug, PartialEq, Eq, Structural)]
pub enum Verdict {
    /// The node allows interactions.
    Allowed,
    /// The node does not allow them.
    Refused,
    /// The answer is neither of the two.
    Unknown,
}

/// The code that a node with these permissions answers the handshake with.
pub open spec fn answer_code(perms: Permissions) -> u8 {
    if perms.open_interactions {
        PROTO_SYNC_OK
    } else {
        PROTO_SYNC_NA
    }
}

/// What an answer to the handshake says.
pub open spec fn verdict_of(reply: Seq<u8>) -> Verdict {
    if reply.len() > 0 && reply[0] == PROTO_SYNC_OK {
        Verdict::Allowed
    } else if reply.len() > 0 && reply[0] == PROTO_SYNC_NA {
        Verdict::Refused
    } else {
        Verdict::Unknown
    }
}

/// The message that opens the handshake.
pub fn sync_request() -> (message: Vec<u8>)
    ensures
        message@ == seq![PROTO_SYNC_REQ],
{
    let mut message: Vec<u8> = Vec::new();
    message.push(PROTO_SYNC_REQ);
    message
}

/// The answer of a node with these permissions to the handshake.
pub fn sync_reply(perms: &Permissions) -> (message: Vec<u8>)
    ensures
        message@ == seq![answer_code(*perms)],
{
    let mut message: Vec<u8> = Vec::new();
    if perms.open_interactions {
        message.push(PROTO_SYNC_OK);
    } else {
        message.push(PROTO_SYNC_NA);
    }
    message
}

/// Reads an answer to the handshake.
pub fn observe(reply: &[u8]) -> (verdict: Verdict)
    ensures
        verdict == verdict_of(reply@),
{
    if reply.len() > 0 && reply[0] == PROTO_SYNC_OK {
        Verdict::Allowed
    } else if reply.len() > 0 && reply[0] == PROTO_SYNC_NA {
        Verdict::Refused
    } else {
        Verdict::Unknown
    }
}

/// The views of a vector of texts.
pub open spec fn text_views(v: Seq<String>) -> Seq<Seq<char>> {
    Seq::new(v.len(), |i: int| v[i]@)
}

/// One pass of the sync daemon over the configured peers: each in turn is
/// offered the handshake, retried with a growing wait while it cannot be
/// reached, and noted as unavailable when the tries run out. The peers
/// themselves are never changed.
#[derive(Debug)]
pub struct SyncPass {
    /// The configured peers.
    pub peers: Vec<String>,
    /// Index of the peer that is being tried.
    pub current: usize,
    /// The retry of the handshake with that peer.
    pub attempt: Attempt,
    /// The peers that could not be reached in this pass, in their order.
    pub unavailable: Vec<String>,
}

/// A pass as its contracts see it.
pub struct SyncPassView {
    pub peers: Seq<Seq<char>>,
    pub current: int,
    pub attempt: Attempt,
    pub unavailable: Seq<Seq<char>>,
}

impl View for SyncPass {
    type V = SyncPassView;

    open spec fn view(&self) -> SyncPassView {
        SyncPassView {
            peers: text_views(self.peers@),
            current: self.current as int,
            attempt: self.attempt,
            unavailable: text_views(self.unavailable@),
        }
    }
}

/// What the daemon does next.
#[derive(Debug)]
pub enum SyncMove {
    /// No peer is configured: there is nothing to do.
    Rest,
    /// Wait for `delay` seconds, offer `peer` the handshake and report
    /// whether it could be reached.
    Shake { peer: String, delay: u64 },
    /// The pass is over; `unavailable` holds the peers that were not reached.
    Finished { unavailable: Vec<String> },
}

/// A move of the daemon as its contracts see it.
pub enum SyncMoveView {
    Rest,
    Shake { peer: Seq<char>, delay: u64 },
    Finished { unavailable: Seq<Seq<char>> },
}

impl View for SyncMove {
    type V = SyncMoveView;

    open spec fn view(&self) -> SyncMoveView {
        match self {
            SyncMove::Rest => SyncMoveView::Rest,
            SyncMove::Shake { peer, delay } => SyncMoveView::Shake { peer: peer@, delay: *delay },
            SyncMove::Finished { unavailable } => SyncMoveView::Finished {
                unavailable: text_views(unavailable@),
            },
        }
    }
}

/// The pass as it stands when the daemon starts.
pub open spec fn begun(peers: Seq<Seq<char>>) -> SyncPassView {
    SyncPassView {
        peers,
        current: 0,
        attempt: started(RETRIES, SLEEP_UNIT),
        unavailable: Seq::empty(),
    }
}

/// The first move of a pass.
pub open spec fn first_sync_move(peers: Seq<Seq<char>>) -> SyncMoveView {
    if peers.len() == 0 {
        SyncMoveView::Rest
    } else {
        SyncMoveView::Shake { peer: peers[0], delay: 0 }
    }
}

/// The pass after the handshake with the current peer ended as `reached`
/// says: the same peer while tries are left, else the next one, with the
/// peer that ran out of tries added to the unavailable ones.
pub open spec fn pass_after(p: SyncPassView, reached: bool) -> SyncPassView {
    if p.current >= p.peers.len() {
        p
    } else {
        match next_move(p.attempt, reached) {
            Move::Try { delay } => SyncPassView { attempt: after_report(p.attempt, reached), ..p },
            Move::Done => SyncPassView {
                current: p.current + 1,
                attempt: started(RETRIES, SLEEP_UNIT),
                ..p
            },
            Move::Fallback => SyncPassView {
                current: p.current + 1,
                attempt: started(RETRIES, SLEEP_UNIT),
                unavailable: p.unavailable.push(p.peers[p.current]),
                ..p
            },
        }
    }
}

/// The move that follows that report.
pub open spec fn sync_move_after(p: SyncPassView, reached: bool) -> SyncMoveView {
    let q = pass_after(p, reached);
    if q.current >= q.peers.len() {
        SyncMoveView::Finished { unavailable: q.unavailable }
    } else if q.current == p.current {
        SyncMoveView::Shake {
            peer: q.peers[q.current],
            delay: next_move(p.attempt, reached)->delay,
        }
    } else {
        SyncMoveView::Shake { peer: q.peers[q.current], delay: 0 }
    }
}

/// A copy of a list of texts.
pub fn clone_texts(texts: &Vec<String>) -> (copy: Vec<String>)
    ensures
        text_views(copy@) == text_views(texts@),
{
    let mut copy: Vec<String> = Vec::new();
    let mut i: usize = 0;
    while i < texts.len()
        invariant
            i <= texts.len(),
            copy@.len() == i,
            forall|j: int| 0 <= j < i ==> copy@[j]@ == texts@[j]@,
        decreases texts.len() - i,
    {
        copy.push(texts[i].clone());
        i += 1;
    }
    copy
}

impl SyncPass {
    /// Starts a pass over `peers` and gives its first move.
    pub fn begin(peers: Vec<String>) -> (r: (SyncPass, SyncMove))
        ensures
            r.0@ == begun(text_views(peers@)),
            r.1@ == first_sync_move(text_views(peers@)),
    {
        let (attempt, _) = Attempt::start(RETRIES, SLEEP_UNIT);
        let first = if peers.len() == 0 {
            SyncMove::Rest
        } else {
            SyncMove::Shake { peer: peers[0].clone(), delay: 0 }
        };
        let pass = SyncPass { peers, current: 0, attempt, unavailable: Vec::new() };
        assert(pass@.unavailable =~= Seq::<Seq<char>>::empty());
        (pass, first)
    }

    /// Takes whether the current peer could be reached and gives the next
    /// move.
    pub fn report(&mut self, reached: bool) -> (next: SyncMove)
        ensures
            final(self)@ == pass_after(old(self)@, reached),
            next@ == sync_move_after(old(self)@, reached),
    {
        if self.current >= self.peers.len() {
            return SyncMove::Finished { unavailable: clone_texts(&self.unavailable) };
        }
        let ghost before = self@;
        match self.attempt.report(reached) {
            Move::Try { delay } => {
                return SyncMove::Shake { peer: self.peers[self.current].clone(), delay };
            },
            Move::Done => {},
            Move::Fallback => {
                self.unavailable.push(self.peers[self.current].clone());
                assert(self@.unavailable =~= before.unavailable.push(before.peers[before.current]));
            },
        }
        self.current = self.current + 1;
        let (attempt, _) = Attempt::start(RETRIES, SLEEP_UNIT);
        self.attempt = attempt;
        if self.current >= self.peers.len() {
            SyncMove::Finished { unavailable: clone_texts(&self.unavailable) }
        } else {
            SyncMove::Shake { peer: self.peers[self.current].clone(), delay: 0 }
        }
    }
}

/// The pass after the handshakes ended as `outcomes` says, one after the
/// other.
pub open spec fn pass_after_all(p: SyncPassView, outcomes: Seq<bool>) -> SyncPassView
    decreases outcomes.len(),
{
    if outcomes.len() == 0 {
        p
    } else {
        pass_after_all(pass_after(p, outcomes[0]), outcomes.skip(1))
    }
}

proof fn lemma_failed_handshakes(p: SyncPassView, outcomes: Seq<bool>, n: int)
    requires
        0 <= p.current < p.peers.len(),
        !p.attempt.over,
        1 <= p.attempt.made,
        0 <= n <= outcomes.len(),
        p.attempt.made + n <= p.attempt.retries,
        forall|i: int| 0 <= i < n ==> !outcomes[i],
    ensures
        pass_after_all(p, outcomes) == pass_after_all(
            SyncPassView { attempt: Attempt { made: (p.attempt.made + n) as u32, ..p.attempt }, ..p },
            outcomes.skip(n),
        ),
    decreases n,
{
    if n == 0 {
        assert(outcomes.skip(0) =~= outcomes);
    } else {
        let q = pass_after(p, false);
        lemma_failed_handshakes(q, outcomes.skip(1), n - 1);
        assert(outcomes.skip(1).skip(n - 1) =~= outcomes.skip(n));
    }
}

/// A peer that cannot be reached in any of its tries is noted as unavailable
/// when the last of them has failed, not before, and the pass goes on to the
/// next peer. The configured peers stay as they are.
pub proof fn lemma_unreachable_peer_is_noted(p: SyncPassView, outcomes: Seq<bool>)
    requires
        0 <= p.current < p.peers.len(),
        p.attempt == started(RETRIES, SLEEP_UNIT),
        outcomes.len() == RETRIES,
        forall|i: int| 0 <= i < outcomes.len() ==> !outcomes[i],
    ensures
        pass_after_all(p, outcomes) == (SyncPassView {
            current: p.current + 1,
            unavailable: p.unavailable.push(p.peers[p.current]),
            ..p
        }),
        forall|n: int|
            0 <= n < RETRIES ==> #[trigger] pass_after_all(p, outcomes.take(n)).unavailable
                == p.unavailable,
{
    lemma_failed_handshakes(p, outcomes, RETRIES - 1);
    let last = outcomes.skip(RETRIES - 1);
    let q = SyncPassView { attempt: Attempt { made: RETRIES, ..p.attempt }, ..p };
    assert(pass_after_all(q, last) == pass_after_all(pass_after(q, false), last.skip(1)));
    assert forall|n: int| 0 <= n < RETRIES implies #[trigger] pass_after_all(
        p,
        outcomes.take(n),
    ).unavailable == p.unavailable by {
        let firsts = outcomes.take(n);
        lemma_failed_handshakes(p, firsts, n);
    }
}

/// A peer that is reached on one of its tries is not noted, and the pass
/// goes on to the next peer.
pub proof fn lemma_reached_peer_is_not_noted(p: SyncPassView, outcomes: Seq<bool>)
    requires
        0 <= p.current < p.peers.len(),
        p.attempt == started(RETRIES, SLEEP_UNIT),
        1 <= outcomes.len() <= RETRIES,
        forall|i: int| 0 <= i < outcomes.len() - 1 ==> !outcomes[i],
        outcomes[outcomes.len() - 1],
    ensures
        pass_after_all(p, outcomes) == (SyncPassView { current: p.current + 1, ..p }),
{
    let k = outcomes.len() as int;
    lemma_failed_handshakes(p, outcomes, k - 1);
    let last = outcomes.skip(k - 1);
    let q = SyncPassView { attempt: Attempt { made: k as u32, ..p.attempt }, ..p };
    assert(pass_after_all(q, last) == pass_after_all(pass_after(q, true), last.skip(1)));
}

/// While tries are left, a peer that could not be reached is offered the
/// handshake again, and before the try numbered `n`, counted from 0, the
/// daemon waits `n` units.
pub proof fn lemma_handshake_waits(p: SyncPassView, outcomes: Seq<bool>)
    requires
        0 <= p.current < p.peers.len(),
        p.attempt == started(RETRIES, SLEEP_UNIT),
        outcomes.len() + 1 < RETRIES,
        forall|i: int| 0 <= i < outcomes.len() ==> !outcomes[i],
    ensures
        sync_move_after(pass_after_all(p, outcomes), false) == (SyncMoveView::Shake {
            peer: p.peers[p.current],
            delay: wait(outcomes.len() as int + 1, SLEEP_UNIT),
        }),
{
    lemma_failed_handshakes(p, outcomes, outcomes.len() as int);
    assert(outcomes.skip(outcomes.len() as int).len() == 0);
}

} // verus!
