use crate::pooling::{Pool, PoolView};
use crate::settings::Settings;
use crate::sync::{begun, clone_texts, first_sync_move, text_views, SyncMove, SyncPass};
use vstd::prelude::*;

verus! {

/// Number of workers of a node that is started without one.
pub const DEFAULT_THREADS: usize = 15;

/// One node of the network.
#[derive(Debug)]
pub struct Node {
    /// The settings of the node. They are read by every part of it and
    /// changed by none.
    pub settings: Settings,
}

/// What a started node consists of. The host binds a listener to the node's
/// address, runs the sync daemon on a thread of its own, from its first move
/// on, and submits one job to the pool for every connection that it accepts.
pub struct Launch<J> {
    pub node: Node,
    /// The queue of the worker pool, open and empty.
    pub pool: Pool<J>,
    /// The first pass of the sync daemon over the node's peers.
    pub sync: SyncPass,
    /// The first move of that pass.
    pub first: SyncMove,
}

/// Number of workers of a node started with `threads`.
pub open spec fn workers(threads: Option<usize>) -> nat {
    match threads {
        Some(n) => n as nat,
        None => DEFAULT_THREADS as nat,
    }
}

impl Node {
    /// Creates a node from its settings.
    pub fn new(settings: Settings) -> (node: Node)
        ensures
            node.settings == settings,
    {
        Node { settings }
    }

    /// Starts the node: a pool of `threads` workers, or of 15 where none is
    /// given, and a sync daemon that is about to make its first pass over the
    /// configured peers.
    pub fn start<J>(self, threads: Option<usize>) -> (launch: Launch<J>)
        requires
            threads != Some(0usize),
        ensures
            launch.node == self,
            launch.pool.wf(),
            launch.pool@ == (PoolView::<J> {
                size: workers(threads),
                open: true,
                queued: Seq::empty(),
                active: 0,
                submitted: Seq::empty(),
                claimed: Seq::empty(),
            }),
            launch.sync@ == begun(text_views(self.settings.nodes@)),
            launch.first@ == first_sync_move(text_views(self.settings.nodes@)),
    {
        let size = match threads {
            Some(n) => n,
            None => DEFAULT_THREADS,
        };
        let pool = Pool::new(size);
        let (sync, first) = SyncPass::begin(clone_texts(&self.settings.nodes));
        Launch { node: self, pool, sync, first }
    }
}

} // verus!
