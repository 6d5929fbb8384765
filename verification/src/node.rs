//! The connection listener's core: the endpoint it listens on and the pool
//! that runs one job for each connection it accepts.
use crate::endpoint::{endpoint, endpoint_text};
use crate::job_queue::QueueClosed;
use crate::model::PoolView;
use crate::pool::ThreadPool;
use vstd::prelude::*;

verus! {

/// A node as a mathematical value.
pub struct NodeView<J> {
    /// The text of the endpoint, as `address:port`.
    pub endpoint: Seq<char>,
    /// The node's pool.
    pub pool: PoolView<J>,
}

/// A listening node: one endpoint and one worker pool.
///
/// The node decides where to listen and what becomes of a job; binding the
/// endpoint and accepting connections are the caller's part.
pub struct Node<J> {
    endpoint: String,
    pool: ThreadPool<J>,
}

impl<J> View for Node<J> {
    type V = NodeView<J>;

    closed spec fn view(&self) -> NodeView<J> {
        NodeView { endpoint: self.endpoint@, pool: self.pool@ }
    }
}

impl<J> Node<J> {
    /// The node's invariant: that of its pool.
    pub closed spec fn wf(&self) -> bool {
        self.pool.wf()
    }

    /// A node for the endpoint `ip:port` with a new pool of `pool_size`
    /// workers.
    pub fn new(ip: &str, port: u32, pool_size: usize) -> (node: Self)
        requires
            pool_size > 0,
        ensures
            node.wf(),
            node@.endpoint == endpoint_text(ip@, port),
            node@.pool == PoolView::<J>::fresh(pool_size as nat),
    {
        let pool = ThreadPool::new(pool_size);
        Node { endpoint: endpoint(ip, port), pool }
    }

    /// The endpoint to bind, as `address:port`.
    pub fn endpoint(&self) -> (text: &str)
        ensures
            text@ == self@.endpoint,
    {
        self.endpoint.as_str()
    }

    /// Hands `job` to the node's pool, which accepts or refuses it as
    /// `ThreadPool::execute` does.
    pub fn execute(&mut self, job: J) -> (r: Result<(), QueueClosed<J>>)
        requires
            old(self).wf(),
        ensures
            final(self).wf(),
            final(self)@.endpoint == old(self)@.endpoint,
            final(self)@.pool == old(self)@.pool.submit(job),
            old(self)@.pool.accepting() ==> r == Ok::<(), QueueClosed<J>>(()),
            !old(self)@.pool.accepting() ==> r == Err::<(), QueueClosed<J>>(QueueClosed(job)),
    {
        self.pool.execute(job)
    }

    /// The node's pool, to observe.
    pub fn pool(&self) -> (pool: &ThreadPool<J>)
        requires
            self.wf(),
        ensures
            pool.wf(),
            pool@ == self@.pool,
    {
        &self.pool
    }

    /// The node's pool, for its workers to poll and report to. The node
    /// keeps its endpoint and has whatever the pool has become.
    pub fn pool_mut(&mut self) -> (pool: &mut ThreadPool<J>)
        requires
            old(self).wf(),
        ensures
            pool.wf(),
            pool@ == old(self)@.pool,
            final(self)@.endpoint == old(self)@.endpoint,
            final(self)@.pool == final(pool)@,
            final(pool).wf() ==> final(self).wf(),
    {
        &mut self.pool
    }
}

} // verus!
