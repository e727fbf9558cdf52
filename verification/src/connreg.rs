//! Connection registry: one entry per live session, each with a bounded
//! outbound queue of encoded frames. Enqueueing never blocks: a full queue
//! drops the new message and nothing else. Also the drop-oldest fan-out
//! queue used where one producer serves several subscribers.
use vstd::prelude::*;
use crate::registry::str_eq;

verus! {

/// Mathematical model of a bounded outbound queue.
pub struct QueueModel {
    pub items: Seq<Seq<u8>>,
    pub cap: nat,
}

/// Bounded FIFO of encoded frames between a session's producers and its
/// socket writer. Enqueue on a full queue drops the new frame.
pub struct OutboundQueue {
    items: Vec<Vec<u8>>,
    cap: usize,
}

impl View for OutboundQueue {
    type V = QueueModel;

    closed spec fn view(&self) -> QueueModel {
        QueueModel { items: self.items@.map_values(|v: Vec<u8>| v@), cap: self.cap as nat }
    }
}

impl OutboundQueue {
    /// The queue never holds more than its capacity.
    pub open spec fn wf(&self) -> bool {
        self@.items.len() <= self@.cap
    }

    /// An empty queue with the given capacity.
    pub fn new(cap: usize) -> (r: OutboundQueue)
        ensures
            r@.items.len() == 0,
            r@.cap == cap,
            r.wf(),
    {
        OutboundQueue { items: Vec::new(), cap }
    }

    /// How many frames wait in the queue.
    pub fn len(&self) -> (r: usize)
        ensures
            r == self@.items.len(),
    {
        self.items.len()
    }

    /// Appends a frame if there is room; a full queue drops the new frame
    /// and is left unchanged. Never blocks and never fails the session.
    pub fn try_enqueue(&mut self, msg: &Vec<u8>) -> (r: bool)
        requires
            old(self).wf(),
        ensures
            final(self).wf(),
            final(self)@.cap == old(self)@.cap,
            r == (old(self)@.items.len() < old(self)@.cap),
            r ==> final(self)@.items == old(self)@.items.push(msg@),
            !r ==> final(self)@.items == old(self)@.items,
    {
        if self.items.len() < self.cap {
            self.items.push(msg.clone());
            proof {
                assert(final(self)@.items =~= old(self)@.items.push(msg@));
            }
            true
        } else {
            false
        }
    }

    /// Takes the oldest frame, if any: the writer's side of the queue.
    pub fn pop_front(&mut self) -> (r: Option<Vec<u8>>)
        requires
            old(self).wf(),
        ensures
            final(self).wf(),
            final(self)@.cap == old(self)@.cap,
            old(self)@.items.len() == 0 ==> r is None && final(self)@.items == old(self)@.items,
            old(self)@.items.len() > 0 ==> (r matches Some(v) && v@ == old(self)@.items[0]
                && final(self)@.items == old(self)@.items.drop_first()),
    {
        if self.items.len() == 0 {
            None
        } else {
            let v = self.items.remove(0);
            proof {
                assert(final(self)@.items =~= old(self)@.items.drop_first());
            }
            Some(v)
        }
    }
}

/// Fan-out queue of the broadcast hub: when a subscriber's queue fills, the
/// oldest queued message is dropped so the producer never blocks.
pub struct DropOldestQueue {
    items: Vec<Vec<u8>>,
    cap: usize,
}

impl View for DropOldestQueue {
    type V = QueueModel;

    closed spec fn view(&self) -> QueueModel {
        QueueModel { items: self.items@.map_values(|v: Vec<u8>| v@), cap: self.cap as nat }
    }
}

impl DropOldestQueue {
    /// The queue never holds more than its capacity.
    pub open spec fn wf(&self) -> bool {
        self@.items.len() <= self@.cap
    }

    /// An empty queue with the given capacity.
    pub fn new(cap: usize) -> (r: DropOldestQueue)
        requires
            cap >= 1,
        ensures
            r@.items.len() == 0,
            r@.cap == cap,
            r.wf(),
    {
        DropOldestQueue { items: Vec::new(), cap }
    }

    /// How many messages wait in the queue.
    pub fn len(&self) -> (r: usize)
        ensures
            r == self@.items.len(),
    {
        self.items.len()
    }

    /// Appends a message; a full queue first drops its oldest message. The
    /// writer never blocks and the new message is always kept.
    pub fn push(&mut self, msg: &Vec<u8>)
        requires
            old(self).wf(),
            old(self)@.cap >= 1,
        ensures
            final(self).wf(),
            final(self)@.cap == old(self)@.cap,
            old(self)@.items.len() < old(self)@.cap ==> final(self)@.items == old(
                self,
            )@.items.push(msg@),
            old(self)@.items.len() == old(self)@.cap ==> final(self)@.items == old(
                self,
            )@.items.drop_first().push(msg@),
    {
        if self.items.len() == self.cap {
            self.items.remove(0);
            self.items.push(msg.clone());
            proof {
                assert(final(self)@.items =~= old(self)@.items.drop_first().push(msg@));
            }
        } else {
            self.items.push(msg.clone());
            proof {
                assert(final(self)@.items =~= old(self)@.items.push(msg@));
            }
        }
    }

    /// Takes the oldest message, if any.
    pub fn pop_front(&mut self) -> (r: Option<Vec<u8>>)
        requires
            old(self).wf(),
        ensures
            final(self).wf(),
            final(self)@.cap == old(self)@.cap,
            old(self)@.items.len() == 0 ==> r is None && final(self)@.items == old(self)@.items,
            old(self)@.items.len() > 0 ==> (r matches Some(v) && v@ == old(self)@.items[0]
                && final(self)@.items == old(self)@.items.drop_first()),
    {
        if self.items.len() == 0 {
            None
        } else {
            let v = self.items.remove(0);
            proof {
                assert(final(self)@.items =~= old(self)@.items.drop_first());
            }
            Some(v)
        }
    }
}

/// Mathematical model of one registered connection.
pub struct ConnModel {
    pub conn_id: Seq<char>,
    pub ip: Seq<char>,
    pub queue: QueueModel,
    pub is_dashboard: bool,
}

/// One registered connection: its id (`ip:port`), normalised peer IP,
/// outbound queue, and whether it has self-identified as a dashboard.
pub struct ConnEntry {
    pub conn_id: String,
    pub ip: String,
    pub queue: OutboundQueue,
    pub is_dashboard: bool,
}

impl View for ConnEntry {
    type V = ConnModel;

    open spec fn view(&self) -> ConnModel {
        ConnModel {
            conn_id: self.conn_id@,
            ip: self.ip@,
            queue: self.queue@,
            is_dashboard: self.is_dashboard,
        }
    }
}

/// Whether a registry key addresses this connection: its exact id, or its
/// bare IP.
pub open spec fn key_matches(c: ConnModel, key: Seq<char>) -> bool {
    c.conn_id == key || c.ip == key
}

/// Process-wide registry of live connections. Supports unicast by
/// connection id or bare IP and fan-out to dashboards; no operation blocks
/// on a slow writer.
pub struct ConnectionRegistry {
    conns: Vec<ConnEntry>,
}

impl View for ConnectionRegistry {
    type V = Seq<ConnModel>;

    closed spec fn view(&self) -> Seq<ConnModel> {
        self.conns@.map_values(|c: ConnEntry| c@)
    }
}

/// Connection ids are unique in `s`.
pub open spec fn conn_ids_unique(s: Seq<ConnModel>) -> bool {
    forall|i: int, j: int|
        0 <= i < s.len() && 0 <= j < s.len() && i != j ==> s[i].conn_id != s[j].conn_id
}

/// Every queue in `s` respects its bound.
pub open spec fn conn_queues_bounded(s: Seq<ConnModel>) -> bool {
    forall|i: int| 0 <= i < s.len() ==> (#[trigger] s[i].queue).items.len() <= s[i].queue.cap
}

impl ConnectionRegistry {
    /// Connection ids are unique and every queue respects its bound.
    pub open spec fn wf(&self) -> bool {
        conn_ids_unique(self@) && conn_queues_bounded(self@)
    }

    /// An empty registry.
    pub fn new() -> (r: ConnectionRegistry)
        ensures
            r@.len() == 0,
            r.wf(),
    {
        ConnectionRegistry { conns: Vec::new() }
    }

    /// How many sessions are registered.
    pub fn len(&self) -> (r: usize)
        ensures
            r == self@.len(),
    {
        self.conns.len()
    }

    /// The index of the connection with this id, if registered.
    pub fn find(&self, conn_id: &str) -> (r: Option<usize>)
        ensures
            r matches Some(i) ==> i < self@.len() && self@[i as int].conn_id == conn_id@,
            r is None ==> forall|k: int| 0 <= k < self@.len() ==> self@[k].conn_id != conn_id@,
    {
        let mut i: usize = 0;
        while i < self.conns.len()
            invariant
                i <= self@.len(),
                forall|k: int| 0 <= k < i ==> self@[k].conn_id != conn_id@,
            decreases self@.len() - i,
        {
            if str_eq(self.conns[i].conn_id.as_str(), conn_id) {
                return Some(i);
            }
            i = i + 1;
        }
        None
    }

    /// Registers a new session with an empty queue of the given capacity.
    /// A session with the same id must not be registered.
    pub fn add(&mut self, conn_id: String, ip: String, cap: usize)
        requires
            old(self).wf(),
            forall|k: int| 0 <= k < old(self)@.len() ==> old(self)@[k].conn_id != conn_id@,
        ensures
            final(self).wf(),
            final(self)@.len() == old(self)@.len() + 1,
            final(self)@.last().conn_id == conn_id@,
            final(self)@.last().ip == ip@,
            final(self)@.last().queue.items.len() == 0,
            final(self)@.last().queue.cap == cap,
            final(self)@.last().is_dashboard == false,
            forall|k: int| 0 <= k < old(self)@.len() ==> final(self)@[k] == old(self)@[k],
    {
        let ghost cid = conn_id@;
        self.conns.push(
            ConnEntry { conn_id, ip, queue: OutboundQueue::new(cap), is_dashboard: false },
        );
        proof {
            assert(self@ =~= old(self)@.push(self@.last()));
            assert forall|i: int, j: int|
                0 <= i < self@.len() && 0 <= j < self@.len() && i != j implies self@[i].conn_id
                != self@[j].conn_id by {
                if i < old(self)@.len() && j < old(self)@.len() {
                    assert(old(self)@[i].conn_id != old(self)@[j].conn_id);
                } else if i < old(self)@.len() {
                    assert(old(self)@[i].conn_id != cid);
                } else {
                    assert(old(self)@[j].conn_id != cid);
                }
            }
        }
    }

    /// Unregisters the session with this id, if registered.
    pub fn remove(&mut self, conn_id: &str)
        requires
            old(self).wf(),
        ensures
            final(self).wf(),
            forall|k: int| 0 <= k < final(self)@.len() ==> final(self)@[k].conn_id != conn_id@,
            (exists|i: int| 0 <= i < old(self)@.len() && old(self)@[i].conn_id == conn_id@)
                ==> exists|i: int|
                0 <= i < old(self)@.len() && old(self)@[i].conn_id == conn_id@ && final(self)@
                    == old(self)@.remove(i),
            !(exists|i: int| 0 <= i < old(self)@.len() && old(self)@[i].conn_id == conn_id@)
                ==> final(self)@ == old(self)@,
    {
        let idx = self.find(conn_id);
        match idx {
            Some(i) => {
                self.conns.remove(i);
                proof {
                    assert(self@ =~= old(self)@.remove(i as int));
                    assert forall|k: int| 0 <= k < self@.len() implies self@[k].conn_id
                        != conn_id@ by {
                        if k < i {
                            assert(self@[k] == old(self)@[k]);
                        } else {
                            assert(self@[k] == old(self)@[k + 1]);
                        }
                    }
                    assert forall|k: int| 0 <= k < self@.len() implies (
                    #[trigger] self@[k].queue).items.len() <= self@[k].queue.cap by {
                        if k < i {
                            assert(self@[k] == old(self)@[k]);
                        } else {
                            assert(self@[k] == old(self)@[k + 1]);
                        }
                    }
                    assert forall|k: int, j: int|
                        0 <= k < self@.len() && 0 <= j < self@.len() && k != j implies self@[
                        k].conn_id != self@[j].conn_id by {
                        let k0 = if k < i { k } else { k + 1 };
                        let j0 = if j < i { j } else { j + 1 };
                        assert(self@[k] == old(self)@[k0]);
                        assert(self@[j] == old(self)@[j0]);
                    }
                }
            },
            None => {
                proof {
                    assert(self@ =~= old(self)@);
                }
            },
        }
    }

    /// Latches the dashboard flag of this connection. Everything else about
    /// every connection is kept.
    pub fn mark_dashboard(&mut self, conn_id: &str)
        requires
            old(self).wf(),
        ensures
            final(self).wf(),
            final(self)@.len() == old(self)@.len(),
            forall|k: int|
                0 <= k < final(self)@.len() ==> {
                    let c = old(self)@[k];
                    let n = #[trigger] final(self)@[k];
                    n.conn_id == c.conn_id && n.ip == c.ip && n.queue == c.queue && n.is_dashboard
                        == (c.is_dashboard || c.conn_id == conn_id@)
                },
    {
        let idx = self.find(conn_id);
        match idx {
            Some(i) => {
                let entry = &mut self.conns[i];
                entry.is_dashboard = true;
                proof {
                    assert(self@ =~= old(self)@.update(i as int, self@[i as int]));
                    assert forall|k: int| 0 <= k < self@.len() implies {
                        let c = old(self)@[k];
                        let n = #[trigger] self@[k];
                        n.conn_id == c.conn_id && n.ip == c.ip && n.queue == c.queue
                            && n.is_dashboard == (c.is_dashboard || c.conn_id == conn_id@)
                    } by {
                        if k != i {
                            assert(self@[k] == old(self)@[k]);
                            assert(old(self)@[k].conn_id != conn_id@);
                        }
                    }
                }
            },
            None => {
            },
        }
    }

    /// Best-effort unicast: appends the frame to the queue of every
    /// connection whose id or bare IP equals `key` and which has room; a
    /// full queue drops this frame only. Nothing blocks.
    pub fn send_to(&mut self, key: &str, msg: &Vec<u8>)
        requires
            old(self).wf(),
        ensures
            final(self).wf(),
            final(self)@.len() == old(self)@.len(),
            forall|k: int|
                0 <= k < final(self)@.len() ==> {
                    let c = old(self)@[k];
                    let n = #[trigger] final(self)@[k];
                    n.conn_id == c.conn_id && n.ip == c.ip && n.is_dashboard == c.is_dashboard
                        && n.queue.cap == c.queue.cap && (if key_matches(c, key@)
                        && c.queue.items.len() < c.queue.cap {
                        n.queue.items == c.queue.items.push(msg@)
                    } else {
                        n.queue.items == c.queue.items
                    })
                },
    {
        let mut i: usize = 0;
        while i < self.conns.len()
            invariant
                i <= self@.len(),
                self@.len() == old(self)@.len(),
                old(self).wf(),
                forall|k: int|
                    0 <= k < i ==> {
                        let c = old(self)@[k];
                        let n = #[trigger] self@[k];
                        n.conn_id == c.conn_id && n.ip == c.ip && n.is_dashboard == c.is_dashboard
                            && n.queue.cap == c.queue.cap && (if key_matches(c, key@)
                            && c.queue.items.len() < c.queue.cap {
                            n.queue.items == c.queue.items.push(msg@)
                        } else {
                            n.queue.items == c.queue.items
                        })
                    },
                forall|k: int| i <= k < self@.len() ==> #[trigger] self@[k] == old(self)@[k],
            decreases self@.len() - i,
        {
            let ghost pre = self@;
            assert(pre[i as int] == old(self)@[i as int]);
            assert(old(self)@[i as int].queue.items.len() <= old(self)@[i as int].queue.cap);
            let matches_key = str_eq(self.conns[i].conn_id.as_str(), key) || str_eq(
                self.conns[i].ip.as_str(),
                key,
            );
            if matches_key {
                let entry = &mut self.conns[i];
                let _ = entry.queue.try_enqueue(msg);
                proof {
                    assert(self@ =~= pre.update(i as int, self@[i as int]));
                }
            }
            i = i + 1;
        }
        proof {
            assert forall|k: int, j: int|
                0 <= k < self@.len() && 0 <= j < self@.len() && k != j implies self@[k].conn_id
                != self@[j].conn_id by {
                assert(self@[k].conn_id == old(self)@[k].conn_id);
                assert(self@[j].conn_id == old(self)@[j].conn_id);
            }
            assert forall|k: int| 0 <= k < self@.len() implies (
            #[trigger] self@[k].queue).items.len() <= self@[k].queue.cap by {
                assert(old(self)@[k].queue.items.len() <= old(self)@[k].queue.cap);
            }
        }
    }

    /// Fan-out to operator dashboards: appends the frame to the queue of
    /// every connection that has registered as a dashboard and has room; a
    /// full queue drops this frame only. Non-dashboards receive nothing.
    pub fn broadcast_dashboard(&mut self, msg: &Vec<u8>)
        requires
            old(self).wf(),
        ensures
            final(self).wf(),
            final(self)@.len() == old(self)@.len(),
            forall|k: int|
                0 <= k < final(self)@.len() ==> {
                    let c = old(self)@[k];
                    let n = #[trigger] final(self)@[k];
                    n.conn_id == c.conn_id && n.ip == c.ip && n.is_dashboard == c.is_dashboard
                        && n.queue.cap == c.queue.cap && (if c.is_dashboard && c.queue.items.len()
                        < c.queue.cap {
                        n.queue.items == c.queue.items.push(msg@)
                    } else {
                        n.queue.items == c.queue.items
                    })
                },
    {
        let mut i: usize = 0;
        while i < self.conns.len()
            invariant
                i <= self@.len(),
                self@.len() == old(self)@.len(),
                old(self).wf(),
                forall|k: int|
                    0 <= k < i ==> {
                        let c = old(self)@[k];
                        let n = #[trigger] self@[k];
                        n.conn_id == c.conn_id && n.ip == c.ip && n.is_dashboard == c.is_dashboard
                            && n.queue.cap == c.queue.cap && (if c.is_dashboard
                            && c.queue.items.len() < c.queue.cap {
                            n.queue.items == c.queue.items.push(msg@)
                        } else {
                            n.queue.items == c.queue.items
                        })
                    },
                forall|k: int| i <= k < self@.len() ==> #[trigger] self@[k] == old(self)@[k],
            decreases self@.len() - i,
        {
            let ghost pre = self@;
            assert(pre[i as int] == old(self)@[i as int]);
            assert(old(self)@[i as int].queue.items.len() <= old(self)@[i as int].queue.cap);
            if self.conns[i].is_dashboard {
                let entry = &mut self.conns[i];
                let _ = entry.queue.try_enqueue(msg);
                proof {
                    assert(self@ =~= pre.update(i as int, self@[i as int]));
                }
            }
            i = i + 1;
        }
        proof {
            assert forall|k: int, j: int|
                0 <= k < self@.len() && 0 <= j < self@.len() && k != j implies self@[k].conn_id
                != self@[j].conn_id by {
                assert(self@[k].conn_id == old(self)@[k].conn_id);
                assert(self@[j].conn_id == old(self)@[j].conn_id);
            }
            assert forall|k: int| 0 <= k < self@.len() implies (
            #[trigger] self@[k].queue).items.len() <= self@[k].queue.cap by {
                assert(old(self)@[k].queue.items.len() <= old(self)@[k].queue.cap);
            }
        }
    }

    /// Takes the oldest outbound frame of this connection, if any: called by
    /// its socket writer.
    pub fn pop_outbound(&mut self, conn_id: &str) -> (r: Option<Vec<u8>>)
        requires
            old(self).wf(),
        ensures
            final(self).wf(),
            final(self)@.len() == old(self)@.len(),
            forall|k: int|
                0 <= k < final(self)@.len() && old(self)@[k].conn_id != conn_id@
                    ==> final(self)@[k] == old(self)@[k],
            forall|k: int|
                0 <= k < final(self)@.len() && old(self)@[k].conn_id == conn_id@ ==> {
                    let c = old(self)@[k];
                    let n = #[trigger] final(self)@[k];
                    n.conn_id == c.conn_id && n.ip == c.ip && n.is_dashboard == c.is_dashboard
                        && n.queue.cap == c.queue.cap && (if c.queue.items.len() > 0 {
                        r matches Some(v) && v@ == c.queue.items[0] && n.queue.items
                            == c.queue.items.drop_first()
                    } else {
                        r is None && n.queue.items == c.queue.items
                    })
                },
    {
        let idx = self.find(conn_id);
        match idx {
            Some(i) => {
                assert(self@[i as int].queue.items.len() <= self@[i as int].queue.cap);
                let entry = &mut self.conns[i];
                let r = entry.queue.pop_front();
                proof {
                    assert(self@ =~= old(self)@.update(i as int, self@[i as int]));
                    assert forall|k: int, j: int|
                        0 <= k < self@.len() && 0 <= j < self@.len() && k != j implies self@[
                        k].conn_id != self@[j].conn_id by {
                        assert(self@[k].conn_id == old(self)@[k].conn_id);
                        assert(self@[j].conn_id == old(self)@[j].conn_id);
                    }
                    assert forall|k: int| 0 <= k < self@.len() implies (
                    #[trigger] self@[k].queue).items.len() <= self@[k].queue.cap by {
                        assert(old(self)@[k].queue.items.len() <= old(self)@[k].queue.cap);
                    }
                }
                r
            },
            None => None,
        }
    }
}

} // verus!
