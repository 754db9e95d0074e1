//! The engine: a registry of monitors kept in listing order, each with its
//! control channel and its own subscriber list, and an engine-wide
//! subscriber list.
use vstd::prelude::*;
use crossbeam_channel::{Receiver, Sender};
use crate::channel::{open_channel, send_message, share_receiver};
use crate::models::{secrets_agree, secrets_match, Message, Monitor};
use crate::order::{id_lt, id_precedes, lemma_id_lt_total, lemma_id_lt_transitive};

verus! {

/// Identifies an event sink (a live observer connection) held by the caller.
pub type SinkId = u64;

/// The runtime wrapper of one registered monitor: its definition, its own
/// subscriber list and both ends of its worker's control channel.
pub struct Minion {
    pub monitor: Monitor,
    pub subscribers: Vec<SinkId>,
    pub channel: (Sender<Message>, Receiver<Message>),
}

/// The registry, kept in strictly ascending order of id (`wf`), and the
/// engine-wide subscriber list.
pub struct JanitorEngine {
    pub secret: String,
    pub minions: Vec<Minion>,
    pub subscribers: Vec<SinkId>,
}

/// Why a heartbeat is not accepted.
#[derive(Debug, Clone, Copy, PartialEq, Eq, Structural)]
pub enum EngineError {
    NotFound,
    Unauthorized,
    ChannelUnavailable,
}

/// Ids strictly ascend along the sequence.
pub open spec fn ids_sorted(ms: Seq<Monitor>) -> bool {
    forall|i: int, j: int| 0 <= i < j < ms.len() ==> id_lt(#[trigger] ms[i].id@, #[trigger] ms[j].id@)
}

/// Some monitor of the sequence has this id.
pub open spec fn holds_id(ms: Seq<Monitor>, id: Seq<char>) -> bool {
    exists|i: int| 0 <= i < ms.len() && ms[i].id@ == id
}

/// Clamps `x` into `[0, n]`.
pub open spec fn clamp(x: int, n: int) -> int {
    if x < 0 {
        0
    } else if x > n {
        n
    } else {
        x
    }
}

/// The part of `ms` that page `page` of `size` items shows: the range
/// `[(page - 1) * size, (page - 1) * size + size)` cut to the sequence.
pub open spec fn page_of(ms: Seq<Monitor>, page: int, size: int) -> Seq<Monitor> {
    let start = (page - 1) * size;
    ms.subrange(clamp(start, ms.len() as int), clamp(start + size, ms.len() as int))
}

pub proof fn lemma_sorted_unique(ms: Seq<Monitor>, i: int, j: int)
    requires
        ids_sorted(ms),
        0 <= i < ms.len(),
        0 <= j < ms.len(),
        ms[i].id@ == ms[j].id@,
    ensures
        i == j,
{
    if i < j {
        lemma_id_lt_total(ms[i].id@, ms[j].id@);
    } else if j < i {
        lemma_id_lt_total(ms[j].id@, ms[i].id@);
    }
}

/// What `upsert(id, monitor)` does: `r` is whether the id was new; a new
/// monitor is inserted in listing order with an empty subscriber list, an
/// existing one has its definition replaced and keeps its subscribers.
pub open spec fn upsert_post(pre: JanitorEngine, post: JanitorEngine, id: Seq<char>, monitor: Monitor, r: bool) -> bool {
    &&& post.wf()
    &&& r == !pre.has(id)
    &&& post.has(id)
    &&& post.secret == pre.secret
    &&& post.subscribers == pre.subscribers
    &&& r ==> exists|k: int|
        0 <= k <= pre.monitors().len()
        && post.monitors() == pre.monitors().insert(k, monitor)
        && post.locals() == pre.locals().insert(k, Seq::<SinkId>::empty())
    &&& !r ==> post.monitors() == pre.monitors().update(pre.position(id), monitor)
        && post.locals() == pre.locals()
}

/// What `delete(id)` does: `r` is whether the id was registered, and then
/// its monitor is gone; otherwise nothing changes.
pub open spec fn delete_post(pre: JanitorEngine, post: JanitorEngine, id: Seq<char>, r: bool) -> bool {
    &&& post.wf()
    &&& r == pre.has(id)
    &&& !post.has(id)
    &&& post.secret == pre.secret
    &&& post.subscribers == pre.subscribers
    &&& r ==> post.monitors() == pre.monitors().remove(pre.position(id))
        && post.locals() == pre.locals().remove(pre.position(id))
    &&& !r ==> post.monitors() == pre.monitors() && post.locals() == pre.locals()
}

/// What `subscribe(id, sink)` does: `r` is whether the id is registered,
/// and then `sink` is appended to that monitor's list; otherwise nothing
/// changes.
pub open spec fn subscribe_post(pre: JanitorEngine, post: JanitorEngine, id: Seq<char>, sink: SinkId, r: bool) -> bool {
    &&& post.wf()
    &&& r == pre.has(id)
    &&& post.monitors() == pre.monitors()
    &&& post.secret == pre.secret
    &&& post.subscribers == pre.subscribers
    &&& r ==> post.locals() == pre.locals().update(pre.position(id), pre.locals()[pre.position(id)].push(sink))
    &&& !r ==> post.locals() == pre.locals()
}

/// What `subscribe_all(sink)` does: `sink` is appended to the engine-wide
/// list, and nothing else changes.
pub open spec fn subscribe_all_post(pre: JanitorEngine, post: JanitorEngine, sink: SinkId) -> bool {
    &&& post.globals() == pre.globals().push(sink)
    &&& post.minions == pre.minions
    &&& post.secret == pre.secret
}

impl JanitorEngine {
    /// The registered definitions, in listing order.
    pub open spec fn monitors(&self) -> Seq<Monitor> {
        self.minions@.map_values(|m: Minion| m.monitor)
    }

    /// Each monitor's own subscriber list, in the same order.
    pub open spec fn locals(&self) -> Seq<Seq<SinkId>> {
        self.minions@.map_values(|m: Minion| m.subscribers@)
    }

    /// The engine-wide subscriber list.
    pub open spec fn globals(&self) -> Seq<SinkId> {
        self.subscribers@
    }

    pub open spec fn wf(&self) -> bool {
        ids_sorted(self.monitors())
    }

    pub open spec fn has(&self, id: Seq<char>) -> bool {
        holds_id(self.monitors(), id)
    }

    /// Where the monitor with this id stands.
    pub open spec fn position(&self, id: Seq<char>) -> int {
        choose|i: int| 0 <= i < self.monitors().len() && self.monitors()[i].id@ == id
    }

    /// An engine with no monitors and no subscribers.
    pub fn new(secret: &str) -> (r: Self)
        ensures
            r.wf(),
            r.monitors().len() == 0,
            r.globals().len() == 0,
            r.secret@ == secret@,
    {
        JanitorEngine { secret: secret.to_owned(), minions: Vec::new(), subscribers: Vec::new() }
    }

    /// Where `id` stands, or would be inserted, in listing order, and
    /// whether it is registered.
    fn locate(&self, id: &String) -> (r: (usize, bool))
        requires
            self.wf(),
        ensures
            r.0 <= self.monitors().len(),
            r.1 == self.has(id@),
            r.1 ==> r.0 < self.monitors().len() && self.monitors()[r.0 as int].id@ == id@
                && self.position(id@) == r.0,
            !r.1 ==> forall|i: int| 0 <= i < r.0 ==> id_lt(#[trigger] self.monitors()[i].id@, id@),
            !r.1 ==> forall|i: int| r.0 <= i < self.monitors().len() ==> id_lt(id@, #[trigger] self.monitors()[i].id@),
    {
        let ghost ms = self.monitors();
        let n = self.minions.len();
        let mut k: usize = 0;
        while k < n
            invariant
                ms == self.monitors(),
                n == ms.len(),
                k <= n,
                self.wf(),
                forall|i: int| 0 <= i < k ==> id_lt(#[trigger] ms[i].id@, id@),
            decreases n - k,
        {
            let cur = &self.minions[k].monitor.id;
            assert(cur@ == ms[k as int].id@);
            if *cur == *id {
                proof {
                    assert(self.has(id@));
                    let p = self.position(id@);
                    lemma_sorted_unique(ms, p, k as int);
                }
                return (k, true);
            }
            if id_precedes(id, cur) {
                proof {
                    assert forall|i: int| k <= i < ms.len() implies id_lt(id@, #[trigger] ms[i].id@) by {
                        if i > k {
                            lemma_id_lt_transitive(id@, ms[k as int].id@, ms[i].id@);
                        }
                    }
                    assert(!self.has(id@)) by {
                        if self.has(id@) {
                            let p = self.position(id@);
                            lemma_id_lt_total(id@, id@);
                        }
                    }
                }
                return (k, false);
            }
            proof {
                lemma_id_lt_total(id@, ms[k as int].id@);
            }
            k = k + 1;
        }
        proof {
            assert(!self.has(id@)) by {
                if self.has(id@) {
                    let p = self.position(id@);
                    lemma_id_lt_total(id@, id@);
                }
            }
        }
        (k, false)
    }

    /// Whether a monitor with this id is registered.
    pub fn contains(&self, id: String) -> (r: bool)
        requires
            self.wf(),
        ensures
            r == self.has(id@),
    {
        self.locate(&id).1
    }

    /// Registers `monitor` under `id`, or replaces the definition already
    /// registered there; `true` when the id was new. A new monitor starts
    /// with an empty subscriber list and a fresh control channel; a replaced
    /// one keeps both.
    pub fn upsert(&mut self, id: String, monitor: Monitor) -> (r: bool)
        requires
            old(self).wf(),
            id@ == monitor.id@,
        ensures
            upsert_post(*old(self), *final(self), id@, monitor, r),
    {
        let ghost ms = self.monitors();
        let ghost ls = self.locals();
        let (k, found) = self.locate(&id);
        if found {
            let prev = self.minions.remove(k);
            let m = Minion { monitor, subscribers: prev.subscribers, channel: prev.channel };
            self.minions.insert(k, m);
            proof {
                assert(self.monitors() =~= ms.update(k as int, monitor));
                assert(self.locals() =~= ls);
                assert(self.monitors()[k as int].id@ == id@);
            }
            false
        } else {
            let m = Minion { monitor, subscribers: Vec::new(), channel: open_channel() };
            self.minions.insert(k, m);
            proof {
                let nm = ms.insert(k as int, monitor);
                assert(self.monitors() =~= nm);
                assert(self.locals() =~= ls.insert(k as int, Seq::<SinkId>::empty()));
                assert forall|i: int, j: int| 0 <= i < j < nm.len() implies id_lt(#[trigger] nm[i].id@, #[trigger] nm[j].id@) by {
                    if j < k {
                    } else if i > k {
                        assert(nm[i] == ms[i - 1] && nm[j] == ms[j - 1]);
                    } else if i == k {
                        assert(nm[j] == ms[j - 1]);
                    } else if j == k {
                    } else {
                        assert(nm[j] == ms[j - 1]);
                    }
                }
                assert(nm[k as int].id@ == id@);
            }
            true
        }
    }

    /// Removes the monitor registered under `id`; `false` when there is none.
    pub fn delete(&mut self, id: String) -> (r: bool)
        requires
            old(self).wf(),
        ensures
            delete_post(*old(self), *final(self), id@, r),
    {
        let ghost ms = self.monitors();
        let ghost ls = self.locals();
        let (k, found) = self.locate(&id);
        if found {
            let _retired = self.minions.remove(k);
            proof {
                let nm = ms.remove(k as int);
                assert(self.monitors() =~= nm);
                assert(self.locals() =~= ls.remove(k as int));
                assert forall|i: int, j: int| 0 <= i < j < nm.len() implies id_lt(#[trigger] nm[i].id@, #[trigger] nm[j].id@) by {
                    if j < k {
                    } else if i >= k {
                        assert(nm[i] == ms[i + 1] && nm[j] == ms[j + 1]);
                    } else {
                        assert(nm[j] == ms[j + 1]);
                    }
                }
                if holds_id(nm, id@) {
                    let p = choose|p: int| 0 <= p < nm.len() && nm[p].id@ == id@;
                    if p < k {
                        lemma_sorted_unique(ms, p, k as int);
                    } else {
                        assert(nm[p] == ms[p + 1]);
                        lemma_sorted_unique(ms, p + 1, k as int);
                    }
                }
            }
            true
        } else {
            false
        }
    }

    /// The number of registered monitors, and those on page `page` (from 1)
    /// of `size` monitors each, in ascending order of id.
    pub fn list(&self, page: usize, size: usize) -> (r: (usize, Vec<Monitor>))
        requires
            self.wf(),
        ensures
            r.0 == self.monitors().len(),
            r.1@ == page_of(self.monitors(), page as int, size as int),
    {
        let ghost ms = self.monitors();
        let n = self.minions.len();
        let mut out: Vec<Monitor> = Vec::new();
        if page == 0 {
            assert(out@ =~= page_of(ms, page as int, size as int));
            return (n, out);
        }
        let start: usize = match (page - 1).checked_mul(size) {
            Some(s) => if s < n { s } else { n },
            None => n,
        };
        let end: usize = if size <= n - start { start + size } else { n };
        assert(start as int == clamp((page - 1) * size, n as int));
        assert(end as int == clamp((page - 1) * size + size, n as int)) by (nonlinear_arith)
            requires
                start as int == clamp((page - 1) * size, n as int),
                end as int == (if size <= n - start { start + size } else { n as int }),
                page >= 1,
                size >= 0,
                n >= 0,
        ;
        let mut i: usize = start;
        while i < end
            invariant
                ms == self.monitors(),
                n == ms.len(),
                start <= i <= end,
                end <= n,
                out@ == ms.subrange(start as int, i as int),
            decreases end - i,
        {
            let m = self.minions[i].monitor.snapshot();
            out.push(m);
            assert(out@ =~= ms.subrange(start as int, i + 1));
            i = i + 1;
        }
        (n, out)
    }

    /// Who receives the events of the monitor registered under `id`.
    pub open spec fn recipients_of(&self, id: Seq<char>) -> Seq<SinkId> {
        if self.has(id) {
            self.locals()[self.position(id)] + self.globals()
        } else {
            Seq::empty()
        }
    }

    /// The stored secret of the monitor registered under `id`.
    pub open spec fn stored_secret(&self, id: Seq<char>) -> Option<String> {
        self.monitors()[self.position(id)].secret
    }

    /// What a heartbeat for `id` with `secret` is owed before its message
    /// is sent.
    pub open spec fn heartbeat_check(&self, id: Seq<char>, secret: Option<String>) -> Result<(), EngineError> {
        if !self.has(id) {
            Err(EngineError::NotFound)
        } else if !secrets_agree(self.stored_secret(id), secret) {
            Err(EngineError::Unauthorized)
        } else {
            Ok(())
        }
    }

    /// Whether a heartbeat for `id` with `secret` may be passed to the
    /// monitor's worker: the id is registered and the secrets agree.
    pub fn check_heartbeat(&self, id: &String, secret: &Option<String>) -> (r: Result<(), EngineError>)
        requires
            self.wf(),
        ensures
            r == self.heartbeat_check(id@, *secret),
    {
        let (k, found) = self.locate(id);
        if !found {
            return Err(EngineError::NotFound);
        }
        if !secrets_match(&self.minions[k].monitor.secret, secret) {
            return Err(EngineError::Unauthorized);
        }
        Ok(())
    }

    /// Checks a heartbeat and, when it is accepted, sends a `Heartbeat`
    /// message to the monitor's worker. A failed send is
    /// `ChannelUnavailable`.
    pub fn deliver_heartbeat(&self, id: &String, secret: &Option<String>) -> (r: Result<(), EngineError>)
        requires
            self.wf(),
        ensures
            self.heartbeat_check(id@, *secret) is Err ==> r == self.heartbeat_check(id@, *secret),
            self.heartbeat_check(id@, *secret) is Ok ==> (r is Ok || r == Err::<(), EngineError>(EngineError::ChannelUnavailable)),
    {
        let (k, found) = self.locate(id);
        if !found {
            return Err(EngineError::NotFound);
        }
        if !secrets_match(&self.minions[k].monitor.secret, secret) {
            return Err(EngineError::Unauthorized);
        }
        let sent = send_message(&self.minions[k].channel.0, Message::Heartbeat);
        heartbeat_outcome(Ok(()), sent)
    }

    /// Whether a heartbeat for `id` with `secret` reached the monitor's
    /// worker: `false` for an unknown id, a secret that does not match, or
    /// a failed send.
    pub fn heartbeat(&self, id: String, secret: Option<String>) -> (r: bool)
        requires
            self.wf(),
        ensures
            r ==> self.heartbeat_check(id@, secret) is Ok,
    {
        self.deliver_heartbeat(&id, &secret).is_ok()
    }

    /// Adds `sink` to the subscriber list of the monitor registered under
    /// `id`; `false`, and nothing changes, when there is none.
    pub fn subscribe(&mut self, id: String, sink: SinkId) -> (r: bool)
        requires
            old(self).wf(),
        ensures
            subscribe_post(*old(self), *final(self), id@, sink, r),
    {
        let ghost ms = self.monitors();
        let ghost ls = self.locals();
        let (k, found) = self.locate(&id);
        if found {
            let mut m = self.minions.remove(k);
            m.subscribers.push(sink);
            self.minions.insert(k, m);
            proof {
                assert(self.monitors() =~= ms);
                assert(self.locals() =~= ls.update(k as int, ls[k as int].push(sink)));
            }
            true
        } else {
            false
        }
    }

    /// Adds `sink` to the engine-wide subscriber list.
    pub fn subscribe_all(&mut self, sink: SinkId)
        ensures
            subscribe_all_post(*old(self), *final(self), sink),
    {
        self.subscribers.push(sink);
    }

    /// Who receives an event of the monitor registered under `id`: its own
    /// subscribers, then the engine-wide ones; nobody once it is gone.
    pub fn recipients(&self, id: &String) -> (r: Vec<SinkId>)
        requires
            self.wf(),
        ensures
            r@ == self.recipients_of(id@),
    {
        let mut out: Vec<SinkId> = Vec::new();
        let (k, found) = self.locate(id);
        if !found {
            return out;
        }
        let local = &self.minions[k].subscribers;
        let ghost a = local@;
        let mut i: usize = 0;
        while i < local.len()
            invariant
                a == local@,
                i <= a.len(),
                out@ == a.subrange(0, i as int),
            decreases a.len() - i,
        {
            out.push(local[i]);
            assert(out@ =~= a.subrange(0, i + 1));
            i = i + 1;
        }
        let ghost g = self.subscribers@;
        let mut j: usize = 0;
        while j < self.subscribers.len()
            invariant
                g == self.subscribers@,
                j <= g.len(),
                out@ == a + g.subrange(0, j as int),
            decreases g.len() - j,
        {
            out.push(self.subscribers[j]);
            assert(out@ =~= a + g.subrange(0, j + 1));
            j = j + 1;
        }
        assert(a == self.locals()[k as int]);
        assert(g.subrange(0, g.len() as int) =~= g);
        out
    }

    /// A consumer end of the control channel of the monitor registered
    /// under `id`, for its worker.
    pub fn worker_channel(&self, id: &String) -> (r: Option<Receiver<Message>>)
        requires
            self.wf(),
        ensures
            r is Some == self.has(id@),
    {
        let (k, found) = self.locate(id);
        if found {
            Some(share_receiver(&self.minions[k].channel.1))
        } else {
            None
        }
    }

    /// Nothing is persisted, so there is nothing to resume.
    pub fn start(&mut self)
        ensures
            *final(self) == *old(self),
    {
    }

    /// Sends `Shutdown` to every monitor's worker without waiting for any;
    /// the registry is kept. Returns how many sends succeeded, as counted by
    /// `count_delivered` over one outcome per monitor.
    pub fn stop(&self) -> (r: usize)
        ensures
            exists|outcomes: Seq<bool>|
                outcomes.len() == self.monitors().len()
                && r == #[trigger] delivered_count(outcomes),
    {
        let mut outcomes: Vec<bool> = Vec::new();
        let mut i: usize = 0;
        while i < self.minions.len()
            invariant
                i <= self.minions@.len(),
                outcomes@.len() == i,
            decreases self.minions@.len() - i,
        {
            let sent = send_message(&self.minions[i].channel.0, Message::Shutdown);
            outcomes.push(sent);
            i = i + 1;
        }
        let r = count_delivered(&outcomes);
        assert(r == delivered_count(outcomes@));
        r
    }
}

/// The number of successful sends among `outcomes`.
pub open spec fn delivered_count(outcomes: Seq<bool>) -> nat {
    outcomes.filter(|b: bool| b).len()
}

/// How many of the sends whose outcomes are given succeeded.
pub fn count_delivered(outcomes: &Vec<bool>) -> (r: usize)
    ensures
        r == delivered_count(outcomes@),
{
    let ghost s = outcomes@;
    let mut n: usize = 0;
    let mut i: usize = 0;
    proof {
        reveal(Seq::filter);
    }
    while i < outcomes.len()
        invariant
            s == outcomes@,
            i <= s.len(),
            n == s.subrange(0, i as int).filter(|b: bool| b).len(),
            n <= i,
        decreases s.len() - i,
    {
        proof {
            reveal(Seq::filter);
            assert(s.subrange(0, i + 1).drop_last() =~= s.subrange(0, i as int));
            s.subrange(0, i as int).lemma_filter_len(|b: bool| b);
        }
        if outcomes[i] {
            n = n + 1;
        }
        i = i + 1;
    }
    assert(s.subrange(0, s.len() as int) =~= s);
    n
}

/// The result of a heartbeat that passed its check, given whether the
/// send to the worker succeeded.
pub fn heartbeat_outcome(checked: Result<(), EngineError>, delivered: bool) -> (r: Result<(), EngineError>)
    ensures
        checked is Err ==> r == checked,
        checked is Ok && delivered ==> r is Ok,
        checked is Ok && !delivered ==> r == Err::<(), EngineError>(EngineError::ChannelUnavailable),
{
    match checked {
        Err(e) => Err(e),
        Ok(()) => if delivered {
            Ok(())
        } else {
            Err(EngineError::ChannelUnavailable)
        },
    }
}

} // verus!
