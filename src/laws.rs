//! Properties of the engine that span several operations.
use vstd::prelude::*;
use crate::engine::{
    delete_post, ids_sorted, page_of, subscribe_all_post, subscribe_post, upsert_post,
    EngineError, JanitorEngine, SinkId,
};
use crate::models::{Monitor, MonitorKind};
use crate::order::lemma_id_lt_total;

verus! {

/// A freshly made engine knows no id.
pub proof fn law_fresh_engine_knows_nothing(e: JanitorEngine, id: Seq<char>)
    requires
        e.monitors().len() == 0,
    ensures
        !e.has(id),
{
}

/// For an id that is not registered, a heartbeat is `NotFound` whatever the
/// secret, and a delete reports `false` and changes nothing.
pub proof fn law_unknown_id(
    e: JanitorEngine,
    id: Seq<char>,
    secret: Option<String>,
    after: JanitorEngine,
    deleted: bool,
)
    requires
        e.wf(),
        !e.has(id),
        delete_post(e, after, id, deleted),
    ensures
        e.heartbeat_check(id, secret) == Err::<(), EngineError>(EngineError::NotFound),
        !deleted,
        after.monitors() == e.monitors(),
        after.locals() == e.locals(),
{
}

/// Two upserts of one id: the first reports creation exactly when the id
/// was new, the second never does.
pub proof fn law_upsert_creates_once(
    e0: JanitorEngine,
    e1: JanitorEngine,
    e2: JanitorEngine,
    id: Seq<char>,
    m1: Monitor,
    m2: Monitor,
    r1: bool,
    r2: bool,
)
    requires
        e0.wf(),
        upsert_post(e0, e1, id, m1, r1),
        upsert_post(e1, e2, id, m2, r2),
    ensures
        r1 == !e0.has(id),
        !r2,
{
}

/// Every page of a listing is in strictly ascending order of id.
pub proof fn law_list_sorted(e: JanitorEngine, page: int, size: int)
    requires
        e.wf(),
        size >= 0,
    ensures
        ids_sorted(page_of(e.monitors(), page, size)),
{
    let ms = e.monitors();
    let p = page_of(ms, page, size);
    let start = (page - 1) * size;
    let lo = crate::engine::clamp(start, ms.len() as int);
    let hi = crate::engine::clamp(start + size, ms.len() as int);
    assert(lo <= hi);
    assert(p == ms.subrange(lo, hi));
    assert forall|i: int, j: int| 0 <= i < j < p.len() implies crate::order::id_lt(
        #[trigger] p[i].id@,
        #[trigger] p[j].id@,
    ) by {
        assert(p[i] == ms[lo + i] && p[j] == ms[lo + j]);
    }
}

/// A delete removes the id, and deleting it again reports `false`.
pub proof fn law_delete_then_gone(
    e0: JanitorEngine,
    e1: JanitorEngine,
    e2: JanitorEngine,
    id: Seq<char>,
    r1: bool,
    r2: bool,
)
    requires
        e0.wf(),
        delete_post(e0, e1, id, r1),
        delete_post(e1, e2, id, r2),
    ensures
        !e1.has(id),
        !r2,
{
}

/// A definition given to `upsert` comes back unchanged from the listing:
/// it is registered as given, and one page large enough shows every
/// registered definition.
pub proof fn law_upsert_list_round_trip(
    e0: JanitorEngine,
    e1: JanitorEngine,
    id: Seq<char>,
    m: Monitor,
    r: bool,
    size: int,
)
    requires
        e0.wf(),
        m.id@ == id,
        upsert_post(e0, e1, id, m, r),
        size >= e1.monitors().len(),
    ensures
        exists|k: int| 0 <= k < e1.monitors().len() && e1.monitors()[k] == m,
        page_of(e1.monitors(), 1, size) == e1.monitors(),
{
    if r {
        let k = choose|k: int|
            0 <= k <= e0.monitors().len()
            && e1.monitors() == e0.monitors().insert(k, m)
            && e1.locals() == e0.locals().insert(k, Seq::<SinkId>::empty());
        assert(e1.monitors()[k] == m);
    } else {
        let k = e0.position(id);
        assert(e1.monitors()[k] == m);
    }
    assert(e1.monitors().subrange(0, e1.monitors().len() as int) =~= e1.monitors());
}

/// A sink subscribed to a heartbeat monitor with no secret: a heartbeat
/// without a secret is accepted, the worker turns it into one `heartbeat`
/// event, and that event reaches the sink; when the sink was on neither
/// list before, it is among the recipients exactly once.
pub proof fn law_subscriber_gets_heartbeat(
    e0: JanitorEngine,
    e1: JanitorEngine,
    id: Seq<char>,
    sink: SinkId,
    r: bool,
)
    requires
        e0.wf(),
        e0.has(id),
        e0.monitors()[e0.position(id)].kind == MonitorKind::Heartbeat,
        e0.monitors()[e0.position(id)].secret is None,
        subscribe_post(e0, e1, id, sink, r),
    ensures
        e1.heartbeat_check(id, None) is Ok,
        e1.recipients_of(id).contains(sink),
        !e0.locals()[e0.position(id)].contains(sink) && !e0.globals().contains(sink) ==> exists|k: int|
            0 <= k < e1.recipients_of(id).len() && e1.recipients_of(id)[k] == sink && forall|j: int|
                0 <= j < e1.recipients_of(id).len() && j != k ==> e1.recipients_of(id)[j] != sink,
{
    let p = e0.position(id);
    assert(e1.position(id) == p) by {
        let q = e1.position(id);
        crate::engine::lemma_sorted_unique(e1.monitors(), p, q);
    }
    let old_local = e0.locals()[p];
    let rs = e1.recipients_of(id);
    assert(rs == old_local.push(sink) + e0.globals());
    let k = old_local.len() as int;
    assert(rs[k] == sink);
    if !old_local.contains(sink) && !e0.globals().contains(sink) {
        assert forall|j: int| 0 <= j < rs.len() && j != k implies rs[j] != sink by {
            if j < k {
                assert(rs[j] == old_local[j]);
            } else {
                assert(rs[j] == e0.globals()[j - k - 1]);
            }
        }
    }
}

/// A sink subscribed engine-wide receives the events of every registered
/// monitor.
pub proof fn law_global_subscriber_gets_all(
    e0: JanitorEngine,
    e1: JanitorEngine,
    sink: SinkId,
    id: Seq<char>,
)
    requires
        e0.wf(),
        subscribe_all_post(e0, e1, sink),
        e1.has(id),
    ensures
        e1.recipients_of(id).contains(sink),
{
    let rs = e1.recipients_of(id);
    let l = e1.locals()[e1.position(id)];
    assert(rs[(l.len() + e0.globals().len()) as int] == sink);
}

} // verus!
