use janitor::engine::{count_delivered, heartbeat_outcome, EngineError, JanitorEngine};
use janitor::models::{secrets_match, Message, Monitor, MonitorKind, Page};
use janitor::worker::{classify_ping, on_message, worker_plan, Event, WorkerPlan};
use janitor::mime::{mime_for_extension, MimeUtils};

fn monitor(id: &str, kind: MonitorKind, secret: Option<&str>) -> Monitor {
    Monitor {
        id: id.to_string(),
        kind,
        schedule: "*/5 * * * *".to_string(),
        url: match kind {
            MonitorKind::Ping => Some(format!("http://example.com/{}", id)),
            MonitorKind::Heartbeat => None,
        },
        secret: secret.map(|s| s.to_string()),
    }
}

fn engine_with(ids: &[&str]) -> JanitorEngine {
    let mut e = JanitorEngine::new("admin");
    for id in ids {
        assert!(e.upsert(id.to_string(), monitor(id, MonitorKind::Heartbeat, None)));
    }
    e
}

fn ids(ms: &[Monitor]) -> Vec<String> {
    ms.iter().map(|m| m.id.clone()).collect()
}

#[test]
fn unknown_id_is_absent_everywhere() {
    let mut e = engine_with(&["a"]);
    assert!(!e.contains("zz".to_string()));
    assert!(!e.heartbeat("zz".to_string(), None));
    assert!(!e.delete("zz".to_string()));
    assert!(!e.subscribe("zz".to_string(), 1));
    assert_eq!(e.check_heartbeat(&"zz".to_string(), &None), Err(EngineError::NotFound));
    assert_eq!(e.list(1, 10).0, 1);
}

#[test]
fn upsert_creates_once_per_id() {
    let mut e = JanitorEngine::new("admin");
    assert!(e.upsert("a".to_string(), monitor("a", MonitorKind::Heartbeat, None)));
    assert!(!e.upsert("a".to_string(), monitor("a", MonitorKind::Ping, None)));
    assert!(!e.upsert("a".to_string(), monitor("a", MonitorKind::Heartbeat, Some("s"))));
    assert!(e.upsert("b".to_string(), monitor("b", MonitorKind::Heartbeat, None)));
    let (total, page) = e.list(1, 10);
    assert_eq!(total, 2);
    assert_eq!(page[0].secret, Some("s".to_string()));
}

#[test]
fn list_is_sorted_by_id() {
    let e = engine_with(&["c", "a", "b"]);
    let (total, page) = e.list(1, 10);
    assert_eq!(total, 3);
    assert_eq!(ids(&page), vec!["a", "b", "c"]);
}

#[test]
fn list_orders_by_bytes() {
    let e = engine_with(&["b", "ab", "B", "a", "\u{e9}", "z"]);
    let (_, page) = e.list(1, 10);
    assert_eq!(ids(&page), vec!["B", "a", "ab", "b", "z", "\u{e9}"]);
}

#[test]
fn list_paginates() {
    let e = engine_with(&["a", "b", "c"]);
    let (total, page) = e.list(1, 2);
    assert_eq!(total, 3);
    assert_eq!(ids(&page), vec!["a", "b"]);
    let (total, page) = e.list(2, 2);
    assert_eq!(total, 3);
    assert_eq!(ids(&page), vec!["c"]);
    let (total, page) = e.list(3, 2);
    assert_eq!(total, 3);
    assert!(page.is_empty());
}

#[test]
fn list_edge_pages() {
    let e = engine_with(&["a", "b", "c"]);
    assert!(e.list(0, 2).1.is_empty());
    assert!(e.list(1, 0).1.is_empty());
    assert!(e.list(usize::MAX, usize::MAX).1.is_empty());
    assert_eq!(e.list(1, usize::MAX).1.len(), 3);
    let empty = JanitorEngine::new("admin");
    assert_eq!(empty.list(1, 25).0, 0);
}

#[test]
fn secret_rule() {
    let x = Some("x".to_string());
    assert!(secrets_match(&None, &None));
    assert!(secrets_match(&x, &x.clone()));
    assert!(!secrets_match(&x, &None));
    assert!(!secrets_match(&None, &x));
    assert!(!secrets_match(&x, &Some("y".to_string())));
}

#[test]
fn heartbeat_checks_secret() {
    let mut e = JanitorEngine::new("admin");
    e.upsert("s".to_string(), monitor("s", MonitorKind::Heartbeat, Some("x")));
    e.upsert("n".to_string(), monitor("n", MonitorKind::Heartbeat, None));
    assert!(e.heartbeat("s".to_string(), Some("x".to_string())));
    assert!(!e.heartbeat("s".to_string(), None));
    assert!(!e.heartbeat("s".to_string(), Some("y".to_string())));
    assert!(e.heartbeat("n".to_string(), None));
    assert!(!e.heartbeat("n".to_string(), Some("x".to_string())));
    assert_eq!(e.check_heartbeat(&"s".to_string(), &None), Err(EngineError::Unauthorized));
    assert_eq!(e.check_heartbeat(&"n".to_string(), &None), Ok(()));
    assert_eq!(e.deliver_heartbeat(&"n".to_string(), &None), Ok(()));
}

#[test]
fn heartbeat_outcomes() {
    assert_eq!(heartbeat_outcome(Ok(()), true), Ok(()));
    assert_eq!(heartbeat_outcome(Ok(()), false), Err(EngineError::ChannelUnavailable));
    assert_eq!(heartbeat_outcome(Err(EngineError::NotFound), true), Err(EngineError::NotFound));
    assert_eq!(heartbeat_outcome(Err(EngineError::Unauthorized), false), Err(EngineError::Unauthorized));
}

#[test]
fn subscriber_receives_one_heartbeat() {
    let mut e = JanitorEngine::new("admin");
    e.upsert("h".to_string(), monitor("h", MonitorKind::Heartbeat, None));
    assert!(e.subscribe("h".to_string(), 7));
    let rx = e.worker_channel(&"h".to_string()).unwrap();
    assert!(e.heartbeat("h".to_string(), None));
    let msg = rx.try_recv().unwrap();
    assert_eq!(msg, Message::Heartbeat);
    assert!(rx.try_recv().is_err());
    let event = on_message(msg).unwrap();
    assert_eq!(event.name(), "heartbeat");
    let to = e.recipients(&"h".to_string());
    assert_eq!(to.iter().filter(|s| **s == 7).count(), 1);
}

#[test]
fn global_subscriber_receives_every_monitor() {
    let mut e = engine_with(&["a", "b"]);
    e.subscribe("a".to_string(), 1);
    e.subscribe_all(9);
    assert_eq!(e.recipients(&"a".to_string()), vec![1, 9]);
    assert_eq!(e.recipients(&"b".to_string()), vec![9]);
    assert!(e.recipients(&"zz".to_string()).is_empty());
}

#[test]
fn subscribers_survive_redefinition() {
    let mut e = engine_with(&["a"]);
    e.subscribe("a".to_string(), 3);
    assert!(!e.upsert("a".to_string(), monitor("a", MonitorKind::Ping, None)));
    assert_eq!(e.recipients(&"a".to_string()), vec![3]);
}

#[test]
fn delete_then_gone() {
    let mut e = engine_with(&["a", "b"]);
    e.subscribe("a".to_string(), 4);
    assert!(e.delete("a".to_string()));
    assert!(!e.contains("a".to_string()));
    assert!(!e.delete("a".to_string()));
    assert!(e.contains("b".to_string()));
    assert!(e.worker_channel(&"a".to_string()).is_none());
    assert!(e.upsert("a".to_string(), monitor("a", MonitorKind::Heartbeat, None)));
    assert!(e.recipients(&"a".to_string()).is_empty());
}

#[test]
fn upsert_list_round_trip() {
    let mut e = JanitorEngine::new("admin");
    let m = Monitor {
        id: "web".to_string(),
        kind: MonitorKind::Ping,
        schedule: "every 3s".to_string(),
        url: Some("http://localhost:9/health".to_string()),
        secret: Some("t0k\u{e9}n".to_string()),
    };
    e.upsert("web".to_string(), m.clone());
    let (_, page) = e.list(1, 25);
    let back = &page[0];
    assert_eq!(back.id, m.id);
    assert_eq!(back.kind, m.kind);
    assert_eq!(back.schedule, m.schedule);
    assert_eq!(back.url, m.url);
    assert_eq!(back.secret, m.secret);
}

#[test]
fn stop_signals_every_worker() {
    let mut e = engine_with(&["a", "b"]);
    let rx = e.worker_channel(&"b".to_string()).unwrap();
    assert_eq!(e.stop(), 2);
    assert_eq!(rx.try_recv().unwrap(), Message::Shutdown);
    assert!(e.contains("a".to_string()));
    e.start();
    assert_eq!(e.list(1, 25).0, 2);
}

#[test]
fn worker_decisions() {
    assert_eq!(on_message(Message::Heartbeat), Some(Event::HeartbeatReceived));
    assert_eq!(on_message(Message::Shutdown), None);
    assert_eq!(classify_ping(Some(200)), Event::PingSucceeded);
    assert_eq!(classify_ping(Some(204)), Event::PingSucceeded);
    assert_eq!(classify_ping(Some(301)), Event::PingFailed);
    assert_eq!(classify_ping(Some(500)), Event::PingFailed);
    assert_eq!(classify_ping(None), Event::PingFailed);
    assert_eq!(Event::PingFailed.name(), "ping");
    assert_eq!(Event::PingSucceeded.message(), "ping succeeded!");
    assert!(!Event::PingFailed.status());
    assert!(Event::HeartbeatReceived.status());
    let ping = monitor("p", MonitorKind::Ping, None);
    match worker_plan(&ping) {
        Some(WorkerPlan::Poll(u)) => assert_eq!(u, "http://example.com/p"),
        _ => panic!("expected a poll plan"),
    }
    let mut no_url = ping.clone();
    no_url.url = None;
    assert!(worker_plan(&no_url).is_none());
    assert!(matches!(worker_plan(&monitor("h", MonitorKind::Heartbeat, None)), Some(WorkerPlan::Listen)));
}

#[test]
fn page_defaults() {
    let p = Page::default();
    assert_eq!(p.size, 25);
    assert_eq!(p.page, 1);
}

#[test]
fn mime_guess() {
    assert_eq!(MimeUtils::guess(&"index.html".to_string()), "text/html");
    assert_eq!(MimeUtils::guess(&"js/app.mjs".to_string()), "text/javascript");
    assert_eq!(MimeUtils::guess(&"a/b.c/style.css".to_string()), "text/css");
    assert_eq!(MimeUtils::guess(&"logo.jpeg".to_string()), "image/jpeg");
    assert_eq!(MimeUtils::guess(&"README".to_string()), "application/octet-stream");
    assert_eq!(MimeUtils::guess(&".png".to_string()), "application/octet-stream");
    assert_eq!(mime_for_extension(&Some("git".to_string())), "image/gif");
    assert_eq!(mime_for_extension(&None), "application/octet-stream");
}

#[test]
fn counts_delivered_sends() {
    assert_eq!(count_delivered(&vec![]), 0);
    assert_eq!(count_delivered(&vec![true, false, true, true]), 3);
    assert_eq!(count_delivered(&vec![false, false]), 0);
    assert_eq!(JanitorEngine::new("admin").stop(), 0);
}
