use rabbit_harness::command::{parse_command, same_text, trim_line, Command};
use rabbit_harness::ledger::{DeclarationError, Ledger};
use rabbit_harness::options::{parse_flag, parse_unsigned, settings_from_options, OptionError, Settings};
use rabbit_harness::producer::{Producer, ProducerAction, ProducerEvent, ProducerPhase};
use rabbit_harness::topology::{declarations, destination, publish_target, route, Declaration, Names};
use rabbit_harness::worker::{worker_assignments, Worker, WorkerAction, WorkerEvent, WorkerPhase};

fn settings(consumers: usize, enable_ack: bool, durable: bool, prefetch_count: u16, fanout: bool) -> Settings {
    Settings { consumers, enable_ack, durable, prefetch_count, fanout }
}

fn line(text: &str) -> ProducerEvent {
    ProducerEvent::Line { text: text.to_string() }
}

#[test]
fn defaults_match_documented_values() {
    let d = Settings::defaults();
    assert_eq!(d, settings(1, false, false, 0, false));
    assert_eq!(settings_from_options(None, None, None, None, None), Ok(d));
}

#[test]
fn options_are_read() {
    let r = settings_from_options(Some("3"), Some("true"), Some("false"), Some("+10"), Some("true"));
    assert_eq!(r, Ok(settings(3, true, false, 10, true)));
}

#[test]
fn each_bad_option_is_named() {
    assert_eq!(settings_from_options(Some("x"), None, None, None, None), Err(OptionError::Consumers));
    assert_eq!(settings_from_options(None, Some("yes"), None, None, None), Err(OptionError::EnableAck));
    assert_eq!(settings_from_options(None, None, Some("TRUE"), None, None), Err(OptionError::Durable));
    assert_eq!(settings_from_options(None, None, None, Some("65536"), None), Err(OptionError::PrefetchCount));
    assert_eq!(settings_from_options(None, None, None, None, Some("")), Err(OptionError::Fanout));
    assert_eq!(settings_from_options(Some("-1"), Some("maybe"), None, None, None), Err(OptionError::Consumers));
}

#[test]
fn unsigned_numbers_edge_cases() {
    assert_eq!(parse_unsigned("65535", 65535), Some(65535));
    assert_eq!(parse_unsigned("65536", 65535), None);
    assert_eq!(parse_unsigned("007", 10), Some(7));
    assert_eq!(parse_unsigned("", 10), None);
    assert_eq!(parse_unsigned("+", 10), None);
    assert_eq!(parse_unsigned("1 2", 100), None);
    assert_eq!(parse_unsigned("18446744073709551615", u64::MAX), Some(u64::MAX));
    assert_eq!(parse_unsigned("18446744073709551616", u64::MAX), None);
    assert_eq!(parse_flag("true"), Some(true));
    assert_eq!(parse_flag("false"), Some(false));
    assert_eq!(parse_flag("True"), None);
}

#[test]
fn commands_are_parsed() {
    assert_eq!(parse_command("exit\n"), Command::Exit);
    assert_eq!(parse_command("  exit  "), Command::Exit);
    assert_eq!(parse_command("push hello\n"), Command::Push { message: "hello".to_string() });
    assert_eq!(parse_command("push hello world"), Command::Push { message: "hello".to_string() });
    assert_eq!(parse_command("push\n"), Command::MissingMessage);
    assert_eq!(parse_command("push   \t\n"), Command::MissingMessage);
    assert_eq!(parse_command(""), Command::Ignored);
    assert_eq!(parse_command("\n"), Command::Ignored);
    assert_eq!(parse_command("pull x"), Command::Ignored);
    assert_eq!(parse_command("exit now"), Command::Exit);
    assert_eq!(parse_command("exits"), Command::Ignored);
    assert_eq!(parse_command("push  x"), Command::Push { message: String::new() });
}

#[test]
fn trimming_and_comparing() {
    assert_eq!(trim_line("\u{3000} a b \r\n"), "a b");
    assert_eq!(trim_line(" \t "), "");
    assert!(same_text("abc", "abc"));
    assert!(!same_text("abc", "abd"));
    assert!(!same_text("abc", "ab"));
}

#[test]
fn topology_without_fanout() {
    let names = Names::standard();
    let d = declarations(&names, &settings(2, false, true, 0, false));
    assert_eq!(d, vec![Declaration::Queue { name: "queue-1".to_string(), durable: true }]);
    assert_eq!(destination(&names, false), "queue-1");
    let t = publish_target(&names, false);
    assert_eq!(t.exchange, "");
    assert_eq!(t.routing_key, "queue-1");
}

#[test]
fn topology_with_fanout() {
    let names = Names::standard();
    let d = declarations(&names, &settings(1, false, false, 0, true));
    assert_eq!(d.len(), 5);
    assert_eq!(d[2], Declaration::Exchange { name: "fanout-exchange".to_string() });
    assert_eq!(
        d[4],
        Declaration::Binding { queue: "queue-2".to_string(), exchange: "fanout-exchange".to_string() }
    );
    assert_eq!(destination(&names, true), "fanout-exchange");
    let t = publish_target(&names, true);
    assert_eq!(t.exchange, "fanout-exchange");
    assert_eq!(t.routing_key, "");
}

#[test]
fn redeclaring_on_a_second_channel_succeeds() {
    for fanout in [false, true] {
        for durable in [false, true] {
            for prefetch in [0u16, 1, 5] {
                let names = Names::standard();
                let s = settings(1, false, durable, prefetch, fanout);
                let mut broker = Ledger::new();
                assert_eq!(broker.declare_all(&declarations(&names, &s)), Ok(()));
                assert_eq!(broker.declare_all(&declarations(&names, &s)), Ok(()));
            }
        }
    }
}

#[test]
fn conflicting_redeclaration_is_refused() {
    let names = Names::standard();
    let mut broker = Ledger::new();
    assert_eq!(broker.declare_all(&declarations(&names, &settings(1, false, false, 0, false))), Ok(()));
    assert_eq!(
        broker.declare_all(&declarations(&names, &settings(1, false, true, 0, false))),
        Err(DeclarationError::Conflict)
    );
    let q = Declaration::Queue { name: "queue-1".to_string(), durable: false };
    assert_eq!(broker.declare(&q), Ok(()));
}

#[test]
fn fanout_off_routes_to_one_queue() {
    let names = Names::standard();
    let s = settings(2, false, false, 0, false);
    let r = route(&declarations(&names, &s), &publish_target(&names, false));
    assert_eq!(r, vec!["queue-1".to_string()]);
}

#[test]
fn fanout_on_routes_to_both_queues() {
    let names = Names::standard();
    let s = settings(1, false, false, 0, true);
    let r = route(&declarations(&names, &s), &publish_target(&names, true));
    assert_eq!(r, vec!["queue-1".to_string(), "queue-2".to_string()]);
}

#[test]
fn two_consumers_without_fanout_receive_each_message_once() {
    let names = Names::standard();
    let s = settings(2, false, false, 0, false);
    let pool = worker_assignments(&names, &s);
    assert_eq!(pool.len(), 2);
    assert!(pool.iter().all(|a| a.queue == "queue-1"));
    assert_eq!((pool[0].index, pool[1].index), (0, 1));
    let mut p = Producer::new(&names, false);
    match p.step(&line("push hello")) {
        ProducerAction::Publish { exchange, routing_key, body, .. } => {
            assert_eq!(body, "hello");
            let t = publish_target(&names, false);
            assert_eq!((exchange.as_str(), routing_key.as_str()), (t.exchange.as_str(), t.routing_key.as_str()));
            let queues = route(&declarations(&names, &s), &t);
            assert_eq!(queues.len(), 1);
        }
        other => panic!("unexpected action {:?}", other),
    }
}

#[test]
fn one_consumer_per_queue_under_fanout_each_get_a_copy() {
    let names = Names::standard();
    let s = settings(1, false, false, 0, true);
    let pool = worker_assignments(&names, &s);
    assert_eq!(pool.len(), 2);
    assert_eq!((pool[0].queue.as_str(), pool[0].index), ("queue-1", 0));
    assert_eq!((pool[1].queue.as_str(), pool[1].index), ("queue-2", 0));
    let mut p = Producer::new(&names, true);
    let a = p.step(&line("push x"));
    let expected = ProducerAction::Publish {
        exchange: "fanout-exchange".to_string(),
        routing_key: String::new(),
        mandatory: true,
        immediate: false,
        content_type: "text".to_string(),
        body: "x".to_string(),
    };
    assert_eq!(a, expected);
    let queues = route(&declarations(&names, &s), &publish_target(&names, true));
    for w in &pool {
        assert_eq!(queues.iter().filter(|q| **q == w.queue).count(), 1);
    }
}

#[test]
fn push_without_message_reports_and_keeps_reading() {
    let names = Names::standard();
    let mut p = Producer::new(&names, false);
    assert_eq!(p.step(&line("push\n")), ProducerAction::Report { text: "Missing message.".to_string() });
    assert!(p.reading());
    assert_eq!(p.step(&line("whatever")), ProducerAction::ReadLine);
    assert_eq!(p.phase(), ProducerPhase::Reading);
}

#[test]
fn exit_closes_channel_then_connection() {
    let names = Names::standard();
    let mut p = Producer::new(&names, true);
    assert_eq!(
        p.step(&line("exit\n")),
        ProducerAction::CloseChannel { reply_code: 200, reply_text: "closing producer".to_string() }
    );
    assert!(!p.reading());
    assert_eq!(p.step(&line("push late")), ProducerAction::Nothing);
    assert_eq!(p.step(&ProducerEvent::ConnectionClosed), ProducerAction::Nothing);
    assert_eq!(
        p.step(&ProducerEvent::ChannelClosed),
        ProducerAction::CloseConnection { reply_code: 200, reply_text: "closing producer".to_string() }
    );
    assert_eq!(p.step(&ProducerEvent::ConnectionClosed), ProducerAction::Nothing);
    assert_eq!(p.phase(), ProducerPhase::Closed);
}

#[test]
fn manual_ack_worker_cycle() {
    let names = Names::standard();
    let s = settings(1, true, false, 2, false);
    let pool = worker_assignments(&names, &s);
    let mut w = Worker::new(&pool[0], &s);
    assert_eq!(w.queue(), "queue-1");
    assert_eq!(w.index(), 0);
    assert_eq!(
        w.step(WorkerEvent::Ready),
        WorkerAction::Subscribe { queue: "queue-1".to_string(), no_ack: false, prefetch: Some(2) }
    );
    assert_eq!(w.step(WorkerEvent::Delivered { tag: 7 }), WorkerAction::BeginTask { tag: 7, seconds: 3 });
    assert_eq!(w.unacked(), 1);
    assert_eq!(w.step(WorkerEvent::TaskDone), WorkerAction::FinishTask { ack: Some(7), stop: false });
    assert_eq!(w.phase(), WorkerPhase::Acknowledging { tag: 7 });
    assert_eq!(w.step(WorkerEvent::AckSent), WorkerAction::Nothing);
    assert_eq!(w.unacked(), 0);
    assert_eq!(w.phase(), WorkerPhase::Consuming);
}

#[test]
fn auto_ack_worker_never_holds_unacked() {
    let names = Names::standard();
    let s = settings(1, false, false, 0, false);
    let mut w = Worker::new(&worker_assignments(&names, &s)[0], &s);
    assert_eq!(
        w.step(WorkerEvent::Ready),
        WorkerAction::Subscribe { queue: "queue-1".to_string(), no_ack: true, prefetch: None }
    );
    for tag in 1..4u64 {
        assert_eq!(w.step(WorkerEvent::Delivered { tag }), WorkerAction::BeginTask { tag, seconds: 3 });
        assert_eq!(w.unacked(), 0);
        assert_eq!(w.step(WorkerEvent::TaskDone), WorkerAction::FinishTask { ack: None, stop: false });
    }
}

#[test]
fn prefetch_one_bounds_unacked() {
    let names = Names::standard();
    let s = settings(1, true, false, 1, false);
    let mut w = Worker::new(&worker_assignments(&names, &s)[0], &s);
    w.step(WorkerEvent::Ready);
    for tag in 1..5u64 {
        w.step(WorkerEvent::Delivered { tag });
        assert!(w.unacked() <= 1);
        assert_eq!(w.step(WorkerEvent::Delivered { tag: tag + 100 }), WorkerAction::Nothing);
        assert!(w.unacked() <= 1);
        w.step(WorkerEvent::TaskDone);
        assert!(w.unacked() <= 1);
        w.step(WorkerEvent::AckSent);
        assert_eq!(w.unacked(), 0);
    }
}

#[test]
fn stop_takes_effect_between_deliveries() {
    let names = Names::standard();
    let s = settings(1, true, false, 0, false);
    let mut w = Worker::new(&worker_assignments(&names, &s)[0], &s);
    w.step(WorkerEvent::Ready);
    w.step(WorkerEvent::Delivered { tag: 1 });
    assert_eq!(w.step(WorkerEvent::StopRequested), WorkerAction::Nothing);
    assert_eq!(w.step(WorkerEvent::TaskDone), WorkerAction::FinishTask { ack: Some(1), stop: false });
    assert_eq!(w.step(WorkerEvent::AckSent), WorkerAction::Close);
    assert_eq!(w.phase(), WorkerPhase::Stopped);
    assert_eq!(w.step(WorkerEvent::Delivered { tag: 2 }), WorkerAction::Nothing);

    let s2 = settings(1, false, false, 0, false);
    let mut v = Worker::new(&worker_assignments(&names, &s2)[0], &s2);
    v.step(WorkerEvent::Ready);
    v.step(WorkerEvent::Delivered { tag: 1 });
    v.step(WorkerEvent::StopRequested);
    assert_eq!(v.step(WorkerEvent::TaskDone), WorkerAction::FinishTask { ack: None, stop: true });
    let mut u = Worker::new(&worker_assignments(&names, &s2)[0], &s2);
    u.step(WorkerEvent::Ready);
    assert_eq!(u.step(WorkerEvent::StopRequested), WorkerAction::Close);
}

#[test]
fn pool_spans_both_queues_under_fanout() {
    let names = Names::standard();
    let pool = worker_assignments(&names, &settings(3, false, false, 0, true));
    let got: Vec<(String, usize)> = pool.iter().map(|a| (a.queue.clone(), a.index)).collect();
    let want: Vec<(String, usize)> = vec![
        ("queue-1".to_string(), 0),
        ("queue-1".to_string(), 1),
        ("queue-1".to_string(), 2),
        ("queue-2".to_string(), 0),
        ("queue-2".to_string(), 1),
        ("queue-2".to_string(), 2),
    ];
    assert_eq!(got, want);
    assert!(worker_assignments(&names, &settings(0, false, false, 0, false)).is_empty());
}
