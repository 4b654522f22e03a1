use whep_bench::bench::{BenchEvent, BenchPlan, BenchRunner, Phase, SessionTask, TaskStep};
use whep_bench::stats::{sample, Stats};
use whep_bench::tui::{AppState, Client};
use whep_bench::whep::{
    resolve_location, DriveStep, EngineEvent, EngineOutput, NegotiationReply, WhepClient,
    WhepError, WhepEvent,
};

fn reply(location: Option<&str>) -> NegotiationReply {
    NegotiationReply {
        exchange: Ok(()),
        status: 201,
        answer_valid: true,
        location: location.map(|l| l.to_string()),
    }
}

fn stats(send: u64, recv: u64) -> Stats {
    Stats { send_kbps: send, recv_kbps: recv, live_ms: 0, rtt_ms: 0, lost: 0 }
}

#[test]
fn sample_exact_rate() {
    // (900 - 100) * 8 bits over 1000 ms.
    assert_eq!(sample(100, 0, 900, 1000), 6);
    assert_eq!(sample(100, 0, 900_100, 1000), 7200);
}

#[test]
fn sample_zero_elapsed_is_zero() {
    assert_eq!(sample(100, 7, 900, 7), 0);
    assert_eq!(sample(0, 0, u64::MAX, 0), 0);
}

#[test]
fn sample_counter_reset_is_zero() {
    assert_eq!(sample(900, 0, 100, 1000), 0);
}

#[test]
fn sample_saturates() {
    assert_eq!(sample(0, 0, u64::MAX, 1), u64::MAX);
}

#[test]
fn relative_location_resolves_against_origin() {
    let mut c = WhepClient::new("http://host:8080/whep", "tok", 0).unwrap();
    assert!(c.prepare(reply(Some("/resource/42"))).is_ok());
    assert_eq!(c.location(), Some("http://host:8080/resource/42"));
}

#[test]
fn absolute_location_used_verbatim() {
    let mut c = WhepClient::new("http://host:8080/whep", "tok", 0).unwrap();
    assert!(c.prepare(reply(Some("https://other/res/1"))).is_ok());
    assert_eq!(c.location(), Some("https://other/res/1"));
}

#[test]
fn resolve_location_plain() {
    assert_eq!(resolve_location("http://a:1", "/x"), "http://a:1/x");
    assert_eq!(resolve_location("http://a:1", "x/y"), "x/y");
    assert_eq!(resolve_location("http://a:1", ""), "");
}

#[test]
fn malformed_url_is_rejected() {
    assert!(matches!(WhepClient::new("not a url", "tok", 0), Err(WhepError::UrlError)));
}

#[test]
fn authorization_is_bearer() {
    let c = WhepClient::new("http://h/whep", "SECRET-REDACTED", 0).unwrap();
    assert_eq!(c.authorization(), "Bearer SECRET-REDACTED");
    assert_eq!(c.url(), "http://h/whep");
    assert_eq!(c.token(), "SECRET-REDACTED");
}

#[test]
fn request_failure_is_server_error() {
    let mut c = WhepClient::new("http://h/whep", "t", 0).unwrap();
    let r = c.prepare(NegotiationReply {
        exchange: Err("refused".to_string()),
        status: 0,
        answer_valid: false,
        location: None,
    });
    assert_eq!(r, Err(WhepError::ServerError("refused".to_string())));
    assert_eq!(c.location(), None);
}

#[test]
fn bad_answer_is_sdp_error() {
    let mut c = WhepClient::new("http://h/whep", "t", 0).unwrap();
    let r = c.prepare(NegotiationReply {
        exchange: Ok(()),
        status: 200,
        answer_valid: false,
        location: Some("/r/1".to_string()),
    });
    assert_eq!(r, Err(WhepError::SdpError));
    assert_eq!(c.location(), None);
}

#[test]
fn negotiation_failure_emits_connecting_then_disconnected() {
    let (mut task, first) = SessionTask::new(4, 50, 0);
    let mut events = vec![first];
    let mut c = WhepClient::new("http://h/whep", "t", 0).unwrap();
    let r = c.prepare(reply(None));
    assert!(matches!(r, Err(WhepError::ServerError(_))));
    assert_eq!(c.disconnect(), None);
    events.push(task.finish());
    assert_eq!(events, vec![BenchEvent::Connecting(4), BenchEvent::Disconnected(4)]);
    assert_eq!(task.current_phase(), Phase::Ended);
}

#[test]
fn disconnect_takes_location_once() {
    let mut c = WhepClient::new("http://h:9/whep", "t", 0).unwrap();
    c.prepare(reply(Some("/r/7"))).unwrap();
    assert_eq!(c.disconnect(), Some("http://h:9/r/7".to_string()));
    assert_eq!(c.disconnect(), None);
}

#[test]
fn drive_step_decisions() {
    let mut c = WhepClient::new("http://h/whep", "t", 1000).unwrap();
    assert_eq!(c.recv(EngineOutput::Transmit, 1000), DriveStep::Send);
    assert_eq!(c.recv(EngineOutput::Timeout { at: 900 }, 1000), DriveStep::AdvanceTime);
    assert_eq!(c.recv(EngineOutput::Timeout { at: 1000 }, 1000), DriveStep::AdvanceTime);
    assert_eq!(c.recv(EngineOutput::Timeout { at: 1250 }, 1000), DriveStep::Wait { ms: 250 });
    assert_eq!(
        c.recv(EngineOutput::Event(EngineEvent::Other), 1000),
        DriveStep::Report(WhepEvent::Continue)
    );
    assert_eq!(
        c.recv(EngineOutput::Event(EngineEvent::IceChanged), 1000),
        DriveStep::Report(WhepEvent::Continue)
    );
    assert_eq!(
        c.recv(EngineOutput::Event(EngineEvent::IceDisconnected), 1000),
        DriveStep::Report(WhepEvent::Disconnected)
    );
}

#[test]
fn peer_stats_derive_rates() {
    let mut c = WhepClient::new("http://h/whep", "t", 0).unwrap();
    assert_eq!(
        c.recv(EngineOutput::Event(EngineEvent::Connected), 500),
        DriveStep::Report(WhepEvent::Connected)
    );
    c.recv(EngineOutput::Event(EngineEvent::IngressStats { rtt_ms: 42 }), 600);
    let step = c.recv(
        EngineOutput::Event(EngineEvent::PeerStats { bytes_tx: 1000, bytes_rx: 250_000, lost: 1500 }),
        2000,
    );
    assert_eq!(
        step,
        DriveStep::Report(WhepEvent::Stats(Stats {
            send_kbps: 4,
            recv_kbps: 1000,
            live_ms: 1500,
            rtt_ms: 42,
            lost: 1500,
        }))
    );
    // The next sample is taken against the previous one.
    let step = c.recv(
        EngineOutput::Event(EngineEvent::PeerStats { bytes_tx: 1000, bytes_rx: 500_000, lost: 0 }),
        4000,
    );
    assert_eq!(
        step,
        DriveStep::Report(WhepEvent::Stats(Stats {
            send_kbps: 0,
            recv_kbps: 1000,
            live_ms: 3500,
            rtt_ms: 42,
            lost: 0,
        }))
    );
}

#[test]
fn peer_stats_same_instant_do_not_divide_by_zero() {
    let mut c = WhepClient::new("http://h/whep", "t", 300).unwrap();
    let step = c.recv(
        EngineOutput::Event(EngineEvent::PeerStats { bytes_tx: 10, bytes_rx: 10, lost: 0 }),
        300,
    );
    assert_eq!(step, DriveStep::Report(WhepEvent::Stats(stats(0, 0))));
}

#[test]
fn ramp_up_ids_in_order() {
    let plan = BenchPlan { count: 3, interval: 100, live: 1000 };
    let mut runner = BenchRunner::new("http://h/whep", "t", plan);
    let mut ids = Vec::new();
    while let Some((task, first)) = runner.next_start(0) {
        assert_eq!(first, BenchEvent::Connecting(task.session_id()));
        ids.push(task.session_id());
    }
    assert_eq!(ids, vec![1, 2, 3]);
    assert!(runner.next_start(0).is_none());
    assert_eq!(runner.plan(), plan);
    assert_eq!(runner.url(), "http://h/whep");
    assert_eq!(runner.token(), "t");
}

#[test]
fn lifetime_expiry() {
    let (mut task, _) = SessionTask::new(1, 50, 1000);
    assert_eq!(task.remaining(1000), 51);
    task.negotiated();
    assert_eq!(task.remaining(1049), 2);
    assert_eq!(task.remaining(5000), 0);
    assert!(!task.expired(1000));
    assert!(!task.expired(1050));
    assert!(task.expired(1051));
    assert_eq!(task.bound_wait(DriveStep::Wait { ms: 10_000 }, 1000), DriveStep::Wait { ms: 51 });
    assert_eq!(task.bound_wait(DriveStep::Wait { ms: 20 }, 1000), DriveStep::Wait { ms: 20 });
    assert_eq!(task.bound_wait(DriveStep::Wait { ms: 20 }, 2000), DriveStep::Wait { ms: 0 });
    assert_eq!(task.bound_wait(DriveStep::Send, 2000), DriveStep::Send);
    assert_eq!(task.finish(), BenchEvent::Disconnected(1));
}

#[test]
fn successful_session_event_order() {
    let (mut task, first) = SessionTask::new(2, 1000, 0);
    let mut events = vec![first];
    task.negotiated();
    let feed = [
        WhepEvent::Stats(stats(9, 9)),
        WhepEvent::Connected,
        WhepEvent::Continue,
        WhepEvent::Stats(stats(1, 2)),
        WhepEvent::Connected,
        WhepEvent::Stats(stats(3, 4)),
    ];
    for ev in feed {
        match task.on_event(ev) {
            TaskStep::Publish(e) => events.push(e),
            TaskStep::Idle => {}
            TaskStep::Stop => panic!("unexpected stop"),
        }
    }
    assert_eq!(task.on_event(WhepEvent::Disconnected), TaskStep::Stop);
    events.push(task.finish());
    assert_eq!(
        events,
        vec![
            BenchEvent::Connecting(2),
            BenchEvent::Connected(2),
            BenchEvent::Stats(2, stats(1, 2)),
            BenchEvent::Stats(2, stats(3, 4)),
            BenchEvent::Disconnected(2),
        ]
    );
}

#[test]
fn dashboard_aggregates() {
    let mut s = AppState::new();
    s.add_client(3);
    s.add_client(1);
    s.add_client(2);
    assert_eq!(s.clients_sum(), 3);
    let ids: Vec<usize> = s.get_clients().iter().map(|c| c.id).collect();
    assert_eq!(ids, vec![1, 2, 3]);
    s.set_client_connected(1);
    s.set_client_connected(3);
    s.set_client_connected(9);
    assert_eq!(s.clients_connected(), 2);
    s.set_client_stats(1, stats(100, 200));
    s.set_client_stats(3, stats(10, 20));
    s.set_client_stats(9, stats(5, 5));
    assert_eq!(s.sum_send_kbps(), 110);
    assert_eq!(s.sum_recv_kbps(), 220);
    s.remove_client(1);
    assert_eq!(s.clients_sum(), 2);
    assert_eq!(s.clients_connected(), 1);
    assert_eq!(s.sum_send_kbps(), 10);
    s.add_client(3);
    assert_eq!(s.clients_connected(), 0);
    assert_eq!(s.sum_recv_kbps(), 0);
}

#[test]
fn dashboard_sums_saturate() {
    let mut s = AppState::new();
    s.add_client(1);
    s.add_client(2);
    s.set_client_stats(1, stats(u64::MAX, 1));
    s.set_client_stats(2, stats(5, 1));
    assert_eq!(s.sum_send_kbps(), u64::MAX);
    assert_eq!(s.sum_recv_kbps(), 2);
}

#[test]
fn non_success_status_is_server_error() {
    let mut c = WhepClient::new("http://h/whep", "t", 0).unwrap();
    let r = c.prepare(NegotiationReply {
        exchange: Ok(()),
        status: 404,
        answer_valid: true,
        location: Some("/r/1".to_string()),
    });
    assert!(matches!(r, Err(WhepError::ServerError(_))));
    assert_eq!(c.location(), None);
    assert_eq!(c.disconnect(), None);
}

#[test]
fn lifetime_counts_from_session_start() {
    let (mut task, _) = SessionTask::new(5, 50, 0);
    assert!(task.expired(51));
    task.negotiated();
    assert!(task.expired(51));
    assert!(!task.expired(50));
}

#[test]
fn peer_stats_loss_is_bounded() {
    let mut c = WhepClient::new("http://h/whep", "t", 0).unwrap();
    let step = c.recv(
        EngineOutput::Event(EngineEvent::PeerStats { bytes_tx: 0, bytes_rx: 0, lost: 2_000_000 }),
        1000,
    );
    let mut expected = stats(0, 0);
    expected.lost = 1_000_000;
    assert_eq!(step, DriveStep::Report(WhepEvent::Stats(expected)));
}

#[test]
fn dashboard_applies_events() {
    let mut s = AppState::new();
    s.apply_event(BenchEvent::Connecting(1));
    s.apply_event(BenchEvent::Connecting(2));
    s.apply_event(BenchEvent::Connected(2));
    s.apply_event(BenchEvent::Stats(2, stats(7, 8)));
    s.apply_event(BenchEvent::Stats(3, stats(1, 1)));
    assert_eq!(
        s.get_clients(),
        &[
            Client { id: 1, connected: false, stats: None },
            Client { id: 2, connected: true, stats: Some(stats(7, 8)) },
        ][..]
    );
    s.apply_event(BenchEvent::Disconnected(1));
    assert_eq!(s.clients_sum(), 1);
    assert_eq!(s.sum_send_kbps(), 7);
}
