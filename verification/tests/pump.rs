use socket_pump::channel::{Fault, Message, RecvError, SendError, TransportError};
use socket_pump::client::Client;
use socket_pump::pump::{after_receive, after_send, receive_cycle, send_cycle, Outbound, ReceiveStep};
use socket_pump::registry::{Registry, TaskEvent};
use socket_pump::report::{Level, LogEntry};
use socket_pump::task::ConnectionError;
use socket_pump::timer::SendTimer;
use socket_pump::transform::{serialize, TransformRecord};

const SECOND: u64 = 1_000_000_000;

fn snapshot() -> Vec<TransformRecord> {
    vec![
        TransformRecord {
            translation: [0, 0x4020_0000, 0],
            rotation: [0, 0, 0, 0x3f80_0000],
            scale: [0x3f80_0000; 3],
        },
        TransformRecord {
            translation: [0x4080_0000, 0x4100_0000, 0x4080_0000],
            rotation: [0, 0, 0, 0x3f80_0000],
            scale: [0x3f80_0000; 3],
        },
    ]
}

fn registry_with_two_live_and_one_pending() -> Registry<&'static str> {
    let mut registry = Registry::new();
    registry.trigger("wss://echo.websocket.org/");
    registry.trigger("wss://echo.websocket.org/");
    registry.trigger("wss://echo.websocket.org/");
    registry.complete(0, Ok("first"));
    registry.complete(2, Ok("third"));
    registry.tick();
    registry
}

#[test]
fn no_send_before_the_interval_has_passed() {
    let registry = registry_with_two_live_and_one_pending();
    let mut timer = SendTimer::new(SECOND);
    for _ in 0..59 {
        assert_eq!(send_cycle(&mut timer, SECOND / 60, &registry, &snapshot()), None);
    }
    assert_eq!(timer.elapsed(), 59 * (SECOND / 60));
}

#[test]
fn one_send_to_each_live_channel_once_the_interval_has_passed() {
    let registry = registry_with_two_live_and_one_pending();
    let mut timer = SendTimer::new(SECOND);
    assert_eq!(send_cycle(&mut timer, SECOND - 1, &registry, &snapshot()), None);
    let plan = send_cycle(&mut timer, 1, &registry, &snapshot());
    let payload = serialize(&snapshot());
    assert_eq!(payload.len(), 88);
    assert_eq!(
        plan,
        Some(vec![
            Outbound { slot: 0, payload: payload.clone() },
            Outbound { slot: 2, payload },
        ])
    );
    assert_eq!(timer.elapsed(), 0);
    assert_eq!(send_cycle(&mut timer, 1, &registry, &snapshot()), None);
}

#[test]
fn a_due_send_cycle_without_channels_sends_nothing() {
    let mut registry: Registry<u8> = Registry::new();
    registry.trigger("wss://echo.websocket.org/");
    let mut timer = SendTimer::new(SECOND);
    assert_eq!(send_cycle(&mut timer, 2 * SECOND, &registry, &snapshot()), Some(vec![]));
    assert_eq!(timer.elapsed(), 0);
}

#[test]
fn an_unthrottled_pump_sends_on_every_tick() {
    let registry = registry_with_two_live_and_one_pending();
    let mut timer = SendTimer::new(0);
    for _ in 0..3 {
        let plan = send_cycle(&mut timer, 16_000_000, &registry, &vec![]).unwrap();
        assert_eq!(plan.len(), 2);
        assert_eq!(plan[0].payload, vec![0u8; 8]);
    }
}

#[test]
fn a_send_is_logged_by_its_outcome() {
    assert_eq!(after_send(4, Ok(())), Some(LogEntry::Sent { slot: 4 }));
    assert_eq!(after_send(4, Err(TransportError::WouldBlock)), None);
    assert_eq!(
        after_send(4, Err(TransportError::Failed(Fault::Io("broken pipe".to_string())))),
        Some(LogEntry::SendFailed {
            slot: 4,
            send_error: SendError(Fault::Io("broken pipe".to_string())),
        })
    );
}

#[test]
fn a_read_is_logged_and_decides_whether_to_read_on() {
    assert_eq!(
        after_receive(1, Ok(Message::Text("echo".to_string()))),
        ReceiveStep {
            entry: Some(LogEntry::Received { slot: 1, message: Message::Text("echo".to_string()) }),
            again: true,
        }
    );
    assert_eq!(
        after_receive(1, Err(TransportError::WouldBlock)),
        ReceiveStep { entry: None, again: false }
    );
    assert_eq!(
        after_receive(1, Err(TransportError::Failed(Fault::Protocol("reset".to_string())))),
        ReceiveStep {
            entry: Some(LogEntry::ReceiveFailed {
                slot: 1,
                recv_error: RecvError(Fault::Protocol("reset".to_string())),
            }),
            again: false,
        }
    );
}

#[test]
fn three_queued_messages_are_logged_in_one_tick_and_none_in_the_next() {
    let mut client = Client::new("wss://echo.websocket.org/");
    client.on_message(vec![1]);
    client.on_message(vec![2, 2]);
    client.on_message(vec![3, 3, 3]);
    let log = receive_cycle(7, &mut client);
    assert_eq!(
        log,
        vec![
            LogEntry::Received { slot: 7, message: Message::Binary(vec![1]) },
            LogEntry::Received { slot: 7, message: Message::Binary(vec![2, 2]) },
            LogEntry::Received { slot: 7, message: Message::Binary(vec![3, 3, 3]) },
        ]
    );
    assert_eq!(client.queued(), 0);
    assert_eq!(receive_cycle(7, &mut client), vec![]);
    assert_eq!(client.url(), "wss://echo.websocket.org/");
}

#[test]
fn a_receive_cycle_logs_as_many_entries_as_were_queued() {
    for count in 0..20usize {
        let mut client = Client::new("wss://echo.websocket.org/");
        for i in 0..count {
            client.on_message(vec![i as u8; i]);
        }
        let log = receive_cycle(0, &mut client);
        assert_eq!(log.len(), count);
        assert_eq!(receive_cycle(0, &mut client).len(), 0);
    }
}

#[test]
fn a_driver_loop_over_a_socket_drains_it() {
    let mut inbound: Vec<Result<Message, TransportError>> = vec![
        Ok(Message::Text("a".to_string())),
        Ok(Message::Binary(vec![1])),
        Ok(Message::Ping(vec![])),
        Err(TransportError::WouldBlock),
    ];
    inbound.reverse();
    let mut log = Vec::new();
    loop {
        let raw = inbound.pop().unwrap_or(Err(TransportError::WouldBlock));
        let step = after_receive(2, raw);
        log.extend(step.entry);
        if !step.again {
            break;
        }
    }
    assert_eq!(log.len(), 3);
    assert!(inbound.is_empty());
    assert_eq!(
        after_receive(2, Err(TransportError::WouldBlock)),
        ReceiveStep { entry: None, again: false }
    );
}

#[test]
fn a_live_client_is_pumped_through_the_registry() {
    let mut registry: Registry<Client> = Registry::new();
    let slot = registry.trigger("wss://echo.websocket.org/").unwrap();
    registry.complete(slot, Ok(Client::new("wss://echo.websocket.org/")));
    assert_eq!(registry.tick(), vec![TaskEvent::Connected { slot }]);
    for payload in [vec![1u8], vec![2], vec![3]] {
        registry.channel_mut(slot).unwrap().on_message(payload);
    }
    assert_eq!(receive_cycle(slot, registry.channel_mut(slot).unwrap()).len(), 3);
    assert_eq!(receive_cycle(slot, registry.channel_mut(slot).unwrap()).len(), 0);
}

#[test]
fn failures_of_a_channel_are_warnings() {
    let broken = Fault::Io("broken pipe".to_string());
    assert_eq!(LogEntry::SendFailed { slot: 0, send_error: SendError(broken) }.level(), Level::Warn);
    let reset = Fault::Protocol("reset".to_string());
    assert_eq!(
        LogEntry::ReceiveFailed { slot: 0, recv_error: RecvError(reset) }.level(),
        Level::Warn
    );
    assert_eq!(LogEntry::ConnectionRequested { slot: 0 }.level(), Level::Info);
    assert_eq!(LogEntry::Connected { slot: 0 }.level(), Level::Info);
    let refused = ConnectionError::Io("refused".to_string());
    assert_eq!(LogEntry::ConnectionFailed { slot: 0, error: refused }.level(), Level::Info);
    assert_eq!(LogEntry::SendDue.level(), Level::Info);
    assert_eq!(LogEntry::Sent { slot: 0 }.level(), Level::Info);
    assert_eq!(LogEntry::Received { slot: 0, message: Message::Close }.level(), Level::Info);
}

#[test]
fn reports_start_with_their_words() {
    assert_eq!(LogEntry::ConnectionRequested { slot: 0 }.headline(), "Setting up connection!");
    assert_eq!(LogEntry::Connected { slot: 0 }.headline(), "Connected successfully!");
    let refused = ConnectionError::Io("refused".to_string());
    assert_eq!(
        LogEntry::ConnectionFailed { slot: 0, error: refused }.headline(),
        "Connection failed with"
    );
    assert_eq!(LogEntry::SendDue.headline(), "Time to send data again...");
    assert_eq!(LogEntry::Sent { slot: 0 }.headline(), "Data successfully sent!");
    let broken = Fault::Io("broken pipe".to_string());
    assert_eq!(
        LogEntry::SendFailed { slot: 0, send_error: SendError(broken) }.headline(),
        "Could not send the message"
    );
    assert_eq!(
        LogEntry::Received { slot: 0, message: Message::Close }.headline(),
        "Received message"
    );
    let reset = Fault::Protocol("reset".to_string());
    assert_eq!(
        LogEntry::ReceiveFailed { slot: 0, recv_error: RecvError(reset) }.headline(),
        "error receiving"
    );
}

#[test]
fn a_resolved_task_becomes_a_report() {
    assert_eq!(
        LogEntry::from_task(TaskEvent::Connected { slot: 3 }),
        LogEntry::Connected { slot: 3 }
    );
    assert_eq!(
        LogEntry::from_task(TaskEvent::Failed {
            slot: 3,
            error: ConnectionError::WebSocket("HTTP 500".to_string()),
        }),
        LogEntry::ConnectionFailed {
            slot: 3,
            error: ConnectionError::WebSocket("HTTP 500".to_string()),
        }
    );
}
