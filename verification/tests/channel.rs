use socket_pump::channel::{
    receive_one, send, Delivery, Fault, Message, RecvError, SendError, TransportError,
};
use socket_pump::client::Client;

#[test]
fn a_write_that_went_through_is_sent() {
    assert_eq!(send(Ok(())), Ok(Delivery::Sent));
}

#[test]
fn a_write_that_would_block_is_no_error() {
    assert_eq!(send(Err(TransportError::WouldBlock)), Ok(Delivery::Deferred));
}

#[test]
fn a_write_that_failed_is_reported() {
    assert_eq!(
        send(Err(TransportError::Failed(Fault::Io("broken pipe".to_string())))),
        Err(SendError(Fault::Io("broken pipe".to_string())))
    );
    assert_eq!(
        send(Err(TransportError::Failed(Fault::Protocol("already closed".to_string())))),
        Err(SendError(Fault::Protocol("already closed".to_string())))
    );
}

#[test]
fn a_read_gives_one_message() {
    assert_eq!(
        receive_one(Ok(Message::Text("hello".to_string()))),
        Ok(Some(Message::Text("hello".to_string())))
    );
    assert_eq!(
        receive_one(Ok(Message::Binary(vec![1, 2, 3]))),
        Ok(Some(Message::Binary(vec![1, 2, 3])))
    );
    assert_eq!(receive_one(Ok(Message::Ping(vec![9]))), Ok(Some(Message::Ping(vec![9]))));
    assert_eq!(receive_one(Ok(Message::Pong(vec![]))), Ok(Some(Message::Pong(vec![]))));
    assert_eq!(receive_one(Ok(Message::Close)), Ok(Some(Message::Close)));
}

#[test]
fn a_read_that_would_block_is_no_message_and_no_error() {
    assert_eq!(receive_one(Err(TransportError::WouldBlock)), Ok(None));
}

#[test]
fn a_read_that_failed_is_reported() {
    assert_eq!(
        receive_one(Err(TransportError::Failed(Fault::Io("connection reset".to_string())))),
        Err(RecvError(Fault::Io("connection reset".to_string())))
    );
    assert_eq!(
        receive_one(Err(TransportError::Failed(Fault::Protocol("bad frame".to_string())))),
        Err(RecvError(Fault::Protocol("bad frame".to_string())))
    );
}

#[test]
fn a_new_client_would_block() {
    let mut client = Client::new("ws://localhost:9001/");
    assert_eq!(client.url(), "ws://localhost:9001/");
    assert_eq!(client.queued(), 0);
    assert_eq!(client.read(), Err(TransportError::WouldBlock));
    assert_eq!(client.read(), Err(TransportError::WouldBlock));
    assert_eq!(receive_one(client.read()), Ok(None));
}

#[test]
fn a_client_gives_its_payloads_oldest_first() {
    let mut client = Client::new("ws://localhost:9001/");
    client.on_message(vec![1]);
    client.on_message(vec![]);
    client.on_message(vec![3, 3, 3]);
    assert_eq!(client.queued(), 3);
    assert_eq!(client.read(), Ok(Message::Binary(vec![1])));
    assert_eq!(client.queued(), 2);
    client.on_message(vec![4]);
    assert_eq!(client.read(), Ok(Message::Binary(vec![])));
    assert_eq!(client.read(), Ok(Message::Binary(vec![3, 3, 3])));
    assert_eq!(client.read(), Ok(Message::Binary(vec![4])));
    assert_eq!(client.read(), Err(TransportError::WouldBlock));
    assert_eq!(client.queued(), 0);
    assert_eq!(client.url(), "ws://localhost:9001/");
}
