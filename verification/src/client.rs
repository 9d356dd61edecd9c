//! A channel end for transports that deliver by callback.

use crate::channel::{Message, TransportError};
use std::collections::VecDeque;
use vstd::prelude::*;

verus! {

/// The model of a client that contracts speak of.
pub struct ClientView {
    pub url: Seq<char>,
    /// The payloads that have arrived and were not read yet, oldest first.
    pub queue: Seq<Vec<u8>>,
}

/// The receiving end of a socket whose transport hands over each binary
/// message as it arrives. The driver queues the payloads with `on_message`;
/// `read` then behaves as a non-blocking socket does: it takes out the
/// oldest payload, or says that it would block.
pub struct Client {
    url: String,
    recv_queue: VecDeque<Vec<u8>>,
}

impl View for Client {
    type V = ClientView;

    closed spec fn view(&self) -> ClientView {
        ClientView { url: self.url@, queue: self.recv_queue@ }
    }
}

impl Client {
    /// A client for the socket at `url`, with nothing queued.
    pub fn new(url: &str) -> (client: Client)
        ensures
            client@.url == url@,
            client@.queue == Seq::<Vec<u8>>::empty(),
    {
        Client { url: url.to_owned(), recv_queue: VecDeque::new() }
    }

    /// The address of the socket.
    pub fn url(&self) -> (url: &str)
        ensures
            url@ == self@.url,
    {
        self.url.as_str()
    }

    /// The number of payloads that wait to be read.
    pub fn queued(&self) -> (count: usize)
        ensures
            count == self@.queue.len(),
    {
        self.recv_queue.len()
    }

    /// Queues a payload that has arrived, behind those that wait already.
    pub fn on_message(&mut self, data: Vec<u8>)
        ensures
            final(self)@.url == old(self)@.url,
            final(self)@.queue == old(self)@.queue.push(data),
    {
        self.recv_queue.push_back(data);
    }

    /// A non-blocking read: the oldest payload, which leaves the queue, or
    /// `WouldBlock` where nothing is queued.
    pub fn read(&mut self) -> (out: Result<Message, TransportError>)
        ensures
            final(self)@.url == old(self)@.url,
            old(self)@.queue.len() == 0 ==> out == Err::<Message, TransportError>(
                TransportError::WouldBlock,
            ) && final(self)@.queue == old(self)@.queue,
            old(self)@.queue.len() > 0 ==> out == Ok::<Message, TransportError>(
                Message::Binary(old(self)@.queue[0]),
            ) && final(self)@.queue == old(self)@.queue.drop_first(),
    {
        match self.recv_queue.pop_front() {
            Some(data) => Ok(Message::Binary(data)),
            None => Err(TransportError::WouldBlock),
        }
    }
}

} // verus!
