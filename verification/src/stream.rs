//! The job stream publisher: a Redis client and the stream it appends
//! to.
use crate::messaging::{open_client, redis_url_accepted};
use crate::text::owned;
use vstd::prelude::*;

verus! {

/// Appends job messages to a Redis stream.
pub struct RedisStreamPublisher {
    client: redis::Client,
    stream: String,
}

impl RedisStreamPublisher {
    /// The stream messages are appended to.
    pub closed spec fn stream_view(&self) -> Seq<char> {
        self.stream@
    }

    /// The Redis client messages go through.
    pub closed spec fn client_spec(&self) -> redis::Client {
        self.client
    }

    /// A publisher to `stream` through `client`.
    pub fn new(client: redis::Client, stream: &str) -> (p: RedisStreamPublisher)
        ensures
            p.stream_view() == stream@,
            p.client_spec() == client,
    {
        RedisStreamPublisher { client, stream: owned(stream) }
    }

    /// A Redis client for the server at `url`; fails when the URL is not
    /// accepted.
    pub fn get_client(url: &str) -> (r: Result<redis::Client, redis::RedisError>)
        ensures
            r is Ok <==> redis_url_accepted(url@),
    {
        open_client(url)
    }

    /// The Redis client.
    pub fn client(&self) -> (r: &redis::Client)
        ensures
            *r == self.client_spec(),
    {
        &self.client
    }

    /// The stream key.
    pub fn stream(&self) -> (r: &str)
        ensures
            r@ == self.stream_view(),
    {
        self.stream.as_str()
    }
}

} // verus!
