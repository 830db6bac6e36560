//! Redis-stream messaging between the ingestion and notification
//! services: the publisher and consumer handles and how their Redis
//! client is opened. Talking to Redis happens outside the library.
use crate::text::{contains, contains_spec, owned, str_eq};
use vstd::prelude::*;

verus! {

/// `redis::Client`, carried opaquely.
#[verifier::external_type_specification]
#[verifier::external_body]
pub struct ExRedisClient(redis::Client);

/// `redis::RedisError`, carried opaquely.
#[verifier::external_type_specification]
#[verifier::external_body]
pub struct ExRedisError(redis::RedisError);

/// `redis::aio::MultiplexedConnection`, carried opaquely.
#[verifier::external_type_specification]
#[verifier::external_body]
pub struct ExRedisConnection(redis::aio::MultiplexedConnection);

/// Whether `redis::Client::open` accepts a connection URL.
pub uninterp spec fn redis_url_accepted(url: Seq<char>) -> bool;

/// `redis::Client::open` on a URL: it parses the URL into connection
/// settings without connecting, so whether it succeeds depends on the
/// text alone. The URL grammar is not restated; acceptance is named.
#[verifier::external_body]
pub(crate) fn open_client(url: &str) -> (r: Result<redis::Client, redis::RedisError>)
    ensures
        r is Ok <==> redis_url_accepted(url@),
{
    redis::Client::open(url)
}

/// Publishes JSON messages to a Redis stream.
pub struct RedisStreamPublisher {
    client: redis::Client,
    stream_key: String,
}

impl RedisStreamPublisher {
    /// The stream messages are appended to.
    pub closed spec fn stream_key_view(&self) -> Seq<char> {
        self.stream_key@
    }

    /// The Redis client messages go through.
    pub closed spec fn client_spec(&self) -> redis::Client {
        self.client
    }

    /// A publisher to `stream_key` on the server at `endpoint`; fails
    /// when the endpoint URL is not accepted.
    pub fn new(endpoint: &str, stream_key: &str) -> (r: Result<RedisStreamPublisher, redis::RedisError>)
        ensures
            r is Ok <==> redis_url_accepted(endpoint@),
            r matches Ok(p) ==> p.stream_key_view() == stream_key@,
    {
        match open_client(endpoint) {
            Ok(client) => Ok(RedisStreamPublisher { client, stream_key: owned(stream_key) }),
            Err(e) => Err(e),
        }
    }

    /// The Redis client.
    pub fn client(&self) -> (r: &redis::Client)
        ensures
            *r == self.client_spec(),
    {
        &self.client
    }

    /// The stream key.
    pub fn stream_key(&self) -> (r: &str)
        ensures
            r@ == self.stream_key_view(),
    {
        self.stream_key.as_str()
    }
}

/// Reads JSON messages from a Redis stream as a member of a consumer
/// group.
pub struct RedisStreamConsumer {
    connection: redis::aio::MultiplexedConnection,
    stream_key: String,
    group: String,
    consumer_name: String,
}

impl RedisStreamConsumer {
    /// The stream read from.
    pub closed spec fn stream_key_view(&self) -> Seq<char> {
        self.stream_key@
    }

    /// The consumer group.
    pub closed spec fn group_view(&self) -> Seq<char> {
        self.group@
    }

    /// This consumer's name within the group.
    pub closed spec fn consumer_name_view(&self) -> Seq<char> {
        self.consumer_name@
    }

    /// The connection messages are read over.
    pub closed spec fn connection_spec(&self) -> redis::aio::MultiplexedConnection {
        self.connection
    }

    /// A consumer over an open connection whose group exists.
    pub fn from_connection(
        connection: redis::aio::MultiplexedConnection,
        stream_key: &str,
        group: &str,
        consumer_name: &str,
    ) -> (c: RedisStreamConsumer)
        ensures
            c.stream_key_view() == stream_key@,
            c.group_view() == group@,
            c.consumer_name_view() == consumer_name@,
            c.connection_spec() == connection,
    {
        RedisStreamConsumer {
            connection,
            stream_key: owned(stream_key),
            group: owned(group),
            consumer_name: owned(consumer_name),
        }
    }

    /// The connection.
    pub fn connection(&self) -> (r: &redis::aio::MultiplexedConnection)
        ensures
            *r == self.connection_spec(),
    {
        &self.connection
    }

    /// The stream key.
    pub fn stream_key(&self) -> (r: &str)
        ensures
            r@ == self.stream_key_view(),
    {
        self.stream_key.as_str()
    }

    /// The consumer group.
    pub fn group(&self) -> (r: &str)
        ensures
            r@ == self.group_view(),
    {
        self.group.as_str()
    }

    /// This consumer's name.
    pub fn consumer_name(&self) -> (r: &str)
        ensures
            r@ == self.consumer_name_view(),
    {
        self.consumer_name.as_str()
    }
}

/// Whether a failed `XGROUP CREATE` only says the group already exists
/// (its message mentions `BUSYGROUP`), which is fine.
pub fn group_already_exists(error_text: &str) -> (r: bool)
    ensures
        r == contains_spec(error_text@, "BUSYGROUP"@),
{
    contains(error_text, "BUSYGROUP")
}

/// The value of the first `data` field among an entry's fields.
pub open spec fn data_field(fields: Seq<(String, String)>) -> Option<Seq<char>>
    decreases fields.len(),
{
    if fields.len() == 0 {
        None
    } else if fields[0].0@ == "data"@ {
        Some(fields[0].1@)
    } else {
        data_field(fields.drop_first())
    }
}

/// The payload of the first stream entry, in reply order, that has a
/// `data` field.
pub open spec fn first_payload(entries: Seq<Vec<(String, String)>>) -> Option<Seq<char>>
    decreases entries.len(),
{
    if entries.len() == 0 {
        None
    } else {
        match data_field(entries[0]@) {
            Some(d) => Some(d),
            None => first_payload(entries.drop_first()),
        }
    }
}

fn data_field_of(fields: &Vec<(String, String)>) -> (r: Option<String>)
    ensures
        match r {
            Some(d) => data_field(fields@) == Some(d@),
            None => data_field(fields@).is_none(),
        },
{
    let n = fields.len();
    let mut i: usize = 0;
    proof {
        assert(fields@.skip(0) =~= fields@);
    }
    while i < n
        invariant
            n == fields@.len(),
            i <= n,
            data_field(fields@) == data_field(fields@.skip(i as int)),
        decreases n - i,
    {
        proof {
            assert(fields@.skip(i as int).drop_first() =~= fields@.skip(i + 1));
            assert(fields@.skip(i as int)[0] == fields@[i as int]);
        }
        if str_eq(fields[i].0.as_str(), "data") {
            return Some(fields[i].1.clone());
        }
        i = i + 1;
    }
    None
}

/// Picks the message a read returned: the `data` field of the first
/// entry that has one; entries without it are skipped.
pub fn first_data_payload(entries: &[Vec<(String, String)>]) -> (r: Option<String>)
    ensures
        match r {
            Some(d) => first_payload(entries@) == Some(d@),
            None => first_payload(entries@).is_none(),
        },
{
    let n = entries.len();
    let mut i: usize = 0;
    proof {
        assert(entries@.skip(0) =~= entries@);
    }
    while i < n
        invariant
            n == entries@.len(),
            i <= n,
            first_payload(entries@) == first_payload(entries@.skip(i as int)),
        decreases n - i,
    {
        proof {
            assert(entries@.skip(i as int).drop_first() =~= entries@.skip(i + 1));
            assert(entries@.skip(i as int)[0] == entries@[i as int]);
        }
        match data_field_of(&entries[i]) {
            Some(d) => {
                return Some(d);
            },
            None => {},
        }
        i = i + 1;
    }
    None
}

/// Builds Redis stream publishers.
pub struct RedisStreamPublisherFactory;

/// Builds Redis stream consumers.
pub struct RedisStreamConsumerFactory;

} // verus!
