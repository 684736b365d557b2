//! Model of the key/value sink's command pipeline and connection
//! planning.
//!
//! The sink queues `SET` and `DEL` commands in a pipeline and flushes
//! them over a connection that is either a single node or a cluster. The
//! network side lives outside this library; here the pipeline is the
//! queued command list, and connection planning is the decision read from
//! the configured URL: a JSON array of strings selects a cluster of those
//! addresses, any other JSON is rejected, and text that is not JSON at
//! all is a single-node URL.

use vstd::prelude::*;

verus! {

/// Sink configuration failures, with their message text.
#[derive(Debug, PartialEq, Eq)]
pub enum SinkError {
    Redis(String),
    Config(String),
}

/// One queued pipeline command.
#[derive(Debug, PartialEq, Eq)]
pub enum RedisCommand {
    SetCmd(String, Vec<u8>),
    DelCmd(String),
}

/// The command pipeline, queued for a cluster or a single-node
/// connection.
#[derive(Debug, PartialEq, Eq)]
pub enum RedisPipe {
    Cluster(Vec<RedisCommand>),
    Single(Vec<RedisCommand>),
}

/// Which kind of connection the writer holds. The connection itself is
/// network state outside this library.
#[derive(Clone, Copy, Debug, PartialEq, Eq, Structural)]
pub enum RedisConn {
    Cluster,
    Single,
}

/// Connection settings: the configured URL.
#[derive(Debug, PartialEq, Eq)]
pub struct RedisCommon {
    pub url: String,
}

/// The sink's configuration: its connection settings.
#[derive(Debug, PartialEq, Eq)]
pub struct RedisConfig {
    pub common: RedisCommon,
}

/// What the configured URL asks for: a cluster of the listed node
/// addresses, or one node at the given URL.
#[derive(Debug, PartialEq, Eq)]
pub enum ConnectionPlan {
    Cluster(Vec<String>),
    Single(String),
}

impl RedisPipe {
    /// The queued commands, oldest first.
    pub open spec fn commands(self) -> Seq<RedisCommand> {
        match self {
            RedisPipe::Cluster(cs) => cs@,
            RedisPipe::Single(cs) => cs@,
        }
    }

    /// Drops all queued commands, keeping the pipeline kind.
    pub fn clear(&mut self)
        ensures
            final (self).commands() == Seq::<RedisCommand>::empty(),
            (*final (self)) is Cluster <==> (*old(self)) is Cluster,
    {
        match self {
            RedisPipe::Cluster(cs) => {
                *self = RedisPipe::Cluster(Vec::new());
            },
            RedisPipe::Single(cs) => {
                *self = RedisPipe::Single(Vec::new());
            },
        }
    }

    /// Queues a `SET` of the value under the key.
    pub fn set(&mut self, k: String, v: Vec<u8>)
        ensures
            final (self).commands() == old(self).commands().push(RedisCommand::SetCmd(k, v)),
            (*final (self)) is Cluster <==> (*old(self)) is Cluster,
    {
        match self {
            RedisPipe::Cluster(cs) => cs.push(RedisCommand::SetCmd(k, v)),
            RedisPipe::Single(cs) => cs.push(RedisCommand::SetCmd(k, v)),
        }
    }

    /// Queues a `DEL` of the key.
    pub fn del(&mut self, k: String)
        ensures
            final (self).commands() == old(self).commands().push(RedisCommand::DelCmd(k)),
            (*final (self)) is Cluster <==> (*old(self)) is Cluster,
    {
        match self {
            RedisPipe::Cluster(cs) => cs.push(RedisCommand::DelCmd(k)),
            RedisPipe::Single(cs) => cs.push(RedisCommand::DelCmd(k)),
        }
    }
}

/// The outcome of reading the configured URL as JSON.
pub enum UrlClass {
    NotJson,
    StringList(Vec<String>),
    OtherArray,
    OtherValue,
}

/// Whether the text is a JSON array whose elements are all strings, and
/// if so which strings, in order.
pub uninterp spec fn json_string_list(s: Seq<char>) -> Option<Seq<Seq<char>>>;

/// Whether the text is a JSON array.
pub uninterp spec fn json_is_array(s: Seq<char>) -> bool;

/// Relies on serde_json's `from_str` for `Value`: whether the text
/// parses as JSON, whether the parsed value is an array, and the strings
/// an all-string array holds.
#[verifier::external_body]
fn classify_url(s: &str) -> (r: UrlClass)
    ensures
        (match r {
            UrlClass::NotJson => !crate::jsonb::json_valid(s@),
            UrlClass::StringList(items) => crate::jsonb::json_valid(s@) && (match
            json_string_list(s@) {
                Some(l) => items@.len() == l.len() && (forall|i: int|
                    0 <= i < l.len() ==> (#[trigger] items@[i])@ == l[i]),
                None => false,
            }),
            UrlClass::OtherArray => crate::jsonb::json_valid(s@) && json_is_array(s@)
                && json_string_list(s@) is None,
            UrlClass::OtherValue => crate::jsonb::json_valid(s@) && !json_is_array(s@)
                && json_string_list(s@) is None,
        }),
{
    match serde_json::from_str::<serde_json::Value>(s) {
        Err(_) => UrlClass::NotJson,
        Ok(serde_json::Value::Array(items)) => {
            let mut out = Vec::new();
            for it in items {
                match it {
                    serde_json::Value::String(t) => out.push(t),
                    _ => return UrlClass::OtherArray,
                }
            }
            UrlClass::StringList(out)
        },
        Ok(_) => UrlClass::OtherValue,
    }
}

impl RedisCommon {
    /// Decides how to connect from the configured URL: a JSON array of
    /// strings names the cluster nodes; other JSON is a configuration
    /// error; anything else is a single-node URL. Building the actual
    /// connection from the plan is network work outside this library.
    pub fn connection_plan(&self) -> (r: Result<ConnectionPlan, SinkError>)
        ensures
            !crate::jsonb::json_valid(self.url@) ==> (match r {
                Ok(p) => (match p {
                    ConnectionPlan::Single(u) => u@ == self.url@,
                    _ => false,
                }),
                Err(_) => false,
            }),
            crate::jsonb::json_valid(self.url@) && json_string_list(self.url@) is Some ==> (
            match r {
                Ok(p) => (match (p, json_string_list(self.url@)) {
                    (ConnectionPlan::Cluster(items), Some(l)) => items@.len() == l.len() && (
                    forall|i: int| 0 <= i < l.len() ==> (#[trigger] items@[i])@ == l[i]),
                    _ => false,
                }),
                Err(_) => false,
            }),
            crate::jsonb::json_valid(self.url@) && json_string_list(self.url@) is None ==> (
            match r {
                Ok(_) => false,
                Err(e) => (match e {
                    SinkError::Redis(m) => {
                        if json_is_array(self.url@) {
                            m@ == "redis.url must be array of string"@
                        } else {
                            m@ == "redis.url must be array or string"@
                        }
                    },
                    _ => false,
                }),
            }),
    {
        match classify_url(self.url.as_str()) {
            UrlClass::NotJson => Ok(ConnectionPlan::Single(self.url.clone())),
            UrlClass::StringList(items) => Ok(ConnectionPlan::Cluster(items)),
            UrlClass::OtherArray => Err(
                SinkError::Redis("redis.url must be array of string".to_owned()),
            ),
            UrlClass::OtherValue => Err(
                SinkError::Redis("redis.url must be array or string".to_owned()),
            ),
        }
    }
}

impl RedisConfig {
    /// Reads the configuration from flattened key/value properties: the
    /// connection URL is the value under `redis.url`, and a missing key
    /// is a configuration error.
    pub fn from_hashmap(properties: Vec<(String, String)>) -> (r: Result<RedisConfig, SinkError>)
        ensures
            (match r {
                Ok(c) => exists|i: int|
                    0 <= i < properties@.len() && (#[trigger] properties@[i]).0@ == "redis.url"@
                        && c.common.url@ == properties@[i].1@ && (forall|j: int|
                        0 <= j < i ==> (#[trigger] properties@[j]).0@ != "redis.url"@),
                Err(e) => (forall|i: int|
                    0 <= i < properties@.len() ==> (#[trigger] properties@[i]).0@
                        != "redis.url"@) && e is Config,
            }),
    {
        let n = properties.len();
        let mut i: usize = 0;
        while i < n
            invariant
                n == properties@.len(),
                0 <= i <= n,
                forall|j: int| 0 <= j < i ==> (#[trigger] properties@[j]).0@ != "redis.url"@,
            decreases n - i,
        {
            if crate::strutil::str_eq(properties[i].0.as_str(), "redis.url") {
                return Ok(
                    RedisConfig { common: RedisCommon { url: properties[i].1.clone() } },
                );
            }
            i = i + 1;
        }
        Err(SinkError::Config("missing redis.url".to_owned()))
    }
}

/// The sink's payload writer: the pipeline plus the kind of connection it
/// will flush over, absent in tests.
#[derive(Debug, PartialEq, Eq)]
pub struct RedisSinkPayloadWriter {
    pub conn: Option<RedisConn>,
    pub pipe: RedisPipe,
}

impl RedisSinkPayloadWriter {
    /// A writer with no connection and an empty single-node pipeline,
    /// for exercising the pipeline logic without a network.
    pub fn mock() -> (r: RedisSinkPayloadWriter)
        ensures
            r.conn is None,
            r.pipe is Single,
            r.pipe.commands() == Seq::<RedisCommand>::empty(),
    {
        RedisSinkPayloadWriter { conn: None, pipe: RedisPipe::Single(Vec::new()) }
    }

    /// Queues one formatted row: a value under the key is a `SET`, no
    /// value is a `DEL`. The key must be present; the formatter always
    /// provides it.
    pub fn write_one(&mut self, k: Option<String>, v: Option<Vec<u8>>)
        requires
            old(self).pipe.commands().len() < usize::MAX,
            k is Some,
        ensures
            final (self).conn == old(self).conn,
            final (self).pipe is Cluster <==> old(self).pipe is Cluster,
            final (self).pipe.commands() == (match (k, v) {
                (Some(key), Some(value)) => old(self).pipe.commands().push(
                    RedisCommand::SetCmd(key, value),
                ),
                (Some(key), None) => old(self).pipe.commands().push(RedisCommand::DelCmd(key)),
                _ => old(self).pipe.commands(),
            }),
    {
        let key = match k {
            Some(key) => key,
            None => {
                return ;
            },
        };
        match v {
            Some(value) => self.pipe.set(key, value),
            None => self.pipe.del(key),
        }
    }
}

} // verus!
