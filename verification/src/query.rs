//! The decisions of a status query: cache keys, error messages, the
//! cache-first lookup, what happens with a probe's outcome, and the race
//! between the Java and the Bedrock probe of an auto-detecting query.
//!
//! The probes themselves are network work; the caller performs them and
//! hands their outcome here.

use vstd::prelude::*;

use vstd::string::StringExecFns;

use crate::cache::{Cache, CacheRecord, stored};
use crate::status::{QueryError, StatusResponse};

verus! {

/// Minecraft edition of a server.
#[derive(Clone, Copy, PartialEq, Eq, Structural)]
pub enum Edition {
    Java,
    Bedrock,
}

/// Lower-case name of an edition, the prefix of its cache keys.
pub open spec fn edition_tag(edition: Edition) -> Seq<char> {
    match edition {
        Edition::Java => "java"@,
        Edition::Bedrock => "bedrock"@,
    }
}

/// Display name of an edition, used in error messages.
pub open spec fn edition_title(edition: Edition) -> Seq<char> {
    match edition {
        Edition::Java => "Java"@,
        Edition::Bedrock => "Bedrock"@,
    }
}

/// Cache key of a host for an edition: `edition:host`.
pub open spec fn key_for(edition: Edition, host: Seq<char>) -> Seq<char> {
    edition_tag(edition) + ":"@ + host
}

/// Message of a failed Java or Bedrock query.
pub open spec fn connection_failure(edition: Edition, host: Seq<char>, detail: Seq<char>) -> Seq<
    char,
> {
    "Failed to connect to "@ + edition_title(edition) + " server at "@ + host + ": "@ + detail
}

/// Message of an auto-detecting query whose probes both failed.
pub open spec fn nothing_detected() -> Seq<char> {
    "No server status detected. Is the server offline?"@
}

/// Cache key of a host for an edition.
pub fn cache_key(edition: Edition, host: &str) -> (key: String)
    ensures
        key@ == key_for(edition, host@),
{
    let mut key = match edition {
        Edition::Java => String::from_str("java"),
        Edition::Bedrock => String::from_str("bedrock"),
    };
    key.append(":");
    key.append(host);
    key
}

/// Error of a failed Java or Bedrock query; `detail` describes the failure.
pub fn connection_error(edition: Edition, host: &str, detail: &str) -> (err: QueryError)
    ensures
        err.0@ == connection_failure(edition, host@, detail@),
{
    let mut msg = String::from_str("Failed to connect to ");
    match edition {
        Edition::Java => msg.append("Java"),
        Edition::Bedrock => msg.append("Bedrock"),
    }
    msg.append(" server at ");
    msg.append(host);
    msg.append(": ");
    msg.append(detail);
    QueryError(msg)
}

/// Error of an auto-detecting query whose probes both failed.
pub fn no_status_detected() -> (err: QueryError)
    ensures
        err.0@ == nothing_detected(),
{
    QueryError(String::from_str("No server status detected. Is the server offline?"))
}

/// First step of a Java or Bedrock query: the cached response when caching
/// is asked for and a fresh one is held.
pub fn cached_status(cache: &Cache, edition: Edition, host: &str, use_cache: bool, now: u128) -> (r:
    Option<StatusResponse>)
    ensures
        r == if use_cache {
            cache.lookup(key_for(edition, host@), now)
        } else {
            None
        },
{
    if use_cache {
        let key = cache_key(edition, host);
        cache.get(key.as_str(), now)
    } else {
        None
    }
}

/// First step of an auto-detecting query: the cached Java response, else the
/// cached Bedrock one, when caching is asked for.
pub fn cached_any(cache: &Cache, host: &str, use_cache: bool, now: u128) -> (r: Option<
    StatusResponse,
>)
    ensures
        r == if !use_cache {
            None
        } else if cache.lookup(key_for(Edition::Java, host@), now) is Some {
            cache.lookup(key_for(Edition::Java, host@), now)
        } else {
            cache.lookup(key_for(Edition::Bedrock, host@), now)
        },
{
    match cached_status(cache, Edition::Java, host, use_cache, now) {
        Some(resp) => Some(resp),
        None => cached_status(cache, Edition::Bedrock, host, use_cache, now),
    }
}

/// Stores a successful response under its edition's key when caching is
/// asked for, and hands it back.
pub fn remember(
    cache: &mut Cache,
    edition: Edition,
    host: &str,
    use_cache: bool,
    response: StatusResponse,
    now: u128,
) -> (r: StatusResponse)
    ensures
        r == response,
        use_cache ==> stored(
            *old(cache),
            *final(cache),
            key_for(edition, host@),
            CacheRecord { response, stored_at: now },
        ),
        !use_cache ==> *final(cache) == *old(cache),
{
    if use_cache {
        let key = cache_key(edition, host);
        let copy = response.duplicate();
        cache.insert(key, copy, now);
    }
    response
}

/// Last step of a Java or Bedrock query: a successful probe is stored (when
/// caching is asked for) and returned; a failed one becomes the connection
/// error, `detail` being the probe's own description of the failure.
pub fn settle_probe(
    cache: &mut Cache,
    edition: Edition,
    host: &str,
    use_cache: bool,
    outcome: Result<StatusResponse, String>,
    now: u128,
) -> (r: Result<StatusResponse, QueryError>)
    ensures
        match outcome {
            Ok(response) => {
                &&& r == Ok::<StatusResponse, QueryError>(response)
                &&& use_cache ==> stored(
                    *old(cache),
                    *final(cache),
                    key_for(edition, host@),
                    CacheRecord { response, stored_at: now },
                )
                &&& !use_cache ==> *final(cache) == *old(cache)
            },
            Err(detail) => {
                &&& r matches Err(e) && e.0@ == connection_failure(edition, host@, detail@)
                &&& *final(cache) == *old(cache)
            },
        },
{
    match outcome {
        Ok(response) => Ok(remember(cache, edition, host, use_cache, response, now)),
        Err(detail) => Err(connection_error(edition, host, detail.as_str())),
    }
}

/// Progress of an auto-detecting query, whose Java and Bedrock probes run
/// side by side.
pub struct ProbeRace {
    pub java_done: bool,
    pub bedrock_done: bool,
}

/// What an auto-detecting query does once a probe has finished.
pub enum RaceStep {
    /// A probe succeeded: the query answers with this response.
    Won(StatusResponse),
    /// The other probe is still running.
    Waiting,
    /// Both probes failed.
    Failed(QueryError),
}

impl ProbeRace {
    /// Whether the probe of `edition` has finished.
    pub open spec fn done(&self, edition: Edition) -> bool {
        match edition {
            Edition::Java => self.java_done,
            Edition::Bedrock => self.bedrock_done,
        }
    }

    /// A race in which neither probe has finished.
    pub fn new() -> (race: ProbeRace)
        ensures
            !race.done(Edition::Java),
            !race.done(Edition::Bedrock),
    {
        ProbeRace { java_done: false, bedrock_done: false }
    }

    /// Records that the probe of `edition` finished with `outcome` (`None`
    /// for a failure). The first success wins and is stored under its
    /// edition's key when caching is asked for; the query fails only once
    /// both probes have failed.
    pub fn finish(
        &mut self,
        edition: Edition,
        outcome: Option<StatusResponse>,
        cache: &mut Cache,
        host: &str,
        use_cache: bool,
        now: u128,
    ) -> (step: RaceStep)
        requires
            !old(self).done(edition),
        ensures
            final(self).done(edition),
            forall|other: Edition| other != edition ==> final(self).done(other) == old(self).done(other),
            match outcome {
                Some(response) => {
                    &&& step == RaceStep::Won(response)
                    &&& use_cache ==> stored(
                        *old(cache),
                        *final(cache),
                        key_for(edition, host@),
                        CacheRecord { response, stored_at: now },
                    )
                    &&& !use_cache ==> *final(cache) == *old(cache)
                },
                None => {
                    &&& *final(cache) == *old(cache)
                    &&& if final(self).done(Edition::Java) && final(self).done(Edition::Bedrock) {
                        step matches RaceStep::Failed(e) && e.0@ == nothing_detected()
                    } else {
                        step is Waiting
                    }
                },
            },
    {
        match edition {
            Edition::Java => self.java_done = true,
            Edition::Bedrock => self.bedrock_done = true,
        }
        match outcome {
            Some(response) => RaceStep::Won(remember(cache, edition, host, use_cache, response, now)),
            None => {
                if self.java_done && self.bedrock_done {
                    RaceStep::Failed(no_status_detected())
                } else {
                    RaceStep::Waiting
                }
            },
        }
    }
}

/// Java and Bedrock results for the same host never share a cache key, and
/// one edition's key names one host.
pub proof fn law_cache_keys_are_distinct(edition: Edition, other: Edition, host: Seq<char>, host2: Seq<char>)
    ensures
        edition != other ==> key_for(edition, host) != key_for(other, host2),
        key_for(edition, host) == key_for(edition, host2) ==> host == host2,
{
    reveal_strlit("java");
    reveal_strlit("bedrock");
    reveal_strlit(":");
    if edition != other && key_for(edition, host) == key_for(other, host2) {
        assert(key_for(edition, host)[0] == key_for(other, host2)[0]);
    }
    if key_for(edition, host) == key_for(edition, host2) {
        let p = edition_tag(edition) + ":"@;
        assert(key_for(edition, host).subrange(p.len() as int, key_for(edition, host).len() as int) =~= host);
        assert(key_for(edition, host2).subrange(p.len() as int, key_for(edition, host2).len() as int) =~= host2);
    }
}

/// Cache keys are `java:` or `bedrock:` followed by the host, and the error
/// messages read as documented.
pub proof fn law_keys_and_messages_read_as_documented(host: Seq<char>, detail: Seq<char>)
    ensures
        key_for(Edition::Java, host) == "java:"@ + host,
        key_for(Edition::Bedrock, host) == "bedrock:"@ + host,
        connection_failure(Edition::Java, host, detail) == "Failed to connect to Java server at "@
            + host + ": "@ + detail,
        connection_failure(Edition::Bedrock, host, detail)
            == "Failed to connect to Bedrock server at "@ + host + ": "@ + detail,
        nothing_detected() == "No server status detected. Is the server offline?"@,
{
    reveal_strlit("java");
    reveal_strlit("bedrock");
    reveal_strlit(":");
    reveal_strlit("java:");
    reveal_strlit("bedrock:");
    reveal_strlit("Failed to connect to ");
    reveal_strlit("Java");
    reveal_strlit("Bedrock");
    reveal_strlit(" server at ");
    reveal_strlit("Failed to connect to Java server at ");
    reveal_strlit("Failed to connect to Bedrock server at ");
    assert("java"@ + ":"@ =~= "java:"@);
    assert("bedrock"@ + ":"@ =~= "bedrock:"@);
    assert("Failed to connect to "@ + "Java"@ + " server at "@ =~= "Failed to connect to Java server at "@);
    assert("Failed to connect to "@ + "Bedrock"@ + " server at "@
        =~= "Failed to connect to Bedrock server at "@);
    assert(key_for(Edition::Java, host) =~= "java:"@ + host);
    assert(key_for(Edition::Bedrock, host) =~= "bedrock:"@ + host);
    assert(connection_failure(Edition::Java, host, detail) =~= "Failed to connect to Java server at "@
        + host + ": "@ + detail);
    assert(connection_failure(Edition::Bedrock, host, detail)
        =~= "Failed to connect to Bedrock server at "@ + host + ": "@ + detail);
}

} // verus!
