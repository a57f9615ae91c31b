//! Fetch-through-cache: serve a value from the cache where it is there, and
//! fetch it from its source and store it where it is not.
//!
//! The flow decides; its driver acts. Each step of the flow names one thing to
//! do (connect, look the key up, read, fetch, store) and takes back how
//! that went. The flow never touches the cache or the source itself, so it is
//! the same for every kind of value, wire format and failure.

use vstd::prelude::*;
use vstd::string::StringExecFns;
use crate::image::{canonical, ImageReference, ImageView};
use crate::time::{representable, Instant};

verus! {

/// The namespace of every cache key.
pub const KEY_PREFIX: &'static str = "trivy-web";

/// For how many seconds a stored entry lives.
pub const CACHE_TTL: i64 = 86400;

/// The sources whose values are cached.
#[derive(Debug, Clone, Copy, PartialEq, Eq, Hash, Structural)]
pub enum Source {
    Manifest,
    Provenance,
    Scan,
}

impl Source {
    /// The name of the source within a cache key.
    pub fn name(&self) -> (name: &'static str)
        ensures
            name@ == source_name(*self),
    {
        match self {
            Source::Manifest => "docker_manifest",
            Source::Provenance => "cosign",
            Source::Scan => "trivy",
        }
    }
}

/// The name of a source within a cache key.
pub open spec fn source_name(source: Source) -> Seq<char> {
    match source {
        Source::Manifest => "docker_manifest"@,
        Source::Provenance => "cosign"@,
        Source::Scan => "trivy"@,
    }
}

/// The cache key of what `source` knows about `image`: namespace, source and
/// canonical reference, joined by colons.
pub open spec fn key_text(source: Source, image: ImageView) -> Seq<char> {
    KEY_PREFIX@ + seq![':'] + source_name(source) + seq![':'] + canonical(image)
}

/// Builds the cache key of what `source` knows about `image`.
pub fn cache_key(source: Source, image: &ImageReference) -> (key: String)
    ensures
        key@ == key_text(source, image@),
{
    let mut key = String::from_str(KEY_PREFIX);
    key.push(':');
    key.append(source.name());
    key.push(':');
    let reference = image.canonical();
    key.append(reference.as_str());
    proof {
        assert(key@ =~= key_text(source, image@));
    }
    key
}

/// A fetched value together with the instant at which it was fetched.
#[derive(Debug, Clone, PartialEq, Eq)]
pub struct CachedEntry<T> {
    pub value: T,
    pub fetch_time: Instant,
}

impl<T> CachedEntry<T> {
    /// Stamps a freshly fetched value.
    pub fn new(value: T, fetch_time: Instant) -> (entry: CachedEntry<T>)
        ensures
            entry.value == value,
            entry.fetch_time == fetch_time,
    {
        CachedEntry { value, fetch_time }
    }

    /// The age of the entry at the instant `now`, in seconds.
    pub fn fetch_duration(&self, now: &Instant) -> (age: i64)
        ensures
            age == now@ - self.fetch_time@,
    {
        now.seconds_since(&self.fetch_time)
    }

    /// The instant at which the entry expires under a time to live of `ttl`
    /// seconds; `None` where that instant cannot be represented.
    pub fn expires(&self, ttl: i64) -> (r: Option<Instant>)
        ensures
            match r {
                Some(instant) => instant@ == self.fetch_time@ + ttl,
                None => !representable(self.fetch_time@ + ttl),
            },
    {
        self.fetch_time.checked_add_seconds(ttl)
    }

    /// The seconds by which `now` lies past the expiry of the entry; negative
    /// while the entry is still alive. `None` where the expiry cannot be
    /// represented.
    pub fn expires_duration(&self, now: &Instant, ttl: i64) -> (r: Option<i64>)
        ensures
            match r {
                Some(past) => past == now@ - (self.fetch_time@ + ttl),
                None => !representable(self.fetch_time@ + ttl),
            },
    {
        match self.expires(ttl) {
            Some(expiry) => Some(now.seconds_since(&expiry)),
            None => None,
        }
    }
}

/// The cache operations that come before the source is asked.
#[derive(Debug, Clone, Copy, PartialEq, Eq, Structural)]
pub enum ReadStep {
    Connect,
    Probe,
    Read,
}

/// The operations that memoize a fetched value.
#[derive(Debug, Clone, Copy, PartialEq, Eq, Structural)]
pub enum WriteStep {
    Encode,
    Store,
    Expire,
}

/// Why no value could be returned.
#[derive(Debug, Clone, PartialEq, Eq)]
pub enum FetchError<E> {
    /// The source failed.
    Source(E),
    /// The cache failed before a value was at hand.
    Cache(ReadStep, E),
    /// The cache held data that could not be decoded.
    Decode(E),
    /// The driver reported the outcome of something it was not asked to do.
    OutOfTurn,
}

/// Why a value that was fetched could not be memoized.
#[derive(Debug, Clone, PartialEq, Eq)]
pub enum WriteFailure<E> {
    /// The operation failed.
    Failed(WriteStep, E),
    /// The driver reported the outcome of something it was not asked to do.
    OutOfTurn,
}

/// How a flow ended: with the value or the reason there is none and, where a
/// fetched value could not be memoized, the reason for that.
#[derive(Debug, PartialEq, Eq)]
pub struct Outcome<T, E> {
    pub result: Result<T, FetchError<E>>,
    pub warning: Option<WriteFailure<E>>,
}

/// What the flow is waiting for.
#[derive(Debug, Clone, PartialEq, Eq)]
pub enum Stage<T> {
    /// For the source's answer, no cache being configured.
    FetchingDirect,
    /// For a connection to the cache.
    Connecting,
    /// For the answer whether the key exists.
    Probing,
    /// For the text stored under the key.
    Reading,
    /// For the value that the stored text decodes to.
    Decoding,
    /// For the source's answer, the key being absent from the cache.
    Fetching,
    /// For the wire text of the fetched value.
    Encoding(T),
    /// For the cache to store the wire text.
    Storing(T),
    /// For the cache to set the time to live.
    Expiring(T),
    /// For nothing: the flow has ended.
    Finished,
}

/// What the driver reports back.
#[derive(Debug, PartialEq, Eq)]
pub enum Event<T, W, E> {
    Connected(Result<(), E>),
    Probed(Result<bool, E>),
    Read(Result<W, E>),
    Decoded(Result<T, E>),
    Fetched(Result<T, E>),
    Encoded(Result<W, E>),
    Stored(Result<(), E>),
    Expired(Result<(), E>),
}

/// What the driver is to do next.
#[derive(Debug, PartialEq, Eq)]
pub enum Action<T, W, E> {
    /// Connect to the cache.
    Connect,
    /// Ask the cache whether the key exists.
    Probe,
    /// Read what the cache holds under the key.
    Read,
    /// Decode this text, read from the cache, into a value.
    Decode(W),
    /// Ask the source.
    Fetch,
    /// Encode the value that the flow holds into wire text.
    Encode,
    /// Store this text under the key.
    Store(W),
    /// Let the key expire after this many seconds.
    Expire(i64),
    /// Hand this outcome to the caller.
    Finish(Outcome<T, E>),
}

/// The outcome that hands out a value.
pub open spec fn served<T, E>(value: T) -> Outcome<T, E> {
    Outcome { result: Ok(value), warning: None }
}

/// The outcome that hands out a value which could not be memoized.
pub open spec fn served_unstored<T, E>(value: T, warning: WriteFailure<E>) -> Outcome<T, E> {
    Outcome { result: Ok(value), warning: Some(warning) }
}

/// The outcome that hands out no value.
pub open spec fn failed<T, E>(error: FetchError<E>) -> Outcome<T, E> {
    Outcome { result: Err(error), warning: None }
}

/// Where a flow starts: with the source itself where no cache is configured,
/// else with a connection to the cache.
pub open spec fn first_step<T, W, E>(cached: bool) -> (Stage<T>, Action<T, W, E>) {
    if cached {
        (Stage::Connecting, Action::Connect)
    } else {
        (Stage::FetchingDirect, Action::Fetch)
    }
}

/// The step that the flow takes on an event: the stage it moves to, and what
/// the driver is to do next.
///
/// A cache failure before a value is at hand ends the flow with that failure.
/// A key that exists is read and decoded, and the source is not asked. A key
/// that is absent has the source asked; its failure ends the flow and nothing
/// is stored. A fetched value is encoded, stored and given its time to live;
/// whatever fails on that way, the value is still handed out.
pub open spec fn next_step<T, W, E>(stage: Stage<T>, event: Event<T, W, E>, ttl: i64) -> (
    Stage<T>,
    Action<T, W, E>,
) {
    match (stage, event) {
        (Stage::FetchingDirect, Event::Fetched(Ok(value))) => (
            Stage::Finished,
            Action::Finish(served(value)),
        ),
        (Stage::FetchingDirect, Event::Fetched(Err(cause))) => (
            Stage::Finished,
            Action::Finish(failed(FetchError::Source(cause))),
        ),
        (Stage::Connecting, Event::Connected(Ok(_))) => (Stage::Probing, Action::Probe),
        (Stage::Connecting, Event::Connected(Err(cause))) => (
            Stage::Finished,
            Action::Finish(failed(FetchError::Cache(ReadStep::Connect, cause))),
        ),
        (Stage::Probing, Event::Probed(Ok(exists))) => if exists {
            (Stage::Reading, Action::Read)
        } else {
            (Stage::Fetching, Action::Fetch)
        },
        (Stage::Probing, Event::Probed(Err(cause))) => (
            Stage::Finished,
            Action::Finish(failed(FetchError::Cache(ReadStep::Probe, cause))),
        ),
        (Stage::Reading, Event::Read(Ok(text))) => (Stage::Decoding, Action::Decode(text)),
        (Stage::Reading, Event::Read(Err(cause))) => (
            Stage::Finished,
            Action::Finish(failed(FetchError::Cache(ReadStep::Read, cause))),
        ),
        (Stage::Decoding, Event::Decoded(Ok(value))) => (
            Stage::Finished,
            Action::Finish(served(value)),
        ),
        (Stage::Decoding, Event::Decoded(Err(cause))) => (
            Stage::Finished,
            Action::Finish(failed(FetchError::Decode(cause))),
        ),
        (Stage::Fetching, Event::Fetched(Ok(value))) => (Stage::Encoding(value), Action::Encode),
        (Stage::Fetching, Event::Fetched(Err(cause))) => (
            Stage::Finished,
            Action::Finish(failed(FetchError::Source(cause))),
        ),
        (Stage::Encoding(value), Event::Encoded(Ok(text))) => (
            Stage::Storing(value),
            Action::Store(text),
        ),
        (Stage::Encoding(value), Event::Encoded(Err(cause))) => (
            Stage::Finished,
            Action::Finish(served_unstored(value, WriteFailure::Failed(WriteStep::Encode, cause))),
        ),
        (Stage::Storing(value), Event::Stored(Ok(_))) => (
            Stage::Expiring(value),
            Action::Expire(ttl),
        ),
        (Stage::Storing(value), Event::Stored(Err(cause))) => (
            Stage::Finished,
            Action::Finish(served_unstored(value, WriteFailure::Failed(WriteStep::Store, cause))),
        ),
        (Stage::Expiring(value), Event::Expired(Ok(_))) => (
            Stage::Finished,
            Action::Finish(served(value)),
        ),
        (Stage::Expiring(value), Event::Expired(Err(cause))) => (
            Stage::Finished,
            Action::Finish(served_unstored(value, WriteFailure::Failed(WriteStep::Expire, cause))),
        ),
        (Stage::Encoding(value), _) => (
            Stage::Finished,
            Action::Finish(served_unstored(value, WriteFailure::OutOfTurn)),
        ),
        (Stage::Storing(value), _) => (
            Stage::Finished,
            Action::Finish(served_unstored(value, WriteFailure::OutOfTurn)),
        ),
        (Stage::Expiring(value), _) => (
            Stage::Finished,
            Action::Finish(served_unstored(value, WriteFailure::OutOfTurn)),
        ),
        (_, _) => (Stage::Finished, Action::Finish(failed(FetchError::OutOfTurn))),
    }
}

/// A fetch through the cache, in progress.
#[derive(Debug)]
pub struct CacheFlow<T> {
    pub stage: Stage<T>,
    pub ttl: i64,
}

impl<T> CacheFlow<T> {
    /// Starts a flow. `cached` tells whether a cache is configured; `ttl` is
    /// the time to live, in seconds, of what the flow stores.
    pub fn start<W, E>(cached: bool, ttl: i64) -> (r: (CacheFlow<T>, Action<T, W, E>))
        ensures
            r.0.ttl == ttl,
            (r.0.stage, r.1) == first_step::<T, W, E>(cached),
    {
        if cached {
            (CacheFlow { stage: Stage::Connecting, ttl }, Action::Connect)
        } else {
            (CacheFlow { stage: Stage::FetchingDirect, ttl }, Action::Fetch)
        }
    }

    /// The value that the flow holds while it is being memoized.
    pub fn pending(&self) -> (r: Option<&T>)
        ensures
            match self.stage {
                Stage::Encoding(value) => r == Some(&value),
                Stage::Storing(value) => r == Some(&value),
                Stage::Expiring(value) => r == Some(&value),
                _ => r is None,
            },
    {
        match &self.stage {
            Stage::Encoding(value) => Some(value),
            Stage::Storing(value) => Some(value),
            Stage::Expiring(value) => Some(value),
            _ => None,
        }
    }

    /// Takes the step that `event` calls for.
    pub fn step<W, E>(self, event: Event<T, W, E>) -> (r: (CacheFlow<T>, Action<T, W, E>))
        ensures
            r.0.ttl == self.ttl,
            (r.0.stage, r.1) == next_step(self.stage, event, self.ttl),
    {
        let ttl = self.ttl;
        let (stage, action) = match (self.stage, event) {
            (Stage::FetchingDirect, Event::Fetched(Ok(value))) => (
                Stage::Finished,
                Action::Finish(Outcome { result: Ok(value), warning: None }),
            ),
            (Stage::FetchingDirect, Event::Fetched(Err(cause))) => (
                Stage::Finished,
                Action::Finish(Outcome { result: Err(FetchError::Source(cause)), warning: None }),
            ),
            (Stage::Connecting, Event::Connected(Ok(_))) => (Stage::Probing, Action::Probe),
            (Stage::Connecting, Event::Connected(Err(cause))) => (
                Stage::Finished,
                Action::Finish(
                    Outcome {
                        result: Err(FetchError::Cache(ReadStep::Connect, cause)),
                        warning: None,
                    },
                ),
            ),
            (Stage::Probing, Event::Probed(Ok(exists))) => if exists {
                (Stage::Reading, Action::Read)
            } else {
                (Stage::Fetching, Action::Fetch)
            },
            (Stage::Probing, Event::Probed(Err(cause))) => (
                Stage::Finished,
                Action::Finish(
                    Outcome { result: Err(FetchError::Cache(ReadStep::Probe, cause)), warning: None },
                ),
            ),
            (Stage::Reading, Event::Read(Ok(text))) => (Stage::Decoding, Action::Decode(text)),
            (Stage::Reading, Event::Read(Err(cause))) => (
                Stage::Finished,
                Action::Finish(
                    Outcome { result: Err(FetchError::Cache(ReadStep::Read, cause)), warning: None },
                ),
            ),
            (Stage::Decoding, Event::Decoded(Ok(value))) => (
                Stage::Finished,
                Action::Finish(Outcome { result: Ok(value), warning: None }),
            ),
            (Stage::Decoding, Event::Decoded(Err(cause))) => (
                Stage::Finished,
                Action::Finish(Outcome { result: Err(FetchError::Decode(cause)), warning: None }),
            ),
            (Stage::Fetching, Event::Fetched(Ok(value))) => (Stage::Encoding(value), Action::Encode),
            (Stage::Fetching, Event::Fetched(Err(cause))) => (
                Stage::Finished,
                Action::Finish(Outcome { result: Err(FetchError::Source(cause)), warning: None }),
            ),
            (Stage::Encoding(value), Event::Encoded(Ok(text))) => (
                Stage::Storing(value),
                Action::Store(text),
            ),
            (Stage::Encoding(value), Event::Encoded(Err(cause))) => (
                Stage::Finished,
                Action::Finish(
                    Outcome {
                        result: Ok(value),
                        warning: Some(WriteFailure::Failed(WriteStep::Encode, cause)),
                    },
                ),
            ),
            (Stage::Storing(value), Event::Stored(Ok(_))) => (
                Stage::Expiring(value),
                Action::Expire(ttl),
            ),
            (Stage::Storing(value), Event::Stored(Err(cause))) => (
                Stage::Finished,
                Action::Finish(
                    Outcome {
                        result: Ok(value),
                        warning: Some(WriteFailure::Failed(WriteStep::Store, cause)),
                    },
                ),
            ),
            (Stage::Expiring(value), Event::Expired(Ok(_))) => (
                Stage::Finished,
                Action::Finish(Outcome { result: Ok(value), warning: None }),
            ),
            (Stage::Expiring(value), Event::Expired(Err(cause))) => (
                Stage::Finished,
                Action::Finish(
                    Outcome {
                        result: Ok(value),
                        warning: Some(WriteFailure::Failed(WriteStep::Expire, cause)),
                    },
                ),
            ),
            (Stage::Encoding(value), _) => (
                Stage::Finished,
                Action::Finish(
                    Outcome { result: Ok(value), warning: Some(WriteFailure::OutOfTurn) },
                ),
            ),
            (Stage::Storing(value), _) => (
                Stage::Finished,
                Action::Finish(
                    Outcome { result: Ok(value), warning: Some(WriteFailure::OutOfTurn) },
                ),
            ),
            (Stage::Expiring(value), _) => (
                Stage::Finished,
                Action::Finish(
                    Outcome { result: Ok(value), warning: Some(WriteFailure::OutOfTurn) },
                ),
            ),
            (_, _) => (
                Stage::Finished,
                Action::Finish(Outcome { result: Err(FetchError::OutOfTurn), warning: None }),
            ),
        };
        (CacheFlow { stage, ttl }, action)
    }
}

/// A source and a cache that works, as a flow's driver meets them: what the
/// cache holds, the key that the flow is about, what the source answers, and
/// how values are turned into wire text and back.
#[verifier::reject_recursive_types(K)]
#[verifier::reject_recursive_types(T)]
#[verifier::reject_recursive_types(W)]
pub struct World<K, T, W, E> {
    pub cache: Map<K, W>,
    pub key: K,
    pub source: Result<T, E>,
    pub encode: spec_fn(T) -> Result<W, E>,
    pub decode: spec_fn(W) -> Result<T, E>,
}

/// How serving one request ended: what the caller got, what the cache holds
/// afterwards, and how often the source was asked.
#[verifier::reject_recursive_types(K)]
pub struct Served<K, T, W, E> {
    pub outcome: Outcome<T, E>,
    pub cache: Map<K, W>,
    pub fetches: nat,
}

/// The value that a stage holds.
pub open spec fn held<T>(stage: Stage<T>) -> Option<T> {
    match stage {
        Stage::Encoding(value) => Some(value),
        Stage::Storing(value) => Some(value),
        Stage::Expiring(value) => Some(value),
        _ => None,
    }
}

/// What a driver reports for an action in a world whose cache works, and what
/// the cache holds afterwards.
pub open spec fn answer<K, T, W, E>(
    world: World<K, T, W, E>,
    stage: Stage<T>,
    action: Action<T, W, E>,
) -> (Event<T, W, E>, Map<K, W>) {
    match action {
        Action::Connect => (Event::Connected(Ok(())), world.cache),
        Action::Probe => (Event::Probed(Ok(world.cache.contains_key(world.key))), world.cache),
        Action::Read => (Event::Read(Ok(world.cache[world.key])), world.cache),
        Action::Decode(text) => (Event::Decoded((world.decode)(text)), world.cache),
        Action::Fetch => (Event::Fetched(world.source), world.cache),
        Action::Encode => (Event::Encoded((world.encode)(held(stage)->Some_0)), world.cache),
        Action::Store(text) => (Event::Stored(Ok(())), world.cache.insert(world.key, text)),
        Action::Expire(_) => (Event::Expired(Ok(())), world.cache),
        Action::Finish(_) => (Event::Connected(Ok(())), world.cache),
    }
}

/// Drives a flow to its end in a world whose cache works, for at most `fuel`
/// actions.
pub open spec fn drive<K, T, W, E>(
    stage: Stage<T>,
    action: Action<T, W, E>,
    ttl: i64,
    world: World<K, T, W, E>,
    fetches: nat,
    fuel: nat,
) -> Served<K, T, W, E>
    decreases fuel,
{
    match action {
        Action::Finish(outcome) => Served { outcome, cache: world.cache, fetches },
        _ => if fuel == 0 {
            Served { outcome: failed(FetchError::OutOfTurn), cache: world.cache, fetches }
        } else {
            let (event, cache) = answer(world, stage, action);
            let (stage, next) = next_step(stage, event, ttl);
            drive(
                stage,
                next,
                ttl,
                World { cache, ..world },
                if action is Fetch {
                    fetches + 1
                } else {
                    fetches
                },
                (fuel - 1) as nat,
            )
        },
    }
}

/// Serves one request in a world whose cache works. No flow takes more than
/// six actions before it ends.
pub open spec fn serve<K, T, W, E>(cached: bool, ttl: i64, world: World<K, T, W, E>) -> Served<
    K,
    T,
    W,
    E,
> {
    let (stage, action) = first_step::<T, W, E>(cached);
    drive(stage, action, ttl, world, 0, 8)
}

/// Without a cache the flow is the source itself: it is asked once, and its
/// answer is the outcome.
pub proof fn lemma_passthrough<K, T, W, E>(ttl: i64, world: World<K, T, W, E>)
    ensures
        serve(false, ttl, world).fetches == 1,
        serve(false, ttl, world).cache == world.cache,
        serve(false, ttl, world).outcome == match world.source {
            Ok(value) => served::<T, E>(value),
            Err(cause) => failed::<T, E>(FetchError::Source(cause)),
        },
{
    reveal_with_fuel(drive, 9);
}

/// A key that the cache holds is served from the cache: the source is not
/// asked, the cache is left as it is, and the outcome is what the stored text
/// decodes to.
pub proof fn lemma_hit<K, T, W, E>(ttl: i64, world: World<K, T, W, E>)
    requires
        world.cache.contains_key(world.key),
    ensures
        serve(true, ttl, world).fetches == 0,
        serve(true, ttl, world).cache == world.cache,
        serve(true, ttl, world).outcome == match (world.decode)(world.cache[world.key]) {
            Ok(value) => served::<T, E>(value),
            Err(cause) => failed::<T, E>(FetchError::Decode(cause)),
        },
{
    reveal_with_fuel(drive, 9);
}

/// A key that the cache lacks has the source asked once. What the source
/// answers is handed out. The cache gains the wire text of the value under
/// the key where the source succeeded and the value could be encoded, and is
/// left as it is otherwise.
pub proof fn lemma_miss<K, T, W, E>(ttl: i64, world: World<K, T, W, E>)
    requires
        !world.cache.contains_key(world.key),
    ensures
        serve(true, ttl, world).fetches == 1,
        match world.source {
            Err(cause) => serve(true, ttl, world).outcome == failed::<T, E>(
                FetchError::Source(cause),
            ) && serve(true, ttl, world).cache == world.cache,
            Ok(value) => match (world.encode)(value) {
                Ok(text) => serve(true, ttl, world).outcome == served::<T, E>(value) && serve(
                    true,
                    ttl,
                    world,
                ).cache == world.cache.insert(world.key, text),
                Err(cause) => serve(true, ttl, world).outcome == served_unstored::<T, E>(
                    value,
                    WriteFailure::Failed(WriteStep::Encode, cause),
                ) && serve(true, ttl, world).cache == world.cache,
            },
        },
{
    reveal_with_fuel(drive, 9);
    if world.source is Ok && (world.encode)(world.source->Ok_0) is Ok {
        let text = (world.encode)(world.source->Ok_0)->Ok_0;
        assert(serve(true, ttl, world).cache =~= world.cache.insert(world.key, text));
    }
}

/// A failed fetch is never stored: where the source fails, the cache is left
/// as it was, so a key that was absent before is absent afterwards.
pub proof fn lemma_failure_not_stored<K, T, W, E>(cached: bool, ttl: i64, world: World<K, T, W, E>)
    requires
        world.source is Err,
    ensures
        serve(cached, ttl, world).cache == world.cache,
        !world.cache.contains_key(world.key) ==> !serve(cached, ttl, world).cache.contains_key(
            world.key,
        ),
{
    reveal_with_fuel(drive, 9);
}

/// Two requests in a row, with a cache that works and a source whose value can
/// be fetched and encoded, ask the source at most once. The second request is
/// served with what the cache holds after the first, text for text, and where
/// decoding undoes encoding, with the value of the first.
pub proof fn lemma_second_request_from_cache<K, T, W, E>(
    ttl: i64,
    world: World<K, T, W, E>,
    later_source: Result<T, E>,
)
    requires
        !world.cache.contains_key(world.key) ==> world.source is Ok && (world.encode)(
            world.source->Ok_0,
        ) is Ok,
    ensures
        ({
            let first = serve(true, ttl, world);
            let second = serve(true, ttl, World { cache: first.cache, source: later_source, ..world });
            &&& first.fetches + second.fetches <= 1
            &&& second.fetches == 0
            &&& second.cache == first.cache
            &&& first.cache.contains_key(world.key)
            &&& second.outcome == match (world.decode)(first.cache[world.key]) {
                Ok(value) => served::<T, E>(value),
                Err(cause) => failed::<T, E>(FetchError::Decode(cause)),
            }
            &&& !world.cache.contains_key(world.key) ==> first.cache[world.key] == (world.encode)(
                world.source->Ok_0,
            )->Ok_0
            &&& !world.cache.contains_key(world.key) && (world.decode)(
                (world.encode)(world.source->Ok_0)->Ok_0,
            ) == world.source ==> second.outcome == first.outcome
        }),
{
    let first = serve(true, ttl, world);
    let later = World { cache: first.cache, source: later_source, ..world };
    if world.cache.contains_key(world.key) {
        lemma_hit(ttl, world);
    } else {
        lemma_miss(ttl, world);
    }
    lemma_hit(ttl, later);
}

/// With a codec whose decoding undoes its encoding, the second of two requests
/// in a row gives what the first gave: the stored value, not a fresh one,
/// whatever the source would answer by then. The two requests together ask the
/// source at most once, and the second leaves the cache as the first left it.
pub proof fn lemma_second_request_same_outcome<K, T, W, E>(
    ttl: i64,
    world: World<K, T, W, E>,
    later_source: Result<T, E>,
)
    requires
        !world.cache.contains_key(world.key) ==> world.source is Ok && (world.encode)(
            world.source->Ok_0,
        ) is Ok,
        forall|value: T|
            (#[trigger] (world.encode)(value)) matches Ok(text) ==> (world.decode)(text) == Ok::<
                T,
                E,
            >(value),
    ensures
        ({
            let first = serve(true, ttl, world);
            let second = serve(true, ttl, World { cache: first.cache, source: later_source, ..world });
            &&& second.outcome == first.outcome
            &&& second.cache == first.cache
            &&& first.fetches + second.fetches <= 1
        }),
{
    lemma_second_request_from_cache(ttl, world, later_source);
    if world.cache.contains_key(world.key) {
        lemma_hit(ttl, world);
    } else {
        lemma_miss(ttl, world);
        let value = world.source->Ok_0;
        assert((world.encode)(value) is Ok);
    }
}

/// A value that was fetched is handed out, whatever happens afterwards: every
/// step from a stage that holds a value keeps holding it or ends the flow with
/// it.
pub proof fn lemma_value_kept<T, W, E>(stage: Stage<T>, event: Event<T, W, E>, ttl: i64)
    requires
        held(stage) is Some,
    ensures
        ({
            let (after, action) = next_step(stage, event, ttl);
            match action {
                Action::Finish(outcome) => outcome.result == Ok::<T, FetchError<E>>(
                    held(stage)->Some_0,
                ),
                _ => held(after) == held(stage),
            }
        }),
{
}

/// The source is asked only where no cache is configured or the cache has said
/// that it lacks the key, and text is stored only after the source has
/// succeeded.
pub proof fn lemma_when_asked<T, W, E>(stage: Stage<T>, event: Event<T, W, E>, ttl: i64)
    ensures
        ({
            let (after, action) = next_step(stage, event, ttl);
            &&& action is Fetch ==> stage is Probing && event == Event::<T, W, E>::Probed(Ok(false))
            &&& action is Store ==> stage is Encoding
            &&& after is Encoding ==> stage is Fetching && event is Fetched && event->Fetched_0 is Ok
        }),
{
}

} // verus!
