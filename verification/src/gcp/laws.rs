//! Laws of the firmware cache: what a request returns, when it fetches, and
//! which firmware ends up under which MRTD.

use tokio::runtime::Handle;
use vstd::prelude::*;

use crate::gcp::firmware;
use crate::gcp::firmware::{
    FetchRoute, GcpFirmwareCacheError, GcpFirmwareEvent, GcpFirmwareLookup, RuntimeFlavor,
};

verus! {

// ---- requests ----

/// What reading a cache for an MRTD finds.
pub open spec fn cached<F>(cache: Map<Seq<u8>, F>, mrtd: Seq<u8>) -> Option<F> {
    if cache.contains_key(mrtd) {
        Some(cache[mrtd])
    } else {
        None
    }
}

/// One step of a request: what the request asks for is done, and the request
/// goes on. Gives the cache and the request afterwards.
///
/// `fetch` is what a fetch for an MRTD comes back with, and `poisoned` is
/// whether the lock around the cache is.
pub open spec fn step<F, E>(
    cache: Map<Seq<u8>, F>,
    lookup: GcpFirmwareLookup<F, E>,
    fetch: spec_fn([u8; 48]) -> Result<F, GcpFirmwareCacheError<E>>,
    poisoned: bool,
) -> (Map<Seq<u8>, F>, GcpFirmwareLookup<F, E>) {
    match lookup {
        GcpFirmwareLookup::ReadCache(mrtd) => if poisoned {
            (cache, lookup.after(GcpFirmwareEvent::LockPoisoned))
        } else {
            (cache, lookup.after(GcpFirmwareEvent::CacheRead(cached(cache, mrtd@))))
        },
        GcpFirmwareLookup::Fetch(mrtd) => (
            cache,
            lookup.after(GcpFirmwareEvent::Fetched(fetch(mrtd))),
        ),
        GcpFirmwareLookup::WriteCache(mrtd, firmware) => if poisoned {
            (cache, lookup.after(GcpFirmwareEvent::LockPoisoned))
        } else {
            (cache.insert(mrtd@, firmware), lookup.after(GcpFirmwareEvent::CacheWritten))
        },
        GcpFirmwareLookup::Done(_) => (cache, lookup),
    }
}

/// A request that has read a cache for an MRTD.
pub open spec fn after_reading<F, E>(cache: Map<Seq<u8>, F>, mrtd: [u8; 48]) -> GcpFirmwareLookup<
    F,
    E,
> {
    GcpFirmwareLookup::<F, E>::ReadCache(mrtd).after(
        GcpFirmwareEvent::CacheRead(cached(cache, mrtd@)),
    )
}

/// A whole request on a cache that nothing else writes and whose lock is not
/// poisoned: the cache afterwards, and what the request has come to.
pub open spec fn request<F, E>(
    cache: Map<Seq<u8>, F>,
    mrtd: [u8; 48],
    fetch: spec_fn([u8; 48]) -> Result<F, GcpFirmwareCacheError<E>>,
) -> (Map<Seq<u8>, F>, GcpFirmwareLookup<F, E>) {
    let (cache, lookup) = step(cache, GcpFirmwareLookup::ReadCache(mrtd), fetch, false);
    let (cache, lookup) = step(cache, lookup, fetch, false);
    step(cache, lookup, fetch, false)
}

/// The cache after requests one after the other, each an MRTD and what fetches
/// come back with then.
pub open spec fn requests<F, E>(
    cache: Map<Seq<u8>, F>,
    made: Seq<([u8; 48], spec_fn([u8; 48]) -> Result<F, GcpFirmwareCacheError<E>>)>,
) -> Map<Seq<u8>, F>
    decreases made.len(),
{
    if made.len() == 0 {
        cache
    } else {
        request(requests(cache, made.drop_last()), made.last().0, made.last().1).0
    }
}

// ---- one step after the other ----

/// A request that finds a firmware in the cache returns it.
pub proof fn law_found_firmware_is_returned<F, E>(mrtd: [u8; 48], firmware: F)
    ensures
        GcpFirmwareLookup::<F, E>::ReadCache(mrtd).after(
            GcpFirmwareEvent::CacheRead(Some(firmware)),
        ) == GcpFirmwareLookup::<F, E>::Done(Ok(firmware)),
{
}

/// A request that finds nothing in the cache fetches the firmware of its MRTD.
pub proof fn law_missing_firmware_is_asked_for<F, E>(mrtd: [u8; 48])
    ensures
        GcpFirmwareLookup::<F, E>::ReadCache(mrtd).after(GcpFirmwareEvent::CacheRead(None))
            == GcpFirmwareLookup::<F, E>::Fetch(mrtd),
{
}

/// A fetched firmware is written into the cache for the MRTD it was fetched
/// for, and then returned.
pub proof fn law_fetched_firmware_is_cached_and_returned<F, E>(mrtd: [u8; 48], firmware: F)
    ensures
        GcpFirmwareLookup::<F, E>::Fetch(mrtd).after(GcpFirmwareEvent::Fetched(Ok(firmware)))
            == GcpFirmwareLookup::<F, E>::WriteCache(mrtd, firmware),
        GcpFirmwareLookup::<F, E>::WriteCache(mrtd, firmware).after(GcpFirmwareEvent::CacheWritten)
            == GcpFirmwareLookup::<F, E>::Done(Ok(firmware)),
{
}

/// A failed fetch ends the request with the error of the fetch.
pub proof fn law_failed_fetch_is_returned<F, E>(mrtd: [u8; 48], error: GcpFirmwareCacheError<E>)
    ensures
        GcpFirmwareLookup::<F, E>::Fetch(mrtd).after(GcpFirmwareEvent::Fetched(Err(error)))
            == GcpFirmwareLookup::<F, E>::Done(Err(error)),
{
}

/// An event that does not answer what a request last asked for leaves it as
/// it is.
pub proof fn law_other_events_change_nothing<F, E>(
    mrtd: [u8; 48],
    firmware: F,
    event: GcpFirmwareEvent<F, E>,
)
    ensures
        event is Fetched || event is CacheWritten ==> GcpFirmwareLookup::<F, E>::ReadCache(
            mrtd,
        ).after(event) == GcpFirmwareLookup::<F, E>::ReadCache(mrtd),
        !(event is Fetched) ==> GcpFirmwareLookup::<F, E>::Fetch(mrtd).after(event)
            == GcpFirmwareLookup::<F, E>::Fetch(mrtd),
        event is Fetched || event is CacheRead ==> GcpFirmwareLookup::<F, E>::WriteCache(
            mrtd,
            firmware,
        ).after(event) == GcpFirmwareLookup::<F, E>::WriteCache(mrtd, firmware),
{
}

// ---- how to fetch ----

/// A fetch is offloaded exactly in the runtime of a handle with several
/// threads.
pub proof fn law_offloaded_iff_several_threads(handle: Option<Handle>)
    ensures
        firmware::route_in(firmware::runtime_of(handle)) == FetchRoute::Offloaded <==> (
        handle matches Some(handle) && firmware::handle_flavor(handle)
            == RuntimeFlavor::MultiThread),
{
}

// ---- what a request returns, and when it fetches ----

/// A cached firmware is returned without a fetch, and the cache stays as it
/// is.
pub proof fn law_cached_firmware_is_not_fetched<F, E>(
    cache: Map<Seq<u8>, F>,
    mrtd: [u8; 48],
    fetch: spec_fn([u8; 48]) -> Result<F, GcpFirmwareCacheError<E>>,
)
    requires
        cache.contains_key(mrtd@),
    ensures
        after_reading::<F, E>(cache, mrtd) == GcpFirmwareLookup::<F, E>::Done(Ok(cache[mrtd@])),
        request(cache, mrtd, fetch) == (
            cache,
            GcpFirmwareLookup::<F, E>::Done(Ok(cache[mrtd@])),
        ),
{
}

/// A firmware that is not cached is fetched, for the MRTD of the request. It
/// is then cached for that MRTD and returned; where the fetch fails its error
/// is returned and the cache stays as it is.
pub proof fn law_absent_firmware_is_fetched<F, E>(
    cache: Map<Seq<u8>, F>,
    mrtd: [u8; 48],
    fetch: spec_fn([u8; 48]) -> Result<F, GcpFirmwareCacheError<E>>,
)
    requires
        !cache.contains_key(mrtd@),
    ensures
        after_reading::<F, E>(cache, mrtd) == GcpFirmwareLookup::<F, E>::Fetch(mrtd),
        request(cache, mrtd, fetch) == (
            match fetch(mrtd) {
                Ok(firmware) => cache.insert(mrtd@, firmware),
                Err(_) => cache,
            },
            GcpFirmwareLookup::<F, E>::Done(fetch(mrtd)),
        ),
{
}

/// Requests keep what is cached.
pub proof fn law_requests_keep_entries<F, E>(
    cache: Map<Seq<u8>, F>,
    made: Seq<([u8; 48], spec_fn([u8; 48]) -> Result<F, GcpFirmwareCacheError<E>>)>,
    mrtd: Seq<u8>,
)
    requires
        cache.contains_key(mrtd),
    ensures
        requests(cache, made).contains_key(mrtd),
        requests(cache, made)[mrtd] == cache[mrtd],
    decreases made.len(),
{
    if made.len() > 0 {
        law_requests_keep_entries(cache, made.drop_last(), mrtd);
    }
}

/// Once a request for an MRTD has returned a firmware, every later request for
/// it returns the same one without a fetch, whatever was requested in between.
pub proof fn law_firmware_is_fetched_once<F, E>(
    cache: Map<Seq<u8>, F>,
    mrtd: [u8; 48],
    fetch: spec_fn([u8; 48]) -> Result<F, GcpFirmwareCacheError<E>>,
    firmware: F,
    in_between: Seq<([u8; 48], spec_fn([u8; 48]) -> Result<F, GcpFirmwareCacheError<E>>)>,
)
    requires
        request(cache, mrtd, fetch).1 == GcpFirmwareLookup::<F, E>::Done(Ok(firmware)),
    ensures
        after_reading::<F, E>(requests(request(cache, mrtd, fetch).0, in_between), mrtd)
            == GcpFirmwareLookup::<F, E>::Done(Ok(firmware)),
{
    law_requests_keep_entries(request(cache, mrtd, fetch).0, in_between, mrtd@);
}

/// A poisoned lock ends a request with that error, whether it was to read the
/// cache or to write it.
pub proof fn law_poisoned_lock_is_reported<F, E>(mrtd: [u8; 48], firmware: F)
    ensures
        GcpFirmwareLookup::<F, E>::ReadCache(mrtd).after(GcpFirmwareEvent::LockPoisoned)
            == GcpFirmwareLookup::<F, E>::Done(Err(GcpFirmwareCacheError::CacheLock)),
        GcpFirmwareLookup::<F, E>::WriteCache(mrtd, firmware).after(GcpFirmwareEvent::LockPoisoned)
            == GcpFirmwareLookup::<F, E>::Done(Err(GcpFirmwareCacheError::CacheLock)),
{
}

/// What a request has come to is final.
pub proof fn law_result_is_final<F, E>(
    result: Result<F, GcpFirmwareCacheError<E>>,
    event: GcpFirmwareEvent<F, E>,
)
    ensures
        GcpFirmwareLookup::Done(result).after(event) == GcpFirmwareLookup::Done(result),
{
}

// ---- which firmware is under which MRTD ----

/// Whether every firmware in a cache is one that `endorsed` allows for the
/// MRTD it is cached for.
pub open spec fn holds_endorsed<F>(
    cache: Map<Seq<u8>, F>,
    endorsed: spec_fn(Seq<u8>, F) -> bool,
) -> bool {
    forall|mrtd: Seq<u8>| #[trigger]
        cache.contains_key(mrtd) ==> endorsed(mrtd, cache[mrtd])
}

/// Whether a request is one for `mrtd`, and what firmware it has is one that
/// `endorsed` allows for that MRTD.
pub open spec fn asks_for<F, E>(
    lookup: GcpFirmwareLookup<F, E>,
    mrtd: [u8; 48],
    endorsed: spec_fn(Seq<u8>, F) -> bool,
) -> bool {
    match lookup {
        GcpFirmwareLookup::ReadCache(m) => m == mrtd,
        GcpFirmwareLookup::Fetch(m) => m == mrtd,
        GcpFirmwareLookup::WriteCache(m, firmware) => m == mrtd && endorsed(mrtd@, firmware),
        GcpFirmwareLookup::Done(Ok(firmware)) => endorsed(mrtd@, firmware),
        GcpFirmwareLookup::Done(Err(_)) => true,
    }
}

/// A request reads, fetches and writes for the MRTD it was started with,
/// whatever it is told.
pub proof fn law_request_keeps_its_mrtd<F, E>(
    lookup: GcpFirmwareLookup<F, E>,
    mrtd: [u8; 48],
    event: GcpFirmwareEvent<F, E>,
)
    requires
        asks_for(lookup, mrtd, |m: Seq<u8>, firmware: F| true),
    ensures
        asks_for(lookup.after(event), mrtd, |m: Seq<u8>, firmware: F| true),
{
}

/// No step of any request moves a firmware from one MRTD to another: where
/// every cached firmware, what the request has, and what a fetch for its MRTD
/// gives belong to their MRTDs, they still do afterwards. This is so whatever
/// other requests did to the cache before, and with a poisoned lock too.
pub proof fn law_step_keeps_firmware_with_its_mrtd<F, E>(
    cache: Map<Seq<u8>, F>,
    lookup: GcpFirmwareLookup<F, E>,
    mrtd: [u8; 48],
    fetch: spec_fn([u8; 48]) -> Result<F, GcpFirmwareCacheError<E>>,
    poisoned: bool,
    endorsed: spec_fn(Seq<u8>, F) -> bool,
)
    requires
        holds_endorsed(cache, endorsed),
        asks_for(lookup, mrtd, endorsed),
        fetch(mrtd) matches Ok(firmware) ==> endorsed(mrtd@, firmware),
    ensures
        holds_endorsed(step(cache, lookup, fetch, poisoned).0, endorsed),
        asks_for(step(cache, lookup, fetch, poisoned).1, mrtd, endorsed),
{
}

/// No step of any request takes an MRTD out of the cache.
pub proof fn law_step_removes_nothing<F, E>(
    cache: Map<Seq<u8>, F>,
    lookup: GcpFirmwareLookup<F, E>,
    fetch: spec_fn([u8; 48]) -> Result<F, GcpFirmwareCacheError<E>>,
    poisoned: bool,
    mrtd: Seq<u8>,
)
    requires
        cache.contains_key(mrtd),
    ensures
        step(cache, lookup, fetch, poisoned).0.contains_key(mrtd),
{
}

/// Firmware fetched for one MRTD is neither stored nor returned under another:
/// where every cached firmware, and what a fetch for the requested MRTD gives,
/// belong to their MRTDs, so do every cached firmware after the request and
/// the firmware returned.
pub proof fn law_request_keeps_firmware_with_its_mrtd<F, E>(
    cache: Map<Seq<u8>, F>,
    mrtd: [u8; 48],
    fetch: spec_fn([u8; 48]) -> Result<F, GcpFirmwareCacheError<E>>,
    endorsed: spec_fn(Seq<u8>, F) -> bool,
)
    requires
        holds_endorsed(cache, endorsed),
        fetch(mrtd) matches Ok(firmware) ==> endorsed(mrtd@, firmware),
    ensures
        holds_endorsed(request(cache, mrtd, fetch).0, endorsed),
        request(cache, mrtd, fetch).1 matches GcpFirmwareLookup::Done(Ok(firmware)) ==> endorsed(
            mrtd@,
            firmware,
        ),
{
    let start = GcpFirmwareLookup::<F, E>::ReadCache(mrtd);
    let (read_cache, read) = step(cache, start, fetch, false);
    let (fetched_cache, fetched) = step(read_cache, read, fetch, false);
    law_step_keeps_firmware_with_its_mrtd(cache, start, mrtd, fetch, false, endorsed);
    law_step_keeps_firmware_with_its_mrtd(read_cache, read, mrtd, fetch, false, endorsed);
    law_step_keeps_firmware_with_its_mrtd(fetched_cache, fetched, mrtd, fetch, false, endorsed);
}

/// Requests one after the other leave every cached firmware with an MRTD it
/// belongs to, where that was so before and each fetch gives a firmware that
/// belongs to the MRTD requested.
pub proof fn law_requests_keep_firmware_with_its_mrtd<F, E>(
    cache: Map<Seq<u8>, F>,
    made: Seq<([u8; 48], spec_fn([u8; 48]) -> Result<F, GcpFirmwareCacheError<E>>)>,
    endorsed: spec_fn(Seq<u8>, F) -> bool,
)
    requires
        holds_endorsed(cache, endorsed),
        forall|i: int|
            0 <= i < made.len() ==> {
                let (mrtd, fetch) = #[trigger] made[i];
                fetch(mrtd) matches Ok(firmware) ==> endorsed(mrtd@, firmware)
            },
    ensures
        holds_endorsed(requests(cache, made), endorsed),
    decreases made.len(),
{
    if made.len() > 0 {
        let before = made.drop_last();
        assert forall|i: int| 0 <= i < before.len() implies {
            let (mrtd, fetch) = #[trigger] before[i];
            fetch(mrtd) matches Ok(firmware) ==> endorsed(mrtd@, firmware)
        } by {
            assert(before[i] == made[i]);
        }
        law_requests_keep_firmware_with_its_mrtd(cache, before, endorsed);
        let (mrtd, fetch) = made[made.len() - 1];
        law_request_keeps_firmware_with_its_mrtd(requests(cache, before), mrtd, fetch, endorsed);
    }
}

} // verus!
