//! On GCP, MRTD values map to Google-endorsed firmware.
//!
//! Firmware is fetched over the network, so the cache in front of it is driven
//! from outside: [`GcpFirmwareLookup`] says what one request for a firmware
//! does next, and is told how that went. `F` is what is known of a firmware
//! and `E` is why Google could not be asked for it; neither is looked into
//! here.

use tokio::runtime::Handle;
use vstd::prelude::*;

verus! {

/// Maps MRTD values to GCP firmware to avoid re-fetching on subsequent
/// verification.
///
/// Its view is that map, with MRTD values as byte strings.
#[derive(Debug)]
pub struct GcpFirmwareCache<F> {
    entries: Vec<([u8; 48], F)>,
}

/// Whether no MRTD has two entries.
spec fn one_entry_per_mrtd<F>(entries: Seq<([u8; 48], F)>) -> bool {
    forall|i: int, j: int|
        0 <= i < j < entries.len() ==> (#[trigger] entries[i]).0@ != (#[trigger] entries[j]).0@
}

/// Whether entry `i` is one of `mrtd`.
spec fn is_entry_of<F>(entries: Seq<([u8; 48], F)>, mrtd: Seq<u8>, i: int) -> bool {
    0 <= i < entries.len() && entries[i].0@ == mrtd
}

/// The map that entries make up.
spec fn entries_map<F>(entries: Seq<([u8; 48], F)>) -> Map<Seq<u8>, F> {
    Map::new(
        |mrtd: Seq<u8>| exists|i: int| is_entry_of(entries, mrtd, i),
        |mrtd: Seq<u8>| entries[choose|i: int| is_entry_of(entries, mrtd, i)].1,
    )
}

/// The entry of an MRTD is what the map holds for it.
proof fn lemma_entry_is_mapped<F>(entries: Seq<([u8; 48], F)>, mrtd: Seq<u8>, i: int)
    requires
        one_entry_per_mrtd(entries),
        is_entry_of(entries, mrtd, i),
    ensures
        entries_map(entries).contains_key(mrtd),
        entries_map(entries)[mrtd] == entries[i].1,
{
    let chosen = choose|j: int| is_entry_of(entries, mrtd, j);
    assert(chosen == i);
}

/// Putting an entry in place of that of its MRTD, or behind all where there is
/// none, puts it into the map.
proof fn lemma_entry_put<F>(
    entries: Seq<([u8; 48], F)>,
    position: Option<usize>,
    entry: ([u8; 48], F),
    put: Seq<([u8; 48], F)>,
)
    requires
        one_entry_per_mrtd(entries),
        match position {
            Some(i) => is_entry_of(entries, entry.0@, i as int) && put == entries.update(
                i as int,
                entry,
            ),
            None => (forall|i: int| !is_entry_of(entries, entry.0@, i)) && put == entries.push(
                entry,
            ),
        },
    ensures
        one_entry_per_mrtd(put),
        entries_map(put) == entries_map(entries).insert(entry.0@, entry.1),
{
    let at = match position {
        Some(i) => i as int,
        None => entries.len() as int,
    };
    assert(put[at] == entry);
    assert forall|i: int| 0 <= i < entries.len() && i != at implies #[trigger] put[i] == entries[i]
        && put[i].0@ != entry.0@ by {
        assert(!is_entry_of(entries, entry.0@, i));
    }
    assert(one_entry_per_mrtd(put));
    let map = entries_map(entries).insert(entry.0@, entry.1);
    assert forall|mrtd: Seq<u8>| #[trigger]
        entries_map(put).contains_key(mrtd) <==> map.contains_key(mrtd) by {
        if entries_map(put).contains_key(mrtd) {
            let i = choose|i: int| is_entry_of(put, mrtd, i);
            if i != at {
                assert(is_entry_of(entries, mrtd, i));
            }
        }
        if mrtd == entry.0@ {
            assert(is_entry_of(put, mrtd, at));
        } else if map.contains_key(mrtd) {
            let i = choose|i: int| is_entry_of(entries, mrtd, i);
            assert(i != at);
            assert(is_entry_of(put, mrtd, i));
        }
    }
    assert forall|mrtd: Seq<u8>| #[trigger] entries_map(put).contains_key(mrtd) implies entries_map(
        put,
    )[mrtd] == map[mrtd] by {
        let i = choose|i: int| is_entry_of(put, mrtd, i);
        lemma_entry_is_mapped(put, mrtd, i);
        if i != at {
            lemma_entry_is_mapped(entries, mrtd, i);
        }
    }
    assert(entries_map(put) =~= map);
}

impl<F> View for GcpFirmwareCache<F> {
    type V = Map<Seq<u8>, F>;

    closed spec fn view(&self) -> Map<Seq<u8>, F> {
        entries_map(self.entries@)
    }
}

impl<F> GcpFirmwareCache<F> {
    #[verifier::type_invariant]
    closed spec fn wf(self) -> bool {
        one_entry_per_mrtd(self.entries@)
    }

    /// An empty cache.
    pub fn new() -> (cache: Self)
        ensures
            cache@ == Map::<Seq<u8>, F>::empty(),
    {
        let cache = GcpFirmwareCache { entries: Vec::new() };
        assert(cache@ =~= Map::<Seq<u8>, F>::empty());
        cache
    }

    /// Where the entry of `mrtd` is.
    fn position(&self, mrtd: &[u8; 48]) -> (position: Option<usize>)
        ensures
            match position {
                Some(i) => is_entry_of(self.entries@, mrtd@, i as int),
                None => forall|i: int| !is_entry_of(self.entries@, mrtd@, i),
            },
    {
        for i in 0..self.entries.len()
            invariant
                forall|j: int| 0 <= j < i ==> !is_entry_of(self.entries@, mrtd@, j),
        {
            if crate::bytes::bytes_equal(self.entries[i].0.as_slice(), mrtd.as_slice()) {
                return Some(i);
            }
        }
        None
    }

    /// The firmware cached for `mrtd`.
    pub fn get(&self, mrtd: &[u8; 48]) -> (firmware: Option<&F>)
        ensures
            match firmware {
                Some(firmware) => self@.contains_key(mrtd@) && *firmware == self@[mrtd@],
                None => !self@.contains_key(mrtd@),
            },
    {
        proof {
            use_type_invariant(self);
        }
        match self.position(mrtd) {
            Some(i) => {
                proof {
                    lemma_entry_is_mapped(self.entries@, mrtd@, i as int);
                }
                Some(&self.entries[i].1)
            },
            None => None,
        }
    }

    /// Cache `firmware` for `mrtd`, in place of what was cached for it.
    pub fn insert(&mut self, mrtd: [u8; 48], firmware: F)
        ensures
            final(self)@ == old(self)@.insert(mrtd@, firmware),
    {
        proof {
            use_type_invariant(&*self);
        }
        let position = self.position(&mrtd);
        let mut entries = Vec::new();
        std::mem::swap(&mut entries, &mut self.entries);
        match position {
            Some(i) => {
                entries[i] = (mrtd, firmware);
            },
            None => {
                entries.push((mrtd, firmware));
            },
        }
        proof {
            lemma_entry_put(old(self).entries@, position, (mrtd, firmware), entries@);
        }
        self.entries = entries;
    }
}

/// Why a firmware could not be had.
#[derive(Debug)]
pub enum GcpFirmwareCacheError<E> {
    /// The lock around the cache is poisoned.
    CacheLock,
    /// Google could not be asked.
    Firmware(E),
    /// The task that was to ask did not finish; the text says why.
    Join(String),
}

/// One request for the firmware of an MRTD: what it does next.
///
/// The cache is not locked while the firmware is fetched.
#[derive(Debug)]
pub enum GcpFirmwareLookup<F, E> {
    /// Read what the cache holds for this MRTD.
    ReadCache([u8; 48]),
    /// Fetch the firmware of this MRTD.
    Fetch([u8; 48]),
    /// Write this firmware into the cache for this MRTD.
    WriteCache([u8; 48], F),
    /// Return this.
    Done(Result<F, GcpFirmwareCacheError<E>>),
}

/// How the last step of a request went.
#[derive(Debug)]
pub enum GcpFirmwareEvent<F, E> {
    /// The cache was read and held this.
    CacheRead(Option<F>),
    /// The lock around the cache is poisoned.
    LockPoisoned,
    /// The fetch came back with this.
    Fetched(Result<F, GcpFirmwareCacheError<E>>),
    /// The cache was written.
    CacheWritten,
}

impl<F, E> GcpFirmwareLookup<F, E> {
    /// What a request does after `event`. An event that does not answer what
    /// the request last asked for leaves it as it is.
    pub open spec fn after(self, event: GcpFirmwareEvent<F, E>) -> Self {
        match (self, event) {
            (GcpFirmwareLookup::ReadCache(_), GcpFirmwareEvent::CacheRead(Some(firmware))) => {
                GcpFirmwareLookup::Done(Ok(firmware))
            },
            (GcpFirmwareLookup::ReadCache(mrtd), GcpFirmwareEvent::CacheRead(None)) => {
                GcpFirmwareLookup::Fetch(mrtd)
            },
            (GcpFirmwareLookup::ReadCache(_), GcpFirmwareEvent::LockPoisoned)
            | (GcpFirmwareLookup::WriteCache(_, _), GcpFirmwareEvent::LockPoisoned) => {
                GcpFirmwareLookup::Done(Err(GcpFirmwareCacheError::CacheLock))
            },
            (GcpFirmwareLookup::Fetch(mrtd), GcpFirmwareEvent::Fetched(Ok(firmware))) => {
                GcpFirmwareLookup::WriteCache(mrtd, firmware)
            },
            (GcpFirmwareLookup::Fetch(_), GcpFirmwareEvent::Fetched(Err(error))) => {
                GcpFirmwareLookup::Done(Err(error))
            },
            (GcpFirmwareLookup::WriteCache(_, firmware), GcpFirmwareEvent::CacheWritten) => {
                GcpFirmwareLookup::Done(Ok(firmware))
            },
            (lookup, _) => lookup,
        }
    }

    /// A new request for the firmware of `mrtd`.
    pub fn start(mrtd: [u8; 48]) -> (lookup: Self)
        ensures
            lookup == GcpFirmwareLookup::<F, E>::ReadCache(mrtd),
    {
        GcpFirmwareLookup::ReadCache(mrtd)
    }

    /// Go on after `event`.
    pub fn advance(self, event: GcpFirmwareEvent<F, E>) -> (lookup: Self)
        ensures
            lookup == self.after(event),
    {
        match self {
            GcpFirmwareLookup::ReadCache(mrtd) => match event {
                GcpFirmwareEvent::CacheRead(Some(firmware)) => GcpFirmwareLookup::Done(
                    Ok(firmware),
                ),
                GcpFirmwareEvent::CacheRead(None) => GcpFirmwareLookup::Fetch(mrtd),
                GcpFirmwareEvent::LockPoisoned => GcpFirmwareLookup::Done(
                    Err(GcpFirmwareCacheError::CacheLock),
                ),
                _ => GcpFirmwareLookup::ReadCache(mrtd),
            },
            GcpFirmwareLookup::Fetch(mrtd) => match event {
                GcpFirmwareEvent::Fetched(Ok(firmware)) => GcpFirmwareLookup::WriteCache(
                    mrtd,
                    firmware,
                ),
                GcpFirmwareEvent::Fetched(Err(error)) => GcpFirmwareLookup::Done(Err(error)),
                _ => GcpFirmwareLookup::Fetch(mrtd),
            },
            GcpFirmwareLookup::WriteCache(mrtd, firmware) => match event {
                GcpFirmwareEvent::CacheWritten => GcpFirmwareLookup::Done(Ok(firmware)),
                GcpFirmwareEvent::LockPoisoned => GcpFirmwareLookup::Done(
                    Err(GcpFirmwareCacheError::CacheLock),
                ),
                _ => GcpFirmwareLookup::WriteCache(mrtd, firmware),
            },
            GcpFirmwareLookup::Done(result) => GcpFirmwareLookup::Done(result),
        }
    }
}

// ---- fetching ----

/// The kind of async runtime that a thread runs in.
#[derive(Debug)]
pub enum RuntimeFlavor {
    CurrentThread,
    MultiThread,
    Other,
}

/// How the blocking request to Google is made.
#[derive(Debug)]
pub enum FetchRoute {
    /// On a thread for blocking work, so that the runtime's other tasks go on.
    Offloaded,
    /// On the calling thread.
    Direct,
}

/// How to fetch, with the runtime that this was decided for.
#[derive(Debug)]
pub enum FetchPlan {
    /// Offloaded, waiting on the runtime of this handle.
    Offloaded(Handle),
    /// Directly: in the runtime of this handle, or outside of one.
    Direct(Option<Handle>),
}

impl FetchPlan {
    /// The runtime that the plan was made for, `None` outside of one.
    pub open spec fn handle(self) -> Option<Handle> {
        match self {
            FetchPlan::Offloaded(handle) => Some(handle),
            FetchPlan::Direct(handle) => handle,
        }
    }

    /// The way to fetch.
    pub open spec fn route(self) -> FetchRoute {
        match self {
            FetchPlan::Offloaded(_) => FetchRoute::Offloaded,
            FetchPlan::Direct(_) => FetchRoute::Direct,
        }
    }
}

/// A handle to an async runtime.
#[verifier::external_type_specification]
#[verifier::external_body]
pub struct ExHandle(Handle);

/// The flavor of the runtime that a handle is one of.
pub uninterp spec fn handle_flavor(handle: Handle) -> RuntimeFlavor;

/// `tokio::runtime::Handle::runtime_flavor`: the flavor of the runtime that
/// the handle is one of, which depends on the handle alone.
#[verifier::external_body]
fn runtime_flavor(handle: &Handle) -> (flavor: RuntimeFlavor)
    ensures
        flavor == handle_flavor(*handle),
{
    match handle.runtime_flavor() {
        tokio::runtime::RuntimeFlavor::CurrentThread => RuntimeFlavor::CurrentThread,
        tokio::runtime::RuntimeFlavor::MultiThread => RuntimeFlavor::MultiThread,
        _ => RuntimeFlavor::Other,
    }
}

/// `tokio::runtime::Handle::try_current`: a handle to the runtime that the
/// calling thread is in, `None` outside of one.
///
/// Nothing is claimed of the result: it depends on the calling thread.
#[verifier::external_body]
fn current_handle() -> (handle: Option<Handle>) {
    Handle::try_current().ok()
}

/// The flavor of the runtime of a handle, `None` outside of one.
pub open spec fn runtime_of(handle: Option<Handle>) -> Option<RuntimeFlavor> {
    match handle {
        Some(handle) => Some(handle_flavor(handle)),
        None => None,
    }
}

/// The way to fetch in a runtime: offloaded where the runtime has several
/// threads, and directly in any other and outside of one.
pub open spec fn route_in(runtime: Option<RuntimeFlavor>) -> FetchRoute {
    if runtime == Some(RuntimeFlavor::MultiThread) {
        FetchRoute::Offloaded
    } else {
        FetchRoute::Direct
    }
}

/// Choose the way to fetch in a runtime.
pub fn fetch_route(runtime: &Option<RuntimeFlavor>) -> (route: FetchRoute)
    ensures
        route == route_in(*runtime),
        route == FetchRoute::Offloaded <==> *runtime == Some(RuntimeFlavor::MultiThread),
{
    match runtime {
        Some(RuntimeFlavor::MultiThread) => FetchRoute::Offloaded,
        _ => FetchRoute::Direct,
    }
}

/// Choose how to fetch in the runtime of `handle`, or outside of one.
pub fn plan_fetch_in(handle: Option<Handle>) -> (plan: FetchPlan)
    ensures
        plan.handle() == handle,
        plan.route() == route_in(runtime_of(handle)),
        match handle {
            Some(handle) => if handle_flavor(handle) == RuntimeFlavor::MultiThread {
                plan == FetchPlan::Offloaded(handle)
            } else {
                plan == FetchPlan::Direct(Some(handle))
            },
            None => plan == FetchPlan::Direct(None),
        },
{
    match handle {
        Some(handle) => match fetch_route(&Some(runtime_flavor(&handle))) {
            FetchRoute::Offloaded => FetchPlan::Offloaded(handle),
            FetchRoute::Direct => FetchPlan::Direct(Some(handle)),
        },
        None => FetchPlan::Direct(None),
    }
}

/// Choose how to fetch on the calling thread.
///
/// This is [`plan_fetch_in`] the runtime that the thread is in; which one that
/// is, is left open. The request is offloaded exactly where the plan's handle
/// is one of a runtime with several threads.
pub fn plan_fetch() -> (plan: FetchPlan)
    ensures
        plan.route() == route_in(runtime_of(plan.handle())),
        plan matches FetchPlan::Offloaded(handle) ==> handle_flavor(handle)
            == RuntimeFlavor::MultiThread,
        plan matches FetchPlan::Direct(Some(handle)) ==> handle_flavor(handle)
            != RuntimeFlavor::MultiThread,
{
    plan_fetch_in(current_handle())
}

/// The outcome of a request made on the calling thread.
pub fn direct_outcome<F, E>(fetched: Result<F, E>) -> (outcome: Result<
    F,
    GcpFirmwareCacheError<E>,
>)
    ensures
        match fetched {
            Ok(firmware) => outcome == Ok::<_, GcpFirmwareCacheError<E>>(firmware),
            Err(error) => outcome == Err::<F, _>(GcpFirmwareCacheError::Firmware(error)),
        },
{
    match fetched {
        Ok(firmware) => Ok(firmware),
        Err(error) => Err(GcpFirmwareCacheError::Firmware(error)),
    }
}

/// The outcome of a request made on a thread for blocking work: `joined` is
/// what the request came back with, or why its task did not finish.
pub fn offloaded_outcome<F, E>(joined: Result<Result<F, E>, String>) -> (outcome: Result<
    F,
    GcpFirmwareCacheError<E>,
>)
    ensures
        match joined {
            Ok(Ok(firmware)) => outcome == Ok::<_, GcpFirmwareCacheError<E>>(firmware),
            Ok(Err(error)) => outcome == Err::<F, _>(GcpFirmwareCacheError::Firmware(error)),
            Err(text) => outcome == Err::<F, _>(GcpFirmwareCacheError::<E>::Join(text)),
        },
{
    match joined {
        Ok(fetched) => direct_outcome(fetched),
        Err(text) => Err(GcpFirmwareCacheError::Join(text)),
    }
}

} // verus!
