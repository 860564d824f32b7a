use attestation::gcp::firmware::{
    direct_outcome, fetch_route, offloaded_outcome, plan_fetch, plan_fetch_in, FetchPlan,
    FetchRoute, GcpFirmwareCache, GcpFirmwareCacheError, GcpFirmwareEvent, GcpFirmwareLookup,
    RuntimeFlavor,
};

type Lookup = GcpFirmwareLookup<&'static str, u8>;
type Event = GcpFirmwareEvent<&'static str, u8>;

/// Run one request, counting the fetches.
fn request(
    cache: &mut GcpFirmwareCache<&'static str>,
    mrtd: [u8; 48],
    fetched: Result<&'static str, GcpFirmwareCacheError<u8>>,
    fetches: &mut usize,
) -> Result<&'static str, GcpFirmwareCacheError<u8>> {
    let mut fetched = Some(fetched);
    let mut lookup = Lookup::start(mrtd);
    loop {
        let event = match &lookup {
            GcpFirmwareLookup::ReadCache(mrtd) => Event::CacheRead(cache.get(mrtd).copied()),
            GcpFirmwareLookup::Fetch(asked) => {
                assert_eq!(*asked, mrtd);
                *fetches += 1;
                Event::Fetched(fetched.take().unwrap())
            }
            GcpFirmwareLookup::WriteCache(mrtd, firmware) => {
                cache.insert(*mrtd, *firmware);
                Event::CacheWritten
            }
            GcpFirmwareLookup::Done(_) => break,
        };
        lookup = lookup.advance(event);
    }
    match lookup {
        GcpFirmwareLookup::Done(result) => result,
        _ => unreachable!(),
    }
}

#[test]
fn cache_holds_what_was_inserted_last() {
    let mut cache = GcpFirmwareCache::new();
    let mut other = [7; 48];
    other[47] = 8;
    assert_eq!(cache.get(&[7; 48]), None);
    cache.insert([7; 48], "a");
    assert_eq!(cache.get(&[7; 48]), Some(&"a"));
    assert_eq!(cache.get(&other), None);
    cache.insert(other, "b");
    cache.insert([7; 48], "c");
    assert_eq!(cache.get(&[7; 48]), Some(&"c"));
    assert_eq!(cache.get(&other), Some(&"b"));
}

#[test]
fn firmware_is_fetched_once() {
    let mut cache = GcpFirmwareCache::new();
    let mut fetches = 0;
    assert_eq!(request(&mut cache, [1; 48], Ok("a"), &mut fetches).unwrap(), "a");
    assert_eq!(request(&mut cache, [2; 48], Ok("b"), &mut fetches).unwrap(), "b");
    assert_eq!(fetches, 2);
    assert_eq!(request(&mut cache, [1; 48], Ok("c"), &mut fetches).unwrap(), "a");
    assert_eq!(fetches, 2);
}

#[test]
fn firmware_stays_with_its_mrtd() {
    let mut cache = GcpFirmwareCache::new();
    let mut fetches = 0;
    let mut other = [1; 48];
    other[0] = 2;
    cache.insert([9; 48], "z");
    request(&mut cache, [1; 48], Ok("a"), &mut fetches).unwrap();
    request(&mut cache, other, Ok("b"), &mut fetches).unwrap();
    assert_eq!(cache.get(&[1; 48]), Some(&"a"));
    assert_eq!(cache.get(&other), Some(&"b"));
    assert_eq!(cache.get(&[9; 48]), Some(&"z"));
    assert_eq!(request(&mut cache, other, Ok("c"), &mut fetches).unwrap(), "b");
    assert_eq!(request(&mut cache, [1; 48], Ok("c"), &mut fetches).unwrap(), "a");
    assert_eq!(fetches, 2);
}

#[test]
fn interleaved_requests_do_not_mix_up_firmware() {
    let first = Lookup::start([1; 48]).advance(Event::CacheRead(None));
    let second = Lookup::start([2; 48]).advance(Event::CacheRead(None));
    let second = second.advance(Event::Fetched(Ok("b")));
    let first = first.advance(Event::Fetched(Ok("a")));
    assert!(matches!(&first, GcpFirmwareLookup::WriteCache(mrtd, "a") if *mrtd == [1; 48]));
    assert!(matches!(&second, GcpFirmwareLookup::WriteCache(mrtd, "b") if *mrtd == [2; 48]));
    assert!(matches!(first.advance(Event::CacheWritten), GcpFirmwareLookup::Done(Ok("a"))));
    assert!(matches!(second.advance(Event::CacheWritten), GcpFirmwareLookup::Done(Ok("b"))));
}

#[test]
fn failed_fetch_is_returned_and_not_cached() {
    let mut cache = GcpFirmwareCache::new();
    let mut fetches = 0;
    let failed = request(
        &mut cache,
        [1; 48],
        Err(GcpFirmwareCacheError::Firmware(9)),
        &mut fetches,
    );
    assert!(matches!(failed, Err(GcpFirmwareCacheError::Firmware(9))));
    assert_eq!(cache.get(&[1; 48]), None);
    assert_eq!(request(&mut cache, [1; 48], Ok("a"), &mut fetches).unwrap(), "a");
    assert_eq!(fetches, 2);
}

#[test]
fn poisoned_lock_is_reported() {
    let reading = Lookup::start([1; 48]).advance(Event::LockPoisoned);
    assert!(matches!(reading, GcpFirmwareLookup::Done(Err(GcpFirmwareCacheError::CacheLock))));
    let writing = Lookup::start([1; 48])
        .advance(Event::CacheRead(None))
        .advance(Event::Fetched(Ok("a")))
        .advance(Event::LockPoisoned);
    assert!(matches!(writing, GcpFirmwareLookup::Done(Err(GcpFirmwareCacheError::CacheLock))));
}

#[test]
fn events_that_answer_nothing_change_nothing() {
    let lookup = Lookup::start([1; 48]).advance(Event::CacheWritten);
    assert!(matches!(lookup, GcpFirmwareLookup::ReadCache(mrtd) if mrtd == [1; 48]));
    let lookup = lookup.advance(Event::CacheRead(None)).advance(Event::LockPoisoned);
    assert!(matches!(lookup, GcpFirmwareLookup::Fetch(mrtd) if mrtd == [1; 48]));
    let lookup = lookup.advance(Event::Fetched(Ok("a"))).advance(Event::CacheRead(None));
    assert!(matches!(lookup, GcpFirmwareLookup::WriteCache(mrtd, "a") if mrtd == [1; 48]));
    let lookup = lookup.advance(Event::CacheWritten).advance(Event::LockPoisoned);
    assert!(matches!(lookup, GcpFirmwareLookup::Done(Ok("a"))));
}

#[test]
fn only_a_multi_threaded_runtime_offloads() {
    assert!(matches!(fetch_route(&Some(RuntimeFlavor::MultiThread)), FetchRoute::Offloaded));
    assert!(matches!(fetch_route(&Some(RuntimeFlavor::CurrentThread)), FetchRoute::Direct));
    assert!(matches!(fetch_route(&Some(RuntimeFlavor::Other)), FetchRoute::Direct));
    assert!(matches!(fetch_route(&None), FetchRoute::Direct));
}

#[test]
fn plans_for_the_runtime_of_the_calling_thread() {
    assert!(matches!(plan_fetch(), FetchPlan::Direct(None)));

    let several = tokio::runtime::Builder::new_multi_thread().worker_threads(1).build().unwrap();
    match several.block_on(async { plan_fetch() }) {
        FetchPlan::Offloaded(handle) => assert_eq!(handle.id(), several.handle().id()),
        other => panic!("unexpected plan {other:?}"),
    }

    let single = tokio::runtime::Builder::new_current_thread().build().unwrap();
    match single.block_on(async { plan_fetch() }) {
        FetchPlan::Direct(Some(handle)) => assert_eq!(handle.id(), single.handle().id()),
        other => panic!("unexpected plan {other:?}"),
    }
}

#[test]
fn plans_for_the_runtime_of_a_handle() {
    let several = tokio::runtime::Builder::new_multi_thread().worker_threads(1).build().unwrap();
    let single = tokio::runtime::Builder::new_current_thread().build().unwrap();
    match plan_fetch_in(Some(several.handle().clone())) {
        FetchPlan::Offloaded(handle) => assert_eq!(handle.id(), several.handle().id()),
        other => panic!("unexpected plan {other:?}"),
    }
    match plan_fetch_in(Some(single.handle().clone())) {
        FetchPlan::Direct(Some(handle)) => assert_eq!(handle.id(), single.handle().id()),
        other => panic!("unexpected plan {other:?}"),
    }
    assert!(matches!(plan_fetch_in(None), FetchPlan::Direct(None)));
}

#[test]
fn fetch_outcomes_keep_their_cause() {
    assert_eq!(direct_outcome::<_, u8>(Ok(5)).unwrap(), 5);
    assert!(matches!(
        direct_outcome::<u8, _>(Err("no")),
        Err(GcpFirmwareCacheError::Firmware("no"))
    ));
    assert_eq!(offloaded_outcome::<_, u8>(Ok(Ok(5))).unwrap(), 5);
    assert!(matches!(
        offloaded_outcome::<u8, _>(Ok(Err("no"))),
        Err(GcpFirmwareCacheError::Firmware("no"))
    ));
    match offloaded_outcome::<u8, u8>(Err(String::from("panicked"))) {
        Err(GcpFirmwareCacheError::Join(text)) => assert_eq!(text, "panicked"),
        other => panic!("unexpected outcome {other:?}"),
    }
}
