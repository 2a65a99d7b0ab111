use onedrive_slideshow::cache::enough_space;
use onedrive_slideshow::cache::first_file;
use onedrive_slideshow::cache::volume_of;
use onedrive_slideshow::cache::CacheAction;
use onedrive_slideshow::cache::CacheError;
use onedrive_slideshow::cache::CacheReport;
use onedrive_slideshow::cache::DirEntry;
use onedrive_slideshow::cache::LocalCache;
use onedrive_slideshow::cache::Retrieval;
use onedrive_slideshow::http::HttpError;
use onedrive_slideshow::transport::FailureKind;

/// A volume of `total` bytes of which `other` are taken by what is not in the
/// cache, and the cache's directory on it, in the order in which it is listed.
struct Volume {
    total: u64,
    other: u64,
    directory: Option<Vec<(String, Option<Vec<u8>>)>>,
    removed: Vec<String>,
    written: Vec<String>,
    read_only: bool,
}

fn volume(total: u64, other: u64) -> Volume {
    Volume {
        total,
        other,
        directory: Some(Vec::new()),
        removed: Vec::new(),
        written: Vec::new(),
        read_only: false,
    }
}

fn free(volume: &Volume) -> u64 {
    let cached: u64 = volume
        .directory
        .iter()
        .flatten()
        .map(|(_, content)| content.as_ref().map_or(0, |bytes| bytes.len() as u64))
        .sum();
    volume.total - volume.other - cached
}

fn file<'a>(volume: &'a Volume, name: &str) -> Option<&'a Vec<u8>> {
    volume
        .directory
        .iter()
        .flatten()
        .find(|(n, content)| n == name && content.is_some())
        .and_then(|(_, content)| content.as_ref())
}

/// Serves one caller from the cache on `volume`, fetching with `fetch_fn`.
fn get_or_fetch(
    cache: &LocalCache,
    volume: &mut Volume,
    key: &str,
    fetch_fn: &mut dyn FnMut(&str) -> Result<Vec<u8>, HttpError>,
) -> Result<Vec<u8>, CacheError> {
    let mut retrieval = Retrieval::new();
    let mut action = cache.get_or_fetch(&mut retrieval, CacheReport::Wanted(key.to_string()));
    for _ in 0..1000 {
        let event = match action {
            CacheAction::Done(result) => return result,
            CacheAction::Probe(name) => CacheReport::Probed(file(volume, &name).is_some()),
            CacheAction::Load(name) => CacheReport::Loaded(file(volume, &name).cloned()),
            CacheAction::Fetch(name) => CacheReport::Fetched(fetch_fn(&name)),
            CacheAction::EnsureDirectory => {
                if volume.directory.is_none() && !volume.read_only {
                    volume.directory = Some(Vec::new());
                }
                CacheReport::DirectoryReady(volume.directory.is_some())
            }
            CacheAction::Measure => CacheReport::Measured(Some((free(volume), volume.total))),
            CacheAction::List => CacheReport::Listed(volume.directory.as_ref().map(|entries| {
                entries
                    .iter()
                    .map(|(name, content)| DirEntry {
                        name: name.clone(),
                        is_file: content.is_some(),
                    })
                    .collect()
            })),
            CacheAction::Remove(name) => {
                let entries = volume.directory.as_mut().unwrap();
                let before = entries.len();
                if !volume.read_only {
                    entries.retain(|(n, _)| *n != name);
                }
                let done = entries.len() < before;
                if done {
                    volume.removed.push(name);
                }
                CacheReport::Removed(done)
            }
            CacheAction::Write(name, bytes) => {
                if volume.read_only {
                    CacheReport::Written(false)
                } else {
                    let entries = volume.directory.as_mut().unwrap();
                    entries.retain(|(n, _)| *n != name);
                    entries.push((name.clone(), Some(bytes)));
                    volume.written.push(name);
                    CacheReport::Written(true)
                }
            }
        };
        action = cache.get_or_fetch(&mut retrieval, event);
    }
    panic!("the cache does not come to an end");
}

fn cache() -> LocalCache {
    LocalCache::new("/tmp/onedrive_slideshow".to_string())
}

#[test]
fn same_key_is_fetched_once() {
    let cache = cache();
    let mut volume = volume(1000, 0);
    let mut fetched = Vec::new();
    let mut fetch = |key: &str| {
        fetched.push(key.to_string());
        Ok(vec![b'0'])
    };
    assert_eq!(get_or_fetch(&cache, &mut volume, "1", &mut fetch), Ok(vec![b'0']));
    assert_eq!(get_or_fetch(&cache, &mut volume, "1", &mut fetch), Ok(vec![b'0']));
    assert_eq!(fetched, vec!["1".to_string()]);
    assert_eq!(volume.written, vec!["1".to_string()]);
}

#[test]
fn two_keys_are_fetched_twice() {
    let cache = cache();
    let mut volume = volume(1000, 0);
    let mut fetched = Vec::new();
    let mut fetch = |key: &str| {
        fetched.push(key.to_string());
        Ok(key.as_bytes().to_vec())
    };
    assert_eq!(get_or_fetch(&cache, &mut volume, "1", &mut fetch), Ok(b"1".to_vec()));
    assert_eq!(get_or_fetch(&cache, &mut volume, "2", &mut fetch), Ok(b"2".to_vec()));
    assert_eq!(get_or_fetch(&cache, &mut volume, "1", &mut fetch), Ok(b"1".to_vec()));
    assert_eq!(fetched, vec!["1".to_string(), "2".to_string()]);
}

#[test]
fn bytes_come_back_as_they_were_written() {
    let cache = cache();
    let mut volume = volume(1_000_000, 0);
    let bytes: Vec<u8> = (0..=255u8).cycle().take(70_000).collect();
    let copy = bytes.clone();
    let mut fetch = move |_: &str| Ok(copy.clone());
    assert_eq!(get_or_fetch(&cache, &mut volume, "K", &mut fetch), Ok(bytes.clone()));
    assert_eq!(file(&volume, "K"), Some(&bytes));
    let mut never = |_: &str| panic!("fetched again");
    assert_eq!(get_or_fetch(&cache, &mut volume, "K", &mut never), Ok(bytes.clone()));
    // A file that was there before is served as it is, too.
    volume.directory.as_mut().unwrap().push(("old".to_string(), Some(vec![1, 2, 3])));
    assert_eq!(get_or_fetch(&cache, &mut volume, "old", &mut never), Ok(vec![1, 2, 3]));
    // An empty item is an item.
    let mut empty = |_: &str| Ok(Vec::new());
    assert_eq!(get_or_fetch(&cache, &mut volume, "empty", &mut empty), Ok(Vec::new()));
    assert_eq!(get_or_fetch(&cache, &mut volume, "empty", &mut never), Ok(Vec::new()));
}

#[test]
fn shortage_evicts_before_the_write() {
    let cache = cache();
    // 1000 bytes, 850 of them taken outside the cache, 100 inside: 50 free.
    let mut volume = volume(1000, 850);
    let entries = volume.directory.as_mut().unwrap();
    entries.push(("sub".to_string(), None));
    entries.push(("a".to_string(), Some(vec![0; 40])));
    entries.push(("b".to_string(), Some(vec![0; 40])));
    entries.push(("c".to_string(), Some(vec![0; 20])));
    let mut fetch = |_: &str| Ok(vec![7; 10]);
    assert_eq!(get_or_fetch(&cache, &mut volume, "new", &mut fetch), Ok(vec![7; 10]));
    // The first files of the listing go until a tenth is free; the directory
    // is passed over.
    assert_eq!(volume.removed, vec!["a".to_string(), "b".to_string()]);
    assert_eq!(volume.written, vec!["new".to_string()]);
    assert!(file(&volume, "c").is_some());
    assert_eq!(file(&volume, "new"), Some(&vec![7; 10]));
    assert!(volume.directory.as_ref().unwrap().iter().any(|(name, _)| name == "sub"));
}

#[test]
fn shortage_with_nothing_to_evict_is_an_error() {
    let cache = cache();
    let mut volume = volume(1000, 950);
    let mut fetch = |_: &str| Ok(vec![7; 10]);
    assert_eq!(
        get_or_fetch(&cache, &mut volume, "new", &mut fetch),
        Err(CacheError::NothingToEvict)
    );
    assert!(volume.written.is_empty());
    // Directories do not count as files to delete.
    volume.directory.as_mut().unwrap().push(("sub".to_string(), None));
    assert_eq!(
        get_or_fetch(&cache, &mut volume, "new", &mut fetch),
        Err(CacheError::NothingToEvict)
    );
    assert!(volume.written.is_empty());
    assert!(volume.removed.is_empty());
    // Deleting everything may still not be enough.
    volume.directory.as_mut().unwrap().push(("a".to_string(), Some(vec![0; 10])));
    assert_eq!(
        get_or_fetch(&cache, &mut volume, "new", &mut fetch),
        Err(CacheError::NothingToEvict)
    );
    assert_eq!(volume.removed, vec!["a".to_string()]);
    assert!(volume.written.is_empty());
}

#[test]
fn a_tenth_of_the_volume_is_enough() {
    assert!(enough_space(100, 1000));
    assert!(!enough_space(99, 1000));
    assert!(enough_space(1, 10));
    assert!(!enough_space(0, 10));
    assert!(enough_space(1, 1));
    assert!(!enough_space(0, 1));
    assert!(enough_space(2, 11));
    assert!(!enough_space(1, 11));
    assert!(enough_space(1000, 1000));
    assert!(!enough_space(0, 0));
    assert!(enough_space(u64::MAX, u64::MAX));
    assert!(enough_space(u64::MAX / 10 + 1, u64::MAX));
    assert!(!enough_space(u64::MAX / 10, u64::MAX));
}

#[test]
fn exactly_a_tenth_free_needs_no_eviction() {
    let cache = cache();
    let mut volume = volume(1000, 880);
    volume.directory.as_mut().unwrap().push(("a".to_string(), Some(vec![0; 20])));
    let mut fetch = |_: &str| Ok(vec![7; 10]);
    assert_eq!(get_or_fetch(&cache, &mut volume, "new", &mut fetch), Ok(vec![7; 10]));
    assert!(volume.removed.is_empty());
    // Now 90 bytes are free: the next item makes room first.
    assert_eq!(get_or_fetch(&cache, &mut volume, "more", &mut fetch), Ok(vec![7; 10]));
    assert_eq!(volume.removed, vec!["a".to_string()]);
}

#[test]
fn first_file_passes_over_directories() {
    let entry = |name: &str, is_file: bool| DirEntry { name: name.to_string(), is_file };
    assert_eq!(first_file(&vec![]), None);
    assert_eq!(first_file(&vec![entry("d", false)]), None);
    assert_eq!(first_file(&vec![entry("f", true)]), Some(0));
    assert_eq!(first_file(&vec![entry("d", false), entry("e", false), entry("f", true)]), Some(2));
    assert_eq!(first_file(&vec![entry("d", false), entry("f", true), entry("g", true)]), Some(1));
}

#[test]
fn failed_fetch_is_passed_on_and_nothing_is_written() {
    let cache = cache();
    let mut volume = volume(1000, 0);
    let mut fetch = |_: &str| Err(HttpError::RequestFailed(FailureKind::Timeout));
    assert_eq!(
        get_or_fetch(&cache, &mut volume, "1", &mut fetch),
        Err(CacheError::Fetch(HttpError::RequestFailed(FailureKind::Timeout)))
    );
    assert!(volume.written.is_empty());
    assert!(file(&volume, "1").is_none());
}

#[test]
fn failed_write_is_an_error_though_the_item_was_fetched() {
    let cache = cache();
    let mut volume = volume(1000, 0);
    volume.read_only = true;
    let mut fetches = 0;
    let mut fetch = |_: &str| {
        fetches += 1;
        Ok(vec![1])
    };
    assert_eq!(get_or_fetch(&cache, &mut volume, "1", &mut fetch), Err(CacheError::Write));
    assert_eq!(fetches, 1);
}

#[test]
fn missing_directory_is_made_or_the_retrieval_fails() {
    let cache = cache();
    let mut volume = volume(1000, 0);
    volume.directory = None;
    let mut fetch = |_: &str| Ok(vec![1]);
    assert_eq!(get_or_fetch(&cache, &mut volume, "1", &mut fetch), Ok(vec![1]));
    assert!(volume.directory.is_some());

    let mut volume = self::volume(1000, 0);
    volume.directory = None;
    volume.read_only = true;
    assert_eq!(get_or_fetch(&cache, &mut volume, "1", &mut fetch), Err(CacheError::Directory));
}

#[test]
fn each_failure_has_its_error() {
    let cache = cache();
    let step = |events: Vec<CacheReport>| {
        let mut retrieval = Retrieval::new();
        let mut last = None;
        for event in events {
            last = Some(cache.get_or_fetch(&mut retrieval, event));
        }
        (last.unwrap(), retrieval)
    };
    let wanted = || CacheReport::Wanted("k".to_string());
    let fetched = || CacheReport::Fetched(Ok(vec![1, 2]));
    let idle = Retrieval::new();

    let (action, retrieval) = step(vec![wanted(), CacheReport::Probed(true), CacheReport::Loaded(None)]);
    assert_eq!(action, CacheAction::Done(Err(CacheError::Load)));
    assert_eq!(retrieval, idle);

    let (action, _) = step(vec![
        wanted(),
        CacheReport::Probed(false),
        fetched(),
        CacheReport::DirectoryReady(true),
        CacheReport::Measured(None),
    ]);
    assert_eq!(action, CacheAction::Done(Err(CacheError::Measure)));

    let (action, _) = step(vec![
        wanted(),
        CacheReport::Probed(false),
        fetched(),
        CacheReport::DirectoryReady(true),
        CacheReport::Measured(Some((0, 100))),
        CacheReport::Listed(None),
    ]);
    assert_eq!(action, CacheAction::Done(Err(CacheError::List)));

    let (action, retrieval) = step(vec![
        wanted(),
        CacheReport::Probed(false),
        fetched(),
        CacheReport::DirectoryReady(true),
        CacheReport::Measured(Some((0, 100))),
        CacheReport::Listed(Some(vec![DirEntry { name: "old".to_string(), is_file: true }])),
        CacheReport::Removed(false),
    ]);
    assert_eq!(action, CacheAction::Done(Err(CacheError::Remove)));
    assert_eq!(retrieval, idle);

    let (action, _) = step(vec![wanted(), CacheReport::Written(true)]);
    assert_eq!(action, CacheAction::Done(Err(CacheError::OutOfTurn)));
    let (action, _) = step(vec![CacheReport::Probed(true)]);
    assert_eq!(action, CacheAction::Done(Err(CacheError::OutOfTurn)));
}

#[test]
fn steps_of_a_miss_come_in_order() {
    let cache = cache();
    let mut retrieval = Retrieval::new();
    let key = || "k".to_string();
    assert_eq!(
        cache.get_or_fetch(&mut retrieval, CacheReport::Wanted(key())),
        CacheAction::Probe(key())
    );
    assert_eq!(
        cache.get_or_fetch(&mut retrieval, CacheReport::Probed(false)),
        CacheAction::Fetch(key())
    );
    assert_eq!(
        cache.get_or_fetch(&mut retrieval, CacheReport::Fetched(Ok(vec![9, 8]))),
        CacheAction::EnsureDirectory
    );
    assert_eq!(
        cache.get_or_fetch(&mut retrieval, CacheReport::DirectoryReady(true)),
        CacheAction::Measure
    );
    assert_eq!(
        cache.get_or_fetch(&mut retrieval, CacheReport::Measured(Some((9, 100)))),
        CacheAction::List
    );
    let listing = vec![
        DirEntry { name: "dir".to_string(), is_file: false },
        DirEntry { name: "old".to_string(), is_file: true },
    ];
    assert_eq!(
        cache.get_or_fetch(&mut retrieval, CacheReport::Listed(Some(listing))),
        CacheAction::Remove("old".to_string())
    );
    assert_eq!(cache.get_or_fetch(&mut retrieval, CacheReport::Removed(true)), CacheAction::Measure);
    assert_eq!(
        cache.get_or_fetch(&mut retrieval, CacheReport::Measured(Some((10, 100)))),
        CacheAction::Write(key(), vec![9, 8])
    );
    assert_eq!(
        cache.get_or_fetch(&mut retrieval, CacheReport::Written(true)),
        CacheAction::Done(Ok(vec![9, 8]))
    );
    assert_eq!(retrieval, Retrieval::new());
}

#[test]
fn cache_knows_its_root() {
    assert_eq!(cache().root(), "/tmp/onedrive_slideshow");
}

fn parts(path: &str) -> Vec<String> {
    let mut components = vec!["/".to_string()];
    components.extend(path.split('/').filter(|part| !part.is_empty()).map(|p| p.to_string()));
    components
}

#[test]
fn volume_is_the_longest_mount_point_that_leads_to_the_path() {
    let path = parts("/var/cache/slides");
    let mounts = |points: &[&str]| points.iter().map(|point| parts(point)).collect::<Vec<_>>();
    assert_eq!(volume_of(&path, &mounts(&[])), None);
    assert_eq!(volume_of(&path, &mounts(&["/"])), Some(0));
    assert_eq!(volume_of(&path, &mounts(&["/", "/var", "/home"])), Some(1));
    assert_eq!(volume_of(&path, &mounts(&["/var/cache", "/", "/var"])), Some(0));
    assert_eq!(volume_of(&path, &mounts(&["/home", "/var/cache/slides/old", "/boot"])), None);
    assert_eq!(volume_of(&path, &mounts(&["/var/cache/slides", "/var"])), Some(0));
    // A name that only begins alike is another directory.
    assert_eq!(volume_of(&path, &mounts(&["/", "/var/ca", "/v"])), Some(0));
    // Of two mounts at the same place the first is taken.
    assert_eq!(volume_of(&path, &mounts(&["/var", "/", "/var"])), Some(0));
    assert_eq!(volume_of(&parts("/"), &mounts(&["/var", "/"])), Some(1));
    // Without a root in the list the path may be on no volume.
    assert_eq!(volume_of(&parts("/tmp"), &mounts(&["/var", "/home"])), None);
}

#[test]
fn listing_that_ends_with_its_first_file_names_the_same_victim() {
    let entry = |name: &str, is_file: bool| DirEntry { name: name.to_string(), is_file };
    let whole = vec![entry("d", false), entry("f", true), entry("g", true), entry("e", false)];
    let cut = vec![entry("d", false), entry("f", true)];
    assert_eq!(first_file(&whole), first_file(&cut));
}
