use std::collections::BTreeMap;

use rest_sync::category::Category;
use rest_sync::category_sync::{CategoryPhase, CategorySync};
use rest_sync::content::content_hash;
use rest_sync::engine::{Stage, SyncEngine};
use rest_sync::listing::{FileInfo, Listing};
use rest_sync::protocol::{Action, Event, Method, Progress, Request, SyncError};

const CATEGORIES: [&str; 5] = ["data", "keys", "locks", "snapshots", "index"];

/// One repository held in memory.
#[derive(Clone, Debug, Default, PartialEq, Eq)]
struct Repo {
    created: bool,
    config: Option<Vec<u8>>,
    /// Category name to object name to content. A category that was never
    /// materialized has no entry.
    objects: BTreeMap<String, BTreeMap<String, Vec<u8>>>,
}

impl Repo {
    fn with_objects(category: &str, contents: &[&[u8]]) -> Repo {
        let mut repo = Repo::default();
        for content in contents {
            repo.put(category, &content_hash(content), content);
        }
        repo
    }

    fn put(&mut self, category: &str, name: &str, content: &[u8]) {
        self.objects
            .entry(category.to_string())
            .or_default()
            .insert(name.to_string(), content.to_vec());
    }

    fn names(&self, category: &str) -> Vec<String> {
        match self.objects.get(category) {
            Some(held) => held.keys().cloned().collect(),
            None => Vec::new(),
        }
    }
}

enum Reply {
    Nothing,
    Bytes(Vec<u8>),
    Entries(Vec<FileInfo>),
    Garbage,
}

/// Two repositories that answer requests as a REST blob store does.
struct World {
    source: Repo,
    dest: Repo,
    at_hand: Reply,
    /// Every request sent, as method and address.
    log: Vec<(Method, String)>,
    /// Addresses that answer every request with this status.
    broken: BTreeMap<String, u16>,
    /// Addresses whose listing is not a listing.
    garbled: Vec<String>,
}

const SOURCE: &str = "http://source/repo/";
const DEST: &str = "http://dest/repo/";

impl World {
    fn new(source: Repo, dest: Repo) -> World {
        World {
            source,
            dest,
            at_hand: Reply::Nothing,
            log: Vec::new(),
            broken: BTreeMap::new(),
            garbled: Vec::new(),
        }
    }

    fn answer(&mut self, request: &Request) -> u16 {
        self.log.push((request.method, request.url.clone()));
        self.at_hand = Reply::Nothing;
        if let Some(status) = self.broken.get(&request.url) {
            return *status;
        }
        let garbled = self.garbled.contains(&request.url);
        let (repo, path, writable) = if let Some(path) = request.url.strip_prefix(SOURCE) {
            (&mut self.source, path.to_string(), false)
        } else if let Some(path) = request.url.strip_prefix(DEST) {
            (&mut self.dest, path.to_string(), true)
        } else {
            return 404;
        };
        if request.method != Method::Get && !writable {
            return 405;
        }
        if path == "?create=true" {
            if request.method != Method::Post {
                return 405;
            }
            repo.created = true;
            return 200;
        }
        if path == "config" {
            return match request.method {
                Method::Get => match &repo.config {
                    Some(bytes) => {
                        self.at_hand = Reply::Bytes(bytes.clone());
                        200
                    }
                    None => 404,
                },
                Method::Post => {
                    if repo.config.is_some() {
                        403
                    } else {
                        repo.config = Some(request.body.clone().unwrap_or_default());
                        200
                    }
                }
                Method::Delete => 405,
            };
        }
        let (category, name) = match path.split_once('/') {
            Some(parts) => parts,
            None => return 404,
        };
        if !CATEGORIES.contains(&category) {
            return 404;
        }
        if name.is_empty() {
            if request.method != Method::Get {
                return 405;
            }
            assert!(request.structured, "listings are asked for in the structured format");
            return match repo.objects.get(category) {
                Some(held) => {
                    self.at_hand = if garbled {
                        Reply::Garbage
                    } else {
                        Reply::Entries(
                            held.iter()
                                .map(|(name, content)| FileInfo {
                                    name: name.clone(),
                                    size: content.len() as u64,
                                })
                                .collect(),
                        )
                    };
                    200
                }
                None => 404,
            };
        }
        match request.method {
            Method::Get => match repo.objects.get(category).and_then(|held| held.get(name)) {
                Some(content) => {
                    self.at_hand = Reply::Bytes(content.clone());
                    200
                }
                None => 404,
            },
            Method::Post => {
                let content = request.body.clone().unwrap_or_default();
                repo.put(category, name, &content);
                200
            }
            Method::Delete => {
                match repo.objects.get_mut(category).and_then(|held| held.remove(name)) {
                    Some(_) => 200,
                    None => 404,
                }
            }
        }
    }

    fn perform(&mut self, action: &Action) -> Event {
        match action {
            Action::Send(request) => Event::Status(self.answer(request)),
            Action::ReadBody => match std::mem::replace(&mut self.at_hand, Reply::Nothing) {
                Reply::Bytes(bytes) => Event::Body(bytes),
                _ => Event::Unreachable,
            },
            Action::ReadListing => match std::mem::replace(&mut self.at_hand, Reply::Nothing) {
                Reply::Entries(entries) => Event::Listing(Listing { entries }),
                Reply::Garbage => Event::Malformed,
                _ => Event::Unreachable,
            },
        }
    }

    fn run(&mut self, prune: bool) -> Result<(), SyncError> {
        let (engine, action) = SyncEngine::start("http://source/repo", "http://dest/repo/", prune);
        let mut progress = Progress::Next(engine, action);
        loop {
            match progress {
                Progress::Next(engine, action) => {
                    let event = self.perform(&action);
                    progress = engine.step(event);
                }
                Progress::Done(()) => return Ok(()),
                Progress::Failed(error) => return Err(error),
            }
        }
    }

    fn count(&self, method: Method, prefix: &str) -> usize {
        self.log.iter().filter(|(m, url)| *m == method && url.starts_with(prefix)).count()
    }

    fn object_requests(&self) -> Vec<(Method, String)> {
        self.log
            .iter()
            .filter(|(_, url)| {
                !url.ends_with('/') && !url.ends_with("config") && !url.ends_with("?create=true")
            })
            .cloned()
            .collect()
    }
}

#[test]
fn a_run_starts_by_creating_the_destination() {
    let (engine, action) = SyncEngine::start("http://source/repo", "http://dest/repo", true);
    assert_eq!(engine.source, "http://source/repo/");
    assert_eq!(engine.dest, "http://dest/repo/");
    assert!(engine.prune);
    assert!(matches!(engine.stage, Stage::Create(_)));
    assert_eq!(
        action,
        Action::Send(Request::create("http://dest/repo/?create=true".to_string()))
    );
}

#[test]
fn a_run_between_empty_repositories_asks_for_twelve_things() {
    let mut world = World::new(Repo::default(), Repo::default());
    assert_eq!(world.run(false), Ok(()));
    let expected: Vec<(Method, String)> = vec![
        (Method::Post, "http://dest/repo/?create=true".to_string()),
        (Method::Get, "http://source/repo/config".to_string()),
        (Method::Get, "http://source/repo/data/".to_string()),
        (Method::Get, "http://dest/repo/data/".to_string()),
        (Method::Get, "http://source/repo/keys/".to_string()),
        (Method::Get, "http://dest/repo/keys/".to_string()),
        (Method::Get, "http://source/repo/locks/".to_string()),
        (Method::Get, "http://dest/repo/locks/".to_string()),
        (Method::Get, "http://source/repo/snapshots/".to_string()),
        (Method::Get, "http://dest/repo/snapshots/".to_string()),
        (Method::Get, "http://source/repo/index/".to_string()),
        (Method::Get, "http://dest/repo/index/".to_string()),
    ];
    assert_eq!(world.log, expected);
    assert!(world.dest.created);
    assert_eq!(world.dest.config, None);
    assert!(world.dest.objects.is_empty());
}

#[test]
fn a_run_fails_when_the_destination_cannot_be_created() {
    let mut world = World::new(Repo::default(), Repo::default());
    world.broken.insert("http://dest/repo/?create=true".to_string(), 500);
    assert_eq!(
        world.run(false),
        Err(SyncError::CreateRejected {
            url: "http://dest/repo/?create=true".to_string(),
            status: 500
        })
    );
    assert_eq!(world.log.len(), 1);
}

#[test]
fn a_run_copies_everything_to_an_empty_destination() {
    let mut source = Repo::with_objects("data", &[b"one", b"two", b"three"]);
    source.put("keys", &content_hash(b"key"), b"key");
    source.put("index", &content_hash(b"idx"), b"idx");
    source.config = Some(b"config-bytes".to_vec());
    let mut world = World::new(source.clone(), Repo::default());
    assert_eq!(world.run(false), Ok(()));
    assert_eq!(world.dest.objects, source.objects);
    assert_eq!(world.dest.config, source.config);
    assert_eq!(world.source, source);
    assert_eq!(world.count(Method::Delete, ""), 0);
}

#[test]
fn a_second_run_transfers_and_deletes_nothing() {
    let mut source = Repo::with_objects("data", &[b"one", b"two", b"three"]);
    source.put("snapshots", &content_hash(b"snap"), b"snap");
    source.config = Some(b"config-bytes".to_vec());
    let mut dest = Repo::with_objects("data", &[b"stray"]);
    dest.put("locks", &content_hash(b"lock"), b"lock");
    for prune in [false, true] {
        let mut world = World::new(source.clone(), dest.clone());
        assert_eq!(world.run(prune), Ok(()));
        let after_first = world.dest.clone();
        world.log.clear();
        assert_eq!(world.run(prune), Ok(()));
        assert_eq!(world.object_requests(), Vec::<(Method, String)>::new());
        assert_eq!(world.count(Method::Delete, ""), 0);
        assert_eq!(world.dest, after_first);
    }
}

#[test]
fn a_run_with_prune_mirrors_the_source() {
    let source = Repo::with_objects("data", &[b"one", b"two"]);
    let mut dest = Repo::with_objects("data", &[b"two", b"stray"]);
    dest.put("locks", &content_hash(b"lock"), b"lock");
    let mut world = World::new(source.clone(), dest);
    assert_eq!(world.run(true), Ok(()));
    assert_eq!(world.dest.names("data"), source.names("data"));
    assert_eq!(world.dest.names("locks"), Vec::<String>::new());
    assert_eq!(world.count(Method::Delete, DEST), 2);
    assert_eq!(world.count(Method::Post, "http://dest/repo/data/"), 1);
}

#[test]
fn a_run_without_prune_leaves_extra_objects() {
    let source = Repo::with_objects("data", &[b"one"]);
    let dest = Repo::with_objects("data", &[b"stray"]);
    let mut world = World::new(source, dest);
    assert_eq!(world.run(false), Ok(()));
    assert_eq!(world.dest.names("data").len(), 2);
    assert!(world.dest.names("data").contains(&content_hash(b"stray")));
    assert_eq!(world.count(Method::Delete, ""), 0);
}

#[test]
fn an_object_with_another_size_is_fetched_again() {
    let source = Repo::with_objects("data", &[b"one"]);
    let mut dest = Repo::default();
    dest.put("data", &content_hash(b"one"), b"truncated-or-padded");
    let mut world = World::new(source.clone(), dest);
    assert_eq!(world.run(true), Ok(()));
    assert_eq!(world.dest.objects, source.objects);
    assert_eq!(world.count(Method::Delete, ""), 0);
}

#[test]
fn config_is_written_to_a_destination_without_one() {
    let mut source = Repo::default();
    source.config = Some(b"C".to_vec());
    let mut world = World::new(source, Repo::default());
    assert_eq!(world.run(false), Ok(()));
    assert_eq!(world.dest.config, Some(b"C".to_vec()));
}

#[test]
fn config_that_matches_is_left_as_it_is() {
    let mut source = Repo::default();
    source.config = Some(b"C".to_vec());
    let mut dest = Repo::default();
    dest.config = Some(b"C".to_vec());
    let mut world = World::new(source, dest);
    assert_eq!(world.run(false), Ok(()));
    assert_eq!(world.dest.config, Some(b"C".to_vec()));
    assert_eq!(world.count(Method::Post, "http://dest/repo/config"), 1);
    assert_eq!(world.count(Method::Get, "http://dest/repo/config"), 1);
}

#[test]
fn config_that_differs_ends_the_run_and_is_kept() {
    let mut source = Repo::with_objects("data", &[b"one"]);
    source.config = Some(b"C2".to_vec());
    let mut dest = Repo::default();
    dest.config = Some(b"C1".to_vec());
    let mut world = World::new(source, dest);
    assert_eq!(
        world.run(true),
        Err(SyncError::ConfigMismatch { url: "http://dest/repo/config".to_string() })
    );
    assert_eq!(world.dest.config, Some(b"C1".to_vec()));
    assert!(world.dest.objects.is_empty());
    assert_eq!(world.count(Method::Get, "http://source/repo/data/"), 0);
}

#[test]
fn config_absent_at_the_source_leaves_the_destination_alone() {
    let mut dest = Repo::default();
    dest.config = Some(b"C1".to_vec());
    let mut world = World::new(Repo::default(), dest);
    assert_eq!(world.run(false), Ok(()));
    assert_eq!(world.dest.config, Some(b"C1".to_vec()));
    assert_eq!(world.count(Method::Post, "http://dest/repo/config"), 0);
}

#[test]
fn a_category_absent_on_both_sides_is_no_error() {
    for prune in [false, true] {
        let (sync, action) = CategorySync::start(
            SOURCE.to_string(),
            DEST.to_string(),
            Category::Locks,
            prune,
        );
        assert_eq!(action, Action::Send(Request::list("http://source/repo/locks/".to_string())));
        let (sync, action) = match sync.step(Event::Status(404)) {
            Progress::Next(sync, action) => (sync, action),
            other => panic!("unexpected {:?}", other),
        };
        assert_eq!(action, Action::Send(Request::list("http://dest/repo/locks/".to_string())));
        assert!(matches!(sync.phase, CategoryPhase::ListDest { .. }));
        assert_eq!(sync.step(Event::Status(404)), Progress::Done(()));
    }
}

#[test]
fn a_failed_third_transfer_keeps_the_first_two_and_ends_the_run() {
    let mut source = Repo::default();
    let mut named: Vec<(String, &[u8])> = vec![
        (content_hash(b"one"), b"one"),
        (content_hash(b"two"), b"two"),
        (content_hash(b"three"), b"three"),
    ];
    named.sort();
    // The object listed third does not hold what its name stands for.
    source.put("data", &named[0].0, named[0].1);
    source.put("data", &named[1].0, named[1].1);
    source.put("data", &named[2].0, b"corrupted");
    source.put("keys", &content_hash(b"key"), b"key");
    let mut world = World::new(source, Repo::default());
    assert_eq!(
        world.run(true),
        Err(SyncError::HashMismatch {
            name: named[2].0.clone(),
            actual: content_hash(b"corrupted")
        })
    );
    assert_eq!(world.dest.names("data"), vec![named[0].0.clone(), named[1].0.clone()]);
    assert_eq!(world.dest.objects["data"][&named[0].0], named[0].1);
    assert_eq!(world.dest.objects["data"][&named[1].0], named[1].1);
    assert_eq!(world.count(Method::Post, "http://dest/repo/data/"), 2);
    assert_eq!(world.count(Method::Delete, ""), 0);
    for category in ["keys", "locks", "snapshots", "index"] {
        assert_eq!(world.count(Method::Get, &format!("http://source/repo/{}/", category)), 0);
        assert_eq!(world.count(Method::Get, &format!("http://dest/repo/{}/", category)), 0);
    }
    let last = world.log.last().unwrap();
    assert_eq!(last, &(Method::Get, format!("http://source/repo/data/{}", named[2].0)));
}

#[test]
fn a_refused_upload_ends_the_run() {
    let source = Repo::with_objects("data", &[b"one"]);
    let url = format!("http://dest/repo/data/{}", content_hash(b"one"));
    let mut world = World::new(source, Repo::default());
    world.broken.insert(url.clone(), 507);
    assert_eq!(world.run(false), Err(SyncError::UploadRejected { url, status: 507 }));
    assert_eq!(world.count(Method::Get, "http://source/repo/keys/"), 0);
}

#[test]
fn a_refused_deletion_ends_the_run() {
    let dest = Repo::with_objects("data", &[b"stray"]);
    let url = format!("http://dest/repo/data/{}", content_hash(b"stray"));
    let mut world = World::new(Repo::default(), dest);
    world.broken.insert(url.clone(), 500);
    assert_eq!(world.run(true), Err(SyncError::DeleteRejected { url, status: 500 }));
    assert_eq!(world.count(Method::Get, "http://source/repo/keys/"), 0);
}

#[test]
fn a_refused_listing_ends_the_run() {
    let mut world = World::new(Repo::default(), Repo::default());
    world.broken.insert("http://dest/repo/keys/".to_string(), 500);
    assert_eq!(
        world.run(true),
        Err(SyncError::ListRejected {
            url: "http://dest/repo/keys/".to_string(),
            category: Category::Keys,
            status: 500
        })
    );
    assert_eq!(world.count(Method::Get, "http://source/repo/locks/"), 0);
}

#[test]
fn a_malformed_listing_ends_the_run() {
    let source = Repo::with_objects("data", &[b"one"]);
    let mut world = World::new(source, Repo::default());
    world.garbled.push("http://source/repo/data/".to_string());
    assert_eq!(
        world.run(true),
        Err(SyncError::ListMalformed {
            url: "http://source/repo/data/".to_string(),
            category: Category::Data
        })
    );
    assert!(world.dest.objects.is_empty());
}

#[test]
fn transfers_come_before_deletions_and_one_at_a_time() {
    let source = Repo::with_objects("data", &[b"one", b"two"]);
    let dest = Repo::with_objects("data", &[b"stray"]);
    let mut world = World::new(source, dest);
    assert_eq!(world.run(true), Ok(()));
    let requests = world.object_requests();
    let methods: Vec<Method> = requests.iter().map(|(method, _)| *method).collect();
    assert_eq!(
        methods,
        vec![Method::Get, Method::Post, Method::Get, Method::Post, Method::Delete]
    );
    assert_eq!(requests[0].1.replace(SOURCE, DEST), requests[1].1);
    assert_eq!(requests[2].1.replace(SOURCE, DEST), requests[3].1);
}
