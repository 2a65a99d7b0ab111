use onedrive_slideshow::cache::CacheAction;
use onedrive_slideshow::cache::CacheError;
use onedrive_slideshow::cache::CacheReport;
use onedrive_slideshow::cache::Retrieval;
use onedrive_slideshow::http::BodyKind;
use onedrive_slideshow::http::HttpError;
use onedrive_slideshow::http::Method;
use onedrive_slideshow::http::Request;
use onedrive_slideshow::http::StatusRule;
use onedrive_slideshow::item_loader::children_url;
use onedrive_slideshow::item_loader::split_on;
use onedrive_slideshow::item_loader::Config;
use onedrive_slideshow::item_loader::Crawl;
use onedrive_slideshow::item_loader::CrawlAction;
use onedrive_slideshow::item_loader::CrawlReport;
use onedrive_slideshow::item_loader::DriveFolder;
use onedrive_slideshow::item_loader::DriveImage;
use onedrive_slideshow::item_loader::DriveItem;
use onedrive_slideshow::item_loader::DriveResponse;
use onedrive_slideshow::item_loader::DriveVideo;
use onedrive_slideshow::item_loader::Item;
use onedrive_slideshow::item_loader::ItemLoader;
use onedrive_slideshow::item_loader::ListError;
use onedrive_slideshow::item_loader::Load;
use onedrive_slideshow::item_loader::ITEM_QUERY;
use onedrive_slideshow::transport::FailureKind;
use onedrive_slideshow::transport::Outcome;
use std::collections::HashMap;

const URL: &str = "http://127.0.0.1:1234";

/// What the server holds at one path.
enum Body {
    Redirect(String),
    Config(Vec<&'static str>, u64),
    Page(Option<String>, Vec<DriveItem>),
    Content(Vec<u8>),
}

struct Mock {
    path: &'static str,
    query: Option<&'static str>,
    status: u16,
    body: Body,
    hits: usize,
}

struct Server {
    mocks: Vec<Mock>,
}

fn mock(path: &'static str, query: Option<&'static str>, body: Body) -> Mock {
    let status = match body {
        Body::Redirect(_) => 302,
        _ => 200,
    };
    Mock { path, query, status, body, hits: 0 }
}

/// Finds the mock for `url` as the bearer of "token", following redirects as
/// a client does.
fn find(server: &mut Server, request: &Request, url: &str) -> Result<usize, HttpError> {
    assert_eq!(request.method, Method::Get);
    assert!(request.form.is_empty());
    let rest = url.strip_prefix(URL).unwrap();
    let (path, query) = match rest.split_once('?') {
        Some((path, query)) => (path, Some(query)),
        None => (rest, None),
    };
    let found = server.mocks.iter().position(|mock| {
        mock.path == path
            && mock.query.map_or(true, |expected| {
                query.map_or(false, |q| q.split('&').any(|pair| pair == expected))
            })
    });
    let index = match found {
        Some(index) if request.bearer.as_deref() == Some("token") => index,
        Some(_) => {
            request.settle(Outcome::Response(401))?;
            panic!("a refused token was taken for an answer");
        }
        None => {
            request.settle(Outcome::Response(501))?;
            panic!("no mock for {}", url);
        }
    };
    server.mocks[index].hits += 1;
    if let Body::Redirect(location) = &server.mocks[index].body {
        let location = location.clone();
        return find(server, request, &location);
    }
    request.settle(Outcome::Response(server.mocks[index].status))?;
    Ok(index)
}

fn copy(item: &DriveItem) -> DriveItem {
    DriveItem { id: item.id.clone(), image: item.image, folder: item.folder, video: item.video }
}

/// Walks the folders of the server for one caller.
fn get_item_list(
    loader: &ItemLoader,
    server: &mut Server,
    token: &str,
) -> Result<(Vec<Item>, u64), ListError> {
    let mut crawl = Crawl::new();
    let mut action = loader.get_item_list(token, &mut crawl, CrawlReport::Wanted);
    for _ in 0..1000 {
        let event = match action {
            CrawlAction::Done(result) => {
                assert_eq!(crawl, Crawl::new());
                return result;
            }
            CrawlAction::GetConfig(request) => {
                assert_eq!(request.body, BodyKind::Json);
                assert_eq!(request.rule, StatusRule::NoError);
                let url = request.url.clone();
                CrawlReport::Config(find(server, &request, &url).and_then(|index| {
                    match &server.mocks[index].body {
                        Body::Config(directories, interval) => Ok(Config {
                            directories: directories.iter().map(|d| d.to_string()).collect(),
                            interval: *interval,
                        }),
                        _ => Err(HttpError::Body),
                    }
                }))
            }
            CrawlAction::GetPage(request) => {
                assert_eq!(request.body, BodyKind::Json);
                let url = request.url.clone();
                CrawlReport::Page(find(server, &request, &url).and_then(|index| {
                    match &server.mocks[index].body {
                        Body::Page(next_link, value) => Ok(DriveResponse {
                            next_link: next_link.clone(),
                            value: value.iter().map(copy).collect(),
                        }),
                        _ => Err(HttpError::Body),
                    }
                }))
            }
        };
        action = loader.get_item_list(token, &mut crawl, event);
    }
    panic!("the walk does not come to an end");
}

fn folder(id: &str, child_count: u32) -> DriveItem {
    DriveItem { id: id.to_string(), image: None, folder: Some(DriveFolder { child_count }), video: None }
}

fn image(id: &str, size: Option<(u32, u32)>) -> DriveItem {
    DriveItem {
        id: id.to_string(),
        image: Some(DriveImage { height: size.map(|s| s.0), width: size.map(|s| s.1) }),
        folder: None,
        video: None,
    }
}

fn video(id: &str, duration: u64) -> DriveItem {
    DriveItem { id: id.to_string(), image: None, folder: None, video: Some(DriveVideo { duration }) }
}

fn nothing(id: &str) -> DriveItem {
    DriveItem { id: id.to_string(), image: None, folder: None, video: None }
}

#[test]
fn list_items() {
    let query = Some("select=id,image,folder,video");
    let mut server = Server {
        mocks: vec![
            mock(
                "/root:/slideshow.txt:/content",
                None,
                Body::Redirect(format!("{URL}/slideshow.txt")),
            ),
            mock("/slideshow.txt", None, Body::Config(vec!["d1", "d2"], 42)),
            mock(
                "/root:/d1:/children",
                query,
                Body::Page(
                    Some(format!("{URL}/d1_next")),
                    vec![folder("d1_1", 1), image("d1_3", Some((1024, 768))), nothing("d1_ignore")],
                ),
            ),
            mock("/d1_next", None, Body::Page(None, vec![folder("d1_2", 1), video("d1_4", 1024)])),
            mock("/root:/d2:/children", query, Body::Page(None, vec![image("d2_1", None)])),
            mock("/items/d1_1/children", query, Body::Page(None, vec![image("d1_1_1", None)])),
            mock("/items/d1_2/children", query, Body::Page(None, vec![video("d1_2_1", 100)])),
        ],
    };

    let item_loader =
        ItemLoader::new(URL, "/tmp/onedrive_slideshow_test/list_items".to_string()).unwrap();
    let (mut all_items, interval) = get_item_list(&item_loader, &mut server, "token").unwrap();
    // The folder found last is walked first, and a folder's next page comes
    // before the folders found in it.
    assert_eq!(
        &all_items,
        &[
            Item::Image("d2_1".to_string()),
            Item::Image("d1_3".to_string()),
            Item::Video("d1_4".to_string(), 1024),
            Item::Video("d1_2_1".to_string(), 100),
            Item::Image("d1_1_1".to_string()),
        ]
    );
    all_items.sort();
    assert_eq!(interval, 42);
    assert_eq!(
        &all_items,
        &[
            Item::Image("d1_1_1".to_string()),
            Item::Image("d1_3".to_string()),
            Item::Image("d2_1".to_string()),
            Item::Video("d1_2_1".to_string(), 100),
            Item::Video("d1_4".to_string(), 1024),
        ]
    );

    for mock in &server.mocks {
        assert_eq!(mock.hits, 1, "{}", mock.path);
    }
}

/// The files of the cache's directory and how often each was written.
struct Directory {
    files: HashMap<String, Vec<u8>>,
    writes: usize,
}

/// Loads as the plan says: from the cache's directory, or from the server
/// and into the directory.
fn load(
    loader: &ItemLoader,
    server: &mut Server,
    directory: &mut Directory,
    plan: Load,
) -> Result<Item, CacheError> {
    let cache = loader.cache();
    let mut retrieval = Retrieval::new();
    let mut action = cache.get_or_fetch(&mut retrieval, CacheReport::Wanted(plan.key.clone()));
    for _ in 0..1000 {
        let event = match action {
            CacheAction::Done(result) => return result.map(|_| plan.item),
            CacheAction::Probe(name) => CacheReport::Probed(directory.files.contains_key(&name)),
            CacheAction::Load(name) => CacheReport::Loaded(directory.files.get(&name).cloned()),
            CacheAction::Fetch(key) => {
                assert_eq!(key, plan.key);
                assert_eq!(plan.request.body, BodyKind::Bytes);
                let url = plan.request.url.clone();
                CacheReport::Fetched(find(server, &plan.request, &url).and_then(|index| {
                    match &server.mocks[index].body {
                        Body::Content(bytes) => Ok(bytes.clone()),
                        _ => Err(HttpError::Body),
                    }
                }))
            }
            CacheAction::EnsureDirectory => CacheReport::DirectoryReady(true),
            CacheAction::Measure => CacheReport::Measured(Some((500, 1000))),
            CacheAction::List => CacheReport::Listed(Some(Vec::new())),
            CacheAction::Remove(_) => CacheReport::Removed(false),
            CacheAction::Write(name, bytes) => {
                directory.files.insert(name, bytes);
                directory.writes += 1;
                CacheReport::Written(true)
            }
        };
        action = cache.get_or_fetch(&mut retrieval, event);
    }
    panic!("the cache does not come to an end");
}

#[test]
fn item_loader_load_image() {
    let temp_dir = "/tmp/onedrive_slideshow_test/load_image";
    let mut directory = Directory { files: HashMap::new(), writes: 0 };
    let mut server =
        Server { mocks: vec![mock("/items/1/content", None, Body::Content(b"0".to_vec()))] };

    let item_loader = ItemLoader::new(URL, temp_dir.to_string()).unwrap();
    assert_eq!(item_loader.cache().root(), temp_dir);
    let test_item = Item::Image("1".to_string());
    let plan = item_loader.load_next("token", std::slice::from_ref(&test_item)).unwrap();
    assert_eq!(plan.key, test_item.get_id());
    assert_eq!(plan.key, "1");
    assert_eq!(plan.request.url, "http://127.0.0.1:1234/items/1/content");
    assert_eq!(plan.request.bearer, Some("token".to_string()));
    let actual_image = load(&item_loader, &mut server, &mut directory, plan).unwrap();
    assert_eq!(actual_image, test_item);
    assert_eq!(server.mocks[0].hits, 1);
    assert_eq!(directory.files.get("1"), Some(&b"0".to_vec()));

    // Loading again should use the cached image.
    server.mocks.clear();
    let plan = item_loader.load_next("token", std::slice::from_ref(&test_item)).unwrap();
    let actual_image = load(&item_loader, &mut server, &mut directory, plan).unwrap();
    assert_eq!(actual_image, test_item);
    assert_eq!(directory.writes, 1);

    // But loading a different image will download again.
    server.mocks.push(mock("/items/2/content", None, Body::Content(b"0".to_vec())));
    let test_item = Item::Image("2".to_string());
    let plan = item_loader.load_next("token", std::slice::from_ref(&test_item)).unwrap();
    assert_eq!(plan.key, test_item.get_id());
    let actual_image = load(&item_loader, &mut server, &mut directory, plan).unwrap();
    assert_eq!(actual_image, test_item);
    assert_eq!(server.mocks[0].hits, 1);
    assert_eq!(directory.writes, 2);
}

#[test]
fn load_next_picks_from_the_list() {
    let loader = ItemLoader::new(URL, "cache".to_string()).unwrap();
    assert_eq!(loader.load_next("token", &[]), None);
    let items = vec![
        Item::Image("a".to_string()),
        Item::Video("b".to_string(), 5),
        Item::Image("c".to_string()),
    ];
    let mut seen = [false; 3];
    for _ in 0..200 {
        let plan = loader.load_next("token", &items).unwrap();
        let index = items.iter().position(|item| *item == plan.item).unwrap();
        assert_eq!(Some(plan), loader.load("token", &items, index));
        seen[index] = true;
    }
    assert_eq!(seen, [true; 3]);
}

#[test]
fn load_says_key_and_request() {
    let loader = ItemLoader::new("https://graph.microsoft.com/v1.0/me/drive", "c".to_string())
        .unwrap();
    let items = vec![Item::Image("the image".to_string()), Item::Video("v/1".to_string(), 7)];
    let plan = loader.load("secret", &items, 0).unwrap();
    assert_eq!(plan.item, items[0]);
    assert_eq!(plan.key, "the image");
    assert_eq!(
        plan.request.url,
        "https://graph.microsoft.com/v1.0/me/drive/items/the%20image/content"
    );
    assert_eq!(plan.request.method, Method::Get);
    assert_eq!(plan.request.bearer, Some("secret".to_string()));
    assert_eq!(plan.request.rule, StatusRule::NoError);
    assert_eq!(plan.request.body, BodyKind::Bytes);
    let plan = loader.load("secret", &items, 1).unwrap();
    assert_eq!(plan.item, items[1]);
    assert_eq!(plan.key, "v/1");
    assert_eq!(plan.request.url, "https://graph.microsoft.com/v1.0/me/drive/items/v%2F1/content");
    assert_eq!(loader.load("secret", &items, 2), None);
    assert_eq!(loader.load("secret", &[], 0), None);
}

#[test]
fn get_id_is_the_identifier() {
    assert_eq!(Item::Image("abc".to_string()).get_id(), "abc");
    assert_eq!(Item::Video("xyz".to_string(), 12).get_id(), "xyz");
    assert_eq!(Item::Image(String::new()).get_id(), "");
    let item = Item::Video("v".to_string(), 3);
    assert_eq!(item.clone(), item);
}

#[test]
fn split_on_cuts_at_every_separator() {
    let texts = |pieces: &[&str]| pieces.iter().map(|p| p.to_string()).collect::<Vec<_>>();
    assert_eq!(split_on("root:/d1:", '/'), texts(&["root:", "d1:"]));
    assert_eq!(split_on("root:/a/b:", '/'), texts(&["root:", "a", "b:"]));
    assert_eq!(split_on("items/d1_1", '/'), texts(&["items", "d1_1"]));
    assert_eq!(split_on("abc", '/'), texts(&["abc"]));
    assert_eq!(split_on("", '/'), texts(&[""]));
    assert_eq!(split_on("/", '/'), texts(&["", ""]));
    assert_eq!(split_on("a//b/", '/'), texts(&["a", "", "b", ""]));
    assert_eq!(split_on("/\u{e9}t\u{e9}/\u{1f600}", '/'), texts(&["", "\u{e9}t\u{e9}", "\u{1f600}"]));
    assert_eq!(split_on("a,b", ','), texts(&["a", "b"]));
}

#[test]
fn children_url_addresses_the_listing() {
    assert_eq!(
        children_url(&URL.to_string(), "root:/d1:", ITEM_QUERY),
        Some(
            "http://127.0.0.1:1234/root:/d1:/children?select=id,image,folder,video&top=1000"
                .to_string()
        )
    );
    assert_eq!(
        children_url(&"https://graph.microsoft.com/v1.0/me/drive".to_string(), "root:/a b/c:", "x=1"),
        Some("https://graph.microsoft.com/v1.0/me/drive/root:/a%20b/c:/children?x=1".to_string())
    );
    assert_eq!(children_url(&"nowhere".to_string(), "items/1", ITEM_QUERY), None);
}

#[test]
fn entry_that_is_picture_and_more_counts_as_picture() {
    let mut both = image("p", None);
    both.video = Some(DriveVideo { duration: 9 });
    both.folder = Some(DriveFolder { child_count: 3 });
    let mut film = video("v", 9);
    film.folder = Some(DriveFolder { child_count: 3 });
    let mut server = Server {
        mocks: vec![
            mock("/root:/slideshow.txt:/content", None, Body::Config(vec!["d"], 7)),
            mock("/root:/d:/children", None, Body::Page(None, vec![both, film, nothing("n")])),
        ],
    };
    let loader = ItemLoader::new(URL, "cache".to_string()).unwrap();
    assert_eq!(
        get_item_list(&loader, &mut server, "token"),
        Ok((vec![Item::Image("p".to_string()), Item::Video("v".to_string(), 9)], 7))
    );
    assert_eq!(server.mocks[1].hits, 1);
}

#[test]
fn slideshow_without_folders_is_empty() {
    let mut server = Server {
        mocks: vec![mock("/root:/slideshow.txt:/content", None, Body::Config(vec![], 5))],
    };
    let loader = ItemLoader::new(URL, "cache".to_string()).unwrap();
    assert_eq!(get_item_list(&loader, &mut server, "token"), Ok((Vec::new(), 5)));
}

#[test]
fn failures_end_the_walk() {
    let loader = ItemLoader::new(URL, "cache".to_string()).unwrap();
    // No description.
    let mut server = Server { mocks: Vec::new() };
    assert_eq!(
        get_item_list(&loader, &mut server, "token"),
        Err(ListError::Config(HttpError::Status(501)))
    );
    // A folder that is not there.
    let mut server = Server {
        mocks: vec![mock("/root:/slideshow.txt:/content", None, Body::Config(vec!["d1", "d2"], 5))],
    };
    assert_eq!(
        get_item_list(&loader, &mut server, "token"),
        Err(ListError::Items(HttpError::Status(501)))
    );
    // A next page at what is no URL.
    let mut server = Server {
        mocks: vec![
            mock("/root:/slideshow.txt:/content", None, Body::Config(vec!["d"], 5)),
            mock(
                "/root:/d:/children",
                None,
                Body::Page(Some("d_next".to_string()), vec![image("p", None)]),
            ),
        ],
    };
    assert_eq!(get_item_list(&loader, &mut server, "token"), Err(ListError::NextLinkInvalid));

    let mut crawl = Crawl::new();
    assert_eq!(
        loader.get_item_list(
            "token",
            &mut crawl,
            CrawlReport::Config(Err(HttpError::RequestFailed(FailureKind::Dns)))
        ),
        CrawlAction::Done(Err(ListError::OutOfTurn))
    );
    loader.get_item_list("token", &mut crawl, CrawlReport::Wanted);
    assert_eq!(
        loader.get_item_list(
            "token",
            &mut crawl,
            CrawlReport::Config(Err(HttpError::RequestFailed(FailureKind::Dns)))
        ),
        CrawlAction::Done(Err(ListError::Config(HttpError::RequestFailed(FailureKind::Dns))))
    );
    assert_eq!(crawl, Crawl::new());
}

#[test]
fn loader_needs_a_base_url() {
    assert!(ItemLoader::new("drive", "cache".to_string()).is_none());
    assert!(ItemLoader::new("mailto:me@example.com", "cache".to_string()).is_none());
    let loader = ItemLoader::new("https://graph.microsoft.com/v1.0/me/drive", "c".to_string())
        .unwrap();
    let mut crawl = Crawl::new();
    match loader.get_item_list("token", &mut crawl, CrawlReport::Wanted) {
        CrawlAction::GetConfig(request) => {
            assert_eq!(
                request.url,
                "https://graph.microsoft.com/v1.0/me/drive/root:/slideshow.txt:/content"
            );
            assert_eq!(request.bearer, Some("token".to_string()));
        }
        other => panic!("{:?}", other),
    }
}

#[test]
fn folder_whose_address_cannot_be_built_ends_the_walk() {
    let loader = ItemLoader::new(URL, "cache".to_string()).unwrap();
    let mut crawl = Crawl::new();
    // A folder whose identifier is longer than a URL may be.
    let long = "i".repeat(1_048_577);
    loader.get_item_list("token", &mut crawl, CrawlReport::Wanted);
    loader.get_item_list(
        "token",
        &mut crawl,
        CrawlReport::Config(Ok(Config { directories: vec!["d".to_string()], interval: 1 })),
    );
    assert_eq!(
        loader.get_item_list(
            "token",
            &mut crawl,
            CrawlReport::Page(Ok(DriveResponse {
                next_link: None,
                value: vec![image("p", None), folder(&long, 1)],
            }))
        ),
        CrawlAction::Done(Err(ListError::Address))
    );
    assert_eq!(crawl, Crawl::new());
    assert_eq!(loader.load("token", &[Item::Image(long.clone())], 0), None);

    // A folder of the description that is too long ends the walk as well.
    loader.get_item_list("token", &mut crawl, CrawlReport::Wanted);
    assert_eq!(
        loader.get_item_list(
            "token",
            &mut crawl,
            CrawlReport::Config(Ok(Config { directories: vec!["d".to_string(), long], interval: 1 }))
        ),
        CrawlAction::Done(Err(ListError::Address))
    );
}

#[test]
fn deep_folder_is_listed() {
    let loader = ItemLoader::new(URL, "cache".to_string()).unwrap();
    // A path of seventy pieces.
    let pieces: Vec<String> = (0..70).map(|n| format!("p{n}")).collect();
    let deep = pieces.join("/");
    let mut crawl = Crawl::new();
    loader.get_item_list("token", &mut crawl, CrawlReport::Wanted);
    let action = loader.get_item_list(
        "token",
        &mut crawl,
        CrawlReport::Config(Ok(Config { directories: vec![deep.clone()], interval: 1 })),
    );
    match action {
        CrawlAction::GetPage(request) => assert_eq!(
            request.url,
            format!("{URL}/root:/{deep}:/children?select=id,image,folder,video&top=1000")
        ),
        other => panic!("{:?}", other),
    }
    assert_eq!(
        loader.get_item_list(
            "token",
            &mut crawl,
            CrawlReport::Page(Ok(DriveResponse { next_link: None, value: vec![image("p", None)] }))
        ),
        CrawlAction::Done(Ok((vec![Item::Image("p".to_string())], 1)))
    );
    assert_eq!(split_on(&deep, '/').len(), 70);
}

#[test]
fn refused_download_is_an_error_and_is_not_cached() {
    let mut directory = Directory { files: HashMap::new(), writes: 0 };
    let loader = ItemLoader::new(URL, "cache".to_string()).unwrap();
    let item = Item::Image("1".to_string());
    for status in [401, 404, 503] {
        let mut refusing = mock("/items/1/content", None, Body::Content(b"error page".to_vec()));
        refusing.status = status;
        let mut server = Server { mocks: vec![refusing] };
        let plan = loader.load("token", std::slice::from_ref(&item), 0).unwrap();
        assert_eq!(
            load(&loader, &mut server, &mut directory, plan),
            Err(CacheError::Fetch(HttpError::Status(status)))
        );
        assert_eq!(server.mocks[0].hits, 1);
        assert!(directory.files.is_empty());
        assert_eq!(directory.writes, 0);
    }
    // A wrong token is refused, too.
    let mut server =
        Server { mocks: vec![mock("/items/1/content", None, Body::Content(b"0".to_vec()))] };
    let plan = loader.load("nobody", std::slice::from_ref(&item), 0).unwrap();
    assert_eq!(
        load(&loader, &mut server, &mut directory, plan),
        Err(CacheError::Fetch(HttpError::Status(401)))
    );
    assert!(directory.files.is_empty());
}
