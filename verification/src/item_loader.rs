//! Finding the items of the slideshow and loading one of them.
//!
//! The slideshow is described by a small file on the drive: the folders to
//! show and the time for which a picture stays. An [`ItemLoader`] walks those
//! folders, and the folders in them, and gathers the pictures and videos. It
//! also picks the next item to show and says under which key the cache keeps
//! it and how it is downloaded.
//!
//! Like the rest of this library the loader sends nothing. It answers each
//! report with the next request.

use crate::cache::LocalCache;
use crate::http::appended;
use crate::http::normalize;
use crate::http::normalized;
use crate::http::queried;
use crate::http::text_of;
use crate::http::with_query;
use crate::http::AppendPaths;
use crate::http::BodyKind;
use crate::http::Client;
use crate::http::HttpError;
use crate::http::Method;
use crate::http::Request;
use crate::http::RequestView;
use crate::http::StatusRule;
use rand::Rng;
use vstd::prelude::*;
use vstd::string::StrSliceExecFns;
use vstd::string::StringExecFns;

verus! {

/// Something to show.
#[derive(Debug, PartialEq, Eq, PartialOrd, Ord)]
pub enum Item {
    /// A picture, by its identifier on the drive.
    Image(String),
    /// A video, by its identifier on the drive, and its length in milliseconds.
    Video(String, u64),
}

/// What an [`Item`] says, over characters.
pub enum ItemView {
    Image(Seq<char>),
    Video(Seq<char>, u64),
}

impl ItemView {
    /// The identifier of the item on the drive.
    pub open spec fn id(self) -> Seq<char> {
        match self {
            ItemView::Image(id) => id,
            ItemView::Video(id, _) => id,
        }
    }
}

impl View for Item {
    type V = ItemView;

    open spec fn view(&self) -> ItemView {
        match self {
            Item::Image(id) => ItemView::Image(id@),
            Item::Video(id, duration) => ItemView::Video(id@, *duration),
        }
    }
}

impl Item {
    /// The identifier of the item on the drive.
    pub fn get_id(&self) -> (id: &str)
        ensures
            id@ == self@.id(),
    {
        match self {
            Item::Image(id) => id.as_str(),
            Item::Video(id, _) => id.as_str(),
        }
    }

}

impl Clone for Item {
    /// An item that says the same.
    fn clone(&self) -> (item: Item)
        ensures
            item@ == self@,
    {
        match self {
            Item::Image(id) => Item::Image(id.clone()),
            Item::Video(id, duration) => Item::Video(id.clone(), *duration),
        }
    }
}

/// What each item of a list says.
pub open spec fn items_of(items: Seq<Item>) -> Seq<ItemView> {
    items.map_values(|item: Item| item@)
}

/// The characters of each string of a list.
pub open spec fn texts_of(texts: Seq<String>) -> Seq<Seq<char>> {
    texts.map_values(|text: String| text@)
}

/// What the drive says of a picture.
#[derive(Clone, Copy, Debug, PartialEq, Eq, Structural)]
pub struct DriveImage {
    pub height: Option<u32>,
    pub width: Option<u32>,
}

/// What the drive says of a video.
#[derive(Clone, Copy, Debug, PartialEq, Eq, Structural)]
pub struct DriveVideo {
    /// The length in milliseconds.
    pub duration: u64,
}

/// What the drive says of a folder.
#[derive(Clone, Copy, Debug, PartialEq, Eq, Structural)]
pub struct DriveFolder {
    pub child_count: u32,
}

/// One entry of a folder on the drive.
#[derive(Debug, PartialEq, Eq)]
pub struct DriveItem {
    pub id: String,
    pub image: Option<DriveImage>,
    pub folder: Option<DriveFolder>,
    pub video: Option<DriveVideo>,
}

/// What a [`DriveItem`] says, over characters.
pub struct DriveItemView {
    pub id: Seq<char>,
    pub image: Option<DriveImage>,
    pub folder: Option<DriveFolder>,
    pub video: Option<DriveVideo>,
}

impl View for DriveItem {
    type V = DriveItemView;

    open spec fn view(&self) -> DriveItemView {
        DriveItemView { id: self.id@, image: self.image, folder: self.folder, video: self.video }
    }
}

/// What each entry of a list says.
pub open spec fn drive_items_of(entries: Seq<DriveItem>) -> Seq<DriveItemView> {
    entries.map_values(|entry: DriveItem| entry@)
}

/// One page of the entries of a folder.
#[derive(Debug, PartialEq, Eq)]
pub struct DriveResponse {
    /// Where the next page is, if this is not the last.
    pub next_link: Option<String>,
    pub value: Vec<DriveItem>,
}

/// What a [`DriveResponse`] says, over characters.
pub struct DriveResponseView {
    pub next_link: Option<Seq<char>>,
    pub value: Seq<DriveItemView>,
}

impl View for DriveResponse {
    type V = DriveResponseView;

    open spec fn view(&self) -> DriveResponseView {
        DriveResponseView {
            next_link: text_of(self.next_link),
            value: drive_items_of(self.value@),
        }
    }
}

/// The description of the slideshow.
#[derive(Debug, PartialEq, Eq)]
pub struct Config {
    /// The folders to show, as paths from the root of the drive.
    pub directories: Vec<String>,
    /// Seconds for which a picture stays.
    pub interval: u64,
}

/// What a [`Config`] says, over characters.
pub struct ConfigView {
    pub directories: Seq<Seq<char>>,
    pub interval: u64,
}

impl View for Config {
    type V = ConfigView;

    open spec fn view(&self) -> ConfigView {
        ConfigView { directories: texts_of(self.directories@), interval: self.interval }
    }
}

/// The pieces of `text` between the occurrences of `separator`. A text
/// without the separator is one piece, and so is the empty text.
pub open spec fn split(text: Seq<char>, separator: char) -> Seq<Seq<char>>
    decreases text.len(),
{
    if text.len() == 0 {
        seq![Seq::empty()]
    } else {
        let before = split(text.drop_last(), separator);
        if text.last() == separator {
            before.push(Seq::empty())
        } else {
            before.drop_last().push(before.last().push(text.last()))
        }
    }
}

/// The pieces of `text` between the occurrences of `separator`.
pub fn split_on(text: &str, separator: char) -> (pieces: Vec<String>)
    ensures
        texts_of(pieces@) == split(text@, separator),
{
    let length = text.unicode_len();
    let mut pieces: Vec<String> = Vec::new();
    let mut start: usize = 0;
    let mut i: usize = 0;
    assert(text@.subrange(0, 0) =~= Seq::<char>::empty());
    assert(texts_of(pieces@).push(text@.subrange(0, 0)) =~= seq![Seq::<char>::empty()]);
    for c in chars: text.chars()
        invariant
            chars.seq() == text@,
            length == text@.len(),
            i == chars.index(),
            start <= i <= length,
            split(text@.subrange(0, i as int), separator) == texts_of(pieces@).push(
                text@.subrange(start as int, i as int),
            ),
    {
        let ghost done = texts_of(pieces@);
        let ghost current = text@.subrange(start as int, i as int);
        assert(c == text@[i as int]);
        assert(text@.subrange(0, i + 1).drop_last() =~= text@.subrange(0, i as int));
        assert(done.push(current).drop_last() =~= done);
        if c == separator {
            let piece = text.substring_char(start, i).to_owned();
            pieces.push(piece);
            start = i + 1;
            assert(texts_of(pieces@) =~= done.push(current));
            assert(text@.subrange(start as int, i + 1) =~= Seq::<char>::empty());
        } else {
            assert(text@.subrange(start as int, i + 1) =~= current.push(text@[i as int]));
        }
        i += 1;
    }
    assert(text@.subrange(0, length as int) =~= text@);
    let ghost done = texts_of(pieces@);
    let piece = text.substring_char(start, length).to_owned();
    pieces.push(piece);
    assert(texts_of(pieces@) =~= done.push(text@.subrange(start as int, length as int)));
    pieces
}

/// The pieces of a text are as large together as the text: each separator
/// makes room for the slash before the piece that follows it, and one slash
/// goes before the first piece.
pub proof fn lemma_size_of_pieces(text: Seq<char>, separator: char)
    ensures
        split(text, separator).len() > 0,
        crate::http::segments_size(split(text, separator)) == text.len() + 1,
    decreases text.len(),
{
    reveal_with_fuel(crate::http::segments_size, 2);
    if text.len() == 0 {
        assert(seq![Seq::<char>::empty()].drop_last() =~= Seq::<Seq<char>>::empty());
    } else {
        let before = split(text.drop_last(), separator);
        lemma_size_of_pieces(text.drop_last(), separator);
        if text.last() == separator {
            assert(before.push(Seq::empty()).drop_last() =~= before);
        } else {
            let grown = before.last().push(text.last());
            assert(before.drop_last().push(grown).drop_last() =~= before.drop_last());
        }
    }
}

/// The last path segment of the address at which a folder lists its entries.
pub const CHILDREN: &'static str = "children";

/// The query that asks a folder for all that the loader reads: pictures,
/// videos and folders.
pub const ITEM_QUERY: &'static str = "select=id,image,folder,video&top=1000";

/// The path under which the root of the drive is addressed.
pub const ROOT_PREFIX: &'static str = "root:/";

/// What ends a path from the root of the drive.
pub const ROOT_SUFFIX: &'static str = ":";

/// The path under which an entry is addressed by its identifier.
pub const ITEMS_PREFIX: &'static str = "items/";

/// The path of the folder `name` under the root of the drive.
pub open spec fn root_directory(name: Seq<char>) -> Seq<char> {
    ROOT_PREFIX@ + name + ROOT_SUFFIX@
}

/// The path of the folder with the identifier `id`.
pub open spec fn folder_directory(id: Seq<char>) -> Seq<char> {
    ITEMS_PREFIX@ + id
}

/// The address at which the folder at the path `directory` lists its entries
/// when asked with `query`: the pieces of the path between its slashes are
/// appended to `base` as segments, then `children`, then the query. There is
/// none where the URL cannot be built.
pub open spec fn children_address(base: Seq<char>, directory: Seq<char>, query: Seq<char>) -> Option<
    Seq<char>,
> {
    match appended(base, split(directory, '/').push(CHILDREN@)) {
        Some(url) => queried(url, query),
        None => None,
    }
}

/// The address from which the content of the entry `id` is downloaded.
pub open spec fn content_address(base: Seq<char>, id: Seq<char>) -> Option<Seq<char>> {
    appended(base, seq!["items"@, id, "content"@])
}

/// The address of the description of the slideshow.
pub open spec fn config_address(base: Seq<char>) -> Option<Seq<char>> {
    appended(base, seq!["root:"@, "slideshow.txt:"@, "content"@])
}

/// The address at which the folder at the path `directory` lists its entries.
pub fn children_url(base: &String, directory: &str, query: &str) -> (url: Option<String>)
    ensures
        text_of(url) == children_address(base@, directory@, query@),
{
    if directory.unicode_len() > crate::http::URL_TEXT_LIMIT {
        proof {
            let pieces = split(directory@, '/');
            lemma_size_of_pieces(directory@, '/');
            assert(pieces.push(CHILDREN@).drop_last() =~= pieces);
        }
        return None;
    }
    let pieces = split_on(directory, '/');
    let mut segments: Vec<&str> = Vec::new();
    let mut i: usize = 0;
    while i < pieces.len()
        invariant
            i <= pieces@.len(),
            segments@.len() == i,
            forall|j: int| 0 <= j < i ==> (#[trigger] segments@[j])@ == pieces@[j]@,
        decreases pieces@.len() - i,
    {
        segments.push(pieces[i].as_str());
        i += 1;
    }
    segments.push(CHILDREN);
    assert(crate::http::views_of(segments@) =~= texts_of(pieces@).push(CHILDREN@));
    match base.append_paths(segments.as_slice()) {
        Some(url) => with_query(url.as_str(), query),
        None => None,
    }
}

/// The query that asks a folder for pictures and folders only.
pub const IMAGE_QUERY: &'static str = "select=id,image,folder&top=1000";

/// What a walk gathers.
#[derive(Clone, Copy, Debug, PartialEq, Eq, Structural)]
pub enum Selection {
    /// Pictures and videos.
    Items,
    /// Pictures only.
    Images,
}

impl Selection {
    /// The query with which the folders are asked.
    pub open spec fn query(self) -> Seq<char> {
        match self {
            Selection::Items => ITEM_QUERY@,
            Selection::Images => IMAGE_QUERY@,
        }
    }

    /// The query with which the folders are asked.
    pub fn query_text(self) -> (query: &'static str)
        ensures
            query@ == self.query(),
    {
        match self {
            Selection::Items => ITEM_QUERY,
            Selection::Images => IMAGE_QUERY,
        }
    }
}

/// What an entry of a folder is to a walk.
pub enum Sorted {
    /// Something to show.
    Show(ItemView),
    /// A folder to walk, by its identifier.
    Folder(Seq<char>),
    /// Nothing.
    Skip,
}

/// What `entry` is to a walk that gathers `selection`. An entry that the
/// drive calls a picture is one, whatever else it is called. Otherwise it is a
/// video if it is called one and videos are gathered, and a folder if it is
/// called one.
pub open spec fn sort_of(entry: DriveItemView, selection: Selection) -> Sorted {
    if entry.image is Some {
        Sorted::Show(ItemView::Image(entry.id))
    } else if selection == Selection::Items && entry.video is Some {
        Sorted::Show(ItemView::Video(entry.id, entry.video->0.duration))
    } else if entry.folder is Some {
        Sorted::Folder(entry.id)
    } else {
        Sorted::Skip
    }
}

/// Why a walk gave no list.
#[derive(Clone, Copy, Debug, PartialEq, Eq, Structural)]
pub enum ListError {
    /// The description of the slideshow could not be had.
    Config(HttpError),
    /// A page of a folder could not be had.
    Items(HttpError),
    /// A page names a next page at what is no URL.
    NextLinkInvalid,
    /// The address of a folder could not be built.
    Address,
    /// What was reported is not what the walk was waiting for.
    OutOfTurn,
}

/// What a walk is waiting for.
#[derive(Clone, Copy, Debug, PartialEq, Eq, Structural)]
pub enum CrawlPhase {
    /// Nothing: the walk has not begun or is over.
    Idle,
    /// The description of the slideshow.
    AwaitingConfig,
    /// A page of a folder.
    AwaitingPage,
}

/// What happened since the walk last spoke.
#[derive(Debug, PartialEq, Eq)]
pub enum CrawlReport {
    /// A caller wants the list.
    Wanted,
    /// The request for the description has ended.
    Config(Result<Config, HttpError>),
    /// The request for a page has ended.
    Page(Result<DriveResponse, HttpError>),
}

/// What a [`CrawlReport`] says, over characters.
pub enum CrawlReportView {
    Wanted,
    Config(Result<ConfigView, HttpError>),
    Page(Result<DriveResponseView, HttpError>),
}

impl View for CrawlReport {
    type V = CrawlReportView;

    open spec fn view(&self) -> CrawlReportView {
        match self {
            CrawlReport::Wanted => CrawlReportView::Wanted,
            CrawlReport::Config(Ok(config)) => CrawlReportView::Config(Ok(config@)),
            CrawlReport::Config(Err(error)) => CrawlReportView::Config(Err(*error)),
            CrawlReport::Page(Ok(page)) => CrawlReportView::Page(Ok(page@)),
            CrawlReport::Page(Err(error)) => CrawlReportView::Page(Err(*error)),
        }
    }
}

/// What the driver is to do next.
#[derive(Debug, PartialEq, Eq)]
pub enum CrawlAction {
    /// Send this request and report [`CrawlReport::Config`].
    GetConfig(Request),
    /// Send this request and report [`CrawlReport::Page`].
    GetPage(Request),
    /// Hand the caller the items and the seconds for which a picture stays, or
    /// the reason why there is no list.
    Done(Result<(Vec<Item>, u64), ListError>),
}

/// What a [`CrawlAction`] says, over characters.
pub enum CrawlActionView {
    GetConfig(RequestView),
    GetPage(RequestView),
    Done(Result<(Seq<ItemView>, u64), ListError>),
}

impl View for CrawlAction {
    type V = CrawlActionView;

    open spec fn view(&self) -> CrawlActionView {
        match self {
            CrawlAction::GetConfig(request) => CrawlActionView::GetConfig(request@),
            CrawlAction::GetPage(request) => CrawlActionView::GetPage(request@),
            CrawlAction::Done(Ok(list)) => CrawlActionView::Done(Ok((items_of(list.0@), list.1))),
            CrawlAction::Done(Err(error)) => CrawlActionView::Done(Err(*error)),
        }
    }
}

/// The state of one walk through the folders.
#[derive(Debug, PartialEq, Eq)]
pub struct Crawl {
    phase: CrawlPhase,
    pending: Vec<String>,
    items: Vec<Item>,
    interval: u64,
}

/// What a [`Crawl`] holds, over characters.
pub struct CrawlView {
    pub phase: CrawlPhase,
    /// The addresses of the folders still to be asked; the last is next.
    pub pending: Seq<Seq<char>>,
    /// What has been gathered.
    pub items: Seq<ItemView>,
    /// Seconds for which a picture stays.
    pub interval: u64,
}

impl View for Crawl {
    type V = CrawlView;

    closed spec fn view(&self) -> CrawlView {
        CrawlView {
            phase: self.phase,
            pending: texts_of(self.pending@),
            items: items_of(self.items@),
            interval: self.interval,
        }
    }
}

/// A GET of `url` as the bearer of `token`, for a JSON document.
pub open spec fn get_request(token: Seq<char>, url: Seq<char>) -> RequestView {
    RequestView {
        method: Method::Get,
        url,
        bearer: Some(token),
        form: Seq::empty(),
        rule: StatusRule::NoError,
        body: BodyKind::Json,
    }
}

/// `pending` with the addresses of the folders `directories` of the root of
/// the drive, in order; `None` where one of them cannot be built.
pub open spec fn seeded(
    base: Seq<char>,
    query: Seq<char>,
    pending: Seq<Seq<char>>,
    directories: Seq<Seq<char>>,
) -> Option<Seq<Seq<char>>>
    decreases directories.len(),
{
    if directories.len() == 0 {
        Some(pending)
    } else {
        match children_address(base, root_directory(directories[0]), query) {
            Some(url) => seeded(base, query, pending.push(url), directories.drop_first()),
            None => None,
        }
    }
}

/// `items` and `pending` after the entries of a page: each entry to show is
/// added to the items and the address of each folder to the pending ones, in
/// the order of the page; `None` where an address cannot be built.
pub open spec fn absorbed(
    base: Seq<char>,
    selection: Selection,
    items: Seq<ItemView>,
    pending: Seq<Seq<char>>,
    entries: Seq<DriveItemView>,
) -> Option<(Seq<ItemView>, Seq<Seq<char>>)>
    decreases entries.len(),
{
    if entries.len() == 0 {
        Some((items, pending))
    } else {
        match sort_of(entries[0], selection) {
            Sorted::Show(item) => absorbed(
                base,
                selection,
                items.push(item),
                pending,
                entries.drop_first(),
            ),
            Sorted::Folder(id) => match children_address(
                base,
                folder_directory(id),
                selection.query(),
            ) {
                Some(url) => absorbed(
                    base,
                    selection,
                    items,
                    pending.push(url),
                    entries.drop_first(),
                ),
                None => None,
            },
            Sorted::Skip => absorbed(base, selection, items, pending, entries.drop_first()),
        }
    }
}

impl CrawlView {
    /// A walk that has not begun.
    pub open spec fn idle() -> CrawlView {
        CrawlView {
            phase: CrawlPhase::Idle,
            pending: Seq::empty(),
            items: Seq::empty(),
            interval: 0,
        }
    }

    /// Ends the walk with `error`.
    pub open spec fn fail(error: ListError) -> (CrawlView, CrawlActionView) {
        (CrawlView::idle(), CrawlActionView::Done(Err(error)))
    }

    /// Goes on to `next` where a page named a next page, else to the folder
    /// that was found last among those still to be asked, and ends the walk
    /// with what has been gathered where none is left.
    pub open spec fn advance(self, token: Seq<char>, next: Option<Seq<char>>) -> (
        CrawlView,
        CrawlActionView,
    ) {
        match next {
            Some(url) => (
                CrawlView { phase: CrawlPhase::AwaitingPage, ..self },
                CrawlActionView::GetPage(get_request(token, url)),
            ),
            None => if self.pending.len() > 0 {
                (
                    CrawlView {
                        phase: CrawlPhase::AwaitingPage,
                        pending: self.pending.drop_last(),
                        ..self
                    },
                    CrawlActionView::GetPage(get_request(token, self.pending.last())),
                )
            } else {
                (CrawlView::idle(), CrawlActionView::Done(Ok((self.items, self.interval))))
            },
        }
    }

    /// The walk after `report`, and what is to be done next, for a loader of
    /// the drive at `base` whose description is at `config`, a caller with
    /// `token`, and a walk that gathers `selection`.
    pub open spec fn step(
        self,
        base: Seq<char>,
        config: Seq<char>,
        selection: Selection,
        token: Seq<char>,
        report: CrawlReportView,
    ) -> (CrawlView, CrawlActionView) {
        match (self.phase, report) {
            (CrawlPhase::Idle, CrawlReportView::Wanted) => (
                CrawlView { phase: CrawlPhase::AwaitingConfig, ..CrawlView::idle() },
                CrawlActionView::GetConfig(get_request(token, config)),
            ),
            (CrawlPhase::AwaitingConfig, CrawlReportView::Config(Ok(found))) => match seeded(
                base,
                selection.query(),
                self.pending,
                found.directories,
            ) {
                Some(pending) => CrawlView { pending, interval: found.interval, ..self }.advance(
                    token,
                    None,
                ),
                None => Self::fail(ListError::Address),
            },
            (CrawlPhase::AwaitingConfig, CrawlReportView::Config(Err(error))) => Self::fail(
                ListError::Config(error),
            ),
            (CrawlPhase::AwaitingPage, CrawlReportView::Page(Ok(page))) => {
                if page.next_link is Some && normalized(page.next_link->0) is None {
                    Self::fail(ListError::NextLinkInvalid)
                } else {
                    match absorbed(base, selection, self.items, self.pending, page.value) {
                        Some((items, pending)) => CrawlView { items, pending, ..self }.advance(
                            token,
                            match page.next_link {
                                Some(link) => normalized(link),
                                None => None,
                            },
                        ),
                        None => Self::fail(ListError::Address),
                    }
                }
            },
            (CrawlPhase::AwaitingPage, CrawlReportView::Page(Err(error))) => Self::fail(
                ListError::Items(error),
            ),
            _ => Self::fail(ListError::OutOfTurn),
        }
    }
}

impl Crawl {
    /// A walk that has not begun.
    pub fn new() -> (crawl: Crawl)
        ensures
            crawl@ == CrawlView::idle(),
    {
        let crawl = Crawl {
            phase: CrawlPhase::Idle,
            pending: Vec::new(),
            items: Vec::new(),
            interval: 0,
        };
        assert(crawl@.pending =~= Seq::empty());
        assert(crawl@.items =~= Seq::empty());
        crawl
    }

    fn reset(&mut self)
        ensures
            final(self)@ == CrawlView::idle(),
    {
        self.phase = CrawlPhase::Idle;
        self.pending = Vec::new();
        self.items = Vec::new();
        self.interval = 0;
        assert(self@.pending =~= Seq::empty());
        assert(self@.items =~= Seq::empty());
    }

    fn fail(&mut self, error: ListError) -> (action: CrawlAction)
        ensures
            (final(self)@, action@) == CrawlView::fail(error),
    {
        self.reset();
        CrawlAction::Done(Err(error))
    }

    fn seed(&mut self, base: &String, query: &str, directories: &Vec<String>) -> (built: bool)
        ensures
            match seeded(base@, query@, old(self)@.pending, texts_of(directories@)) {
                Some(pending) => built && final(self)@ == (CrawlView { pending, ..old(self)@ }),
                None => !built,
            },
    {
        let ghost all = texts_of(directories@);
        let ghost goal = seeded(base@, query@, self@.pending, all);
        let mut i: usize = 0;
        assert(all.subrange(0, all.len() as int) =~= all);
        while i < directories.len()
            invariant
                i <= directories@.len(),
                all == texts_of(directories@),
                self@.phase == old(self)@.phase,
                self@.items == old(self)@.items,
                self@.interval == old(self)@.interval,
                goal == seeded(base@, query@, old(self)@.pending, all),
                goal == seeded(
                    base@,
                    query@,
                    self@.pending,
                    all.subrange(i as int, all.len() as int),
                ),
            decreases directories@.len() - i,
        {
            let ghost rest = all.subrange(i as int, all.len() as int);
            let ghost before = self@.pending;
            assert(rest[0] == directories@[i as int]@);
            assert(rest.drop_first() =~= all.subrange(i + 1, all.len() as int));
            let mut path = String::from_str(ROOT_PREFIX);
            path.append(directories[i].as_str());
            path.append(ROOT_SUFFIX);
            assert(path@ =~= root_directory(rest[0]));
            match children_url(base, path.as_str(), query) {
                Some(url) => {
                    self.pending.push(url);
                    assert(self@.pending =~= before.push(url@));
                },
                None => {
                    return false;
                },
            }
            i += 1;
        }
        true
    }

    fn absorb(&mut self, base: &String, selection: Selection, entries: &Vec<DriveItem>) -> (built:
        bool)
        ensures
            match absorbed(
                base@,
                selection,
                old(self)@.items,
                old(self)@.pending,
                drive_items_of(entries@),
            ) {
                Some((items, pending)) => built && final(self)@ == (CrawlView {
                    items,
                    pending,
                    ..old(self)@
                }),
                None => !built,
            },
    {
        let ghost all = drive_items_of(entries@);
        let ghost goal = absorbed(base@, selection, self@.items, self@.pending, all);
        let mut i: usize = 0;
        assert(all.subrange(0, all.len() as int) =~= all);
        while i < entries.len()
            invariant
                i <= entries@.len(),
                all == drive_items_of(entries@),
                self@.phase == old(self)@.phase,
                self@.interval == old(self)@.interval,
                goal == absorbed(base@, selection, old(self)@.items, old(self)@.pending, all),
                goal == absorbed(
                    base@,
                    selection,
                    self@.items,
                    self@.pending,
                    all.subrange(i as int, all.len() as int),
                ),
            decreases entries@.len() - i,
        {
            let ghost rest = all.subrange(i as int, all.len() as int);
            let ghost items = self@.items;
            let ghost pending = self@.pending;
            assert(rest[0] == entries@[i as int]@);
            assert(rest.drop_first() =~= all.subrange(i + 1, all.len() as int));
            let entry = &entries[i];
            if entry.image.is_some() {
                let item = Item::Image(entry.id.clone());
                self.items.push(item);
                assert(self@.items =~= items.push(item@));
            } else if selection == Selection::Items && entry.video.is_some() {
                let duration = match entry.video {
                    Some(video) => video.duration,
                    None => 0,
                };
                let item = Item::Video(entry.id.clone(), duration);
                self.items.push(item);
                assert(self@.items =~= items.push(item@));
            } else if entry.folder.is_some() {
                let mut path = String::from_str(ITEMS_PREFIX);
                path.append(entry.id.as_str());
                assert(path@ =~= folder_directory(rest[0].id));
                match children_url(base, path.as_str(), selection.query_text()) {
                    Some(url) => {
                        self.pending.push(url);
                        assert(self@.pending =~= pending.push(url@));
                    },
                    None => {
                        return false;
                    },
                }
            }
            i += 1;
        }
        true
    }

    fn advance(&mut self, client: &Client, token: &str, next: Option<String>) -> (action:
        CrawlAction)
        ensures
            (final(self)@, action@) == old(self)@.advance(token@, text_of(next)),
    {
        match next {
            Some(url) => {
                self.phase = CrawlPhase::AwaitingPage;
                CrawlAction::GetPage(client.get(token, url))
            },
            None => {
                let ghost before = self@.pending;
                match self.pending.pop() {
                    Some(url) => {
                        self.phase = CrawlPhase::AwaitingPage;
                        assert(self@.pending =~= before.drop_last());
                        assert(before.last() == url@);
                        CrawlAction::GetPage(client.get(token, url))
                    },
                    None => {
                        assert(before.len() == 0);
                        let mut items: Vec<Item> = Vec::new();
                        core::mem::swap(&mut self.items, &mut items);
                        let interval = self.interval;
                        self.reset();
                        CrawlAction::Done(Ok((items, interval)))
                    },
                }
            },
        }
    }

    /// Takes what happened and says what is to be done next: see
    /// [`CrawlView::step`].
    pub(crate) fn step(
        &mut self,
        client: &Client,
        base: &String,
        config: &String,
        selection: Selection,
        token: &str,
        report: CrawlReport,
    ) -> (action: CrawlAction)
        ensures
            (final(self)@, action@) == old(self)@.step(
                base@,
                config@,
                selection,
                token@,
                report@,
            ),
    {
        match (self.phase, report) {
            (CrawlPhase::Idle, CrawlReport::Wanted) => {
                self.reset();
                self.phase = CrawlPhase::AwaitingConfig;
                CrawlAction::GetConfig(client.get(token, config.clone()))
            },
            (CrawlPhase::AwaitingConfig, CrawlReport::Config(Ok(found))) => {
                if self.seed(base, selection.query_text(), &found.directories) {
                    self.interval = found.interval;
                    self.advance(client, token, None)
                } else {
                    self.fail(ListError::Address)
                }
            },
            (CrawlPhase::AwaitingConfig, CrawlReport::Config(Err(error))) => self.fail(
                ListError::Config(error),
            ),
            (CrawlPhase::AwaitingPage, CrawlReport::Page(Ok(page))) => {
                let next = match &page.next_link {
                    Some(link) => {
                        match normalize(link.as_str()) {
                            Some(url) => Some(url),
                            None => {
                                return self.fail(ListError::NextLinkInvalid);
                            },
                        }
                    },
                    None => None,
                };
                if self.absorb(base, selection, &page.value) {
                    self.advance(client, token, next)
                } else {
                    self.fail(ListError::Address)
                }
            },
            (CrawlPhase::AwaitingPage, CrawlReport::Page(Err(error))) => self.fail(
                ListError::Items(error),
            ),
            _ => self.fail(ListError::OutOfTurn),
        }
    }
}

/// A GET of `url` as the bearer of `token`, for the bytes of the body. An
/// error status is a failure.
pub open spec fn download_request(token: Seq<char>, url: Seq<char>) -> RequestView {
    RequestView {
        method: Method::Get,
        url,
        bearer: Some(token),
        form: Seq::empty(),
        rule: StatusRule::NoError,
        body: BodyKind::Bytes,
    }
}

/// How one item is loaded: the key under which the cache keeps it, and the
/// request that fetches it where the cache does not have it.
#[derive(Debug, PartialEq, Eq)]
pub struct Load {
    pub item: Item,
    pub key: String,
    pub request: Request,
}

/// What a [`Load`] says, over characters.
pub struct LoadView {
    pub item: ItemView,
    pub key: Seq<char>,
    pub request: RequestView,
}

impl View for Load {
    type V = LoadView;

    open spec fn view(&self) -> LoadView {
        LoadView { item: self.item@, key: self.key@, request: self.request@ }
    }
}

/// What an optional [`Load`] says.
pub open spec fn load_of(load: Option<Load>) -> Option<LoadView> {
    match load {
        Some(load) => Some(load@),
        None => None,
    }
}

/// How `item` is loaded from the drive at `base` by a caller with `token`:
/// the cache keeps it under its identifier, and it is downloaded from its
/// content address. There is no way where that address cannot be built.
pub open spec fn planned(base: Seq<char>, token: Seq<char>, item: ItemView) -> Option<LoadView> {
    match content_address(base, item.id()) {
        Some(url) => Some(LoadView { item, key: item.id(), request: download_request(token, url) }),
        None => None,
    }
}

/// Calls `rand::rng()` and, on the generator that it returns,
/// `Rng::random_range` with the range from 0 up to and without `len`. The
/// range is not empty, so the call returns, and what it returns lies in the
/// range. Nothing more is known of it: it is drawn at random.
#[verifier::external_body]
pub(crate) fn random_index(len: usize) -> (index: usize)
    requires
        len > 0,
    ensures
        index < len,
{
    rand::rng().random_range(0..len)
}

/// Finds and loads the items of one drive.
#[derive(Debug, PartialEq, Eq)]
pub struct ItemLoader {
    client: Client,
    base_url: String,
    config_url: String,
    cache: LocalCache,
}

/// What an [`ItemLoader`] holds, over characters.
pub struct ItemLoaderView {
    /// The address of the drive.
    pub base_url: Seq<char>,
    /// The address of the description of the slideshow.
    pub config_url: Seq<char>,
    /// The directory of the cache.
    pub cache_directory: Seq<char>,
}

impl View for ItemLoader {
    type V = ItemLoaderView;

    closed spec fn view(&self) -> ItemLoaderView {
        ItemLoaderView {
            base_url: self.base_url@,
            config_url: self.config_url@,
            cache_directory: self.cache.root_view(),
        }
    }
}

impl ItemLoader {
    /// A loader for the drive at `base_url` that caches under
    /// `cache_directory`. There is none where `base_url` is no URL to which a
    /// path can be appended.
    pub fn new(base_url: &str, cache_directory: String) -> (r: Option<ItemLoader>)
        ensures
            match r {
                Some(loader) => {
                    &&& loader@.base_url == base_url@
                    &&& config_address(base_url@) == Some(loader@.config_url)
                    &&& loader@.cache_directory == cache_directory@
                },
                None => config_address(base_url@) is None,
            },
    {
        let base = base_url.to_owned();
        let segments: [&str; 3] = ["root:", "slideshow.txt:", "content"];
        assert(crate::http::views_of(segments@) =~= seq![
            "root:"@,
            "slideshow.txt:"@,
            "content"@,
        ]);
        match base.append_paths(&segments) {
            Some(config_url) => Some(
                ItemLoader {
                    client: Client::new(),
                    base_url: base,
                    config_url,
                    cache: LocalCache::new(cache_directory),
                },
            ),
            None => None,
        }
    }

    /// The cache in which the loader keeps what it has downloaded.
    pub fn cache(&self) -> (cache: &LocalCache)
        ensures
            cache.root_view() == self@.cache_directory,
    {
        &self.cache
    }

    /// Takes what happened in the walk `crawl` and says what is to be done
    /// next.
    ///
    /// A caller who wants the list of items reports [`CrawlReport::Wanted`] and
    /// then sends each request and reports its result, until the answer is
    /// [`CrawlAction::Done`]. Every request carries `token`.
    ///
    /// The walk reads the description of the slideshow and then asks each
    /// folder for its entries, page by page. Pictures and videos are gathered
    /// in the order of the pages. A folder that is found is asked once the
    /// folder at hand has no further page, the one found last first. When no
    /// folder is left the caller gets the items and the seconds for which a
    /// picture stays. A request that fails, a next page at what is no URL, and
    /// a report out of turn each end the walk with an error.
    pub fn get_item_list(&self, token: &str, crawl: &mut Crawl, report: CrawlReport) -> (action:
        CrawlAction)
        ensures
            (final(crawl)@, action@) == old(crawl)@.step(
                self@.base_url,
                self@.config_url,
                Selection::Items,
                token@,
                report@,
            ),
    {
        crawl.step(&self.client, &self.base_url, &self.config_url, Selection::Items, token, report)
    }

    /// How the item at `index` of `all_items` is loaded by a caller with
    /// `token`: see [`planned`]. There is no way for an index beyond the list.
    pub fn load(&self, token: &str, all_items: &[Item], index: usize) -> (load: Option<Load>)
        ensures
            load_of(load) == if index < all_items@.len() {
                planned(self@.base_url, token@, all_items@[index as int]@)
            } else {
                None
            },
    {
        if index >= all_items.len() {
            return None;
        }
        let item = all_items[index].clone();
        let key = item.get_id().to_owned();
        let segments: [&str; 3] = ["items", item.get_id(), "content"];
        assert(crate::http::views_of(segments@) =~= seq!["items"@, item@.id(), "content"@]);
        match self.base_url.append_paths(&segments) {
            Some(url) => {
                let request = self.client.download(token, url);
                Some(Load { item, key, request })
            },
            None => None,
        }
    }

    /// Picks one of `all_items` at random and says how it is loaded by a
    /// caller with `token`: see [`ItemLoader::load`]. There is nothing to pick
    /// from an empty list.
    pub fn load_next(&self, token: &str, all_items: &[Item]) -> (load: Option<Load>)
        ensures
            all_items@.len() == 0 ==> load is None,
            all_items@.len() > 0 ==> exists|index: int|
                0 <= index < all_items@.len() && load_of(load) == planned(
                    self@.base_url,
                    token@,
                    #[trigger] all_items@[index]@,
                ),
    {
        if all_items.len() == 0 {
            return None;
        }
        let index = random_index(all_items.len());
        self.load(token, all_items, index)
    }
}

} // verus!
