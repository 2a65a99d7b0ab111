//! Finding and loading pictures only.
//!
//! An [`ImageLoader`] walks the folders of the slideshow as an
//! [`ItemLoader`](crate::item_loader::ItemLoader) does, but gathers pictures
//! alone and hands them out by their identifiers. What it loads goes through
//! the same kind of cache.

use crate::cache::LocalCache;
use crate::http::AppendPaths;
use crate::http::Client;
use crate::http::Request;
use crate::http::RequestView;
use crate::item_loader::config_address;
use crate::item_loader::content_address;
use crate::item_loader::download_request;
use crate::item_loader::items_of;
use crate::item_loader::random_index;
use crate::item_loader::texts_of;
use crate::item_loader::Crawl;
use crate::item_loader::CrawlAction;
use crate::item_loader::CrawlActionView;
use crate::item_loader::CrawlReport;
use crate::item_loader::ItemView;
use crate::item_loader::ListError;
use crate::item_loader::Selection;
use vstd::prelude::*;

verus! {

/// The identifiers of `items`.
pub open spec fn ids_of(items: Seq<ItemView>) -> Seq<Seq<char>> {
    items.map_values(|item: ItemView| item.id())
}

/// What the driver of a walk for pictures is to do next.
#[derive(Debug, PartialEq, Eq)]
pub enum ImageListAction {
    /// Send this request and report [`CrawlReport::Config`].
    GetConfig(Request),
    /// Send this request and report [`CrawlReport::Page`].
    GetPage(Request),
    /// Hand the caller the identifiers of the pictures and the seconds for
    /// which a picture stays, or the reason why there is no list.
    Done(Result<(Vec<String>, u64), ListError>),
}

/// What an [`ImageListAction`] says, over characters.
pub enum ImageListActionView {
    GetConfig(RequestView),
    GetPage(RequestView),
    Done(Result<(Seq<Seq<char>>, u64), ListError>),
}

impl View for ImageListAction {
    type V = ImageListActionView;

    open spec fn view(&self) -> ImageListActionView {
        match self {
            ImageListAction::GetConfig(request) => ImageListActionView::GetConfig(request@),
            ImageListAction::GetPage(request) => ImageListActionView::GetPage(request@),
            ImageListAction::Done(Ok(list)) => ImageListActionView::Done(
                Ok((texts_of(list.0@), list.1)),
            ),
            ImageListAction::Done(Err(error)) => ImageListActionView::Done(Err(*error)),
        }
    }
}

/// The action of a walk, with the items that it hands out named by their
/// identifiers.
pub open spec fn by_id(action: CrawlActionView) -> ImageListActionView {
    match action {
        CrawlActionView::GetConfig(request) => ImageListActionView::GetConfig(request),
        CrawlActionView::GetPage(request) => ImageListActionView::GetPage(request),
        CrawlActionView::Done(Ok(list)) => ImageListActionView::Done(Ok((ids_of(list.0), list.1))),
        CrawlActionView::Done(Err(error)) => ImageListActionView::Done(Err(error)),
    }
}

/// How one picture is loaded: its identifier, under which the cache keeps it,
/// and the request that fetches it where the cache does not have it.
#[derive(Debug, PartialEq, Eq)]
pub struct ImageLoad {
    pub image_id: String,
    pub request: Request,
}

/// What an [`ImageLoad`] says, over characters.
pub struct ImageLoadView {
    pub image_id: Seq<char>,
    pub request: RequestView,
}

impl View for ImageLoad {
    type V = ImageLoadView;

    open spec fn view(&self) -> ImageLoadView {
        ImageLoadView { image_id: self.image_id@, request: self.request@ }
    }
}

/// What an optional [`ImageLoad`] says.
pub open spec fn image_load_of(load: Option<ImageLoad>) -> Option<ImageLoadView> {
    match load {
        Some(load) => Some(load@),
        None => None,
    }
}

/// How the picture `image_id` is loaded from the drive at `base` by a caller
/// with `token`. There is no way where its content address cannot be built.
pub open spec fn planned_image(base: Seq<char>, token: Seq<char>, image_id: Seq<char>) -> Option<
    ImageLoadView,
> {
    match content_address(base, image_id) {
        Some(url) => Some(ImageLoadView { image_id, request: download_request(token, url) }),
        None => None,
    }
}

/// Finds and loads the pictures of one drive.
#[derive(Debug, PartialEq, Eq)]
pub struct ImageLoader {
    client: Client,
    base_url: String,
    config_url: String,
    cache: LocalCache,
}

/// What an [`ImageLoader`] holds, over characters.
pub struct ImageLoaderView {
    /// The address of the drive.
    pub base_url: Seq<char>,
    /// The address of the description of the slideshow.
    pub config_url: Seq<char>,
    /// The directory of the cache.
    pub cache_directory: Seq<char>,
}

impl View for ImageLoader {
    type V = ImageLoaderView;

    closed spec fn view(&self) -> ImageLoaderView {
        ImageLoaderView {
            base_url: self.base_url@,
            config_url: self.config_url@,
            cache_directory: self.cache.root_view(),
        }
    }
}

impl ImageLoader {
    /// A loader for the drive at `base_url` that caches under
    /// `cache_directory`. There is none where `base_url` is no URL to which a
    /// path can be appended.
    pub fn new(base_url: &str, cache_directory: String) -> (r: Option<ImageLoader>)
        ensures
            match r {
                Some(loader) => {
                    &&& loader@.base_url == base_url@
                    &&& config_address(base_url@) == Some(loader@.config_url)
                    &&& loader@.cache_directory == cache_directory@
                },
                None => config_address(base_url@) is None,
            },
    {
        let base = base_url.to_owned();
        let segments: [&str; 3] = ["root:", "slideshow.txt:", "content"];
        assert(crate::http::views_of(segments@) =~= seq![
            "root:"@,
            "slideshow.txt:"@,
            "content"@,
        ]);
        match base.append_paths(&segments) {
            Some(config_url) => Some(
                ImageLoader {
                    client: Client::new(),
                    base_url: base,
                    config_url,
                    cache: LocalCache::new(cache_directory),
                },
            ),
            None => None,
        }
    }

    /// The cache in which the loader keeps what it has downloaded.
    pub fn cache(&self) -> (cache: &LocalCache)
        ensures
            cache.root_view() == self@.cache_directory,
    {
        &self.cache
    }

    /// Takes what happened in the walk `crawl` and says what is to be done
    /// next. The walk is that of
    /// [`ItemLoader::get_item_list`](crate::item_loader::ItemLoader::get_item_list),
    /// but it asks for pictures and folders only, passes over everything
    /// else, and hands out the pictures by their identifiers.
    pub fn get_image_list(&self, token: &str, crawl: &mut Crawl, report: CrawlReport) -> (action:
        ImageListAction)
        ensures
            final(crawl)@ == old(crawl)@.step(
                self@.base_url,
                self@.config_url,
                Selection::Images,
                token@,
                report@,
            ).0,
            action@ == by_id(
                old(crawl)@.step(
                    self@.base_url,
                    self@.config_url,
                    Selection::Images,
                    token@,
                    report@,
                ).1,
            ),
    {
        let action = crawl.step(
            &self.client,
            &self.base_url,
            &self.config_url,
            Selection::Images,
            token,
            report,
        );
        match action {
            CrawlAction::GetConfig(request) => ImageListAction::GetConfig(request),
            CrawlAction::GetPage(request) => ImageListAction::GetPage(request),
            CrawlAction::Done(Ok(list)) => {
                let items = list.0;
                let mut ids: Vec<String> = Vec::new();
                let mut i: usize = 0;
                while i < items.len()
                    invariant
                        i <= items@.len(),
                        ids@.len() == i,
                        forall|j: int| 0 <= j < i ==> (#[trigger] ids@[j])@ == items@[j]@.id(),
                    decreases items@.len() - i,
                {
                    ids.push(items[i].get_id().to_owned());
                    i += 1;
                }
                assert(texts_of(ids@) =~= ids_of(items_of(items@)));
                ImageListAction::Done(Ok((ids, list.1)))
            },
            CrawlAction::Done(Err(error)) => ImageListAction::Done(Err(error)),
        }
    }

    /// How the picture at `index` of `all_images` is loaded by a caller with
    /// `token`: see [`planned_image`]. There is no way for an index beyond the
    /// list.
    pub fn load(&self, token: &str, all_images: &[String], index: usize) -> (load: Option<
        ImageLoad,
    >)
        ensures
            image_load_of(load) == if index < all_images@.len() {
                planned_image(self@.base_url, token@, all_images@[index as int]@)
            } else {
                None
            },
    {
        if index >= all_images.len() {
            return None;
        }
        let image_id = all_images[index].clone();
        let segments: [&str; 3] = ["items", image_id.as_str(), "content"];
        assert(crate::http::views_of(segments@) =~= seq!["items"@, image_id@, "content"@]);
        match self.base_url.append_paths(&segments) {
            Some(url) => {
                let request = self.client.download(token, url);
                Some(ImageLoad { image_id, request })
            },
            None => None,
        }
    }

    /// Picks one of `all_images` at random and says how it is loaded by a
    /// caller with `token`: see [`ImageLoader::load`]. There is nothing to
    /// pick from an empty list.
    pub fn load_next(&self, token: &str, all_images: &[String]) -> (load: Option<ImageLoad>)
        ensures
            all_images@.len() == 0 ==> load is None,
            all_images@.len() > 0 ==> exists|index: int|
                0 <= index < all_images@.len() && image_load_of(load) == planned_image(
                    self@.base_url,
                    token@,
                    #[trigger] all_images@[index]@,
                ),
    {
        if all_images.len() == 0 {
            return None;
        }
        let index = random_index(all_images.len());
        self.load(token, all_images, index)
    }
}

} // verus!
