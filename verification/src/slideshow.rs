//! What the slideshow shows next, and for how long.
//!
//! The list of items is kept for an hour and then gathered anew. From the
//! list one item is picked at random and loaded. A picture stays for the time
//! that the description of the slideshow gives, a video for twice its length,
//! and after a failure the show goes on a second later.
//!
//! The clock is the one of the authenticator: it counts whole seconds and
//! never runs backwards. The times for which something stays are in
//! milliseconds.

use crate::auth::AuthError;
use crate::auth::AuthErrorView;
use crate::auth::AuthMessage;
use crate::auth::AuthMessageView;
use crate::cache::CacheError;
use crate::http::text_of;
use crate::item_loader::items_of;
use crate::item_loader::planned;
use crate::item_loader::Item;
use crate::item_loader::ItemLoader;
use crate::item_loader::ItemView;
use crate::item_loader::ListError;
use crate::item_loader::Load;
use crate::item_loader::LoadView;
use vstd::prelude::*;
use vstd::string::StrSliceExecFns;

verus! {

/// Milliseconds after which the show goes on when something has failed.
pub const ON_ERROR_REFRESH_TIME: u64 = 1000;

/// Seconds for which a list of items is used before it is gathered anew.
pub const ITEM_LIST_REFRESH_TIME: u64 = 3600;

/// Why there is nothing new to show.
#[derive(Debug, PartialEq, Eq)]
pub enum SlideshowError {
    /// No token could be had.
    Authenticating(AuthError),
    /// The list of items could not be gathered.
    List(ListError),
    /// The item could not be loaded.
    Load(CacheError),
    /// The list of items is empty.
    NothingToShow,
    /// The address of the item's content could not be built.
    Address,
}

/// What a [`SlideshowError`] says, over characters.
pub enum SlideshowErrorView {
    Authenticating(AuthErrorView),
    List(ListError),
    Load(CacheError),
    NothingToShow,
    Address,
}

impl View for SlideshowError {
    type V = SlideshowErrorView;

    open spec fn view(&self) -> SlideshowErrorView {
        match self {
            SlideshowError::Authenticating(error) => SlideshowErrorView::Authenticating(error@),
            SlideshowError::List(error) => SlideshowErrorView::List(*error),
            SlideshowError::Load(error) => SlideshowErrorView::Load(*error),
            SlideshowError::NothingToShow => SlideshowErrorView::NothingToShow,
            SlideshowError::Address => SlideshowErrorView::Address,
        }
    }
}

impl SlideshowErrorView {
    /// Whether the error says that a server refused the token that was used to
    /// gather the list or to fetch the item.
    pub open spec fn token_refused(self) -> bool {
        match self {
            SlideshowErrorView::List(ListError::Config(error)) => error.unauthorized(),
            SlideshowErrorView::List(ListError::Items(error)) => error.unauthorized(),
            SlideshowErrorView::Load(CacheError::Fetch(error)) => error.unauthorized(),
            _ => false,
        }
    }
}

impl SlideshowError {
    /// Whether the error says that a server refused the token. The
    /// authenticator is then to forget it: see
    /// [`Authenticator::invalidate`](crate::auth::Authenticator::invalidate).
    pub fn token_refused(&self) -> (refused: bool)
        ensures
            refused == self@.token_refused(),
    {
        match self {
            SlideshowError::List(ListError::Config(error)) => error.is_unauthorized(),
            SlideshowError::List(ListError::Items(error)) => error.is_unauthorized(),
            SlideshowError::Load(CacheError::Fetch(error)) => error.is_unauthorized(),
            _ => false,
        }
    }
}

/// What follows a failure: the milliseconds after which the show goes on,
/// and whether the authenticator is to forget its access token first because
/// a server refused it.
pub fn on_failure(error: &SlideshowError) -> (next: (u64, bool))
    ensures
        next.0 == ON_ERROR_REFRESH_TIME,
        next.1 == error@.token_refused(),
{
    (ON_ERROR_REFRESH_TIME, error.token_refused())
}

/// What the window is told.
#[derive(Debug, PartialEq, Eq)]
pub enum UserEvent {
    /// The user wants the item that was shown before.
    PreviousItem,
    /// Something has failed.
    Error(SlideshowError),
    /// Work is under way.
    Loading,
    /// The user is to open `auth_url` and enter `code`.
    WaitingForAuth { auth_url: String, code: String },
    /// This item is to be shown.
    LoadItem(Item),
}

/// What a [`UserEvent`] says, over characters.
pub enum UserEventView {
    PreviousItem,
    Error(SlideshowErrorView),
    Loading,
    WaitingForAuth { auth_url: Seq<char>, code: Seq<char> },
    LoadItem(ItemView),
}

impl View for UserEvent {
    type V = UserEventView;

    open spec fn view(&self) -> UserEventView {
        match self {
            UserEvent::PreviousItem => UserEventView::PreviousItem,
            UserEvent::Error(error) => UserEventView::Error(error@),
            UserEvent::Loading => UserEventView::Loading,
            UserEvent::WaitingForAuth { auth_url, code } => UserEventView::WaitingForAuth {
                auth_url: auth_url@,
                code: code@,
            },
            UserEvent::LoadItem(item) => UserEventView::LoadItem(item@),
        }
    }
}

/// What the window is told when the authenticator speaks: a code is shown to
/// the user, and its approval brings the waiting screen back.
pub open spec fn announced(message: AuthMessageView) -> UserEventView {
    match message {
        AuthMessageView::HasClientCode(auth_url, code) => UserEventView::WaitingForAuth {
            auth_url,
            code,
        },
        AuthMessageView::Completed => UserEventView::Loading,
    }
}

/// What the window is told when the authenticator speaks.
pub fn on_auth_message(message: AuthMessage) -> (event: UserEvent)
    ensures
        event@ == announced(message@),
{
    match message {
        AuthMessage::HasClientCode(auth_url, code) => UserEvent::WaitingForAuth { auth_url, code },
        AuthMessage::Completed => UserEvent::Loading,
    }
}

/// The sum of two readings, or the largest reading where the sum is beyond it.
pub open spec fn capped_sum(a: u64, b: u64) -> u64 {
    if a + b <= u64::MAX {
        (a + b) as u64
    } else {
        u64::MAX
    }
}

/// The product of two numbers, or the largest number where the product is
/// beyond it.
pub open spec fn capped_product(a: u64, b: u64) -> u64 {
    if a * b <= u64::MAX {
        (a * b) as u64
    } else {
        u64::MAX
    }
}

fn add_capped(a: u64, b: u64) -> (sum: u64)
    ensures
        sum == capped_sum(a, b),
{
    if b > u64::MAX - a {
        u64::MAX
    } else {
        a + b
    }
}

fn multiply_capped(a: u64, b: u64) -> (product: u64)
    ensures
        product == capped_product(a, b),
{
    match a.checked_mul(b) {
        Some(product) => product,
        None => u64::MAX,
    }
}

/// The items of the slideshow, as they were gathered.
#[derive(Debug, PartialEq, Eq)]
pub struct ItemList {
    pub items: Vec<Item>,
    /// Milliseconds for which a picture stays.
    pub interval: u64,
    /// The reading of the clock from which on the list is gathered anew.
    pub refresh_after: u64,
}

/// What an [`ItemList`] says, over characters.
pub struct ItemListView {
    pub items: Seq<ItemView>,
    pub interval: u64,
    pub refresh_after: u64,
}

impl View for ItemList {
    type V = ItemListView;

    open spec fn view(&self) -> ItemListView {
        ItemListView {
            items: items_of(self.items@),
            interval: self.interval,
            refresh_after: self.refresh_after,
        }
    }
}

impl ItemListView {
    /// Whether the list is to be gathered anew at `now`.
    pub open spec fn stale(self, now: u64) -> bool {
        now >= self.refresh_after
    }
}

impl ItemList {
    /// The list of `items` gathered at `now`, with pictures that stay for
    /// `interval` seconds. It is used for an hour.
    pub fn new(items: Vec<Item>, interval: u64, now: u64) -> (list: ItemList)
        ensures
            list@ == (ItemListView {
                items: items_of(items@),
                interval: capped_product(interval, 1000),
                refresh_after: capped_sum(now, ITEM_LIST_REFRESH_TIME),
            }),
    {
        ItemList {
            items,
            interval: multiply_capped(interval, 1000),
            refresh_after: add_capped(now, ITEM_LIST_REFRESH_TIME),
        }
    }
}

/// What is to be done to get the next item.
#[derive(Debug, PartialEq, Eq)]
pub enum NextItem {
    /// Gather the list of items, make an [`ItemList`] of it and ask again.
    Refresh,
    /// Load the item as the first says; the second is the list in use.
    Load(Load, ItemList),
    /// There is no item this time; the second is the list in use.
    Failed(SlideshowError, ItemList),
}

/// What a [`NextItem`] says, over characters.
pub enum NextItemView {
    Refresh,
    Load(LoadView, ItemListView),
    Failed(SlideshowErrorView, ItemListView),
}

impl View for NextItem {
    type V = NextItemView;

    open spec fn view(&self) -> NextItemView {
        match self {
            NextItem::Refresh => NextItemView::Refresh,
            NextItem::Load(load, list) => NextItemView::Load(load@, list@),
            NextItem::Failed(error, list) => NextItemView::Failed(error@, list@),
        }
    }
}

/// What is to be done when the item at `index` of `list` is the next one, for
/// a loader of the drive at `base` and a caller with `token`. There is
/// nothing to show at an index beyond the list, and so in an empty list.
pub open spec fn chosen(base: Seq<char>, token: Seq<char>, list: ItemListView, index: int) -> NextItemView {
    if 0 <= index < list.items.len() {
        match planned(base, token, list.items[index]) {
            Some(load) => NextItemView::Load(load, list),
            None => NextItemView::Failed(SlideshowErrorView::Address, list),
        }
    } else {
        NextItemView::Failed(SlideshowErrorView::NothingToShow, list)
    }
}

/// What is to be done when the item at `index` of `list` is the next one.
pub fn choose_item(loader: &ItemLoader, token: &str, list: ItemList, index: usize) -> (next:
    NextItem)
    ensures
        next@ == chosen(loader@.base_url, token@, list@, index as int),
{
    if index >= list.items.len() {
        return NextItem::Failed(SlideshowError::NothingToShow, list);
    }
    match loader.load(token, list.items.as_slice(), index) {
        Some(load) => NextItem::Load(load, list),
        None => NextItem::Failed(SlideshowError::Address, list),
    }
}

/// Says what is to be done to get the next item at `now`, given the list in
/// use, if there is one.
///
/// Without a list, and with one that has been used for its hour, the list is
/// to be gathered first. Otherwise one item of the list is picked at random
/// and is to be loaded; the list stays in use whether or not that can be done.
/// In an empty list there is nothing to show.
pub fn get_next_item(loader: &ItemLoader, token: &str, all_items: Option<ItemList>, now: u64) -> (next:
    NextItem)
    ensures
        match all_items {
            Some(list) if !list@.stale(now) => {
                if list@.items.len() == 0 {
                    next@ == NextItemView::Failed(SlideshowErrorView::NothingToShow, list@)
                } else {
                    exists|index: int|
                        0 <= index < list@.items.len() && next@ == #[trigger] chosen(
                            loader@.base_url,
                            token@,
                            list@,
                            index,
                        )
                }
            },
            _ => next is Refresh,
        },
{
    match all_items {
        Some(list) => {
            if now >= list.refresh_after {
                NextItem::Refresh
            } else if list.items.len() == 0 {
                choose_item(loader, token, list, 0)
            } else {
                let index = crate::item_loader::random_index(list.items.len());
                let next = choose_item(loader, token, list, index);
                assert(next@ == chosen(loader@.base_url, token@, list@, index as int));
                next
            }
        },
        None => NextItem::Refresh,
    }
}

/// Milliseconds for which `item` stays when pictures stay for `interval`
/// milliseconds: a picture for that time, a video for twice its length.
pub open spec fn stay(item: ItemView, interval: u64) -> u64 {
    match item {
        ItemView::Image(_) => interval,
        ItemView::Video(_, duration) => capped_product(duration, 2),
    }
}

/// Milliseconds for which `item` of `list` stays before the next one is
/// shown.
pub fn display_time(item: &Item, list: &ItemList) -> (time: u64)
    ensures
        time == stay(item@, list@.interval),
{
    match item {
        Item::Image(_) => list.interval,
        Item::Video(_, duration) => multiply_capped(*duration, 2),
    }
}

/// What the window shows and what it showed before.
#[derive(Debug, PartialEq, Eq)]
pub struct Screen {
    pub current: Option<Item>,
    pub previous: Option<Item>,
}

/// What a [`Screen`] says, over characters.
pub struct ScreenView {
    pub current: Option<ItemView>,
    pub previous: Option<ItemView>,
}

/// What an optional item says.
pub open spec fn item_of(item: Option<Item>) -> Option<ItemView> {
    match item {
        Some(item) => Some(item@),
        None => None,
    }
}

impl View for Screen {
    type V = ScreenView;

    open spec fn view(&self) -> ScreenView {
        ScreenView { current: item_of(self.current), previous: item_of(self.previous) }
    }
}

impl ScreenView {
    /// The screen once `item` has been handed to it, and the identifier of the
    /// picture to draw. A picture takes the place of what is shown, which
    /// becomes what was shown before. A video is not shown, and nothing
    /// changes.
    pub open spec fn show(self, item: ItemView) -> (ScreenView, Option<Seq<char>>) {
        match item {
            ItemView::Image(id) => (
                ScreenView { current: Some(item), previous: self.current },
                Some(id),
            ),
            ItemView::Video(_, _) => (self, None),
        }
    }

    /// The screen once the user has asked for the item before, and the
    /// identifier of the picture to draw. What was shown before is shown
    /// again, and what is shown becomes what was shown before. Without an item
    /// before nothing changes.
    pub open spec fn back(self) -> (ScreenView, Option<Seq<char>>) {
        match self.previous {
            Some(item) => ScreenView { current: self.current, previous: None }.show(item),
            None => (self, None),
        }
    }
}

impl Screen {
    /// A screen that has shown nothing yet.
    pub fn new() -> (screen: Screen)
        ensures
            screen@ == (ScreenView { current: None, previous: None }),
    {
        Screen { current: None, previous: None }
    }

    /// Hands `item` to the screen and returns the identifier of the picture to
    /// draw, if there is one: see [`ScreenView::show`].
    pub fn show(&mut self, item: Item) -> (picture: Option<String>)
        ensures
            (final(self)@, text_of(picture)) == old(self)@.show(item@),
    {
        match &item {
            Item::Image(id) => {
                let picture = id.clone();
                let mut shown = Some(item);
                core::mem::swap(&mut self.current, &mut shown);
                self.previous = shown;
                Some(picture)
            },
            Item::Video(_, _) => None,
        }
    }

    /// Goes back to the item before and returns the identifier of the picture
    /// to draw, if there is one: see [`ScreenView::back`].
    pub fn back(&mut self) -> (picture: Option<String>)
        ensures
            (final(self)@, text_of(picture)) == old(self)@.back(),
    {
        let mut before: Option<Item> = None;
        core::mem::swap(&mut self.previous, &mut before);
        match before {
            Some(item) => self.show(item),
            None => None,
        }
    }
}

/// The key of the cached file that a request for `path` asks for: the path
/// without the slash that it begins with. There is none for an empty path.
pub open spec fn requested_key(path: Seq<char>) -> Option<Seq<char>> {
    if path.len() == 0 {
        None
    } else {
        Some(path.drop_first())
    }
}

/// The key of the cached file that a request for `path` asks for.
pub fn protocol_handler(path: &str) -> (key: Option<String>)
    ensures
        text_of(key) == requested_key(path@),
{
    let length = path.unicode_len();
    if length == 0 {
        None
    } else {
        let key = path.substring_char(1, length).to_owned();
        assert(path@.subrange(1, length as int) =~= path@.drop_first());
        Some(key)
    }
}

} // verus!
