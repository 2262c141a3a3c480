//! Collecting all items of a turn from a store that hands them out in pages.
use vstd::prelude::*;

use crate::rpc::{internal_error, internal_server_error, ErrorView, JSONRPCErrorError};
use crate::text::opt_text;
use crate::turn::{items_view, ThreadItem, ThreadItemView};

verus! {

/// The order of the items on the pages.
#[derive(Debug, Clone, Copy, PartialEq, Eq, Structural)]
pub enum StoreSortDirection {
    Asc,
    Desc,
}

/// What the items are ordered by.
#[derive(Debug, Clone, Copy, PartialEq, Eq, Structural)]
pub enum StoreItemSortKey {
    CreatedAtOrdinal,
    UpdatedAtOrdinal,
}

/// Asks the store for one page of items.
#[derive(Debug, PartialEq, Eq)]
pub struct StoreListItemsParams {
    pub thread_id: String,
    pub turn_id: Option<String>,
    pub include_archived: bool,
    pub cursor: Option<String>,
    pub page_size: usize,
    pub sort_direction: StoreSortDirection,
    pub sort_key: StoreItemSortKey,
    pub after_updated_at_ordinal: Option<i64>,
}

/// A request for a page as its parts.
pub struct ListItemsView {
    pub thread_id: Seq<char>,
    pub turn_id: Option<Seq<char>>,
    pub include_archived: bool,
    pub cursor: Option<Seq<char>>,
    pub page_size: usize,
    pub sort_direction: StoreSortDirection,
    pub sort_key: StoreItemSortKey,
    pub after_updated_at_ordinal: Option<i64>,
}

impl View for StoreListItemsParams {
    type V = ListItemsView;

    open spec fn view(&self) -> ListItemsView {
        ListItemsView {
            thread_id: self.thread_id@,
            turn_id: opt_text(self.turn_id),
            include_archived: self.include_archived,
            cursor: opt_text(self.cursor),
            page_size: self.page_size,
            sort_direction: self.sort_direction,
            sort_key: self.sort_key,
            after_updated_at_ordinal: self.after_updated_at_ordinal,
        }
    }
}

/// One page: each stored item as what it decodes to, or why it does not decode,
/// and where the next page begins.
#[derive(Debug, PartialEq, Eq)]
pub struct ItemsPage {
    pub items: Vec<Result<ThreadItem, JSONRPCErrorError>>,
    pub next_cursor: Option<String>,
}

/// A page as its parts.
pub struct PageView {
    pub items: Seq<Result<ThreadItemView, ErrorView>>,
    pub next_cursor: Option<Seq<char>>,
}

/// A result as the views of its two sides.
pub open spec fn item_result_view(result: Result<ThreadItem, JSONRPCErrorError>) -> Result<
    ThreadItemView,
    ErrorView,
> {
    match result {
        Ok(item) => Ok(item@),
        Err(error) => Err(error@),
    }
}

impl View for ItemsPage {
    type V = PageView;

    open spec fn view(&self) -> PageView {
        PageView {
            items: self.items@.map_values(
                |result: Result<ThreadItem, JSONRPCErrorError>| item_result_view(result),
            ),
            next_cursor: opt_text(self.next_cursor),
        }
    }
}

/// The error of the first item that does not decode.
pub open spec fn first_failure(items: Seq<Result<ThreadItemView, ErrorView>>) -> Option<ErrorView>
    decreases items.len(),
{
    if items.len() == 0 {
        None
    } else {
        match items[0] {
            Err(error) => Some(error),
            Ok(_) => first_failure(items.drop_first()),
        }
    }
}

/// The items of a page on which every item decodes.
pub open spec fn decoded(items: Seq<Result<ThreadItemView, ErrorView>>) -> Seq<ThreadItemView> {
    items.map_values(|item: Result<ThreadItemView, ErrorView>| item->Ok_0)
}

/// The message where a store hands out a cursor that it was just asked with.
pub open spec fn repeated_cursor_message(turn_id: Seq<char>) -> Seq<char> {
    "failed to load full turn items for "@ + turn_id
        + ": thread store returned a repeated cursor"@
}

/// Collects the items of one turn page by page.
#[derive(Debug)]
pub struct TurnItemsPager {
    thread_id: String,
    turn_id: String,
    page_size: usize,
    cursor: Option<String>,
    items: Vec<ThreadItem>,
}

/// A pager: what it asks for, and what it has.
pub struct PagerView {
    pub thread_id: Seq<char>,
    pub turn_id: Seq<char>,
    pub page_size: usize,
    pub cursor: Option<Seq<char>>,
    pub items: Seq<ThreadItemView>,
}

/// What a page leads to: all items are there, or the work has failed, or the
/// next page is due.
#[derive(Debug)]
pub enum PagerStep {
    Finished(Vec<ThreadItem>),
    Failed(JSONRPCErrorError),
    More(TurnItemsPager),
}

/// What a page leads to, as views.
pub enum PagerStepView {
    Finished(Seq<ThreadItemView>),
    Failed(ErrorView),
    More(PagerView),
}

impl PagerView {
    /// The pager before the first page.
    pub open spec fn start(
        thread_id: Seq<char>,
        turn_id: Seq<char>,
        page_size: usize,
    ) -> PagerView {
        PagerView { thread_id, turn_id, page_size, cursor: None, items: Seq::empty() }
    }

    /// The page that is due: of the items of the turn, archived ones too, in
    /// the order in which they were created.
    pub open spec fn request(self) -> ListItemsView {
        ListItemsView {
            thread_id: self.thread_id,
            turn_id: Some(self.turn_id),
            include_archived: true,
            cursor: self.cursor,
            page_size: self.page_size,
            sort_direction: StoreSortDirection::Asc,
            sort_key: StoreItemSortKey::CreatedAtOrdinal,
            after_updated_at_ordinal: None,
        }
    }

    /// A page that cannot be had fails the work, and so does the first item
    /// that does not decode. A page without a cursor is the last one. A page
    /// whose cursor is the one it was asked with would come again for ever.
    pub open spec fn after_page(self, page: Result<PageView, ErrorView>) -> PagerStepView {
        match page {
            Err(error) => PagerStepView::Failed(error),
            Ok(page) => match first_failure(page.items) {
                Some(error) => PagerStepView::Failed(error),
                None => {
                    let items = self.items + decoded(page.items);
                    match page.next_cursor {
                        None => PagerStepView::Finished(items),
                        Some(cursor) => if self.cursor == Some(cursor) {
                            PagerStepView::Failed(
                                internal_server_error(repeated_cursor_message(self.turn_id)),
                            )
                        } else {
                            PagerStepView::More(PagerView { cursor: Some(cursor), items, ..self })
                        },
                    }
                },
            },
        }
    }
}

impl View for TurnItemsPager {
    type V = PagerView;

    closed spec fn view(&self) -> PagerView {
        PagerView {
            thread_id: self.thread_id@,
            turn_id: self.turn_id@,
            page_size: self.page_size,
            cursor: opt_text(self.cursor),
            items: items_view(self.items@),
        }
    }
}

impl View for PagerStep {
    type V = PagerStepView;

    open spec fn view(&self) -> PagerStepView {
        match *self {
            PagerStep::Finished(items) => PagerStepView::Finished(items_view(items@)),
            PagerStep::Failed(error) => PagerStepView::Failed(error@),
            PagerStep::More(pager) => PagerStepView::More(pager@),
        }
    }
}

/// A page that may not have come, as views.
pub open spec fn page_result_view(page: Result<ItemsPage, JSONRPCErrorError>) -> Result<
    PageView,
    ErrorView,
> {
    match page {
        Ok(page) => Ok(page@),
        Err(error) => Err(error@),
    }
}

impl TurnItemsPager {
    /// A pager that has no page yet.
    pub fn new(thread_id: String, turn_id: String, page_size: usize) -> (pager: TurnItemsPager)
        ensures
            pager@ == PagerView::start(thread_id@, turn_id@, page_size),
            pager@.thread_id == thread_id@,
            pager@.turn_id == turn_id@,
            pager@.page_size == page_size,
            pager@.cursor is None,
            pager@.items.len() == 0,
    {
        let pager = TurnItemsPager {
            thread_id,
            turn_id,
            page_size,
            cursor: None,
            items: Vec::new(),
        };
        assert(pager@.items =~= Seq::<ThreadItemView>::empty());
        pager
    }

    /// The page that is due.
    pub fn request(&self) -> (params: StoreListItemsParams)
        ensures
            params@ == self@.request(),
            params.thread_id@ == self@.thread_id,
            params.turn_id is Some,
            params.turn_id->0@ == self@.turn_id,
            params.include_archived,
            opt_text(params.cursor) == self@.cursor,
            params.page_size == self@.page_size,
            params.sort_direction is Asc,
            params.sort_key is CreatedAtOrdinal,
            params.after_updated_at_ordinal is None,
    {
        StoreListItemsParams {
            thread_id: self.thread_id.clone(),
            turn_id: Some(self.turn_id.clone()),
            include_archived: true,
            cursor: self.cursor.clone(),
            page_size: self.page_size,
            sort_direction: StoreSortDirection::Asc,
            sort_key: StoreItemSortKey::CreatedAtOrdinal,
            after_updated_at_ordinal: None,
        }
    }

    /// Takes in the page that was due.
    pub fn on_page(self, page: Result<ItemsPage, JSONRPCErrorError>) -> (step: PagerStep)
        ensures
            step@ == self@.after_page(page_result_view(page)),
            page matches Err(error) ==> step == PagerStep::Failed(error),
            page matches Ok(page) ==> {
                let had = self@.items.len() as int;
                if exists|i: int| 0 <= i < page.items@.len() && #[trigger] page.items@[i] is Err {
                    &&& step is Failed
                    &&& exists|i: int|
                        0 <= i < page.items@.len() && #[trigger] page.items@[i] == Err::<
                            ThreadItem,
                            JSONRPCErrorError,
                        >(step->Failed_0) && (forall|k: int|
                            0 <= k < i ==> #[trigger] page.items@[k] is Ok)
                } else if page.next_cursor is None {
                    &&& step is Finished
                    &&& step->Finished_0@.len() == had + page.items@.len()
                    &&& forall|i: int|
                        0 <= i < had ==> #[trigger] step->Finished_0@[i]@ == self@.items[i]
                    &&& forall|i: int|
                        0 <= i < page.items@.len() ==> #[trigger] page.items@[i] == Ok::<
                            ThreadItem,
                            JSONRPCErrorError,
                        >(step->Finished_0@[had + i])
                } else if self@.cursor == Some(page.next_cursor->0@) {
                    &&& step is Failed
                    &&& step->Failed_0.code == -32603
                    &&& step->Failed_0.message@ == "failed to load full turn items for "@
                        + self@.turn_id + ": thread store returned a repeated cursor"@
                    &&& step->Failed_0.data is None
                } else {
                    &&& step is More
                    &&& step->More_0@.items.len() == had + page.items@.len()
                    &&& forall|i: int|
                        0 <= i < had ==> #[trigger] step->More_0@.items[i] == self@.items[i]
                    &&& forall|i: int|
                        0 <= i < page.items@.len() ==> (#[trigger] page.items@[i])->Ok_0@
                            == step->More_0@.items[had + i]
                    &&& step->More_0@.cursor == Some(page.next_cursor->0@)
                    &&& step->More_0@.thread_id == self@.thread_id
                    &&& step->More_0@.turn_id == self@.turn_id
                    &&& step->More_0@.page_size == self@.page_size
                }
            },
    {
        let page = match page {
            Ok(page) => page,
            Err(error) => {
                return PagerStep::Failed(error);
            },
        };
        let mut pager = self;
        match pager.push_items(page.items) {
            Ok(()) => {},
            Err(error) => {
                return PagerStep::Failed(error);
            },
        }
        let next_cursor = match page.next_cursor {
            Some(next_cursor) => next_cursor,
            None => {
                return PagerStep::Finished(pager.items);
            },
        };
        let repeated = match &pager.cursor {
            Some(cursor) => *cursor == next_cursor,
            None => false,
        };
        if repeated {
            let mut message = "failed to load full turn items for ".to_string();
            message.append(pager.turn_id.as_str());
            message.append(": thread store returned a repeated cursor");
            return PagerStep::Failed(internal_error(message));
        }
        pager.cursor = Some(next_cursor);
        PagerStep::More(pager)
    }

    /// Adds the items of a page, up to the first that does not decode.
    fn push_items(&mut self, items: Vec<Result<ThreadItem, JSONRPCErrorError>>) -> (result: Result<
        (),
        JSONRPCErrorError,
    >)
        ensures
            match result {
                Ok(()) => first_failure(items@.map_values(|r| item_result_view(r))) is None
                    && final(self)@ == (PagerView {
                    items: old(self)@.items + decoded(items@.map_values(|r| item_result_view(r))),
                    ..old(self)@
                }),
                Err(error) => first_failure(items@.map_values(|r| item_result_view(r))) == Some(
                    error@,
                ),
            },
            match result {
                Ok(()) => {
                    &&& final(self).items@.len() == old(self).items@.len() + items@.len()
                    &&& forall|i: int|
                        0 <= i < old(self).items@.len() ==> #[trigger] final(self).items@[i]
                            == old(self).items@[i]
                    &&& forall|i: int|
                        0 <= i < items@.len() ==> #[trigger] items@[i] == Ok::<
                            ThreadItem,
                            JSONRPCErrorError,
                        >(final(self).items@[old(self).items@.len() + i])
                },
                Err(error) => exists|i: int|
                    0 <= i < items@.len() && #[trigger] items@[i] == Err::<
                        ThreadItem,
                        JSONRPCErrorError,
                    >(error) && (forall|k: int| 0 <= k < i ==> #[trigger] items@[k] is Ok),
            },
    {
        let ghost results = items@.map_values(|r| item_result_view(r));
        let ghost before = self@;
        let ghost first = self.items@;
        assert(results.skip(0) =~= results);
        assert(before.items + decoded(results.take(0)) =~= before.items);
        for item in iter: items
            invariant
                iter.seq() == items@,
                results == items@.map_values(|r| item_result_view(r)),
                first_failure(results) == first_failure(results.skip(iter.index())),
                self@ == (PagerView {
                    items: before.items + decoded(results.take(iter.index())),
                    ..before
                }),
                first == old(self).items@,
                self.items@.len() == first.len() + iter.index(),
                forall|k: int| 0 <= k < first.len() ==> #[trigger] self.items@[k] == first[k],
                forall|k: int|
                    0 <= k < iter.index() ==> #[trigger] items@[k] == Ok::<
                        ThreadItem,
                        JSONRPCErrorError,
                    >(self.items@[first.len() + k]),
        {
            let ghost at = iter.index();
            assert(results[at] == item_result_view(item));
            assert(results.skip(at)[0] == results[at]);
            assert(results.skip(at).drop_first() =~= results.skip(at + 1));
            match item {
                Ok(item) => {
                    let ghost held = self@.items;
                    self.items.push(item);
                    assert(self@.items =~= held.push(item@));
                    assert(before.items + decoded(results.take(at + 1)) =~= held.push(item@));
                },
                Err(error) => {
                    return Err(error);
                },
            }
        }
        assert(results.take(results.len() as int) =~= results);
        Ok(())
    }
}

impl PagerView {
    /// What the pages lead to, taken in order until the work is over.
    pub open spec fn after_pages(self, pages: Seq<Result<PageView, ErrorView>>) -> PagerStepView
        decreases pages.len(),
    {
        if pages.len() == 0 {
            PagerStepView::More(self)
        } else {
            match self.after_page(pages[0]) {
                PagerStepView::More(pager) => pager.after_pages(pages.drop_first()),
                over => over,
            }
        }
    }
}

/// The page has come, and every item on it decodes.
pub open spec fn is_readable(page: Result<PageView, ErrorView>) -> bool {
    page is Ok && first_failure(page->Ok_0.items) is None
}

/// The items of the pages, page after page.
pub open spec fn items_of_pages(pages: Seq<Result<PageView, ErrorView>>) -> Seq<ThreadItemView>
    decreases pages.len(),
{
    if pages.len() == 0 {
        Seq::empty()
    } else {
        decoded(pages[0]->Ok_0.items) + items_of_pages(pages.drop_first())
    }
}

/// The pages of a whole turn, the first one asked for with `cursor`: all are
/// readable, each but the last leads to another one, and none leads to itself.
pub open spec fn is_whole_turn(
    cursor: Option<Seq<char>>,
    pages: Seq<Result<PageView, ErrorView>>,
) -> bool
    decreases pages.len(),
{
    &&& pages.len() > 0
    &&& is_readable(pages[0])
    &&& if pages.len() == 1 {
        pages[0]->Ok_0.next_cursor is None
    } else {
        &&& pages[0]->Ok_0.next_cursor is Some
        &&& pages[0]->Ok_0.next_cursor != cursor
        &&& is_whole_turn(pages[0]->Ok_0.next_cursor, pages.drop_first())
    }
}

/// The pages of a whole turn give all its items, page after page, and nothing
/// else.
pub proof fn law_whole_turn_is_collected(pager: PagerView, pages: Seq<Result<PageView, ErrorView>>)
    requires
        is_whole_turn(pager.cursor, pages),
    ensures
        pager.after_pages(pages) == PagerStepView::Finished(pager.items + items_of_pages(pages)),
    decreases pages.len(),
{
    let items = pager.items + decoded(pages[0]->Ok_0.items);
    if pages.len() == 1 {
        assert(pages.drop_first() =~= Seq::<Result<PageView, ErrorView>>::empty());
        assert(items_of_pages(pages.drop_first()) =~= Seq::<ThreadItemView>::empty());
        assert(pager.items + items_of_pages(pages) =~= items);
    } else {
        let next = PagerView { cursor: pages[0]->Ok_0.next_cursor, items, ..pager };
        assert(pager.after_page(pages[0]) == PagerStepView::More(next));
        law_whole_turn_is_collected(next, pages.drop_first());
        assert(next.items + items_of_pages(pages.drop_first()) =~= pager.items + items_of_pages(
            pages,
        ));
    }
}

/// A pager finishes only with the pages of a whole turn: what it hands out is
/// never cut short, and holds each item once for each page that it is on.
pub proof fn law_only_a_whole_turn_finishes(
    pager: PagerView,
    pages: Seq<Result<PageView, ErrorView>>,
) -> (used: nat)
    requires
        pager.after_pages(pages) is Finished,
    ensures
        used <= pages.len(),
        is_whole_turn(pager.cursor, pages.take(used as int)),
        pager.after_pages(pages) == PagerStepView::Finished(
            pager.items + items_of_pages(pages.take(used as int)),
        ),
    decreases pages.len(),
{
    let used: nat = match pager.after_page(pages[0]) {
        PagerStepView::More(next) => {
            let rest = law_only_a_whole_turn_finishes(next, pages.drop_first());
            assert(pages.take(rest as int + 1).drop_first() =~= pages.drop_first().take(
                rest as int,
            ));
            assert(pages.take(rest as int + 1)[0] == pages[0]);
            rest + 1
        },
        _ => {
            assert(pages.take(1)[0] == pages[0]);
            1
        },
    };
    law_whole_turn_is_collected(pager, pages.take(used as int));
    if pager.after_page(pages[0]) is More {
        let next = pager.after_page(pages[0])->More_0;
        assert(pages.take(used as int).drop_first() =~= pages.drop_first().take(used - 1));
        assert(next.after_pages(pages.drop_first()) == PagerStepView::Finished(
            next.items + items_of_pages(pages.drop_first().take(used - 1)),
        ));
        assert(next.items + items_of_pages(pages.drop_first().take(used - 1)) =~= pager.items
            + items_of_pages(pages.take(used as int)));
    }
    used
}

/// The next page is asked for with the cursor that the page before gave, and
/// with nothing else changed; so no two requests in a row are the same.
pub proof fn law_next_request_follows_cursor(pager: PagerView, page: Result<PageView, ErrorView>)
    ensures
        pager.after_page(page) matches PagerStepView::More(next) ==> {
            &&& page is Ok
            &&& page->Ok_0.next_cursor is Some
            &&& next.request() == (ListItemsView {
                cursor: page->Ok_0.next_cursor,
                ..pager.request()
            })
            &&& next.request() != pager.request()
        },
{
}

/// A store that answers a request with the cursor of that request is told so;
/// the items of that page do not help.
pub proof fn law_repeated_cursor_fails(pager: PagerView, page: PageView)
    requires
        first_failure(page.items) is None,
        page.next_cursor is Some,
        page.next_cursor == pager.cursor,
    ensures
        pager.after_page(Ok(page)) == PagerStepView::Failed(
            internal_server_error(repeated_cursor_message(pager.turn_id)),
        ),
{
}

/// A page on which every item decodes fails nowhere, and a page on which some
/// item does not fails with the error of the first such item.
pub proof fn law_first_bad_item_fails_the_page(items: Seq<Result<ThreadItemView, ErrorView>>)
    ensures
        first_failure(items) is None <==> forall|i: int|
            0 <= i < items.len() ==> #[trigger] items[i] is Ok,
        forall|i: int|
            0 <= i < items.len() && #[trigger] items[i] is Err && (forall|k: int|
                0 <= k < i ==> #[trigger] items[k] is Ok) ==> first_failure(items) == Some(
                items[i]->Err_0,
            ),
    decreases items.len(),
{
    if items.len() > 0 {
        let rest = items.drop_first();
        law_first_bad_item_fails_the_page(rest);
        assert forall|i: int| 0 <= i < rest.len() implies #[trigger] rest[i] == items[i + 1] by {}
        if first_failure(items) is None {
            assert forall|i: int| 0 <= i < items.len() implies #[trigger] items[i] is Ok by {
                if i > 0 {
                    assert(rest[i - 1] is Ok);
                }
            }
        }
        assert forall|i: int|
            0 <= i < items.len() && #[trigger] items[i] is Err && (forall|k: int|
                0 <= k < i ==> #[trigger] items[k] is Ok) implies first_failure(items) == Some(
            items[i]->Err_0,
        ) by {
            if i > 0 {
                assert(items[0] is Ok);
                assert(rest[i - 1] is Err);
                assert forall|k: int| 0 <= k < i - 1 implies #[trigger] rest[k] is Ok by {
                    assert(items[k + 1] is Ok);
                }
            }
        }
    }
}

/// A page on which every item decodes adds as many items as it has, each in its
/// place behind those that were there, and changes none of those.
pub proof fn law_page_adds_each_of_its_items(pager: PagerView, page: PageView)
    requires
        forall|i: int| 0 <= i < page.items.len() ==> #[trigger] page.items[i] is Ok,
        page.next_cursor is None || page.next_cursor != pager.cursor,
    ensures
        ({
            let step = pager.after_page(Ok(page));
            let items = if page.next_cursor is None {
                step->Finished_0
            } else {
                step->More_0.items
            };
            &&& page.next_cursor is None ==> step is Finished
            &&& page.next_cursor is Some ==> step is More
            &&& items.len() == pager.items.len() + page.items.len()
            &&& forall|i: int|
                0 <= i < pager.items.len() ==> #[trigger] items[i] == pager.items[i]
            &&& forall|i: int|
                0 <= i < page.items.len() ==> #[trigger] page.items[i] == Ok::<
                    ThreadItemView,
                    ErrorView,
                >(items[pager.items.len() + i])
        }),
{
    law_first_bad_item_fails_the_page(page.items);
}

/// A page that does not come fails with its error, and one with an item that
/// does not decode fails with the error of that item, wherever it would lead.
pub proof fn law_bad_page_fails_with_its_error(pager: PagerView, page: PageView, at: int)
    ensures
        forall|error: ErrorView| #[trigger]
            pager.after_page(Err(error)) == PagerStepView::Failed(error),
        0 <= at < page.items.len() && page.items[at] is Err && (forall|k: int|
            0 <= k < at ==> #[trigger] page.items[k] is Ok) ==> pager.after_page(Ok(page))
            == PagerStepView::Failed(page.items[at]->Err_0),
{
    law_first_bad_item_fails_the_page(page.items);
}

/// The client of a store that hands a cursor out again hears of the turn.
pub proof fn law_repeated_cursor_names_the_turn(pager: PagerView, page: PageView)
    requires
        forall|i: int| 0 <= i < page.items.len() ==> #[trigger] page.items[i] is Ok,
        page.next_cursor is Some,
        page.next_cursor == pager.cursor,
    ensures
        pager.after_page(Ok(page)) is Failed,
        pager.after_page(Ok(page))->Failed_0.code == -32603,
        pager.after_page(Ok(page))->Failed_0.message == "failed to load full turn items for "@
            + pager.turn_id + ": thread store returned a repeated cursor"@,
        pager.after_page(Ok(page))->Failed_0.data is None,
{
    law_first_bad_item_fails_the_page(page.items);
}

/// Every request is for the items of the pager's turn, archived ones too, the
/// oldest first, from the pager's cursor on; the first has no cursor.
pub proof fn law_requests_are_for_the_whole_turn(
    pager: PagerView,
    thread_id: Seq<char>,
    turn_id: Seq<char>,
    page_size: usize,
)
    ensures
        pager.request().thread_id == pager.thread_id,
        pager.request().turn_id == Some(pager.turn_id),
        pager.request().include_archived,
        pager.request().cursor == pager.cursor,
        pager.request().page_size == pager.page_size,
        pager.request().sort_direction is Asc,
        pager.request().sort_key is CreatedAtOrdinal,
        pager.request().after_updated_at_ordinal is None,
        PagerView::start(thread_id, turn_id, page_size).thread_id == thread_id,
        PagerView::start(thread_id, turn_id, page_size).turn_id == turn_id,
        PagerView::start(thread_id, turn_id, page_size).page_size == page_size,
        PagerView::start(thread_id, turn_id, page_size).cursor is None,
        PagerView::start(thread_id, turn_id, page_size).items.len() == 0,
{
}

/// A page that leads to another moves the cursor on, and leaves alone what the
/// requests are for.
pub proof fn law_next_pager_asks_on(pager: PagerView, page: PageView)
    requires
        forall|i: int| 0 <= i < page.items.len() ==> #[trigger] page.items[i] is Ok,
        page.next_cursor is Some,
        page.next_cursor != pager.cursor,
    ensures
        pager.after_page(Ok(page)) is More,
        pager.after_page(Ok(page))->More_0.cursor == page.next_cursor,
        pager.after_page(Ok(page))->More_0.thread_id == pager.thread_id,
        pager.after_page(Ok(page))->More_0.turn_id == pager.turn_id,
        pager.after_page(Ok(page))->More_0.page_size == pager.page_size,
{
    law_first_bad_item_fails_the_page(page.items);
}

/// The items of pages in a row are those of the first ones, then those of the
/// others; of one page they are its own, one for one.
pub proof fn law_pages_are_put_together(
    first: Seq<Result<PageView, ErrorView>>,
    second: Seq<Result<PageView, ErrorView>>,
    page: PageView,
)
    ensures
        items_of_pages(first + second) == items_of_pages(first) + items_of_pages(second),
        items_of_pages(seq![Ok(page)]).len() == page.items.len(),
        forall|i: int|
            0 <= i < page.items.len() && page.items[i] is Ok ==> #[trigger] page.items[i] == Ok::<
                ThreadItemView,
                ErrorView,
            >(items_of_pages(seq![Ok(page)])[i]),
    decreases first.len(),
{
    let one = seq![Ok::<PageView, ErrorView>(page)];
    assert(one.drop_first() =~= Seq::<Result<PageView, ErrorView>>::empty());
    assert(items_of_pages(one.drop_first()) =~= Seq::<ThreadItemView>::empty());
    assert(items_of_pages(one) =~= decoded(page.items));
    if first.len() == 0 {
        assert(first + second =~= second);
        assert(items_of_pages(first) + items_of_pages(second) =~= items_of_pages(second));
    } else {
        assert((first + second).drop_first() =~= first.drop_first() + second);
        law_pages_are_put_together(first.drop_first(), second, page);
        assert(items_of_pages(first + second) =~= items_of_pages(first) + items_of_pages(second));
    }
}

/// As many items are handed out as the pages hold together.
pub proof fn law_no_item_is_lost(pages: Seq<Result<PageView, ErrorView>>)
    ensures
        items_of_pages(pages).len() == pages.fold_left(
            0int,
            |sum: int, page: Result<PageView, ErrorView>| sum + page->Ok_0.items.len(),
        ),
    decreases pages.len(),
{
    let add = |sum: int, page: Result<PageView, ErrorView>| sum + page->Ok_0.items.len();
    if pages.len() > 0 {
        let last = pages.last();
        law_no_item_is_lost(pages.drop_last());
        assert(pages =~= pages.drop_last() + seq![last]);
        law_pages_are_put_together(pages.drop_last(), seq![last], last->Ok_0);
        assert(seq![last].drop_first() =~= Seq::<Result<PageView, ErrorView>>::empty());
        assert(items_of_pages(seq![last].drop_first()).len() == 0);
        assert(items_of_pages(seq![last]) =~= decoded(last->Ok_0.items));
    }
}

/// The pages of a whole turn are those of which every one has come, with items
/// that all decode, of which every one but the last leads on to a cursor that it
/// was not asked with, and of which the last leads nowhere.
pub proof fn law_whole_turn_is_readable_to_its_end(
    cursor: Option<Seq<char>>,
    pages: Seq<Result<PageView, ErrorView>>,
)
    ensures
        is_whole_turn(cursor, pages) <==> {
            &&& pages.len() > 0
            &&& forall|k: int| 0 <= k < pages.len() ==> #[trigger] pages[k] is Ok
            &&& forall|k: int, i: int|
                0 <= k < pages.len() && 0 <= i < pages[k]->Ok_0.items.len()
                    ==> #[trigger] pages[k]->Ok_0.items[i] is Ok
            &&& forall|k: int|
                0 <= k < pages.len() ==> ((#[trigger] pages[k])->Ok_0.next_cursor is Some <==> k
                    < pages.len() - 1)
            &&& pages.len() > 1 ==> pages[0]->Ok_0.next_cursor != cursor
            &&& forall|k: int|
                0 < k < pages.len() - 1 ==> (#[trigger] pages[k])->Ok_0.next_cursor
                    != pages[k - 1]->Ok_0.next_cursor
        },
    decreases pages.len(),
{
    if pages.len() > 0 {
        law_first_bad_item_fails_the_page(pages[0]->Ok_0.items);
        if pages.len() > 1 {
            let rest = pages.drop_first();
            law_whole_turn_is_readable_to_its_end(pages[0]->Ok_0.next_cursor, rest);
            assert forall|k: int| 0 <= k < rest.len() implies #[trigger] rest[k] == pages[k
                + 1] by {}
            assert forall|k: int| 0 < k < pages.len() implies #[trigger] pages[k] == rest[k
                - 1] by {}
            if is_whole_turn(cursor, pages) {
                assert forall|k: int, i: int|
                    0 <= k < pages.len() && 0 <= i
                        < pages[k]->Ok_0.items.len() implies #[trigger] pages[k]->Ok_0.items[i]
                    is Ok by {
                    if k > 0 {
                        assert(rest[k - 1]->Ok_0.items[i] is Ok);
                    }
                }
                assert forall|k: int| 0 < k < pages.len() - 1 implies (
                #[trigger] pages[k])->Ok_0.next_cursor != pages[k - 1]->Ok_0.next_cursor by {
                    if k == 1 {
                        assert(rest[0] == pages[1]);
                    } else {
                        assert(rest[k - 1]->Ok_0.next_cursor != rest[k - 2]->Ok_0.next_cursor);
                    }
                }
            } else {
                let all = {
                    &&& pages.len() > 0
                    &&& forall|k: int| 0 <= k < pages.len() ==> #[trigger] pages[k] is Ok
                    &&& forall|k: int, i: int|
                        0 <= k < pages.len() && 0 <= i < pages[k]->Ok_0.items.len()
                            ==> #[trigger] pages[k]->Ok_0.items[i] is Ok
                    &&& forall|k: int|
                        0 <= k < pages.len() ==> ((#[trigger] pages[k])->Ok_0.next_cursor is Some
                            <==> k < pages.len() - 1)
                    &&& pages.len() > 1 ==> pages[0]->Ok_0.next_cursor != cursor
                    &&& forall|k: int|
                        0 < k < pages.len() - 1 ==> (#[trigger] pages[k])->Ok_0.next_cursor
                            != pages[k - 1]->Ok_0.next_cursor
                };
                if all {
                    assert(pages[0] is Ok);
                    assert forall|k: int, i: int|
                        0 <= k < rest.len() && 0 <= i
                            < rest[k]->Ok_0.items.len() implies #[trigger] rest[k]->Ok_0.items[i]
                        is Ok by {
                        assert(pages[k + 1]->Ok_0.items[i] is Ok);
                    }
                    assert forall|k: int| 0 < k < rest.len() - 1 implies (
                    #[trigger] rest[k])->Ok_0.next_cursor != rest[k - 1]->Ok_0.next_cursor by {
                        assert(pages[k + 1]->Ok_0.next_cursor != pages[k]->Ok_0.next_cursor);
                    }
                    assert(rest.len() > 1 ==> rest[0]->Ok_0.next_cursor
                        != pages[0]->Ok_0.next_cursor) by {
                        assert(rest[0] == pages[1]);
                    }
                    assert(is_whole_turn(pages[0]->Ok_0.next_cursor, rest));
                }
            }
        }
    }
}

/// All of a request for a page is seen.
pub proof fn law_list_items_params_are_seen_whole(params: StoreListItemsParams)
    ensures
        params@.thread_id == params.thread_id@,
        params@.turn_id == opt_text(params.turn_id),
        params@.include_archived == params.include_archived,
        params@.cursor == opt_text(params.cursor),
        params@.page_size == params.page_size,
        params@.sort_direction == params.sort_direction,
        params@.sort_key == params.sort_key,
        params@.after_updated_at_ordinal == params.after_updated_at_ordinal,
{
}

/// All of a page is seen, each item in its place.
pub proof fn law_page_is_seen_whole(page: ItemsPage)
    ensures
        page@.items.len() == page.items@.len(),
        forall|i: int|
            #![trigger page@.items[i]]
            0 <= i < page.items@.len() ==> match page.items@[i] {
                Ok(item) => page@.items[i] == Ok::<ThreadItemView, ErrorView>(item@),
                Err(error) => page@.items[i] == Err::<ThreadItemView, ErrorView>(error@),
            },
        page@.next_cursor == opt_text(page.next_cursor),
        page_result_view(Ok(page)) == Ok::<PageView, ErrorView>(page@),
        forall|error: JSONRPCErrorError| #[trigger]
            page_result_view(Err(error)) == Err::<PageView, ErrorView>(error@),
{
}

} // verus!
