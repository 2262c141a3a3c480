use turn_recovery::paginated_turn_items::{
    ItemsPage, PagerStep, StoreItemSortKey, StoreListItemsParams, StoreSortDirection,
    TurnItemsPager,
};
use turn_recovery::rpc::JSONRPCErrorError;
use turn_recovery::turn::ThreadItem;

fn item(id: &str) -> ThreadItem {
    ThreadItem::Other { id: id.to_string(), body: String::new() }
}

fn page(ids: &[&str], next_cursor: Option<&str>) -> Result<ItemsPage, JSONRPCErrorError> {
    Ok(ItemsPage {
        items: ids.iter().map(|id| Ok(item(id))).collect(),
        next_cursor: next_cursor.map(str::to_string),
    })
}

fn error(message: &str) -> JSONRPCErrorError {
    JSONRPCErrorError { code: -32603, message: message.to_string(), data: None }
}

fn pager() -> TurnItemsPager {
    TurnItemsPager::new("thread".to_string(), "turn".to_string(), 2)
}

fn more(step: PagerStep) -> TurnItemsPager {
    match step {
        PagerStep::More(pager) => pager,
        step => panic!("no more pages: {step:?}"),
    }
}

fn finished(step: PagerStep) -> Vec<ThreadItem> {
    match step {
        PagerStep::Finished(items) => items,
        step => panic!("not finished: {step:?}"),
    }
}

fn failed(step: PagerStep) -> JSONRPCErrorError {
    match step {
        PagerStep::Failed(error) => error,
        step => panic!("not failed: {step:?}"),
    }
}

#[test]
fn first_request_asks_for_the_start_of_the_turn() {
    assert_eq!(
        pager().request(),
        StoreListItemsParams {
            thread_id: "thread".to_string(),
            turn_id: Some("turn".to_string()),
            include_archived: true,
            cursor: None,
            page_size: 2,
            sort_direction: StoreSortDirection::Asc,
            sort_key: StoreItemSortKey::CreatedAtOrdinal,
            after_updated_at_ordinal: None,
        }
    );
}

#[test]
fn pages_are_put_together_in_order() {
    let pager = more(pager().on_page(page(&["a", "b"], Some("x"))));
    assert_eq!(pager.request().cursor, Some("x".to_string()));
    let pager = more(pager.on_page(page(&[], Some("y"))));
    assert_eq!(pager.request().cursor, Some("y".to_string()));
    assert_eq!(
        finished(pager.on_page(page(&["c"], None))),
        vec![item("a"), item("b"), item("c")]
    );
}

#[test]
fn turn_without_items_is_empty() {
    assert_eq!(finished(pager().on_page(page(&[], None))), Vec::new());
}

#[test]
fn repeated_cursor_fails() {
    let pager = more(pager().on_page(page(&["a"], Some("x"))));
    assert_eq!(
        failed(pager.on_page(page(&["b"], Some("x")))),
        error("failed to load full turn items for turn: thread store returned a repeated cursor")
    );
}

#[test]
fn earlier_cursor_may_come_again() {
    let pager = more(pager().on_page(page(&["a"], Some("x"))));
    let pager = more(pager.on_page(page(&["b"], Some("y"))));
    let pager = more(pager.on_page(page(&["c"], Some("x"))));
    assert_eq!(pager.request().cursor, Some("x".to_string()));
}

#[test]
fn missing_page_fails() {
    assert_eq!(failed(pager().on_page(Err(error("store is down")))), error("store is down"));
}

#[test]
fn first_item_that_does_not_decode_fails() {
    let page = ItemsPage {
        items: vec![Ok(item("a")), Err(error("first")), Err(error("second"))],
        next_cursor: None,
    };
    assert_eq!(failed(pager().on_page(Ok(page))), error("first"));
}
