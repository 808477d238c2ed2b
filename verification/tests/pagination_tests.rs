use std::cell::RefCell;

use leaderboard::model::{
    Chart, Faction, ListWaypointsInSystemResponse, ListWaypointsInSystemResponseData, Meta,
};
use leaderboard::pagination::{
    PaginationInput, concatenate, paginate, paginate_items, remaining_page_requests, total_number_pages,
};

fn waypoint(number: u32) -> ListWaypointsInSystemResponseData {
    ListWaypointsInSystemResponseData {
        symbol: format!("X1-AB12-W{}", number),
        waypoint_type: "PLANET".to_string(),
        system_symbol: "X1-AB12".to_string(),
        x: 0,
        y: 0,
        orbits: None,
        faction: Faction { symbol: "COSMIC".to_string() },
        chart: Chart {
            waypoint_symbol: None,
            submitted_by: "COSMIC".to_string(),
            submitted_on: "2024-03-10".to_string(),
        },
        is_under_construction: false,
    }
}

fn page_of(total: u32, input: PaginationInput) -> ListWaypointsInSystemResponse {
    let first = (input.page - 1) * input.limit;
    let last = std::cmp::min(first + input.limit, total);
    ListWaypointsInSystemResponse {
        data: (first..last).map(waypoint).collect(),
        meta: Meta { total, page: input.page, limit: input.limit },
    }
}

#[test]
fn forty_seven_items_come_in_three_pages_without_gap_or_duplicate() {
    let asked: RefCell<Vec<(u32, u32)>> = RefCell::new(Vec::new());
    let pages = paginate(|input: PaginationInput| {
        asked.borrow_mut().push((input.page, input.limit));
        Ok::<_, String>(page_of(47, input))
    })
    .unwrap();
    assert_eq!(*asked.borrow(), vec![(1, 20), (2, 20), (3, 20)]);
    let sizes: Vec<usize> = pages.iter().map(|p| p.data.len()).collect();
    assert_eq!(sizes, vec![20, 20, 7]);
    let symbols: Vec<String> = pages.iter().flat_map(|p| p.data.iter().map(|w| w.symbol.clone())).collect();
    let expected: Vec<String> = (0..47).map(|n| format!("X1-AB12-W{}", n)).collect();
    assert_eq!(symbols, expected);
}

#[test]
fn an_empty_listing_is_fetched_once() {
    let asked: RefCell<Vec<u32>> = RefCell::new(Vec::new());
    let pages = paginate(|input: PaginationInput| {
        asked.borrow_mut().push(input.page);
        Ok::<_, String>(page_of(0, input))
    })
    .unwrap();
    assert_eq!(*asked.borrow(), vec![1]);
    assert_eq!(pages.len(), 1);
    assert!(pages[0].data.is_empty());
}

#[test]
fn exactly_one_page_is_fetched_once() {
    let asked: RefCell<Vec<u32>> = RefCell::new(Vec::new());
    let pages = paginate(|input: PaginationInput| {
        asked.borrow_mut().push(input.page);
        Ok::<_, String>(page_of(20, input))
    })
    .unwrap();
    assert_eq!(*asked.borrow(), vec![1]);
    assert_eq!(pages.len(), 1);
    assert_eq!(pages[0].data.len(), 20);
}

#[test]
fn one_page_that_fails_fails_the_listing() {
    let asked: RefCell<Vec<u32>> = RefCell::new(Vec::new());
    let result = paginate(|input: PaginationInput| {
        asked.borrow_mut().push(input.page);
        if input.page == 3 {
            Err("page 3 is out of reach".to_string())
        } else {
            Ok(page_of(90, input))
        }
    });
    assert_eq!(result.err(), Some("page 3 is out of reach".to_string()));
    assert_eq!(*asked.borrow(), vec![1, 2, 3]);
    let result = paginate(|_input: PaginationInput| -> Result<ListWaypointsInSystemResponse, u8> { Err(7) });
    assert_eq!(result.err(), Some(7));
}

#[test]
fn page_count_rounds_up() {
    let pages = |total: u32, limit: u32| total_number_pages(&Meta { total, page: 1, limit });
    assert_eq!(pages(47, 20), 3);
    assert_eq!(pages(40, 20), 2);
    assert_eq!(pages(41, 20), 3);
    assert_eq!(pages(1, 20), 1);
    assert_eq!(pages(0, 20), 0);
    assert_eq!(pages(u32::MAX, 1), u32::MAX);
    assert_eq!(pages(u32::MAX, u32::MAX), 1);
    assert_eq!(pages(16_777_217, 1), 16_777_217);
}

#[test]
fn page_count_for_a_page_size_of_zero() {
    let pages = |total: u32| total_number_pages(&Meta { total, page: 1, limit: 0 });
    assert_eq!(pages(0), 0);
    assert_eq!(pages(5), u32::MAX);
}

#[test]
fn remaining_requests_follow_the_first_page() {
    let requests = remaining_page_requests(&Meta { total: 47, page: 1, limit: 20 });
    assert_eq!(
        requests,
        vec![PaginationInput { page: 2, limit: 20 }, PaginationInput { page: 3, limit: 20 }]
    );
    assert!(remaining_page_requests(&Meta { total: 20, page: 1, limit: 20 }).is_empty());
    assert!(remaining_page_requests(&Meta { total: 0, page: 1, limit: 20 }).is_empty());
}

#[test]
fn a_listing_is_handed_out_item_by_item_in_page_order() {
    let asked: RefCell<Vec<u32>> = RefCell::new(Vec::new());
    let items = paginate_items(|input: PaginationInput| {
        asked.borrow_mut().push(input.page);
        Ok::<_, String>(page_of(47, input))
    })
    .unwrap();
    assert_eq!(*asked.borrow(), vec![1, 2, 3]);
    let symbols: Vec<String> = items.into_iter().map(|w| w.symbol).collect();
    let expected: Vec<String> = (0..47).map(|n| format!("X1-AB12-W{}", n)).collect();
    assert_eq!(symbols, expected);
    let none = paginate_items(|input: PaginationInput| Ok::<_, String>(page_of(0, input))).unwrap();
    assert!(none.is_empty());
    let failed = paginate_items(|input: PaginationInput| {
        if input.page == 2 {
            Err(2u8)
        } else {
            Ok(page_of(47, input))
        }
    });
    assert_eq!(failed.err(), Some(2));
}

#[test]
fn pages_are_put_one_after_another() {
    let pages = vec![
        page_of(5, PaginationInput { page: 1, limit: 2 }),
        page_of(5, PaginationInput { page: 2, limit: 2 }),
        page_of(5, PaginationInput { page: 3, limit: 2 }),
    ];
    let symbols: Vec<String> = concatenate(pages).into_iter().map(|w| w.symbol).collect();
    let expected: Vec<String> = (0..5).map(|n| format!("X1-AB12-W{}", n)).collect();
    assert_eq!(symbols, expected);
    assert!(concatenate(Vec::<ListWaypointsInSystemResponse>::new()).is_empty());
}
