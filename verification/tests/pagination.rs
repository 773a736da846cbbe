use multichain_client::{next_page, over_fetch_params, trim_page, SortOrder, TxListParams, TxQuery};

#[test]
fn over_fetch_asks_for_one_extra_newest_first() {
    let params = over_fetch_params(1, 10);
    assert_eq!(params, TxListParams {
        start_block: 0,
        end_block: u64::MAX,
        page: 1,
        offset: 11,
        sort: SortOrder::Descending,
    });
}

#[test]
fn surplus_record_signals_a_next_page() {
    // page=1, offset=10: the explorer returns 11 records, newest first
    let fetched: Vec<u64> = (0..11).map(|i| 1000 - i).collect();
    let (page, has_more) = trim_page(fetched, 10);
    assert!(has_more);
    assert_eq!(page.len(), 10);
    assert_eq!(page, (0..10).map(|i| 1000 - i).collect::<Vec<u64>>());
    assert_eq!(next_page(1, has_more), Some(2));
}

#[test]
fn exactly_offset_records_means_no_next_page() {
    let fetched: Vec<u64> = (0..10).collect();
    let (page, has_more) = trim_page(fetched, 10);
    assert!(!has_more);
    assert_eq!(page, (0..10).collect::<Vec<u64>>());
    assert_eq!(next_page(1, has_more), None);
}

#[test]
fn fewer_records_than_offset_are_all_kept() {
    let fetched: Vec<u64> = vec![42, 41, 40];
    let (page, has_more) = trim_page(fetched, 10);
    assert!(!has_more);
    assert_eq!(page, vec![42, 41, 40]);
}

#[test]
fn empty_fetch_is_an_empty_page() {
    let fetched: Vec<u64> = vec![];
    let (page, has_more) = trim_page(fetched, 10);
    assert!(!has_more);
    assert!(page.is_empty());
}

#[test]
fn query_parameters_default_to_first_page_of_ten() {
    let q = TxQuery { page: None, offset: None };
    assert_eq!(q.page_or_default(), 1);
    assert_eq!(q.offset_or_default(), 10);

    let q = TxQuery { page: Some(3), offset: Some(25) };
    assert_eq!(q.page_or_default(), 3);
    assert_eq!(q.offset_or_default(), 25);
}
