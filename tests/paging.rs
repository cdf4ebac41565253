use jfo::Pager;

fn run_pages(served: Vec<(Vec<u32>, bool)>) -> (Vec<String>, Vec<u32>) {
    let mut pager: Pager<u32> = Pager::new("http://localhost:41184/tags?token=t");
    let mut requested = Vec::new();
    let mut served = served.into_iter();
    while !pager.is_done() {
        requested.push(pager.next_page_url());
        let (items, more) = served.next().expect("a page was requested past the listing");
        pager.receive(items, more);
    }
    (requested, pager.into_items())
}

#[test]
fn pagination_collects_every_page_in_order() {
    let served = vec![(vec![1, 2], true), (vec![], true), (vec![3, 4, 5], false), (vec![9], false)];
    let (requested, items) = run_pages(served);
    assert_eq!(requested.len(), 3);
    assert_eq!(requested[0], "http://localhost:41184/tags?token=t&page=1");
    assert_eq!(requested[2], "http://localhost:41184/tags?token=t&page=3");
    assert_eq!(items, vec![1, 2, 3, 4, 5]);
}

#[test]
fn pagination_stops_after_single_empty_page() {
    let (requested, items) = run_pages(vec![(vec![], false)]);
    assert_eq!(requested, vec!["http://localhost:41184/tags?token=t&page=1".to_string()]);
    assert!(items.is_empty());
}

#[test]
fn pager_counts_pages() {
    let mut pager: Pager<u8> = Pager::new("b");
    assert_eq!(pager.pages_received(), 0);
    assert!(!pager.is_done());
    pager.receive(vec![1], true);
    assert_eq!(pager.pages_received(), 1);
    assert_eq!(pager.next_page_url(), "b&page=2");
    pager.receive(vec![2], false);
    assert!(pager.is_done());
    assert_eq!(pager.into_items(), vec![1, 2]);
}
