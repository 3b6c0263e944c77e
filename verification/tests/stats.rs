use linkwatch::stats::CollectionStats;
use linkwatch::stats::fold_stats;

#[test]
fn zero_is_the_unit() {
    let z = CollectionStats::zero();
    let s = CollectionStats { n_pages: 3, n_links: 7, n_new_links: 2 };

    assert_eq!(z.checked_plus(s).unwrap(), s);
    assert_eq!(s.checked_plus(z).unwrap(), s);
}

#[test]
fn addition_is_pointwise() {
    let a = CollectionStats { n_pages: 1, n_links: 4, n_new_links: 2 };
    let b = CollectionStats { n_pages: 1, n_links: 6, n_new_links: 1 };

    let t = a.checked_plus(b).unwrap();
    assert_eq!(t.n_pages, 2);
    assert_eq!(t.n_links, 10);
    assert_eq!(t.n_new_links, 3);
}

#[test]
fn addition_refuses_to_wrap() {
    let a = CollectionStats { n_pages: 1, n_links: u64::MAX, n_new_links: 0 };
    let b = CollectionStats { n_pages: 1, n_links: 1, n_new_links: 0 };

    assert!(a.checked_plus(b).is_none());
}

#[test]
fn fold_keeps_new_links_bounded() {
    let per_page = vec![
        CollectionStats { n_pages: 1, n_links: 3, n_new_links: 2 },
        CollectionStats { n_pages: 1, n_links: 0, n_new_links: 0 },
        CollectionStats { n_pages: 1, n_links: 9, n_new_links: 9 },
    ];

    let total = fold_stats(&per_page).unwrap();
    assert_eq!(total.n_pages, 3);
    assert_eq!(total.n_links, 12);
    assert_eq!(total.n_new_links, 11);
    assert!(total.n_new_links <= total.n_links);
}

#[test]
fn fold_of_nothing_is_zero() {
    let total = fold_stats(&Vec::new()).unwrap();
    assert_eq!(total, CollectionStats::zero());
}

#[test]
fn fold_reports_overflow() {
    let per_page = vec![
        CollectionStats { n_pages: 1, n_links: u64::MAX, n_new_links: 0 },
        CollectionStats { n_pages: 1, n_links: u64::MAX, n_new_links: 0 },
    ];

    assert!(fold_stats(&per_page).is_none());
}
