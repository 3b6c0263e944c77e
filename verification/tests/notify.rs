use linkwatch::counter::Counter;
use linkwatch::notify::compose_message;
use linkwatch::notify::compose_title;
use linkwatch::notify::should_notify;
use linkwatch::stats::CollectionStats;

fn counter_of(entries: &[(&str, u64)]) -> Counter {
    let mut c = Counter::new();
    for (name, count) in entries {
        c.add_count(&name.to_string(), *count).unwrap();
    }
    c
}

#[test]
fn one_page() {
    let c = counter_of(&[("A", 5)]);
    assert_eq!(compose_message(&c), "5 for A.");
}

#[test]
fn two_pages() {
    let c = counter_of(&[("A", 5), ("B", 2)]);
    assert_eq!(compose_message(&c), "5 for A and 2 for B.");
}

#[test]
fn three_pages() {
    let c = counter_of(&[("A", 5), ("B", 2), ("C", 1)]);
    assert_eq!(compose_message(&c), "5 for A, 2 for B, and 1 for C.");
}

#[test]
fn four_pages() {
    let c = counter_of(&[("A", 5), ("B", 2), ("C", 1), ("D", 3)]);
    assert_eq!(compose_message(&c), "5 for A, 2 for B, and some more for 2 other pages.");
}

#[test]
fn six_pages() {
    let c = counter_of(&[("A", 1), ("B", 2), ("C", 3), ("D", 4), ("E", 5), ("F", 6)]);
    assert_eq!(compose_message(&c), "1 for A, 2 for B, and some more for 4 other pages.");
}

#[test]
fn pages_without_new_links_are_not_mentioned() {
    let c = counter_of(&[("A", 0), ("B", 2), ("C", 0), ("D", 1)]);
    assert_eq!(compose_message(&c), "2 for B and 1 for D.");
}

#[test]
fn no_new_links_anywhere_gives_an_empty_message() {
    let c = counter_of(&[("A", 0), ("B", 0)]);
    assert_eq!(compose_message(&c), "");
}

#[test]
fn title_is_singular_for_one() {
    let one = CollectionStats { n_pages: 1, n_links: 3, n_new_links: 1 };
    assert_eq!(compose_title(&one), "1 new link");
}

#[test]
fn title_is_plural_otherwise() {
    let several = CollectionStats { n_pages: 2, n_links: 9, n_new_links: 7 };
    assert_eq!(compose_title(&several), "7 new links");
    let none = CollectionStats { n_pages: 2, n_links: 9, n_new_links: 0 };
    assert_eq!(compose_title(&none), "0 new links");
}

#[test]
fn notification_is_owed_only_with_news_and_a_notifier() {
    let news = CollectionStats { n_pages: 1, n_links: 2, n_new_links: 1 };
    let quiet = CollectionStats { n_pages: 1, n_links: 2, n_new_links: 0 };

    assert!(should_notify(&news, true));
    assert!(!should_notify(&news, false));
    assert!(!should_notify(&quiet, true));
    assert!(!should_notify(&quiet, false));
}
