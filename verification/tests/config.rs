use tachyon_application::repository::config::{
    above, stamp, stamp_next, stamped_config, ConfigObservation, PublishedRow, StampEvent, StampStep,
};
use tachyon_application::repository::sqlite::publication::{
    counter_text, published_columns, published_row, read_counter,
};
use tachyon_application::repository::RepoError;
use tachyon_application::table::{Key, Table};

fn obs(key: &str, natural: u64, digest: &str) -> ConfigObservation {
    ConfigObservation {
        key: key.to_string(),
        natural_version: natural,
        digest: digest.to_string(),
        body: format!("{key}:{digest}"),
    }
}

fn row<'a>(rows: &'a Table<PublishedRow>, key: &str) -> &'a PublishedRow {
    rows.get(&Key::one(key)).unwrap()
}

#[test]
fn stamps_changes_ignores_stale_values_and_tombstones_removals() {
    let mut rows: Table<PublishedRow> = Table::new();
    let mut counter = 0;
    stamp(&mut rows, &mut counter, vec![obs("a", 1, "x"), obs("b", 0, "y")]);
    assert_eq!(counter, 2);
    // unchanged: no new generation
    assert!(stamp(&mut rows, &mut counter, vec![obs("a", 1, "x"), obs("b", 0, "y")]).is_empty());
    // a changed forward, b removed
    let changed = stamp(&mut rows, &mut counter, vec![obs("a", 2, "z")]);
    assert_eq!(changed, vec!["a".to_string(), "b".to_string()]);
    assert_eq!(row(&rows, "a").generation, 3);
    assert_eq!(row(&rows, "b").generation, 4);
    assert!(row(&rows, "b").body.is_none());
    // a stale read of a (natural 1) never replaces natural 2
    assert!(stamp(&mut rows, &mut counter, vec![obs("a", 1, "x")]).is_empty());
    assert_eq!(row(&rows, "a").digest, "z");
    // the tombstone is not re-stamped, a resurrection is
    assert!(stamp(&mut rows, &mut counter, vec![obs("a", 2, "z")]).is_empty());
    stamp(&mut rows, &mut counter, vec![obs("a", 2, "z"), obs("b", 0, "y")]);
    assert_eq!(row(&rows, "b").generation, 5);
    assert_eq!(above(&rows, 3).len(), 1);
    assert_eq!(above(&rows, 0).len(), 2);
}

#[test]
fn a_data_plane_gets_what_is_above_its_generation_in_order() {
    let mut rows: Table<PublishedRow> = Table::new();
    let mut counter = 0;
    stamp(&mut rows, &mut counter, vec![obs("b", 1, "x"), obs("a", 1, "y")]);
    stamp(&mut rows, &mut counter, vec![obs("b", 2, "z"), obs("a", 1, "y")]);
    let c = stamped_config(&rows, counter, 1);
    assert_eq!(c.generation, 3);
    let got: Vec<(&str, u64)> = c.entries.iter().map(|e| (e.key.as_str(), e.generation)).collect();
    assert_eq!(got, vec![("a", 2), ("b", 3)]);
    assert_eq!(c.entries[1].body.as_deref(), Some("b:z"));
}

/// What is above the counter before a stamping is what the stamping changed:
/// observed keys as they were observed, then removed ones, numbered on.
#[test]
fn what_is_above_the_old_counter_is_what_changed() {
    let mut rows: Table<PublishedRow> = Table::new();
    let mut counter = 0;
    stamp(&mut rows, &mut counter, vec![obs("d", 1, "x"), obs("a", 1, "x"), obs("c", 1, "x")]);
    let before = counter;
    let now = || vec![obs("e", 1, "x"), obs("b", 1, "x"), obs("c", 1, "x")];
    let changed = stamp(&mut rows, &mut counter, now());
    assert_eq!(changed, ["e", "b", "a", "d"]);
    let got: Vec<(u64, String, bool)> = above(&rows, before)
        .into_iter()
        .map(|e| (e.generation, e.key, e.body.is_some()))
        .collect();
    assert_eq!(
        got,
        [
            (4, "e".to_string(), true),
            (5, "b".to_string(), true),
            (6, "a".to_string(), false),
            (7, "d".to_string(), false),
        ]
    );
    assert_eq!(row(&rows, "c").generation, 3, "what did not change keeps its number");
    // The same again changes nothing.
    assert!(stamp(&mut rows, &mut counter, now()).is_empty());
    assert_eq!(counter, 7);
    assert!(above(&rows, counter).is_empty());
    // A removed key is buried once, and no key is lost.
    assert_eq!(stamp(&mut rows, &mut counter, Vec::new()), ["b", "c", "e"]);
    assert!(stamp(&mut rows, &mut counter, Vec::new()).is_empty());
    assert_eq!(above(&rows, 0).len(), 5);
}

/// A counter with room for one number per row and observation is enough.
#[test]
fn the_last_numbers_are_given_out() {
    let mut rows: Table<PublishedRow> = Table::new();
    let mut counter = u64::MAX - 2;
    assert_eq!(stamp(&mut rows, &mut counter, vec![obs("a", 1, "x")]), ["a"]);
    assert_eq!(stamp(&mut rows, &mut counter, Vec::new()), ["a"]);
    assert_eq!(counter, u64::MAX);
    assert_eq!(row(&rows, "a").generation, u64::MAX);
    // What changes nothing needs no number.
    assert!(stamp(&mut rows, &mut counter, Vec::new()).is_empty());
    assert_eq!(counter, u64::MAX);
}

#[test]
fn three_lost_rounds_stamp_under_the_lock() {
    assert_eq!(stamp_next(0, StampEvent::Stamped { changed: 0 }), (0, StampStep::Answer));
    assert_eq!(stamp_next(0, StampEvent::Stamped { changed: 2 }), (0, StampStep::Lock));
    assert_eq!(stamp_next(0, StampEvent::Locked { read: 5, now: 5 }), (0, StampStep::Write));
    assert_eq!(stamp_next(0, StampEvent::Locked { read: 5, now: 6 }), (1, StampStep::Again));
    assert_eq!(stamp_next(1, StampEvent::Locked { read: 6, now: 7 }), (2, StampStep::Again));
    assert_eq!(stamp_next(2, StampEvent::Locked { read: 7, now: 8 }), (3, StampStep::StampLocked));
}

#[test]
fn the_counter_is_read_back() {
    assert_eq!(read_counter(&None), Ok(0));
    for n in [0u64, 7, 10, 1_000_000_007, u64::MAX] {
        assert_eq!(counter_text(n), n.to_string());
        assert_eq!(read_counter(&Some(counter_text(n))), Ok(n));
    }
    assert_eq!(read_counter(&Some("+12".to_string())), Ok(12));
    for bad in ["", "+", "-1", " 1", "1 ", "x", "18446744073709551616", "1e3"] {
        assert_eq!(
            read_counter(&Some(bad.to_string())),
            Err(RepoError::Serialization(format!("store_meta config_generation = {bad}")))
        );
        assert!(bad.parse::<u64>().is_err());
    }
}

#[test]
fn a_published_row_is_read_back() {
    let r = PublishedRow {
        generation: 4,
        natural_version: 9,
        digest: "d".to_string(),
        body: None,
    };
    let c = published_columns(&r).unwrap();
    assert_eq!((c.generation, c.natural_version), (4, 9));
    assert_eq!(published_row(c), r);
    let big = PublishedRow { generation: u64::MAX, ..r };
    assert_eq!(
        published_columns(&big),
        Err(RepoError::Refused(
            "config generation 18446744073709551615 does not fit a BIGINT".to_string()
        ))
    );
}
