use watcher::classify_response;
use watcher::owned_diff;
use watcher::snapshot_or_empty;
use watcher::Item;
use watcher::Kind;
use watcher::ReportError;
use watcher::State;

fn file(name: &str) -> Item {
    Item { name: name.to_string(), ty: Kind::File }
}

fn names(items: &[Item]) -> Vec<String> {
    let mut v: Vec<String> = items.iter().map(|i| i.name.clone()).collect();
    v.sort();
    v
}

#[test]
fn listing_classifies_folders_and_files() {
    let d = Item::from_listing("src".to_string(), true);
    assert_eq!(d.name, "src");
    assert!(matches!(d.ty, Kind::Folder));
    let f = Item::from_listing("a.txt".to_string(), false);
    assert_eq!(f.name, "a.txt");
    assert!(matches!(f.ty, Kind::File));
}

#[test]
fn diff_of_identical_snapshots_is_empty() {
    let a = vec![file("a.txt"), file("b.txt")];
    let b = vec![file("a.txt"), file("b.txt")];
    let d = owned_diff(&a, &b);
    assert_eq!(d.added.len(), 0);
    assert_eq!(d.removed.len(), 0);
}

#[test]
fn diff_added_and_removed_are_disjoint_and_symmetric() {
    let a = vec![file("a.txt"), file("b.txt"), file("c.txt")];
    let b = vec![file("b.txt"), file("d.txt")];
    let d_ab = owned_diff(&a, &b);
    let d_ba = owned_diff(&b, &a);
    for added in &d_ab.added {
        assert!(!d_ab.removed.iter().any(|r| r == added));
    }
    assert_eq!(names(&d_ab.added), names(&d_ba.removed));
    assert_eq!(names(&d_ab.removed), names(&d_ba.added));
    assert_eq!(names(&d_ab.added), vec!["d.txt".to_string()]);
    assert_eq!(names(&d_ab.removed), vec!["a.txt".to_string(), "c.txt".to_string()]);
}

#[test]
fn diff_against_empty_snapshots() {
    let a = vec![file("a.txt"), file("b.txt")];
    let empty: Vec<Item> = vec![];
    let from_empty = owned_diff(&empty, &a);
    assert_eq!(names(&from_empty.added), names(&a));
    assert_eq!(from_empty.removed.len(), 0);
    let to_empty = owned_diff(&a, &empty);
    assert_eq!(to_empty.added.len(), 0);
    assert_eq!(names(&to_empty.removed), names(&a));
}

#[test]
fn diff_distinguishes_kinds_with_equal_names() {
    let a = vec![Item { name: "x".to_string(), ty: Kind::File }];
    let b = vec![Item { name: "x".to_string(), ty: Kind::Folder }];
    let d = owned_diff(&a, &b);
    assert_eq!(d.added.len(), 1);
    assert_eq!(d.removed.len(), 1);
    assert!(matches!(d.added[0].ty, Kind::Folder));
    assert!(matches!(d.removed[0].ty, Kind::File));
}

#[test]
fn scenario_first_tick_reports_everything_added() {
    let mut st = State::new();
    assert!(st.is_first);
    assert_eq!(st.files.len(), 0);
    let (d, first) = st.begin_tick(vec![file("a.txt")]);
    assert!(first);
    assert_eq!(names(&d.added), vec!["a.txt".to_string()]);
    assert_eq!(d.removed.len(), 0);
    let resp = Some(b"HTTP/1.1 200 OK\r\n\r\n".to_vec());
    assert_eq!(classify_response(&resp), Ok(200));
    st.on_success();
    assert!(!st.is_first);
}

#[test]
fn scenario_unchanged_directory_reports_empty_diff() {
    let mut st = State::new();
    let (_, _) = st.begin_tick(vec![file("a.txt")]);
    st.on_success();
    let (d, first) = st.begin_tick(vec![file("a.txt")]);
    assert!(!first);
    assert_eq!(d.added.len(), 0);
    assert_eq!(d.removed.len(), 0);
}

#[test]
fn scenario_added_and_removed_between_ticks() {
    let mut st = State::new();
    let (_, _) = st.begin_tick(vec![file("a.txt")]);
    st.on_success();
    let (d, first) = st.begin_tick(vec![file("b.txt")]);
    assert!(!first);
    assert_eq!(names(&d.added), vec!["b.txt".to_string()]);
    assert_eq!(names(&d.removed), vec!["a.txt".to_string()]);
}

#[test]
fn scenario_failure_resends_full_listing_as_first() {
    let mut st = State::new();
    let (_, _) = st.begin_tick(vec![file("a.txt")]);
    st.on_success();
    let (_, _) = st.begin_tick(vec![file("a.txt")]);
    let resp = Some(b"HTTP/1.1 500 Internal Server Error\r\n\r\n".to_vec());
    let outcome = classify_response(&resp);
    assert_eq!(outcome, Err(ReportError::BadStatus(500)));
    st.on_failure();
    assert!(st.is_first);
    assert_eq!(st.files.len(), 0);
    let (d, first) = st.begin_tick(vec![file("a.txt")]);
    assert!(first);
    assert_eq!(names(&d.added), vec!["a.txt".to_string()]);
    assert_eq!(d.removed.len(), 0);
}

#[test]
fn listing_failure_proceeds_with_empty_snapshot() {
    let mut st = State::new();
    let (_, _) = st.begin_tick(vec![file("a.txt"), file("b.txt")]);
    st.on_success();
    let curr = snapshot_or_empty(None);
    assert_eq!(curr.len(), 0);
    let (d, first) = st.begin_tick(curr);
    assert!(!first);
    assert_eq!(d.added.len(), 0);
    assert_eq!(
        names(&d.removed),
        vec!["a.txt".to_string(), "b.txt".to_string()]
    );
}

#[test]
fn snapshot_or_empty_keeps_a_successful_listing() {
    let listing = vec![file("a.txt")];
    let kept = snapshot_or_empty(Some(listing));
    assert_eq!(names(&kept), vec!["a.txt".to_string()]);
}

#[test]
fn transport_failure_also_resets_the_state() {
    let mut st = State::new();
    let (_, _) = st.begin_tick(vec![file("a.txt")]);
    st.on_success();
    assert_eq!(classify_response(&None), Err(ReportError::Transport));
    st.on_failure();
    assert!(st.is_first);
    assert_eq!(st.files.len(), 0);
}
