use desk_ops::cache::clear_cache_plan;
use desk_ops::cache::sweep_plan;
use desk_ops::cache::name_is_marked;
use desk_ops::cache::CacheEntry;
use desk_ops::cache::ClearFailure;

fn file(name: &str) -> CacheEntry {
    CacheEntry { name: name.to_string(), is_dir: false }
}

fn dir(name: &str) -> CacheEntry {
    CacheEntry { name: name.to_string(), is_dir: true }
}

#[test]
fn removes_exactly_the_marked_files() {
    let listing = vec![file("question-1.tmp"), file("question-2.tmp"), file("notes.txt")];
    let plan = clear_cache_plan(Ok(listing));
    assert_eq!(plan.to_remove, vec!["question-1.tmp".to_string(), "question-2.tmp".to_string()]);
    assert_eq!(plan.failure, None);
}

#[test]
fn empty_directory_succeeds_with_no_removals() {
    let plan = clear_cache_plan(Ok(Vec::new()));
    assert!(plan.to_remove.is_empty());
    assert_eq!(plan.failure, None);
}

#[test]
fn unreadable_directory_reports_failure() {
    let plan = clear_cache_plan(Err("permission denied".to_string()));
    assert!(plan.to_remove.is_empty());
    assert_eq!(plan.failure, Some(ClearFailure::Unreadable("permission denied".to_string())));
}

#[test]
fn marked_directory_stops_the_sweep() {
    let listing = vec![
        file("question-a.tmp"),
        dir("question-broken"),
        file("question-z.tmp"),
        file("notes.txt"),
    ];
    let plan = clear_cache_plan(Ok(listing));
    assert_eq!(plan.to_remove, vec!["question-a.tmp".to_string()]);
    assert_eq!(
        plan.failure,
        Some(ClearFailure::DirectoryEntry("question-broken".to_string()))
    );
}

#[test]
fn leading_marked_directory_removes_nothing() {
    let listing = vec![dir("question-cache"), file("question-1.tmp")];
    let plan = clear_cache_plan(Ok(listing));
    assert!(plan.to_remove.is_empty());
    assert_eq!(
        plan.failure,
        Some(ClearFailure::DirectoryEntry("question-cache".to_string()))
    );
}

#[test]
fn unmarked_directories_are_ignored() {
    let listing = vec![dir("archive"), file("question-9.tmp"), dir("questions")];
    let plan = clear_cache_plan(Ok(listing));
    assert_eq!(plan.to_remove, vec!["question-9.tmp".to_string()]);
    assert_eq!(plan.failure, None);
}

#[test]
fn sweep_takes_the_marker_as_input() {
    let listing = vec![file("draft-1.txt"), file("question-1.tmp"), file("notes.txt")];
    let plan = sweep_plan(Ok(listing), "draft-");
    assert_eq!(plan.to_remove, vec!["draft-1.txt".to_string()]);
    assert_eq!(plan.failure, None);
}

#[test]
fn marker_must_occur_whole() {
    assert!(name_is_marked("question-"));
    assert!(name_is_marked("old-question-7.json"));
    assert!(!name_is_marked("question"));
    assert!(!name_is_marked("Question-1.tmp"));
    assert!(!name_is_marked(""));
}
