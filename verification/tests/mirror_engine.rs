use site_sync::mime_layer::MimeGuessAccessor;
use site_sync::mime_layer::MimeGuessLayer;
use site_sync::mirror::sync_dir;
use site_sync::storage::MemStorage;
use site_sync::tasks::ConcurrentUploadTasks;
use site_sync::tasks::LocalFile;
use site_sync::tasks::StorageError;

fn accessor() -> MimeGuessAccessor {
    MimeGuessLayer::default().layer(MemStorage::new())
}

fn file(path: &str, data: &[u8]) -> LocalFile {
    LocalFile { rel_path: path.to_string(), data: data.to_vec() }
}

#[test]
fn mirror_uploads_every_file() {
    let mut store = accessor();
    let files = vec![
        file("index.html", b"<html>ok</html>"),
        file("img/logo.png", &[137u8, 80, 78, 71]),
        file("notes\\readme.txt", b"hello"),
    ];
    let result = sync_dir(&mut store, "site", files);
    assert_eq!(result.tasks_attempted, 3);

    let keys = store.list("site");
    assert_eq!(keys.len(), 3);
    assert!(keys.contains(&"site/index.html".to_string()));
    assert!(keys.contains(&"site/img/logo.png".to_string()));
    assert!(keys.contains(&"site/notes/readme.txt".to_string()));

    assert_eq!(store.read("site/index.html").unwrap().as_slice(), b"<html>ok</html>");
    assert_eq!(store.read("site/img/logo.png").unwrap().as_slice(), [137u8, 80, 78, 71]);
    assert_eq!(store.read("site/notes/readme.txt").unwrap().as_slice(), b"hello");
}

#[test]
fn mirror_empty_tree_is_success() {
    let mut store = accessor();
    store.write("site/old.html", b"stale".to_vec(), None);
    store.write("assets/app.js", b"js".to_vec(), None);

    let result = sync_dir(&mut store, "site", Vec::new());
    assert_eq!(result.tasks_attempted, 0);
    assert_eq!(store.list("site").len(), 0);
    assert_eq!(store.read("assets/app.js").unwrap().as_slice(), b"js");
}

#[test]
fn mirror_removes_unrelated_objects_under_prefix() {
    let mut store = accessor();
    store.write("site/stale.txt", b"old".to_vec(), None);
    store.write("assets/app.js", b"js".to_vec(), None);

    let result = sync_dir(&mut store, "site", vec![file("index.html", b"new")]);
    assert_eq!(result.tasks_attempted, 1);

    assert!(store.read("site/stale.txt").is_none());
    assert_eq!(store.read("site/index.html").unwrap().as_slice(), b"new");
    assert_eq!(store.read("assets/app.js").unwrap().as_slice(), b"js");
    assert_eq!(store.list("site").len(), 1);
}

#[test]
fn mirror_twice_is_like_once() {
    let mut store = accessor();
    store.write("assets/app.js", b"js".to_vec(), None);
    let tree = || vec![file("index.html", b"<html>ok</html>"), file("img/logo.png", b"png")];

    sync_dir(&mut store, "site", tree());
    let keys_once = store.list("");
    let index_once = store.read("site/index.html").unwrap().clone();
    let logo_once = store.read("site/img/logo.png").unwrap().clone();

    sync_dir(&mut store, "site", tree());
    let keys_twice = store.list("");
    assert_eq!(keys_once, keys_twice);
    assert_eq!(store.read("site/index.html").unwrap(), &index_once);
    assert_eq!(store.read("site/img/logo.png").unwrap(), &logo_once);
    assert_eq!(store.read("assets/app.js").unwrap().as_slice(), b"js");
}

#[test]
fn scenario_site_tree() {
    let mut store = accessor();
    let files = vec![
        file("index.html", b"<html>ok</html>"),
        file("img/logo.png", &[0u8, 1, 2, 3, 255]),
    ];
    let result = sync_dir(&mut store, "site", files);
    assert_eq!(result.tasks_attempted, 2);

    let mut keys = store.list("");
    keys.sort();
    assert_eq!(keys, vec!["site/img/logo.png".to_string(), "site/index.html".to_string()]);

    let meta = store.stat("site/index.html").unwrap();
    assert_eq!(meta.content_type, Some("text/html".to_string()));
    assert_eq!(meta.content_length, "<html>ok</html>".len());
}

#[test]
fn join_reports_first_failure_after_all_complete() {
    let mut set = ConcurrentUploadTasks::new();
    set.push_str(b"aa".to_vec(), "a");
    set.push_str(b"bb".to_vec(), "b");
    set.push_str(b"cc".to_vec(), "c");

    // Every task has reached a terminal state before the join is given
    // the outcomes: a and c succeeded, b failed.
    let outcomes: Vec<Result<(), StorageError>> = vec![
        Ok(()),
        Err(StorageError { message: "write refused".to_string() }),
        Ok(()),
    ];
    let err = set.join(&outcomes).err().unwrap();
    assert_eq!(err.index, 1);
    assert_eq!(err.key, "b");
    assert_eq!(err.error.message, "write refused");
}

#[test]
fn join_counts_attempted_tasks() {
    let mut set = ConcurrentUploadTasks::new();
    set.push_str(b"aa".to_vec(), "a");
    set.push_str(b"bb".to_vec(), "b");
    let outcomes: Vec<Result<(), StorageError>> = vec![Ok(()), Ok(())];
    let result = set.join(&outcomes).ok().unwrap();
    assert_eq!(result.tasks_attempted, 2);

    let empty = ConcurrentUploadTasks::new();
    let no_outcomes: Vec<Result<(), StorageError>> = Vec::new();
    assert_eq!(empty.join(&no_outcomes).ok().unwrap().tasks_attempted, 0);
}

#[test]
fn run_all_writes_every_task() {
    let mut store = accessor();
    let mut set = ConcurrentUploadTasks::new();
    set.push_path(b"one".to_vec(), "docs\\a.txt");
    set.push_str(b"two".to_vec(), "b.txt");
    let outcomes = set.run_all(&mut store);
    assert_eq!(outcomes.len(), 2);
    assert!(outcomes.iter().all(|o| o.is_ok()));
    assert_eq!(store.read("docs/a.txt").unwrap().as_slice(), b"one");
    assert_eq!(store.read("b.txt").unwrap().as_slice(), b"two");
    assert!(set.join(&outcomes).is_ok());
}

#[test]
fn push_str_seq_keeps_submission_order() {
    let mut set = ConcurrentUploadTasks::new();
    set.push_str_seq(vec![file("x.css", b"1"), file("y.js", b"2")]);
    assert_eq!(set.len(), 2);
    let tasks = set.tasks();
    assert_eq!(tasks[0].key, "x.css");
    assert_eq!(tasks[1].key, "y.js");
    assert!(tasks[0].content_type.is_none());
}

#[test]
fn mirror_listing_shows_survivors_then_new_keys() {
    let mut store = accessor();
    store.write("zeta/keep.txt", b"z".to_vec(), None);
    store.write("alpha/keep.txt", b"a".to_vec(), None);
    store.write("site/old.txt", b"old".to_vec(), None);

    sync_dir(&mut store, "site", vec![file("b.txt", b"2"), file("a.txt", b"1")]);
    assert_eq!(
        store.list(""),
        vec![
            "zeta/keep.txt".to_string(),
            "alpha/keep.txt".to_string(),
            "site/b.txt".to_string(),
            "site/a.txt".to_string()
        ]
    );
}

#[test]
fn write_overwrites_same_key() {
    let mut store = MemStorage::new();
    store.write("a.txt", b"first".to_vec(), None);
    store.write("a.txt", b"second".to_vec(), None);
    assert_eq!(store.len(), 1);
    assert_eq!(store.stat("a.txt").unwrap().data, b"second".to_vec());
}
