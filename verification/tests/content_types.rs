use site_sync::mime_layer::MimeGuessLayer;
use site_sync::storage::MemStorage;

const DATA: &str = "<html>test</html>";
const CUSTOM: &str = "text/custom";
const HTML: &str = "text/html";

#[test]
fn test_async() {
    let mut op_control_group = MemStorage::new();

    op_control_group.write("test0.html", DATA.as_bytes().to_vec(), None);
    assert_eq!(op_control_group.stat("test0.html").unwrap().content_type, None);

    op_control_group.write("test1.html", DATA.as_bytes().to_vec(), Some(CUSTOM.to_string()));
    assert_eq!(
        op_control_group.stat("test1.html").unwrap().content_type,
        Some(CUSTOM.to_string())
    );

    let mut op_guess = MimeGuessLayer::default().layer(MemStorage::new());

    op_guess.write("test0.html", DATA.as_bytes().to_vec(), None);
    assert_eq!(
        op_guess.stat("test0.html").unwrap().content_type,
        Some(HTML.to_string())
    );

    op_guess.write("test1.asdfghjkl", DATA.as_bytes().to_vec(), None);
    assert_eq!(op_guess.stat("test1.asdfghjkl").unwrap().content_type, None);

    op_guess.write("test2.html", DATA.as_bytes().to_vec(), Some(CUSTOM.to_string()));
    assert_eq!(
        op_guess.stat("test2.html").unwrap().content_type,
        Some(CUSTOM.to_string())
    );

    let entries = op_guess.list("");
    assert_eq!(
        entries,
        vec![
            "test0.html".to_string(),
            "test1.asdfghjkl".to_string(),
            "test2.html".to_string()
        ]
    );
    assert_eq!(
        op_guess.stat(&entries[0]).unwrap().content_type,
        Some(HTML.to_string())
    );
    assert_eq!(op_guess.stat(&entries[1]).unwrap().content_type, None);
    assert_eq!(
        op_guess.stat(&entries[2]).unwrap().content_type,
        Some(CUSTOM.to_string())
    );
}

#[test]
fn test_blocking() {
    let mut op_control_group = MemStorage::new();

    op_control_group.write("test0.html", DATA.as_bytes().to_vec(), None);
    assert_eq!(op_control_group.stat("test0.html").unwrap().content_type, None);

    op_control_group.write("test1.html", DATA.as_bytes().to_vec(), Some(CUSTOM.to_string()));
    assert_eq!(
        op_control_group.stat("test1.html").unwrap().content_type,
        Some(CUSTOM.to_string())
    );

    let mut op_guess = MimeGuessLayer::default().layer(MemStorage::new());

    op_guess.write("test0.html", DATA.as_bytes().to_vec(), None);
    assert_eq!(
        op_guess.stat("test0.html").unwrap().content_type,
        Some(HTML.to_string())
    );

    op_guess.write("test1.asdfghjkl", DATA.as_bytes().to_vec(), None);
    assert_eq!(op_guess.stat("test1.asdfghjkl").unwrap().content_type, None);

    op_guess.write("test2.html", DATA.as_bytes().to_vec(), Some(CUSTOM.to_string()));
    assert_eq!(
        op_guess.stat("test2.html").unwrap().content_type,
        Some(CUSTOM.to_string())
    );

    let entries = op_guess.list("");
    assert_eq!(
        entries,
        vec![
            "test0.html".to_string(),
            "test1.asdfghjkl".to_string(),
            "test2.html".to_string()
        ]
    );
    assert_eq!(
        op_guess.stat(&entries[0]).unwrap().content_type,
        Some(HTML.to_string())
    );
    assert_eq!(op_guess.stat(&entries[1]).unwrap().content_type, None);
    assert_eq!(
        op_guess.stat(&entries[2]).unwrap().content_type,
        Some(CUSTOM.to_string())
    );
}

#[test]
fn fallback_fills_only_missing_types() {
    let mut op = MimeGuessLayer::default().layer(MemStorage::new());
    op.write("index.html", b"<html>ok</html>".to_vec(), None);
    assert_eq!(
        op.stat("index.html").unwrap().content_type,
        Some("text/html".to_string())
    );

    op.write("data.unknownext", b"bytes".to_vec(), None);
    assert_eq!(op.stat("data.unknownext").unwrap().content_type, None);
}
