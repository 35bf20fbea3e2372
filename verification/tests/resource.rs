use ulmcp::{ChangeType, ResourceData, ResourceDef};

#[test]
fn resource_def_builder() {
    let r = ResourceDef::new("file:///auth.py", "auth.py")
        .description("Authentication module")
        .mime_type("text/x-python")
        .subscribable();
    assert_eq!(r.uri, "file:///auth.py");
    assert!(r.subscribable);
    assert_eq!(r.mime_type, "text/x-python");
}

#[test]
fn resource_data_text() {
    let d = ResourceData::Text("hello".into());
    assert_eq!(d.as_text(), Some("hello"));
    assert_eq!(d.len(), 5);
    assert!(!d.is_empty());
}

#[test]
fn resource_data_binary() {
    let d = ResourceData::Binary(vec![1, 2, 3]);
    assert_eq!(d.as_bytes(), &[1, 2, 3]);
    assert!(d.as_text().is_none());
}

#[test]
fn change_type_display() {
    assert_eq!(ChangeType::Created.to_string(), "created");
    assert_eq!(ChangeType::Updated.to_string(), "updated");
    assert_eq!(ChangeType::Deleted.to_string(), "deleted");
}

#[test]
fn resource_def_defaults() {
    let r = ResourceDef::new("test://x", "x");
    assert_eq!(r.mime_type, "text/plain");
    assert_eq!(r.description, "");
    assert!(!r.subscribable);
    assert_eq!(r.estimated_size, None);
}

#[test]
fn resource_data_lengths_count_bytes() {
    let d = ResourceData::Text("héllo".into());
    assert_eq!(d.len(), 6);
    assert_eq!(d.as_bytes(), "héllo".as_bytes());
    let e = ResourceData::Binary(Vec::new());
    assert!(e.is_empty());
    assert_eq!(e.len(), 0);
    assert!(ResourceData::Text(String::new()).is_empty());
}
