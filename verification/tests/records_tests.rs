use promptpack::records::{
    apply_folder_update, apply_prompt_update, build_imported_prompts, make_folder, make_prompt,
    CreateFolderInput, CreatePromptInput, UpdatePromptInput,
};

fn entry(text: &str, header: Option<&str>, source: Option<&str>) -> CreatePromptInput {
    CreatePromptInput {
        text: text.to_string(),
        header: header.map(|s| s.to_string()),
        source: source.map(|s| s.to_string()),
        url: None,
        folder_id: None,
    }
}

#[test]
fn make_prompt_fills_defaults() {
    let input = CreatePromptInput {
        text: "hello".to_string(),
        header: Some("h".to_string()),
        source: None,
        url: Some("https://example.test".to_string()),
        folder_id: None,
    };
    let p = make_prompt(input, "id-1".to_string(), 1234);
    assert_eq!(p.id, "id-1");
    assert_eq!(p.text, "hello");
    assert_eq!(p.header.as_deref(), Some("h"));
    assert_eq!(p.source, "manual");
    assert_eq!(p.url.as_deref(), Some("https://example.test"));
    assert_eq!(p.folder_id, None);
    assert!(!p.is_favorite);
    assert_eq!(p.use_count, 0);
    assert_eq!(p.created_at, 1234);
    assert_eq!(p.updated_at, 1234);
    assert_eq!(p.sync_status, "local-only");
    assert_eq!(p.cloud_id, None);
}

#[test]
fn make_prompt_keeps_given_source() {
    let p = make_prompt(entry("t", None, Some("imported")), "id-2".to_string(), 7);
    assert_eq!(p.source, "imported");
}

#[test]
fn apply_prompt_update_changes_only_given_fields() {
    let p = make_prompt(entry("old text", Some("old header"), Some("manual")), "id".to_string(), 10);
    let q = apply_prompt_update(
        p,
        UpdatePromptInput {
            text: Some("new text".to_string()),
            header: None,
            source: None,
            url: Some("https://u.test".to_string()),
            folder_id: None,
            is_favorite: Some(true),
        },
        20,
    );
    assert_eq!(q.id, "id");
    assert_eq!(q.text, "new text");
    assert_eq!(q.header.as_deref(), Some("old header"));
    assert_eq!(q.source, "manual");
    assert_eq!(q.url.as_deref(), Some("https://u.test"));
    assert_eq!(q.folder_id, None);
    assert!(q.is_favorite);
    assert_eq!(q.created_at, 10);
    assert_eq!(q.updated_at, 20);
}

#[test]
fn make_folder_orders_after_the_maximum() {
    let f = make_folder(
        CreateFolderInput {
            name: "Work".to_string(),
            icon: Some("star".to_string()),
            color: None,
            parent_id: None,
        },
        "fid".to_string(),
        99,
        4,
    );
    assert_eq!(f.id, "fid");
    assert_eq!(f.name, "Work");
    assert_eq!(f.icon.as_deref(), Some("star"));
    assert_eq!(f.color, None);
    assert_eq!(f.parent_id, None);
    assert_eq!(f.sort_order, 5);
    assert_eq!(f.created_at, 99);
}

#[test]
fn apply_folder_update_keeps_absent_fields() {
    let f = make_folder(
        CreateFolderInput {
            name: "Old".to_string(),
            icon: None,
            color: Some("red".to_string()),
            parent_id: None,
        },
        "fid".to_string(),
        1,
        0,
    );
    let g = apply_folder_update(f, Some("New".to_string()), None, None);
    assert_eq!(g.id, "fid");
    assert_eq!(g.name, "New");
    assert_eq!(g.icon, None);
    assert_eq!(g.color.as_deref(), Some("red"));
    assert_eq!(g.sort_order, 1);
    assert_eq!(g.created_at, 1);
}

#[test]
fn import_skips_entries_with_empty_text() {
    let entries = vec![
        entry("first", None, None),
        entry("", Some("skipped"), None),
        entry("third", Some("h3"), Some("pack")),
        entry("", None, None),
        entry("fifth", None, None),
    ];
    let ids: Vec<String> = (0..5).map(|i| format!("id-{}", i)).collect();
    let r = build_imported_prompts(&entries, &ids, 555);
    assert_eq!(r.count, 3);
    assert_eq!(r.prompts.len(), 3);
    assert_eq!(r.prompts[0].text, "first");
    assert_eq!(r.prompts[0].id, "id-0");
    assert_eq!(r.prompts[1].text, "third");
    assert_eq!(r.prompts[1].id, "id-2");
    assert_eq!(r.prompts[1].header.as_deref(), Some("h3"));
    assert_eq!(r.prompts[1].source, "pack");
    assert_eq!(r.prompts[2].text, "fifth");
    assert_eq!(r.prompts[2].id, "id-4");
    for p in &r.prompts {
        assert_eq!(p.created_at, 555);
        assert_eq!(p.updated_at, 555);
        assert_eq!(p.sync_status, "local-only");
        assert_eq!(p.url, None);
        assert_eq!(p.folder_id, None);
        assert!(!p.is_favorite);
        assert_eq!(p.use_count, 0);
    }
}

#[test]
fn import_of_nothing_yields_nothing() {
    let r = build_imported_prompts(&Vec::new(), &Vec::new(), 0);
    assert_eq!(r.count, 0);
    assert!(r.prompts.is_empty());
}
