use y_sweet::names::{
    extract_asset_id_from_filename, get_extension_from_content_type, is_allowed_content_type,
    new_asset_name, new_doc_id, validate_doc_name,
};

#[test]
fn test_get_extension_from_content_type() {
    let jpeg_ext = get_extension_from_content_type("image/jpeg");
    assert!(jpeg_ext == ".jfif" || jpeg_ext == ".jpeg" || jpeg_ext == ".jpg");

    assert_eq!(get_extension_from_content_type("image/png"), ".png");
    assert_eq!(get_extension_from_content_type("video/mp4"), ".mp4");
    assert_eq!(get_extension_from_content_type("application/pdf"), ".pdf");

    let text_ext = get_extension_from_content_type("text/plain");
    assert!(text_ext == ".txt" || text_ext == ".asm");

    assert_eq!(get_extension_from_content_type("invalid/type"), ".bin");
}

#[test]
fn unparsable_content_type_falls_back_to_octet_stream() {
    let ext = get_extension_from_content_type("not a mime type");
    assert!(ext.starts_with('.'));
    assert_eq!(ext, get_extension_from_content_type("application/octet-stream"));
}

#[test]
fn allowed_content_types_are_images_and_videos() {
    assert!(is_allowed_content_type("image/png"));
    assert!(is_allowed_content_type("video/mp4"));
    assert!(is_allowed_content_type("image/svg+xml"));
    assert!(!is_allowed_content_type("text/plain"));
    assert!(!is_allowed_content_type("application/pdf"));
    assert!(!is_allowed_content_type("garbage"));
    assert!(!is_allowed_content_type(""));
}

#[test]
fn doc_names() {
    assert!(validate_doc_name("abc-DEF_123"));
    assert!(!validate_doc_name(""));
    assert!(!validate_doc_name("a/b"));
    assert!(!validate_doc_name("a.b"));
    assert!(!validate_doc_name("ümlaut"));
    assert!(validate_doc_name(&"x".repeat(256)));
    assert!(!validate_doc_name(&"x".repeat(257)));
}

#[test]
fn fresh_doc_ids_are_valid_names() {
    let a = new_doc_id();
    let b = new_doc_id();
    assert_eq!(a.chars().count(), 21);
    assert!(validate_doc_name(&a));
    assert_ne!(a, b);
}

#[test]
fn asset_ids_from_file_names() {
    assert_eq!(extract_asset_id_from_filename("abc.png"), Some("abc".to_string()));
    assert_eq!(extract_asset_id_from_filename("a.b.c"), Some("a.b".to_string()));
    assert_eq!(extract_asset_id_from_filename("noext"), Some("noext".to_string()));
    assert_eq!(extract_asset_id_from_filename(".hidden"), Some(".hidden".to_string()));
    assert_eq!(extract_asset_id_from_filename(""), Some("".to_string()));
}

#[test]
fn new_asset_names_carry_the_extension() {
    let (id, name) = new_asset_name("image/png");
    assert!(!id.is_empty());
    assert!(id.chars().all(|c| c.is_ascii_lowercase() || c.is_ascii_digit()));
    assert_eq!(name, format!("{}.png", id));
    assert_eq!(extract_asset_id_from_filename(&name), Some(id));
}
