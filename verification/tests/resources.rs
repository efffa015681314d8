use azul_core::resources::{
    AppResources, FontReloadError, FontSource, ImageReloadError, ImageSource,
};

#[test]
fn css_image_id_allocates_once() {
    let mut res = AppResources::new();
    let h1 = res.add_css_image_id("logo");
    let h2 = res.add_css_image_id("logo");
    let h3 = res.add_css_image_id("logo");
    assert_eq!(h1, h2);
    assert_eq!(h1, h3);
    assert_eq!(res.get_css_image_id("logo"), Some(h1));
    let other = res.add_css_image_id("banner");
    assert_ne!(other, h1);
}

#[test]
fn css_font_id_allocates_once() {
    let mut res = AppResources::new();
    let f1 = res.add_css_font_id("serif-main");
    let f2 = res.add_css_font_id("serif-main");
    assert_eq!(f1, f2);
    assert!(res.has_css_font_id("serif-main"));
    assert!(!res.has_css_font_id("sans-main"));
}

#[test]
fn get_image_bytes_is_idempotent() {
    let mut res = AppResources::new();
    let id = res.new_image_id();
    res.add_image(id, ImageSource::Embedded(vec![1, 2, 3]));
    let first = res.get_image_bytes(&id);
    let second = res.get_image_bytes(&id);
    assert_eq!(first, Some(Ok(vec![1, 2, 3])));
    assert_eq!(second, Some(Ok(vec![1, 2, 3])));
}

#[test]
fn failed_resolution_is_cached() {
    let mut res = AppResources::new();
    let id = res.new_image_id();
    res.add_image(id, ImageSource::File(String::from("missing.png")));
    // The file contents are never supplied, so resolution fails and the
    // failure is cached.
    let first = res.get_image_bytes(&id);
    let second = res.get_image_bytes(&id);
    assert_eq!(first, Some(Err(ImageReloadError::SourceNotFetched)));
    assert_eq!(second, Some(Err(ImageReloadError::SourceNotFetched)));
}

#[test]
fn delete_then_get_returns_none() {
    let mut res = AppResources::new();
    let id = res.new_image_id();
    res.add_image(id, ImageSource::Embedded(vec![9]));
    assert!(res.has_image(&id));
    res.delete_image(&id);
    assert!(!res.has_image(&id));
    assert_eq!(res.get_image_bytes(&id), None);
}

#[test]
fn deleting_css_binding_keeps_entry() {
    let mut res = AppResources::new();
    let h = res.add_css_image_id("background");
    res.add_image(h, ImageSource::Embedded(vec![7, 7]));
    let loaded = res.get_image_bytes(&h);
    assert_eq!(loaded, Some(Ok(vec![7, 7])));
    let removed = res.delete_css_image_id("background");
    assert_eq!(removed, Some(h));
    assert!(!res.has_css_image_id("background"));
    // The underlying cache entry still resolves to the loaded bytes.
    assert_eq!(res.get_image_bytes(&h), Some(Ok(vec![7, 7])));
}

#[test]
fn font_overwrite_invalidates_cached_resolution() {
    let mut res = AppResources::new();
    let f1 = res.new_font_id();
    res.add_font(f1, FontSource::Embedded(vec![10, 11], 0));
    assert_eq!(res.get_font_bytes(&f1), Some(Ok((vec![10, 11], 0))));
    res.add_font(f1, FontSource::Embedded(vec![20, 21, 22], 3));
    assert_eq!(res.get_font_bytes(&f1), Some(Ok((vec![20, 21, 22], 3))));
}

#[test]
fn resolve_image_file_commits_contents() {
    let mut res = AppResources::new();
    let id = res.new_image_id();
    res.add_image(id, ImageSource::File(String::from("wallpaper.png")));
    assert_eq!(
        res.pending_image_file(&id).map(|p| p.clone()),
        Some(String::from("wallpaper.png"))
    );
    res.resolve_image_file(&id, Ok(vec![5, 6, 7]));
    assert_eq!(res.get_image_bytes(&id), Some(Ok(vec![5, 6, 7])));
}

#[test]
fn resolve_image_file_reports_read_failure() {
    let mut res = AppResources::new();
    let id = res.new_image_id();
    res.add_image(id, ImageSource::File(String::from("gone.png")));
    res.resolve_image_file(&id, Err(ImageReloadError::SourceNotFound));
    assert_eq!(
        res.get_image_bytes(&id),
        Some(Err(ImageReloadError::SourceNotFound))
    );
}

#[test]
fn resolve_font_file_keeps_index() {
    let mut res = AppResources::new();
    let id = res.new_font_id();
    res.add_font(id, FontSource::File(String::from("faces.ttc"), 2));
    assert_eq!(
        res.pending_font_file(&id).map(|p| p.clone()),
        Some(String::from("faces.ttc"))
    );
    res.resolve_font_file(&id, Ok(vec![1, 2]));
    assert_eq!(res.get_font_bytes(&id), Some(Ok((vec![1, 2], 2))));
}

#[test]
fn font_file_read_failure_is_cached() {
    let mut res = AppResources::new();
    let id = res.new_font_id();
    res.add_font(id, FontSource::File(String::from("corrupt.ttf"), 0));
    res.resolve_font_file(&id, Err(FontReloadError::SourceUnreadable));
    assert_eq!(
        res.get_font_bytes(&id),
        Some(Err(FontReloadError::SourceUnreadable))
    );
    assert_eq!(
        res.get_font_bytes(&id),
        Some(Err(FontReloadError::SourceUnreadable))
    );
}

#[test]
fn unsupported_encoding_is_reported_and_cached() {
    let mut res = AppResources::new();
    let id = res.new_image_id();
    res.add_image(id, ImageSource::File(String::from("picture.heix")));
    res.resolve_image_file(&id, Err(ImageReloadError::DecodeUnsupported));
    assert_eq!(
        res.get_image_bytes(&id),
        Some(Err(ImageReloadError::DecodeUnsupported))
    );
    let f = res.new_font_id();
    res.add_font(f, FontSource::File(String::from("font.woff9"), 0));
    res.resolve_font_file(&f, Err(FontReloadError::DecodeUnsupported));
    assert_eq!(
        res.get_font_bytes(&f),
        Some(Err(FontReloadError::DecodeUnsupported))
    );
}

#[test]
fn unknown_font_handle_is_none_not_err() {
    let mut res = AppResources::new();
    let id = res.new_font_id();
    assert_eq!(res.get_font_bytes(&id), None);
    assert!(!res.has_font(&id));
}

#[test]
fn text_cache_stores_and_clears() {
    let mut res = AppResources::new();
    let t1 = res.add_text("hello");
    let t2 = res.add_text("world");
    assert_ne!(t1, t2);
    assert_eq!(res.get_text(&t1).map(|s| s.clone()), Some(String::from("hello")));
    assert_eq!(res.get_text(&t2).map(|s| s.clone()), Some(String::from("world")));
    res.delete_text(t1);
    assert!(res.get_text(&t1).is_none());
    assert!(res.get_text(&t2).is_some());
    res.clear_all_texts();
    assert!(res.get_text(&t2).is_none());
    assert_eq!(res.get_loaded_text_ids().len(), 0);
}

#[test]
fn loaded_id_enumeration() {
    let mut res = AppResources::new();
    let i1 = res.new_image_id();
    let i2 = res.new_image_id();
    res.add_image(i1, ImageSource::Raw(vec![0]));
    res.add_image(i2, ImageSource::Raw(vec![1]));
    let ids = res.get_loaded_image_ids();
    assert_eq!(ids, vec![i1, i2]);
    let f1 = res.new_font_id();
    res.add_font(f1, FontSource::Embedded(vec![3], 0));
    assert_eq!(res.get_loaded_font_ids(), vec![f1]);
    res.add_css_image_id("a");
    res.add_css_image_id("b");
    assert_eq!(
        res.get_loaded_css_image_ids(),
        vec![String::from("a"), String::from("b")]
    );
    res.add_css_font_id("c");
    assert_eq!(res.get_loaded_css_font_ids(), vec![String::from("c")]);
}

#[test]
fn delete_css_font_id_keeps_entry() {
    let mut res = AppResources::new();
    let h = res.add_css_font_id("body-font");
    res.add_font(h, FontSource::Embedded(vec![42], 1));
    assert_eq!(res.delete_css_font_id("body-font"), Some(h));
    assert!(!res.has_css_font_id("body-font"));
    assert_eq!(res.get_font_bytes(&h), Some(Ok((vec![42], 1))));
    assert_eq!(res.delete_css_font_id("body-font"), None);
}

#[test]
fn raw_image_resolves_to_its_buffer() {
    let mut res = AppResources::new();
    let id = res.new_image_id();
    res.add_image_raw(id, vec![255, 0, 255]);
    assert_eq!(res.get_image_bytes(&id), Some(Ok(vec![255, 0, 255])));
}
