use imagegen::gallery::{list_gallery_images, GalleryEntry};

fn entry(name: &str, created: u64, is_file: bool) -> GalleryEntry {
    GalleryEntry {
        filename: String::from(name),
        path: format!("/out/{}", name),
        created_at: created,
        is_file,
    }
}

#[test]
fn gallery_keeps_images_and_sorts_newest_first() {
    let entries = vec![
        entry("a.png", 100, true),
        entry("b.txt", 200, true),
        entry("c.JPG", 300, true),
    ];
    let r = list_gallery_images(&entries);
    assert_eq!(r.len(), 2);
    assert_eq!(r[0].filename, "c.JPG");
    assert_eq!(r[1].filename, "a.png");
    assert_eq!(r[0].path, "/out/c.JPG");
}

#[test]
fn directories_are_not_listed() {
    let entries = vec![entry("folder.png", 100, false), entry("real.png", 50, true)];
    let r = list_gallery_images(&entries);
    assert_eq!(r.len(), 1);
    assert_eq!(r[0].filename, "real.png");
}

#[test]
fn all_image_extensions_are_kept_case_insensitively() {
    let entries = vec![
        entry("a.png", 1, true),
        entry("b.jpg", 2, true),
        entry("c.jpeg", 3, true),
        entry("d.webp", 4, true),
        entry("e.PNG", 5, true),
        entry("f.gif", 6, true),
        entry("g", 7, true),
    ];
    let r = list_gallery_images(&entries);
    let names: Vec<&str> = r.iter().map(|i| i.filename.as_str()).collect();
    assert_eq!(names, vec!["e.PNG", "d.webp", "c.jpeg", "b.jpg", "a.png"]);
}

#[test]
fn empty_directory_lists_nothing() {
    let r = list_gallery_images(&vec![]);
    assert!(r.is_empty());
}

#[test]
fn sorting_is_by_creation_time_descending() {
    let entries = vec![
        entry("old.png", 10, true),
        entry("newest.png", 900, true),
        entry("mid.png", 500, true),
    ];
    let r = list_gallery_images(&entries);
    let times: Vec<u64> = r.iter().map(|i| i.created_at).collect();
    assert_eq!(times, vec![900, 500, 10]);
}
