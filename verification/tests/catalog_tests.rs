use wallrotate::catalog::{discover_images, extension_bytes, is_image_file};

fn v(s: &str) -> Vec<u8> {
    s.as_bytes().to_vec()
}

#[test]
fn recognizes_all_extensions_any_case() {
    for name in [
        "a.jpg", "b.JPEG", "c.Png", "d.GIF", "e.bmp", "f.WebP", "g.tiff", "h.TIF",
    ] {
        assert!(is_image_file(&v(name)), "{} should qualify", name);
    }
}

#[test]
fn rejects_other_extensions_and_no_extension() {
    for name in ["a.txt", "b.jpg.bak", "noext", "c.pngx", "d.jp", "e.", "video.mp4"] {
        assert!(!is_image_file(&v(name)), "{} should not qualify", name);
    }
}

#[test]
fn hidden_file_has_no_extension() {
    assert!(!is_image_file(&v(".jpg")));
    assert!(!is_image_file(&v("dir/.png")));
    assert!(is_image_file(&v(".hidden.png")));
}

#[test]
fn extension_is_last_component_only() {
    assert!(is_image_file(&v("photos.d/img.webp")));
    assert!(!is_image_file(&v("photos.jpg/readme")));
    assert_eq!(extension_bytes(&v("a/b/c.d.GIF")), Some(v("GIF")));
    assert_eq!(extension_bytes(&v("a.jpg/plain")), None);
}

#[test]
fn discovery_keeps_exactly_recognized_files() {
    let files = vec![
        v("roots/a.jpg"),
        v("roots/notes.txt"),
        v("roots/deep/er/b.JPEG"),
        v("roots/c.gif"),
        v("roots/Makefile"),
        v("roots/deep/d.webp"),
        v("roots/archive.tar.gz"),
    ];
    let images = discover_images(&files);
    assert_eq!(
        images,
        vec![
            v("roots/a.jpg"),
            v("roots/deep/er/b.JPEG"),
            v("roots/c.gif"),
            v("roots/deep/d.webp"),
        ]
    );
}

#[test]
fn discovery_count_insensitive_to_unrecognized() {
    let mut files = vec![v("x/a.png"), v("x/b.tif")];
    let without = discover_images(&files);
    for i in 0..100 {
        files.push(v(&format!("x/junk{}.log", i)));
    }
    let with = discover_images(&files);
    assert_eq!(without.len(), 2);
    assert_eq!(without, with);
}

#[test]
fn discovery_of_empty_list_is_empty() {
    let files: Vec<Vec<u8>> = Vec::new();
    assert!(discover_images(&files).is_empty());
}

#[test]
fn empty_root_does_not_hinder_another() {
    // Two roots' walks laid end to end: the first contributed nothing.
    let first_root: Vec<Vec<u8>> = Vec::new();
    let second_root = vec![v("other/a.jpg"), v("other/b.txt")];
    let mut both = first_root.clone();
    both.extend(second_root.iter().cloned());
    let images = discover_images(&both);
    assert_eq!(images, vec![v("other/a.jpg")]);
}

#[test]
fn discovery_is_per_root() {
    let root_a = vec![v("a/1.jpg"), v("a/2.txt")];
    let root_b = vec![v("b/3.png"), v("b/4.gif")];
    let mut both = root_a.clone();
    both.extend(root_b.iter().cloned());
    let mut expected = discover_images(&root_a);
    expected.extend(discover_images(&root_b));
    assert_eq!(discover_images(&both), expected);
}
