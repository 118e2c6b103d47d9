use rote::epub::{build_epub, package_bytes, Assets, ImageFile};
use rote::{compile, BookPlan, Error};

fn book_plan() -> BookPlan {
    BookPlan {
        title: "Packaged Book".to_string(),
        author: "An Author".to_string(),
        lang: "ja".to_string(),
        generator: "rote".to_string(),
        toc_name: "目次".to_string(),
        cover_image: "cover.jpg".to_string(),
        raw: "raw.txt".to_string(),
    }
}

fn assets() -> Assets {
    Assets {
        book_style: "body { margin: 0; }".to_string(),
        fit_style: "img.fit { width: 100%; }".to_string(),
        keep_space: vec![0xFF, 0xD8, 0xFF, 0xD9],
        cover: vec![0xFF, 0xD8, 0xFF, 0xE0, 0xFF, 0xD9],
    }
}

const RAW: &str = "#toc#\n#chapter,One#\nBody text\n#chapter,Two#\nMore\n#bibliography#\n#img,pic.png#\n#toc-chapter,One#\n#toc-chapter,Two#";

#[test]
fn epub_container_is_written() {
    let plan = book_plan();
    let pkg = compile(&plan, RAW).unwrap();
    let images = vec![ImageFile { name: "pic.png".to_string(), data: vec![1, 2, 3, 4] }];
    let built = build_epub(&plan, &pkg, &assets(), &images).unwrap();
    let bytes = package_bytes(built).unwrap();
    assert!(bytes.len() > 4);
    assert_eq!(&bytes[0..2], b"PK");
    assert!(contains(&bytes, b"application/epub+zip"));
    // Zip entry names are stored verbatim: the documents and resources the
    // container was asked to hold must all be present.
    assert!(contains(&bytes, b"OEBPS/xhtml/p-cover.xhtml"));
    assert!(contains(&bytes, b"OEBPS/xhtml/p-toc.xhtml"));
    assert!(contains(&bytes, b"OEBPS/xhtml/p-001.xhtml"));
    assert!(contains(&bytes, b"OEBPS/xhtml/p-002.xhtml"));
    assert!(contains(&bytes, b"OEBPS/xhtml/p-003.xhtml"));
    assert!(contains(&bytes, b"OEBPS/image/pic.png"));
    assert!(contains(&bytes, b"OEBPS/image/cover-image.jpg"));
    assert!(contains(&bytes, b"OEBPS/style/book-style.css"));
    assert!(contains(&bytes, b"OEBPS/image/keep-space.jpg"));
}

fn contains(haystack: &[u8], needle: &[u8]) -> bool {
    haystack.windows(needle.len()).any(|w| w == needle)
}

#[test]
fn missing_image_file_is_reported() {
    let plan = book_plan();
    let pkg = compile(&plan, RAW).unwrap();
    let images: Vec<ImageFile> = Vec::new();
    match build_epub(&plan, &pkg, &assets(), &images) {
        Err(Error::MissingImage(name)) => assert_eq!(name, "pic.png"),
        _ => panic!("expected the missing-image error"),
    }
}
