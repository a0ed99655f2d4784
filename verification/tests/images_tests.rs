use base64::Engine;
use plumai::entities::Chapter;
use plumai::entities::Character;
use plumai::entities::GalleryItem;
use plumai::entities::JsonBlob;
use plumai::entities::Location;
use plumai::entities::Project;
use plumai::entities::Scene;
use plumai::images::classify_image_value;
use plumai::images::decode_image_data;
use plumai::images::detect_image_format;
use plumai::images::is_likely_base64;
use plumai::images::resolve_image_path;
use plumai::images::save_image_from_base64;
use plumai::images::ImageKind;
use plumai::migration::extract_base64_images_for_project;
use plumai::migration::migrate_all_projects;
use plumai::project_fs::ProjectFolder;
use plumai::store::create_chapter;
use plumai::store::create_character;
use plumai::store::create_project;
use plumai::store::Store;
use plumai::sync::sync_sql_to_filesystem;

fn png_bytes() -> Vec<u8> {
    vec![0x89, 0x50, 0x4e, 0x47, 0x0d, 0x0a, 0x1a, 0x0a, 1, 2, 3, 4]
}

fn png_data_url() -> String {
    let payload = base64::engine::general_purpose::STANDARD.encode(png_bytes());
    format!("data:image/png;base64,{}", payload)
}

fn empty_folder(name: &str) -> ProjectFolder {
    ProjectFolder {
        name: name.to_string(),
        manifest: None,
        project: None,
        chapters: Vec::new(),
        scenes: Vec::new(),
        characters: Vec::new(),
        locations: Vec::new(),
        lore: Vec::new(),
        timeline: Vec::new(),
        images: Vec::new(),
    }
}

#[test]
fn test_classify_image_value() {
    assert!(matches!(classify_image_value(""), ImageKind::Empty));
    assert!(matches!(classify_image_value("   "), ImageKind::Empty));
    assert!(matches!(classify_image_value("data:image/png;base64,AAAA"), ImageKind::Base64(_)));
    assert!(matches!(classify_image_value("http://example.com/a.png"), ImageKind::ExternalUrl(_)));
    assert!(matches!(classify_image_value("https://example.com/a.png"), ImageKind::ExternalUrl(_)));
    assert!(matches!(classify_image_value("images/chapters/a.png"), ImageKind::RelativePath(_)));
    assert!(matches!(classify_image_value("notes.txt"), ImageKind::RelativePath(_)));
    let long_b64 = "A".repeat(120);
    assert!(matches!(classify_image_value(&long_b64), ImageKind::Base64(_)));
}

#[test]
fn test_classify_trims_whitespace() {
    if let ImageKind::ExternalUrl(u) = classify_image_value("  https://example.com/a.png \n") {
        assert_eq!(u, "https://example.com/a.png");
    } else {
        panic!("expected an external url");
    }
}

#[test]
fn test_is_likely_base64() {
    assert!(is_likely_base64(&"Ab0+/=".repeat(20)));
    assert!(!is_likely_base64("Ab0+/="));
    let mut tainted = "A".repeat(120);
    tainted.push('.');
    assert!(!is_likely_base64(&tainted));
}

#[test]
fn test_resolve_image_path() {
    assert_eq!(
        resolve_image_path("/ws/projects/my-book-p1", "images/chapters/a.png"),
        "/ws/projects/my-book-p1/images/chapters/a.png"
    );
}

#[test]
fn test_detect_image_format() {
    assert_eq!(detect_image_format(&png_bytes()), Some("png"));
    assert_eq!(detect_image_format(&vec![0xff, 0xd8, 0xff, 0xe0]), Some("jpg"));
    let mut webp = b"RIFF".to_vec();
    webp.extend_from_slice(&[0, 0, 0, 0]);
    webp.extend_from_slice(b"WEBP");
    assert_eq!(detect_image_format(&webp), Some("webp"));
    assert_eq!(detect_image_format(&b"GIF89a".to_vec()), Some("gif"));
    assert_eq!(detect_image_format(&vec![1, 2, 3, 4]), None);
    assert_eq!(detect_image_format(&vec![0x89]), None);
}

#[test]
fn test_decode_data_url_round_trip() {
    // A known PNG byte sequence encoded as a data URL decodes back to
    // the original bytes, with the extension from the MIME header.
    let (bytes, ext) = decode_image_data(&png_data_url()).unwrap();
    assert_eq!(bytes, png_bytes());
    assert_eq!(ext, "png");
}

#[test]
fn test_decode_raw_base64_sniffs_magic() {
    let jpg = vec![0xff, 0xd8, 0xff, 0xe0, 9, 9];
    let raw = base64::engine::general_purpose::STANDARD.encode(&jpg);
    let (bytes, ext) = decode_image_data(&raw).unwrap();
    assert_eq!(bytes, jpg);
    assert_eq!(ext, "jpg");
}

#[test]
fn test_decode_invalid_data_url() {
    assert!(decode_image_data("data:image/png;base64").is_err());
    assert!(decode_image_data("data:image/png;base64,!!!").is_err());
}

#[test]
fn test_externalize_is_lossless_and_idempotent() {
    // Externalization writes the decoded bytes under images/<category>/
    // and the new value is classified as a relative path, so a second
    // pass leaves it alone.
    let mut folder = empty_folder("my-book-p1");
    let rel = save_image_from_base64(&mut folder, "chapters", &png_data_url()).unwrap();
    assert!(rel.starts_with("images/chapters/"));
    assert!(rel.ends_with(".png"));
    assert_eq!(folder.images.len(), 1);
    assert_eq!(folder.images[0].rel_path, rel);
    assert_eq!(folder.images[0].bytes, png_bytes());
    assert!(matches!(classify_image_value(&rel), ImageKind::RelativePath(_)));
}

#[test]
fn test_extract_rewrites_inline_images() {
    let mut store = Store::new();
    let mut p = Project {
        id: "p1".to_string(),
        title: "My Book".to_string(),
        author: None,
        description: None,
        genre: None,
        is_rpg_mode_enabled: false,
        rpg_system: None,
        banners: None,
        api_keys: None,
        world_rules: None,
    };
    create_project(&mut store, &p).unwrap();
    p.id = "p2".to_string();
    create_project(&mut store, &p).unwrap();
    let mut ch = Chapter {
        id: "c1".to_string(),
        project_id: "p1".to_string(),
        title: "One".to_string(),
        content: String::new(),
        status: "draft".to_string(),
        word_count: 0,
        summary: None,
        number: None,
        image: Some(png_data_url()),
        image_type: None,
    };
    create_chapter(&mut store, &ch).unwrap();
    ch.id = "c2".to_string();
    ch.project_id = "p2".to_string();
    create_chapter(&mut store, &ch).unwrap();
    let avatar = Character {
        id: "h1".to_string(),
        project_id: "p1".to_string(),
        name: "Hero".to_string(),
        role: "main".to_string(),
        avatar_url: Some("https://example.com/a.png".to_string()),
        physical_description: None,
        personality: None,
        history: None,
        notes: None,
        attributes: None,
        attribute_history: None,
        vital_status_history: Vec::new(),
        current_vital_status: None,
        visual_position: None,
        relationships: Vec::new(),
    };
    create_character(&mut store, &avatar).unwrap();

    // An inline-looking value whose payload does not decode: length 121
    // is no valid base64, so the field must be left as it stands.
    let undecodable = "B".repeat(121);
    ch.id = "c3".to_string();
    ch.project_id = "p1".to_string();
    ch.image = Some(undecodable.clone());
    create_chapter(&mut store, &ch).unwrap();
    // A scene owned by the other project's chapter: out of scope even
    // though its image is inline.
    plumai::store::create_scene(
        &mut store,
        &Scene {
            id: "s1".to_string(),
            chapter_id: "c2".to_string(),
            title: "Elsewhere".to_string(),
            character_ids: Vec::new(),
            location_id: None,
            timeline_position: 0,
            description: None,
            notes: None,
            image: Some(png_data_url()),
            image_type: None,
        },
    )
    .unwrap();
    // A location of the project with an inline main image and an inline
    // gallery entry: two more files.
    plumai::store::create_location(
        &mut store,
        &Location {
            id: "l1".to_string(),
            project_id: "p1".to_string(),
            name: "Keep".to_string(),
            image_url: Some(png_data_url()),
            location_type: None,
            description: None,
            significance: None,
            notes: None,
            gallery: vec![GalleryItem {
                url: Some(png_data_url()),
                extra: JsonBlob { raw: "{}".to_string() },
            }],
            plans: Vec::new(),
            connections: Vec::new(),
            visual_position: None,
        },
    )
    .unwrap();

    let mut folder = empty_folder("my-book-p1");
    let extracted = extract_base64_images_for_project(&mut store, &mut folder, "p1");
    // One chapter image, the location image and its gallery entry: the
    // undecodable value and the out-of-project rows are passed over.
    assert_eq!(extracted, 3);
    assert_eq!(folder.images.len(), 3);
    let rewritten = store.chapters[0].image.as_ref().unwrap();
    assert!(rewritten.starts_with("images/chapters/"));
    assert_eq!(store.chapters[2].image.as_ref().unwrap(), &undecodable);
    assert!(store.locations[0].image_url.as_ref().unwrap().starts_with("images/locations/"));
    assert!(store.locations[0].gallery[0].url.as_ref().unwrap().starts_with("images/locations/"));
    // The other project's inline images and the outside link are untouched.
    assert_eq!(store.chapters[1].image.as_ref().unwrap(), &png_data_url());
    assert_eq!(store.scenes[0].image.as_ref().unwrap(), &png_data_url());
    assert_eq!(store.characters[0].avatar_url.as_ref().unwrap(), "https://example.com/a.png");
}

#[test]
fn test_migrate_all_projects_counts_new_folders() {
    let mut store = Store::new();
    let mut p = Project {
        id: "p1".to_string(),
        title: "First".to_string(),
        author: None,
        description: None,
        genre: None,
        is_rpg_mode_enabled: false,
        rpg_system: None,
        banners: None,
        api_keys: None,
        world_rules: None,
    };
    create_project(&mut store, &p).unwrap();
    p.id = "p2".to_string();
    p.title = "Second".to_string();
    create_project(&mut store, &p).unwrap();
    let mut folders: Vec<ProjectFolder> = Vec::new();
    // The first project already has its folder.
    sync_sql_to_filesystem(&store, &mut folders, "p1", "t0").unwrap();
    let migrated = migrate_all_projects(&mut store, &mut folders, "t1");
    assert_eq!(migrated, 1);
    assert_eq!(folders.len(), 2);
    assert_eq!(folders[1].manifest.as_ref().unwrap().project_id, "p2");
}
