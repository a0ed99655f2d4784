use plumai::entities::Chapter;
use plumai::entities::Character;
use plumai::entities::Project;
use plumai::project_fs::chapter_file_name;
use plumai::project_fs::character_file_name;
use plumai::project_fs::find_project_folder;
use plumai::project_fs::get_project_path;
use plumai::project_fs::project_slug;
use plumai::project_fs::read_project_from_folder;
use plumai::project_fs::ProjectFolder;
use plumai::store::create_chapter;
use plumai::store::create_character;
use plumai::store::create_project;
use plumai::store::delete_project;
use plumai::store::get_chapters_by_project;
use plumai::store::get_project;
use plumai::store::update_chapter;
use plumai::store::Store;
use plumai::sync::open_project_route;
use plumai::sync::load_project_from_folder;
use plumai::sync::save_project_to_folder;
use plumai::sync::sync_filesystem_to_sql;
use plumai::sync::sync_sql_to_filesystem;
use plumai::sync::OpenOutcome;

fn project(id: &str, title: &str) -> Project {
    Project {
        id: id.to_string(),
        title: title.to_string(),
        author: Some("ada".to_string()),
        description: None,
        genre: Some("fantasy".to_string()),
        is_rpg_mode_enabled: false,
        rpg_system: None,
        banners: None,
        api_keys: None,
        world_rules: None,
    }
}

fn chapter(id: &str, project_id: &str, title: &str) -> Chapter {
    Chapter {
        id: id.to_string(),
        project_id: project_id.to_string(),
        title: title.to_string(),
        content: "Once upon a time".to_string(),
        status: "draft".to_string(),
        word_count: 4,
        summary: None,
        number: Some(1),
        image: None,
        image_type: None,
    }
}

fn character(id: &str, project_id: &str, name: &str) -> Character {
    Character {
        id: id.to_string(),
        project_id: project_id.to_string(),
        name: name.to_string(),
        role: "secondary".to_string(),
        avatar_url: None,
        physical_description: None,
        personality: None,
        history: None,
        notes: None,
        attributes: None,
        attribute_history: None,
        vital_status_history: Vec::new(),
        current_vital_status: None,
        visual_position: None,
        relationships: Vec::new(),
    }
}

fn seeded_store() -> Store {
    let mut store = Store::new();
    create_project(&mut store, &project("p1-id-0001", "My Book")).unwrap();
    create_chapter(&mut store, &chapter("c1", "p1-id-0001", "One")).unwrap();
    create_chapter(&mut store, &chapter("c2", "p1-id-0001", "Two")).unwrap();
    create_character(&mut store, &character("ch1", "p1-id-0001", "Hero")).unwrap();
    store
}

#[test]
fn test_project_slug_shape() {
    assert_eq!(project_slug("My Book", "p1-id-0001"), "my-book-p1-id-00");
    assert_eq!(project_slug("My Book", "abc"), "my-book-abc");
}

#[test]
fn test_get_project_path_shape() {
    assert_eq!(
        get_project_path("/ws", "My Book", "p1-id-0001"),
        "/ws/projects/my-book-p1-id-00"
    );
}

#[test]
fn test_store_crud() {
    let mut store = seeded_store();
    assert!(get_project(&store, "p1-id-0001").is_some());
    assert!(get_project(&store, "nope").is_none());
    assert!(create_project(&mut store, &project("p1-id-0001", "Again")).is_err());
    let mut c = chapter("c1", "p1-id-0001", "One Revised");
    c.content = "rewritten".to_string();
    update_chapter(&mut store, &c).unwrap();
    let chapters = get_chapters_by_project(&store, "p1-id-0001");
    assert_eq!(chapters.len(), 2);
    assert_eq!(chapters[0].title, "One Revised");
    assert_eq!(chapters[0].content, "rewritten");
}

#[test]
fn test_delete_project_cascades() {
    let mut store = seeded_store();
    create_project(&mut store, &project("p2", "Other")).unwrap();
    create_chapter(&mut store, &chapter("o1", "p2", "Kept")).unwrap();
    plumai::store::create_scene(
        &mut store,
        &plumai::entities::Scene {
            id: "s1".to_string(),
            chapter_id: "c1".to_string(),
            title: "Opening".to_string(),
            character_ids: Vec::new(),
            location_id: None,
            timeline_position: 0,
            description: None,
            notes: None,
            image: None,
            image_type: None,
        },
    )
    .unwrap();
    plumai::store::create_scene(
        &mut store,
        &plumai::entities::Scene {
            id: "s2".to_string(),
            chapter_id: "o1".to_string(),
            title: "Elsewhere".to_string(),
            character_ids: Vec::new(),
            location_id: None,
            timeline_position: 0,
            description: None,
            notes: None,
            image: None,
            image_type: None,
        },
    )
    .unwrap();
    delete_project(&mut store, "p1-id-0001").unwrap();
    assert_eq!(store.projects.len(), 1);
    assert_eq!(store.projects[0].id, "p2");
    assert_eq!(store.chapters.len(), 1);
    assert_eq!(store.chapters[0].id, "o1");
    assert_eq!(store.scenes.len(), 1);
    assert_eq!(store.scenes[0].id, "s2");
    assert_eq!(store.characters.len(), 0);
}

#[test]
fn test_save_project_creates_folder() {
    let store = seeded_store();
    let mut folders: Vec<ProjectFolder> = Vec::new();
    let name = save_project_to_folder(&store, &mut folders, "p1-id-0001").unwrap();
    assert_eq!(name, "my-book-p1-id-00");
    assert_eq!(folders.len(), 1);
    let folder = &folders[0];
    assert_eq!(folder.name, "my-book-p1-id-00");
    let manifest = folder.manifest.as_ref().unwrap();
    assert_eq!(manifest.version, "1.0");
    assert_eq!(manifest.project_id, "p1-id-0001");
    assert_eq!(manifest.title, "My Book");
    assert_eq!(folder.chapters.len(), 2);
    assert_eq!(folder.chapters[0].id, "c1");
    assert_eq!(folder.chapters[1].id, "c2");
    assert_eq!(folder.characters.len(), 1);
    assert_eq!(folder.characters[0].id, "ch1");
    // The on-disk names those files are laid down under.
    assert_eq!(chapter_file_name(&folder.chapters[0].id), "chapters/chapter-c1.json");
    assert_eq!(chapter_file_name(&folder.chapters[1].id), "chapters/chapter-c2.json");
    assert_eq!(
        character_file_name(&folder.characters[0].id),
        "characters/character-ch1.json"
    );
}

#[test]
fn test_save_project_unknown_id_fails() {
    let store = seeded_store();
    let mut folders: Vec<ProjectFolder> = Vec::new();
    assert!(save_project_to_folder(&store, &mut folders, "missing").is_err());
    assert_eq!(folders.len(), 0);
}

#[test]
fn test_save_project_twice_is_idempotent() {
    // Snapshotting an unchanged project again rewrites the same files:
    // only the manifest's updated_at may move.
    let store = seeded_store();
    let mut folders: Vec<ProjectFolder> = Vec::new();
    sync_sql_to_filesystem(&store, &mut folders, "p1-id-0001", "t1").unwrap();
    let first = &folders[0];
    let first_chapters: Vec<(String, String)> = first
        .chapters
        .iter()
        .map(|f| (f.id.clone(), f.content.as_ref().unwrap().title.clone()))
        .collect();
    let first_created = first.manifest.as_ref().unwrap().created_at.clone();
    sync_sql_to_filesystem(&store, &mut folders, "p1-id-0001", "t2").unwrap();
    assert_eq!(folders.len(), 1);
    let second = &folders[0];
    let second_chapters: Vec<(String, String)> = second
        .chapters
        .iter()
        .map(|f| (f.id.clone(), f.content.as_ref().unwrap().title.clone()))
        .collect();
    assert_eq!(first_chapters, second_chapters);
    let manifest = second.manifest.as_ref().unwrap();
    assert_eq!(manifest.created_at, first_created);
    assert_eq!(manifest.updated_at, "t2");
}

#[test]
fn test_rename_does_not_create_second_folder() {
    // Folder discovery is rename tolerant: a new title reuses the folder
    // found by project id, under its original name.
    let mut store = seeded_store();
    let mut folders: Vec<ProjectFolder> = Vec::new();
    sync_sql_to_filesystem(&store, &mut folders, "p1-id-0001", "t1").unwrap();
    let mut renamed = project("p1-id-0001", "A Very Different Title");
    renamed.author = Some("ada".to_string());
    plumai::store::update_project(&mut store, &renamed).unwrap();
    sync_sql_to_filesystem(&store, &mut folders, "p1-id-0001", "t2").unwrap();
    assert_eq!(folders.len(), 1);
    assert_eq!(folders[0].name, "my-book-p1-id-00");
    let found = find_project_folder(&folders, "p1-id-0001").unwrap();
    assert_eq!(found, 0);
    let stored = folders[0].project.as_ref().unwrap();
    assert_eq!(stored.title, "A Very Different Title");
}

#[test]
fn test_store_tree_round_trip() {
    // A snapshot written to a fresh tree and read back into a fresh
    // store reproduces the entity set: same ids, same field values.
    let store = seeded_store();
    let mut folders: Vec<ProjectFolder> = Vec::new();
    sync_sql_to_filesystem(&store, &mut folders, "p1-id-0001", "t1").unwrap();
    let mut fresh = Store::new();
    let pid = sync_filesystem_to_sql(&mut fresh, &folders[0]).unwrap();
    assert_eq!(pid, "p1-id-0001");
    assert_eq!(fresh.projects.len(), 1);
    assert_eq!(fresh.projects[0].id, "p1-id-0001");
    assert_eq!(fresh.projects[0].title, "My Book");
    assert_eq!(fresh.chapters.len(), 2);
    assert_eq!(fresh.chapters[0].id, "c1");
    assert_eq!(fresh.chapters[0].title, "One");
    assert_eq!(fresh.chapters[0].content, "Once upon a time");
    assert_eq!(fresh.chapters[1].id, "c2");
    assert_eq!(fresh.characters.len(), 1);
    assert_eq!(fresh.characters[0].id, "ch1");
    assert_eq!(fresh.characters[0].name, "Hero");
    assert_eq!(fresh.scenes.len(), 0);
}

#[test]
fn test_tree_to_store_updates_existing_rows() {
    let store = seeded_store();
    let mut folders: Vec<ProjectFolder> = Vec::new();
    sync_sql_to_filesystem(&store, &mut folders, "p1-id-0001", "t1").unwrap();
    // A store that already holds an older revision of chapter c1.
    let mut other = Store::new();
    create_project(&mut other, &project("p1-id-0001", "Old Title")).unwrap();
    create_chapter(&mut other, &chapter("c1", "p1-id-0001", "Stale")).unwrap();
    sync_filesystem_to_sql(&mut other, &folders[0]).unwrap();
    assert_eq!(other.projects[0].title, "My Book");
    assert_eq!(other.chapters.len(), 2);
    assert_eq!(other.chapters[0].title, "One");
}

#[test]
fn test_tree_to_store_refuses_foreign_id() {
    // A chapter file whose id already names a row of another project
    // would break id uniqueness: the pass is refused before any write.
    let store = seeded_store();
    let mut folders: Vec<ProjectFolder> = Vec::new();
    sync_sql_to_filesystem(&store, &mut folders, "p1-id-0001", "t1").unwrap();
    let mut other = Store::new();
    create_project(&mut other, &project("p9", "Other")).unwrap();
    create_chapter(&mut other, &chapter("c1", "p9", "Claimed")).unwrap();
    let before_titles: Vec<String> = other.chapters.iter().map(|c| c.title.clone()).collect();
    assert!(sync_filesystem_to_sql(&mut other, &folders[0]).is_err());
    let after_titles: Vec<String> = other.chapters.iter().map(|c| c.title.clone()).collect();
    assert_eq!(before_titles, after_titles);
    assert_eq!(other.projects.len(), 1);
}

#[test]
fn test_read_folder_without_project_record() {
    let store = seeded_store();
    let mut folders: Vec<ProjectFolder> = Vec::new();
    sync_sql_to_filesystem(&store, &mut folders, "p1-id-0001", "t1").unwrap();
    folders[0].project = None;
    assert!(read_project_from_folder(&folders[0]).is_err());
}

#[test]
fn test_load_project_from_folder_missing() {
    let mut store = Store::new();
    let folders: Vec<ProjectFolder> = Vec::new();
    assert!(load_project_from_folder(&mut store, &folders, "p1-id-0001").is_err());
}

#[test]
fn test_partial_read_skips_unreadable_file() {
    // A file that does not parse is skipped, not fatal.
    let store = seeded_store();
    let mut folders: Vec<ProjectFolder> = Vec::new();
    sync_sql_to_filesystem(&store, &mut folders, "p1-id-0001", "t1").unwrap();
    folders[0].chapters[0].content = None;
    let (_, chapters, _, characters, _, _, _) = read_project_from_folder(&folders[0]).unwrap();
    assert_eq!(chapters.len(), 1);
    assert_eq!(chapters[0].id, "c2");
    assert_eq!(characters.len(), 1);
}

#[test]
fn test_save_compress_list_scenario() {
    // A project with two chapters and one character, no backups yet:
    // snapshot it, compress the folder, and the backup listing holds
    // exactly the new archive.
    let store = seeded_store();
    let mut folders: Vec<ProjectFolder> = Vec::new();
    let name = save_project_to_folder(&store, &mut folders, "p1-id-0001").unwrap();
    assert_eq!(name, "my-book-p1-id-00");
    let folder = &folders[0];
    let mut disk_files: Vec<plumai::backup::FileEntry> = Vec::new();
    for f in folder.chapters.iter() {
        disk_files.push(plumai::backup::FileEntry {
            path: chapter_file_name(&f.id),
            bytes: f.id.as_bytes().to_vec(),
        });
    }
    for f in folder.characters.iter() {
        disk_files.push(plumai::backup::FileEntry {
            path: character_file_name(&f.id),
            bytes: f.id.as_bytes().to_vec(),
        });
    }
    let slug = project_slug("My Book", "p1-id-0001");
    let when = plumai::clock::Stamp { year: 2024, month: 6, day: 7, hour: 8, minute: 9, second: 10 };
    let archive = plumai::backup::compress_project(&disk_files, &slug, &when).unwrap();
    assert_eq!(archive.name, "my-book-p1-id-00-20240607-080910.pluma");
    let dir = vec![plumai::backup::BackupInfo { name: archive.name.clone(), mtime: 1 }];
    let listed = plumai::backup::list_backups(&dir, &slug);
    assert_eq!(listed.len(), 1);
    assert_eq!(listed[0].name, archive.name);
}

#[test]
fn test_open_project_route() {
    assert!(matches!(open_project_route(true, true, true), OpenOutcome::Folder));
    assert!(matches!(open_project_route(true, false, false), OpenOutcome::Folder));
    assert!(matches!(open_project_route(false, true, true), OpenOutcome::Backup));
    assert!(matches!(open_project_route(false, true, false), OpenOutcome::Sql));
    assert!(matches!(open_project_route(false, false, true), OpenOutcome::Sql));
    assert_eq!(open_project_route(false, true, true).label(), "backup");
    assert_eq!(open_project_route(true, true, true).label(), "folder");
    assert_eq!(open_project_route(false, false, false).label(), "sql");
}
