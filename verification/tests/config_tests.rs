use plumai::config::copy_verified;
use plumai::config::get_default_workspace_path;
use plumai::config::is_workspace_accessible;
use plumai::config::move_workspace_precheck;
use plumai::config::project_structure_dirs;
use plumai::config::validate_workspace_path;
use plumai::config::workspace_structure_dirs;
use plumai::config::PathCheck;
use plumai::info::get_app_info;
use plumai::info::greet;

fn check(path: &str) -> PathCheck {
    PathCheck {
        path: path.to_string(),
        is_absolute: true,
        exists: true,
        is_dir: true,
        has_parent: true,
        parent_exists: true,
    }
}

#[test]
fn test_greet() {
    let result = greet("World");
    assert_eq!(result, "Hello, World! Welcome to PlumAi.");
}

#[test]
fn test_app_info() {
    let info = get_app_info();
    assert_eq!(info.name, "PlumAi");
}

#[test]
fn test_validate_workspace_path() {
    assert!(validate_workspace_path(&check("/ws")).is_ok());

    let mut relative = check("ws");
    relative.is_absolute = false;
    assert_eq!(
        validate_workspace_path(&relative).unwrap_err(),
        "Workspace path must be absolute"
    );

    let mut file = check("/ws");
    file.is_dir = false;
    assert_eq!(
        validate_workspace_path(&file).unwrap_err(),
        "Path exists but is not a directory"
    );

    // The first-run case: the root itself need not exist.
    let mut fresh = check("/ws");
    fresh.exists = false;
    fresh.is_dir = false;
    assert!(validate_workspace_path(&fresh).is_ok());

    let mut orphan = check("/ws");
    orphan.parent_exists = false;
    assert_eq!(
        validate_workspace_path(&orphan).unwrap_err(),
        "Parent directory does not exist"
    );
}

#[test]
fn test_is_workspace_accessible() {
    assert!(is_workspace_accessible(&check("/ws")));
    let mut gone = check("/ws");
    gone.exists = false;
    assert!(!is_workspace_accessible(&gone));
}

#[test]
fn test_default_workspace_path() {
    let from_docs =
        get_default_workspace_path(Some("/home/ada/Documents".to_string()), None).unwrap();
    assert_eq!(from_docs, "/home/ada/Documents/PlumAi");
    let from_home = get_default_workspace_path(None, Some("/home/ada".to_string())).unwrap();
    assert_eq!(from_home, "/home/ada/Documents/PlumAi");
    assert!(get_default_workspace_path(None, None).is_err());
}

#[test]
fn test_workspace_structure_dirs() {
    let dirs = workspace_structure_dirs("/ws");
    assert_eq!(dirs.len(), 8);
    assert_eq!(dirs[0], "/ws");
    assert_eq!(dirs[1], "/ws/projects");
    assert_eq!(dirs[2], "/ws/backups");
    assert_eq!(dirs[7], "/ws/packages");
}

#[test]
fn test_project_structure_dirs() {
    let dirs = project_structure_dirs("/ws/projects/my-book-p1");
    assert_eq!(dirs.len(), 13);
    assert_eq!(dirs[0], "/ws/projects/my-book-p1");
    assert_eq!(dirs[2], "/ws/projects/my-book-p1/images/chapters");
    assert_eq!(dirs[12], "/ws/projects/my-book-p1/relationships");
}

#[test]
fn test_move_workspace_precheck() {
    let old_root = check("/old");
    let mut new_root = check("/new");
    new_root.exists = false;
    new_root.is_dir = false;
    assert!(move_workspace_precheck(&old_root, &new_root).is_ok());

    // The destination must not exist yet.
    assert!(move_workspace_precheck(&old_root, &check("/new")).is_err());

    // The source must exist.
    let mut gone = check("/old");
    gone.exists = false;
    assert!(move_workspace_precheck(&gone, &new_root).is_err());
}

#[test]
fn test_copy_verified() {
    let src = vec!["projects".to_string(), "backups".to_string()];
    let dst_ok = vec!["backups".to_string(), "projects".to_string(), "extra".to_string()];
    let dst_bad = vec!["projects".to_string()];
    assert!(copy_verified(&src, &dst_ok));
    assert!(!copy_verified(&src, &dst_bad));
    assert!(copy_verified(&Vec::new(), &Vec::new()));
}
