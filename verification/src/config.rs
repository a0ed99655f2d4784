//! Workspace configuration: resolving the default root, validating a
//! chosen root, the directory skeleton, and the checks around moving a
//! workspace.
//!
//! The decisions are verified over plain observations of the filesystem
//! — whether a path exists, is a directory, has a parent — which the
//! caller gathers; nothing here touches a disk.

use vstd::prelude::*;

verus! {

/// What the filesystem says about one path.
pub struct PathCheck {
    pub path: String,
    pub is_absolute: bool,
    pub exists: bool,
    pub is_dir: bool,
    pub has_parent: bool,
    pub parent_exists: bool,
}

/// A path fit to hold a workspace: absolute; a directory if it exists at
/// all (it need not, on first run); under a parent that exists.
pub open spec fn spec_valid_workspace_path(p: PathCheck) -> bool {
    &&& p.is_absolute
    &&& p.exists ==> p.is_dir
    &&& p.has_parent ==> p.parent_exists
}

/// Validate a path for use as a workspace root.
pub fn validate_workspace_path(p: &PathCheck) -> (r: Result<(), String>)
    ensures
        r is Ok <==> spec_valid_workspace_path(*p),
        r matches Err(e) ==> if !p.is_absolute {
            e@ == "Workspace path must be absolute"@
        } else if p.exists && !p.is_dir {
            e@ == "Path exists but is not a directory"@
        } else {
            e@ == "Parent directory does not exist"@
        },
{
    if !p.is_absolute {
        return Err(String::from_str("Workspace path must be absolute"));
    }
    if p.exists && !p.is_dir {
        return Err(String::from_str("Path exists but is not a directory"));
    }
    if p.has_parent && !p.parent_exists {
        return Err(String::from_str("Parent directory does not exist"));
    }
    Ok(())
}

/// A workspace is reachable when its root exists and is a directory;
/// anything else means a missing or unmounted volume.
pub fn is_workspace_accessible(p: &PathCheck) -> (r: bool)
    ensures
        r == (p.exists && p.is_dir),
{
    p.exists && p.is_dir
}

/// Resolve the default workspace root: the documents folder, or a
/// `Documents` folder under the home directory, each with the
/// application's own subdirectory.
pub fn get_default_workspace_path(document_dir: Option<String>, home_dir: Option<String>) -> (r:
    Result<String, String>)
    ensures
        match r {
            Ok(p) => (document_dir matches Some(d) && p@ == d@ + "/PlumAi"@) || (document_dir
                is None && (home_dir matches Some(h) && p@ == h@ + "/Documents/PlumAi"@)),
            Err(_) => document_dir is None && home_dir is None,
        },
{
    match document_dir {
        Some(d) => {
            let mut p = d;
            p.append("/PlumAi");
            Ok(p)
        },
        None => {
            match home_dir {
                Some(h) => {
                    let mut p = h;
                    p.append("/Documents/PlumAi");
                    Ok(p)
                },
                None => Err(String::from_str("Cannot determine default workspace path")),
            }
        },
    }
}

/// The subdirectories that make up a workspace root, the root itself
/// first: project folders, backups, speech models, content packages.
pub fn workspace_structure_dirs(workspace_path: &str) -> (r: Vec<String>)
    ensures
        r.deep_view() =~= seq![
            workspace_path@,
            workspace_path@ + "/projects"@,
            workspace_path@ + "/backups"@,
            workspace_path@ + "/models"@,
            workspace_path@ + "/models/vosk"@,
            workspace_path@ + "/models/sherpa"@,
            workspace_path@ + "/models/downloads"@,
            workspace_path@ + "/packages"@,
        ],
{
    let mut r: Vec<String> = Vec::new();
    r.push(workspace_path.to_owned());
    r.push(join_path(workspace_path, "/projects"));
    r.push(join_path(workspace_path, "/backups"));
    r.push(join_path(workspace_path, "/models"));
    r.push(join_path(workspace_path, "/models/vosk"));
    r.push(join_path(workspace_path, "/models/sherpa"));
    r.push(join_path(workspace_path, "/models/downloads"));
    r.push(join_path(workspace_path, "/packages"));
    proof {
        assert forall|j: int| 0 <= j < 8 implies r.deep_view()[j] == seq![
            workspace_path@,
            workspace_path@ + "/projects"@,
            workspace_path@ + "/backups"@,
            workspace_path@ + "/models"@,
            workspace_path@ + "/models/vosk"@,
            workspace_path@ + "/models/sherpa"@,
            workspace_path@ + "/models/downloads"@,
            workspace_path@ + "/packages"@,
        ][j] by {
            assert(r.deep_view()[j] == r@[j]@);
        }
    }
    r
}

/// The subdirectories that make up one project folder, the folder itself
/// first: one directory per entity kind and the image categories.
pub fn project_structure_dirs(project_path: &str) -> (r: Vec<String>)
    ensures
        r.deep_view() =~= seq![
            project_path@,
            project_path@ + "/images"@,
            project_path@ + "/images/chapters"@,
            project_path@ + "/images/scenes"@,
            project_path@ + "/images/characters"@,
            project_path@ + "/images/locations"@,
            project_path@ + "/chapters"@,
            project_path@ + "/scenes"@,
            project_path@ + "/characters"@,
            project_path@ + "/locations"@,
            project_path@ + "/lore"@,
            project_path@ + "/timeline"@,
            project_path@ + "/relationships"@,
        ],
{
    let mut r: Vec<String> = Vec::new();
    r.push(project_path.to_owned());
    r.push(join_path(project_path, "/images"));
    r.push(join_path(project_path, "/images/chapters"));
    r.push(join_path(project_path, "/images/scenes"));
    r.push(join_path(project_path, "/images/characters"));
    r.push(join_path(project_path, "/images/locations"));
    r.push(join_path(project_path, "/chapters"));
    r.push(join_path(project_path, "/scenes"));
    r.push(join_path(project_path, "/characters"));
    r.push(join_path(project_path, "/locations"));
    r.push(join_path(project_path, "/lore"));
    r.push(join_path(project_path, "/timeline"));
    r.push(join_path(project_path, "/relationships"));
    proof {
        assert forall|j: int| 0 <= j < 13 implies r.deep_view()[j] == seq![
            project_path@,
            project_path@ + "/images"@,
            project_path@ + "/images/chapters"@,
            project_path@ + "/images/scenes"@,
            project_path@ + "/images/characters"@,
            project_path@ + "/images/locations"@,
            project_path@ + "/chapters"@,
            project_path@ + "/scenes"@,
            project_path@ + "/characters"@,
            project_path@ + "/locations"@,
            project_path@ + "/lore"@,
            project_path@ + "/timeline"@,
            project_path@ + "/relationships"@,
        ][j] by {
            assert(r.deep_view()[j] == r@[j]@);
        }
    }
    r
}

fn join_path(base: &str, tail: &str) -> (r: String)
    ensures
        r@ == base@ + tail@,
{
    let mut s = base.to_owned();
    s.append(tail);
    s
}

/// The checks before a workspace move: the destination must validate,
/// the source must exist, the destination must not.
pub fn move_workspace_precheck(old_root: &PathCheck, new_root: &PathCheck) -> (r: Result<
    (),
    String,
>)
    ensures
        r is Ok <==> spec_valid_workspace_path(*new_root) && old_root.exists && !new_root.exists,
{
    match validate_workspace_path(new_root) {
        Ok(_) => {},
        Err(e) => {
            return Err(e);
        },
    }
    if !old_root.exists {
        return Err(String::from_str("Source workspace does not exist"));
    }
    if new_root.exists {
        return Err(String::from_str("Destination already exists"));
    }
    Ok(())
}

/// The verification step after copying a workspace: every top-level
/// child of the source must be present among the destination's children;
/// only then may the source be deleted.
pub fn copy_verified(src_children: &Vec<String>, dst_children: &Vec<String>) -> (r: bool)
    ensures
        r == forall|i: int|
            0 <= i < src_children.deep_view().len() ==> dst_children.deep_view().contains(
                #[trigger] src_children.deep_view()[i],
            ),
{
    let mut i: usize = 0;
    while i < src_children.len()
        invariant
            i <= src_children.len(),
            src_children.deep_view().len() == src_children.len(),
            forall|j: int|
                0 <= j < i ==> dst_children.deep_view().contains(
                    #[trigger] src_children.deep_view()[j],
                ),
        decreases src_children.len() - i,
    {
        let mut found = false;
        let mut k: usize = 0;
        while k < dst_children.len()
            invariant
                k <= dst_children.len(),
                dst_children.deep_view().len() == dst_children.len(),
                src_children.deep_view().len() == src_children.len(),
                i < src_children.len(),
                found ==> dst_children.deep_view().contains(src_children.deep_view()[i as int]),
                !found ==> forall|m: int|
                    0 <= m < k ==> dst_children.deep_view()[m] != src_children.deep_view()[i as int],
            decreases dst_children.len() - k,
        {
            proof {
                assert(dst_children.deep_view()[k as int] == dst_children@[k as int]@);
                assert(src_children.deep_view()[i as int] == src_children@[i as int]@);
            }
            if crate::text::str_eq(dst_children[k].as_str(), src_children[i].as_str()) {
                found = true;
            }
            k += 1;
        }
        if !found {
            proof {
                if dst_children.deep_view().contains(src_children.deep_view()[i as int]) {
                    let m = choose|m: int|
                        0 <= m < dst_children.deep_view().len() && dst_children.deep_view()[m]
                            == src_children.deep_view()[i as int];
                }
            }
            return false;
        }
        i += 1;
    }
    true
}

} // verus!
