//! Full-snapshot transfer between the relational store and the tree
//! representation, in both directions.
//!
//! Store to tree locates or creates the project's folder and overwrites
//! it with the store's rows. Tree to store upserts every readable file
//! into the store. Neither direction reconciles deletions: a record
//! absent on one side is left untouched on the other.

use vstd::prelude::*;

use crate::entities::Chapter;
use crate::entities::Character;
use crate::entities::Entity;
use crate::entities::Location;
use crate::entities::LoreItem;
use crate::entities::Project;
use crate::entities::Scene;
use crate::entities::TimelineEvent;
use crate::project_fs::FileV;
use crate::project_fs::ProjectFolder;
use crate::project_fs::create_project_folder;
use crate::project_fs::file_ids_unique;
use crate::project_fs::file_upsert_all;
use crate::project_fs::lemma_file_upsert_all_fresh;
use crate::project_fs::lemma_file_upsert_all_props;
use crate::project_fs::lemma_file_upsert_all_stable;
use crate::project_fs::find_project_folder;
use crate::project_fs::folder_claims;
use crate::project_fs::folder_wf;
use crate::project_fs::fresh_manifest;
use crate::project_fs::manifest_refreshed;
use crate::project_fs::parsed_files;
use crate::project_fs::read_project_from_folder;
use crate::project_fs::spec_project_slug;
use crate::project_fs::write_project_to_folder;
use crate::store::Store;
use crate::store::chapter_in_project;
use crate::store::character_in_project;
use crate::store::create_chapter;
use crate::store::create_character;
use crate::store::create_location;
use crate::store::create_lore_item;
use crate::store::create_project;
use crate::store::create_scene;
use crate::store::create_timeline_event;
use crate::store::find_row;
use crate::store::get_chapters_by_project;
use crate::store::get_characters_by_project;
use crate::store::get_locations_by_project;
use crate::store::get_lore_items_by_project;
use crate::store::get_project;
use crate::store::get_scenes_by_chapter;
use crate::store::get_timeline_events_by_project;
use crate::store::has_row;
use crate::store::lemma_find_row_at;
use crate::store::lemma_row_upsert_all_push;
use crate::store::location_in_project;
use crate::store::lore_item_in_project;
use crate::store::row_index_of;
use crate::store::row_upsert;
use crate::store::row_upsert_all;
use crate::store::scene_in_chapter;
use crate::store::timeline_event_in_project;
use crate::store::update_chapter;
use crate::store::update_character;
use crate::store::update_location;
use crate::store::update_lore_item;
use crate::store::update_project;
use crate::store::update_scene;
use crate::store::update_timeline_event;
use crate::text::str_eq;

verus! {

/// Every folder of the workspace is well formed.
pub open spec fn folders_wf(folders: Seq<ProjectFolder>) -> bool {
    forall|j: int| 0 <= j < folders.len() ==> folder_wf(#[trigger] folders[j])
}

/// Some folder of the workspace claims this project id.
pub open spec fn has_claim(folders: Seq<ProjectFolder>, pid: Seq<char>) -> bool {
    exists|i: int| 0 <= i < folders.len() && folder_claims(#[trigger] folders[i], pid)
}

/// The scenes of a project, gathered chapter by chapter: there is no
/// direct project-to-scene query.
pub open spec fn project_scenes(
    scenes: Seq<<Scene as DeepView>::V>,
    chapters: Seq<<Chapter as DeepView>::V>,
) -> Seq<<Scene as DeepView>::V>
    decreases chapters.len(),
{
    if chapters.len() == 0 {
        Seq::empty()
    } else {
        project_scenes(scenes, chapters.drop_last()) + scenes.filter(
            scene_in_chapter(chapters.last().id),
        )
    }
}

/// How one folder looks after a snapshot write of these rows.
pub open spec fn folder_written(
    pre: ProjectFolder,
    post: ProjectFolder,
    p: <Project as DeepView>::V,
    chs: Seq<<Chapter as DeepView>::V>,
    scs: Seq<<Scene as DeepView>::V>,
    crs: Seq<<Character as DeepView>::V>,
    lcs: Seq<<Location as DeepView>::V>,
    lis: Seq<<LoreItem as DeepView>::V>,
    evs: Seq<<TimelineEvent as DeepView>::V>,
    now: Seq<char>,
) -> bool {
    &&& post.name == pre.name
    &&& manifest_refreshed(pre.manifest, post.manifest, now)
    &&& post.project is Some && post.project->0.deep_view() == p
    &&& post.chapters.deep_view() == file_upsert_all::<Chapter>(pre.chapters.deep_view(), chs)
    &&& post.scenes.deep_view() == file_upsert_all::<Scene>(pre.scenes.deep_view(), scs)
    &&& post.characters.deep_view() == file_upsert_all::<Character>(
        pre.characters.deep_view(),
        crs,
    )
    &&& post.locations.deep_view() == file_upsert_all::<Location>(pre.locations.deep_view(), lcs)
    &&& post.lore.deep_view() == file_upsert_all::<LoreItem>(pre.lore.deep_view(), lis)
    &&& post.timeline.deep_view() == file_upsert_all::<TimelineEvent>(
        pre.timeline.deep_view(),
        evs,
    )
    &&& post.images == pre.images
}

/// How a freshly created folder looks after its first snapshot write.
pub open spec fn folder_fresh_written(
    post: ProjectFolder,
    p: <Project as DeepView>::V,
    chs: Seq<<Chapter as DeepView>::V>,
    scs: Seq<<Scene as DeepView>::V>,
    crs: Seq<<Character as DeepView>::V>,
    lcs: Seq<<Location as DeepView>::V>,
    lis: Seq<<LoreItem as DeepView>::V>,
    evs: Seq<<TimelineEvent as DeepView>::V>,
    now: Seq<char>,
) -> bool {
    &&& post.name@ == spec_project_slug(p.title, p.id)
    &&& post.manifest is Some && fresh_manifest(post.manifest->0, p, now)
    &&& post.project is Some && post.project->0.deep_view() == p
    &&& post.chapters.deep_view() == file_upsert_all::<Chapter>(Seq::empty(), chs)
    &&& post.scenes.deep_view() == file_upsert_all::<Scene>(Seq::empty(), scs)
    &&& post.characters.deep_view() == file_upsert_all::<Character>(Seq::empty(), crs)
    &&& post.locations.deep_view() == file_upsert_all::<Location>(Seq::empty(), lcs)
    &&& post.lore.deep_view() == file_upsert_all::<LoreItem>(Seq::empty(), lis)
    &&& post.timeline.deep_view() == file_upsert_all::<TimelineEvent>(Seq::empty(), evs)
    &&& post.images@.len() == 0
}

/// The rows of this project as the store holds them.
pub open spec fn project_rows_chapters(store: Store, pid: Seq<char>) -> Seq<
    <Chapter as DeepView>::V,
> {
    store.chapters.deep_view().filter(chapter_in_project(pid))
}

pub open spec fn project_rows_scenes(store: Store, pid: Seq<char>) -> Seq<<Scene as DeepView>::V> {
    project_scenes(store.scenes.deep_view(), project_rows_chapters(store, pid))
}

pub open spec fn project_rows_characters(store: Store, pid: Seq<char>) -> Seq<
    <Character as DeepView>::V,
> {
    store.characters.deep_view().filter(character_in_project(pid))
}

pub open spec fn project_rows_locations(store: Store, pid: Seq<char>) -> Seq<
    <Location as DeepView>::V,
> {
    store.locations.deep_view().filter(location_in_project(pid))
}

pub open spec fn project_rows_lore_items(store: Store, pid: Seq<char>) -> Seq<
    <LoreItem as DeepView>::V,
> {
    store.lore_items.deep_view().filter(lore_item_in_project(pid))
}

pub open spec fn project_rows_timeline_events(store: Store, pid: Seq<char>) -> Seq<
    <TimelineEvent as DeepView>::V,
> {
    store.timeline_events.deep_view().filter(timeline_event_in_project(pid))
}

/// The whole effect of a store-to-tree pass on the workspace's folders:
/// the first folder claiming the id is overwritten, or a fresh folder is
/// appended; every other folder is untouched.
pub open spec fn store_to_tree_post(
    store: Store,
    pre: Seq<ProjectFolder>,
    post: Seq<ProjectFolder>,
    pid: Seq<char>,
    now: Seq<char>,
) -> bool {
    let p = find_row::<Project>(store.projects.deep_view(), pid)->0;
    let chs = project_rows_chapters(store, pid);
    let scs = project_rows_scenes(store, pid);
    let crs = project_rows_characters(store, pid);
    let lcs = project_rows_locations(store, pid);
    let lis = project_rows_lore_items(store, pid);
    let evs = project_rows_timeline_events(store, pid);
    if has_claim(pre, pid) {
        exists|i: int|
            #![auto]
            0 <= i < pre.len() && folder_claims(pre[i], pid) && (forall|j: int|
                0 <= j < i ==> !folder_claims(pre[j], pid)) && post.len() == pre.len() && (forall|
                k: int,
            |
                0 <= k < pre.len() && k != i ==> post[k] == pre[k]) && folder_written(
                pre[i],
                post[i],
                p,
                chs,
                scs,
                crs,
                lcs,
                lis,
                evs,
                now,
            )
    } else {
        &&& post.len() == pre.len() + 1
        &&& forall|k: int| 0 <= k < pre.len() ==> post[k] == pre[k]
        &&& folder_fresh_written(post.last(), p, chs, scs, crs, lcs, lis, evs, now)
    }
}

/// Gather the scenes of every chapter of the batch, chapter by chapter.
fn collect_project_scenes(store: &Store, chapters: &Vec<Chapter>) -> (r: Vec<Scene>)
    ensures
        r.deep_view() == project_scenes(store.scenes.deep_view(), chapters.deep_view()),
{
    let mut r: Vec<Scene> = Vec::new();
    let ghost all = chapters.deep_view();
    let mut i: usize = 0;
    assert(r.deep_view() =~= project_scenes(store.scenes.deep_view(), all.take(0)));
    while i < chapters.len()
        invariant
            i <= chapters.len(),
            all == chapters.deep_view(),
            all.len() == chapters.len(),
            r.deep_view() == project_scenes(store.scenes.deep_view(), all.take(i as int)),
        decreases chapters.len() - i,
    {
        proof {
            assert(all.take(i + 1).drop_last() =~= all.take(i as int));
            assert(all.take(i + 1).last() == all[i as int]);
            assert(all[i as int] == chapters@[i as int].deep_view());
        }
        let mut scs = get_scenes_by_chapter(store, chapters[i].id.as_str());
        let ghost prev = r.deep_view();
        let ghost add = scs.deep_view();
        r.append(&mut scs);
        proof {
            assert forall|k: int| 0 <= k < r@.len() implies r@[k].deep_view() == (prev + add)[k] by {
            }
            assert(r.deep_view() =~= prev + add);
        }
        i += 1;
    }
    assert(all.take(chapters.len() as int) =~= all);
    r
}

/// Snapshot one project from the store onto the tree: load the project
/// and all its children, find or create the project's folder, and
/// overwrite the folder's files. Fails exactly when the store does not
/// hold the project.
pub fn sync_sql_to_filesystem(
    store: &Store,
    folders: &mut Vec<ProjectFolder>,
    project_id: &str,
    now: &str,
) -> (r: Result<(), String>)
    requires
        store.wf(),
        folders_wf(old(folders)@),
    ensures
        folders_wf(final(folders)@),
        r is Ok <==> has_row::<Project>(store.projects.deep_view(), project_id@),
        match r {
            Ok(_) => store_to_tree_post(*store, old(folders)@, final(folders)@, project_id@, now@),
            Err(_) => final(folders)@ == old(folders)@,
        },
{
    let project = match get_project(store, project_id) {
        Some(p) => p,
        None => {
            let mut msg = String::from_str("Project not found: ");
            msg.append(project_id);
            return Err(msg);
        },
    };
    let chapters = get_chapters_by_project(store, project_id);
    let all_scenes = collect_project_scenes(store, &chapters);
    let characters = get_characters_by_project(store, project_id);
    let locations = get_locations_by_project(store, project_id);
    let lore_items = get_lore_items_by_project(store, project_id);
    let timeline_events = get_timeline_events_by_project(store, project_id);

    let ghost pre = old(folders)@;
    let ghost p = project.deep_view();
    let ghost chs = chapters.deep_view();
    let ghost scs = all_scenes.deep_view();
    let ghost crs = characters.deep_view();
    let ghost lcs = locations.deep_view();
    let ghost lis = lore_items.deep_view();
    let ghost evs = timeline_events.deep_view();
    match find_project_folder(folders, project_id) {
        Some(i) => {
            let mut folder = folders.remove(i);
            let ghost prefolder = folder;
            write_project_to_folder(
                &mut folder,
                &project,
                &chapters,
                &all_scenes,
                &characters,
                &locations,
                &lore_items,
                &timeline_events,
                now,
            );
            folders.insert(i, folder);
            proof {
                assert(prefolder == pre[i as int]);
                assert(folders@ =~= pre.update(i as int, folders@[i as int]));
                assert(folder_claims(pre[i as int], project_id@));
                assert(has_claim(pre, project_id@));
                let wi = i as int;
                assert(folders@.len() == pre.len());
                assert(forall|k: int| 0 <= k < pre.len() && k != wi ==> folders@[k] == pre[k]);
                assert(folder_written(
                    pre[wi],
                    folders@[wi],
                    p,
                    chs,
                    scs,
                    crs,
                    lcs,
                    lis,
                    evs,
                    now@,
                ));
                assert(0 <= wi < pre.len() && folder_claims(pre[wi], project_id@) && (forall|
                    j: int,
                |
                    0 <= j < wi ==> !folder_claims(pre[j], project_id@)) && folders@.len()
                    == pre.len() && (forall|k: int|
                    0 <= k < pre.len() && k != wi ==> folders@[k] == pre[k]) && folder_written(
                    pre[wi],
                    folders@[wi],
                    p,
                    chs,
                    scs,
                    crs,
                    lcs,
                    lis,
                    evs,
                    now@,
                ));
            }
            Ok(())
        },
        None => {
            proof {
                if has_claim(pre, project_id@) {
                    let j = choose|j: int| 0 <= j < pre.len() && folder_claims(pre[j], project_id@);
                    assert(!folder_claims(pre[j], project_id@));
                }
            }
            create_project_folder(folders, &project, now);
            let idx = folders.len() - 1;
            let ghost mid = folders@;
            let mut folder = folders.remove(idx);
            let ghost freshf = folder;
            write_project_to_folder(
                &mut folder,
                &project,
                &chapters,
                &all_scenes,
                &characters,
                &locations,
                &lore_items,
                &timeline_events,
                now,
            );
            folders.insert(idx, folder);
            proof {
                assert(freshf == mid.last());
                assert(mid.remove(idx as int) =~= pre);
                assert(folders@ =~= pre.push(folders@.last()));
                assert(freshf.chapters.deep_view() =~= Seq::<
                    FileV<<Chapter as DeepView>::V>,
                >::empty());
                assert(freshf.scenes.deep_view() =~= Seq::<
                    FileV<<Scene as DeepView>::V>,
                >::empty());
                assert(freshf.characters.deep_view() =~= Seq::<
                    FileV<<Character as DeepView>::V>,
                >::empty());
                assert(freshf.locations.deep_view() =~= Seq::<
                    FileV<<Location as DeepView>::V>,
                >::empty());
                assert(freshf.lore.deep_view() =~= Seq::<
                    FileV<<LoreItem as DeepView>::V>,
                >::empty());
                assert(freshf.timeline.deep_view() =~= Seq::<
                    FileV<<TimelineEvent as DeepView>::V>,
                >::empty());
                assert(folder_fresh_written(
                    folders@.last(),
                    p,
                    chs,
                    scs,
                    crs,
                    lcs,
                    lis,
                    evs,
                    now@,
                ));
            }
            Ok(())
        },
    }
}

/// A chapter file clashes with a row of another project: the store
/// already holds its id, but not among the synced project's chapters.
/// Creating it would violate the id's uniqueness.
pub open spec fn chapter_collides(
    rows: Seq<<Chapter as DeepView>::V>,
    v: <Chapter as DeepView>::V,
    pid: Seq<char>,
) -> bool {
    has_row::<Chapter>(rows, v.id) && (find_row::<Chapter>(rows, v.id)->0).project_id != pid
}

/// A scene file clashes with a row of another chapter.
pub open spec fn scene_collides(
    rows: Seq<<Scene as DeepView>::V>,
    v: <Scene as DeepView>::V,
) -> bool {
    has_row::<Scene>(rows, v.id) && (find_row::<Scene>(rows, v.id)->0).chapter_id != v.chapter_id
}

/// A character file clashes with a row of another project.
pub open spec fn character_collides(
    rows: Seq<<Character as DeepView>::V>,
    v: <Character as DeepView>::V,
    pid: Seq<char>,
) -> bool {
    has_row::<Character>(rows, v.id) && (find_row::<Character>(rows, v.id)->0).project_id != pid
}

/// A location file clashes with a row of another project.
pub open spec fn location_collides(
    rows: Seq<<Location as DeepView>::V>,
    v: <Location as DeepView>::V,
    pid: Seq<char>,
) -> bool {
    has_row::<Location>(rows, v.id) && (find_row::<Location>(rows, v.id)->0).project_id != pid
}

/// A lore file clashes with a row of another project.
pub open spec fn lore_item_collides(
    rows: Seq<<LoreItem as DeepView>::V>,
    v: <LoreItem as DeepView>::V,
    pid: Seq<char>,
) -> bool {
    has_row::<LoreItem>(rows, v.id) && (find_row::<LoreItem>(rows, v.id)->0).project_id != pid
}

/// A timeline event file clashes with a row of another project.
pub open spec fn timeline_event_collides(
    rows: Seq<<TimelineEvent as DeepView>::V>,
    v: <TimelineEvent as DeepView>::V,
    pid: Seq<char>,
) -> bool {
    has_row::<TimelineEvent>(rows, v.id) && (find_row::<TimelineEvent>(
        rows,
        v.id,
    )->0).project_id != pid
}

/// A tree-to-store pass succeeds exactly when the folder's project record
/// is readable and no readable file clashes with a row of another parent.
pub open spec fn tree_to_store_ok(folder: ProjectFolder, pre: Store) -> bool {
    folder.project is Some && {
        let pid = folder.project->0.deep_view().id;
        let chs = parsed_files(folder.chapters.deep_view());
        let scs = parsed_files(folder.scenes.deep_view());
        let crs = parsed_files(folder.characters.deep_view());
        let lcs = parsed_files(folder.locations.deep_view());
        let lis = parsed_files(folder.lore.deep_view());
        let evs = parsed_files(folder.timeline.deep_view());
        &&& forall|k: int|
            0 <= k < chs.len() ==> !chapter_collides(
                pre.chapters.deep_view(),
                #[trigger] chs[k],
                pid,
            )
        &&& forall|k: int|
            0 <= k < scs.len() ==> !scene_collides(pre.scenes.deep_view(), #[trigger] scs[k])
        &&& forall|k: int|
            0 <= k < crs.len() ==> !character_collides(
                pre.characters.deep_view(),
                #[trigger] crs[k],
                pid,
            )
        &&& forall|k: int|
            0 <= k < lcs.len() ==> !location_collides(
                pre.locations.deep_view(),
                #[trigger] lcs[k],
                pid,
            )
        &&& forall|k: int|
            0 <= k < lis.len() ==> !lore_item_collides(
                pre.lore_items.deep_view(),
                #[trigger] lis[k],
                pid,
            )
        &&& forall|k: int|
            0 <= k < evs.len() ==> !timeline_event_collides(
                pre.timeline_events.deep_view(),
                #[trigger] evs[k],
                pid,
            )
    }
}

/// The whole effect of a tree-to-store pass: the project record and every
/// readable entity file upserted, rows of other projects untouched except
/// through id identity.
pub open spec fn tree_to_store_post(folder: ProjectFolder, pre: Store, post: Store) -> bool {
    let p = folder.project->0.deep_view();
    &&& post.projects.deep_view() == row_upsert::<Project>(pre.projects.deep_view(), p)
    &&& post.chapters.deep_view() == row_upsert_all::<Chapter>(
        pre.chapters.deep_view(),
        parsed_files(folder.chapters.deep_view()),
    )
    &&& post.scenes.deep_view() == row_upsert_all::<Scene>(
        pre.scenes.deep_view(),
        parsed_files(folder.scenes.deep_view()),
    )
    &&& post.characters.deep_view() == row_upsert_all::<Character>(
        pre.characters.deep_view(),
        parsed_files(folder.characters.deep_view()),
    )
    &&& post.locations.deep_view() == row_upsert_all::<Location>(
        pre.locations.deep_view(),
        parsed_files(folder.locations.deep_view()),
    )
    &&& post.lore_items.deep_view() == row_upsert_all::<LoreItem>(
        pre.lore_items.deep_view(),
        parsed_files(folder.lore.deep_view()),
    )
    &&& post.timeline_events.deep_view() == row_upsert_all::<TimelineEvent>(
        pre.timeline_events.deep_view(),
        parsed_files(folder.timeline.deep_view()),
    )
}

pub proof fn lemma_project_scenes_membership(
    scenes: Seq<<Scene as DeepView>::V>,
    chapters: Seq<<Chapter as DeepView>::V>,
)
    ensures
        forall|x: <Scene as DeepView>::V|
            #[trigger] project_scenes(scenes, chapters).contains(x) ==> scenes.contains(x) && (
            exists|c: int| 0 <= c < chapters.len() && x.chapter_id == chapters[c].id),
    decreases chapters.len(),
{
    if chapters.len() > 0 {
        lemma_project_scenes_membership(scenes, chapters.drop_last());
        let pred = scene_in_chapter(chapters.last().id);
        let f = scenes.filter(pred);
        crate::store::lemma_filter_subset(scenes, pred);
        assert forall|x: <Scene as DeepView>::V| #[trigger]
            project_scenes(scenes, chapters).contains(x) implies scenes.contains(x) && (exists|
            c: int,
        |
            0 <= c < chapters.len() && x.chapter_id == chapters[c].id) by {
            let ps = project_scenes(scenes, chapters);
            let i = choose|i: int| 0 <= i < ps.len() && ps[i] == x;
            let prefix = project_scenes(scenes, chapters.drop_last());
            if i < prefix.len() {
                assert(prefix[i] == x);
                assert(prefix.contains(x));
                let c = choose|c: int|
                    0 <= c < chapters.drop_last().len() && x.chapter_id
                        == chapters.drop_last()[c].id;
                assert(chapters[c].id == chapters.drop_last()[c].id);
            } else {
                assert(f[i - prefix.len()] == x);
                assert(f.contains(x));
                scenes.lemma_filter_pred(pred, i - prefix.len());
                assert(x.chapter_id == chapters.last().id);
                assert(chapters[chapters.len() - 1].id == chapters.last().id);
            }
        }
    }
}

/// Gathering scenes chapter by chapter keeps scene ids unique, because
/// a scene belongs to exactly one chapter and chapter ids are unique.
pub proof fn lemma_project_scenes_unique(
    scenes: Seq<<Scene as DeepView>::V>,
    chapters: Seq<<Chapter as DeepView>::V>,
)
    requires
        crate::store::rows_unique_ids::<Scene>(scenes),
        crate::store::rows_unique_ids::<Chapter>(chapters),
    ensures
        crate::store::rows_unique_ids::<Scene>(project_scenes(scenes, chapters)),
    decreases chapters.len(),
{
    if chapters.len() > 0 {
        assert(crate::store::rows_unique_ids::<Chapter>(chapters.drop_last()));
        lemma_project_scenes_unique(scenes, chapters.drop_last());
        lemma_project_scenes_membership(scenes, chapters.drop_last());
        let pred = scene_in_chapter(chapters.last().id);
        let f = scenes.filter(pred);
        crate::store::lemma_filter_unique_ids::<Scene>(scenes, pred);
        crate::store::lemma_filter_subset(scenes, pred);
        let prefix = project_scenes(scenes, chapters.drop_last());
        let ps = project_scenes(scenes, chapters);
        assert(ps == prefix + f);
        assert forall|i: int, j: int| 0 <= i < j < ps.len() implies Scene::view_id(ps[i])
            != Scene::view_id(ps[j]) by {
            if i < prefix.len() && j >= prefix.len() {
                let a = ps[i];
                let b = ps[j];
                assert(a == prefix[i]);
                assert(b == f[j - prefix.len()]);
                if a.id == b.id {
                    assert(prefix.contains(a));
                    assert(f.contains(b));
                    assert(scenes.contains(a));
                    assert(scenes.contains(b));
                    let ka = choose|k: int| 0 <= k < scenes.len() && scenes[k] == a;
                    let kb = choose|k: int| 0 <= k < scenes.len() && scenes[k] == b;
                    assert(Scene::view_id(scenes[ka]) == Scene::view_id(scenes[kb]));
                    assert(ka == kb);
                    assert(a == b);
                    let c = choose|c: int|
                        0 <= c < chapters.drop_last().len() && a.chapter_id
                            == chapters.drop_last()[c].id;
                    scenes.lemma_filter_pred(pred, j - prefix.len());
                    assert(b.chapter_id == chapters.last().id);
                    assert(chapters.drop_last()[c].id == chapters[c].id);
                    assert(chapters.last() == chapters[chapters.len() - 1]);
                    assert(Chapter::view_id(chapters[c]) == Chapter::view_id(
                        chapters[chapters.len() - 1],
                    ));
                    assert(false);
                }
            } else if i >= prefix.len() {
                assert(ps[i] == f[i - prefix.len()]);
                assert(ps[j] == f[j - prefix.len()]);
            } else {
                assert(ps[i] == prefix[i]);
                assert(ps[j] == prefix[j]);
            }
        }
    }
}

/// The rows of one project have unique ids within each kind.
pub proof fn lemma_project_rows_unique(store: Store, pid: Seq<char>)
    requires
        store.wf(),
    ensures
        crate::store::rows_unique_ids::<Chapter>(project_rows_chapters(store, pid)),
        crate::store::rows_unique_ids::<Scene>(project_rows_scenes(store, pid)),
        crate::store::rows_unique_ids::<Character>(project_rows_characters(store, pid)),
        crate::store::rows_unique_ids::<Location>(project_rows_locations(store, pid)),
        crate::store::rows_unique_ids::<LoreItem>(project_rows_lore_items(store, pid)),
        crate::store::rows_unique_ids::<TimelineEvent>(project_rows_timeline_events(store, pid)),
{
    crate::store::lemma_filter_unique_ids::<Chapter>(
        store.chapters.deep_view(),
        chapter_in_project(pid),
    );
    lemma_project_scenes_unique(store.scenes.deep_view(), project_rows_chapters(store, pid));
    crate::store::lemma_filter_unique_ids::<Character>(
        store.characters.deep_view(),
        character_in_project(pid),
    );
    crate::store::lemma_filter_unique_ids::<Location>(
        store.locations.deep_view(),
        location_in_project(pid),
    );
    crate::store::lemma_filter_unique_ids::<LoreItem>(
        store.lore_items.deep_view(),
        lore_item_in_project(pid),
    );
    crate::store::lemma_filter_unique_ids::<TimelineEvent>(
        store.timeline_events.deep_view(),
        timeline_event_in_project(pid),
    );
}

/// Merge a folder's snapshot into the store: the project first, to keep
/// every child's foreign key satisfied, then each child kind, each record
/// updated if its id is already a row and created otherwise. A file whose
/// id belongs to a row of another parent is refused before anything is
/// written, as the id's uniqueness constraint would refuse it. Returns
/// the project id on success.
pub fn sync_filesystem_to_sql(store: &mut Store, folder: &ProjectFolder) -> (r: Result<
    String,
    String,
>)
    requires
        old(store).wf(),
    ensures
        final(store).wf(),
        r is Ok <==> tree_to_store_ok(*folder, *old(store)),
        match r {
            Ok(pid) => pid@ == folder.project->0.deep_view().id && tree_to_store_post(
                *folder,
                *old(store),
                *final(store),
            ),
            Err(_) => *final(store) == *old(store),
        },
{
    let t = match read_project_from_folder(folder) {
        Ok(t) => t,
        Err(e) => {
            return Err(e);
        },
    };
    let (project, chapters, scenes, characters, locations, lore_items, timeline_events) = t;
    let project_id = project.id.clone();
    proof {
        assert(project_id@ == folder.project->0.deep_view().id);
    }

    // Refuse the pass before any write if some file's id is already a row
    // of another parent.
    let mut i: usize = 0;
    while i < chapters.len()
        invariant
            i <= chapters.len(),
            *store == *old(store),
            store.wf(),
            folder.project is Some,
            project_id@ == folder.project->0.deep_view().id,
            chapters.deep_view().len() == chapters.len(),
            chapters.deep_view() == parsed_files(folder.chapters.deep_view()),
            forall|j: int|
                0 <= j < i ==> !chapter_collides(
                    old(store).chapters.deep_view(),
                    #[trigger] chapters.deep_view()[j],
                    project_id@,
                ),
        decreases chapters.len() - i,
    {
        let ghost cv = chapters.deep_view()[i as int];
        proof {
            assert(cv == chapters@[i as int].deep_view());
        }
        match row_index_of::<Chapter>(&store.chapters, chapters[i].id.as_str()) {
            Some(j) => {
                proof {
                    lemma_find_row_at::<Chapter>(store.chapters.deep_view(), cv.id, j as int);
                    assert(store.chapters.deep_view()[j as int].project_id == store.chapters@[
                        j as int].project_id@);
                }
                if !str_eq(store.chapters[j].project_id.as_str(), project_id.as_str()) {
                    proof {
                        assert(chapter_collides(
                            old(store).chapters.deep_view(),
                            parsed_files(folder.chapters.deep_view())[i as int],
                            folder.project->0.deep_view().id,
                        ));
                    }
                    return Err(
                        String::from_str("Failed to create chapter: id already used by another project"),
                    );
                }
            },
            None => {},
        }
        i += 1;
    }
    let mut i: usize = 0;
    while i < scenes.len()
        invariant
            i <= scenes.len(),
            *store == *old(store),
            store.wf(),
            folder.project is Some,
            project_id@ == folder.project->0.deep_view().id,
            scenes.deep_view().len() == scenes.len(),
            scenes.deep_view() == parsed_files(folder.scenes.deep_view()),
            forall|j: int|
                0 <= j < i ==> !scene_collides(
                    old(store).scenes.deep_view(),
                    #[trigger] scenes.deep_view()[j],
                ),
        decreases scenes.len() - i,
    {
        let ghost sv = scenes.deep_view()[i as int];
        proof {
            assert(sv == scenes@[i as int].deep_view());
        }
        match row_index_of::<Scene>(&store.scenes, scenes[i].id.as_str()) {
            Some(j) => {
                proof {
                    lemma_find_row_at::<Scene>(store.scenes.deep_view(), sv.id, j as int);
                    assert(store.scenes.deep_view()[j as int].chapter_id == store.scenes@[
                        j as int].chapter_id@);
                }
                if !str_eq(store.scenes[j].chapter_id.as_str(), scenes[i].chapter_id.as_str()) {
                    proof {
                        assert(scene_collides(
                            old(store).scenes.deep_view(),
                            parsed_files(folder.scenes.deep_view())[i as int],
                        ));
                    }
                    return Err(
                        String::from_str("Failed to create scene: id already used by another chapter"),
                    );
                }
            },
            None => {},
        }
        i += 1;
    }
    let mut i: usize = 0;
    while i < characters.len()
        invariant
            i <= characters.len(),
            *store == *old(store),
            store.wf(),
            folder.project is Some,
            project_id@ == folder.project->0.deep_view().id,
            characters.deep_view().len() == characters.len(),
            characters.deep_view() == parsed_files(folder.characters.deep_view()),
            forall|j: int|
                0 <= j < i ==> !character_collides(
                    old(store).characters.deep_view(),
                    #[trigger] characters.deep_view()[j],
                    project_id@,
                ),
        decreases characters.len() - i,
    {
        let ghost cv = characters.deep_view()[i as int];
        proof {
            assert(cv == characters@[i as int].deep_view());
        }
        match row_index_of::<Character>(&store.characters, characters[i].id.as_str()) {
            Some(j) => {
                proof {
                    lemma_find_row_at::<Character>(store.characters.deep_view(), cv.id, j as int);
                    assert(store.characters.deep_view()[j as int].project_id == store.characters@[
                        j as int].project_id@);
                }
                if !str_eq(store.characters[j].project_id.as_str(), project_id.as_str()) {
                    proof {
                        assert(character_collides(
                            old(store).characters.deep_view(),
                            parsed_files(folder.characters.deep_view())[i as int],
                            folder.project->0.deep_view().id,
                        ));
                    }
                    return Err(
                        String::from_str("Failed to create character: id already used by another project"),
                    );
                }
            },
            None => {},
        }
        i += 1;
    }
    let mut i: usize = 0;
    while i < locations.len()
        invariant
            i <= locations.len(),
            *store == *old(store),
            store.wf(),
            folder.project is Some,
            project_id@ == folder.project->0.deep_view().id,
            locations.deep_view().len() == locations.len(),
            locations.deep_view() == parsed_files(folder.locations.deep_view()),
            forall|j: int|
                0 <= j < i ==> !location_collides(
                    old(store).locations.deep_view(),
                    #[trigger] locations.deep_view()[j],
                    project_id@,
                ),
        decreases locations.len() - i,
    {
        let ghost lv = locations.deep_view()[i as int];
        proof {
            assert(lv == locations@[i as int].deep_view());
        }
        match row_index_of::<Location>(&store.locations, locations[i].id.as_str()) {
            Some(j) => {
                proof {
                    lemma_find_row_at::<Location>(store.locations.deep_view(), lv.id, j as int);
                    assert(store.locations.deep_view()[j as int].project_id == store.locations@[
                        j as int].project_id@);
                }
                if !str_eq(store.locations[j].project_id.as_str(), project_id.as_str()) {
                    proof {
                        assert(location_collides(
                            old(store).locations.deep_view(),
                            parsed_files(folder.locations.deep_view())[i as int],
                            folder.project->0.deep_view().id,
                        ));
                    }
                    return Err(
                        String::from_str("Failed to create location: id already used by another project"),
                    );
                }
            },
            None => {},
        }
        i += 1;
    }
    let mut i: usize = 0;
    while i < lore_items.len()
        invariant
            i <= lore_items.len(),
            *store == *old(store),
            store.wf(),
            folder.project is Some,
            project_id@ == folder.project->0.deep_view().id,
            lore_items.deep_view().len() == lore_items.len(),
            lore_items.deep_view() == parsed_files(folder.lore.deep_view()),
            forall|j: int|
                0 <= j < i ==> !lore_item_collides(
                    old(store).lore_items.deep_view(),
                    #[trigger] lore_items.deep_view()[j],
                    project_id@,
                ),
        decreases lore_items.len() - i,
    {
        let ghost lv = lore_items.deep_view()[i as int];
        proof {
            assert(lv == lore_items@[i as int].deep_view());
        }
        match row_index_of::<LoreItem>(&store.lore_items, lore_items[i].id.as_str()) {
            Some(j) => {
                proof {
                    lemma_find_row_at::<LoreItem>(store.lore_items.deep_view(), lv.id, j as int);
                    assert(store.lore_items.deep_view()[j as int].project_id == store.lore_items@[
                        j as int].project_id@);
                }
                if !str_eq(store.lore_items[j].project_id.as_str(), project_id.as_str()) {
                    proof {
                        assert(lore_item_collides(
                            old(store).lore_items.deep_view(),
                            parsed_files(folder.lore.deep_view())[i as int],
                            folder.project->0.deep_view().id,
                        ));
                    }
                    return Err(
                        String::from_str("Failed to create lore item: id already used by another project"),
                    );
                }
            },
            None => {},
        }
        i += 1;
    }
    let mut i: usize = 0;
    while i < timeline_events.len()
        invariant
            i <= timeline_events.len(),
            *store == *old(store),
            store.wf(),
            folder.project is Some,
            project_id@ == folder.project->0.deep_view().id,
            timeline_events.deep_view().len() == timeline_events.len(),
            timeline_events.deep_view() == parsed_files(folder.timeline.deep_view()),
            forall|j: int|
                0 <= j < i ==> !timeline_event_collides(
                    old(store).timeline_events.deep_view(),
                    #[trigger] timeline_events.deep_view()[j],
                    project_id@,
                ),
        decreases timeline_events.len() - i,
    {
        let ghost ev = timeline_events.deep_view()[i as int];
        proof {
            assert(ev == timeline_events@[i as int].deep_view());
        }
        match row_index_of::<TimelineEvent>(&store.timeline_events, timeline_events[i].id.as_str())
        {
            Some(j) => {
                proof {
                    lemma_find_row_at::<TimelineEvent>(
                        store.timeline_events.deep_view(),
                        ev.id,
                        j as int,
                    );
                    assert(store.timeline_events.deep_view()[j as int].project_id
                        == store.timeline_events@[j as int].project_id@);
                }
                if !str_eq(store.timeline_events[j].project_id.as_str(), project_id.as_str()) {
                    proof {
                        assert(timeline_event_collides(
                            old(store).timeline_events.deep_view(),
                            parsed_files(folder.timeline.deep_view())[i as int],
                            folder.project->0.deep_view().id,
                        ));
                    }
                    return Err(
                        String::from_str("Failed to create timeline event: id already used by another project"),
                    );
                }
            },
            None => {},
        }
        i += 1;
    }

    // Upsert the project record, then each child kind.
    match get_project(store, project_id.as_str()) {
        Some(_) => {
            let _ = update_project(store, &project);
        },
        None => {
            match create_project(store, &project) {
                Ok(_) => {},
                Err(e) => {
                    proof {
                        assert(false);
                    }
                    return Err(e);
                },
            }
        },
    }
    let ghost s1 = *store;
    assert(s1.chapters == old(store).chapters);

    let mut i: usize = 0;
    while i < chapters.len()
        invariant
            i <= chapters.len(),
            store.wf(),
            chapters.deep_view().len() == chapters.len(),
            crate::store::unchanged_but_chapters(s1, *store),
            store.chapters.deep_view() == row_upsert_all::<Chapter>(
                s1.chapters.deep_view(),
                chapters.deep_view().take(i as int),
            ),
        decreases chapters.len() - i,
    {
        proof {
            assert(chapters.deep_view().take(i + 1) =~= chapters.deep_view().take(i as int).push(
                chapters.deep_view()[i as int],
            ));
            lemma_row_upsert_all_push::<Chapter>(
                s1.chapters.deep_view(),
                chapters.deep_view().take(i as int),
                chapters.deep_view()[i as int],
            );
            assert(chapters.deep_view()[i as int] == chapters@[i as int].deep_view());
        }
        match row_index_of::<Chapter>(&store.chapters, chapters[i].id.as_str()) {
            Some(_) => {
                let _ = update_chapter(store, &chapters[i]);
            },
            None => {
                match create_chapter(store, &chapters[i]) {
                    Ok(_) => {},
                    Err(e) => {
                        proof {
                            assert(false);
                        }
                        return Err(e);
                    },
                }
            },
        }
        i += 1;
    }
    assert(chapters.deep_view().take(chapters.len() as int) =~= chapters.deep_view());
    let ghost s2 = *store;

    let mut i: usize = 0;
    while i < scenes.len()
        invariant
            i <= scenes.len(),
            store.wf(),
            scenes.deep_view().len() == scenes.len(),
            crate::store::unchanged_but_scenes(s2, *store),
            store.scenes.deep_view() == row_upsert_all::<Scene>(
                s2.scenes.deep_view(),
                scenes.deep_view().take(i as int),
            ),
        decreases scenes.len() - i,
    {
        proof {
            assert(scenes.deep_view().take(i + 1) =~= scenes.deep_view().take(i as int).push(
                scenes.deep_view()[i as int],
            ));
            lemma_row_upsert_all_push::<Scene>(
                s2.scenes.deep_view(),
                scenes.deep_view().take(i as int),
                scenes.deep_view()[i as int],
            );
            assert(scenes.deep_view()[i as int] == scenes@[i as int].deep_view());
        }
        match row_index_of::<Scene>(&store.scenes, scenes[i].id.as_str()) {
            Some(_) => {
                let _ = update_scene(store, &scenes[i]);
            },
            None => {
                match create_scene(store, &scenes[i]) {
                    Ok(_) => {},
                    Err(e) => {
                        proof {
                            assert(false);
                        }
                        return Err(e);
                    },
                }
            },
        }
        i += 1;
    }
    assert(scenes.deep_view().take(scenes.len() as int) =~= scenes.deep_view());
    let ghost s3 = *store;

    let mut i: usize = 0;
    while i < characters.len()
        invariant
            i <= characters.len(),
            store.wf(),
            characters.deep_view().len() == characters.len(),
            crate::store::unchanged_but_characters(s3, *store),
            store.characters.deep_view() == row_upsert_all::<Character>(
                s3.characters.deep_view(),
                characters.deep_view().take(i as int),
            ),
        decreases characters.len() - i,
    {
        proof {
            assert(characters.deep_view().take(i + 1) =~= characters.deep_view().take(
                i as int,
            ).push(characters.deep_view()[i as int]));
            lemma_row_upsert_all_push::<Character>(
                s3.characters.deep_view(),
                characters.deep_view().take(i as int),
                characters.deep_view()[i as int],
            );
            assert(characters.deep_view()[i as int] == characters@[i as int].deep_view());
        }
        match row_index_of::<Character>(&store.characters, characters[i].id.as_str()) {
            Some(_) => {
                let _ = update_character(store, &characters[i]);
            },
            None => {
                match create_character(store, &characters[i]) {
                    Ok(_) => {},
                    Err(e) => {
                        proof {
                            assert(false);
                        }
                        return Err(e);
                    },
                }
            },
        }
        i += 1;
    }
    assert(characters.deep_view().take(characters.len() as int) =~= characters.deep_view());
    let ghost s4 = *store;

    let mut i: usize = 0;
    while i < locations.len()
        invariant
            i <= locations.len(),
            store.wf(),
            locations.deep_view().len() == locations.len(),
            crate::store::unchanged_but_locations(s4, *store),
            store.locations.deep_view() == row_upsert_all::<Location>(
                s4.locations.deep_view(),
                locations.deep_view().take(i as int),
            ),
        decreases locations.len() - i,
    {
        proof {
            assert(locations.deep_view().take(i + 1) =~= locations.deep_view().take(i as int).push(
                locations.deep_view()[i as int],
            ));
            lemma_row_upsert_all_push::<Location>(
                s4.locations.deep_view(),
                locations.deep_view().take(i as int),
                locations.deep_view()[i as int],
            );
            assert(locations.deep_view()[i as int] == locations@[i as int].deep_view());
        }
        match row_index_of::<Location>(&store.locations, locations[i].id.as_str()) {
            Some(_) => {
                let _ = update_location(store, &locations[i]);
            },
            None => {
                match create_location(store, &locations[i]) {
                    Ok(_) => {},
                    Err(e) => {
                        proof {
                            assert(false);
                        }
                        return Err(e);
                    },
                }
            },
        }
        i += 1;
    }
    assert(locations.deep_view().take(locations.len() as int) =~= locations.deep_view());
    let ghost s5 = *store;

    let mut i: usize = 0;
    while i < lore_items.len()
        invariant
            i <= lore_items.len(),
            store.wf(),
            lore_items.deep_view().len() == lore_items.len(),
            crate::store::unchanged_but_lore_items(s5, *store),
            store.lore_items.deep_view() == row_upsert_all::<LoreItem>(
                s5.lore_items.deep_view(),
                lore_items.deep_view().take(i as int),
            ),
        decreases lore_items.len() - i,
    {
        proof {
            assert(lore_items.deep_view().take(i + 1) =~= lore_items.deep_view().take(
                i as int,
            ).push(lore_items.deep_view()[i as int]));
            lemma_row_upsert_all_push::<LoreItem>(
                s5.lore_items.deep_view(),
                lore_items.deep_view().take(i as int),
                lore_items.deep_view()[i as int],
            );
            assert(lore_items.deep_view()[i as int] == lore_items@[i as int].deep_view());
        }
        match row_index_of::<LoreItem>(&store.lore_items, lore_items[i].id.as_str()) {
            Some(_) => {
                let _ = update_lore_item(store, &lore_items[i]);
            },
            None => {
                match create_lore_item(store, &lore_items[i]) {
                    Ok(_) => {},
                    Err(e) => {
                        proof {
                            assert(false);
                        }
                        return Err(e);
                    },
                }
            },
        }
        i += 1;
    }
    assert(lore_items.deep_view().take(lore_items.len() as int) =~= lore_items.deep_view());
    let ghost s6 = *store;

    let mut i: usize = 0;
    while i < timeline_events.len()
        invariant
            i <= timeline_events.len(),
            store.wf(),
            timeline_events.deep_view().len() == timeline_events.len(),
            crate::store::unchanged_but_timeline_events(s6, *store),
            store.timeline_events.deep_view() == row_upsert_all::<TimelineEvent>(
                s6.timeline_events.deep_view(),
                timeline_events.deep_view().take(i as int),
            ),
        decreases timeline_events.len() - i,
    {
        proof {
            assert(timeline_events.deep_view().take(i + 1) =~= timeline_events.deep_view().take(
                i as int,
            ).push(timeline_events.deep_view()[i as int]));
            lemma_row_upsert_all_push::<TimelineEvent>(
                s6.timeline_events.deep_view(),
                timeline_events.deep_view().take(i as int),
                timeline_events.deep_view()[i as int],
            );
            assert(timeline_events.deep_view()[i as int] == timeline_events@[i as int].deep_view());
        }
        match row_index_of::<TimelineEvent>(&store.timeline_events, timeline_events[i].id.as_str())
        {
            Some(_) => {
                let _ = update_timeline_event(store, &timeline_events[i]);
            },
            None => {
                match create_timeline_event(store, &timeline_events[i]) {
                    Ok(_) => {},
                    Err(e) => {
                        proof {
                            assert(false);
                        }
                        return Err(e);
                    },
                }
            },
        }
        i += 1;
    }
    assert(timeline_events.deep_view().take(timeline_events.len() as int)
        =~= timeline_events.deep_view());

    Ok(project_id)
}

/// Snapshot a project onto the tree and hand back the name of the folder
/// that now holds it.
pub fn save_project_to_folder(
    store: &Store,
    folders: &mut Vec<ProjectFolder>,
    project_id: &str,
) -> (r: Result<String, String>)
    requires
        store.wf(),
        folders_wf(old(folders)@),
    ensures
        folders_wf(final(folders)@),
        r is Ok <==> has_row::<Project>(store.projects.deep_view(), project_id@),
        match r {
            Ok(name) => (exists|ts: Seq<char>|
                store_to_tree_post(*store, old(folders)@, final(folders)@, project_id@, ts)) && (
            exists|i: int|
                #![auto]
                0 <= i < final(folders)@.len() && folder_claims(final(folders)@[i], project_id@)
                    && (forall|j: int|
                    0 <= j < i ==> !folder_claims(final(folders)@[j], project_id@)) && name@
                    == final(folders)@[i].name@),
            Err(_) => final(folders)@ == old(folders)@,
        },
{
    let now = crate::clock::now_rfc3339();
    match sync_sql_to_filesystem(store, folders, project_id, now.as_str()) {
        Ok(_) => {},
        Err(e) => {
            return Err(e);
        },
    }
    proof {
        lemma_store_to_tree_claims(*store, old(folders)@, folders@, project_id@, now@);
        assert(has_claim(folders@, project_id@));
    }
    match find_project_folder(folders, project_id) {
        Some(i) => {
            proof {
                assert(store_to_tree_post(
                    *store,
                    old(folders)@,
                    folders@,
                    project_id@,
                    now@,
                ));
            }
            Ok(folders[i].name.clone())
        },
        None => {
            proof {
                let j = choose|j: int|
                    0 <= j < folders@.len() && folder_claims(#[trigger] folders@[j], project_id@);
                assert(!folder_claims(folders@[j], project_id@));
            }
            Err(String::from_str("Project folder not found after sync"))
        },
    }
}

/// Load a project's folder back into the store, resolving the folder by
/// project id.
pub fn load_project_from_folder(
    store: &mut Store,
    folders: &Vec<ProjectFolder>,
    project_id: &str,
) -> (r: Result<bool, String>)
    requires
        old(store).wf(),
    ensures
        final(store).wf(),
        r is Ok <==> (exists|i: int|
            #![auto]
            0 <= i < folders@.len() && folder_claims(folders@[i], project_id@) && (forall|j: int|
                0 <= j < i ==> !folder_claims(folders@[j], project_id@)) && tree_to_store_ok(
                folders@[i],
                *old(store),
            )),
        match r {
            Ok(b) => b && (exists|i: int|
                #![auto]
                0 <= i < folders@.len() && folder_claims(folders@[i], project_id@) && (forall|
                    j: int,
                |
                    0 <= j < i ==> !folder_claims(folders@[j], project_id@)) && tree_to_store_ok(
                    folders@[i],
                    *old(store),
                ) && tree_to_store_post(folders@[i], *old(store), *final(store))),
            Err(_) => *final(store) == *old(store),
        },
{
    match find_project_folder(folders, project_id) {
        None => {
            proof {
                if exists|i: int|
                    #![auto]
                    0 <= i < folders@.len() && folder_claims(folders@[i], project_id@) && (forall|
                        j: int,
                    |
                        0 <= j < i ==> !folder_claims(folders@[j], project_id@))
                        && tree_to_store_ok(folders@[i], *old(store)) {
                    let i = choose|i: int|
                        #![auto]
                        0 <= i < folders@.len() && folder_claims(folders@[i], project_id@) && (
                        forall|j: int|
                            0 <= j < i ==> !folder_claims(folders@[j], project_id@))
                            && tree_to_store_ok(folders@[i], *old(store));
                    assert(!folder_claims(folders@[i], project_id@));
                }
            }
            Err(String::from_str("Project folder not found"))
        },
        Some(i) => {
            match sync_filesystem_to_sql(store, &folders[i]) {
                Ok(_) => Ok(true),
                Err(e) => {
                    // Any folder that discovery would resolve is this one,
                    // and the merge refused it.
                    proof {
                        if exists|k: int|
                            #![auto]
                            0 <= k < folders@.len() && folder_claims(folders@[k], project_id@) && (
                            forall|j: int|
                                0 <= j < k ==> !folder_claims(folders@[j], project_id@))
                                && tree_to_store_ok(folders@[k], *old(store)) {
                            let k = choose|k: int|
                                #![auto]
                                0 <= k < folders@.len() && folder_claims(folders@[k], project_id@)
                                    && (forall|j: int|
                                    0 <= j < k ==> !folder_claims(folders@[j], project_id@))
                                    && tree_to_store_ok(folders@[k], *old(store));
                            if k < i {
                                assert(!folder_claims(folders@[k], project_id@));
                            }
                            if i < k {
                                assert(!folder_claims(folders@[i as int], project_id@));
                            }
                            assert(k == i);
                            assert(false);
                        }
                    }
                    Err(e)
                },
            }
        },
    }
}

/// Where opening a project finds its data.
pub enum OpenOutcome {
    /// The project's folder is on disk: the tree is authoritative.
    Folder,
    /// No folder, but the store knows the project and a backup exists:
    /// restore the newest backup.
    Backup,
    /// Neither: synthesize the folder from the store.
    Sql,
}

impl OpenOutcome {
    /// The word the command surface reports for this outcome.
    pub fn label(&self) -> (r: String)
        ensures
            match self {
                OpenOutcome::Folder => r@ == "folder"@,
                OpenOutcome::Backup => r@ == "backup"@,
                OpenOutcome::Sql => r@ == "sql"@,
            },
    {
        match self {
            OpenOutcome::Folder => String::from_str("folder"),
            OpenOutcome::Backup => String::from_str("backup"),
            OpenOutcome::Sql => String::from_str("sql"),
        }
    }
}

/// The opening state machine: a present folder wins; otherwise a known
/// project with at least one backup restores from backup; otherwise the
/// folder is synthesized from the store.
pub fn open_project_route(folder_found: bool, project_in_store: bool, has_backup: bool) -> (r:
    OpenOutcome)
    ensures
        folder_found ==> r is Folder,
        !folder_found && project_in_store && has_backup ==> r is Backup,
        !folder_found && !(project_in_store && has_backup) ==> r is Sql,
{
    if folder_found {
        OpenOutcome::Folder
    } else if project_in_store && has_backup {
        OpenOutcome::Backup
    } else {
        OpenOutcome::Sql
    }
}

/// A snapshot write claims exactly one more project id: the one written.
/// Every folder identity that existed is kept, and none other appears.
pub proof fn lemma_store_to_tree_claims(
    store: Store,
    pre: Seq<ProjectFolder>,
    post: Seq<ProjectFolder>,
    pid: Seq<char>,
    now: Seq<char>,
)
    requires
        has_row::<Project>(store.projects.deep_view(), pid),
        store_to_tree_post(store, pre, post, pid, now),
    ensures
        forall|id: Seq<char>| has_claim(post, id) <==> has_claim(pre, id) || id == pid,
{
    crate::store::lemma_find_row_props::<Project>(store.projects.deep_view(), pid);
    let p = find_row::<Project>(store.projects.deep_view(), pid)->0;
    assert(p.id == pid);
    let chs = project_rows_chapters(store, pid);
    let scs = project_rows_scenes(store, pid);
    let crs = project_rows_characters(store, pid);
    let lcs = project_rows_locations(store, pid);
    let lis = project_rows_lore_items(store, pid);
    let evs = project_rows_timeline_events(store, pid);
    if has_claim(pre, pid) {
        let i = choose|i: int|
            #![auto]
            0 <= i < pre.len() && folder_claims(pre[i], pid) && (forall|j: int|
                0 <= j < i ==> !folder_claims(pre[j], pid)) && post.len() == pre.len() && (forall|
                k: int,
            |
                0 <= k < pre.len() && k != i ==> post[k] == pre[k]) && folder_written(
                pre[i],
                post[i],
                p,
                chs,
                scs,
                crs,
                lcs,
                lis,
                evs,
                now,
            );
        assert forall|id: Seq<char>| has_claim(post, id) implies has_claim(pre, id) || id
            == pid by {
            let k = choose|k: int| 0 <= k < post.len() && folder_claims(#[trigger] post[k], id);
            if k == i {
                assert(post[i].manifest->0.project_id@ == pre[i].manifest->0.project_id@);
                assert(folder_claims(pre[i], id));
            } else {
                assert(post[k] == pre[k]);
            }
        }
        assert forall|id: Seq<char>| has_claim(pre, id) || id == pid implies has_claim(
            post,
            id,
        ) by {
            if id == pid {
                assert(post[i].manifest->0.project_id@ == pre[i].manifest->0.project_id@);
                assert(folder_claims(post[i], pid));
            } else if has_claim(pre, id) {
                let k = choose|k: int| 0 <= k < pre.len() && folder_claims(#[trigger] pre[k], id);
                if k == i {
                    assert(post[i].manifest->0.project_id@ == pre[i].manifest->0.project_id@);
                    assert(folder_claims(post[i], id));
                } else {
                    assert(post[k] == pre[k]);
                    assert(folder_claims(post[k], id));
                }
            }
        }
    } else {
        let t = pre.len() as int;
        assert(post.last() == post[t]);
        assert forall|id: Seq<char>| has_claim(post, id) implies has_claim(pre, id) || id
            == pid by {
            let k = choose|k: int| 0 <= k < post.len() && folder_claims(#[trigger] post[k], id);
            if k == t {
                assert(post[t].manifest->0.project_id@ == pid);
            } else {
                assert(post[k] == pre[k]);
            }
        }
        assert forall|id: Seq<char>| has_claim(pre, id) || id == pid implies has_claim(
            post,
            id,
        ) by {
            if id == pid {
                assert(folder_claims(post[t], pid));
            } else if has_claim(pre, id) {
                let k = choose|k: int| 0 <= k < pre.len() && folder_claims(#[trigger] pre[k], id);
                assert(post[k] == pre[k]);
                assert(folder_claims(post[k], id));
            }
        }
    }
}

/// The folders are the same tree, except that the manifest of `b` records
/// `now` as its last write.
pub open spec fn folder_same_but_updated_at(a: ProjectFolder, b: ProjectFolder, now: Seq<char>) -> bool {
    &&& b.name == a.name
    &&& a.manifest is Some && b.manifest is Some
    &&& b.manifest->0.version@ == a.manifest->0.version@
    &&& b.manifest->0.project_id@ == a.manifest->0.project_id@
    &&& b.manifest->0.title@ == a.manifest->0.title@
    &&& b.manifest->0.created_at@ == a.manifest->0.created_at@
    &&& b.manifest->0.updated_at@ == now
    &&& a.project is Some && b.project is Some
    &&& b.project->0.deep_view() == a.project->0.deep_view()
    &&& b.chapters.deep_view() == a.chapters.deep_view()
    &&& b.scenes.deep_view() == a.scenes.deep_view()
    &&& b.characters.deep_view() == a.characters.deep_view()
    &&& b.locations.deep_view() == a.locations.deep_view()
    &&& b.lore.deep_view() == a.lore.deep_view()
    &&& b.timeline.deep_view() == a.timeline.deep_view()
    &&& b.images == a.images
}

/// Law: snapshotting an unchanged project onto the tree twice yields an
/// identical tree, except for the manifest's `updated_at`: no file is
/// rewritten to a different value and no second folder appears.
pub proof fn lemma_store_to_tree_idempotent(
    store: Store,
    f0: Seq<ProjectFolder>,
    f1: Seq<ProjectFolder>,
    f2: Seq<ProjectFolder>,
    pid: Seq<char>,
    n1: Seq<char>,
    n2: Seq<char>,
)
    requires
        store.wf(),
        folders_wf(f0),
        has_row::<Project>(store.projects.deep_view(), pid),
        store_to_tree_post(store, f0, f1, pid, n1),
        store_to_tree_post(store, f1, f2, pid, n2),
    ensures
        f2.len() == f1.len(),
        exists|t: int|
            #![auto]
            0 <= t < f1.len() && (forall|k: int|
                0 <= k < f1.len() && k != t ==> f2[k] == f1[k]) && folder_same_but_updated_at(
                f1[t],
                f2[t],
                n2,
            ),
{
    let p = find_row::<Project>(store.projects.deep_view(), pid)->0;
    let chs = project_rows_chapters(store, pid);
    let scs = project_rows_scenes(store, pid);
    let crs = project_rows_characters(store, pid);
    let lcs = project_rows_locations(store, pid);
    let lis = project_rows_lore_items(store, pid);
    let evs = project_rows_timeline_events(store, pid);
    lemma_project_rows_unique(store, pid);
    crate::store::lemma_find_row_props::<Project>(store.projects.deep_view(), pid);

    if has_claim(f0, pid) {
        let i1 = choose|i: int|
            #![auto]
            0 <= i < f0.len() && folder_claims(f0[i], pid) && (forall|j: int|
                0 <= j < i ==> !folder_claims(f0[j], pid)) && f1.len() == f0.len() && (forall|
                k: int,
            |
                0 <= k < f0.len() && k != i ==> f1[k] == f0[k]) && folder_written(
                f0[i],
                f1[i],
                p,
                chs,
                scs,
                crs,
                lcs,
                lis,
                evs,
                n1,
            );
        assert(folder_claims(f1[i1], pid));
        assert(has_claim(f1, pid));
        let i2 = choose|i: int|
            #![auto]
            0 <= i < f1.len() && folder_claims(f1[i], pid) && (forall|j: int|
                0 <= j < i ==> !folder_claims(f1[j], pid)) && f2.len() == f1.len() && (forall|
                k: int,
            |
                0 <= k < f1.len() && k != i ==> f2[k] == f1[k]) && folder_written(
                f1[i],
                f2[i],
                p,
                chs,
                scs,
                crs,
                lcs,
                lis,
                evs,
                n2,
            );
        assert(i2 == i1) by {
            if i2 < i1 {
                assert(f1[i2] == f0[i2]);
                assert(!folder_claims(f0[i2], pid));
            }
            if i1 < i2 {
                assert(!folder_claims(f1[i1], pid));
            }
        }
        assert(folder_wf(f0[i1]));
        lemma_file_upsert_all_props::<Chapter>(f0[i1].chapters.deep_view(), chs);
        lemma_file_upsert_all_stable::<Chapter>(f1[i1].chapters.deep_view(), chs);
        lemma_file_upsert_all_props::<Scene>(f0[i1].scenes.deep_view(), scs);
        lemma_file_upsert_all_stable::<Scene>(f1[i1].scenes.deep_view(), scs);
        lemma_file_upsert_all_props::<Character>(f0[i1].characters.deep_view(), crs);
        lemma_file_upsert_all_stable::<Character>(f1[i1].characters.deep_view(), crs);
        lemma_file_upsert_all_props::<Location>(f0[i1].locations.deep_view(), lcs);
        lemma_file_upsert_all_stable::<Location>(f1[i1].locations.deep_view(), lcs);
        lemma_file_upsert_all_props::<LoreItem>(f0[i1].lore.deep_view(), lis);
        lemma_file_upsert_all_stable::<LoreItem>(f1[i1].lore.deep_view(), lis);
        lemma_file_upsert_all_props::<TimelineEvent>(f0[i1].timeline.deep_view(), evs);
        lemma_file_upsert_all_stable::<TimelineEvent>(f1[i1].timeline.deep_view(), evs);
        assert(folder_same_but_updated_at(f1[i1], f2[i1], n2));
    } else {
        let t = f0.len() as int;
        assert(f1.len() == f0.len() + 1);
        assert(folder_claims(f1[t], pid)) by {
            assert(f1.last() == f1[t]);
        }
        assert(has_claim(f1, pid));
        let i2 = choose|i: int|
            #![auto]
            0 <= i < f1.len() && folder_claims(f1[i], pid) && (forall|j: int|
                0 <= j < i ==> !folder_claims(f1[j], pid)) && f2.len() == f1.len() && (forall|
                k: int,
            |
                0 <= k < f1.len() && k != i ==> f2[k] == f1[k]) && folder_written(
                f1[i],
                f2[i],
                p,
                chs,
                scs,
                crs,
                lcs,
                lis,
                evs,
                n2,
            );
        assert(i2 == t) by {
            if i2 < t {
                assert(f1[i2] == f0[i2]);
                assert(!folder_claims(f0[i2], pid));
            }
            if t < i2 {
                assert(!folder_claims(f1[t], pid));
            }
        }
        assert(f1.last() == f1[t]);
        let empty_chapters = Seq::<FileV<<Chapter as DeepView>::V>>::empty();
        assert(file_ids_unique(empty_chapters));
        lemma_file_upsert_all_props::<Chapter>(Seq::empty(), chs);
        lemma_file_upsert_all_stable::<Chapter>(f1[t].chapters.deep_view(), chs);
        lemma_file_upsert_all_props::<Scene>(Seq::empty(), scs);
        lemma_file_upsert_all_stable::<Scene>(f1[t].scenes.deep_view(), scs);
        lemma_file_upsert_all_props::<Character>(Seq::empty(), crs);
        lemma_file_upsert_all_stable::<Character>(f1[t].characters.deep_view(), crs);
        lemma_file_upsert_all_props::<Location>(Seq::empty(), lcs);
        lemma_file_upsert_all_stable::<Location>(f1[t].locations.deep_view(), lcs);
        lemma_file_upsert_all_props::<LoreItem>(Seq::empty(), lis);
        lemma_file_upsert_all_stable::<LoreItem>(f1[t].lore.deep_view(), lis);
        lemma_file_upsert_all_props::<TimelineEvent>(Seq::empty(), evs);
        lemma_file_upsert_all_stable::<TimelineEvent>(f1[t].timeline.deep_view(), evs);
        assert(folder_same_but_updated_at(f1[t], f2[t], n2));
    }
}

/// Law: folder discovery is rename tolerant. Once a project has a folder,
/// a later snapshot, under whatever title the store then holds, writes
/// into that folder: no second folder appears, the folder keeps its name,
/// and discovery by project id still resolves it first.
pub proof fn lemma_folder_discovery_rename_tolerant(
    store: Store,
    f1: Seq<ProjectFolder>,
    f2: Seq<ProjectFolder>,
    pid: Seq<char>,
    now: Seq<char>,
)
    requires
        store.wf(),
        has_row::<Project>(store.projects.deep_view(), pid),
        has_claim(f1, pid),
        store_to_tree_post(store, f1, f2, pid, now),
    ensures
        f2.len() == f1.len(),
        exists|i: int|
            #![auto]
            0 <= i < f1.len() && folder_claims(f1[i], pid) && (forall|j: int|
                0 <= j < i ==> !folder_claims(f1[j], pid)) && folder_claims(f2[i], pid) && (forall|
                j: int,
            |
                0 <= j < i ==> !folder_claims(f2[j], pid)) && f2[i].name == f1[i].name,
{
    let p = find_row::<Project>(store.projects.deep_view(), pid)->0;
    let chs = project_rows_chapters(store, pid);
    let scs = project_rows_scenes(store, pid);
    let crs = project_rows_characters(store, pid);
    let lcs = project_rows_locations(store, pid);
    let lis = project_rows_lore_items(store, pid);
    let evs = project_rows_timeline_events(store, pid);
    let i = choose|i: int|
        #![auto]
        0 <= i < f1.len() && folder_claims(f1[i], pid) && (forall|j: int|
            0 <= j < i ==> !folder_claims(f1[j], pid)) && f2.len() == f1.len() && (forall|k: int|
            0 <= k < f1.len() && k != i ==> f2[k] == f1[k]) && folder_written(
            f1[i],
            f2[i],
            p,
            chs,
            scs,
            crs,
            lcs,
            lis,
            evs,
            now,
        );
    assert(folder_claims(f2[i], pid));
    assert(forall|j: int| 0 <= j < i ==> f2[j] == f1[j]);
}

/// Law: a store-to-tree snapshot into an empty workspace, read back into
/// an empty store, reproduces the project's entity rows exactly: same
/// ids, same field values, in the order the snapshot wrote them.
pub proof fn lemma_store_tree_round_trip(
    store: Store,
    f1: Seq<ProjectFolder>,
    pre0: Store,
    store2: Store,
    pid: Seq<char>,
    now: Seq<char>,
)
    requires
        store.wf(),
        has_row::<Project>(store.projects.deep_view(), pid),
        store_to_tree_post(store, Seq::empty(), f1, pid, now),
        pre0.projects.deep_view() == Seq::<<Project as DeepView>::V>::empty(),
        pre0.chapters.deep_view() == Seq::<<Chapter as DeepView>::V>::empty(),
        pre0.scenes.deep_view() == Seq::<<Scene as DeepView>::V>::empty(),
        pre0.characters.deep_view() == Seq::<<Character as DeepView>::V>::empty(),
        pre0.locations.deep_view() == Seq::<<Location as DeepView>::V>::empty(),
        pre0.lore_items.deep_view() == Seq::<<LoreItem as DeepView>::V>::empty(),
        pre0.timeline_events.deep_view() == Seq::<<TimelineEvent as DeepView>::V>::empty(),
        tree_to_store_post(f1.last(), pre0, store2),
    ensures
        tree_to_store_ok(f1.last(), pre0),
        store2.projects.deep_view() == seq![
            find_row::<Project>(store.projects.deep_view(), pid)->0,
        ],
        store2.chapters.deep_view() == project_rows_chapters(store, pid),
        store2.scenes.deep_view() == project_rows_scenes(store, pid),
        store2.characters.deep_view() == project_rows_characters(store, pid),
        store2.locations.deep_view() == project_rows_locations(store, pid),
        store2.lore_items.deep_view() == project_rows_lore_items(store, pid),
        store2.timeline_events.deep_view() == project_rows_timeline_events(store, pid),
{
    let p = find_row::<Project>(store.projects.deep_view(), pid)->0;
    let chs = project_rows_chapters(store, pid);
    let scs = project_rows_scenes(store, pid);
    let crs = project_rows_characters(store, pid);
    let lcs = project_rows_locations(store, pid);
    let lis = project_rows_lore_items(store, pid);
    let evs = project_rows_timeline_events(store, pid);
    lemma_project_rows_unique(store, pid);
    assert(!has_claim(Seq::<ProjectFolder>::empty(), pid)) by {
        if has_claim(Seq::<ProjectFolder>::empty(), pid) {
            let j = choose|j: int|
                0 <= j < Seq::<ProjectFolder>::empty().len() && folder_claims(
                    Seq::<ProjectFolder>::empty()[j],
                    pid,
                );
        }
    }
    let f = f1.last();
    assert(folder_fresh_written(f, p, chs, scs, crs, lcs, lis, evs, now));

    lemma_file_upsert_all_fresh::<Chapter>(chs);
    lemma_file_upsert_all_fresh::<Scene>(scs);
    lemma_file_upsert_all_fresh::<Character>(crs);
    lemma_file_upsert_all_fresh::<Location>(lcs);
    lemma_file_upsert_all_fresh::<LoreItem>(lis);
    lemma_file_upsert_all_fresh::<TimelineEvent>(evs);
    assert(parsed_files(f.chapters.deep_view()) == chs);
    assert(parsed_files(f.scenes.deep_view()) == scs);
    assert(parsed_files(f.characters.deep_view()) == crs);
    assert(parsed_files(f.locations.deep_view()) == lcs);
    assert(parsed_files(f.lore.deep_view()) == lis);
    assert(parsed_files(f.timeline.deep_view()) == evs);

    // An empty store holds no row of any id, so nothing can clash.
    assert(tree_to_store_ok(f, pre0)) by {
        assert(f.project is Some);
        assert(forall|k: int|
            0 <= k < chs.len() ==> !chapter_collides(
                pre0.chapters.deep_view(),
                #[trigger] chs[k],
                f.project->0.deep_view().id,
            ));
        assert(forall|k: int|
            0 <= k < scs.len() ==> !scene_collides(pre0.scenes.deep_view(), #[trigger] scs[k]));
        assert(forall|k: int|
            0 <= k < crs.len() ==> !character_collides(
                pre0.characters.deep_view(),
                #[trigger] crs[k],
                f.project->0.deep_view().id,
            ));
        assert(forall|k: int|
            0 <= k < lcs.len() ==> !location_collides(
                pre0.locations.deep_view(),
                #[trigger] lcs[k],
                f.project->0.deep_view().id,
            ));
        assert(forall|k: int|
            0 <= k < lis.len() ==> !lore_item_collides(
                pre0.lore_items.deep_view(),
                #[trigger] lis[k],
                f.project->0.deep_view().id,
            ));
        assert(forall|k: int|
            0 <= k < evs.len() ==> !timeline_event_collides(
                pre0.timeline_events.deep_view(),
                #[trigger] evs[k],
                f.project->0.deep_view().id,
            ));
    }

    assert(store2.projects.deep_view() == seq![p]) by {
        assert(!has_row::<Project>(pre0.projects.deep_view(), p.id));
        assert(store2.projects.deep_view() == pre0.projects.deep_view().push(p));
        assert(pre0.projects.deep_view().push(p) =~= seq![p]);
    }
    assert(Seq::<<Chapter as DeepView>::V>::empty() + chs =~= chs);
    crate::store::lemma_row_upsert_all_fresh::<Chapter>(Seq::empty(), chs);
    assert(Seq::<<Scene as DeepView>::V>::empty() + scs =~= scs);
    crate::store::lemma_row_upsert_all_fresh::<Scene>(Seq::empty(), scs);
    assert(Seq::<<Character as DeepView>::V>::empty() + crs =~= crs);
    crate::store::lemma_row_upsert_all_fresh::<Character>(Seq::empty(), crs);
    assert(Seq::<<Location as DeepView>::V>::empty() + lcs =~= lcs);
    crate::store::lemma_row_upsert_all_fresh::<Location>(Seq::empty(), lcs);
    assert(Seq::<<LoreItem as DeepView>::V>::empty() + lis =~= lis);
    crate::store::lemma_row_upsert_all_fresh::<LoreItem>(Seq::empty(), lis);
    assert(Seq::<<TimelineEvent as DeepView>::V>::empty() + evs =~= evs);
    crate::store::lemma_row_upsert_all_fresh::<TimelineEvent>(Seq::empty(), evs);
}

} // verus!
