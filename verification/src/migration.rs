//! The one-time upgrade path: snapshot every store-only project onto the
//! tree, then rewrite inline-encoded images into files under the
//! project's folder.
//!
//! A per-project failure is isolated: one project that cannot be
//! migrated never blocks the rest.

use vstd::prelude::*;

use crate::entities::Chapter;
use crate::entities::Character;
use crate::entities::Entity;
use crate::entities::GalleryItem;
use crate::entities::GalleryItemV;
use crate::entities::Location;
use crate::entities::Project;
use crate::entities::Scene;
use crate::entities::clone_opt_string;
use crate::images::classify_image_value;
use crate::images::ImageKind;
use crate::images::save_image_from_base64;
use crate::images::spec_likely_base64;
use crate::images::spec_trim;
use crate::project_fs::ProjectFolder;
use crate::project_fs::find_project_folder;
use crate::project_fs::folder_claims;
use crate::project_fs::folder_wf;
use crate::store::Store;
use crate::store::get_all_projects;
use crate::store::has_row;
use crate::store::row_index_of;
use crate::sync::folders_wf;
use crate::sync::has_claim;
use crate::sync::sync_sql_to_filesystem;
use crate::text::spec_starts_with;

verus! {

/// The stored value is an inline-encoded image: what classification
/// calls base64.
pub open spec fn is_inline_image(v: Seq<char>) -> bool {
    let t = spec_trim(v);
    t.len() > 0 && (spec_starts_with(t, "data:"@) || spec_likely_base64(t))
}

/// An image field that externalization must rewrite: it holds an inline
/// value whose payload decodes.
pub open spec fn needs_externalizing(o: Option<Seq<char>>) -> bool {
    o matches Some(v) && is_inline_image(v) && crate::images::spec_decode_image(v) is Some
}

/// How externalization rewrites one optional image field: an inline
/// value whose payload decodes must become a path under `images/`;
/// everything else — outside links, relative paths, empty fields, and
/// inline values that do not decode — is untouched.
pub open spec fn image_field_externalized(
    pre: Option<Seq<char>>,
    post: Option<Seq<char>>,
) -> bool {
    if needs_externalizing(pre) {
        post matches Some(p) && spec_starts_with(p, "images/"@)
    } else {
        post == pre
    }
}

pub open spec fn chapter_externalized(
    pre: <Chapter as DeepView>::V,
    post: <Chapter as DeepView>::V,
) -> bool {
    &&& post.id == pre.id
    &&& post.project_id == pre.project_id
    &&& post.title == pre.title
    &&& post.content == pre.content
    &&& post.status == pre.status
    &&& post.word_count == pre.word_count
    &&& post.summary == pre.summary
    &&& post.number == pre.number
    &&& post.image_type == pre.image_type
    &&& image_field_externalized(pre.image, post.image)
}

pub open spec fn scene_externalized(
    pre: <Scene as DeepView>::V,
    post: <Scene as DeepView>::V,
) -> bool {
    &&& post.id == pre.id
    &&& post.chapter_id == pre.chapter_id
    &&& post.title == pre.title
    &&& post.character_ids == pre.character_ids
    &&& post.location_id == pre.location_id
    &&& post.timeline_position == pre.timeline_position
    &&& post.description == pre.description
    &&& post.notes == pre.notes
    &&& post.image_type == pre.image_type
    &&& image_field_externalized(pre.image, post.image)
}

pub open spec fn character_externalized(
    pre: <Character as DeepView>::V,
    post: <Character as DeepView>::V,
) -> bool {
    &&& post.id == pre.id
    &&& post.project_id == pre.project_id
    &&& post.name == pre.name
    &&& post.role == pre.role
    &&& post.physical_description == pre.physical_description
    &&& post.personality == pre.personality
    &&& post.history == pre.history
    &&& post.notes == pre.notes
    &&& post.attributes == pre.attributes
    &&& post.attribute_history == pre.attribute_history
    &&& post.vital_status_history == pre.vital_status_history
    &&& post.current_vital_status == pre.current_vital_status
    &&& post.visual_position == pre.visual_position
    &&& post.relationships == pre.relationships
    &&& image_field_externalized(pre.avatar_url, post.avatar_url)
}

pub open spec fn gallery_item_externalized(pre: GalleryItemV, post: GalleryItemV) -> bool {
    &&& post.extra == pre.extra
    &&& image_field_externalized(pre.url, post.url)
}

pub open spec fn location_externalized(
    pre: <Location as DeepView>::V,
    post: <Location as DeepView>::V,
) -> bool {
    &&& post.id == pre.id
    &&& post.project_id == pre.project_id
    &&& post.name == pre.name
    &&& post.location_type == pre.location_type
    &&& post.description == pre.description
    &&& post.significance == pre.significance
    &&& post.notes == pre.notes
    &&& post.plans == pre.plans
    &&& post.connections == pre.connections
    &&& post.visual_position == pre.visual_position
    &&& post.gallery.len() == pre.gallery.len()
    &&& forall|k: int|
        0 <= k < pre.gallery.len() ==> gallery_item_externalized(
            #[trigger] pre.gallery[k],
            post.gallery[k],
        )
    &&& image_field_externalized(pre.image_url, post.image_url)
}

/// The scene belongs to the project: its owning chapter carries the
/// project's id.
pub open spec fn scene_in_project_chapters(
    chapters: Seq<<Chapter as DeepView>::V>,
    pid: Seq<char>,
    s: <Scene as DeepView>::V,
) -> bool {
    exists|j: int|
        0 <= j < chapters.len() && (#[trigger] chapters[j]).id == s.chapter_id
            && chapters[j].project_id == pid
}

/// How many chapter images of the project must be externalized.
pub open spec fn count_chapter_images(rows: Seq<<Chapter as DeepView>::V>, pid: Seq<char>) -> int
    decreases rows.len(),
{
    if rows.len() == 0 {
        0
    } else {
        count_chapter_images(rows.drop_last(), pid) + if rows.last().project_id == pid
            && needs_externalizing(rows.last().image) {
            1int
        } else {
            0int
        }
    }
}

/// How many scene images of the project must be externalized; a scene
/// belongs through its chapter.
pub open spec fn count_scene_images(
    rows: Seq<<Scene as DeepView>::V>,
    chapters: Seq<<Chapter as DeepView>::V>,
    pid: Seq<char>,
) -> int
    decreases rows.len(),
{
    if rows.len() == 0 {
        0
    } else {
        count_scene_images(rows.drop_last(), chapters, pid) + if scene_in_project_chapters(
            chapters,
            pid,
            rows.last(),
        ) && needs_externalizing(rows.last().image) {
            1int
        } else {
            0int
        }
    }
}

/// How many character avatars of the project must be externalized.
pub open spec fn count_character_images(
    rows: Seq<<Character as DeepView>::V>,
    pid: Seq<char>,
) -> int
    decreases rows.len(),
{
    if rows.len() == 0 {
        0
    } else {
        count_character_images(rows.drop_last(), pid) + if rows.last().project_id == pid
            && needs_externalizing(rows.last().avatar_url) {
            1int
        } else {
            0int
        }
    }
}

/// How many gallery entries of one location must be externalized.
pub open spec fn count_gallery_images(items: Seq<GalleryItemV>) -> int
    decreases items.len(),
{
    if items.len() == 0 {
        0
    } else {
        count_gallery_images(items.drop_last()) + if needs_externalizing(items.last().url) {
            1int
        } else {
            0int
        }
    }
}

/// How many location images of the project must be externalized: the
/// main image and the gallery entries.
pub open spec fn count_location_images(
    rows: Seq<<Location as DeepView>::V>,
    pid: Seq<char>,
) -> int
    decreases rows.len(),
{
    if rows.len() == 0 {
        0
    } else {
        count_location_images(rows.drop_last(), pid) + if rows.last().project_id == pid {
            (if needs_externalizing(rows.last().image_url) {
                1int
            } else {
                0int
            }) + count_gallery_images(rows.last().gallery)
        } else {
            0int
        }
    }
}

/// Every image field of the project that externalization must rewrite.
pub open spec fn count_project_images(store: Store, pid: Seq<char>) -> int {
    count_chapter_images(store.chapters.deep_view(), pid) + count_scene_images(
        store.scenes.deep_view(),
        store.chapters.deep_view(),
        pid,
    ) + count_character_images(store.characters.deep_view(), pid) + count_location_images(
        store.locations.deep_view(),
        pid,
    )
}

/// The folder after externalization: image files only appended, nothing
/// else touched.
pub open spec fn folder_images_grown(pre: ProjectFolder, post: ProjectFolder) -> bool {
    &&& post.images@.len() >= pre.images@.len()
    &&& forall|j: int| 0 <= j < pre.images@.len() ==> post.images@[j] == pre.images@[j]
    &&& post.name == pre.name
    &&& post.manifest == pre.manifest
    &&& post.project == pre.project
    &&& post.chapters == pre.chapters
    &&& post.scenes == pre.scenes
    &&& post.characters == pre.characters
    &&& post.locations == pre.locations
    &&& post.lore == pre.lore
    &&& post.timeline == pre.timeline
}

/// The store after externalization of one project: every row stands in
/// its kind's externalization relation, and rows of other projects are
/// untouched.
pub open spec fn store_externalized(pre: Store, post: Store, pid: Seq<char>) -> bool {
    &&& post.projects == pre.projects
    &&& post.lore_items == pre.lore_items
    &&& post.timeline_events == pre.timeline_events
    &&& post.chapters.deep_view().len() == pre.chapters.deep_view().len()
    &&& forall|i: int|
        0 <= i < pre.chapters.deep_view().len() && (#[trigger] pre.chapters.deep_view()[i]).project_id
            == pid ==> chapter_externalized(
            pre.chapters.deep_view()[i],
            post.chapters.deep_view()[i],
        )
    &&& forall|i: int|
        0 <= i < pre.chapters.deep_view().len() && (#[trigger] pre.chapters.deep_view()[i]).project_id
            != pid ==> post.chapters.deep_view()[i] == pre.chapters.deep_view()[i]
    &&& post.scenes.deep_view().len() == pre.scenes.deep_view().len()
    &&& forall|i: int|
        0 <= i < pre.scenes.deep_view().len() && scene_in_project_chapters(
            pre.chapters.deep_view(),
            pid,
            #[trigger] pre.scenes.deep_view()[i],
        ) ==> scene_externalized(pre.scenes.deep_view()[i], post.scenes.deep_view()[i])
    &&& forall|i: int|
        0 <= i < pre.scenes.deep_view().len() && !scene_in_project_chapters(
            pre.chapters.deep_view(),
            pid,
            #[trigger] pre.scenes.deep_view()[i],
        ) ==> post.scenes.deep_view()[i] == pre.scenes.deep_view()[i]
    &&& post.characters.deep_view().len() == pre.characters.deep_view().len()
    &&& forall|i: int|
        0 <= i < pre.characters.deep_view().len() && (#[trigger] pre.characters.deep_view()[i]).project_id
            == pid ==> character_externalized(
            pre.characters.deep_view()[i],
            post.characters.deep_view()[i],
        )
    &&& forall|i: int|
        0 <= i < pre.characters.deep_view().len() && (#[trigger] pre.characters.deep_view()[i]).project_id
            != pid ==> post.characters.deep_view()[i] == pre.characters.deep_view()[i]
    &&& post.locations.deep_view().len() == pre.locations.deep_view().len()
    &&& forall|i: int|
        0 <= i < pre.locations.deep_view().len() && (#[trigger] pre.locations.deep_view()[i]).project_id
            == pid ==> location_externalized(
            pre.locations.deep_view()[i],
            post.locations.deep_view()[i],
        )
    &&& forall|i: int|
        0 <= i < pre.locations.deep_view().len() && (#[trigger] pre.locations.deep_view()[i]).project_id
            != pid ==> post.locations.deep_view()[i] == pre.locations.deep_view()[i]
}

pub proof fn lemma_images_prefix(p: Seq<char>, category: Seq<char>, nm: Seq<char>, ext: Seq<char>)
    requires
        p == "images/"@ + category + "/"@ + nm + seq!['.'] + ext,
    ensures
        spec_starts_with(p, "images/"@),
{
    assert(p.subrange(0, "images/"@.len() as int) =~= "images/"@);
}

/// Externalize the chapter images of one project.
fn externalize_chapter_images(store: &mut Store, folder: &mut ProjectFolder, project_id: &str) -> (n:
    usize)
    requires
        old(store).wf(),
    ensures
        final(store).wf(),
        final(store).projects == old(store).projects,
        final(store).scenes == old(store).scenes,
        final(store).characters == old(store).characters,
        final(store).locations == old(store).locations,
        final(store).lore_items == old(store).lore_items,
        final(store).timeline_events == old(store).timeline_events,
        final(store).chapters.deep_view().len() == old(store).chapters.deep_view().len(),
        forall|i: int|
            0 <= i < old(store).chapters.deep_view().len()
                && (#[trigger] old(store).chapters.deep_view()[i]).project_id == project_id@
                ==> chapter_externalized(
                old(store).chapters.deep_view()[i],
                final(store).chapters.deep_view()[i],
            ),
        forall|i: int|
            0 <= i < old(store).chapters.deep_view().len()
                && (#[trigger] old(store).chapters.deep_view()[i]).project_id != project_id@
                ==> final(store).chapters.deep_view()[i] == old(store).chapters.deep_view()[i],
        folder_images_grown(*old(folder), *final(folder)),
        n == final(folder).images@.len() - old(folder).images@.len(),
        n == count_chapter_images(old(store).chapters.deep_view(), project_id@),
{
    let ghost pre = *old(store);
    let ghost prefolder = *old(folder);
    let base = folder.images.len();
    let mut t: usize = 0;
    while t < store.chapters.len()
        invariant
            pre == *old(store),
            prefolder == *old(folder),
            pre.wf(),
            store.wf(),
            t <= store.chapters.len(),
            store.projects == pre.projects,
            store.scenes == pre.scenes,
            store.characters == pre.characters,
            store.locations == pre.locations,
            store.lore_items == pre.lore_items,
            store.timeline_events == pre.timeline_events,
            store.chapters.len() == pre.chapters.len(),
            store.chapters.deep_view().len() == pre.chapters.deep_view().len(),
            forall|j: int|
                0 <= j < t && (#[trigger] pre.chapters.deep_view()[j]).project_id == project_id@
                    ==> chapter_externalized(
                    pre.chapters.deep_view()[j],
                    store.chapters.deep_view()[j],
                ),
            forall|j: int|
                0 <= j < t && (#[trigger] pre.chapters.deep_view()[j]).project_id != project_id@
                    ==> store.chapters.deep_view()[j] == pre.chapters.deep_view()[j],
            forall|j: int| t <= j < pre.chapters.len() ==> store.chapters@[j] == pre.chapters@[j],
            folder_images_grown(prefolder, *folder),
            base == prefolder.images@.len(),
            folder.images@.len() == prefolder.images@.len() + count_chapter_images(
                pre.chapters.deep_view().take(t as int),
                project_id@,
            ),
        decreases store.chapters.len() - t,
    {
        proof {
            assert(store.chapters@[t as int] == pre.chapters@[t as int]);
            assert(store.chapters.deep_view()[t as int] == pre.chapters.deep_view()[t as int]);
            assert(pre.chapters.deep_view().take(t + 1).drop_last() =~= pre.chapters.deep_view()
                .take(t as int));
            assert(pre.chapters.deep_view().take(t + 1).last() == pre.chapters.deep_view()[
                t as int]);
        }
        let mut touched = false;
        if crate::text::str_eq(store.chapters[t].project_id.as_str(), project_id) {
            let img = clone_opt_string(&store.chapters[t].image);
            match img {
                Some(image) => {
                    match classify_image_value(image.as_str()) {
                        ImageKind::Base64(_) => {
                            match save_image_from_base64(folder, "chapters", image.as_str()) {
                                Ok(rel) => {
                                    proof {
                                        let d = crate::images::spec_decode_image(image@)->0;
                                        let nm = choose|nm: Seq<char>|
                                            nm.len() == 36 && (forall|i: int|
                                                0 <= i < nm.len() ==> crate::images::is_uuid_char(
                                                    #[trigger] nm[i],
                                                )) && rel@ == "images/"@ + "chapters"@ + "/"@ + nm
                                                + seq!['.'] + d.1;
                                        lemma_images_prefix(rel@, "chapters"@, nm, d.1);
                                    }
                                    let mut ch = store.chapters[t].clone();
                                    ch.image = Some(rel);
                                    let ghost prevc = store.chapters@;
                                    let ghost chv = ch.deep_view();
                                    store.chapters.set(t, ch);
                                    touched = true;
                                    proof {
                                        assert(forall|j: int|
                                            0 <= j < prevc.len() && j != t
                                                ==> store.chapters@[j] == prevc[j]);
                                        assert(store.chapters.deep_view()[t as int] == chv);
                                        assert(chapter_externalized(
                                            pre.chapters.deep_view()[t as int],
                                            store.chapters.deep_view()[t as int],
                                        ));
                                        assert forall|i: int, j: int|
                                            0 <= i < j < store.chapters.deep_view().len() implies
                                            <Chapter as Entity>::view_id(
                                            store.chapters.deep_view()[i],
                                        ) != <Chapter as Entity>::view_id(
                                            store.chapters.deep_view()[j],
                                        ) by {
                                            assert(store.chapters.deep_view()[i].id
                                                == pre.chapters.deep_view()[i].id);
                                            assert(store.chapters.deep_view()[j].id
                                                == pre.chapters.deep_view()[j].id);
                                        }
                                    }
                                },
                                Err(_) => {},
                            }
                        },
                        _ => {},
                    }
                },
                None => {},
            }
        }
        proof {
            if !touched && pre.chapters.deep_view()[t as int].project_id == project_id@ {
                assert(chapter_externalized(
                    pre.chapters.deep_view()[t as int],
                    store.chapters.deep_view()[t as int],
                ));
            }
        }
        t += 1;
    }
    assert(pre.chapters.deep_view().take(store.chapters.len() as int) =~= pre.chapters
        .deep_view());
    folder.images.len() - base
}

/// Externalize the scene images of one project; a scene belongs to the
/// project through its chapter.
fn externalize_scene_images(store: &mut Store, folder: &mut ProjectFolder, project_id: &str) -> (n:
    usize)
    requires
        old(store).wf(),
    ensures
        final(store).wf(),
        final(store).projects == old(store).projects,
        final(store).chapters == old(store).chapters,
        final(store).characters == old(store).characters,
        final(store).locations == old(store).locations,
        final(store).lore_items == old(store).lore_items,
        final(store).timeline_events == old(store).timeline_events,
        final(store).scenes.deep_view().len() == old(store).scenes.deep_view().len(),
        forall|i: int|
            0 <= i < old(store).scenes.deep_view().len() && scene_in_project_chapters(
                old(store).chapters.deep_view(),
                project_id@,
                #[trigger] old(store).scenes.deep_view()[i],
            ) ==> scene_externalized(
                old(store).scenes.deep_view()[i],
                final(store).scenes.deep_view()[i],
            ),
        forall|i: int|
            0 <= i < old(store).scenes.deep_view().len() && !scene_in_project_chapters(
                old(store).chapters.deep_view(),
                project_id@,
                #[trigger] old(store).scenes.deep_view()[i],
            ) ==> final(store).scenes.deep_view()[i] == old(store).scenes.deep_view()[i],
        folder_images_grown(*old(folder), *final(folder)),
        n == final(folder).images@.len() - old(folder).images@.len(),
        n == count_scene_images(
            old(store).scenes.deep_view(),
            old(store).chapters.deep_view(),
            project_id@,
        ),
{
    let ghost pre = *old(store);
    let ghost prefolder = *old(folder);
    let base = folder.images.len();
    let mut t: usize = 0;
    while t < store.scenes.len()
        invariant
            pre == *old(store),
            prefolder == *old(folder),
            pre.wf(),
            store.wf(),
            t <= store.scenes.len(),
            store.projects == pre.projects,
            store.chapters == pre.chapters,
            store.characters == pre.characters,
            store.locations == pre.locations,
            store.lore_items == pre.lore_items,
            store.timeline_events == pre.timeline_events,
            store.scenes.len() == pre.scenes.len(),
            store.scenes.deep_view().len() == pre.scenes.deep_view().len(),
            forall|j: int|
                0 <= j < t && scene_in_project_chapters(
                    pre.chapters.deep_view(),
                    project_id@,
                    #[trigger] pre.scenes.deep_view()[j],
                ) ==> scene_externalized(
                    pre.scenes.deep_view()[j],
                    store.scenes.deep_view()[j],
                ),
            forall|j: int|
                0 <= j < t && !scene_in_project_chapters(
                    pre.chapters.deep_view(),
                    project_id@,
                    #[trigger] pre.scenes.deep_view()[j],
                ) ==> store.scenes.deep_view()[j] == pre.scenes.deep_view()[j],
            forall|j: int| t <= j < pre.scenes.len() ==> store.scenes@[j] == pre.scenes@[j],
            folder_images_grown(prefolder, *folder),
            base == prefolder.images@.len(),
            folder.images@.len() == prefolder.images@.len() + count_scene_images(
                pre.scenes.deep_view().take(t as int),
                pre.chapters.deep_view(),
                project_id@,
            ),
        decreases store.scenes.len() - t,
    {
        proof {
            assert(store.scenes@[t as int] == pre.scenes@[t as int]);
            assert(store.scenes.deep_view()[t as int] == pre.scenes.deep_view()[t as int]);
            assert(pre.scenes.deep_view().take(t + 1).drop_last() =~= pre.scenes.deep_view().take(
                t as int,
            ));
            assert(pre.scenes.deep_view().take(t + 1).last() == pre.scenes.deep_view()[t as int]);
        }
        let ghost sv = pre.scenes.deep_view()[t as int];
        let belongs = match row_index_of::<Chapter>(
            &store.chapters,
            store.scenes[t].chapter_id.as_str(),
        ) {
            Some(cj) => {
                proof {
                    assert(pre.chapters.deep_view()[cj as int].id == store.chapters@[
                        cj as int].id@);
                    assert(pre.chapters.deep_view()[cj as int].project_id == store.chapters@[
                        cj as int].project_id@);
                }
                crate::text::str_eq(store.chapters[cj].project_id.as_str(), project_id)
            },
            None => false,
        };
        proof {
            // The chapter found by id is the only one with the scene's
            // chapter id, so membership is decided by its project.
            if !belongs && scene_in_project_chapters(pre.chapters.deep_view(), project_id@, sv) {
                let j = choose|j: int|
                    0 <= j < pre.chapters.deep_view().len()
                        && (#[trigger] pre.chapters.deep_view()[j]).id == sv.chapter_id
                        && pre.chapters.deep_view()[j].project_id == project_id@;
                assert(has_row::<Chapter>(pre.chapters.deep_view(), sv.chapter_id));
                assert(false);
            }
            if belongs {
                assert(scene_in_project_chapters(pre.chapters.deep_view(), project_id@, sv));
            }
        }
        let mut touched = false;
        if belongs {
            let img = clone_opt_string(&store.scenes[t].image);
            match img {
                Some(image) => {
                    match classify_image_value(image.as_str()) {
                        ImageKind::Base64(_) => {
                            match save_image_from_base64(folder, "scenes", image.as_str()) {
                                Ok(rel) => {
                                    proof {
                                        let d = crate::images::spec_decode_image(image@)->0;
                                        let nm = choose|nm: Seq<char>|
                                            nm.len() == 36 && (forall|i: int|
                                                0 <= i < nm.len() ==> crate::images::is_uuid_char(
                                                    #[trigger] nm[i],
                                                )) && rel@ == "images/"@ + "scenes"@ + "/"@ + nm
                                                + seq!['.'] + d.1;
                                        lemma_images_prefix(rel@, "scenes"@, nm, d.1);
                                    }
                                    let mut sc = store.scenes[t].clone();
                                    sc.image = Some(rel);
                                    let ghost prevc = store.scenes@;
                                    let ghost scv = sc.deep_view();
                                    store.scenes.set(t, sc);
                                    touched = true;
                                    proof {
                                        assert(forall|j: int|
                                            0 <= j < prevc.len() && j != t ==> store.scenes@[j]
                                                == prevc[j]);
                                        assert(store.scenes.deep_view()[t as int] == scv);
                                        assert(scene_externalized(
                                            pre.scenes.deep_view()[t as int],
                                            store.scenes.deep_view()[t as int],
                                        ));
                                        assert forall|i: int, j: int|
                                            0 <= i < j < store.scenes.deep_view().len() implies
                                            <Scene as Entity>::view_id(
                                            store.scenes.deep_view()[i],
                                        ) != <Scene as Entity>::view_id(
                                            store.scenes.deep_view()[j],
                                        ) by {
                                            assert(store.scenes.deep_view()[i].id
                                                == pre.scenes.deep_view()[i].id);
                                            assert(store.scenes.deep_view()[j].id
                                                == pre.scenes.deep_view()[j].id);
                                        }
                                    }
                                },
                                Err(_) => {},
                            }
                        },
                        _ => {},
                    }
                },
                None => {},
            }
        }
        proof {
            if !touched && scene_in_project_chapters(pre.chapters.deep_view(), project_id@, sv) {
                assert(scene_externalized(
                    pre.scenes.deep_view()[t as int],
                    store.scenes.deep_view()[t as int],
                ));
            }
        }
        t += 1;
    }
    assert(pre.scenes.deep_view().take(store.scenes.len() as int) =~= pre.scenes.deep_view());
    folder.images.len() - base
}

/// Externalize the character avatars of one project.
fn externalize_character_images(
    store: &mut Store,
    folder: &mut ProjectFolder,
    project_id: &str,
) -> (n: usize)
    requires
        old(store).wf(),
    ensures
        final(store).wf(),
        final(store).projects == old(store).projects,
        final(store).chapters == old(store).chapters,
        final(store).scenes == old(store).scenes,
        final(store).locations == old(store).locations,
        final(store).lore_items == old(store).lore_items,
        final(store).timeline_events == old(store).timeline_events,
        final(store).characters.deep_view().len() == old(store).characters.deep_view().len(),
        forall|i: int|
            0 <= i < old(store).characters.deep_view().len()
                && (#[trigger] old(store).characters.deep_view()[i]).project_id == project_id@
                ==> character_externalized(
                old(store).characters.deep_view()[i],
                final(store).characters.deep_view()[i],
            ),
        forall|i: int|
            0 <= i < old(store).characters.deep_view().len()
                && (#[trigger] old(store).characters.deep_view()[i]).project_id != project_id@
                ==> final(store).characters.deep_view()[i] == old(store).characters.deep_view()[i],
        folder_images_grown(*old(folder), *final(folder)),
        n == final(folder).images@.len() - old(folder).images@.len(),
        n == count_character_images(old(store).characters.deep_view(), project_id@),
{
    let ghost pre = *old(store);
    let ghost prefolder = *old(folder);
    let base = folder.images.len();
    let mut t: usize = 0;
    while t < store.characters.len()
        invariant
            pre == *old(store),
            prefolder == *old(folder),
            pre.wf(),
            store.wf(),
            t <= store.characters.len(),
            store.projects == pre.projects,
            store.chapters == pre.chapters,
            store.scenes == pre.scenes,
            store.locations == pre.locations,
            store.lore_items == pre.lore_items,
            store.timeline_events == pre.timeline_events,
            store.characters.len() == pre.characters.len(),
            store.characters.deep_view().len() == pre.characters.deep_view().len(),
            forall|j: int|
                0 <= j < t && (#[trigger] pre.characters.deep_view()[j]).project_id == project_id@
                    ==> character_externalized(
                    pre.characters.deep_view()[j],
                    store.characters.deep_view()[j],
                ),
            forall|j: int|
                0 <= j < t && (#[trigger] pre.characters.deep_view()[j]).project_id != project_id@
                    ==> store.characters.deep_view()[j] == pre.characters.deep_view()[j],
            forall|j: int|
                t <= j < pre.characters.len() ==> store.characters@[j] == pre.characters@[j],
            folder_images_grown(prefolder, *folder),
            base == prefolder.images@.len(),
            folder.images@.len() == prefolder.images@.len() + count_character_images(
                pre.characters.deep_view().take(t as int),
                project_id@,
            ),
        decreases store.characters.len() - t,
    {
        proof {
            assert(store.characters@[t as int] == pre.characters@[t as int]);
            assert(store.characters.deep_view()[t as int] == pre.characters.deep_view()[t as int]);
            assert(pre.characters.deep_view().take(t + 1).drop_last() =~= pre.characters
                .deep_view().take(t as int));
            assert(pre.characters.deep_view().take(t + 1).last() == pre.characters.deep_view()[
                t as int]);
        }
        let mut touched = false;
        if crate::text::str_eq(store.characters[t].project_id.as_str(), project_id) {
            let img = clone_opt_string(&store.characters[t].avatar_url);
            match img {
                Some(image) => {
                    match classify_image_value(image.as_str()) {
                        ImageKind::Base64(_) => {
                            match save_image_from_base64(folder, "characters", image.as_str()) {
                                Ok(rel) => {
                                    proof {
                                        let d = crate::images::spec_decode_image(image@)->0;
                                        let nm = choose|nm: Seq<char>|
                                            nm.len() == 36 && (forall|i: int|
                                                0 <= i < nm.len() ==> crate::images::is_uuid_char(
                                                    #[trigger] nm[i],
                                                )) && rel@ == "images/"@ + "characters"@ + "/"@
                                                + nm + seq!['.'] + d.1;
                                        lemma_images_prefix(rel@, "characters"@, nm, d.1);
                                    }
                                    let mut ch = store.characters[t].clone();
                                    ch.avatar_url = Some(rel);
                                    let ghost prevc = store.characters@;
                                    let ghost chv = ch.deep_view();
                                    store.characters.set(t, ch);
                                    touched = true;
                                    proof {
                                        assert(forall|j: int|
                                            0 <= j < prevc.len() && j != t
                                                ==> store.characters@[j] == prevc[j]);
                                        assert(store.characters.deep_view()[t as int] == chv);
                                        assert(character_externalized(
                                            pre.characters.deep_view()[t as int],
                                            store.characters.deep_view()[t as int],
                                        ));
                                        assert forall|i: int, j: int|
                                            0 <= i < j < store.characters.deep_view().len()
                                            implies <Character as Entity>::view_id(
                                            store.characters.deep_view()[i],
                                        ) != <Character as Entity>::view_id(
                                            store.characters.deep_view()[j],
                                        ) by {
                                            assert(store.characters.deep_view()[i].id
                                                == pre.characters.deep_view()[i].id);
                                            assert(store.characters.deep_view()[j].id
                                                == pre.characters.deep_view()[j].id);
                                        }
                                    }
                                },
                                Err(_) => {},
                            }
                        },
                        _ => {},
                    }
                },
                None => {},
            }
        }
        proof {
            if !touched && pre.characters.deep_view()[t as int].project_id == project_id@ {
                assert(character_externalized(
                    pre.characters.deep_view()[t as int],
                    store.characters.deep_view()[t as int],
                ));
            }
        }
        t += 1;
    }
    assert(pre.characters.deep_view().take(store.characters.len() as int) =~= pre.characters
        .deep_view());
    folder.images.len() - base
}

/// Externalize the location images of one project: the main image and
/// every gallery entry.
fn externalize_location_images(
    store: &mut Store,
    folder: &mut ProjectFolder,
    project_id: &str,
) -> (n: usize)
    requires
        old(store).wf(),
    ensures
        final(store).wf(),
        final(store).projects == old(store).projects,
        final(store).chapters == old(store).chapters,
        final(store).scenes == old(store).scenes,
        final(store).characters == old(store).characters,
        final(store).lore_items == old(store).lore_items,
        final(store).timeline_events == old(store).timeline_events,
        final(store).locations.deep_view().len() == old(store).locations.deep_view().len(),
        forall|i: int|
            0 <= i < old(store).locations.deep_view().len()
                && (#[trigger] old(store).locations.deep_view()[i]).project_id == project_id@
                ==> location_externalized(
                old(store).locations.deep_view()[i],
                final(store).locations.deep_view()[i],
            ),
        forall|i: int|
            0 <= i < old(store).locations.deep_view().len()
                && (#[trigger] old(store).locations.deep_view()[i]).project_id != project_id@
                ==> final(store).locations.deep_view()[i] == old(store).locations.deep_view()[i],
        folder_images_grown(*old(folder), *final(folder)),
        n == final(folder).images@.len() - old(folder).images@.len(),
        n == count_location_images(old(store).locations.deep_view(), project_id@),
{
    let ghost pre = *old(store);
    let ghost prefolder = *old(folder);
    let base = folder.images.len();
    let mut t: usize = 0;
    while t < store.locations.len()
        invariant
            pre == *old(store),
            prefolder == *old(folder),
            pre.wf(),
            store.wf(),
            t <= store.locations.len(),
            store.projects == pre.projects,
            store.chapters == pre.chapters,
            store.scenes == pre.scenes,
            store.characters == pre.characters,
            store.lore_items == pre.lore_items,
            store.timeline_events == pre.timeline_events,
            store.locations.len() == pre.locations.len(),
            store.locations.deep_view().len() == pre.locations.deep_view().len(),
            forall|j: int|
                0 <= j < t && (#[trigger] pre.locations.deep_view()[j]).project_id == project_id@
                    ==> location_externalized(
                    pre.locations.deep_view()[j],
                    store.locations.deep_view()[j],
                ),
            forall|j: int|
                0 <= j < t && (#[trigger] pre.locations.deep_view()[j]).project_id != project_id@
                    ==> store.locations.deep_view()[j] == pre.locations.deep_view()[j],
            forall|j: int|
                t <= j < pre.locations.len() ==> store.locations@[j] == pre.locations@[j],
            folder_images_grown(prefolder, *folder),
            base == prefolder.images@.len(),
            folder.images@.len() == prefolder.images@.len() + count_location_images(
                pre.locations.deep_view().take(t as int),
                project_id@,
            ),
        decreases store.locations.len() - t,
    {
        proof {
            assert(store.locations@[t as int] == pre.locations@[t as int]);
            assert(store.locations.deep_view()[t as int] == pre.locations.deep_view()[t as int]);
            assert(pre.locations.deep_view().take(t + 1).drop_last() =~= pre.locations.deep_view()
                .take(t as int));
            assert(pre.locations.deep_view().take(t + 1).last() == pre.locations.deep_view()[
                t as int]);
        }
        let ghost row_base = folder.images@.len();
        if crate::text::str_eq(store.locations[t].project_id.as_str(), project_id) {
            let loc = store.locations[t].clone();
            let ghost locv = pre.locations.deep_view()[t as int];
            proof {
                assert(loc.deep_view() == locv);
            }

            let mut new_image_url = clone_opt_string(&loc.image_url);
            let img = clone_opt_string(&loc.image_url);
            match img {
                Some(image) => {
                    match classify_image_value(image.as_str()) {
                        ImageKind::Base64(_) => {
                            match save_image_from_base64(folder, "locations", image.as_str()) {
                                Ok(rel) => {
                                    proof {
                                        let d = crate::images::spec_decode_image(image@)->0;
                                        let nm = choose|nm: Seq<char>|
                                            nm.len() == 36 && (forall|i: int|
                                                0 <= i < nm.len() ==> crate::images::is_uuid_char(
                                                    #[trigger] nm[i],
                                                )) && rel@ == "images/"@ + "locations"@ + "/"@
                                                + nm + seq!['.'] + d.1;
                                        lemma_images_prefix(rel@, "locations"@, nm, d.1);
                                    }
                                    new_image_url = Some(rel);
                                },
                                Err(_) => {},
                            }
                        },
                        _ => {},
                    }
                },
                None => {},
            }
            proof {
                assert(image_field_externalized(locv.image_url, new_image_url.deep_view()));
            }
            let ghost url_done = folder.images@.len();
            proof {
                assert(url_done == row_base + if needs_externalizing(locv.image_url) {
                    1int
                } else {
                    0int
                });
            }

            let mut new_gallery: Vec<crate::entities::GalleryItem> = Vec::new();
            let mut g: usize = 0;
            while g < loc.gallery.len()
                invariant
                    loc.gallery.deep_view() == locv.gallery,
                    loc.gallery.deep_view().len() == loc.gallery.len(),
                    g <= loc.gallery.len(),
                    new_gallery.len() == g,
                    forall|x: int|
                        0 <= x < g ==> gallery_item_externalized(
                            #[trigger] locv.gallery[x],
                            new_gallery.deep_view()[x],
                        ),
                    folder_images_grown(prefolder, *folder),
                    folder.images@.len() == url_done + count_gallery_images(
                        locv.gallery.take(g as int),
                    ),
                decreases loc.gallery.len() - g,
            {
                proof {
                    assert(locv.gallery.take(g + 1).drop_last() =~= locv.gallery.take(g as int));
                    assert(locv.gallery.take(g + 1).last() == locv.gallery[g as int]);
                }
                proof {
                    assert(loc.gallery.deep_view()[g as int] == loc.gallery@[g as int].deep_view());
                }
                let item = loc.gallery[g].clone();
                let ghost itemv = locv.gallery[g as int];
                proof {
                    assert(item.deep_view() == itemv);
                }
                let u = clone_opt_string(&item.url);
                let ghost prevg = new_gallery.deep_view();
                match u {
                    Some(url) => {
                        let mut replaced = false;
                        match classify_image_value(url.as_str()) {
                            ImageKind::Base64(_) => {
                                match save_image_from_base64(folder, "locations", url.as_str()) {
                                    Ok(rel) => {
                                        proof {
                                            let d = crate::images::spec_decode_image(url@)->0;
                                            let nm = choose|nm: Seq<char>|
                                                nm.len() == 36 && (forall|i: int|
                                                    0 <= i < nm.len()
                                                        ==> crate::images::is_uuid_char(
                                                        #[trigger] nm[i],
                                                    )) && rel@ == "images/"@ + "locations"@ + "/"@
                                                    + nm + seq!['.'] + d.1;
                                            lemma_images_prefix(rel@, "locations"@, nm, d.1);
                                        }
                                        let fresh = crate::entities::GalleryItem {
                                            url: Some(rel),
                                            extra: item.extra.clone(),
                                        };
                                        proof {
                                            assert(gallery_item_externalized(
                                                itemv,
                                                fresh.deep_view(),
                                            ));
                                        }
                                        new_gallery.push(fresh);
                                        replaced = true;
                                    },
                                    Err(_) => {},
                                }
                            },
                            _ => {},
                        }
                        if !replaced {
                            let kept = crate::entities::GalleryItem {
                                url: Some(url),
                                extra: item.extra,
                            };
                            proof {
                                assert(gallery_item_externalized(itemv, kept.deep_view()));
                            }
                            new_gallery.push(kept);
                        }
                    },
                    None => {
                        proof {
                            assert(gallery_item_externalized(itemv, item.deep_view()));
                        }
                        new_gallery.push(item);
                    },
                }
                proof {
                    assert forall|x: int| 0 <= x < g + 1 implies gallery_item_externalized(
                        #[trigger] locv.gallery[x],
                        new_gallery.deep_view()[x],
                    ) by {
                        if x < g {
                            assert(new_gallery.deep_view()[x] == prevg[x]);
                        }
                    }
                }
                g += 1;
            }
            proof {
                assert(locv.gallery.take(loc.gallery.len() as int) =~= locv.gallery);
            }

            let mut newloc = loc;
            newloc.image_url = new_image_url;
            newloc.gallery = new_gallery;
            let ghost prevc = store.locations@;
            let ghost newlocv = newloc.deep_view();
            proof {
                assert(location_externalized(locv, newlocv));
            }
            store.locations.set(t, newloc);
            proof {
                assert(forall|j: int|
                    0 <= j < prevc.len() && j != t ==> store.locations@[j] == prevc[j]);
                assert(store.locations.deep_view()[t as int] == newlocv);
                assert forall|i: int, j: int|
                    0 <= i < j < store.locations.deep_view().len() implies <Location as Entity>::view_id(
                    store.locations.deep_view()[i],
                ) != <Location as Entity>::view_id(store.locations.deep_view()[j]) by {
                    assert(store.locations.deep_view()[i].id == pre.locations.deep_view()[i].id);
                    assert(store.locations.deep_view()[j].id == pre.locations.deep_view()[j].id);
                }
            }
        } else {
        }
        t += 1;
    }
    assert(pre.locations.deep_view().take(store.locations.len() as int) =~= pre.locations
        .deep_view());
    folder.images.len() - base
}

/// Scene membership, and with it the scene count, is judged by chapter
/// ids and owners alone: two chapter snapshots that agree on those agree
/// on the count.
pub proof fn lemma_count_scene_images_chapters_eq(
    rows: Seq<<Scene as DeepView>::V>,
    c0: Seq<<Chapter as DeepView>::V>,
    c1: Seq<<Chapter as DeepView>::V>,
    pid: Seq<char>,
)
    requires
        c1.len() == c0.len(),
        forall|j: int|
            0 <= j < c0.len() ==> (#[trigger] c1[j]).id == c0[j].id && c1[j].project_id
                == c0[j].project_id,
    ensures
        count_scene_images(rows, c1, pid) == count_scene_images(rows, c0, pid),
    decreases rows.len(),
{
    if rows.len() > 0 {
        lemma_count_scene_images_chapters_eq(rows.drop_last(), c0, c1, pid);
        let sv = rows.last();
        if scene_in_project_chapters(c0, pid, sv) {
            let j = choose|j: int|
                0 <= j < c0.len() && (#[trigger] c0[j]).id == sv.chapter_id && c0[j].project_id
                    == pid;
            assert(c1[j].id == sv.chapter_id);
            assert(scene_in_project_chapters(c1, pid, sv));
        }
        if scene_in_project_chapters(c1, pid, sv) {
            let j = choose|j: int|
                0 <= j < c1.len() && (#[trigger] c1[j]).id == sv.chapter_id && c1[j].project_id
                    == pid;
            assert(c0[j].id == sv.chapter_id);
            assert(scene_in_project_chapters(c0, pid, sv));
        }
    }
}

/// Rewrite every inline-encoded image of one project into a file under
/// the project folder's `images/` tree, and point the store's rows at
/// the new relative paths: one image file per field that holds a
/// decodable inline value, and the returned count is exactly the number
/// of fields so rewritten. A payload that does not decode is left as it
/// was.
pub fn extract_base64_images_for_project(
    store: &mut Store,
    folder: &mut ProjectFolder,
    project_id: &str,
) -> (extracted: usize)
    requires
        old(store).wf(),
    ensures
        final(store).wf(),
        store_externalized(*old(store), *final(store), project_id@),
        folder_images_grown(*old(folder), *final(folder)),
        extracted == final(folder).images@.len() - old(folder).images@.len(),
        extracted == count_project_images(*old(store), project_id@),
{
    let base = folder.images.len();
    let ghost f0 = *old(folder);
    let ghost s0 = *old(store);
    let n1 = externalize_chapter_images(store, folder, project_id);
    let ghost f1 = *folder;
    let ghost s1 = *store;
    let n2 = externalize_scene_images(store, folder, project_id);
    let ghost f2 = *folder;
    let ghost s2 = *store;
    let n3 = externalize_character_images(store, folder, project_id);
    let ghost f3 = *folder;
    let ghost s3 = *store;
    let n4 = externalize_location_images(store, folder, project_id);
    proof {
        assert(folder_images_grown(f0, *folder)) by {
            assert(forall|j: int| 0 <= j < f0.images@.len() ==> folder.images@[j] == f0.images@[j])
                by {
                assert(forall|j: int| 0 <= j < f0.images@.len() ==> f1.images@[j] == f0.images@[j]);
                assert(forall|j: int| 0 <= j < f1.images@.len() ==> f2.images@[j] == f1.images@[j]);
                assert(forall|j: int| 0 <= j < f2.images@.len() ==> f3.images@[j] == f2.images@[j]);
            }
        }
        // Chapter ids and owners are preserved by externalization, so a
        // scene's membership is the same judged against either snapshot.
        assert forall|j: int| 0 <= j < s0.chapters.deep_view().len() implies #[trigger] s1.chapters.deep_view()[j].id
            == s0.chapters.deep_view()[j].id && s1.chapters.deep_view()[j].project_id
            == s0.chapters.deep_view()[j].project_id by {
            if s0.chapters.deep_view()[j].project_id == project_id@ {
                assert(chapter_externalized(
                    s0.chapters.deep_view()[j],
                    s1.chapters.deep_view()[j],
                ));
            } else {
                assert(s1.chapters.deep_view()[j] == s0.chapters.deep_view()[j]);
            }
        }
        assert forall|i: int| 0 <= i < s0.scenes.deep_view().len() implies
            scene_in_project_chapters(
            s1.chapters.deep_view(),
            project_id@,
            #[trigger] s0.scenes.deep_view()[i],
        ) == scene_in_project_chapters(
            s0.chapters.deep_view(),
            project_id@,
            s0.scenes.deep_view()[i],
        ) by {
            let sv = s0.scenes.deep_view()[i];
            if scene_in_project_chapters(s1.chapters.deep_view(), project_id@, sv) {
                let j = choose|j: int|
                    0 <= j < s1.chapters.deep_view().len()
                        && (#[trigger] s1.chapters.deep_view()[j]).id == sv.chapter_id
                        && s1.chapters.deep_view()[j].project_id == project_id@;
                assert(s0.chapters.deep_view()[j].id == sv.chapter_id);
                assert(scene_in_project_chapters(s0.chapters.deep_view(), project_id@, sv));
            }
            if scene_in_project_chapters(s0.chapters.deep_view(), project_id@, sv) {
                let j = choose|j: int|
                    0 <= j < s0.chapters.deep_view().len()
                        && (#[trigger] s0.chapters.deep_view()[j]).id == sv.chapter_id
                        && s0.chapters.deep_view()[j].project_id == project_id@;
                assert(s1.chapters.deep_view()[j].id == sv.chapter_id);
                assert(scene_in_project_chapters(s1.chapters.deep_view(), project_id@, sv));
            }
        }
        assert(s1.scenes == s0.scenes);
        // The four phase counts add up to the project's field count.
        lemma_count_scene_images_chapters_eq(
            s0.scenes.deep_view(),
            s0.chapters.deep_view(),
            s1.chapters.deep_view(),
            project_id@,
        );
        assert(n2 == count_scene_images(
            s0.scenes.deep_view(),
            s0.chapters.deep_view(),
            project_id@,
        ));
        assert(s2.characters == s0.characters);
        assert(n3 == count_character_images(s0.characters.deep_view(), project_id@));
        assert(s3.locations == s0.locations);
        assert(n4 == count_location_images(s0.locations.deep_view(), project_id@));
        assert(folder.images@.len() - f0.images@.len() == count_project_images(s0, project_id@));
    }
    folder.images.len() - base
}

/// Externalization composes: a field taken through two passes still
/// stands in the relation to the value it started from.
pub proof fn lemma_image_field_externalized_trans(
    a: Option<Seq<char>>,
    b: Option<Seq<char>>,
    c: Option<Seq<char>>,
)
    requires
        image_field_externalized(a, b),
        image_field_externalized(b, c),
    ensures
        image_field_externalized(a, c),
{
}

pub proof fn lemma_chapter_externalized_trans(
    a: <Chapter as DeepView>::V,
    b: <Chapter as DeepView>::V,
    c: <Chapter as DeepView>::V,
)
    requires
        chapter_externalized(a, b) || b == a,
        chapter_externalized(b, c) || c == b,
    ensures
        chapter_externalized(a, c) || c == a,
{
    if chapter_externalized(a, b) && chapter_externalized(b, c) {
        lemma_image_field_externalized_trans(a.image, b.image, c.image);
    }
}

pub proof fn lemma_scene_externalized_trans(
    a: <Scene as DeepView>::V,
    b: <Scene as DeepView>::V,
    c: <Scene as DeepView>::V,
)
    requires
        scene_externalized(a, b) || b == a,
        scene_externalized(b, c) || c == b,
    ensures
        scene_externalized(a, c) || c == a,
{
    if scene_externalized(a, b) && scene_externalized(b, c) {
        lemma_image_field_externalized_trans(a.image, b.image, c.image);
    }
}

pub proof fn lemma_character_externalized_trans(
    a: <Character as DeepView>::V,
    b: <Character as DeepView>::V,
    c: <Character as DeepView>::V,
)
    requires
        character_externalized(a, b) || b == a,
        character_externalized(b, c) || c == b,
    ensures
        character_externalized(a, c) || c == a,
{
    if character_externalized(a, b) && character_externalized(b, c) {
        lemma_image_field_externalized_trans(a.avatar_url, b.avatar_url, c.avatar_url);
    }
}

pub proof fn lemma_location_externalized_trans(
    a: <Location as DeepView>::V,
    b: <Location as DeepView>::V,
    c: <Location as DeepView>::V,
)
    requires
        location_externalized(a, b) || b == a,
        location_externalized(b, c) || c == b,
    ensures
        location_externalized(a, c) || c == a,
{
    if location_externalized(a, b) && location_externalized(b, c) {
        lemma_image_field_externalized_trans(a.image_url, b.image_url, c.image_url);
        assert forall|k: int| 0 <= k < a.gallery.len() implies gallery_item_externalized(
            #[trigger] a.gallery[k],
            c.gallery[k],
        ) by {
            lemma_image_field_externalized_trans(
                a.gallery[k].url,
                b.gallery[k].url,
                c.gallery[k].url,
            );
        }
    }
}

/// Every row of the store stands in its kind's externalization relation
/// to where it started, whatever mix of projects was migrated.
pub open spec fn store_rows_externalized(pre: Store, post: Store) -> bool {
    &&& post.chapters.deep_view().len() == pre.chapters.deep_view().len()
    &&& forall|i: int|
        0 <= i < pre.chapters.deep_view().len() ==> chapter_externalized(
            #[trigger] pre.chapters.deep_view()[i],
            post.chapters.deep_view()[i],
        ) || post.chapters.deep_view()[i] == pre.chapters.deep_view()[i]
    &&& post.scenes.deep_view().len() == pre.scenes.deep_view().len()
    &&& forall|i: int|
        0 <= i < pre.scenes.deep_view().len() ==> scene_externalized(
            #[trigger] pre.scenes.deep_view()[i],
            post.scenes.deep_view()[i],
        ) || post.scenes.deep_view()[i] == pre.scenes.deep_view()[i]
    &&& post.characters.deep_view().len() == pre.characters.deep_view().len()
    &&& forall|i: int|
        0 <= i < pre.characters.deep_view().len() ==> character_externalized(
            #[trigger] pre.characters.deep_view()[i],
            post.characters.deep_view()[i],
        ) || post.characters.deep_view()[i] == pre.characters.deep_view()[i]
    &&& post.locations.deep_view().len() == pre.locations.deep_view().len()
    &&& forall|i: int|
        0 <= i < pre.locations.deep_view().len() ==> location_externalized(
            #[trigger] pre.locations.deep_view()[i],
            post.locations.deep_view()[i],
        ) || post.locations.deep_view()[i] == pre.locations.deep_view()[i]
}

pub proof fn lemma_store_rows_externalized_trans(a: Store, b: Store, c: Store)
    requires
        store_rows_externalized(a, b),
        store_rows_externalized(b, c),
    ensures
        store_rows_externalized(a, c),
{
    assert forall|i: int| 0 <= i < a.chapters.deep_view().len() implies chapter_externalized(
        #[trigger] a.chapters.deep_view()[i],
        c.chapters.deep_view()[i],
    ) || c.chapters.deep_view()[i] == a.chapters.deep_view()[i] by {
        lemma_chapter_externalized_trans(
            a.chapters.deep_view()[i],
            b.chapters.deep_view()[i],
            c.chapters.deep_view()[i],
        );
    }
    assert forall|i: int| 0 <= i < a.scenes.deep_view().len() implies scene_externalized(
        #[trigger] a.scenes.deep_view()[i],
        c.scenes.deep_view()[i],
    ) || c.scenes.deep_view()[i] == a.scenes.deep_view()[i] by {
        lemma_scene_externalized_trans(
            a.scenes.deep_view()[i],
            b.scenes.deep_view()[i],
            c.scenes.deep_view()[i],
        );
    }
    assert forall|i: int| 0 <= i < a.characters.deep_view().len() implies character_externalized(
        #[trigger] a.characters.deep_view()[i],
        c.characters.deep_view()[i],
    ) || c.characters.deep_view()[i] == a.characters.deep_view()[i] by {
        lemma_character_externalized_trans(
            a.characters.deep_view()[i],
            b.characters.deep_view()[i],
            c.characters.deep_view()[i],
        );
    }
    assert forall|i: int| 0 <= i < a.locations.deep_view().len() implies location_externalized(
        #[trigger] a.locations.deep_view()[i],
        c.locations.deep_view()[i],
    ) || c.locations.deep_view()[i] == a.locations.deep_view()[i] by {
        lemma_location_externalized_trans(
            a.locations.deep_view()[i],
            b.locations.deep_view()[i],
            c.locations.deep_view()[i],
        );
    }
}

pub proof fn lemma_store_rows_externalized_refl(a: Store)
    ensures
        store_rows_externalized(a, a),
{
}

/// One project's externalization is, row for row, an externalization or
/// an untouched row.
pub proof fn lemma_store_externalized_rows(pre: Store, post: Store, pid: Seq<char>)
    requires
        store_externalized(pre, post, pid),
    ensures
        store_rows_externalized(pre, post),
{
}

/// How many of the projects have no folder claiming their id yet.
pub open spec fn count_unclaimed(
    projects: Seq<<Project as DeepView>::V>,
    folders: Seq<ProjectFolder>,
) -> int
    decreases projects.len(),
{
    if projects.len() == 0 {
        0
    } else {
        count_unclaimed(projects.drop_last(), folders) + if has_claim(
            folders,
            projects.last().id,
        ) {
            0int
        } else {
            1int
        }
    }
}

/// Migrate every project the store knows and the tree does not: snapshot
/// it onto the tree, then externalize its inline images. Projects that
/// already have a folder are passed over; afterwards every project has
/// one. Returns how many projects were migrated.
pub fn migrate_all_projects(
    store: &mut Store,
    folders: &mut Vec<ProjectFolder>,
    now: &str,
) -> (migrated: usize)
    requires
        old(store).wf(),
        folders_wf(old(folders)@),
    ensures
        final(store).wf(),
        folders_wf(final(folders)@),
        final(store).projects == old(store).projects,
        final(store).lore_items == old(store).lore_items,
        final(store).timeline_events == old(store).timeline_events,
        forall|i: int|
            0 <= i < old(store).projects.deep_view().len() ==> has_claim(
                final(folders)@,
                (#[trigger] old(store).projects.deep_view()[i]).id,
            ),
        migrated == count_unclaimed(old(store).projects.deep_view(), old(folders)@),
        store_rows_externalized(*old(store), *final(store)),
{
    proof {
        lemma_store_rows_externalized_refl(*old(store));
    }
    let ghost origf = old(folders)@;
    let projects = get_all_projects(store);
    let ghost pdv = projects.deep_view();
    let mut migrated: usize = 0;
    let mut k: usize = 0;
    while k < projects.len()
        invariant
            pdv == projects.deep_view(),
            pdv == old(store).projects.deep_view(),
            pdv.len() == projects.len(),
            crate::store::rows_unique_ids::<Project>(pdv),
            origf == old(folders)@,
            old(store).wf(),
            store.wf(),
            k <= projects.len(),
            migrated <= k,
            store.projects == old(store).projects,
            store.lore_items == old(store).lore_items,
            store.timeline_events == old(store).timeline_events,
            folders_wf(folders@),
            forall|id: Seq<char>| has_claim(origf, id) ==> has_claim(folders@, id),
            forall|id: Seq<char>|
                has_claim(folders@, id) ==> has_claim(origf, id) || (exists|j: int|
                    0 <= j < k && (#[trigger] pdv[j]).id == id),
            forall|j: int| 0 <= j < k ==> has_claim(folders@, (#[trigger] pdv[j]).id),
            migrated == count_unclaimed(pdv.take(k as int), origf),
            store_rows_externalized(*old(store), *store),
        decreases projects.len() - k,
    {
        let ghost pid = pdv[k as int].id;
        proof {
            assert(projects@[k as int].deep_view() == pdv[k as int]);
            assert(pdv.take(k + 1).drop_last() =~= pdv.take(k as int));
            assert(pdv.take(k + 1).last() == pdv[k as int]);
        }
        match find_project_folder(folders, projects[k].id.as_str()) {
            Some(i) => {
                // This project already has a folder: its id was claimed
                // before the migration began.
                proof {
                    assert(folder_claims(folders@[i as int], pid));
                    assert(has_claim(folders@, pid));
                    if !has_claim(origf, pid) {
                        let j = choose|j: int| 0 <= j < k && (#[trigger] pdv[j]).id == pid;
                        assert(<Project as Entity>::view_id(pdv[j]) == <Project as Entity>::view_id(
                            pdv[k as int],
                        ));
                        assert(false);
                    }
                }
            },
            None => {
                proof {
                    if has_claim(folders@, pid) {
                        let j = choose|j: int|
                            0 <= j < folders@.len() && folder_claims(#[trigger] folders@[j], pid);
                        assert(!folder_claims(folders@[j], pid));
                    }
                    assert(!has_claim(origf, pid));
                    assert(has_row::<Project>(store.projects.deep_view(), pid)) by {
                        assert(<Project as Entity>::view_id(
                            store.projects.deep_view()[k as int],
                        ) == pid);
                    }
                }
                let ghost before_sync = folders@;
                let r = sync_sql_to_filesystem(store, folders, projects[k].id.as_str(), now);
                proof {
                    assert(r is Ok);
                    crate::sync::lemma_store_to_tree_claims(
                        *store,
                        before_sync,
                        folders@,
                        pid,
                        now@,
                    );
                }
                migrated += 1;
                match find_project_folder(folders, projects[k].id.as_str()) {
                    Some(i) => {
                        let ghost before_ext = folders@;
                        let ghost mid_store = *store;
                        let mut f = folders.remove(i);
                        let ghost fpre = f;
                        let _ = extract_base64_images_for_project(store, &mut f, projects[k].id.as_str());
                        proof {
                            lemma_store_externalized_rows(
                                mid_store,
                                *store,
                                pdv[k as int].id,
                            );
                            lemma_store_rows_externalized_trans(*old(store), mid_store, *store);
                            assert(f.manifest == fpre.manifest);
                            assert(folder_wf(f)) by {
                                assert(f.chapters == fpre.chapters);
                                assert(f.scenes == fpre.scenes);
                                assert(f.characters == fpre.characters);
                                assert(f.locations == fpre.locations);
                                assert(f.lore == fpre.lore);
                                assert(f.timeline == fpre.timeline);
                                assert(folder_wf(before_ext[i as int]));
                            }
                        }
                        let ghost fv = f;
                        folders.insert(i, f);
                        proof {
                            assert(folders@ =~= before_ext.update(i as int, folders@[i as int]));
                            assert(folders@[i as int] == fv);
                            assert(fv.manifest == before_ext[i as int].manifest);
                            assert forall|id: Seq<char>| has_claim(folders@, id) <==> has_claim(
                                before_ext,
                                id,
                            ) by {
                                if has_claim(folders@, id) {
                                    let j = choose|j: int|
                                        0 <= j < folders@.len() && folder_claims(
                                            #[trigger] folders@[j],
                                            id,
                                        );
                                    if j == i {
                                        assert(folder_claims(before_ext[j], id));
                                    }
                                    assert(has_claim(before_ext, id));
                                }
                                if has_claim(before_ext, id) {
                                    let j = choose|j: int|
                                        0 <= j < before_ext.len() && folder_claims(
                                            #[trigger] before_ext[j],
                                            id,
                                        );
                                    if j == i {
                                        assert(folders@[j] == fv);
                                        assert(fv.manifest == before_ext[j].manifest);
                                        assert(before_ext[j].manifest is Some);
                                        assert(fv.manifest is Some);
                                        assert(fv.manifest->0.project_id@ == id);
                                        assert(folder_claims(folders@[j], id));
                                    } else {
                                        assert(folders@[j] == before_ext[j]);
                                        assert(folder_claims(folders@[j], id));
                                    }
                                    assert(has_claim(folders@, id));
                                }
                            }
                        }
                    },
                    None => {
                        // A folder claiming the id was just written.
                        proof {
                            assert(has_claim(folders@, pid));
                            let j = choose|j: int|
                                0 <= j < folders@.len() && folder_claims(
                                    #[trigger] folders@[j],
                                    pid,
                                );
                            assert(!folder_claims(folders@[j], pid));
                        }
                    },
                }
            },
        }
        proof {
            assert forall|id: Seq<char>| has_claim(folders@, id) implies has_claim(origf, id) || (
            exists|j: int| 0 <= j < k + 1 && (#[trigger] pdv[j]).id == id) by {
                if !has_claim(origf, id) && id != pid {
                    let j = choose|j: int| 0 <= j < k && (#[trigger] pdv[j]).id == id;
                } else if id == pid {
                    assert(pdv[k as int].id == id);
                }
            }
        }
        k += 1;
    }
    proof {
        assert(pdv.take(projects.len() as int) =~= pdv);
    }
    migrated
}

} // verus!
