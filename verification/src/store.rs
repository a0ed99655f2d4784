//! The in-memory relational store: one row collection per entity kind,
//! rows identified by their `id` field, typed CRUD over each kind.
//!
//! The durable database behind the desktop application is plumbing around
//! this model; the sync and migration logic is specified and verified
//! against it.

use vstd::prelude::*;

use crate::entities::Chapter;
use crate::entities::Character;
use crate::entities::Entity;
use crate::entities::Location;
use crate::entities::LoreItem;
use crate::entities::Project;
use crate::entities::Scene;
use crate::entities::TimelineEvent;

verus! {

/// No two rows of the collection carry the same id.
pub open spec fn rows_unique_ids<T: Entity>(rows: Seq<T::V>) -> bool {
    forall|i: int, j: int|
        0 <= i < j < rows.len() ==> T::view_id(rows[i]) != T::view_id(rows[j])
}

/// Some row of the collection carries this id.
pub open spec fn has_row<T: Entity>(rows: Seq<T::V>, id: Seq<char>) -> bool {
    exists|i: int| 0 <= i < rows.len() && T::view_id(rows[i]) == id
}

/// The first row carrying this id, if any.
pub open spec fn find_row<T: Entity>(rows: Seq<T::V>, id: Seq<char>) -> Option<T::V>
    decreases rows.len(),
{
    if rows.len() == 0 {
        None
    } else if T::view_id(rows[0]) == id {
        Some(rows[0])
    } else {
        find_row::<T>(rows.skip(1), id)
    }
}

/// Every row carrying the same id as `v` replaced by `v`; rows with other
/// ids untouched. With unique ids this is the effect of an update statement.
pub open spec fn row_update<T: Entity>(rows: Seq<T::V>, v: T::V) -> Seq<T::V> {
    if has_row::<T>(rows, T::view_id(v)) {
        rows.map(|i: int, r: T::V| if T::view_id(r) == T::view_id(v) { v } else { r })
    } else {
        rows
    }
}

/// Update if a row with the id exists, append otherwise.
pub open spec fn row_upsert<T: Entity>(rows: Seq<T::V>, v: T::V) -> Seq<T::V> {
    if has_row::<T>(rows, T::view_id(v)) {
        row_update::<T>(rows, v)
    } else {
        rows.push(v)
    }
}

/// `row_upsert` folded over a batch, first item first.
pub open spec fn row_upsert_all<T: Entity>(rows: Seq<T::V>, items: Seq<T::V>) -> Seq<T::V>
    decreases items.len(),
{
    if items.len() == 0 {
        rows
    } else {
        row_upsert_all::<T>(row_upsert::<T>(rows, items[0]), items.skip(1))
    }
}

pub proof fn lemma_row_upsert_all_push<T: Entity>(rows: Seq<T::V>, items: Seq<T::V>, v: T::V)
    ensures
        row_upsert_all::<T>(rows, items.push(v)) == row_upsert::<T>(
            row_upsert_all::<T>(rows, items),
            v,
        ),
    decreases items.len(),
{
    let single = items.push(v);
    if items.len() == 0 {
        assert(single[0] == v);
        assert(single.skip(1) =~= Seq::<T::V>::empty());
        assert(row_upsert_all::<T>(rows, single) == row_upsert_all::<T>(
            row_upsert::<T>(rows, v),
            single.skip(1),
        ));
        assert(row_upsert_all::<T>(row_upsert::<T>(rows, v), Seq::<T::V>::empty())
            == row_upsert::<T>(rows, v));
        assert(row_upsert_all::<T>(rows, items) == rows);
    } else {
        assert(single[0] == items[0]);
        assert(single.skip(1) =~= items.skip(1).push(v));
        assert(row_upsert_all::<T>(rows, single) == row_upsert_all::<T>(
            row_upsert::<T>(rows, items[0]),
            items.skip(1).push(v),
        ));
        lemma_row_upsert_all_push::<T>(row_upsert::<T>(rows, items[0]), items.skip(1), v);
    }
}

pub proof fn lemma_find_row_at<T: Entity>(rows: Seq<T::V>, id: Seq<char>, i: int)
    requires
        0 <= i < rows.len(),
        T::view_id(rows[i]) == id,
        forall|j: int| 0 <= j < i ==> T::view_id(rows[j]) != id,
    ensures
        find_row::<T>(rows, id) == Some(rows[i]),
    decreases i,
{
    if i == 0 {
    } else {
        assert(T::view_id(rows[0]) != id);
        assert(rows.skip(1)[i - 1] == rows[i]);
        assert forall|j: int| 0 <= j < i - 1 implies T::view_id(rows.skip(1)[j]) != id by {
            assert(rows.skip(1)[j] == rows[j + 1]);
        }
        lemma_find_row_at::<T>(rows.skip(1), id, i - 1);
    }
}

pub proof fn lemma_find_row_none<T: Entity>(rows: Seq<T::V>, id: Seq<char>)
    requires
        !has_row::<T>(rows, id),
    ensures
        find_row::<T>(rows, id) is None,
    decreases rows.len(),
{
    if rows.len() == 0 {
    } else {
        assert(T::view_id(rows[0]) != id);
        assert(!has_row::<T>(rows.skip(1), id)) by {
            if has_row::<T>(rows.skip(1), id) {
                let j = choose|j: int|
                    0 <= j < rows.skip(1).len() && T::view_id(rows.skip(1)[j]) == id;
                assert(rows.skip(1)[j] == rows[j + 1]);
            }
        }
        lemma_find_row_none::<T>(rows.skip(1), id);
    }
}

pub proof fn lemma_find_row_props<T: Entity>(rows: Seq<T::V>, id: Seq<char>)
    ensures
        find_row::<T>(rows, id) is Some <==> has_row::<T>(rows, id),
        find_row::<T>(rows, id) matches Some(v) ==> T::view_id(v) == id && exists|j: int|
            0 <= j < rows.len() && rows[j] == v,
    decreases rows.len(),
{
    if rows.len() == 0 {
    } else if T::view_id(rows[0]) == id {
    } else {
        lemma_find_row_props::<T>(rows.skip(1), id);
        assert(forall|j: int| 0 <= j < rows.skip(1).len() ==> rows.skip(1)[j] == rows[j + 1]);
        if has_row::<T>(rows, id) {
            let j = choose|j: int| 0 <= j < rows.len() && T::view_id(rows[j]) == id;
            assert(rows.skip(1)[j - 1] == rows[j]);
            assert(has_row::<T>(rows.skip(1), id));
        }
        if has_row::<T>(rows.skip(1), id) {
            let j = choose|j: int|
                0 <= j < rows.skip(1).len() && T::view_id(rows.skip(1)[j]) == id;
            assert(rows[j + 1] == rows.skip(1)[j]);
        }
    }
}

/// Everything a filter keeps was in the sequence.
pub proof fn lemma_filter_subset<A>(s: Seq<A>, pred: spec_fn(A) -> bool)
    ensures
        forall|x: A| #[trigger] s.filter(pred).contains(x) ==> s.contains(x),
    decreases s.len(),
{
    reveal(Seq::filter);
    if s.len() > 0 {
        lemma_filter_subset(s.drop_last(), pred);
        assert forall|x: A| #[trigger] s.filter(pred).contains(x) implies s.contains(x) by {
            if s.drop_last().filter(pred).contains(x) {
                assert(s.drop_last().contains(x));
                let j = choose|j: int| 0 <= j < s.drop_last().len() && s.drop_last()[j] == x;
                assert(s[j] == x);
            } else {
                assert(x == s.last());
            }
        }
    }
}

/// Filtering rows with unique ids keeps the ids unique.
pub proof fn lemma_filter_unique_ids<T: Entity>(rows: Seq<T::V>, pred: spec_fn(T::V) -> bool)
    requires
        rows_unique_ids::<T>(rows),
    ensures
        rows_unique_ids::<T>(rows.filter(pred)),
    decreases rows.len(),
{
    reveal(Seq::filter);
    if rows.len() > 0 {
        assert(rows_unique_ids::<T>(rows.drop_last()));
        lemma_filter_unique_ids::<T>(rows.drop_last(), pred);
        let f = rows.drop_last().filter(pred);
        if pred(rows.last()) {
            lemma_filter_subset(rows.drop_last(), pred);
            assert forall|i: int, j: int|
                0 <= i < j < f.push(rows.last()).len() implies T::view_id(
                f.push(rows.last())[i],
            ) != T::view_id(f.push(rows.last())[j]) by {
                if j == f.len() {
                    assert(f.contains(f[i]));
                    assert(rows.drop_last().contains(f[i]));
                    let k = choose|k: int|
                        0 <= k < rows.drop_last().len() && rows.drop_last()[k] == f[i];
                    assert(rows[k] == f[i]);
                    assert(rows.last() == rows[rows.len() - 1]);
                    assert(T::view_id(rows[k]) != T::view_id(rows[rows.len() - 1]));
                }
            }
        }
    }
}

/// Upserting a batch into rows that hold none of its ids appends the
/// batch: the store or folder that starts empty ends with exactly the
/// batch, in order.
pub proof fn lemma_row_upsert_all_fresh<T: Entity>(rows: Seq<T::V>, items: Seq<T::V>)
    requires
        rows_unique_ids::<T>(rows + items),
    ensures
        row_upsert_all::<T>(rows, items) == rows + items,
    decreases items.len(),
{
    if items.len() == 0 {
        assert(rows + items =~= rows);
    } else {
        let v = items[0];
        assert((rows + items)[rows.len() as int] == v);
        assert(!has_row::<T>(rows, T::view_id(v))) by {
            if has_row::<T>(rows, T::view_id(v)) {
                let j = choose|j: int|
                    0 <= j < rows.len() && T::view_id(rows[j]) == T::view_id(v);
                assert((rows + items)[j] == rows[j]);
            }
        }
        assert(row_upsert::<T>(rows, v) == rows.push(v));
        assert(rows.push(v) + items.skip(1) =~= rows + items);
        assert(rows_unique_ids::<T>(rows.push(v) + items.skip(1)));
        lemma_row_upsert_all_fresh::<T>(rows.push(v), items.skip(1));
        assert(row_upsert_all::<T>(rows, items) == row_upsert_all::<T>(
            rows.push(v),
            items.skip(1),
        ));
    }
}

/// Index of the first row whose id is `id`.
pub fn row_index_of<T: Entity>(rows: &Vec<T>, id: &str) -> (r: Option<usize>)
    ensures
        match r {
            Some(i) => 0 <= i < rows.deep_view().len() && T::view_id(rows.deep_view()[i as int])
                == id@ && (forall|j: int|
                0 <= j < i ==> T::view_id(rows.deep_view()[j]) != id@),
            None => !has_row::<T>(rows.deep_view(), id@),
        },
{
    let mut i: usize = 0;
    while i < rows.len()
        invariant
            i <= rows.len(),
            rows.deep_view().len() == rows.len(),
            forall|j: int| 0 <= j < i ==> T::view_id(rows.deep_view()[j]) != id@,
        decreases rows.len() - i,
    {
        if crate::text::str_eq(rows[i].entity_id().as_str(), id) {
            return Some(i);
        }
        i += 1;
    }
    None
}

/// Replace the first row carrying the item's id, if any; report whether one was found.
pub fn update_row<T: Entity>(rows: &mut Vec<T>, item: &T) -> (found: bool)
    requires
        rows_unique_ids::<T>(old(rows).deep_view()),
    ensures
        final(rows).deep_view() == row_update::<T>(old(rows).deep_view(), item.deep_view()),
        found == has_row::<T>(old(rows).deep_view(), T::view_id(item.deep_view())),
        rows_unique_ids::<T>(final(rows).deep_view()),
{
    let ghost orig = rows.deep_view();
    let ghost vid = T::view_id(item.deep_view());
    match row_index_of::<T>(rows, item.entity_id().as_str()) {
        Some(i) => {
            rows.set(i, item.clone_entity());
            proof {
                let upd = orig.map(
                    |k: int, r: T::V|
                        if T::view_id(r) == vid {
                            item.deep_view()
                        } else {
                            r
                        },
                );
                assert forall|k: int| 0 <= k < orig.len() implies final(rows).deep_view()[k]
                    == upd[k] by {
                    if k != i {
                        assert(T::view_id(orig[k]) != vid);
                    }
                }
                assert(final(rows).deep_view() =~= upd);
            }
            true
        },
        None => {
            proof {
                if has_row::<T>(orig, vid) {
                    assert(false);
                }
            }
            false
        },
    }
}

/// Update the row carrying the item's id, or append the item as a new row.
pub fn upsert_row<T: Entity>(rows: &mut Vec<T>, item: &T)
    requires
        rows_unique_ids::<T>(old(rows).deep_view()),
    ensures
        final(rows).deep_view() == row_upsert::<T>(old(rows).deep_view(), item.deep_view()),
        rows_unique_ids::<T>(final(rows).deep_view()),
{
    let found = update_row::<T>(rows, item);
    if !found {
        rows.push(item.clone_entity());
        assert(final(rows).deep_view() =~= old(rows).deep_view().push(item.deep_view()));
    }
}

/// Upsert a whole batch, first item first.
pub fn upsert_rows<T: Entity>(rows: &mut Vec<T>, items: &Vec<T>)
    requires
        rows_unique_ids::<T>(old(rows).deep_view()),
    ensures
        final(rows).deep_view() == row_upsert_all::<T>(old(rows).deep_view(), items.deep_view()),
        rows_unique_ids::<T>(final(rows).deep_view()),
{
    let ghost orig = old(rows).deep_view();
    let ghost all = items.deep_view();
    let mut i: usize = 0;
    while i < items.len()
        invariant
            i <= items.len(),
            all == items.deep_view(),
            all.len() == items.len(),
            rows.deep_view() == row_upsert_all::<T>(orig, all.take(i as int)),
            rows_unique_ids::<T>(rows.deep_view()),
        decreases items.len() - i,
    {
        proof {
            assert(all.take(i + 1) =~= all.take(i as int).push(all[i as int]));
            lemma_row_upsert_all_push::<T>(orig, all.take(i as int), all[i as int]);
        }
        upsert_row::<T>(rows, &items[i]);
        i += 1;
    }
    assert(all.take(items.len() as int) =~= all);
}

/// The relational store as a value: every row collection of the database.
pub struct Store {
    pub projects: Vec<Project>,
    pub chapters: Vec<Chapter>,
    pub scenes: Vec<Scene>,
    pub characters: Vec<Character>,
    pub locations: Vec<Location>,
    pub lore_items: Vec<LoreItem>,
    pub timeline_events: Vec<TimelineEvent>,
}

impl Store {
    /// Ids are primary keys: unique within each row collection.
    pub open spec fn wf(&self) -> bool {
        &&& rows_unique_ids::<Project>(self.projects.deep_view())
        &&& rows_unique_ids::<Chapter>(self.chapters.deep_view())
        &&& rows_unique_ids::<Scene>(self.scenes.deep_view())
        &&& rows_unique_ids::<Character>(self.characters.deep_view())
        &&& rows_unique_ids::<Location>(self.locations.deep_view())
        &&& rows_unique_ids::<LoreItem>(self.lore_items.deep_view())
        &&& rows_unique_ids::<TimelineEvent>(self.timeline_events.deep_view())
    }

    /// An empty store.
    pub fn new() -> (r: Store)
        ensures
            r.wf(),
            r.projects.deep_view() == Seq::<<Project as DeepView>::V>::empty(),
            r.chapters.deep_view() == Seq::<<Chapter as DeepView>::V>::empty(),
            r.scenes.deep_view() == Seq::<<Scene as DeepView>::V>::empty(),
            r.characters.deep_view() == Seq::<<Character as DeepView>::V>::empty(),
            r.locations.deep_view() == Seq::<<Location as DeepView>::V>::empty(),
            r.lore_items.deep_view() == Seq::<<LoreItem as DeepView>::V>::empty(),
            r.timeline_events.deep_view() == Seq::<<TimelineEvent as DeepView>::V>::empty(),
    {
        let r = Store {
            projects: Vec::new(),
            chapters: Vec::new(),
            scenes: Vec::new(),
            characters: Vec::new(),
            locations: Vec::new(),
            lore_items: Vec::new(),
            timeline_events: Vec::new(),
        };
        assert(r.projects.deep_view() =~= Seq::<<Project as DeepView>::V>::empty());
        assert(r.chapters.deep_view() =~= Seq::<<Chapter as DeepView>::V>::empty());
        assert(r.scenes.deep_view() =~= Seq::<<Scene as DeepView>::V>::empty());
        assert(r.characters.deep_view() =~= Seq::<<Character as DeepView>::V>::empty());
        assert(r.locations.deep_view() =~= Seq::<<Location as DeepView>::V>::empty());
        assert(r.lore_items.deep_view() =~= Seq::<<LoreItem as DeepView>::V>::empty());
        assert(r.timeline_events.deep_view() =~= Seq::<<TimelineEvent as DeepView>::V>::empty());
        r
    }
}

/// The project with this id, if the store holds one.
pub fn get_project(store: &Store, id: &str) -> (r: Option<Project>)
    ensures
        match r {
            Some(p) => find_row::<Project>(store.projects.deep_view(), id@) == Some(p.deep_view()),
            None => !has_row::<Project>(store.projects.deep_view(), id@),
        },
        r is Some <==> has_row::<Project>(store.projects.deep_view(), id@),
{
    match row_index_of::<Project>(&store.projects, id) {
        Some(i) => {
            proof {
                lemma_find_row_at::<Project>(store.projects.deep_view(), id@, i as int);
            }
            Some(store.projects[i].clone())
        },
        None => None,
    }
}

/// Every project of the store, in row order.
pub fn get_all_projects(store: &Store) -> (r: Vec<Project>)
    ensures
        r.deep_view() == store.projects.deep_view(),
{
    let mut r: Vec<Project> = Vec::new();
    let mut i: usize = 0;
    while i < store.projects.len()
        invariant
            i <= store.projects.len(),
            r.len() == i,
            forall|j: int| 0 <= j < i ==> r@[j].deep_view() == store.projects.deep_view()[j],
        decreases store.projects.len() - i,
    {
        let p = store.projects[i].clone();
        assert(p.deep_view() == store.projects.deep_view()[i as int]);
        let ghost prev = r@;
        r.push(p);
        proof {
            assert forall|j: int| 0 <= j < i + 1 implies r@[j].deep_view()
                == store.projects.deep_view()[j] by {
                if j < i {
                    assert(r@[j] == prev[j]);
                }
            }
        }
        i += 1;
    }
    assert(r.deep_view() =~= store.projects.deep_view());
    r
}

pub proof fn lemma_filter_push<A>(s: Seq<A>, e: A, pred: spec_fn(A) -> bool)
    ensures
        s.push(e).filter(pred) == if pred(e) {
            s.filter(pred).push(e)
        } else {
            s.filter(pred)
        },
{
    reveal(Seq::filter);
    assert(s.push(e).drop_last() =~= s);
    assert(s.push(e).last() == e);
}

/// Append the item as a new row; an id already present is refused, as a
/// primary-key constraint would refuse it.
pub fn insert_row<T: Entity>(rows: &mut Vec<T>, item: &T) -> (r: Result<(), String>)
    requires
        rows_unique_ids::<T>(old(rows).deep_view()),
    ensures
        match r {
            Ok(_) => !has_row::<T>(old(rows).deep_view(), T::view_id(item.deep_view()))
                && final(rows).deep_view() == old(rows).deep_view().push(item.deep_view()),
            Err(_) => has_row::<T>(old(rows).deep_view(), T::view_id(item.deep_view()))
                && *final(rows) == *old(rows),
        },
        rows_unique_ids::<T>(final(rows).deep_view()),
{
    match row_index_of::<T>(rows, item.entity_id().as_str()) {
        Some(_) => Err(String::from_str("a row with this id already exists")),
        None => {
            rows.push(item.clone_entity());
            assert(final(rows).deep_view() =~= old(rows).deep_view().push(item.deep_view()));
            Ok(())
        },
    }
}

pub open spec fn unchanged_but_projects(pre: Store, post: Store) -> bool {
    &&& post.chapters == pre.chapters
    &&& post.scenes == pre.scenes
    &&& post.characters == pre.characters
    &&& post.locations == pre.locations
    &&& post.lore_items == pre.lore_items
    &&& post.timeline_events == pre.timeline_events
}

pub open spec fn unchanged_but_chapters(pre: Store, post: Store) -> bool {
    &&& post.projects == pre.projects
    &&& post.scenes == pre.scenes
    &&& post.characters == pre.characters
    &&& post.locations == pre.locations
    &&& post.lore_items == pre.lore_items
    &&& post.timeline_events == pre.timeline_events
}

pub open spec fn unchanged_but_scenes(pre: Store, post: Store) -> bool {
    &&& post.projects == pre.projects
    &&& post.chapters == pre.chapters
    &&& post.characters == pre.characters
    &&& post.locations == pre.locations
    &&& post.lore_items == pre.lore_items
    &&& post.timeline_events == pre.timeline_events
}

pub open spec fn unchanged_but_characters(pre: Store, post: Store) -> bool {
    &&& post.projects == pre.projects
    &&& post.chapters == pre.chapters
    &&& post.scenes == pre.scenes
    &&& post.locations == pre.locations
    &&& post.lore_items == pre.lore_items
    &&& post.timeline_events == pre.timeline_events
}

pub open spec fn unchanged_but_locations(pre: Store, post: Store) -> bool {
    &&& post.projects == pre.projects
    &&& post.chapters == pre.chapters
    &&& post.scenes == pre.scenes
    &&& post.characters == pre.characters
    &&& post.lore_items == pre.lore_items
    &&& post.timeline_events == pre.timeline_events
}

pub open spec fn unchanged_but_lore_items(pre: Store, post: Store) -> bool {
    &&& post.projects == pre.projects
    &&& post.chapters == pre.chapters
    &&& post.scenes == pre.scenes
    &&& post.characters == pre.characters
    &&& post.locations == pre.locations
    &&& post.timeline_events == pre.timeline_events
}

pub open spec fn unchanged_but_timeline_events(pre: Store, post: Store) -> bool {
    &&& post.projects == pre.projects
    &&& post.chapters == pre.chapters
    &&& post.scenes == pre.scenes
    &&& post.characters == pre.characters
    &&& post.locations == pre.locations
    &&& post.lore_items == pre.lore_items
}

/// Insert a new project row.
pub fn create_project(store: &mut Store, project: &Project) -> (r: Result<(), String>)
    requires
        old(store).wf(),
    ensures
        final(store).wf(),
        unchanged_but_projects(*old(store), *final(store)),
        match r {
            Ok(_) => !has_row::<Project>(
                old(store).projects.deep_view(),
                project.deep_view().id,
            ) && final(store).projects.deep_view() == old(store).projects.deep_view().push(
                project.deep_view(),
            ),
            Err(_) => has_row::<Project>(old(store).projects.deep_view(), project.deep_view().id)
                && final(store).projects == old(store).projects,
        },
{
    insert_row::<Project>(&mut store.projects, project)
}

/// Rewrite the project row carrying this id, if one exists.
pub fn update_project(store: &mut Store, project: &Project) -> (r: Result<(), String>)
    requires
        old(store).wf(),
    ensures
        final(store).wf(),
        unchanged_but_projects(*old(store), *final(store)),
        r is Ok,
        final(store).projects.deep_view() == row_update::<Project>(
            old(store).projects.deep_view(),
            project.deep_view(),
        ),
{
    update_row::<Project>(&mut store.projects, project);
    Ok(())
}

/// Insert a new chapter row.
pub fn create_chapter(store: &mut Store, chapter: &Chapter) -> (r: Result<(), String>)
    requires
        old(store).wf(),
    ensures
        final(store).wf(),
        unchanged_but_chapters(*old(store), *final(store)),
        match r {
            Ok(_) => !has_row::<Chapter>(
                old(store).chapters.deep_view(),
                chapter.deep_view().id,
            ) && final(store).chapters.deep_view() == old(store).chapters.deep_view().push(
                chapter.deep_view(),
            ),
            Err(_) => has_row::<Chapter>(old(store).chapters.deep_view(), chapter.deep_view().id)
                && final(store).chapters == old(store).chapters,
        },
{
    insert_row::<Chapter>(&mut store.chapters, chapter)
}

/// Rewrite the chapter row carrying this id, if one exists.
pub fn update_chapter(store: &mut Store, chapter: &Chapter) -> (r: Result<(), String>)
    requires
        old(store).wf(),
    ensures
        final(store).wf(),
        unchanged_but_chapters(*old(store), *final(store)),
        r is Ok,
        final(store).chapters.deep_view() == row_update::<Chapter>(
            old(store).chapters.deep_view(),
            chapter.deep_view(),
        ),
{
    update_row::<Chapter>(&mut store.chapters, chapter);
    Ok(())
}

/// Insert a new scene row.
pub fn create_scene(store: &mut Store, scene: &Scene) -> (r: Result<(), String>)
    requires
        old(store).wf(),
    ensures
        final(store).wf(),
        unchanged_but_scenes(*old(store), *final(store)),
        match r {
            Ok(_) => !has_row::<Scene>(old(store).scenes.deep_view(), scene.deep_view().id)
                && final(store).scenes.deep_view() == old(store).scenes.deep_view().push(
                scene.deep_view(),
            ),
            Err(_) => has_row::<Scene>(old(store).scenes.deep_view(), scene.deep_view().id)
                && final(store).scenes == old(store).scenes,
        },
{
    insert_row::<Scene>(&mut store.scenes, scene)
}

/// Rewrite the scene row carrying this id, if one exists.
pub fn update_scene(store: &mut Store, scene: &Scene) -> (r: Result<(), String>)
    requires
        old(store).wf(),
    ensures
        final(store).wf(),
        unchanged_but_scenes(*old(store), *final(store)),
        r is Ok,
        final(store).scenes.deep_view() == row_update::<Scene>(
            old(store).scenes.deep_view(),
            scene.deep_view(),
        ),
{
    update_row::<Scene>(&mut store.scenes, scene);
    Ok(())
}

/// Insert a new character row.
pub fn create_character(store: &mut Store, character: &Character) -> (r: Result<(), String>)
    requires
        old(store).wf(),
    ensures
        final(store).wf(),
        unchanged_but_characters(*old(store), *final(store)),
        match r {
            Ok(_) => !has_row::<Character>(
                old(store).characters.deep_view(),
                character.deep_view().id,
            ) && final(store).characters.deep_view() == old(store).characters.deep_view().push(
                character.deep_view(),
            ),
            Err(_) => has_row::<Character>(
                old(store).characters.deep_view(),
                character.deep_view().id,
            ) && final(store).characters == old(store).characters,
        },
{
    insert_row::<Character>(&mut store.characters, character)
}

/// Rewrite the character row carrying this id, if one exists.
pub fn update_character(store: &mut Store, character: &Character) -> (r: Result<(), String>)
    requires
        old(store).wf(),
    ensures
        final(store).wf(),
        unchanged_but_characters(*old(store), *final(store)),
        r is Ok,
        final(store).characters.deep_view() == row_update::<Character>(
            old(store).characters.deep_view(),
            character.deep_view(),
        ),
{
    update_row::<Character>(&mut store.characters, character);
    Ok(())
}

/// Insert a new location row.
pub fn create_location(store: &mut Store, location: &Location) -> (r: Result<(), String>)
    requires
        old(store).wf(),
    ensures
        final(store).wf(),
        unchanged_but_locations(*old(store), *final(store)),
        match r {
            Ok(_) => !has_row::<Location>(
                old(store).locations.deep_view(),
                location.deep_view().id,
            ) && final(store).locations.deep_view() == old(store).locations.deep_view().push(
                location.deep_view(),
            ),
            Err(_) => has_row::<Location>(
                old(store).locations.deep_view(),
                location.deep_view().id,
            ) && final(store).locations == old(store).locations,
        },
{
    insert_row::<Location>(&mut store.locations, location)
}

/// Rewrite the location row carrying this id, if one exists.
pub fn update_location(store: &mut Store, location: &Location) -> (r: Result<(), String>)
    requires
        old(store).wf(),
    ensures
        final(store).wf(),
        unchanged_but_locations(*old(store), *final(store)),
        r is Ok,
        final(store).locations.deep_view() == row_update::<Location>(
            old(store).locations.deep_view(),
            location.deep_view(),
        ),
{
    update_row::<Location>(&mut store.locations, location);
    Ok(())
}

/// Insert a new lore row.
pub fn create_lore_item(store: &mut Store, lore_item: &LoreItem) -> (r: Result<(), String>)
    requires
        old(store).wf(),
    ensures
        final(store).wf(),
        unchanged_but_lore_items(*old(store), *final(store)),
        match r {
            Ok(_) => !has_row::<LoreItem>(
                old(store).lore_items.deep_view(),
                lore_item.deep_view().id,
            ) && final(store).lore_items.deep_view() == old(store).lore_items.deep_view().push(
                lore_item.deep_view(),
            ),
            Err(_) => has_row::<LoreItem>(
                old(store).lore_items.deep_view(),
                lore_item.deep_view().id,
            ) && final(store).lore_items == old(store).lore_items,
        },
{
    insert_row::<LoreItem>(&mut store.lore_items, lore_item)
}

/// Rewrite the lore row carrying this id, if one exists.
pub fn update_lore_item(store: &mut Store, lore_item: &LoreItem) -> (r: Result<(), String>)
    requires
        old(store).wf(),
    ensures
        final(store).wf(),
        unchanged_but_lore_items(*old(store), *final(store)),
        r is Ok,
        final(store).lore_items.deep_view() == row_update::<LoreItem>(
            old(store).lore_items.deep_view(),
            lore_item.deep_view(),
        ),
{
    update_row::<LoreItem>(&mut store.lore_items, lore_item);
    Ok(())
}

/// Insert a new timeline event row.
pub fn create_timeline_event(store: &mut Store, event: &TimelineEvent) -> (r: Result<(), String>)
    requires
        old(store).wf(),
    ensures
        final(store).wf(),
        unchanged_but_timeline_events(*old(store), *final(store)),
        match r {
            Ok(_) => !has_row::<TimelineEvent>(
                old(store).timeline_events.deep_view(),
                event.deep_view().id,
            ) && final(store).timeline_events.deep_view()
                == old(store).timeline_events.deep_view().push(event.deep_view()),
            Err(_) => has_row::<TimelineEvent>(
                old(store).timeline_events.deep_view(),
                event.deep_view().id,
            ) && final(store).timeline_events == old(store).timeline_events,
        },
{
    insert_row::<TimelineEvent>(&mut store.timeline_events, event)
}

/// The chapters that belong to one project.
pub open spec fn chapter_in_project(pid: Seq<char>) -> spec_fn(<Chapter as DeepView>::V) -> bool {
    |c: <Chapter as DeepView>::V| c.project_id == pid
}

/// The scenes that belong to one chapter.
pub open spec fn scene_in_chapter(cid: Seq<char>) -> spec_fn(<Scene as DeepView>::V) -> bool {
    |s: <Scene as DeepView>::V| s.chapter_id == cid
}

/// The characters that belong to one project.
pub open spec fn character_in_project(pid: Seq<char>) -> spec_fn(
    <Character as DeepView>::V,
) -> bool {
    |c: <Character as DeepView>::V| c.project_id == pid
}

/// The locations that belong to one project.
pub open spec fn location_in_project(pid: Seq<char>) -> spec_fn(<Location as DeepView>::V) -> bool {
    |l: <Location as DeepView>::V| l.project_id == pid
}

/// The lore entries that belong to one project.
pub open spec fn lore_item_in_project(pid: Seq<char>) -> spec_fn(
    <LoreItem as DeepView>::V,
) -> bool {
    |l: <LoreItem as DeepView>::V| l.project_id == pid
}

/// The timeline events that belong to one project.
pub open spec fn timeline_event_in_project(pid: Seq<char>) -> spec_fn(
    <TimelineEvent as DeepView>::V,
) -> bool {
    |e: <TimelineEvent as DeepView>::V| e.project_id == pid
}

/// The chapters of one project, in row order.
pub fn get_chapters_by_project(store: &Store, project_id: &str) -> (r: Vec<Chapter>)
    ensures
        r.deep_view() == store.chapters.deep_view().filter(chapter_in_project(project_id@)),
{
    let ghost pred = chapter_in_project(project_id@);
    let ghost all = store.chapters.deep_view();
    let mut r: Vec<Chapter> = Vec::new();
    let mut i: usize = 0;
    while i < store.chapters.len()
        invariant
            i <= store.chapters.len(),
            all == store.chapters.deep_view(),
            all.len() == store.chapters.len(),
            pred == chapter_in_project(project_id@),
            r.deep_view() == all.take(i as int).filter(pred),
        decreases store.chapters.len() - i,
    {
        proof {
            assert(all.take(i + 1) =~= all.take(i as int).push(all[i as int]));
            lemma_filter_push(all.take(i as int), all[i as int], pred);
            assert(all[i as int] == store.chapters@[i as int].deep_view());
            assert(all[i as int].project_id == store.chapters@[i as int].project_id@);
        }
        if crate::text::str_eq(store.chapters[i].project_id.as_str(), project_id) {
            let c = store.chapters[i].clone();
            let ghost prev = r.deep_view();
            r.push(c);
            assert(r.deep_view() =~= prev.push(all[i as int]));
        }
        i += 1;
    }
    assert(all.take(store.chapters.len() as int) =~= all);
    r
}

/// The scenes of one chapter, in row order.
pub fn get_scenes_by_chapter(store: &Store, chapter_id: &str) -> (r: Vec<Scene>)
    ensures
        r.deep_view() == store.scenes.deep_view().filter(scene_in_chapter(chapter_id@)),
{
    let ghost pred = scene_in_chapter(chapter_id@);
    let ghost all = store.scenes.deep_view();
    let mut r: Vec<Scene> = Vec::new();
    let mut i: usize = 0;
    while i < store.scenes.len()
        invariant
            i <= store.scenes.len(),
            all == store.scenes.deep_view(),
            all.len() == store.scenes.len(),
            pred == scene_in_chapter(chapter_id@),
            r.deep_view() == all.take(i as int).filter(pred),
        decreases store.scenes.len() - i,
    {
        proof {
            assert(all.take(i + 1) =~= all.take(i as int).push(all[i as int]));
            lemma_filter_push(all.take(i as int), all[i as int], pred);
            assert(all[i as int] == store.scenes@[i as int].deep_view());
            assert(all[i as int].chapter_id == store.scenes@[i as int].chapter_id@);
        }
        if crate::text::str_eq(store.scenes[i].chapter_id.as_str(), chapter_id) {
            let s = store.scenes[i].clone();
            let ghost prev = r.deep_view();
            r.push(s);
            assert(r.deep_view() =~= prev.push(all[i as int]));
        }
        i += 1;
    }
    assert(all.take(store.scenes.len() as int) =~= all);
    r
}

/// The characters of one project, in row order.
pub fn get_characters_by_project(store: &Store, project_id: &str) -> (r: Vec<Character>)
    ensures
        r.deep_view() == store.characters.deep_view().filter(character_in_project(project_id@)),
{
    let ghost pred = character_in_project(project_id@);
    let ghost all = store.characters.deep_view();
    let mut r: Vec<Character> = Vec::new();
    let mut i: usize = 0;
    while i < store.characters.len()
        invariant
            i <= store.characters.len(),
            all == store.characters.deep_view(),
            all.len() == store.characters.len(),
            pred == character_in_project(project_id@),
            r.deep_view() == all.take(i as int).filter(pred),
        decreases store.characters.len() - i,
    {
        proof {
            assert(all.take(i + 1) =~= all.take(i as int).push(all[i as int]));
            lemma_filter_push(all.take(i as int), all[i as int], pred);
            assert(all[i as int] == store.characters@[i as int].deep_view());
            assert(all[i as int].project_id == store.characters@[i as int].project_id@);
        }
        if crate::text::str_eq(store.characters[i].project_id.as_str(), project_id) {
            let c = store.characters[i].clone();
            let ghost prev = r.deep_view();
            r.push(c);
            assert(r.deep_view() =~= prev.push(all[i as int]));
        }
        i += 1;
    }
    assert(all.take(store.characters.len() as int) =~= all);
    r
}

/// The locations of one project, in row order.
pub fn get_locations_by_project(store: &Store, project_id: &str) -> (r: Vec<Location>)
    ensures
        r.deep_view() == store.locations.deep_view().filter(location_in_project(project_id@)),
{
    let ghost pred = location_in_project(project_id@);
    let ghost all = store.locations.deep_view();
    let mut r: Vec<Location> = Vec::new();
    let mut i: usize = 0;
    while i < store.locations.len()
        invariant
            i <= store.locations.len(),
            all == store.locations.deep_view(),
            all.len() == store.locations.len(),
            pred == location_in_project(project_id@),
            r.deep_view() == all.take(i as int).filter(pred),
        decreases store.locations.len() - i,
    {
        proof {
            assert(all.take(i + 1) =~= all.take(i as int).push(all[i as int]));
            lemma_filter_push(all.take(i as int), all[i as int], pred);
            assert(all[i as int] == store.locations@[i as int].deep_view());
            assert(all[i as int].project_id == store.locations@[i as int].project_id@);
        }
        if crate::text::str_eq(store.locations[i].project_id.as_str(), project_id) {
            let l = store.locations[i].clone();
            let ghost prev = r.deep_view();
            r.push(l);
            assert(r.deep_view() =~= prev.push(all[i as int]));
        }
        i += 1;
    }
    assert(all.take(store.locations.len() as int) =~= all);
    r
}

/// The lore entries of one project, in row order.
pub fn get_lore_items_by_project(store: &Store, project_id: &str) -> (r: Vec<LoreItem>)
    ensures
        r.deep_view() == store.lore_items.deep_view().filter(lore_item_in_project(project_id@)),
{
    let ghost pred = lore_item_in_project(project_id@);
    let ghost all = store.lore_items.deep_view();
    let mut r: Vec<LoreItem> = Vec::new();
    let mut i: usize = 0;
    while i < store.lore_items.len()
        invariant
            i <= store.lore_items.len(),
            all == store.lore_items.deep_view(),
            all.len() == store.lore_items.len(),
            pred == lore_item_in_project(project_id@),
            r.deep_view() == all.take(i as int).filter(pred),
        decreases store.lore_items.len() - i,
    {
        proof {
            assert(all.take(i + 1) =~= all.take(i as int).push(all[i as int]));
            lemma_filter_push(all.take(i as int), all[i as int], pred);
            assert(all[i as int] == store.lore_items@[i as int].deep_view());
            assert(all[i as int].project_id == store.lore_items@[i as int].project_id@);
        }
        if crate::text::str_eq(store.lore_items[i].project_id.as_str(), project_id) {
            let l = store.lore_items[i].clone();
            let ghost prev = r.deep_view();
            r.push(l);
            assert(r.deep_view() =~= prev.push(all[i as int]));
        }
        i += 1;
    }
    assert(all.take(store.lore_items.len() as int) =~= all);
    r
}

/// The timeline events of one project, in row order.
#[verifier::rlimit(30)]
pub fn get_timeline_events_by_project(store: &Store, project_id: &str) -> (r: Vec<TimelineEvent>)
    ensures
        r.deep_view() == store.timeline_events.deep_view().filter(
            timeline_event_in_project(project_id@),
        ),
{
    let ghost pred = timeline_event_in_project(project_id@);
    let ghost all = store.timeline_events.deep_view();
    let mut r: Vec<TimelineEvent> = Vec::new();
    let mut i: usize = 0;
    while i < store.timeline_events.len()
        invariant
            i <= store.timeline_events.len(),
            all == store.timeline_events.deep_view(),
            all.len() == store.timeline_events.len(),
            pred == timeline_event_in_project(project_id@),
            r.deep_view() == all.take(i as int).filter(pred),
        decreases store.timeline_events.len() - i,
    {
        proof {
            assert(all.take(i + 1) =~= all.take(i as int).push(all[i as int]));
            lemma_filter_push(all.take(i as int), all[i as int], pred);
            assert(all[i as int] == store.timeline_events@[i as int].deep_view());
            assert(all[i as int].project_id == store.timeline_events@[i as int].project_id@);
        }
        if crate::text::str_eq(store.timeline_events[i].project_id.as_str(), project_id) {
            let e = store.timeline_events[i].clone();
            let ghost prev = r.deep_view();
            r.push(e);
            assert(r.deep_view() =~= prev.push(all[i as int]));
        }
        i += 1;
    }
    assert(all.take(store.timeline_events.len() as int) =~= all);
    r
}

/// The rows that survive deleting one project.
pub open spec fn project_row_kept(pid: Seq<char>) -> spec_fn(<Project as DeepView>::V) -> bool {
    |p: <Project as DeepView>::V| p.id != pid
}

pub open spec fn chapter_row_kept(pid: Seq<char>) -> spec_fn(<Chapter as DeepView>::V) -> bool {
    |c: <Chapter as DeepView>::V| c.project_id != pid
}

/// A scene survives unless its chapter belongs to the deleted project.
pub open spec fn scene_row_kept(
    chapters: Seq<<Chapter as DeepView>::V>,
    pid: Seq<char>,
) -> spec_fn(<Scene as DeepView>::V) -> bool {
    |s: <Scene as DeepView>::V|
        !(exists|j: int|
            0 <= j < chapters.len() && (#[trigger] chapters[j]).id == s.chapter_id
                && chapters[j].project_id == pid)
}

pub open spec fn character_row_kept(pid: Seq<char>) -> spec_fn(
    <Character as DeepView>::V,
) -> bool {
    |c: <Character as DeepView>::V| c.project_id != pid
}

pub open spec fn location_row_kept(pid: Seq<char>) -> spec_fn(<Location as DeepView>::V) -> bool {
    |l: <Location as DeepView>::V| l.project_id != pid
}

pub open spec fn lore_item_row_kept(pid: Seq<char>) -> spec_fn(<LoreItem as DeepView>::V) -> bool {
    |l: <LoreItem as DeepView>::V| l.project_id != pid
}

pub open spec fn timeline_event_row_kept(pid: Seq<char>) -> spec_fn(
    <TimelineEvent as DeepView>::V,
) -> bool {
    |e: <TimelineEvent as DeepView>::V| e.project_id != pid
}

/// Delete a project and, with it, every row that belongs to it: chapters,
/// the scenes of those chapters, characters, locations, lore entries and
/// timeline events. Deleting an id the store does not hold removes
/// nothing.
pub fn delete_project(store: &mut Store, id: &str) -> (r: Result<(), String>)
    requires
        old(store).wf(),
    ensures
        final(store).wf(),
        r is Ok,
        final(store).projects.deep_view() == old(store).projects.deep_view().filter(
            project_row_kept(id@),
        ),
        final(store).chapters.deep_view() == old(store).chapters.deep_view().filter(
            chapter_row_kept(id@),
        ),
        final(store).scenes.deep_view() == old(store).scenes.deep_view().filter(
            scene_row_kept(old(store).chapters.deep_view(), id@),
        ),
        final(store).characters.deep_view() == old(store).characters.deep_view().filter(
            character_row_kept(id@),
        ),
        final(store).locations.deep_view() == old(store).locations.deep_view().filter(
            location_row_kept(id@),
        ),
        final(store).lore_items.deep_view() == old(store).lore_items.deep_view().filter(
            lore_item_row_kept(id@),
        ),
        final(store).timeline_events.deep_view() == old(store).timeline_events.deep_view().filter(
            timeline_event_row_kept(id@),
        ),
{
    // Scenes go first: membership is judged against the chapters as they
    // stand before any are removed.
    let ghost chap0 = store.chapters.deep_view();
    let ghost scene_pred = scene_row_kept(chap0, id@);
    let ghost all_scenes = store.scenes.deep_view();
    let mut kept_scenes: Vec<Scene> = Vec::new();
    let mut i: usize = 0;
    while i < store.scenes.len()
        invariant
            old(store).wf(),
            store.wf(),
            *store == *old(store),
            chap0 == store.chapters.deep_view(),
            scene_pred == scene_row_kept(chap0, id@),
            all_scenes == store.scenes.deep_view(),
            all_scenes.len() == store.scenes.len(),
            i <= store.scenes.len(),
            kept_scenes.deep_view() == all_scenes.take(i as int).filter(scene_pred),
        decreases store.scenes.len() - i,
    {
        proof {
            assert(all_scenes.take(i + 1) =~= all_scenes.take(i as int).push(all_scenes[i as int]));
            lemma_filter_push(all_scenes.take(i as int), all_scenes[i as int], scene_pred);
            assert(all_scenes[i as int] == store.scenes@[i as int].deep_view());
        }
        let ghost sv = all_scenes[i as int];
        let belongs = match row_index_of::<Chapter>(
            &store.chapters,
            store.scenes[i].chapter_id.as_str(),
        ) {
            Some(cj) => {
                proof {
                    assert(chap0[cj as int].id == store.chapters@[cj as int].id@);
                    assert(chap0[cj as int].project_id == store.chapters@[cj as int].project_id@);
                }
                crate::text::str_eq(store.chapters[cj].project_id.as_str(), id)
            },
            None => false,
        };
        proof {
            if belongs {
                assert(!scene_pred(sv));
            } else {
                assert(scene_pred(sv)) by {
                    if exists|j: int|
                        0 <= j < chap0.len() && (#[trigger] chap0[j]).id == sv.chapter_id
                            && chap0[j].project_id == id@ {
                        let j = choose|j: int|
                            0 <= j < chap0.len() && (#[trigger] chap0[j]).id == sv.chapter_id
                                && chap0[j].project_id == id@;
                        assert(has_row::<Chapter>(chap0, sv.chapter_id));
                    }
                }
            }
        }
        if !belongs {
            let s = store.scenes[i].clone();
            let ghost prev = kept_scenes.deep_view();
            kept_scenes.push(s);
            assert(kept_scenes.deep_view() =~= prev.push(all_scenes[i as int]));
        }
        i += 1;
    }
    assert(all_scenes.take(store.scenes.len() as int) =~= all_scenes);
    store.scenes = kept_scenes;

    let kept_projects = {
        let mut kept: Vec<Project> = Vec::new();
        let ghost pred = project_row_kept(id@);
        let ghost all = old(store).projects.deep_view();
        let mut i: usize = 0;
        while i < store.projects.len()
            invariant
                store.projects == old(store).projects,
                pred == project_row_kept(id@),
                all == store.projects.deep_view(),
                all.len() == store.projects.len(),
                i <= store.projects.len(),
                kept.deep_view() == all.take(i as int).filter(pred),
            decreases store.projects.len() - i,
        {
            proof {
                assert(all.take(i + 1) =~= all.take(i as int).push(all[i as int]));
                lemma_filter_push(all.take(i as int), all[i as int], pred);
                assert(all[i as int] == store.projects@[i as int].deep_view());
                assert(all[i as int].id == store.projects@[i as int].id@);
            }
            if !crate::text::str_eq(store.projects[i].id.as_str(), id) {
                let p = store.projects[i].clone();
                let ghost prev = kept.deep_view();
                kept.push(p);
                assert(kept.deep_view() =~= prev.push(all[i as int]));
            }
            i += 1;
        }
        assert(all.take(store.projects.len() as int) =~= all);
        kept
    };
    store.projects = kept_projects;

    let kept_chapters = {
        let mut kept: Vec<Chapter> = Vec::new();
        let ghost pred = chapter_row_kept(id@);
        let ghost all = old(store).chapters.deep_view();
        let mut i: usize = 0;
        while i < store.chapters.len()
            invariant
                store.chapters == old(store).chapters,
                pred == chapter_row_kept(id@),
                all == store.chapters.deep_view(),
                all.len() == store.chapters.len(),
                i <= store.chapters.len(),
                kept.deep_view() == all.take(i as int).filter(pred),
            decreases store.chapters.len() - i,
        {
            proof {
                assert(all.take(i + 1) =~= all.take(i as int).push(all[i as int]));
                lemma_filter_push(all.take(i as int), all[i as int], pred);
                assert(all[i as int] == store.chapters@[i as int].deep_view());
                assert(all[i as int].project_id == store.chapters@[i as int].project_id@);
            }
            if !crate::text::str_eq(store.chapters[i].project_id.as_str(), id) {
                let c = store.chapters[i].clone();
                let ghost prev = kept.deep_view();
                kept.push(c);
                assert(kept.deep_view() =~= prev.push(all[i as int]));
            }
            i += 1;
        }
        assert(all.take(store.chapters.len() as int) =~= all);
        kept
    };
    store.chapters = kept_chapters;

    let kept_characters = {
        let mut kept: Vec<Character> = Vec::new();
        let ghost pred = character_row_kept(id@);
        let ghost all = old(store).characters.deep_view();
        let mut i: usize = 0;
        while i < store.characters.len()
            invariant
                store.characters == old(store).characters,
                pred == character_row_kept(id@),
                all == store.characters.deep_view(),
                all.len() == store.characters.len(),
                i <= store.characters.len(),
                kept.deep_view() == all.take(i as int).filter(pred),
            decreases store.characters.len() - i,
        {
            proof {
                assert(all.take(i + 1) =~= all.take(i as int).push(all[i as int]));
                lemma_filter_push(all.take(i as int), all[i as int], pred);
                assert(all[i as int] == store.characters@[i as int].deep_view());
                assert(all[i as int].project_id == store.characters@[i as int].project_id@);
            }
            if !crate::text::str_eq(store.characters[i].project_id.as_str(), id) {
                let c = store.characters[i].clone();
                let ghost prev = kept.deep_view();
                kept.push(c);
                assert(kept.deep_view() =~= prev.push(all[i as int]));
            }
            i += 1;
        }
        assert(all.take(store.characters.len() as int) =~= all);
        kept
    };
    store.characters = kept_characters;

    let kept_locations = {
        let mut kept: Vec<Location> = Vec::new();
        let ghost pred = location_row_kept(id@);
        let ghost all = old(store).locations.deep_view();
        let mut i: usize = 0;
        while i < store.locations.len()
            invariant
                store.locations == old(store).locations,
                pred == location_row_kept(id@),
                all == store.locations.deep_view(),
                all.len() == store.locations.len(),
                i <= store.locations.len(),
                kept.deep_view() == all.take(i as int).filter(pred),
            decreases store.locations.len() - i,
        {
            proof {
                assert(all.take(i + 1) =~= all.take(i as int).push(all[i as int]));
                lemma_filter_push(all.take(i as int), all[i as int], pred);
                assert(all[i as int] == store.locations@[i as int].deep_view());
                assert(all[i as int].project_id == store.locations@[i as int].project_id@);
            }
            if !crate::text::str_eq(store.locations[i].project_id.as_str(), id) {
                let l = store.locations[i].clone();
                let ghost prev = kept.deep_view();
                kept.push(l);
                assert(kept.deep_view() =~= prev.push(all[i as int]));
            }
            i += 1;
        }
        assert(all.take(store.locations.len() as int) =~= all);
        kept
    };
    store.locations = kept_locations;

    let kept_lore = {
        let mut kept: Vec<LoreItem> = Vec::new();
        let ghost pred = lore_item_row_kept(id@);
        let ghost all = old(store).lore_items.deep_view();
        let mut i: usize = 0;
        while i < store.lore_items.len()
            invariant
                store.lore_items == old(store).lore_items,
                pred == lore_item_row_kept(id@),
                all == store.lore_items.deep_view(),
                all.len() == store.lore_items.len(),
                i <= store.lore_items.len(),
                kept.deep_view() == all.take(i as int).filter(pred),
            decreases store.lore_items.len() - i,
        {
            proof {
                assert(all.take(i + 1) =~= all.take(i as int).push(all[i as int]));
                lemma_filter_push(all.take(i as int), all[i as int], pred);
                assert(all[i as int] == store.lore_items@[i as int].deep_view());
                assert(all[i as int].project_id == store.lore_items@[i as int].project_id@);
            }
            if !crate::text::str_eq(store.lore_items[i].project_id.as_str(), id) {
                let l = store.lore_items[i].clone();
                let ghost prev = kept.deep_view();
                kept.push(l);
                assert(kept.deep_view() =~= prev.push(all[i as int]));
            }
            i += 1;
        }
        assert(all.take(store.lore_items.len() as int) =~= all);
        kept
    };
    store.lore_items = kept_lore;

    let kept_events = {
        let mut kept: Vec<TimelineEvent> = Vec::new();
        let ghost pred = timeline_event_row_kept(id@);
        let ghost all = old(store).timeline_events.deep_view();
        let mut i: usize = 0;
        while i < store.timeline_events.len()
            invariant
                store.timeline_events == old(store).timeline_events,
                pred == timeline_event_row_kept(id@),
                all == store.timeline_events.deep_view(),
                all.len() == store.timeline_events.len(),
                i <= store.timeline_events.len(),
                kept.deep_view() == all.take(i as int).filter(pred),
            decreases store.timeline_events.len() - i,
        {
            proof {
                assert(all.take(i + 1) =~= all.take(i as int).push(all[i as int]));
                lemma_filter_push(all.take(i as int), all[i as int], pred);
                assert(all[i as int] == store.timeline_events@[i as int].deep_view());
                assert(all[i as int].project_id == store.timeline_events@[i as int].project_id@);
            }
            if !crate::text::str_eq(store.timeline_events[i].project_id.as_str(), id) {
                let e = store.timeline_events[i].clone();
                let ghost prev = kept.deep_view();
                kept.push(e);
                assert(kept.deep_view() =~= prev.push(all[i as int]));
            }
            i += 1;
        }
        assert(all.take(store.timeline_events.len() as int) =~= all);
        kept
    };
    store.timeline_events = kept_events;

    proof {
        lemma_filter_unique_ids::<Project>(old(store).projects.deep_view(), project_row_kept(id@));
        lemma_filter_unique_ids::<Chapter>(old(store).chapters.deep_view(), chapter_row_kept(id@));
        lemma_filter_unique_ids::<Scene>(
            old(store).scenes.deep_view(),
            scene_row_kept(old(store).chapters.deep_view(), id@),
        );
        lemma_filter_unique_ids::<Character>(
            old(store).characters.deep_view(),
            character_row_kept(id@),
        );
        lemma_filter_unique_ids::<Location>(
            old(store).locations.deep_view(),
            location_row_kept(id@),
        );
        lemma_filter_unique_ids::<LoreItem>(
            old(store).lore_items.deep_view(),
            lore_item_row_kept(id@),
        );
        lemma_filter_unique_ids::<TimelineEvent>(
            old(store).timeline_events.deep_view(),
            timeline_event_row_kept(id@),
        );
    }
    Ok(())
}

/// Rewrite the timeline event row carrying this id, if one exists.
pub fn update_timeline_event(store: &mut Store, event: &TimelineEvent) -> (r: Result<(), String>)
    requires
        old(store).wf(),
    ensures
        final(store).wf(),
        unchanged_but_timeline_events(*old(store), *final(store)),
        r is Ok,
        final(store).timeline_events.deep_view() == row_update::<TimelineEvent>(
            old(store).timeline_events.deep_view(),
            event.deep_view(),
        ),
{
    update_row::<TimelineEvent>(&mut store.timeline_events, event);
    Ok(())
}

} // verus!
