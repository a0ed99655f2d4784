//! The tree representation of one project: a folder holding a manifest,
//! the project record, and one file per child entity, each named by the
//! entity's id.
//!
//! A folder is modelled by what its files parse to. A file that exists but
//! does not parse carries `None` and is skipped on read, never silently
//! dropped on write. Folder identity is the `project_id` recorded in the
//! manifest, never the folder's human-readable name.

use vstd::prelude::*;

use crate::entities::Chapter;
use crate::entities::Character;
use crate::entities::Entity;
use crate::entities::Location;
use crate::entities::LoreItem;
use crate::entities::Project;
use crate::entities::Scene;
use crate::entities::TimelineEvent;

verus! {

/// The manifest file identifying a project folder.
pub struct ProjectManifest {
    pub version: String,
    pub project_id: String,
    pub title: String,
    pub created_at: String,
    pub updated_at: String,
}

impl Clone for ProjectManifest {
    fn clone(&self) -> (r: Self)
        ensures
            r.version@ == self.version@,
            r.project_id@ == self.project_id@,
            r.title@ == self.title@,
            r.created_at@ == self.created_at@,
            r.updated_at@ == self.updated_at@,
    {
        ProjectManifest {
            version: self.version.clone(),
            project_id: self.project_id.clone(),
            title: self.title.clone(),
            created_at: self.created_at.clone(),
            updated_at: self.updated_at.clone(),
        }
    }
}

/// One entity file of a kind directory: named by id, holding the parsed
/// record, or `None` for a file whose text does not parse.
pub struct EntityFile<T> {
    pub id: String,
    pub content: Option<T>,
}

pub ghost struct FileV<V> {
    pub id: Seq<char>,
    pub content: Option<V>,
}

impl<T: DeepView> DeepView for EntityFile<T> {
    type V = FileV<T::V>;

    open spec fn deep_view(&self) -> FileV<T::V> {
        FileV {
            id: self.id@,
            content: match self.content {
                Some(ref t) => Some(t.deep_view()),
                None => None,
            },
        }
    }
}

/// An image file under `images/<category>/`.
pub struct ImageFile {
    pub rel_path: String,
    pub bytes: Vec<u8>,
}

pub ghost struct ImageFileV {
    pub rel_path: Seq<char>,
    pub bytes: Seq<u8>,
}

impl DeepView for ImageFile {
    type V = ImageFileV;

    open spec fn deep_view(&self) -> ImageFileV {
        ImageFileV { rel_path: self.rel_path@, bytes: self.bytes@ }
    }
}

/// One project folder under `projects/`.
pub struct ProjectFolder {
    pub name: String,
    pub manifest: Option<ProjectManifest>,
    pub project: Option<Project>,
    pub chapters: Vec<EntityFile<Chapter>>,
    pub scenes: Vec<EntityFile<Scene>>,
    pub characters: Vec<EntityFile<Character>>,
    pub locations: Vec<EntityFile<Location>>,
    pub lore: Vec<EntityFile<LoreItem>>,
    pub timeline: Vec<EntityFile<TimelineEvent>>,
    pub images: Vec<ImageFile>,
}

/// No two files of the kind directory carry the same id.
pub open spec fn file_ids_unique<V>(s: Seq<FileV<V>>) -> bool {
    forall|i: int, j: int| 0 <= i < j < s.len() ==> s[i].id != s[j].id
}

/// Some file of the kind directory carries this id.
pub open spec fn has_file<V>(s: Seq<FileV<V>>, id: Seq<char>) -> bool {
    exists|i: int| 0 <= i < s.len() && s[i].id == id
}

/// Overwrite the file named by `id` with the record, or add a new file:
/// files for ids not written are never removed.
pub open spec fn file_upsert<V>(s: Seq<FileV<V>>, id: Seq<char>, v: V) -> Seq<FileV<V>> {
    if has_file(s, id) {
        s.map(
            |i: int, f: FileV<V>|
                if f.id == id {
                    FileV { id: id, content: Some(v) }
                } else {
                    f
                },
        )
    } else {
        s.push(FileV { id: id, content: Some(v) })
    }
}

/// `file_upsert` folded over a batch of records, first record first.
pub open spec fn file_upsert_all<T: Entity>(s: Seq<FileV<T::V>>, items: Seq<T::V>) -> Seq<
    FileV<T::V>,
>
    decreases items.len(),
{
    if items.len() == 0 {
        s
    } else {
        file_upsert_all::<T>(file_upsert(s, T::view_id(items[0]), items[0]), items.skip(1))
    }
}

pub proof fn lemma_file_upsert_all_push<T: Entity>(
    s: Seq<FileV<T::V>>,
    items: Seq<T::V>,
    v: T::V,
)
    ensures
        file_upsert_all::<T>(s, items.push(v)) == file_upsert(
            file_upsert_all::<T>(s, items),
            T::view_id(v),
            v,
        ),
    decreases items.len(),
{
    let whole = items.push(v);
    if items.len() == 0 {
        assert(whole[0] == v);
        assert(whole.skip(1) =~= Seq::<T::V>::empty());
        assert(file_upsert_all::<T>(s, whole) == file_upsert_all::<T>(
            file_upsert(s, T::view_id(v), v),
            whole.skip(1),
        ));
        assert(file_upsert_all::<T>(
            file_upsert(s, T::view_id(v), v),
            Seq::<T::V>::empty(),
        ) == file_upsert(s, T::view_id(v), v));
        assert(file_upsert_all::<T>(s, items) == s);
    } else {
        assert(whole[0] == items[0]);
        assert(whole.skip(1) =~= items.skip(1).push(v));
        assert(file_upsert_all::<T>(s, whole) == file_upsert_all::<T>(
            file_upsert(s, T::view_id(items[0]), items[0]),
            items.skip(1).push(v),
        ));
        lemma_file_upsert_all_push::<T>(
            file_upsert(s, T::view_id(items[0]), items[0]),
            items.skip(1),
            v,
        );
    }
}

/// The records of the readable files, in file order; unreadable files are
/// passed over.
pub open spec fn parsed_files<V>(s: Seq<FileV<V>>) -> Seq<V>
    decreases s.len(),
{
    if s.len() == 0 {
        Seq::empty()
    } else {
        parsed_files(s.drop_last()) + (match s.last().content {
            Some(v) => seq![v],
            None => Seq::empty(),
        })
    }
}

/// Index of the first file named by `id`.
pub fn file_index_of<T: DeepView>(files: &Vec<EntityFile<T>>, id: &str) -> (r: Option<usize>)
    ensures
        match r {
            Some(i) => 0 <= i < files.deep_view().len() && files.deep_view()[i as int].id == id@
                && (forall|j: int| 0 <= j < i ==> files.deep_view()[j].id != id@),
            None => !has_file(files.deep_view(), id@),
        },
{
    let mut i: usize = 0;
    while i < files.len()
        invariant
            i <= files.len(),
            files.deep_view().len() == files.len(),
            forall|j: int| 0 <= j < i ==> files.deep_view()[j].id != id@,
        decreases files.len() - i,
    {
        proof {
            assert(files.deep_view()[i as int].id == files@[i as int].id@);
        }
        if crate::text::str_eq(files[i].id.as_str(), id) {
            return Some(i);
        }
        i += 1;
    }
    None
}

/// Write one record into its kind directory: overwrite the file already
/// named by the record's id, or add a new file.
pub fn upsert_entity_file<T: Entity>(files: &mut Vec<EntityFile<T>>, item: &T)
    requires
        file_ids_unique(old(files).deep_view()),
    ensures
        final(files).deep_view() == file_upsert(
            old(files).deep_view(),
            T::view_id(item.deep_view()),
            item.deep_view(),
        ),
        file_ids_unique(final(files).deep_view()),
{
    let ghost orig = files.deep_view();
    let ghost vid = T::view_id(item.deep_view());
    match file_index_of::<T>(files, item.entity_id().as_str()) {
        Some(i) => {
            let f = EntityFile { id: item.entity_id().clone(), content: Some(item.clone_entity()) };
            assert(f.deep_view() == (FileV { id: vid, content: Some(item.deep_view()) }));
            files.set(i, f);
            proof {
                let upd = orig.map(
                    |k: int, g: FileV<T::V>|
                        if g.id == vid {
                            FileV { id: vid, content: Some(item.deep_view()) }
                        } else {
                            g
                        },
                );
                assert forall|k: int| 0 <= k < orig.len() implies final(files).deep_view()[k]
                    == upd[k] by {
                    if k != i {
                        assert(orig[k].id != vid);
                    }
                }
                assert(final(files).deep_view() =~= upd);
            }
        },
        None => {
            let f = EntityFile { id: item.entity_id().clone(), content: Some(item.clone_entity()) };
            assert(f.deep_view() == (FileV { id: vid, content: Some(item.deep_view()) }));
            files.push(f);
            assert(final(files).deep_view() =~= orig.push(
                FileV { id: vid, content: Some(item.deep_view()) },
            ));
        },
    }
}

/// Write a batch of records into their kind directory, first record first.
pub fn upsert_entity_files<T: Entity>(files: &mut Vec<EntityFile<T>>, items: &Vec<T>)
    requires
        file_ids_unique(old(files).deep_view()),
    ensures
        final(files).deep_view() == file_upsert_all::<T>(
            old(files).deep_view(),
            items.deep_view(),
        ),
        file_ids_unique(final(files).deep_view()),
{
    let ghost orig = old(files).deep_view();
    let ghost all = items.deep_view();
    let mut i: usize = 0;
    while i < items.len()
        invariant
            i <= items.len(),
            all == items.deep_view(),
            all.len() == items.len(),
            files.deep_view() == file_upsert_all::<T>(orig, all.take(i as int)),
            file_ids_unique(files.deep_view()),
        decreases items.len() - i,
    {
        proof {
            assert(all.take(i + 1) =~= all.take(i as int).push(all[i as int]));
            lemma_file_upsert_all_push::<T>(orig, all.take(i as int), all[i as int]);
            assert(all[i as int] == items@[i as int].deep_view());
        }
        upsert_entity_file::<T>(files, &items[i]);
        i += 1;
    }
    assert(all.take(items.len() as int) =~= all);
}

/// Read every readable record of the kind directory, in file order.
pub fn read_entity_files<T: Entity>(files: &Vec<EntityFile<T>>) -> (r: Vec<T>)
    ensures
        r.deep_view() == parsed_files(files.deep_view()),
{
    let mut r: Vec<T> = Vec::new();
    let mut i: usize = 0;
    while i < files.len()
        invariant
            i <= files.len(),
            files.deep_view().len() == files.len(),
            r.deep_view() == parsed_files(files.deep_view().take(i as int)),
        decreases files.len() - i,
    {
        let ghost pre = files.deep_view().take(i as int);
        proof {
            assert(files.deep_view().take(i + 1) =~= pre.push(files.deep_view()[i as int]));
            assert(pre.push(files.deep_view()[i as int]).drop_last() =~= pre);
            assert(files.deep_view()[i as int] == files@[i as int].deep_view());
        }
        match &files[i].content {
            Some(t) => {
                let ghost prev = r.deep_view();
                let item = t.clone_entity();
                r.push(item);
                assert(r.deep_view() =~= prev.push(files.deep_view()[i as int].content->0));
                assert(r.deep_view() =~= parsed_files(files.deep_view().take(i + 1)));
            },
            None => {
                assert(r.deep_view() =~= parsed_files(files.deep_view().take(i + 1)));
            },
        }
        i += 1;
    }
    assert(files.deep_view().take(files.len() as int) =~= files.deep_view());
    r
}

pub proof fn lemma_file_upsert_unique<V>(s: Seq<FileV<V>>, id: Seq<char>, v: V)
    requires
        file_ids_unique(s),
    ensures
        file_ids_unique(file_upsert(s, id, v)),
{
    if has_file(s, id) {
        let u = file_upsert(s, id, v);
        assert(forall|j: int| 0 <= j < u.len() ==> u[j].id == s[j].id);
    }
}

/// A batch whose ids avoid `id` never touches the files named by `id`.
pub proof fn lemma_file_upsert_all_untouched<T: Entity>(
    s: Seq<FileV<T::V>>,
    items: Seq<T::V>,
    id: Seq<char>,
)
    requires
        forall|k: int| 0 <= k < items.len() ==> T::view_id(#[trigger] items[k]) != id,
    ensures
        file_upsert_all::<T>(s, items).len() >= s.len(),
        forall|j: int|
            0 <= j < s.len() && s[j].id == id ==> file_upsert_all::<T>(s, items)[j] == s[j],
        forall|j: int|
            0 <= j < file_upsert_all::<T>(s, items).len() && file_upsert_all::<T>(s, items)[j].id
                == id ==> j < s.len() && file_upsert_all::<T>(s, items)[j] == s[j],
    decreases items.len(),
{
    if items.len() > 0 {
        let v = items[0];
        let vid = T::view_id(v);
        assert(vid != id);
        let s1 = file_upsert(s, vid, v);
        assert(forall|k: int|
            0 <= k < items.skip(1).len() ==> #[trigger] items.skip(1)[k] == items[k + 1]);
        assert(forall|k: int|
            0 <= k < items.skip(1).len() ==> T::view_id(#[trigger] items.skip(1)[k]) != id);
        lemma_file_upsert_all_untouched::<T>(s1, items.skip(1), id);
        let t = file_upsert_all::<T>(s, items);
        assert(t == file_upsert_all::<T>(s1, items.skip(1)));
        assert(s1.len() >= s.len());
        assert(forall|j: int| 0 <= j < s.len() && s[j].id == id ==> s1[j] == s[j]);
        assert(forall|j: int| 0 <= j < s1.len() && s1[j].id == id ==> j < s.len() && s1[j] == s[j]);
        assert forall|j: int| 0 <= j < s.len() && s[j].id == id implies t[j] == s[j] by {
            assert(s1[j] == s[j]);
            assert(s1[j].id == id);
            assert(file_upsert_all::<T>(s1, items.skip(1))[j] == s1[j]);
        }
        assert forall|j: int| 0 <= j < t.len() && t[j].id == id implies j < s.len() && t[j] == s[
        j] by {
            assert(file_upsert_all::<T>(s1, items.skip(1))[j].id == id);
            assert(j < s1.len() && file_upsert_all::<T>(s1, items.skip(1))[j] == s1[j]);
        }
    }
}

/// After a batch write with unique ids, each written id names exactly the
/// record written under it.
pub proof fn lemma_file_upsert_all_props<T: Entity>(s: Seq<FileV<T::V>>, items: Seq<T::V>)
    requires
        file_ids_unique(s),
        crate::store::rows_unique_ids::<T>(items),
    ensures
        file_ids_unique(file_upsert_all::<T>(s, items)),
        forall|k: int|
            0 <= k < items.len() ==> has_file(
                file_upsert_all::<T>(s, items),
                T::view_id(#[trigger] items[k]),
            ),
        forall|k: int, j: int|
            #![trigger items[k], file_upsert_all::<T>(s, items)[j]]
            0 <= k < items.len() && 0 <= j < file_upsert_all::<T>(s, items).len()
                && file_upsert_all::<T>(s, items)[j].id == T::view_id(items[k])
                ==> file_upsert_all::<T>(s, items)[j].content == Some(items[k]),
    decreases items.len(),
{
    if items.len() > 0 {
        let v = items[0];
        let vid = T::view_id(v);
        let s1 = file_upsert(s, vid, v);
        let t = file_upsert_all::<T>(s, items);
        lemma_file_upsert_unique(s, vid, v);
        assert(crate::store::rows_unique_ids::<T>(items.skip(1))) by {
            assert(forall|k: int| 0 <= k < items.skip(1).len() ==> items.skip(1)[k] == items[k + 1]);
        }
        lemma_file_upsert_all_props::<T>(s1, items.skip(1));
        assert(t == file_upsert_all::<T>(s1, items.skip(1)));
        // The first item's files survive the rest of the batch untouched.
        assert(forall|k: int|
            0 <= k < items.skip(1).len() ==> T::view_id(#[trigger] items.skip(1)[k]) != vid) by {
            assert(forall|k: int| 0 <= k < items.skip(1).len() ==> items.skip(1)[k] == items[k + 1]);
        }
        lemma_file_upsert_all_untouched::<T>(s1, items.skip(1), vid);
        assert(has_file(s1, vid)) by {
            if has_file(s, vid) {
                let j = choose|j: int| 0 <= j < s.len() && s[j].id == vid;
                assert(s1[j].id == vid);
            } else {
                assert(s1 == s.push(FileV { id: vid, content: Some(v) }));
                assert(s1[s.len() as int].id == vid);
            }
        }
        assert(forall|j: int| 0 <= j < s1.len() && s1[j].id == vid ==> s1[j].content == Some(v));
        assert(has_file(t, vid)) by {
            let j = choose|j: int| 0 <= j < s1.len() && s1[j].id == vid;
            assert(t[j] == s1[j]);
        }
        assert forall|k: int, j: int|
            0 <= k < items.len() && 0 <= j < t.len() && t[j].id == T::view_id(items[k]) implies t[
            j].content == Some(items[k]) by {
            if k == 0 {
                assert(t[j] == s1[j]);
            } else {
                assert(items.skip(1)[k - 1] == items[k]);
            }
        }
        assert forall|k: int| 0 <= k < items.len() implies has_file(
            t,
            T::view_id(#[trigger] items[k]),
        ) by {
            if k > 0 {
                assert(items.skip(1)[k - 1] == items[k]);
            }
        }
    }
}

/// Writing the same batch a second time changes nothing.
pub proof fn lemma_file_upsert_all_stable<T: Entity>(t: Seq<FileV<T::V>>, items: Seq<T::V>)
    requires
        file_ids_unique(t),
        crate::store::rows_unique_ids::<T>(items),
        forall|k: int| 0 <= k < items.len() ==> has_file(t, T::view_id(#[trigger] items[k])),
        forall|k: int, j: int|
            #![trigger items[k], t[j]]
            0 <= k < items.len() && 0 <= j < t.len() && t[j].id == T::view_id(items[k])
                ==> t[j].content == Some(items[k]),
    ensures
        file_upsert_all::<T>(t, items) == t,
    decreases items.len(),
{
    if items.len() > 0 {
        let v = items[0];
        let vid = T::view_id(v);
        assert(file_upsert(t, vid, v) =~= t) by {
            assert(has_file(t, vid));
            assert(forall|j: int|
                0 <= j < t.len() && t[j].id == vid ==> #[trigger] t[j] == (FileV {
                    id: vid,
                    content: Some(v),
                }));
        }
        assert(forall|k: int| 0 <= k < items.skip(1).len() ==> items.skip(1)[k] == items[k + 1]);
        lemma_file_upsert_all_stable::<T>(t, items.skip(1));
        assert(file_upsert_all::<T>(t, items) == file_upsert_all::<T>(t, items.skip(1)));
    }
}

/// Writing a batch with unique ids into an empty kind directory lays down
/// one readable file per record, in order.
pub proof fn lemma_file_upsert_all_fresh<T: Entity>(items: Seq<T::V>)
    requires
        crate::store::rows_unique_ids::<T>(items),
    ensures
        file_upsert_all::<T>(Seq::empty(), items).len() == items.len(),
        file_ids_unique(file_upsert_all::<T>(Seq::empty(), items)),
        parsed_files(file_upsert_all::<T>(Seq::empty(), items)) == items,
        forall|j: int|
            0 <= j < items.len() ==> file_upsert_all::<T>(Seq::empty(), items)[j] == (FileV {
                id: T::view_id(#[trigger] items[j]),
                content: Some(items[j]),
            }),
    decreases items.len(),
{
    if items.len() == 0 {
        assert(parsed_files(file_upsert_all::<T>(Seq::empty(), items)) =~= items);
    } else {
        let prefix = items.drop_last();
        let v = items.last();
        let vid = T::view_id(v);
        assert(crate::store::rows_unique_ids::<T>(prefix));
        lemma_file_upsert_all_fresh::<T>(prefix);
        let tp = file_upsert_all::<T>(Seq::empty(), prefix);
        assert(items =~= prefix.push(v));
        lemma_file_upsert_all_push::<T>(Seq::empty(), prefix, v);
        let t = file_upsert_all::<T>(Seq::empty(), items);
        assert(t == file_upsert(tp, vid, v));
        assert(!has_file(tp, vid)) by {
            if has_file(tp, vid) {
                let j = choose|j: int| 0 <= j < tp.len() && tp[j].id == vid;
                assert(tp[j] == (FileV { id: T::view_id(prefix[j]), content: Some(prefix[j]) }));
                assert(T::view_id(items[j]) == T::view_id(items[items.len() - 1]));
            }
        }
        assert(t == tp.push(FileV { id: vid, content: Some(v) }));
        assert(t.drop_last() =~= tp);
        assert(parsed_files(t) == parsed_files(tp) + seq![v]);
        assert(parsed_files(t) =~= items);
    }
}

/// What `slug::slugify` computes from a title.
pub uninterp spec fn slug_of(title: Seq<char>) -> Seq<char>;

/// A character that can appear in a slug.
pub open spec fn is_slug_char(c: char) -> bool {
    let u = c as int;
    (('a' as int) <= u && u <= ('z' as int)) || (('0' as int) <= u && u <= ('9' as int)) || u == (
    '-' as int)
}

/// Relies on slug::slugify: the result depends on the title alone and is
/// made of lowercase ascii letters, digits and dashes only.
#[verifier::external_body]
fn slugify(title: &str) -> (r: String)
    ensures
        r@ == slug_of(title@),
        forall|i: int| 0 <= i < r@.len() ==> is_slug_char(r@[i]),
{
    slug::slugify(title)
}

/// The first eight characters of an id, or all of a shorter id.
pub open spec fn short_id(id: Seq<char>) -> Seq<char> {
    if id.len() > 8 {
        id.subrange(0, 8)
    } else {
        id
    }
}

/// The folder name derived once for a project: slug, dash, id prefix.
pub open spec fn spec_project_slug(title: Seq<char>, id: Seq<char>) -> Seq<char> {
    slug_of(title) + "-"@ + short_id(id)
}

/// Derive the human-readable folder name for a project. Used at folder
/// creation only: a later title change does not rename the folder.
pub fn project_slug(title: &str, id: &str) -> (r: String)
    ensures
        r@ == spec_project_slug(title@, id@),
{
    let s = slugify(title);
    let s = s.concat("-");
    let n = id.unicode_len();
    let tail = if n > 8 {
        id.substring_char(0, 8)
    } else {
        id
    };
    s.concat(tail)
}

/// Where a project folder with this title and id would be created,
/// under the workspace root.
pub fn get_project_path(workspace_path: &str, title: &str, id: &str) -> (r: String)
    ensures
        r@ == workspace_path@ + "/projects/"@ + spec_project_slug(title@, id@),
{
    let mut s = workspace_path.to_owned();
    s.append("/projects/");
    let slug = project_slug(title, id);
    s.append(slug.as_str());
    s
}

fn name_around(prefix: &str, id: &str, suffix: &str) -> (r: String)
    ensures
        r@ == prefix@ + id@ + suffix@,
{
    let mut s = prefix.to_owned();
    s.append(id);
    s.append(suffix);
    s
}

/// Where a chapter's file lives inside its project folder.
pub fn chapter_file_name(id: &str) -> (r: String)
    ensures
        r@ == "chapters/chapter-"@ + id@ + ".json"@,
{
    name_around("chapters/chapter-", id, ".json")
}

/// Where a scene's file lives inside its project folder.
pub fn scene_file_name(id: &str) -> (r: String)
    ensures
        r@ == "scenes/scene-"@ + id@ + ".json"@,
{
    name_around("scenes/scene-", id, ".json")
}

/// Where a character's file lives inside its project folder.
pub fn character_file_name(id: &str) -> (r: String)
    ensures
        r@ == "characters/character-"@ + id@ + ".json"@,
{
    name_around("characters/character-", id, ".json")
}

/// Where a location's file lives inside its project folder.
pub fn location_file_name(id: &str) -> (r: String)
    ensures
        r@ == "locations/location-"@ + id@ + ".json"@,
{
    name_around("locations/location-", id, ".json")
}

/// Where a lore entry's file lives inside its project folder.
pub fn lore_file_name(id: &str) -> (r: String)
    ensures
        r@ == "lore/lore-"@ + id@ + ".json"@,
{
    name_around("lore/lore-", id, ".json")
}

/// Where a timeline event's file lives inside its project folder.
pub fn timeline_event_file_name(id: &str) -> (r: String)
    ensures
        r@ == "timeline/event-"@ + id@ + ".json"@,
{
    name_around("timeline/event-", id, ".json")
}

/// The folder's manifest names this project id as the folder's identity.
pub open spec fn folder_claims(f: ProjectFolder, pid: Seq<char>) -> bool {
    f.manifest is Some && f.manifest->0.project_id@ == pid
}

/// Ids are unique within each kind directory of the folder.
pub open spec fn folder_wf(f: ProjectFolder) -> bool {
    &&& file_ids_unique(f.chapters.deep_view())
    &&& file_ids_unique(f.scenes.deep_view())
    &&& file_ids_unique(f.characters.deep_view())
    &&& file_ids_unique(f.locations.deep_view())
    &&& file_ids_unique(f.lore.deep_view())
    &&& file_ids_unique(f.timeline.deep_view())
}

/// Scan the project folders for the one whose manifest records this
/// project id; the first structural match wins. A folder without a
/// readable manifest is passed over.
pub fn find_project_folder(folders: &Vec<ProjectFolder>, project_id: &str) -> (r: Option<usize>)
    ensures
        match r {
            Some(i) => 0 <= i < folders@.len() && folder_claims(folders@[i as int], project_id@)
                && (forall|j: int| 0 <= j < i ==> !folder_claims(folders@[j], project_id@)),
            None => forall|j: int|
                0 <= j < folders@.len() ==> !folder_claims(folders@[j], project_id@),
        },
{
    let mut i: usize = 0;
    while i < folders.len()
        invariant
            i <= folders.len(),
            forall|j: int| 0 <= j < i ==> !folder_claims(folders@[j], project_id@),
        decreases folders.len() - i,
    {
        match &folders[i].manifest {
            Some(m) => {
                if crate::text::str_eq(m.project_id.as_str(), project_id) {
                    return Some(i);
                }
            },
            None => {},
        }
        i += 1;
    }
    None
}

/// What the manifest of a freshly created folder holds.
pub open spec fn fresh_manifest(m: ProjectManifest, p: <Project as DeepView>::V, now: Seq<char>) -> bool {
    &&& m.version@ == "1.0"@
    &&& m.project_id@ == p.id
    &&& m.title@ == p.title
    &&& m.created_at@ == now
    &&& m.updated_at@ == now
}

/// Create the folder for a project: the subdirectory skeleton, a manifest
/// recording the project's id, and the project record itself. The new
/// folder is appended to the workspace's folder list.
pub fn create_project_folder(folders: &mut Vec<ProjectFolder>, project: &Project, now: &str)
    ensures
        final(folders)@.len() == old(folders)@.len() + 1,
        forall|j: int| 0 <= j < old(folders)@.len() ==> final(folders)@[j] == old(folders)@[j],
        ({
            let f = final(folders)@.last();
            &&& f.name@ == spec_project_slug(project.deep_view().title, project.deep_view().id)
            &&& f.manifest is Some
            &&& fresh_manifest(f.manifest->0, project.deep_view(), now@)
            &&& f.project is Some
            &&& f.project->0.deep_view() == project.deep_view()
            &&& f.chapters@.len() == 0
            &&& f.scenes@.len() == 0
            &&& f.characters@.len() == 0
            &&& f.locations@.len() == 0
            &&& f.lore@.len() == 0
            &&& f.timeline@.len() == 0
            &&& f.images@.len() == 0
            &&& folder_wf(f)
            &&& folder_claims(f, project.deep_view().id)
        }),
{
    let name = project_slug(project.title.as_str(), project.id.as_str());
    let manifest = ProjectManifest {
        version: String::from_str("1.0"),
        project_id: project.id.clone(),
        title: project.title.clone(),
        created_at: now.to_owned(),
        updated_at: now.to_owned(),
    };
    let folder = ProjectFolder {
        name,
        manifest: Some(manifest),
        project: Some(project.clone()),
        chapters: Vec::new(),
        scenes: Vec::new(),
        characters: Vec::new(),
        locations: Vec::new(),
        lore: Vec::new(),
        timeline: Vec::new(),
        images: Vec::new(),
    };
    assert(file_ids_unique(folder.chapters.deep_view()));
    assert(file_ids_unique(folder.scenes.deep_view()));
    assert(file_ids_unique(folder.characters.deep_view()));
    assert(file_ids_unique(folder.locations.deep_view()));
    assert(file_ids_unique(folder.lore.deep_view()));
    assert(file_ids_unique(folder.timeline.deep_view()));
    folders.push(folder);
}

/// How a manifest is refreshed by a snapshot write: only `updated_at`
/// moves; a folder without a readable manifest keeps none.
pub open spec fn manifest_refreshed(
    pre: Option<ProjectManifest>,
    post: Option<ProjectManifest>,
    now: Seq<char>,
) -> bool {
    match pre {
        None => post is None,
        Some(m) => post is Some && {
            let n = post->0;
            &&& n.version@ == m.version@
            &&& n.project_id@ == m.project_id@
            &&& n.title@ == m.title@
            &&& n.created_at@ == m.created_at@
            &&& n.updated_at@ == now
        },
    }
}

/// Write a full snapshot of a project into its folder: the project record,
/// the manifest's refreshed timestamp, and one file per entity, named by
/// id. Files for ids not in the given collections are left in place.
pub fn write_project_to_folder(
    folder: &mut ProjectFolder,
    project: &Project,
    chapters: &Vec<Chapter>,
    scenes: &Vec<Scene>,
    characters: &Vec<Character>,
    locations: &Vec<Location>,
    lore_items: &Vec<LoreItem>,
    timeline_events: &Vec<TimelineEvent>,
    now: &str,
)
    requires
        folder_wf(*old(folder)),
    ensures
        folder_wf(*final(folder)),
        final(folder).name == old(folder).name,
        manifest_refreshed(old(folder).manifest, final(folder).manifest, now@),
        final(folder).project is Some && final(folder).project->0.deep_view()
            == project.deep_view(),
        final(folder).chapters.deep_view() == file_upsert_all::<Chapter>(
            old(folder).chapters.deep_view(),
            chapters.deep_view(),
        ),
        final(folder).scenes.deep_view() == file_upsert_all::<Scene>(
            old(folder).scenes.deep_view(),
            scenes.deep_view(),
        ),
        final(folder).characters.deep_view() == file_upsert_all::<Character>(
            old(folder).characters.deep_view(),
            characters.deep_view(),
        ),
        final(folder).locations.deep_view() == file_upsert_all::<Location>(
            old(folder).locations.deep_view(),
            locations.deep_view(),
        ),
        final(folder).lore.deep_view() == file_upsert_all::<LoreItem>(
            old(folder).lore.deep_view(),
            lore_items.deep_view(),
        ),
        final(folder).timeline.deep_view() == file_upsert_all::<TimelineEvent>(
            old(folder).timeline.deep_view(),
            timeline_events.deep_view(),
        ),
        final(folder).images == old(folder).images,
{
    let refreshed: Option<ProjectManifest> = match &folder.manifest {
        Some(m) => Some(
            ProjectManifest {
                version: m.version.clone(),
                project_id: m.project_id.clone(),
                title: m.title.clone(),
                created_at: m.created_at.clone(),
                updated_at: now.to_owned(),
            },
        ),
        None => None,
    };
    folder.manifest = refreshed;
    folder.project = Some(project.clone());
    upsert_entity_files::<Chapter>(&mut folder.chapters, chapters);
    upsert_entity_files::<Scene>(&mut folder.scenes, scenes);
    upsert_entity_files::<Character>(&mut folder.characters, characters);
    upsert_entity_files::<Location>(&mut folder.locations, locations);
    upsert_entity_files::<LoreItem>(&mut folder.lore, lore_items);
    upsert_entity_files::<TimelineEvent>(&mut folder.timeline, timeline_events);
}

/// Read a full snapshot back from a folder: the project record and every
/// readable entity file; a file that does not parse is skipped rather
/// than aborting the read.
pub fn read_project_from_folder(folder: &ProjectFolder) -> (r: Result<
    (Project, Vec<Chapter>, Vec<Scene>, Vec<Character>, Vec<Location>, Vec<LoreItem>, Vec<
        TimelineEvent,
    >),
    String,
>)
    ensures
        match r {
            Ok(t) => {
                &&& folder.project is Some
                &&& t.0.deep_view() == folder.project->0.deep_view()
                &&& t.1.deep_view() == parsed_files(folder.chapters.deep_view())
                &&& t.2.deep_view() == parsed_files(folder.scenes.deep_view())
                &&& t.3.deep_view() == parsed_files(folder.characters.deep_view())
                &&& t.4.deep_view() == parsed_files(folder.locations.deep_view())
                &&& t.5.deep_view() == parsed_files(folder.lore.deep_view())
                &&& t.6.deep_view() == parsed_files(folder.timeline.deep_view())
            },
            Err(_) => folder.project is None,
        },
        r is Ok <==> folder.project is Some,
{
    match &folder.project {
        None => Err(String::from_str("Failed to read project.json")),
        Some(p) => Ok(
            (
                p.clone(),
                read_entity_files::<Chapter>(&folder.chapters),
                read_entity_files::<Scene>(&folder.scenes),
                read_entity_files::<Character>(&folder.characters),
                read_entity_files::<Location>(&folder.locations),
                read_entity_files::<LoreItem>(&folder.lore),
                read_entity_files::<TimelineEvent>(&folder.timeline),
            ),
        ),
    }
}

} // verus!
