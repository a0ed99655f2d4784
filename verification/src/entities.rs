//! The typed entities of a project: one record kind per relational table.
//!
//! Loosely-typed JSON side data (banners, attribute histories, galleries)
//! is carried verbatim as an opaque blob of raw JSON text, so that it
//! round-trips through the tree representation unchanged.

use vstd::prelude::*;

verus! {

/// Raw JSON text carried through the persistence layer unchanged.
pub struct JsonBlob {
    pub raw: String,
}

impl DeepView for JsonBlob {
    type V = Seq<char>;

    open spec fn deep_view(&self) -> Seq<char> {
        self.raw@
    }
}

impl Clone for JsonBlob {
    fn clone(&self) -> (r: Self)
        ensures
            r.deep_view() == self.deep_view(),
    {
        JsonBlob { raw: self.raw.clone() }
    }
}

/// One entry of a location's gallery: the image reference is read and
/// rewritten by image externalization, everything else rides along verbatim.
pub struct GalleryItem {
    pub url: Option<String>,
    pub extra: JsonBlob,
}

pub ghost struct GalleryItemV {
    pub url: Option<Seq<char>>,
    pub extra: Seq<char>,
}

impl DeepView for GalleryItem {
    type V = GalleryItemV;

    open spec fn deep_view(&self) -> GalleryItemV {
        GalleryItemV { url: self.url.deep_view(), extra: self.extra.deep_view() }
    }
}

impl Clone for GalleryItem {
    fn clone(&self) -> (r: Self)
        ensures
            r.deep_view() == self.deep_view(),
    {
        GalleryItem { url: clone_opt_string(&self.url), extra: self.extra.clone() }
    }
}

pub fn clone_opt_string(s: &Option<String>) -> (r: Option<String>)
    ensures
        r.deep_view() == s.deep_view(),
{
    match s {
        Some(x) => Some(x.clone()),
        None => None,
    }
}

pub fn clone_strings(v: &Vec<String>) -> (r: Vec<String>)
    ensures
        r.deep_view() == v.deep_view(),
{
    let mut r: Vec<String> = Vec::new();
    let mut i: usize = 0;
    while i < v.len()
        invariant
            i <= v.len(),
            r.len() == i,
            forall|j: int| 0 <= j < i ==> r.deep_view()[j] == v.deep_view()[j],
        decreases v.len() - i,
    {
        r.push(v[i].clone());
        i += 1;
    }
    assert(r.deep_view() =~~= v.deep_view());
    r
}

pub fn clone_opt_blob(b: &Option<JsonBlob>) -> (r: Option<JsonBlob>)
    ensures
        r.deep_view() == b.deep_view(),
{
    match b {
        Some(x) => Some(x.clone()),
        None => None,
    }
}

pub fn clone_blobs(v: &Vec<JsonBlob>) -> (r: Vec<JsonBlob>)
    ensures
        r.deep_view() == v.deep_view(),
{
    let mut r: Vec<JsonBlob> = Vec::new();
    let mut i: usize = 0;
    while i < v.len()
        invariant
            i <= v.len(),
            r.len() == i,
            forall|j: int| 0 <= j < i ==> r.deep_view()[j] == v.deep_view()[j],
        decreases v.len() - i,
    {
        r.push(v[i].clone());
        i += 1;
    }
    assert(r.deep_view() =~~= v.deep_view());
    r
}

/// A project: the root record every other entity belongs to.
pub struct Project {
    pub id: String,
    pub title: String,
    pub author: Option<String>,
    pub description: Option<String>,
    pub genre: Option<String>,
    pub is_rpg_mode_enabled: bool,
    pub rpg_system: Option<String>,
    pub banners: Option<JsonBlob>,
    pub api_keys: Option<JsonBlob>,
    pub world_rules: Option<JsonBlob>,
}

pub ghost struct ProjectV {
    pub id: Seq<char>,
    pub title: Seq<char>,
    pub author: Option<Seq<char>>,
    pub description: Option<Seq<char>>,
    pub genre: Option<Seq<char>>,
    pub is_rpg_mode_enabled: bool,
    pub rpg_system: Option<Seq<char>>,
    pub banners: Option<Seq<char>>,
    pub api_keys: Option<Seq<char>>,
    pub world_rules: Option<Seq<char>>,
}

impl DeepView for Project {
    type V = ProjectV;

    open spec fn deep_view(&self) -> ProjectV {
        ProjectV {
            id: self.id@,
            title: self.title@,
            author: self.author.deep_view(),
            description: self.description.deep_view(),
            genre: self.genre.deep_view(),
            is_rpg_mode_enabled: self.is_rpg_mode_enabled,
            rpg_system: self.rpg_system.deep_view(),
            banners: self.banners.deep_view(),
            api_keys: self.api_keys.deep_view(),
            world_rules: self.world_rules.deep_view(),
        }
    }
}

impl Clone for Project {
    fn clone(&self) -> (r: Self)
        ensures
            r.deep_view() == self.deep_view(),
    {
        Project {
            id: self.id.clone(),
            title: self.title.clone(),
            author: clone_opt_string(&self.author),
            description: clone_opt_string(&self.description),
            genre: clone_opt_string(&self.genre),
            is_rpg_mode_enabled: self.is_rpg_mode_enabled,
            rpg_system: clone_opt_string(&self.rpg_system),
            banners: clone_opt_blob(&self.banners),
            api_keys: clone_opt_blob(&self.api_keys),
            world_rules: clone_opt_blob(&self.world_rules),
        }
    }
}

/// A chapter of a project.
pub struct Chapter {
    pub id: String,
    pub project_id: String,
    pub title: String,
    pub content: String,
    pub status: String,
    pub word_count: i32,
    pub summary: Option<String>,
    pub number: Option<i32>,
    pub image: Option<String>,
    pub image_type: Option<String>,
}

pub ghost struct ChapterV {
    pub id: Seq<char>,
    pub project_id: Seq<char>,
    pub title: Seq<char>,
    pub content: Seq<char>,
    pub status: Seq<char>,
    pub word_count: i32,
    pub summary: Option<Seq<char>>,
    pub number: Option<i32>,
    pub image: Option<Seq<char>>,
    pub image_type: Option<Seq<char>>,
}

impl DeepView for Chapter {
    type V = ChapterV;

    open spec fn deep_view(&self) -> ChapterV {
        ChapterV {
            id: self.id@,
            project_id: self.project_id@,
            title: self.title@,
            content: self.content@,
            status: self.status@,
            word_count: self.word_count,
            summary: self.summary.deep_view(),
            number: self.number.deep_view(),
            image: self.image.deep_view(),
            image_type: self.image_type.deep_view(),
        }
    }
}

impl Clone for Chapter {
    fn clone(&self) -> (r: Self)
        ensures
            r.deep_view() == self.deep_view(),
    {
        Chapter {
            id: self.id.clone(),
            project_id: self.project_id.clone(),
            title: self.title.clone(),
            content: self.content.clone(),
            status: self.status.clone(),
            word_count: self.word_count,
            summary: clone_opt_string(&self.summary),
            number: self.number.clone(),
            image: clone_opt_string(&self.image),
            image_type: clone_opt_string(&self.image_type),
        }
    }
}

/// A scene inside a chapter.
pub struct Scene {
    pub id: String,
    pub chapter_id: String,
    pub title: String,
    pub character_ids: Vec<String>,
    pub location_id: Option<String>,
    pub timeline_position: i32,
    pub description: Option<String>,
    pub notes: Option<String>,
    pub image: Option<String>,
    pub image_type: Option<String>,
}

pub ghost struct SceneV {
    pub id: Seq<char>,
    pub chapter_id: Seq<char>,
    pub title: Seq<char>,
    pub character_ids: Seq<Seq<char>>,
    pub location_id: Option<Seq<char>>,
    pub timeline_position: i32,
    pub description: Option<Seq<char>>,
    pub notes: Option<Seq<char>>,
    pub image: Option<Seq<char>>,
    pub image_type: Option<Seq<char>>,
}

impl DeepView for Scene {
    type V = SceneV;

    open spec fn deep_view(&self) -> SceneV {
        SceneV {
            id: self.id@,
            chapter_id: self.chapter_id@,
            title: self.title@,
            character_ids: self.character_ids.deep_view(),
            location_id: self.location_id.deep_view(),
            timeline_position: self.timeline_position,
            description: self.description.deep_view(),
            notes: self.notes.deep_view(),
            image: self.image.deep_view(),
            image_type: self.image_type.deep_view(),
        }
    }
}

impl Clone for Scene {
    fn clone(&self) -> (r: Self)
        ensures
            r.deep_view() == self.deep_view(),
    {
        Scene {
            id: self.id.clone(),
            chapter_id: self.chapter_id.clone(),
            title: self.title.clone(),
            character_ids: clone_strings(&self.character_ids),
            location_id: clone_opt_string(&self.location_id),
            timeline_position: self.timeline_position,
            description: clone_opt_string(&self.description),
            notes: clone_opt_string(&self.notes),
            image: clone_opt_string(&self.image),
            image_type: clone_opt_string(&self.image_type),
        }
    }
}

/// A relationship record embedded in its owning character.
pub struct Relationship {
    pub id: String,
    pub character_id: String,
    pub current_type: Option<String>,
    pub current_status: Option<String>,
    pub current_description: Option<String>,
    pub is_secret: bool,
    pub history: Vec<JsonBlob>,
}

pub ghost struct RelationshipV {
    pub id: Seq<char>,
    pub character_id: Seq<char>,
    pub current_type: Option<Seq<char>>,
    pub current_status: Option<Seq<char>>,
    pub current_description: Option<Seq<char>>,
    pub is_secret: bool,
    pub history: Seq<Seq<char>>,
}

impl DeepView for Relationship {
    type V = RelationshipV;

    open spec fn deep_view(&self) -> RelationshipV {
        RelationshipV {
            id: self.id@,
            character_id: self.character_id@,
            current_type: self.current_type.deep_view(),
            current_status: self.current_status.deep_view(),
            current_description: self.current_description.deep_view(),
            is_secret: self.is_secret,
            history: self.history.deep_view(),
        }
    }
}

impl Clone for Relationship {
    fn clone(&self) -> (r: Self)
        ensures
            r.deep_view() == self.deep_view(),
    {
        Relationship {
            id: self.id.clone(),
            character_id: self.character_id.clone(),
            current_type: clone_opt_string(&self.current_type),
            current_status: clone_opt_string(&self.current_status),
            current_description: clone_opt_string(&self.current_description),
            is_secret: self.is_secret,
            history: clone_blobs(&self.history),
        }
    }
}

fn clone_relationships(v: &Vec<Relationship>) -> (r: Vec<Relationship>)
    ensures
        r.deep_view() == v.deep_view(),
{
    let mut r: Vec<Relationship> = Vec::new();
    let mut i: usize = 0;
    while i < v.len()
        invariant
            i <= v.len(),
            r.len() == i,
            forall|j: int| 0 <= j < i ==> r.deep_view()[j] == v.deep_view()[j],
        decreases v.len() - i,
    {
        r.push(v[i].clone());
        i += 1;
    }
    assert(r.deep_view() =~~= v.deep_view());
    r
}

fn clone_gallery(v: &Vec<GalleryItem>) -> (r: Vec<GalleryItem>)
    ensures
        r.deep_view() == v.deep_view(),
{
    let mut r: Vec<GalleryItem> = Vec::new();
    let mut i: usize = 0;
    while i < v.len()
        invariant
            i <= v.len(),
            r.len() == i,
            forall|j: int| 0 <= j < i ==> r.deep_view()[j] == v.deep_view()[j],
        decreases v.len() - i,
    {
        r.push(v[i].clone());
        i += 1;
    }
    assert(r.deep_view() =~~= v.deep_view());
    r
}

/// A character of a project, with its embedded relationships.
pub struct Character {
    pub id: String,
    pub project_id: String,
    pub name: String,
    pub role: String,
    pub avatar_url: Option<String>,
    pub physical_description: Option<String>,
    pub personality: Option<String>,
    pub history: Option<String>,
    pub notes: Option<String>,
    pub attributes: Option<JsonBlob>,
    pub attribute_history: Option<JsonBlob>,
    pub vital_status_history: Vec<JsonBlob>,
    pub current_vital_status: Option<String>,
    pub visual_position: Option<JsonBlob>,
    pub relationships: Vec<Relationship>,
}

pub ghost struct CharacterV {
    pub id: Seq<char>,
    pub project_id: Seq<char>,
    pub name: Seq<char>,
    pub role: Seq<char>,
    pub avatar_url: Option<Seq<char>>,
    pub physical_description: Option<Seq<char>>,
    pub personality: Option<Seq<char>>,
    pub history: Option<Seq<char>>,
    pub notes: Option<Seq<char>>,
    pub attributes: Option<Seq<char>>,
    pub attribute_history: Option<Seq<char>>,
    pub vital_status_history: Seq<Seq<char>>,
    pub current_vital_status: Option<Seq<char>>,
    pub visual_position: Option<Seq<char>>,
    pub relationships: Seq<RelationshipV>,
}

impl DeepView for Character {
    type V = CharacterV;

    open spec fn deep_view(&self) -> CharacterV {
        CharacterV {
            id: self.id@,
            project_id: self.project_id@,
            name: self.name@,
            role: self.role@,
            avatar_url: self.avatar_url.deep_view(),
            physical_description: self.physical_description.deep_view(),
            personality: self.personality.deep_view(),
            history: self.history.deep_view(),
            notes: self.notes.deep_view(),
            attributes: self.attributes.deep_view(),
            attribute_history: self.attribute_history.deep_view(),
            vital_status_history: self.vital_status_history.deep_view(),
            current_vital_status: self.current_vital_status.deep_view(),
            visual_position: self.visual_position.deep_view(),
            relationships: self.relationships.deep_view(),
        }
    }
}

impl Clone for Character {
    fn clone(&self) -> (r: Self)
        ensures
            r.deep_view() == self.deep_view(),
    {
        Character {
            id: self.id.clone(),
            project_id: self.project_id.clone(),
            name: self.name.clone(),
            role: self.role.clone(),
            avatar_url: clone_opt_string(&self.avatar_url),
            physical_description: clone_opt_string(&self.physical_description),
            personality: clone_opt_string(&self.personality),
            history: clone_opt_string(&self.history),
            notes: clone_opt_string(&self.notes),
            attributes: clone_opt_blob(&self.attributes),
            attribute_history: clone_opt_blob(&self.attribute_history),
            vital_status_history: clone_blobs(&self.vital_status_history),
            current_vital_status: clone_opt_string(&self.current_vital_status),
            visual_position: clone_opt_blob(&self.visual_position),
            relationships: clone_relationships(&self.relationships),
        }
    }
}

/// A location of a project.
pub struct Location {
    pub id: String,
    pub project_id: String,
    pub name: String,
    pub image_url: Option<String>,
    pub location_type: Option<String>,
    pub description: Option<String>,
    pub significance: Option<String>,
    pub notes: Option<String>,
    pub gallery: Vec<GalleryItem>,
    pub plans: Vec<JsonBlob>,
    pub connections: Vec<JsonBlob>,
    pub visual_position: Option<JsonBlob>,
}

pub ghost struct LocationV {
    pub id: Seq<char>,
    pub project_id: Seq<char>,
    pub name: Seq<char>,
    pub image_url: Option<Seq<char>>,
    pub location_type: Option<Seq<char>>,
    pub description: Option<Seq<char>>,
    pub significance: Option<Seq<char>>,
    pub notes: Option<Seq<char>>,
    pub gallery: Seq<GalleryItemV>,
    pub plans: Seq<Seq<char>>,
    pub connections: Seq<Seq<char>>,
    pub visual_position: Option<Seq<char>>,
}

impl DeepView for Location {
    type V = LocationV;

    open spec fn deep_view(&self) -> LocationV {
        LocationV {
            id: self.id@,
            project_id: self.project_id@,
            name: self.name@,
            image_url: self.image_url.deep_view(),
            location_type: self.location_type.deep_view(),
            description: self.description.deep_view(),
            significance: self.significance.deep_view(),
            notes: self.notes.deep_view(),
            gallery: self.gallery.deep_view(),
            plans: self.plans.deep_view(),
            connections: self.connections.deep_view(),
            visual_position: self.visual_position.deep_view(),
        }
    }
}

impl Clone for Location {
    fn clone(&self) -> (r: Self)
        ensures
            r.deep_view() == self.deep_view(),
    {
        Location {
            id: self.id.clone(),
            project_id: self.project_id.clone(),
            name: self.name.clone(),
            image_url: clone_opt_string(&self.image_url),
            location_type: clone_opt_string(&self.location_type),
            description: clone_opt_string(&self.description),
            significance: clone_opt_string(&self.significance),
            notes: clone_opt_string(&self.notes),
            gallery: clone_gallery(&self.gallery),
            plans: clone_blobs(&self.plans),
            connections: clone_blobs(&self.connections),
            visual_position: clone_opt_blob(&self.visual_position),
        }
    }
}

/// A lore entry of a project.
pub struct LoreItem {
    pub id: String,
    pub project_id: String,
    pub title: String,
    pub category: Option<String>,
    pub content: String,
    pub summary: Option<String>,
    pub related_entity_ids: Vec<String>,
}

pub ghost struct LoreItemV {
    pub id: Seq<char>,
    pub project_id: Seq<char>,
    pub title: Seq<char>,
    pub category: Option<Seq<char>>,
    pub content: Seq<char>,
    pub summary: Option<Seq<char>>,
    pub related_entity_ids: Seq<Seq<char>>,
}

impl DeepView for LoreItem {
    type V = LoreItemV;

    open spec fn deep_view(&self) -> LoreItemV {
        LoreItemV {
            id: self.id@,
            project_id: self.project_id@,
            title: self.title@,
            category: self.category.deep_view(),
            content: self.content@,
            summary: self.summary.deep_view(),
            related_entity_ids: self.related_entity_ids.deep_view(),
        }
    }
}

impl Clone for LoreItem {
    fn clone(&self) -> (r: Self)
        ensures
            r.deep_view() == self.deep_view(),
    {
        LoreItem {
            id: self.id.clone(),
            project_id: self.project_id.clone(),
            title: self.title.clone(),
            category: clone_opt_string(&self.category),
            content: self.content.clone(),
            summary: clone_opt_string(&self.summary),
            related_entity_ids: clone_strings(&self.related_entity_ids),
        }
    }
}

/// A timeline event of a project.
pub struct TimelineEvent {
    pub id: String,
    pub project_id: String,
    pub title: String,
    pub description: Option<String>,
    pub date_mode: String,
    pub date: Option<String>,
    pub era: Option<String>,
    pub participants: Vec<String>,
    pub location_id: Option<String>,
    pub importance: String,
    pub tags: Vec<String>,
    pub scene_id: Option<String>,
    pub chapter_id: Option<String>,
}

pub ghost struct TimelineEventV {
    pub id: Seq<char>,
    pub project_id: Seq<char>,
    pub title: Seq<char>,
    pub description: Option<Seq<char>>,
    pub date_mode: Seq<char>,
    pub date: Option<Seq<char>>,
    pub era: Option<Seq<char>>,
    pub participants: Seq<Seq<char>>,
    pub location_id: Option<Seq<char>>,
    pub importance: Seq<char>,
    pub tags: Seq<Seq<char>>,
    pub scene_id: Option<Seq<char>>,
    pub chapter_id: Option<Seq<char>>,
}

impl DeepView for TimelineEvent {
    type V = TimelineEventV;

    open spec fn deep_view(&self) -> TimelineEventV {
        TimelineEventV {
            id: self.id@,
            project_id: self.project_id@,
            title: self.title@,
            description: self.description.deep_view(),
            date_mode: self.date_mode@,
            date: self.date.deep_view(),
            era: self.era.deep_view(),
            participants: self.participants.deep_view(),
            location_id: self.location_id.deep_view(),
            importance: self.importance@,
            tags: self.tags.deep_view(),
            scene_id: self.scene_id.deep_view(),
            chapter_id: self.chapter_id.deep_view(),
        }
    }
}

impl Clone for TimelineEvent {
    fn clone(&self) -> (r: Self)
        ensures
            r.deep_view() == self.deep_view(),
    {
        TimelineEvent {
            id: self.id.clone(),
            project_id: self.project_id.clone(),
            title: self.title.clone(),
            description: clone_opt_string(&self.description),
            date_mode: self.date_mode.clone(),
            date: clone_opt_string(&self.date),
            era: clone_opt_string(&self.era),
            participants: clone_strings(&self.participants),
            location_id: clone_opt_string(&self.location_id),
            importance: self.importance.clone(),
            tags: clone_strings(&self.tags),
            scene_id: clone_opt_string(&self.scene_id),
            chapter_id: clone_opt_string(&self.chapter_id),
        }
    }
}

/// The status a chapter starts in.
pub fn default_status() -> (r: String)
    ensures
        r@ == "draft"@,
{
    String::from_str("draft")
}

/// The role a character carries unless one is chosen.
pub fn default_role() -> (r: String)
    ensures
        r@ == "secondary"@,
{
    String::from_str("secondary")
}

/// How a timeline event is dated unless a mode is chosen.
pub fn default_date_mode() -> (r: String)
    ensures
        r@ == "absolute"@,
{
    String::from_str("absolute")
}

/// The weight a timeline event carries unless one is chosen.
pub fn default_importance() -> (r: String)
    ensures
        r@ == "medium"@,
{
    String::from_str("medium")
}

/// A record kind that is identified by a stable `id` field and can be
/// duplicated without loss. File naming, folder sync and store upserts
/// are all keyed on this identity.
pub trait Entity: DeepView + Sized {
    /// The identity of an abstract record value.
    spec fn view_id(v: Self::V) -> Seq<char>;

    /// The identity of a concrete record.
    fn entity_id(&self) -> (r: &String)
        ensures
            r@ == Self::view_id(self.deep_view()),
    ;

    /// An equal copy of the record.
    fn clone_entity(&self) -> (r: Self)
        ensures
            r.deep_view() == self.deep_view(),
    ;
}

impl Entity for Project {
    open spec fn view_id(v: ProjectV) -> Seq<char> {
        v.id
    }

    fn entity_id(&self) -> (r: &String) {
        &self.id
    }

    fn clone_entity(&self) -> (r: Self) {
        self.clone()
    }
}

impl Entity for Chapter {
    open spec fn view_id(v: ChapterV) -> Seq<char> {
        v.id
    }

    fn entity_id(&self) -> (r: &String) {
        &self.id
    }

    fn clone_entity(&self) -> (r: Self) {
        self.clone()
    }
}

impl Entity for Scene {
    open spec fn view_id(v: SceneV) -> Seq<char> {
        v.id
    }

    fn entity_id(&self) -> (r: &String) {
        &self.id
    }

    fn clone_entity(&self) -> (r: Self) {
        self.clone()
    }
}

impl Entity for Character {
    open spec fn view_id(v: CharacterV) -> Seq<char> {
        v.id
    }

    fn entity_id(&self) -> (r: &String) {
        &self.id
    }

    fn clone_entity(&self) -> (r: Self) {
        self.clone()
    }
}

impl Entity for Location {
    open spec fn view_id(v: LocationV) -> Seq<char> {
        v.id
    }

    fn entity_id(&self) -> (r: &String) {
        &self.id
    }

    fn clone_entity(&self) -> (r: Self) {
        self.clone()
    }
}

impl Entity for LoreItem {
    open spec fn view_id(v: LoreItemV) -> Seq<char> {
        v.id
    }

    fn entity_id(&self) -> (r: &String) {
        &self.id
    }

    fn clone_entity(&self) -> (r: Self) {
        self.clone()
    }
}

impl Entity for TimelineEvent {
    open spec fn view_id(v: TimelineEventV) -> Seq<char> {
        v.id
    }

    fn entity_id(&self) -> (r: &String) {
        &self.id
    }

    fn clone_entity(&self) -> (r: Self) {
        self.clone()
    }
}

} // verus!
