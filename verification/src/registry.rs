//! Content package registries: the registry and catalog data types, the
//! official source, URL derivation for raw registry files, and the pure
//! catalog/update computations over fetched indexes.

use vstd::prelude::*;

use crate::text::last_index_of;
use crate::text::lemma_last_index_of_props;
use crate::text::rfind_char_before;
use crate::text::spec_ends_with;
use crate::text::str_ends_with;

verus! {

/// What a package contributes: content, identity, or both.
pub enum PackageCategory {
    Content,
    Identity,
    Hybrid,
}

impl PackageCategory {
    /// The lowercase word the registry schema uses for this category.
    pub fn label(&self) -> (r: String)
        ensures
            match self {
                PackageCategory::Content => r@ == "content"@,
                PackageCategory::Identity => r@ == "identity"@,
                PackageCategory::Hybrid => r@ == "hybrid"@,
            },
    {
        match self {
            PackageCategory::Content => String::from_str("content"),
            PackageCategory::Identity => String::from_str("identity"),
            PackageCategory::Hybrid => String::from_str("hybrid"),
        }
    }
}

impl Clone for PackageCategory {
    fn clone(&self) -> (r: Self)
        ensures
            r == *self,
    {
        match self {
            PackageCategory::Content => PackageCategory::Content,
            PackageCategory::Identity => PackageCategory::Identity,
            PackageCategory::Hybrid => PackageCategory::Hybrid,
        }
    }
}

/// A package's name and description in one language.
pub struct PackageMetadata {
    pub name: String,
    pub description: String,
}

/// Styling a package may carry, with banner images per context.
pub struct PackageStyles {
    pub theme: Option<String>,
    pub primary_color: Option<String>,
    pub secondary_color: Option<String>,
    pub font_family: Option<String>,
    pub banners: Vec<(String, String)>,
}

/// One configured registry.
pub struct RegistrySource {
    pub id: String,
    pub url: String,
    pub name: String,
    pub enabled: bool,
    pub is_official: bool,
}

/// The index a registry serves.
pub struct RegistryIndex {
    pub schema_version: String,
    pub registry_id: String,
    pub name: String,
    pub updated_at: Option<String>,
    pub packages: Vec<RegistryPackageEntry>,
}

/// One package as a registry lists it; metadata is keyed by language.
pub struct RegistryPackageEntry {
    pub id: String,
    pub version: String,
    pub author: String,
    pub category: PackageCategory,
    pub min_app_version: Option<String>,
    pub metadata: Vec<(String, PackageMetadata)>,
    pub download_url: String,
    pub size_bytes: u64,
    pub checksum_sha256: String,
    pub tags: Vec<String>,
}

/// A registry entry merged with local installation state.
pub struct CatalogPackage {
    pub id: String,
    pub version: String,
    pub author: String,
    pub category: PackageCategory,
    pub min_app_version: Option<String>,
    pub metadata: Vec<(String, PackageMetadata)>,
    pub download_url: String,
    pub size_bytes: u64,
    pub checksum_sha256: String,
    pub tags: Vec<String>,
    pub registry_id: String,
    pub is_installed: bool,
    pub installed_version: Option<String>,
    pub has_update: bool,
}

/// A locally installed package as the settings store records it.
pub struct InstalledPackageInfo {
    pub id: String,
    pub version: String,
    pub author: String,
    pub category: String,
    pub registry_id: String,
    pub metadata: String,
    pub checksum: String,
    pub size_bytes: i64,
    pub install_path: String,
    pub installed_at: Option<String>,
    pub updated_at: Option<String>,
}

/// An available update for an installed package.
pub struct PackageUpdateInfo {
    pub id: String,
    pub current_version: String,
    pub available_version: String,
    pub registry_id: String,
}

/// The built-in official registry.
pub fn official_registry() -> (r: RegistrySource)
    ensures
        r.id@ == "plumai-official"@,
        r.url@ == "https://github.com/studio33-lab/plumai-store"@,
        r.name@ == "PlumAi Official Packages"@,
        r.enabled,
        r.is_official,
{
    RegistrySource {
        id: String::from_str("plumai-official"),
        url: String::from_str("https://github.com/studio33-lab/plumai-store"),
        name: String::from_str("PlumAi Official Packages"),
        enabled: true,
        is_official: true,
    }
}

/// The string with every trailing occurrence of the character removed.
pub open spec fn trim_end_char(s: Seq<char>, c: char) -> Seq<char>
    decreases s.len(),
{
    if s.len() > 0 && s.last() == c {
        trim_end_char(s.drop_last(), c)
    } else {
        s
    }
}

/// The string with every trailing occurrence of the suffix removed.
pub open spec fn trim_end_suffix(s: Seq<char>, suffix: Seq<char>) -> Seq<char>
    decreases s.len(),
{
    if suffix.len() > 0 && spec_ends_with(s, suffix) {
        trim_end_suffix(s.take(s.len() - suffix.len()), suffix)
    } else {
        s
    }
}

/// The string with every leading occurrence of the character removed.
pub open spec fn trim_start_char(s: Seq<char>, c: char) -> Seq<char>
    decreases s.len(),
{
    if s.len() > 0 && s[0] == c {
        trim_start_char(s.skip(1), c)
    } else {
        s
    }
}

/// The owner and repository segments parsed out of a GitHub repository
/// URL, after trailing slashes and `.git` suffixes are stripped.
pub open spec fn spec_repo_segments(u: Seq<char>) -> Option<(Seq<char>, Seq<char>)> {
    let p1 = last_index_of(u, '/');
    if p1 < 0 {
        None
    } else {
        let repo = u.skip(p1 + 1);
        let head = u.take(p1);
        let p0 = last_index_of(head, '/');
        let owner = if p0 < 0 {
            head
        } else {
            head.skip(p0 + 1)
        };
        Some((owner, repo))
    }
}

/// What `github_raw_url` produces from a repository URL and a file path.
pub open spec fn spec_github_raw_url(repo_url: Seq<char>, path: Seq<char>) -> Option<Seq<char>> {
    let u = trim_end_suffix(trim_end_char(repo_url, '/'), ".git"@);
    match spec_repo_segments(u) {
        None => None,
        Some((owner, repo)) => {
            if owner.len() == 0 || repo.len() == 0 {
                None
            } else {
                Some(
                    "https://raw.githubusercontent.com/"@ + owner + "/"@ + repo + "/main/"@
                        + trim_start_char(path, '/'),
                )
            }
        },
    }
}

/// The first entry of an index carrying this package id.
pub open spec fn spec_find_entry_in(
    entries: Seq<RegistryPackageEntry>,
    id: Seq<char>,
) -> Option<RegistryPackageEntry>
    decreases entries.len(),
{
    if entries.len() == 0 {
        None
    } else if entries[0].id@ == id {
        Some(entries[0])
    } else {
        spec_find_entry_in(entries.skip(1), id)
    }
}

/// The first registry whose index carries this package id, with the entry.
pub open spec fn spec_find_entry(
    regs: Seq<(String, RegistryIndex)>,
    id: Seq<char>,
) -> Option<(Seq<char>, RegistryPackageEntry)>
    decreases regs.len(),
{
    if regs.len() == 0 {
        None
    } else {
        match spec_find_entry_in(regs[0].1.packages@, id) {
            Some(e) => Some((regs[0].0@, e)),
            None => spec_find_entry(regs.skip(1), id),
        }
    }
}

pub proof fn lemma_find_entry_in_at(entries: Seq<RegistryPackageEntry>, id: Seq<char>, k: int)
    requires
        0 <= k < entries.len(),
        entries[k].id@ == id,
        forall|j: int| 0 <= j < k ==> entries[j].id@ != id,
    ensures
        spec_find_entry_in(entries, id) == Some(entries[k]),
    decreases k,
{
    if k > 0 {
        assert(forall|j: int| 0 <= j < entries.skip(1).len() ==> entries.skip(1)[j] == entries[j
            + 1]);
        lemma_find_entry_in_at(entries.skip(1), id, k - 1);
    }
}

pub proof fn lemma_find_entry_in_none(entries: Seq<RegistryPackageEntry>, id: Seq<char>)
    requires
        forall|j: int| 0 <= j < entries.len() ==> entries[j].id@ != id,
    ensures
        spec_find_entry_in(entries, id) is None,
    decreases entries.len(),
{
    if entries.len() > 0 {
        assert(forall|j: int| 0 <= j < entries.skip(1).len() ==> entries.skip(1)[j] == entries[j
            + 1]);
        lemma_find_entry_in_none(entries.skip(1), id);
    }
}

pub proof fn lemma_find_entry_at(
    regs: Seq<(String, RegistryIndex)>,
    id: Seq<char>,
    gi: int,
    e: RegistryPackageEntry,
)
    requires
        0 <= gi < regs.len(),
        forall|g: int| 0 <= g < gi ==> spec_find_entry_in(regs[g].1.packages@, id) is None,
        spec_find_entry_in(regs[gi].1.packages@, id) == Some(e),
    ensures
        spec_find_entry(regs, id) == Some((regs[gi].0@, e)),
    decreases gi,
{
    if gi > 0 {
        assert(forall|g: int| 0 <= g < regs.skip(1).len() ==> regs.skip(1)[g] == regs[g + 1]);
        lemma_find_entry_at(regs.skip(1), id, gi - 1, e);
    }
}

pub proof fn lemma_find_entry_none(regs: Seq<(String, RegistryIndex)>, id: Seq<char>)
    requires
        forall|g: int| 0 <= g < regs.len() ==> spec_find_entry_in(regs[g].1.packages@, id) is None,
    ensures
        spec_find_entry(regs, id) is None,
    decreases regs.len(),
{
    if regs.len() > 0 {
        assert(forall|g: int| 0 <= g < regs.skip(1).len() ==> regs.skip(1)[g] == regs[g + 1]);
        lemma_find_entry_none(regs.skip(1), id);
    }
}

/// The updates due: one record per installed package whose first listing
/// across the registries carries a different version.
pub open spec fn spec_check_updates(
    regs: Seq<(String, RegistryIndex)>,
    installed: Seq<InstalledPackageInfo>,
) -> Seq<(Seq<char>, Seq<char>, Seq<char>, Seq<char>)>
    decreases installed.len(),
{
    if installed.len() == 0 {
        Seq::empty()
    } else {
        spec_check_updates(regs, installed.drop_last()) + ({
            let inst = installed.last();
            match spec_find_entry(regs, inst.id@) {
                Some(hit) => if hit.1.version@ != inst.version@ {
                    seq![(inst.id@, inst.version@, hit.1.version@, hit.0)]
                } else {
                    Seq::empty()
                },
                None => Seq::empty(),
            }
        })
    }
}

/// The first installed record carrying this package id.
pub open spec fn spec_find_installed(
    installed: Seq<InstalledPackageInfo>,
    id: Seq<char>,
) -> Option<InstalledPackageInfo>
    decreases installed.len(),
{
    if installed.len() == 0 {
        None
    } else if installed[0].id@ == id {
        Some(installed[0])
    } else {
        spec_find_installed(installed.skip(1), id)
    }
}

pub proof fn lemma_find_installed_at(installed: Seq<InstalledPackageInfo>, id: Seq<char>, k: int)
    requires
        0 <= k < installed.len(),
        installed[k].id@ == id,
        forall|j: int| 0 <= j < k ==> installed[j].id@ != id,
    ensures
        spec_find_installed(installed, id) == Some(installed[k]),
    decreases k,
{
    if k > 0 {
        assert(forall|j: int|
            0 <= j < installed.skip(1).len() ==> installed.skip(1)[j] == installed[j + 1]);
        lemma_find_installed_at(installed.skip(1), id, k - 1);
    }
}

pub proof fn lemma_find_installed_none(installed: Seq<InstalledPackageInfo>, id: Seq<char>)
    requires
        forall|j: int| 0 <= j < installed.len() ==> installed[j].id@ != id,
    ensures
        spec_find_installed(installed, id) is None,
    decreases installed.len(),
{
    if installed.len() > 0 {
        assert(forall|j: int|
            0 <= j < installed.skip(1).len() ==> installed.skip(1)[j] == installed[j + 1]);
        lemma_find_installed_none(installed.skip(1), id);
    }
}

/// A catalog row carries exactly one registry entry's data, tagged with
/// the registry it came from.
pub open spec fn catalog_matches_entry(
    c: CatalogPackage,
    e: RegistryPackageEntry,
    rid: Seq<char>,
) -> bool {
    &&& c.id@ == e.id@
    &&& c.version@ == e.version@
    &&& c.author@ == e.author@
    &&& c.category == e.category
    &&& c.min_app_version.deep_view() == e.min_app_version.deep_view()
    &&& c.metadata@.len() == e.metadata@.len()
    &&& forall|m: int|
        0 <= m < e.metadata@.len() ==> (#[trigger] c.metadata@[m]).0@ == e.metadata@[m].0@
            && c.metadata@[m].1.name@ == e.metadata@[m].1.name@ && c.metadata@[m].1.description@
            == e.metadata@[m].1.description@
    &&& c.download_url@ == e.download_url@
    &&& c.size_bytes == e.size_bytes
    &&& c.checksum_sha256@ == e.checksum_sha256@
    &&& c.tags.deep_view() == e.tags.deep_view()
    &&& c.registry_id@ == rid
}

/// The installation flags a catalog row must carry, judged against the
/// first installed record with its id.
pub open spec fn catalog_install_flags(
    c: CatalogPackage,
    installed: Seq<InstalledPackageInfo>,
) -> bool {
    match spec_find_installed(installed, c.id@) {
        Some(inst) => c.is_installed && (c.installed_version matches Some(v) && v@ == inst.version@)
            && c.has_update == (inst.version@ != c.version@),
        None => !c.is_installed && c.installed_version is None && !c.has_update,
    }
}

fn clone_metadata(v: &Vec<(String, PackageMetadata)>) -> (r: Vec<(String, PackageMetadata)>)
    ensures
        r@.len() == v@.len(),
        forall|m: int|
            0 <= m < v@.len() ==> (#[trigger] r@[m]).0@ == v@[m].0@ && r@[m].1.name@
                == v@[m].1.name@ && r@[m].1.description@ == v@[m].1.description@,
{
    let mut r: Vec<(String, PackageMetadata)> = Vec::new();
    let mut i: usize = 0;
    while i < v.len()
        invariant
            i <= v.len(),
            r@.len() == i,
            forall|m: int|
                0 <= m < i ==> (#[trigger] r@[m]).0@ == v@[m].0@ && r@[m].1.name@ == v@[m].1.name@
                    && r@[m].1.description@ == v@[m].1.description@,
        decreases v.len() - i,
    {
        let lang = v[i].0.clone();
        let meta = PackageMetadata { name: v[i].1.name.clone(), description: v[i].1.description.clone() };
        let ghost prev = r@;
        r.push((lang, meta));
        proof {
            assert(forall|m: int| 0 <= m < prev.len() ==> r@[m] == prev[m]);
        }
        i += 1;
    }
    r
}

/// Merge one registry entry with its installation state into a catalog
/// row.
pub fn build_catalog_entry(
    entry: &RegistryPackageEntry,
    registry_id: &str,
    is_installed: bool,
    installed_version: Option<String>,
    has_update: bool,
) -> (r: CatalogPackage)
    ensures
        catalog_matches_entry(r, *entry, registry_id@),
        r.is_installed == is_installed,
        r.installed_version.deep_view() == installed_version.deep_view(),
        r.has_update == has_update,
{
    CatalogPackage {
        id: entry.id.clone(),
        version: entry.version.clone(),
        author: entry.author.clone(),
        category: entry.category.clone(),
        min_app_version: crate::entities::clone_opt_string(&entry.min_app_version),
        metadata: clone_metadata(&entry.metadata),
        download_url: entry.download_url.clone(),
        size_bytes: entry.size_bytes,
        checksum_sha256: entry.checksum_sha256.clone(),
        tags: crate::entities::clone_strings(&entry.tags),
        registry_id: registry_id.to_owned(),
        is_installed,
        installed_version,
        has_update,
    }
}

/// The catalog row reproduces the entry of the first registry that lists
/// its id: a later registry never overrides an earlier one.
pub open spec fn row_first_listed(c: CatalogPackage, regs: Seq<(String, RegistryIndex)>) -> bool {
    match spec_find_entry(regs, c.id@) {
        Some(hit) => catalog_matches_entry(c, hit.1, hit.0),
        None => false,
    }
}

/// Some catalog row carries this package id.
pub open spec fn id_in_catalog(cat: Seq<CatalogPackage>, id: Seq<char>) -> bool {
    exists|k: int| 0 <= k < cat.len() && (#[trigger] cat[k]).id@ == id
}

pub proof fn lemma_id_in_catalog_push(cat: Seq<CatalogPackage>, x: CatalogPackage, id: Seq<char>)
    requires
        id_in_catalog(cat, id) || x.id@ == id,
    ensures
        id_in_catalog(cat.push(x), id),
{
    if id_in_catalog(cat, id) {
        let k = choose|k: int| 0 <= k < cat.len() && (#[trigger] cat[k]).id@ == id;
        assert(cat.push(x)[k].id@ == id);
    } else {
        assert(cat.push(x)[cat.len() as int].id@ == id);
    }
}

/// Merge every fetched registry index with the local installation state.
/// One row per package id: the first registry to list an id keeps it.
pub fn build_catalog(
    registries: &Vec<(String, RegistryIndex)>,
    installed: &Vec<InstalledPackageInfo>,
) -> (r: Vec<CatalogPackage>)
    ensures
        forall|k: int, l: int| 0 <= k < l < r@.len() ==> (#[trigger] r@[k]).id@ != (#[trigger] r@[l]).id@,
        forall|k: int| 0 <= k < r@.len() ==> row_first_listed(#[trigger] r@[k], registries@),
        forall|k: int| 0 <= k < r@.len() ==> catalog_install_flags(#[trigger] r@[k], installed@),
        forall|gi: int, ei: int|
            0 <= gi < registries@.len() && 0 <= ei < registries@[gi].1.packages@.len()
                ==> id_in_catalog(r@, (#[trigger] registries@[gi].1.packages@[ei]).id@),
{
    let mut out: Vec<CatalogPackage> = Vec::new();
    let mut gi: usize = 0;
    while gi < registries.len()
        invariant
            gi <= registries.len(),
            forall|k: int, l: int|
                0 <= k < l < out@.len() ==> (#[trigger] out@[k]).id@ != (#[trigger] out@[l]).id@,
            forall|k: int|
                0 <= k < out@.len() ==> row_first_listed(#[trigger] out@[k], registries@),
            forall|k: int|
                0 <= k < out@.len() ==> catalog_install_flags(#[trigger] out@[k], installed@),
            forall|g: int, e: int|
                0 <= g < gi && 0 <= e < registries@[g].1.packages@.len() ==> id_in_catalog(
                    out@,
                    (#[trigger] registries@[g].1.packages@[e]).id@,
                ),
        decreases registries.len() - gi,
    {
        let mut ei: usize = 0;
        while ei < registries[gi].1.packages.len()
            invariant
                gi < registries.len(),
                ei <= registries@[gi as int].1.packages@.len(),
                forall|k: int, l: int|
                    0 <= k < l < out@.len() ==> (#[trigger] out@[k]).id@ != (
                    #[trigger] out@[l]).id@,
                forall|k: int|
                    0 <= k < out@.len() ==> row_first_listed(#[trigger] out@[k], registries@),
                forall|k: int|
                    0 <= k < out@.len() ==> catalog_install_flags(#[trigger] out@[k], installed@),
                forall|g: int, e: int|
                    0 <= g < gi && 0 <= e < registries@[g].1.packages@.len() ==> id_in_catalog(
                        out@,
                        (#[trigger] registries@[g].1.packages@[e]).id@,
                    ),
                forall|e: int|
                    0 <= e < ei ==> id_in_catalog(
                        out@,
                        (#[trigger] registries@[gi as int].1.packages@[e]).id@,
                    ),
            decreases registries@[gi as int].1.packages@.len() - ei,
        {
            let entry_id_taken: bool = {
                let mut seen = false;
                let mut k: usize = 0;
                while k < out.len()
                    invariant
                        k <= out.len(),
                        gi < registries.len(),
                        ei < registries@[gi as int].1.packages@.len(),
                        seen ==> id_in_catalog(
                            out@,
                            registries@[gi as int].1.packages@[ei as int].id@,
                        ),
                        !seen ==> forall|k2: int|
                            0 <= k2 < k ==> (#[trigger] out@[k2]).id@ != registries@[
                            gi as int].1.packages@[ei as int].id@,
                    decreases out.len() - k,
                {
                    if crate::text::str_eq(
                        out[k].id.as_str(),
                        registries[gi].1.packages[ei].id.as_str(),
                    ) {
                        seen = true;
                    }
                    k += 1;
                }
                seen
            };
            proof {
                if entry_id_taken {
                    assert(id_in_catalog(out@, registries@[gi as int].1.packages@[ei as int].id@));
                }
            }
            if !entry_id_taken {
                proof {
                    if id_in_catalog(out@, registries@[gi as int].1.packages@[ei as int].id@) {
                        let k2 = choose|k2: int|
                            0 <= k2 < out@.len() && (#[trigger] out@[k2]).id@ == registries@[
                            gi as int].1.packages@[ei as int].id@;
                    }
                    assert(!id_in_catalog(
                        out@,
                        registries@[gi as int].1.packages@[ei as int].id@,
                    ));
                }
                let entry = &registries[gi].1.packages[ei];
                let mut is_installed = false;
                let mut installed_version: Option<String> = None;
                let mut has_update = false;
                let mut m: usize = 0;
                let mut found = false;
                while m < installed.len() && !found
                    invariant
                        m <= installed.len(),
                        gi < registries.len(),
                        ei < registries@[gi as int].1.packages@.len(),
                        entry == &registries@[gi as int].1.packages@[ei as int],
                        !found ==> forall|j: int|
                            0 <= j < m ==> (#[trigger] installed@[j]).id@ != entry.id@,
                        !found ==> !is_installed && installed_version is None && !has_update,
                        found ==> m >= 1 && 0 <= m - 1 < installed@.len() && installed@[m
                            - 1].id@ == entry.id@ && (forall|j: int|
                            0 <= j < m - 1 ==> (#[trigger] installed@[j]).id@ != entry.id@)
                            && is_installed && (installed_version matches Some(v) && v@
                            == installed@[m - 1].version@) && has_update == (installed@[m
                            - 1].version@ != entry.version@),
                    decreases installed.len() - m,
                {
                    if crate::text::str_eq(installed[m].id.as_str(), entry.id.as_str()) {
                        is_installed = true;
                        installed_version = Some(installed[m].version.clone());
                        has_update = !crate::text::str_eq(
                            installed[m].version.as_str(),
                            entry.version.as_str(),
                        );
                        found = true;
                    }
                    m += 1;
                }
                proof {
                    if found {
                        lemma_find_installed_at(installed@, entry.id@, m - 1);
                    } else {
                        lemma_find_installed_none(installed@, entry.id@);
                    }
                }
                let row = build_catalog_entry(
                    entry,
                    registries[gi].0.as_str(),
                    is_installed,
                    installed_version,
                    has_update,
                );
                proof {
                    assert(catalog_install_flags(row, installed@));
                }
                let ghost prev = out@;
                out.push(row);
                proof {
                    assert(forall|k: int| 0 <= k < prev.len() ==> out@[k] == prev[k]);
                    assert(out@[prev.len() as int] == row);
                    // The id was nowhere in the catalog, so no earlier
                    // registry — and no earlier entry of this one — lists
                    // it: this entry is the id's first listing.
                    let ghost rid = registries@[gi as int].1.packages@[ei as int].id@;
                    assert forall|g2: int| 0 <= g2 < gi implies spec_find_entry_in(
                        #[trigger] registries@[g2].1.packages@,
                        rid,
                    ) is None by {
                        assert forall|e2: int|
                            0 <= e2 < registries@[g2].1.packages@.len() implies (
                        #[trigger] registries@[g2].1.packages@[e2]).id@ != rid by {
                            if registries@[g2].1.packages@[e2].id@ == rid {
                                assert(id_in_catalog(prev, rid));
                            }
                        }
                        lemma_find_entry_in_none(registries@[g2].1.packages@, rid);
                    }
                    assert forall|e2: int| 0 <= e2 < ei implies (
                    #[trigger] registries@[gi as int].1.packages@[e2]).id@ != rid by {
                        if registries@[gi as int].1.packages@[e2].id@ == rid {
                            assert(id_in_catalog(prev, rid));
                        }
                    }
                    lemma_find_entry_in_at(registries@[gi as int].1.packages@, rid, ei as int);
                    lemma_find_entry_at(
                        registries@,
                        rid,
                        gi as int,
                        registries@[gi as int].1.packages@[ei as int],
                    );
                    assert(row_first_listed(row, registries@)) by {
                        assert(catalog_matches_entry(
                            row,
                            registries@[gi as int].1.packages@[ei as int],
                            registries@[gi as int].0@,
                        ));
                    }
                    assert forall|g: int, e: int|
                        0 <= g < gi && 0 <= e < registries@[g].1.packages@.len() implies
                        id_in_catalog(out@, (#[trigger] registries@[g].1.packages@[e]).id@) by {
                        lemma_id_in_catalog_push(prev, row, registries@[g].1.packages@[e].id@);
                        assert(out@ =~= prev.push(row));
                    }
                    assert forall|e: int| 0 <= e < ei + 1 implies id_in_catalog(
                        out@,
                        (#[trigger] registries@[gi as int].1.packages@[e]).id@,
                    ) by {
                        lemma_id_in_catalog_push(
                            prev,
                            row,
                            registries@[gi as int].1.packages@[e].id@,
                        );
                        assert(out@ =~= prev.push(row));
                    }
                }
            }
            ei += 1;
        }
        gi += 1;
    }
    out
}

/// Scan one index for the first entry with this id.
fn find_entry_index(index: &RegistryIndex, id: &str) -> (r: Option<usize>)
    ensures
        match r {
            Some(k) => 0 <= k < index.packages@.len() && spec_find_entry_in(
                index.packages@,
                id@,
            ) == Some(index.packages@[k as int]),
            None => spec_find_entry_in(index.packages@, id@) is None,
        },
{
    let mut k: usize = 0;
    while k < index.packages.len()
        invariant
            k <= index.packages.len(),
            forall|j: int| 0 <= j < k ==> index.packages@[j].id@ != id@,
        decreases index.packages.len() - k,
    {
        if crate::text::str_eq(index.packages[k].id.as_str(), id) {
            proof {
                lemma_find_entry_in_at(index.packages@, id@, k as int);
            }
            return Some(k);
        }
        k += 1;
    }
    proof {
        lemma_find_entry_in_none(index.packages@, id@);
    }
    None
}

/// Compare each installed package against the registries and report the
/// version changes: the first registry listing a package decides.
pub fn check_updates(
    registries: &Vec<(String, RegistryIndex)>,
    installed: &Vec<InstalledPackageInfo>,
) -> (r: Vec<PackageUpdateInfo>)
    ensures
        ({
            let want = spec_check_updates(registries@, installed@);
            &&& r@.len() == want.len()
            &&& forall|k: int|
                #![auto]
                0 <= k < want.len() ==> r@[k].id@ == want[k].0 && r@[k].current_version@
                    == want[k].1 && r@[k].available_version@ == want[k].2 && r@[k].registry_id@
                    == want[k].3
        }),
{
    let mut out: Vec<PackageUpdateInfo> = Vec::new();
    let mut m: usize = 0;
    while m < installed.len()
        invariant
            m <= installed.len(),
            ({
                let want = spec_check_updates(registries@, installed@.take(m as int));
                &&& out@.len() == want.len()
                &&& forall|k: int|
                    #![auto]
                    0 <= k < want.len() ==> out@[k].id@ == want[k].0 && out@[k].current_version@
                        == want[k].1 && out@[k].available_version@ == want[k].2
                        && out@[k].registry_id@ == want[k].3
            }),
        decreases installed.len() - m,
    {
        proof {
            assert(installed@.take(m + 1).drop_last() =~= installed@.take(m as int));
            assert(installed@.take(m + 1).last() == installed@[m as int]);
        }
        let inst = &installed[m];
        let mut hit: Option<(usize, usize)> = None;
        let mut gi: usize = 0;
        while gi < registries.len() && hit.is_none()
            invariant
                gi <= registries.len(),
                inst == installed@[m as int],
                match hit {
                    Some(t) => 0 <= t.0 < registries@.len() && (forall|g: int|
                        0 <= g < t.0 ==> spec_find_entry_in(
                            #[trigger] registries@[g].1.packages@,
                            inst.id@,
                        ) is None) && 0 <= t.1 < registries@[t.0 as int].1.packages@.len()
                        && spec_find_entry_in(registries@[t.0 as int].1.packages@, inst.id@)
                        == Some(registries@[t.0 as int].1.packages@[t.1 as int]),
                    None => forall|g: int|
                        0 <= g < gi ==> spec_find_entry_in(
                            #[trigger] registries@[g].1.packages@,
                            inst.id@,
                        ) is None,
                },
            decreases registries.len() - gi,
        {
            match find_entry_index(&registries[gi].1, inst.id.as_str()) {
                Some(k) => {
                    hit = Some((gi, k));
                },
                None => {},
            }
            gi += 1;
        }
        let ghost want_prev = spec_check_updates(registries@, installed@.take(m as int));
        match hit {
            Some(t) => {
                let (g, k) = t;
                let entry = &registries[g].1.packages[k];
                proof {
                    lemma_find_entry_at(
                        registries@,
                        inst.id@,
                        g as int,
                        registries@[g as int].1.packages@[k as int],
                    );
                }
                if !crate::text::str_eq(entry.version.as_str(), inst.version.as_str()) {
                    let u = PackageUpdateInfo {
                        id: inst.id.clone(),
                        current_version: inst.version.clone(),
                        available_version: entry.version.clone(),
                        registry_id: registries[g].0.clone(),
                    };
                    out.push(u);
                    proof {
                        assert(spec_check_updates(registries@, installed@.take(m + 1))
                            =~= want_prev.push(
                            (
                                inst.id@,
                                inst.version@,
                                registries@[g as int].1.packages@[k as int].version@,
                                registries@[g as int].0@,
                            ),
                        ));
                    }
                } else {
                    proof {
                        assert(spec_check_updates(registries@, installed@.take(m + 1))
                            =~= want_prev);
                    }
                }
            },
            None => {
                proof {
                    lemma_find_entry_none(registries@, inst.id@);
                    assert(spec_check_updates(registries@, installed@.take(m + 1)) =~= want_prev);
                }
            },
        }
        m += 1;
    }
    assert(installed@.take(installed.len() as int) =~= installed@);
    out
}

fn trim_trailing_slashes(s: &str) -> (r: String)
    ensures
        r@ == trim_end_char(s@, '/'),
{
    let n = s.unicode_len();
    proof {
        assert(s@.take(n as int) =~= s@);
    }
    let mut e: usize = n;
    while e > 0 && s.get_char(e - 1) == '/'
        invariant
            n == s@.len(),
            e <= n,
            trim_end_char(s@, '/') == trim_end_char(s@.take(e as int), '/'),
        decreases e,
    {
        proof {
            assert(s@.take(e as int).last() == s@[e - 1]);
            assert(s@.take(e as int).drop_last() =~= s@.take(e - 1));
        }
        e -= 1;
    }
    proof {
        if e > 0 {
            assert(s@.take(e as int).last() == s@[e - 1]);
        }
        assert(trim_end_char(s@.take(e as int), '/') == s@.take(e as int));
    }
    let r = s.substring_char(0, e);
    assert(r@ =~= s@.take(e as int));
    r.to_owned()
}

fn trim_trailing_git(s: &str) -> (r: String)
    ensures
        r@ == trim_end_suffix(s@, ".git"@),
{
    proof {
        reveal_strlit(".git");
    }
    let n = s.unicode_len();
    proof {
        assert(s@.take(n as int) =~= s@);
    }
    let mut e: usize = n;
    let mut done = false;
    while !done
        invariant
            n == s@.len(),
            e <= n,
            trim_end_suffix(s@, ".git"@) == trim_end_suffix(s@.take(e as int), ".git"@),
            ".git"@.len() == 4,
            done ==> !spec_ends_with(s@.take(e as int), ".git"@),
        decreases e + 1 - if done {
            1int
        } else {
            0int
        },
    {
        let cur = s.substring_char(0, e);
        proof {
            assert(cur@ =~= s@.take(e as int));
        }
        if str_ends_with(cur, ".git") {
            proof {
                assert(s@.take(e as int).take(e - 4) =~= s@.take(e - 4));
            }
            e -= 4;
        } else {
            done = true;
        }
    }
    proof {
        assert(trim_end_suffix(s@.take(e as int), ".git"@) == s@.take(e as int));
    }
    let r = s.substring_char(0, e);
    assert(r@ =~= s@.take(e as int));
    r.to_owned()
}

fn trim_leading_slashes(s: &str) -> (r: String)
    ensures
        r@ == trim_start_char(s@, '/'),
{
    let n = s.unicode_len();
    proof {
        assert(s@.skip(0) =~= s@);
    }
    let mut a: usize = 0;
    while a < n && s.get_char(a) == '/'
        invariant
            n == s@.len(),
            a <= n,
            trim_start_char(s@, '/') == trim_start_char(s@.skip(a as int), '/'),
        decreases n - a,
    {
        proof {
            assert(s@.skip(a as int)[0] == s@[a as int]);
            assert(s@.skip(a as int).skip(1) =~= s@.skip(a + 1));
        }
        a += 1;
    }
    proof {
        if a < n {
            assert(s@.skip(a as int)[0] == s@[a as int]);
        }
        assert(trim_start_char(s@.skip(a as int), '/') == s@.skip(a as int));
    }
    let r = s.substring_char(a, n);
    assert(r@ =~= s@.skip(a as int));
    r.to_owned()
}

/// Derive the raw-content URL of a file in a GitHub repository's main
/// branch, accepting the repository URL with or without a trailing slash
/// or `.git` suffix.
pub fn github_raw_url(repo_url: &str, path: &str) -> (r: Result<String, String>)
    ensures
        r is Ok <==> spec_github_raw_url(repo_url@, path@) is Some,
        r matches Ok(u) ==> Some(u@) == spec_github_raw_url(repo_url@, path@),
{
    let t1 = trim_trailing_slashes(repo_url);
    let url = trim_trailing_git(t1.as_str());
    let n = url.as_str().unicode_len();
    proof {
        assert(url@.take(n as int) =~= url@);
    }
    let p1 = match rfind_char_before(url.as_str(), '/', n) {
        Some(i) => i,
        None => {
            let mut msg = String::from_str("Invalid GitHub repo URL: ");
            msg.append(repo_url);
            return Err(msg);
        },
    };
    proof {
        lemma_last_index_of_props(url@, '/');
    }
    let repo = url.as_str().substring_char(p1 + 1, n);
    proof {
        assert(repo@ =~= url@.skip(p1 + 1));
        assert(url@.take(p1 as int) =~= url@.take(n as int).take(p1 as int));
    }
    let owner = match rfind_char_before(url.as_str(), '/', p1) {
        Some(p0) => {
            proof {
                lemma_last_index_of_props(url@.take(p1 as int), '/');
            }
            let o = url.as_str().substring_char(p0 + 1, p1);
            proof {
                assert(o@ =~= url@.take(p1 as int).skip(p0 + 1)) by {
                    assert(o@ =~= url@.subrange(p0 + 1, p1 as int));
                    assert(url@.take(p1 as int).skip(p0 + 1) =~= url@.subrange(p0 + 1, p1 as int));
                }
            }
            o.to_owned()
        },
        None => {
            let o = url.as_str().substring_char(0, p1);
            proof {
                assert(o@ =~= url@.take(p1 as int));
            }
            o.to_owned()
        },
    };
    if owner.as_str().unicode_len() == 0 || repo.unicode_len() == 0 {
        let mut msg = String::from_str("Could not parse owner/repo from URL: ");
        msg.append(repo_url);
        return Err(msg);
    }
    let tail = trim_leading_slashes(path);
    let mut out = String::from_str("https://raw.githubusercontent.com/");
    out.append(owner.as_str());
    out.append("/");
    out.append(repo);
    out.append("/main/");
    out.append(tail.as_str());
    proof {
        assert(out@ =~= "https://raw.githubusercontent.com/"@ + owner@ + "/"@ + repo@ + "/main/"@
            + tail@);
    }
    Ok(out)
}

} // verus!
