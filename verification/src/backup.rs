//! Backups: a project folder compressed into a timestamped archive,
//! restored from one, listed and pruned.
//!
//! An archive is deflate-compressed; what the compression writes and
//! reads back is named by `zip_entries_of` and trusted, everything
//! around it — file naming, the slug heuristic, ordering, rotation — is
//! verified.

use vstd::prelude::*;

use crate::clock::Stamp;
use crate::clock::digit_char;
use crate::clock::four_digits;
use crate::clock::two_digits;
use crate::clock::stamp_chars;
use crate::clock::stamp_wf;
use crate::clock::format_stamp;
use crate::text::last_index_of;
use crate::text::lemma_last_index_of_props;
use crate::text::rfind_char_before;
use crate::text::spec_ends_with;
use crate::text::spec_starts_with;
use crate::text::str_ends_with;
use crate::text::str_starts_with;

verus! {

/// One file of a project folder, by path relative to the folder root.
pub struct FileEntry {
    pub path: String,
    pub bytes: Vec<u8>,
}

impl DeepView for FileEntry {
    type V = (Seq<char>, Seq<u8>);

    open spec fn deep_view(&self) -> (Seq<char>, Seq<u8>) {
        (self.path@, self.bytes@)
    }
}

/// A finished backup archive: its file name and its bytes.
pub struct BackupArchive {
    pub name: String,
    pub bytes: Vec<u8>,
}

/// What reading an archive yields: the non-directory entries, in order,
/// as relative path and content; `None` for bytes that are no archive.
pub uninterp spec fn zip_entries_of(bytes: Seq<u8>) -> Option<Seq<(Seq<char>, Seq<u8>)>>;

/// What packing a batch of entries produces: the archive bytes, or
/// nothing where the writer refuses the batch. With a fixed compression
/// method and a fixed stored timestamp, the bytes depend on the entries
/// alone.
pub uninterp spec fn zip_pack_of(entries: Seq<(Seq<char>, Seq<u8>)>) -> Option<Seq<u8>>;

/// A path fit to name an archive file entry: a stored name ending in a
/// slash or backslash is read back as a directory, not a file.
pub open spec fn entry_path_ok(p: Seq<char>) -> bool {
    p.len() > 0 ==> p.last() != '/' && p.last() != '\\'
}

pub open spec fn entry_paths_ok(entries: Seq<(Seq<char>, Seq<u8>)>) -> bool {
    forall|i: int| 0 <= i < entries.len() ==> entry_path_ok((#[trigger] entries[i]).0)
}

/// Relies on zip::ZipWriter with deflate compression: whether the batch
/// packs, and to which bytes, depends on the entries alone, and reading
/// a written archive back yields exactly the file entries written, in
/// order — which is why no entry may carry a directory-shaped name.
#[verifier::external_body]
fn zip_pack(entries: &Vec<FileEntry>) -> (r: Result<Vec<u8>, String>)
    requires
        entry_paths_ok(entries.deep_view()),
    ensures
        r is Ok <==> zip_pack_of(entries.deep_view()) is Some,
        r matches Ok(b) ==> b@ == zip_pack_of(entries.deep_view())->0,
        r matches Ok(b) ==> zip_entries_of(b@) == Some(entries.deep_view()),
{
    let mut w = zip::ZipWriter::new(std::io::Cursor::new(Vec::new()));
    let opts = zip::write::SimpleFileOptions::default().compression_method(
        zip::CompressionMethod::Deflated,
    );
    for e in entries.iter() {
        w.start_file(e.path.as_str(), opts).map_err(|z| z.to_string())?;
        std::io::Write::write_all(&mut w, &e.bytes).map_err(|z| z.to_string())?;
    }
    w.finish().map(|c| c.into_inner()).map_err(|z| z.to_string())
}

/// Relies on zip::ZipArchive: yields every non-directory entry of the
/// archive, in order, and refuses bytes that are no archive.
#[verifier::external_body]
fn zip_unpack(bytes: &Vec<u8>) -> (r: Result<Vec<FileEntry>, String>)
    ensures
        match r {
            Ok(es) => zip_entries_of(bytes@) == Some(es.deep_view()),
            Err(_) => zip_entries_of(bytes@) is None,
        },
{
    let mut archive = zip::ZipArchive::new(std::io::Cursor::new(bytes.as_slice())).map_err(
        |e| e.to_string(),
    )?;
    let mut out = Vec::new();
    for i in 0..archive.len() {
        let mut entry = archive.by_index(i).map_err(|e| e.to_string())?;
        if entry.is_dir() {
            continue ;
        }
        let mut buf = Vec::new();
        std::io::Read::read_to_end(&mut entry, &mut buf).map_err(|e| e.to_string())?;
        out.push(FileEntry { path: entry.name().to_string(), bytes: buf });
    }
    Ok(out)
}

/// The file name of a backup: slug, dash, stamp, archive extension.
pub open spec fn spec_backup_file_name(slug: Seq<char>, stamp: Stamp) -> Seq<char> {
    slug + seq!['-'] + stamp_chars(stamp) + ".pluma"@
}

/// Compress a folder's files into a timestamped archive named after the
/// project's slug. Succeeds exactly when the batch packs.
pub fn compress_project(files: &Vec<FileEntry>, project_slug: &str, stamp: &Stamp) -> (r: Result<
    BackupArchive,
    String,
>)
    requires
        stamp_wf(*stamp),
        entry_paths_ok(files.deep_view()),
    ensures
        r is Ok <==> zip_pack_of(files.deep_view()) is Some,
        r matches Ok(a) ==> a.name@ == spec_backup_file_name(project_slug@, *stamp)
            && a.bytes@ == zip_pack_of(files.deep_view())->0 && zip_entries_of(a.bytes@) == Some(
            files.deep_view(),
        ),
{
    let bytes = match zip_pack(files) {
        Ok(b) => b,
        Err(e) => {
            return Err(e);
        },
    };
    let mut name = project_slug.to_owned();
    name.append("-");
    let st = format_stamp(stamp);
    name.append(st.as_str());
    name.append(".pluma");
    proof {
        reveal_strlit("-");
        assert(name@ =~= spec_backup_file_name(project_slug@, *stamp));
    }
    Ok(BackupArchive { name, bytes })
}

/// The part of a file name before its final dot; a name whose only dot
/// leads it, or that has none, is kept whole.
pub open spec fn spec_file_stem(name: Seq<char>) -> Seq<char> {
    let li = last_index_of(name, '.');
    if li <= 0 {
        name
    } else {
        name.take(li)
    }
}

/// The folder a backup restores into: the archive's file stem with one
/// trailing `-<8 characters>-<6 characters>` stamp stripped. The stamp is
/// recovered from the name alone; nothing inside the archive records it.
pub open spec fn spec_backup_folder_name(stem: Seq<char>) -> Seq<char> {
    let pos = last_index_of(stem, '-');
    if pos < 0 {
        stem
    } else {
        let pos2 = last_index_of(stem.take(pos), '-');
        if pos2 < 0 {
            stem
        } else if pos - pos2 - 1 == 8 && stem.len() - pos - 1 == 6 {
            stem.take(pos2)
        } else {
            stem
        }
    }
}

/// The file stem of a name.
fn file_stem(name: &str) -> (r: String)
    ensures
        r@ == spec_file_stem(name@),
{
    let n = name.unicode_len();
    proof {
        assert(name@.take(n as int) =~= name@);
    }
    match rfind_char_before(name, '.', n) {
        Some(li) => {
            proof {
                lemma_last_index_of_props(name@, '.');
            }
            if li == 0 {
                name.to_owned()
            } else {
                let r = name.substring_char(0, li);
                assert(r@ =~= name@.take(li as int));
                r.to_owned()
            }
        },
        None => name.to_owned(),
    }
}

/// The folder name a backup file restores into.
pub fn backup_folder_name(stem: &str) -> (r: String)
    ensures
        r@ == spec_backup_folder_name(stem@),
{
    let n = stem.unicode_len();
    proof {
        assert(stem@.take(n as int) =~= stem@);
    }
    match rfind_char_before(stem, '-', n) {
        Some(pos) => {
            proof {
                lemma_last_index_of_props(stem@, '-');
            }
            match rfind_char_before(stem, '-', pos) {
                Some(pos2) => {
                    proof {
                        assert(stem@.take(pos as int) =~= stem@.take(n as int).take(pos as int));
                        lemma_last_index_of_props(stem@.take(pos as int), '-');
                    }
                    if pos - pos2 - 1 == 8 && n - pos - 1 == 6 {
                        let r = stem.substring_char(0, pos2);
                        assert(r@ =~= stem@.take(pos2 as int));
                        r.to_owned()
                    } else {
                        stem.to_owned()
                    }
                },
                None => {
                    proof {
                        assert(stem@.take(pos as int) =~= stem@.take(n as int).take(pos as int));
                    }
                    stem.to_owned()
                },
            }
        },
        None => stem.to_owned(),
    }
}

/// Restore a backup archive: the folder name parsed out of the archive's
/// file name, and the files to lay down under it.
pub fn decompress_project(archive_name: &str, archive_bytes: &Vec<u8>) -> (r: Result<
    (String, Vec<FileEntry>),
    String,
>)
    ensures
        r is Ok <==> zip_entries_of(archive_bytes@) is Some,
        r matches Ok(t) ==> t.0@ == spec_backup_folder_name(spec_file_stem(archive_name@))
            && zip_entries_of(archive_bytes@) == Some(t.1.deep_view()),
{
    let files = match zip_unpack(archive_bytes) {
        Ok(es) => es,
        Err(e) => {
            return Err(e);
        },
    };
    let stem = file_stem(archive_name);
    let folder = backup_folder_name(stem.as_str());
    Ok((folder, files))
}

/// One backup file as the backup directory shows it: its name and its
/// modification time.
pub struct BackupInfo {
    pub name: String,
    pub mtime: i64,
}

pub ghost struct BackupInfoV {
    pub name: Seq<char>,
    pub mtime: i64,
}

impl DeepView for BackupInfo {
    type V = BackupInfoV;

    open spec fn deep_view(&self) -> BackupInfoV {
        BackupInfoV { name: self.name@, mtime: self.mtime }
    }
}

impl Clone for BackupInfo {
    fn clone(&self) -> (r: Self)
        ensures
            r.deep_view() == self.deep_view(),
    {
        BackupInfo { name: self.name.clone(), mtime: self.mtime }
    }
}

/// The backups of one project: named by its slug, with the archive
/// extension.
pub open spec fn backup_matches(slug: Seq<char>) -> spec_fn(BackupInfoV) -> bool {
    |b: BackupInfoV| spec_starts_with(b.name, slug) && spec_ends_with(b.name, ".pluma"@)
}

/// Newest first: earlier entries are never older.
pub open spec fn sorted_desc(s: Seq<BackupInfoV>) -> bool {
    forall|i: int, j: int| 0 <= i < j < s.len() ==> s[i].mtime >= s[j].mtime
}

/// Insert an entry behind every at-least-as-recent one.
pub open spec fn insert_desc(s: Seq<BackupInfoV>, e: BackupInfoV) -> Seq<BackupInfoV>
    decreases s.len(),
{
    if s.len() == 0 {
        seq![e]
    } else if s[0].mtime >= e.mtime {
        seq![s[0]] + insert_desc(s.skip(1), e)
    } else {
        seq![e] + s
    }
}

/// Sort newest first, stably.
pub open spec fn sort_desc(s: Seq<BackupInfoV>) -> Seq<BackupInfoV>
    decreases s.len(),
{
    if s.len() == 0 {
        Seq::empty()
    } else {
        insert_desc(sort_desc(s.drop_last()), s.last())
    }
}

pub proof fn lemma_insert_desc_props(s: Seq<BackupInfoV>, e: BackupInfoV)
    requires
        sorted_desc(s),
    ensures
        insert_desc(s, e).len() == s.len() + 1,
        sorted_desc(insert_desc(s, e)),
        insert_desc(s, e).to_multiset() == s.to_multiset().insert(e),
        forall|x: BackupInfoV| #[trigger] insert_desc(s, e).contains(x) ==> s.contains(x) || x == e,
    decreases s.len(),
{
    broadcast use vstd::seq_lib::group_to_multiset_ensures;

    if s.len() == 0 {
        assert(seq![e] =~= Seq::<BackupInfoV>::empty().push(e));
        assert(insert_desc(s, e).to_multiset() =~= s.to_multiset().insert(e));
        assert(forall|x: BackupInfoV| #[trigger] seq![e].contains(x) ==> x == e);
    } else if s[0].mtime >= e.mtime {
        let tail = s.skip(1);
        assert(sorted_desc(tail)) by {
            assert(forall|j: int| 0 <= j < tail.len() ==> tail[j] == s[j + 1]);
        }
        lemma_insert_desc_props(tail, e);
        let r = seq![s[0]] + insert_desc(tail, e);
        assert(insert_desc(s, e) == r);
        vstd::seq_lib::lemma_multiset_commutative(seq![s[0]], insert_desc(tail, e));
        assert(s =~= seq![s[0]] + tail);
        vstd::seq_lib::lemma_multiset_commutative(seq![s[0]], tail);
        assert(r.to_multiset() =~= s.to_multiset().insert(e));
        assert forall|x: BackupInfoV| #[trigger] r.contains(x) implies s.contains(x) || x == e by {
            let i = choose|i: int| 0 <= i < r.len() && r[i] == x;
            if i == 0 {
                assert(s[0] == x);
            } else {
                assert(insert_desc(tail, e)[i - 1] == x);
                assert(insert_desc(tail, e).contains(x));
                if tail.contains(x) {
                    let j = choose|j: int| 0 <= j < tail.len() && tail[j] == x;
                    assert(s[j + 1] == x);
                }
            }
        }
        assert forall|i: int, j: int| 0 <= i < j < r.len() implies r[i].mtime >= r[j].mtime by {
            if i == 0 {
                assert(r[j] == insert_desc(tail, e)[j - 1]);
                assert(insert_desc(tail, e).contains(r[j]));
                if tail.contains(r[j]) {
                    let k = choose|k: int| 0 <= k < tail.len() && tail[k] == r[j];
                    assert(s[k + 1] == r[j]);
                    assert(s[0].mtime >= s[k + 1].mtime);
                }
            } else {
                assert(r[i] == insert_desc(tail, e)[i - 1]);
                assert(r[j] == insert_desc(tail, e)[j - 1]);
            }
        }
    } else {
        let r = seq![e] + s;
        assert(insert_desc(s, e) == r);
        vstd::seq_lib::lemma_multiset_commutative(seq![e], s);
        assert(r.to_multiset() =~= s.to_multiset().insert(e));
        assert forall|i: int, j: int| 0 <= i < j < r.len() implies r[i].mtime >= r[j].mtime by {
            if i == 0 {
                assert(r[j] == s[j - 1]);
                if j - 1 > 0 {
                    assert(s[0].mtime >= s[j - 1].mtime);
                }
            } else {
                assert(r[i] == s[i - 1]);
                assert(r[j] == s[j - 1]);
            }
        }
        assert forall|x: BackupInfoV| #[trigger] r.contains(x) implies s.contains(x) || x == e by {
            let i = choose|i: int| 0 <= i < r.len() && r[i] == x;
            if i > 0 {
                assert(s[i - 1] == x);
            }
        }
    }
}

pub proof fn lemma_sort_desc_props(s: Seq<BackupInfoV>)
    ensures
        sort_desc(s).len() == s.len(),
        sorted_desc(sort_desc(s)),
        sort_desc(s).to_multiset() == s.to_multiset(),
    decreases s.len(),
{
    broadcast use vstd::seq_lib::group_to_multiset_ensures;

    if s.len() > 0 {
        lemma_sort_desc_props(s.drop_last());
        lemma_insert_desc_props(sort_desc(s.drop_last()), s.last());
        assert(s =~= s.drop_last().push(s.last()));
        assert(s.drop_last().push(s.last()).to_multiset() =~= s.drop_last().to_multiset().insert(
            s.last(),
        ));
    }
}

/// Where an entry lands: before the first strictly older one.
pub proof fn lemma_insert_desc_at(s: Seq<BackupInfoV>, e: BackupInfoV, k: int)
    requires
        0 <= k <= s.len(),
        forall|j: int| 0 <= j < k ==> s[j].mtime >= e.mtime,
        k < s.len() ==> s[k].mtime < e.mtime,
    ensures
        insert_desc(s, e) == s.take(k) + seq![e] + s.skip(k),
    decreases k,
{
    if k == 0 {
        if s.len() == 0 {
            assert(seq![e] =~= s.take(0) + seq![e] + s.skip(0));
        } else {
            assert(s[0].mtime < e.mtime);
            assert(seq![e] + s =~= s.take(0) + seq![e] + s.skip(0));
        }
    } else {
        assert(s[0].mtime >= e.mtime);
        let tail = s.skip(1);
        assert(forall|j: int| 0 <= j < k - 1 ==> tail[j] == s[j + 1]);
        assert(k - 1 < tail.len() ==> tail[k - 1] == s[k]);
        lemma_insert_desc_at(tail, e, k - 1);
        assert(seq![s[0]] + (tail.take(k - 1) + seq![e] + tail.skip(k - 1)) =~= s.take(k) + seq![e]
            + s.skip(k));
    }
}

/// The backups of one project, newest first by modification time.
pub fn list_backups(entries: &Vec<BackupInfo>, project_slug: &str) -> (r: Vec<BackupInfo>)
    ensures
        r.deep_view() == sort_desc(entries.deep_view().filter(backup_matches(project_slug@))),
        sorted_desc(r.deep_view()),
{
    let ghost pred = backup_matches(project_slug@);
    let ghost all = entries.deep_view();
    let mut matching: Vec<BackupInfo> = Vec::new();
    let mut i: usize = 0;
    while i < entries.len()
        invariant
            i <= entries.len(),
            all == entries.deep_view(),
            all.len() == entries.len(),
            pred == backup_matches(project_slug@),
            matching.deep_view() == all.take(i as int).filter(pred),
        decreases entries.len() - i,
    {
        proof {
            assert(all.take(i + 1) =~= all.take(i as int).push(all[i as int]));
            crate::store::lemma_filter_push(all.take(i as int), all[i as int], pred);
            assert(all[i as int] == entries@[i as int].deep_view());
        }
        if str_starts_with(entries[i].name.as_str(), project_slug) && str_ends_with(
            entries[i].name.as_str(),
            ".pluma",
        ) {
            let e = entries[i].clone();
            let ghost prev = matching.deep_view();
            matching.push(e);
            assert(matching.deep_view() =~= prev.push(all[i as int]));
        }
        i += 1;
    }
    assert(all.take(entries.len() as int) =~= all);
    let ghost filtered = matching.deep_view();

    let mut sorted: Vec<BackupInfo> = Vec::new();
    let mut i: usize = 0;
    assert(sort_desc(filtered.take(0)) =~= Seq::<BackupInfoV>::empty());
    assert(sorted.deep_view() =~= Seq::<BackupInfoV>::empty());
    while i < matching.len()
        invariant
            i <= matching.len(),
            filtered == matching.deep_view(),
            filtered.len() == matching.len(),
            sorted.deep_view() == sort_desc(filtered.take(i as int)),
            sorted_desc(sorted.deep_view()),
            sorted.len() == i,
        decreases matching.len() - i,
    {
        let e = matching[i].clone();
        let ghost ev = filtered[i as int];
        proof {
            assert(ev == matching@[i as int].deep_view());
            assert(e.deep_view() == ev);
        }
        let mut k: usize = 0;
        while k < sorted.len() && sorted[k].mtime >= e.mtime
            invariant
                k <= sorted.len(),
                sorted.len() == i,
                e.deep_view() == ev,
                forall|j: int| 0 <= j < k ==> sorted.deep_view()[j].mtime >= ev.mtime,
            decreases sorted.len() - k,
        {
            proof {
                assert(sorted.deep_view()[k as int].mtime == sorted@[k as int].mtime);
            }
            k += 1;
        }
        proof {
            assert(k < sorted.len() ==> sorted.deep_view()[k as int].mtime < ev.mtime);
        }
        let ghost prevv = sorted@;
        let ghost prev = sorted.deep_view();
        sorted.insert(k, e);
        proof {
            lemma_insert_desc_at(prev, ev, k as int);
            lemma_insert_desc_props(prev, ev);
            assert(sorted@ == prevv.insert(k as int, e));
            prevv.insert_ensures(k as int, e);
            let target = prev.take(k as int) + seq![ev] + prev.skip(k as int);
            assert forall|j: int| 0 <= j < sorted@.len() implies sorted.deep_view()[j]
                == target[j] by {
                assert(sorted.deep_view()[j] == sorted@[j].deep_view());
                if j < k {
                    assert(sorted@[j] == prevv[j]);
                    assert(prev[j] == prevv[j].deep_view());
                } else if j == k {
                    assert(sorted@[j] == e);
                } else {
                    assert(sorted@[j] == prevv[j - 1]);
                    assert(prev[j - 1] == prevv[j - 1].deep_view());
                }
            }
            assert(sorted.deep_view() =~= target);
            assert(filtered.take(i + 1).drop_last() =~= filtered.take(i as int));
            assert(filtered.take(i + 1).last() == filtered[i as int]);
        }
        i += 1;
    }
    assert(filtered.take(matching.len() as int) =~= filtered);
    sorted
}

/// What pruning to `keep` removes: everything beyond the `keep` newest
/// matching backups.
pub open spec fn spec_cleanup_removed(
    entries: Seq<BackupInfoV>,
    slug: Seq<char>,
    keep: int,
) -> Seq<BackupInfoV> {
    let sorted = sort_desc(entries.filter(backup_matches(slug)));
    if keep >= sorted.len() {
        Seq::empty()
    } else {
        sorted.skip(keep)
    }
}

/// The backups to prune: every matching backup beyond the `keep` most
/// recent. Deleting them is the caller's step; a failed deletion skips
/// one file, never the rest.
pub fn cleanup_old_backups(entries: &Vec<BackupInfo>, project_slug: &str, keep_count: usize) -> (r:
    Vec<BackupInfo>)
    ensures
        r.deep_view() == spec_cleanup_removed(
            entries.deep_view(),
            project_slug@,
            keep_count as int,
        ),
        r.deep_view().len() == ({
            let n = entries.deep_view().filter(backup_matches(project_slug@)).len();
            if n > keep_count {
                n - keep_count
            } else {
                0
            }
        }),
{
    proof {
        lemma_sort_desc_props(entries.deep_view().filter(backup_matches(project_slug@)));
    }
    let sorted = list_backups(entries, project_slug);
    let ghost sv = sorted.deep_view();
    let mut out: Vec<BackupInfo> = Vec::new();
    let mut i: usize = keep_count;
    while i < sorted.len()
        invariant
            sv == sorted.deep_view(),
            sv.len() == sorted.len(),
            keep_count <= i,
            i <= sorted.len() || i == keep_count,
            out.len() == i - keep_count,
            forall|j: int| 0 <= j < out.len() ==> out.deep_view()[j] == sv[keep_count + j],
        decreases sorted.len() - i,
    {
        let e = sorted[i].clone();
        proof {
            assert(e.deep_view() == sv[i as int]);
        }
        let ghost prev = out.deep_view();
        out.push(e);
        proof {
            assert forall|j: int| 0 <= j < out.len() implies out.deep_view()[j] == sv[keep_count
                + j] by {
                if j < prev.len() {
                    assert(out.deep_view()[j] == prev[j]);
                }
            }
        }
        i += 1;
    }
    proof {
        if keep_count >= sv.len() {
            assert(out.deep_view() =~= Seq::<BackupInfoV>::empty());
        } else {
            assert(out.deep_view() =~= sv.skip(keep_count as int));
        }
    }
    out
}

/// Law: backup rotation. Of the N backups matching a slug, pruning to
/// `keep` removes exactly max(0, N - keep); the backups that remain are
/// the `keep` newest by modification time — each at least as recent as
/// every removed one — and kept and removed together are exactly the
/// matching backups.
pub proof fn lemma_backup_rotation(entries: Seq<BackupInfoV>, slug: Seq<char>, keep: int)
    requires
        0 <= keep,
    ensures
        ({
            let matching = entries.filter(backup_matches(slug));
            let sorted = sort_desc(matching);
            let removed = spec_cleanup_removed(entries, slug, keep);
            let kept = if keep >= sorted.len() {
                sorted
            } else {
                sorted.take(keep)
            };
            &&& removed.len() == if matching.len() > keep {
                matching.len() - keep
            } else {
                0
            }
            &&& (kept + removed).to_multiset() == matching.to_multiset()
            &&& forall|i: int, j: int|
                0 <= i < kept.len() && 0 <= j < removed.len() ==> kept[i].mtime
                    >= removed[j].mtime
        }),
{
    let matching = entries.filter(backup_matches(slug));
    let sorted = sort_desc(matching);
    lemma_sort_desc_props(matching);
    let removed = spec_cleanup_removed(entries, slug, keep);
    if keep >= sorted.len() {
        assert(sorted + removed =~= sorted);
    } else {
        assert(sorted.take(keep) + removed =~= sorted);
        assert forall|i: int, j: int|
            0 <= i < sorted.take(keep).len() && 0 <= j < removed.len() implies sorted.take(
            keep,
        )[i].mtime >= removed[j].mtime by {
            assert(sorted.take(keep)[i] == sorted[i]);
            assert(removed[j] == sorted[keep + j]);
        }
    }
}

/// Law: restoring a backup and compressing the restored files again
/// yields an archive holding the same entries — the same relative paths
/// with byte-identical contents, in the same order — and a file name
/// that differs only in its timestamp: parsing the slug back out of the
/// new name recovers it exactly. The hypotheses are what the restore and
/// the re-compression pin of their results: the original unpacked to the
/// restored files, the files packed again, and what compression
/// guarantees of the bytes it hands back.
pub proof fn lemma_restore_compress_stable(
    original: Seq<u8>,
    restored: Seq<(Seq<char>, Seq<u8>)>,
    repacked: Seq<u8>,
    slug: Seq<char>,
    stamp: Stamp,
)
    requires
        stamp_wf(stamp),
        zip_entries_of(original) == Some(restored),
        zip_pack_of(restored) == Some(repacked),
        zip_entries_of(repacked) == Some(restored),
    ensures
        zip_entries_of(repacked) == zip_entries_of(original),
        spec_backup_folder_name(spec_file_stem(spec_backup_file_name(slug, stamp))) == slug,
{
    lemma_backup_name_slug_round_trip(slug, stamp);
}

pub proof fn lemma_last_index_of_absent(s: Seq<char>, c: char)
    requires
        forall|i: int| 0 <= i < s.len() ==> s[i] != c,
    ensures
        last_index_of(s, c) == -1,
{
    lemma_last_index_of_props(s, c);
    if last_index_of(s, c) >= 0 {
        assert(s[last_index_of(s, c)] == c);
    }
}

pub proof fn lemma_last_index_of_concat(a: Seq<char>, b: Seq<char>, c: char)
    ensures
        last_index_of(a + b, c) == if last_index_of(b, c) >= 0 {
            a.len() + last_index_of(b, c)
        } else {
            last_index_of(a, c)
        },
    decreases b.len(),
{
    if b.len() == 0 {
        assert(a + b =~= a);
    } else {
        assert((a + b).last() == b.last());
        if b.last() == c {
            assert(last_index_of(b, c) == b.len() - 1);
            assert(last_index_of(a + b, c) == (a + b).len() - 1);
        } else {
            assert((a + b).drop_last() =~= a + b.drop_last());
            lemma_last_index_of_concat(a, b.drop_last(), c);
        }
    }
}

/// Law: the only difference a fresh timestamp makes is the file name,
/// and the restore heuristic undoes it: the slug parsed back out of a
/// backup's file name is the slug the backup was written under, whatever
/// the slug's own characters.
pub proof fn lemma_backup_name_slug_round_trip(slug: Seq<char>, stamp: Stamp)
    requires
        stamp_wf(stamp),
    ensures
        spec_backup_folder_name(spec_file_stem(spec_backup_file_name(slug, stamp))) == slug,
{
    reveal_strlit(".pluma");
    let ext = ".pluma"@;
    assert(ext =~= seq!['.', 'p', 'l', 'u', 'm', 'a']);
    assert(forall|d: int| 0 <= d < 10 ==> digit_char(d) != '-' && digit_char(d) != '.');

    let d8 = four_digits(stamp.year as int) + two_digits(stamp.month as int) + two_digits(
        stamp.day as int,
    );
    let d6 = two_digits(stamp.hour as int) + two_digits(stamp.minute as int) + two_digits(
        stamp.second as int,
    );
    let sc = stamp_chars(stamp);
    assert(sc =~= d8 + seq!['-'] + d6);
    assert(d8.len() == 8 && d6.len() == 6);
    assert forall|i: int| 0 <= i < d8.len() implies d8[i] != '-' && d8[i] != '.' by {
        let f = four_digits(stamp.year as int);
        let t1 = two_digits(stamp.month as int);
        let t2 = two_digits(stamp.day as int);
        if i < 4 {
            assert(d8[i] == f[i]);
        } else if i < 6 {
            assert(d8[i] == t1[i - 4]);
        } else {
            assert(d8[i] == t2[i - 6]);
        }
    }
    assert forall|i: int| 0 <= i < d6.len() implies d6[i] != '-' && d6[i] != '.' by {
        let t1 = two_digits(stamp.hour as int);
        let t2 = two_digits(stamp.minute as int);
        let t3 = two_digits(stamp.second as int);
        if i < 2 {
            assert(d6[i] == t1[i]);
        } else if i < 4 {
            assert(d6[i] == t2[i - 2]);
        } else {
            assert(d6[i] == t3[i - 4]);
        }
    }

    // The final dot is the extension's dot.
    let a1 = slug + seq!['-'] + sc;
    let name = spec_backup_file_name(slug, stamp);
    assert(name =~= a1 + ext);
    let rest5 = seq!['p', 'l', 'u', 'm', 'a'];
    assert(ext =~= seq!['.'] + rest5);
    lemma_last_index_of_absent(rest5, '.');
    lemma_last_index_of_concat(seq!['.'], rest5, '.');
    assert(last_index_of(seq!['.'], '.') == 0);
    assert(last_index_of(ext, '.') == 0);
    lemma_last_index_of_concat(a1, ext, '.');
    assert(last_index_of(name, '.') == a1.len());
    assert(a1.len() > 0);
    let stem = spec_file_stem(name);
    assert(stem =~= a1) by {
        assert(name.take(a1.len() as int) =~= a1);
    }

    // The stamp's own dash is the last dash of the stem.
    let left = slug + seq!['-'] + d8;
    let right = seq!['-'] + d6;
    assert(stem =~= left + right);
    lemma_last_index_of_absent(d6, '-');
    lemma_last_index_of_concat(seq!['-'], d6, '-');
    assert(last_index_of(seq!['-'], '-') == 0);
    assert(last_index_of(right, '-') == 0);
    lemma_last_index_of_concat(left, right, '-');
    let pos = last_index_of(stem, '-');
    assert(pos == left.len());

    // The separating dash is the last dash before it.
    assert(stem.take(pos) =~= left);
    let l2 = slug + seq!['-'];
    assert(left =~= l2 + d8);
    lemma_last_index_of_absent(d8, '-');
    lemma_last_index_of_concat(l2, d8, '-');
    lemma_last_index_of_concat(slug, seq!['-'], '-');
    assert(last_index_of(l2, '-') == slug.len());
    let pos2 = last_index_of(stem.take(pos), '-');
    assert(pos2 == slug.len());

    assert(pos - pos2 - 1 == 8);
    assert(stem.len() - pos - 1 == 6);
    assert(stem.take(pos2) =~= slug);
}

} // verus!
