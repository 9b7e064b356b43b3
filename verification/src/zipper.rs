//! The archive-batching engine. A file list (or a list of grouped
//! subfolders) is partitioned into ZIP archives bounded by an entry-count
//! threshold; each archive is built in memory and named from its content
//! range. The caller enumerates the folders and writes the finished bytes to
//! disk.

use vstd::prelude::*;
use vstd::string::*;

use crate::err::AppError;
use crate::strutil::{spec_dec_str, spec_is_blank, str_is_blank, usize_to_string};
use crate::zipfile::{
    spec_all_data_small, spec_data_small, spec_name_addable, zip_archive_decodable,
    zip_archive_entries, zip_error_text, zw_entries, zw_finish, zw_new, zw_start_file,
    zw_write_all, MemZipWriter,
};
use crate::SourceDetails;

verus! {

/// Fixed number of files per archive in single-folder batching.
pub const FILES_PER_ZIP: usize = 10000;

/// Minimum cumulative file count that closes an archive in grouped batching.
pub const MIN_FILES_PER_ZIP: usize = 10000;

/// One file to be archived: its base name and its contents.
#[derive(Debug)]
pub struct FileEntry {
    pub name: String,
    pub data: Vec<u8>,
}

impl View for FileEntry {
    type V = (Seq<char>, Seq<u8>);

    open spec fn view(&self) -> (Seq<char>, Seq<u8>) {
        (self.name@, self.data@)
    }
}

/// One group of files: a subfolder's name and the files directly inside it.
#[derive(Debug)]
pub struct GroupEntry {
    pub name: String,
    pub files: Vec<FileEntry>,
}

/// One finished archive: its file name, its bytes, and (for specification
/// purposes) the entries it was built from.
pub struct BuiltArchive {
    pub name: String,
    pub bytes: Vec<u8>,
    pub entries: Ghost<Seq<(Seq<char>, Seq<u8>)>>,
}

/// The archive name for a file-count range: name, date stamp, and the
/// one-based start and end positions.
pub open spec fn spec_range_archive_name(
    db: Seq<char>,
    date: Seq<char>,
    start: int,
    end: int,
) -> Seq<char> {
    db + " "@ + date + " "@ + spec_dec_str(start) + " to "@ + spec_dec_str(end) + ".zip"@
}

/// Builds the archive name for a file-count range.
pub fn range_archive_name(database_name: &str, date: &str, start: usize, end: usize) -> (r: String)
    ensures
        r@ == spec_range_archive_name(database_name@, date@, start as int, end as int),
{
    let mut r = database_name.to_owned();
    r.append(" ");
    r.append(date);
    r.append(" ");
    r.append(usize_to_string(start).as_str());
    r.append(" to ");
    r.append(usize_to_string(end).as_str());
    r.append(".zip");
    proof {
        assert(r@ =~= spec_range_archive_name(database_name@, date@, start as int, end as int));
    }
    r
}

/// The archive name for a group range: name, date stamp, and the names of the
/// first and last group.
pub open spec fn spec_group_archive_name(
    db: Seq<char>,
    date: Seq<char>,
    start_group: Seq<char>,
    end_group: Seq<char>,
) -> Seq<char> {
    db + " "@ + date + " "@ + start_group + " to "@ + end_group + ".zip"@
}

/// Builds the archive name for a group range.
pub fn group_archive_name(database_name: &str, date: &str, start_group: &str, end_group: &str) -> (r:
    String)
    ensures
        r@ == spec_group_archive_name(database_name@, date@, start_group@, end_group@),
{
    let mut r = database_name.to_owned();
    r.append(" ");
    r.append(date);
    r.append(" ");
    r.append(start_group);
    r.append(" to ");
    r.append(end_group);
    r.append(".zip");
    proof {
        assert(r@ =~= spec_group_archive_name(database_name@, date@, start_group@, end_group@));
    }
    r
}

/// How many archives a file count yields: the count divided by the batch
/// size, rounded up.
pub open spec fn spec_num_batches(n: int) -> int {
    (n + FILES_PER_ZIP - 1) / FILES_PER_ZIP as int
}

/// The position just before a batch's first file.
pub open spec fn spec_batch_lo(k: int) -> int {
    k * FILES_PER_ZIP
}

/// The position of a batch's last file.
pub open spec fn spec_batch_hi(n: int, k: int) -> int {
    if k * FILES_PER_ZIP + FILES_PER_ZIP <= n {
        k * FILES_PER_ZIP + FILES_PER_ZIP
    } else {
        n
    }
}

/// The files as archive entries: base name and contents.
pub open spec fn spec_file_views(files: Seq<FileEntry>) -> Seq<(Seq<char>, Seq<u8>)> {
    files.map_values(|f: FileEntry| f@)
}

/// The entries assigned to one batch of single-folder batching.
pub open spec fn spec_batch_entries(files: Seq<FileEntry>, k: int) -> Seq<(Seq<char>, Seq<u8>)> {
    spec_file_views(files).subrange(spec_batch_lo(k), spec_batch_hi(files.len() as int, k))
}

proof fn lemma_batch_bounds(n: int, k: int)
    requires
        n >= 0,
        0 <= k < spec_num_batches(n),
    ensures
        0 <= spec_batch_lo(k) < n,
        spec_batch_lo(k) < spec_batch_hi(n, k) <= n,
        spec_batch_hi(n, k) - spec_batch_lo(k) <= FILES_PER_ZIP,
{
    let f = FILES_PER_ZIP as int;
    let nb = spec_num_batches(n);
    assert(nb * f <= n + f - 1) by (nonlinear_arith)
        requires
            nb == (n + f - 1) / f,
            f == 10000,
            n >= 0,
    ;
    assert(k * f <= (nb - 1) * f) by (nonlinear_arith)
        requires
            k <= nb - 1,
            f > 0,
    ;
    assert((nb - 1) * f == nb * f - f);
    assert(k * f >= 0) by (nonlinear_arith)
        requires
            k >= 0,
            f > 0,
    ;
}

/// A file list the archive writer accepts outright: pairwise distinct base
/// names, names short enough for the format, and every file's data below the
/// plain entry size limit.
pub open spec fn spec_files_zippable(files: Seq<FileEntry>) -> bool {
    &&& forall|a: int, b: int|
        0 <= a < b < files.len() ==> (#[trigger] files[a]).name@ != (#[trigger] files[b]).name@
    &&& forall|q: int| 0 <= q < files.len() ==> (#[trigger] files[q]).name@.len() <= 0x3fff
    &&& forall|q: int| 0 <= q < files.len() ==> spec_data_small((#[trigger] files[q]).data@)
}

/// The outcome of single-folder batching, as the contract states it: one
/// archive per batch, named from its one-based file range, holding exactly
/// its batch's files, and decoding back to them.
pub open spec fn spec_single_folder_ok(
    db: Seq<char>,
    date: Seq<char>,
    files: Seq<FileEntry>,
    archs: Seq<BuiltArchive>,
) -> bool {
    let n = files.len() as int;
    &&& archs.len() == spec_num_batches(n)
    &&& forall|k: int|
        0 <= k < archs.len() ==> (#[trigger] archs[k].name)@ == spec_range_archive_name(
            db,
            date,
            spec_batch_lo(k) + 1,
            spec_batch_hi(n, k),
        )
    &&& forall|k: int| 0 <= k < archs.len() ==> (#[trigger] archs[k].entries)@ == spec_batch_entries(files, k)
    &&& forall|k: int|
        0 <= k < archs.len() ==> zip_archive_entries((#[trigger] archs[k].bytes)@) == Some(
            archs[k].entries@,
        )
    &&& forall|k: int| 0 <= k < archs.len() ==> zip_archive_decodable((#[trigger] archs[k].bytes)@)
}

/// Splits a flat file list into batches of `FILES_PER_ZIP` files (the last
/// batch may be smaller) and builds one archive per batch. Returns the
/// archives and the total file count. An empty list yields no archive, and a
/// list of distinct, short-named, small files is always accepted.
#[verifier::loop_isolation(false)]
pub fn zip_mdr_files_in_single_folder(database_name: &str, date: &str, files: &Vec<FileEntry>) -> (r:
    Result<(Vec<BuiltArchive>, usize), AppError>)
    requires
        files@.len() + FILES_PER_ZIP <= usize::MAX,
    ensures
        match r {
            Ok(out) => out.1 == files@.len() && spec_single_folder_ok(
                database_name@,
                date@,
                files@,
                out.0@,
            ),
            Err(e) => e is ZipError,
        },
        spec_files_zippable(files@) ==> r is Ok,
{
    let n = files.len();
    let mut archs: Vec<BuiltArchive> = Vec::new();
    let num_batches = (n + FILES_PER_ZIP - 1) / FILES_PER_ZIP;
    let mut k: usize = 0;
    while k < num_batches
        invariant
            0 <= k <= num_batches,
            archs@.len() == k,
            forall|q: int|
                0 <= q < k ==> (#[trigger] archs@[q].name)@ == spec_range_archive_name(
                    database_name@,
                    date@,
                    spec_batch_lo(q) + 1,
                    spec_batch_hi(n as int, q),
                ),
            forall|q: int|
                0 <= q < k ==> (#[trigger] archs@[q].entries)@ == spec_batch_entries(files@, q),
            forall|q: int|
                0 <= q < k ==> zip_archive_entries((#[trigger] archs@[q].bytes)@) == Some(
                    archs@[q].entries@,
                ),
            forall|q: int| 0 <= q < k ==> zip_archive_decodable((#[trigger] archs@[q].bytes)@),
        decreases num_batches - k,
    {
        proof {
            lemma_batch_bounds(n as int, k as int);
        }
        let lo = k * FILES_PER_ZIP;
        let mut hi = lo + FILES_PER_ZIP;
        if hi > n {
            hi = n;
        }
        let name = range_archive_name(database_name, date, lo + 1, hi);
        let mut w = zw_new();
        let mut i = lo;
        proof {
            assert(zw_entries(w) =~= spec_file_views(files@).subrange(lo as int, lo as int));
        }
        while i < hi
            invariant
                lo <= i <= hi,
                zw_entries(w) == spec_file_views(files@).subrange(lo as int, i as int),
            decreases hi - i,
        {
            let entry = &files[i];
            proof {
                if spec_files_zippable(files@) {
                    let ents = zw_entries(w);
                    assert forall|q: int| 0 <= q < ents.len() implies (#[trigger] ents[q]).0
                        != entry.name@ && spec_data_small(ents[q].1) by {
                        assert(ents[q] == spec_file_views(files@)[lo + q]);
                        assert(spec_file_views(files@)[lo + q] == files@[lo + q]@);
                    }
                    assert(spec_name_addable(ents, entry.name@));
                    assert(spec_all_data_small(ents));
                }
            }
            match zw_start_file(&mut w, entry.name.as_str()) {
                Ok(()) => {},
                Err(e) => {
                    proof {
                        if spec_files_zippable(files@) {
                            assert(false);
                        }
                    }
                    return Err(AppError::ZipError(zip_error_text(&e), name));
                },
            }
            proof {
                if spec_files_zippable(files@) {
                    assert(Seq::<u8>::empty() + entry.data@ =~= entry.data@);
                    assert(spec_data_small(zw_entries(w).last().1 + entry.data@));
                }
            }
            match zw_write_all(&mut w, entry.data.as_slice()) {
                Ok(()) => {},
                Err(e) => {
                    proof {
                        if spec_files_zippable(files@) {
                            assert(false);
                        }
                    }
                    return Err(AppError::ZipError(zip_error_text(&e), name));
                },
            }
            proof {
                let fv = spec_file_views(files@);
                assert(fv[i as int] == files@[i as int]@);
                assert(Seq::<u8>::empty() + files@[i as int].data@ =~= files@[i as int].data@);
                assert(zw_entries(w) =~= fv.subrange(lo as int, i as int + 1));
            }
            i += 1;
        }
        proof {
            if spec_files_zippable(files@) {
                let ents = zw_entries(w);
                assert forall|q: int| 0 <= q < ents.len() implies spec_data_small(
                    (#[trigger] ents[q]).1,
                ) by {
                    assert(ents[q] == spec_file_views(files@)[lo + q]);
                    assert(spec_file_views(files@)[lo + q] == files@[lo + q]@);
                }
                assert(spec_all_data_small(ents));
            }
        }
        let bytes = match zw_finish(w) {
            Ok(b) => b,
            Err(e) => {
                proof {
                    if spec_files_zippable(files@) {
                        assert(false);
                    }
                }
                return Err(AppError::ZipError(zip_error_text(&e), name));
            },
        };
        archs.push(
            BuiltArchive { name, bytes, entries: Ghost(spec_batch_entries(files@, k as int)) },
        );
        k += 1;
    }
    Ok((archs, n))
}

/// A group's files as archive entries: each under a "group/file" path, so
/// the grouping survives inside the archive.
pub open spec fn spec_group_file_views(g: GroupEntry) -> Seq<(Seq<char>, Seq<u8>)> {
    g.files@.map_values(|f: FileEntry| (g.name@ + "/"@ + f.name@, f.data@))
}

/// The entries of the groups in an index range, in order.
pub open spec fn spec_groups_entries(groups: Seq<GroupEntry>, s: int, e: int) -> Seq<
    (Seq<char>, Seq<u8>),
>
    decreases e - s,
{
    if s >= e {
        Seq::empty()
    } else {
        spec_groups_entries(groups, s, e - 1) + spec_group_file_views(groups[e - 1])
    }
}

/// The file count of each group.
pub open spec fn spec_group_counts(groups: Seq<GroupEntry>) -> Seq<int> {
    groups.map_values(|g: GroupEntry| g.files@.len() as int)
}

/// The group index ranges that grouped batching assigns to archives, scanned
/// from group `i` with `start` the group that began the open archive and `j`
/// the files it holds so far: an archive is restarted at any group reached
/// with no files pending, closed once its cumulative count reaches the
/// threshold, and the final in-progress archive is closed at end of input.
pub open spec fn spec_grouped_ranges_from(counts: Seq<int>, start: int, i: int, j: int) -> Seq<
    (int, int),
>
    decreases counts.len() - i,
{
    if i >= counts.len() {
        if start < i {
            seq![(start, i)]
        } else {
            Seq::empty()
        }
    } else {
        let s = if j == 0 {
            i
        } else {
            start
        };
        let j2 = j + counts[i];
        if j2 >= MIN_FILES_PER_ZIP {
            seq![(s, i + 1)] + spec_grouped_ranges_from(counts, i + 1, i + 1, 0)
        } else {
            spec_grouped_ranges_from(counts, s, i + 1, j2)
        }
    }
}

/// The archive ranges of a whole group list.
pub open spec fn spec_grouped_ranges(counts: Seq<int>) -> Seq<(int, int)> {
    spec_grouped_ranges_from(counts, 0, 0, 0)
}

/// Every archive range is non-empty and lies within the group list.
pub proof fn lemma_grouped_ranges_wf(counts: Seq<int>, start: int, i: int, j: int)
    requires
        0 <= start <= i <= counts.len(),
    ensures
        forall|q: int|
            0 <= q < spec_grouped_ranges_from(counts, start, i, j).len() ==> {
                let rng = #[trigger] spec_grouped_ranges_from(counts, start, i, j)[q];
                start <= rng.0 && rng.0 < rng.1 <= counts.len()
            },
    decreases counts.len() - i,
{
    let res = spec_grouped_ranges_from(counts, start, i, j);
    if i < counts.len() {
        let s = if j == 0 {
            i
        } else {
            start
        };
        let j2 = j + counts[i];
        if j2 >= MIN_FILES_PER_ZIP {
            lemma_grouped_ranges_wf(counts, i + 1, i + 1, 0);
            let rec = spec_grouped_ranges_from(counts, i + 1, i + 1, 0);
            assert(res == seq![(s, i + 1)] + rec);
            assert forall|q: int| 0 <= q < res.len() implies {
                let rng = #[trigger] res[q];
                start <= rng.0 && rng.0 < rng.1 <= counts.len()
            } by {
                if q == 0 {
                    assert(res[0] == (s, i + 1));
                } else {
                    assert(res[q] == rec[q - 1]);
                }
            }
        } else {
            lemma_grouped_ranges_wf(counts, s, i + 1, j2);
            let rec = spec_grouped_ranges_from(counts, s, i + 1, j2);
            assert(res == rec);
            assert forall|q: int| 0 <= q < res.len() implies {
                let rng = #[trigger] res[q];
                start <= rng.0 && rng.0 < rng.1 <= counts.len()
            } by {
                assert(res[q] == rec[q]);
            }
        }
    }
}

/// Builds the in-archive path of a grouped file.
pub fn entry_path(group: &str, file: &str) -> (r: String)
    ensures
        r@ == group@ + "/"@ + file@,
{
    let mut r = group.to_owned();
    r.append("/");
    r.append(file);
    proof {
        assert(r@ =~= group@ + "/"@ + file@);
    }
    r
}

/// An entry list the archive writer accepts outright: pairwise distinct
/// names, names short enough for the format, and small data.
pub open spec fn spec_entries_zippable(entries: Seq<(Seq<char>, Seq<u8>)>) -> bool {
    &&& forall|a: int, b: int|
        0 <= a < b < entries.len() ==> (#[trigger] entries[a]).0 != (#[trigger] entries[b]).0
    &&& forall|q: int| 0 <= q < entries.len() ==> (#[trigger] entries[q]).0.len() <= 0x3fff
    &&& forall|q: int| 0 <= q < entries.len() ==> spec_data_small((#[trigger] entries[q]).1)
}

/// A name free of path separators.
pub open spec fn spec_no_slash(s: Seq<char>) -> bool {
    forall|i: int| 0 <= i < s.len() ==> s[i] != '/'
}

/// A group list the archive writer accepts outright: separator-free,
/// pairwise distinct group names; distinct file names within each group;
/// in-archive paths short enough for the format; small data.
pub open spec fn spec_groups_zippable(groups: Seq<GroupEntry>) -> bool {
    &&& forall|a: int, b: int|
        0 <= a < b < groups.len() ==> (#[trigger] groups[a]).name@ != (#[trigger] groups[b]).name@
    &&& forall|q: int| 0 <= q < groups.len() ==> spec_no_slash((#[trigger] groups[q]).name@)
    &&& forall|q: int, t: int|
        #![trigger groups[q].files@[t]]
        0 <= q < groups.len() && 0 <= t < groups[q].files@.len() ==> groups[q].name@.len() + 1
            + groups[q].files@[t].name@.len() <= 0x3fff
    &&& forall|q: int, t: int|
        #![trigger groups[q].files@[t]]
        0 <= q < groups.len() && 0 <= t < groups[q].files@.len() ==> spec_data_small(
            groups[q].files@[t].data@,
        )
    &&& forall|q: int, a: int, b: int|
        #![trigger groups[q].files@[a], groups[q].files@[b]]
        0 <= q < groups.len() && 0 <= a < b < groups[q].files@.len() ==> groups[q].files@[a].name@
            != groups[q].files@[b].name@
}

/// Distinct (group, file) pairs with separator-free group names give
/// distinct in-archive paths.
proof fn lemma_path_injective(g1: Seq<char>, f1: Seq<char>, g2: Seq<char>, f2: Seq<char>)
    requires
        spec_no_slash(g1),
        spec_no_slash(g2),
        g1 != g2 || f1 != f2,
    ensures
        g1 + "/"@ + f1 != g2 + "/"@ + f2,
{
    reveal_strlit("/");
    let p1 = g1 + "/"@ + f1;
    let p2 = g2 + "/"@ + f2;
    if p1 == p2 {
        assert(("/"@).len() == 1);
        assert(p1.len() == g1.len() + 1 + f1.len());
        assert(p2.len() == g2.len() + 1 + f2.len());
        if g1.len() == g2.len() {
            assert(f1.len() == f2.len());
            assert(g1 =~= g2) by {
                assert(forall|i: int| 0 <= i < g1.len() ==> p1[i] == g1[i] && p2[i] == g2[i]);
            }
            assert(f1 =~= f2) by {
                assert(forall|i: int|
                    0 <= i < f1.len() ==> p1[g1.len() + 1 + i] == f1[i] && p2[g2.len() + 1 + i]
                        == f2[i]);
            }
        } else if g1.len() < g2.len() {
            assert(p1[g1.len() as int] == '/');
            assert(p2[g1.len() as int] == g2[g1.len() as int]);
        } else {
            assert(p2[g2.len() as int] == '/');
            assert(p1[g2.len() as int] == g1[g2.len() as int]);
        }
    }
}

/// An archive entry that is the path of one (group, file) pair of a range.
spec fn spec_is_group_path(
    groups: Seq<GroupEntry>,
    s: int,
    e: int,
    entry: (Seq<char>, Seq<u8>),
) -> bool {
    exists|gi: int, fi: int|
        #![trigger groups[gi].files@[fi]]
        s <= gi < e && 0 <= fi < groups[gi].files@.len() && entry == (
            groups[gi].name@ + "/"@ + groups[gi].files@[fi].name@,
            groups[gi].files@[fi].data@,
        )
}

/// The entries of a zippable group range are themselves zippable, and each
/// one is the path of one (group, file) pair of the range.
proof fn lemma_groups_entries_zippable(groups: Seq<GroupEntry>, s: int, e: int)
    requires
        spec_groups_zippable(groups),
        0 <= s <= e <= groups.len(),
    ensures
        spec_entries_zippable(spec_groups_entries(groups, s, e)),
        forall|q: int|
            0 <= q < spec_groups_entries(groups, s, e).len() ==> #[trigger] spec_is_group_path(
                groups,
                s,
                e,
                spec_groups_entries(groups, s, e)[q],
            ),
    decreases e - s,
{
    let ents = spec_groups_entries(groups, s, e);
    if s < e {
        lemma_groups_entries_zippable(groups, s, e - 1);
        let prev = spec_groups_entries(groups, s, e - 1);
        let gv = spec_group_file_views(groups[e - 1]);
        assert(ents == prev + gv);
        assert forall|t: int| 0 <= t < gv.len() implies gv[t] == (
            groups[e - 1].name@ + "/"@ + groups[e - 1].files@[t].name@,
            groups[e - 1].files@[t].data@,
        ) by {
            assert(gv[t] == spec_group_file_views(groups[e - 1])[t]);
        }
        assert forall|q: int| 0 <= q < ents.len() implies #[trigger] spec_is_group_path(
            groups,
            s,
            e,
            ents[q],
        ) by {
            if q < prev.len() {
                assert(ents[q] == prev[q]);
                assert(spec_is_group_path(groups, s, e - 1, prev[q]));
                let (gi, fi) = choose|gi: int, fi: int|
                    #![trigger groups[gi].files@[fi]]
                    s <= gi < e - 1 && 0 <= fi < groups[gi].files@.len() && prev[q] == (
                        groups[gi].name@ + "/"@ + groups[gi].files@[fi].name@,
                        groups[gi].files@[fi].data@,
                    );
                assert(s <= gi < e && 0 <= fi < groups[gi].files@.len() && ents[q] == (
                    groups[gi].name@ + "/"@ + groups[gi].files@[fi].name@,
                    groups[gi].files@[fi].data@,
                ));
            } else {
                let fi = q - prev.len();
                assert(ents[q] == gv[fi]);
                assert(s <= e - 1 < e && 0 <= fi < groups[e - 1].files@.len() && ents[q] == (
                    groups[e - 1].name@ + "/"@ + groups[e - 1].files@[fi].name@,
                    groups[e - 1].files@[fi].data@,
                ));
            }
        }
        assert forall|a: int, b: int| 0 <= a < b < ents.len() implies (#[trigger] ents[a]).0 != (
        #[trigger] ents[b]).0 by {
            if b < prev.len() {
                assert(prev[a].0 != prev[b].0);
            } else if a >= prev.len() {
                let fa = a - prev.len();
                let fb = b - prev.len();
                assert(ents[a] == gv[fa] && ents[b] == gv[fb]);
                assert(groups[e - 1].files@[fa].name@ != groups[e - 1].files@[fb].name@);
                lemma_path_injective(
                    groups[e - 1].name@,
                    groups[e - 1].files@[fa].name@,
                    groups[e - 1].name@,
                    groups[e - 1].files@[fb].name@,
                );
            } else {
                let fb = b - prev.len();
                assert(ents[a] == prev[a] && ents[b] == gv[fb]);
                assert(spec_is_group_path(groups, s, e - 1, prev[a]));
                let (ga, fa) = choose|gi: int, fi: int|
                    #![trigger groups[gi].files@[fi]]
                    s <= gi < e - 1 && 0 <= fi < groups[gi].files@.len() && prev[a] == (
                        groups[gi].name@ + "/"@ + groups[gi].files@[fi].name@,
                        groups[gi].files@[fi].data@,
                    );
                assert(groups[ga].name@ != groups[e - 1].name@);
                lemma_path_injective(
                    groups[ga].name@,
                    groups[ga].files@[fa].name@,
                    groups[e - 1].name@,
                    groups[e - 1].files@[fb].name@,
                );
            }
        }
        assert forall|q: int| 0 <= q < ents.len() implies (#[trigger] ents[q]).0.len() <= 0x3fff
            && spec_data_small(ents[q].1) by {
            reveal_strlit("/");
            if q < prev.len() {
                assert(ents[q] == prev[q]);
                assert(prev[q].0.len() <= 0x3fff && spec_data_small(prev[q].1));
            } else {
                let fi = q - prev.len();
                assert(ents[q] == gv[fi]);
                assert(gv[fi].0.len() == groups[e - 1].name@.len() + 1 + groups[e
                    - 1].files@[fi].name@.len());
            }
        }
    } else {
        assert(ents =~= Seq::<(Seq<char>, Seq<u8>)>::empty());
    }
}

/// The outcome of grouped batching, as the contract states it: one archive
/// per range, named from its first and last group, holding exactly the
/// entries of its groups, and decoding back to them.
pub open spec fn spec_grouped_ok(
    db: Seq<char>,
    date: Seq<char>,
    groups: Seq<GroupEntry>,
    archs: Seq<BuiltArchive>,
) -> bool {
    let ranges = spec_grouped_ranges(spec_group_counts(groups));
    &&& archs.len() == ranges.len()
    &&& forall|q: int|
        0 <= q < ranges.len() ==> (#[trigger] archs[q].name)@ == spec_group_archive_name(
            db,
            date,
            groups[ranges[q].0].name@,
            groups[ranges[q].1 - 1].name@,
        )
    &&& forall|q: int|
        0 <= q < ranges.len() ==> (#[trigger] archs[q].entries)@ == spec_groups_entries(
            groups,
            ranges[q].0,
            ranges[q].1,
        )
    &&& forall|q: int|
        0 <= q < ranges.len() ==> zip_archive_entries((#[trigger] archs[q].bytes)@) == Some(
            archs[q].entries@,
        )
    &&& forall|q: int| 0 <= q < ranges.len() ==> zip_archive_decodable((#[trigger] archs[q].bytes)@)
}

/// Batches a list of groups into archives bounded below by
/// `MIN_FILES_PER_ZIP` cumulative files, preserving each group's name as a
/// path prefix inside the archive. Returns the archives and the group count.
/// An empty list yields no archive, and a zippable group list (distinct,
/// separator-free group names; distinct file names per group; short paths;
/// small files) is always accepted.
#[verifier::loop_isolation(false)]
pub fn zip_mdr_files_in_multiple_folders(
    database_name: &str,
    date: &str,
    groups: &Vec<GroupEntry>,
) -> (r: Result<(Vec<BuiltArchive>, usize), AppError>)
    requires
        forall|g: int|
            0 <= g < groups@.len() ==> (#[trigger] groups@[g]).files@.len() <= usize::MAX
                - MIN_FILES_PER_ZIP,
    ensures
        match r {
            Ok(out) => out.1 == groups@.len() && spec_grouped_ok(
                database_name@,
                date@,
                groups@,
                out.0@,
            ),
            Err(e) => e is ZipError,
        },
        spec_groups_zippable(groups@) ==> r is Ok,
{
    let ghost counts = spec_group_counts(groups@);
    let n = groups.len();
    let mut archs: Vec<BuiltArchive> = Vec::new();
    let ghost done: Seq<(int, int)> = Seq::empty();
    let mut done = Ghost(done);
    let mut w = zw_new();
    let mut start: usize = 0;
    let mut j: usize = 0;
    let mut g: usize = 0;
    proof {
        assert(zw_entries(w) =~= spec_groups_entries(groups@, 0, 0));
        assert(Seq::<(int, int)>::empty() + spec_grouped_ranges_from(counts, 0, 0, 0)
            =~= spec_grouped_ranges(counts));
    }
    while g < n
        invariant
            0 <= start <= g <= n,
            j < MIN_FILES_PER_ZIP,
            zw_entries(w) == spec_groups_entries(groups@, start as int, g as int),
            spec_grouped_ranges(counts) == done@ + spec_grouped_ranges_from(
                counts,
                start as int,
                g as int,
                j as int,
            ),
            archs@.len() == done@.len(),
            forall|q: int| 0 <= q < done@.len() ==> 0 <= (#[trigger] done@[q]).0 < done@[q].1 <= n,
            forall|q: int|
                0 <= q < done@.len() ==> (#[trigger] archs@[q].name)@ == spec_group_archive_name(
                    database_name@,
                    date@,
                    groups@[done@[q].0].name@,
                    groups@[done@[q].1 - 1].name@,
                ),
            forall|q: int|
                0 <= q < done@.len() ==> (#[trigger] archs@[q].entries)@ == spec_groups_entries(
                    groups@,
                    done@[q].0,
                    done@[q].1,
                ),
            forall|q: int|
                0 <= q < done@.len() ==> zip_archive_entries((#[trigger] archs@[q].bytes)@) == Some(
                    archs@[q].entries@,
                ),
            forall|q: int|
                0 <= q < done@.len() ==> zip_archive_decodable((#[trigger] archs@[q].bytes)@),
        decreases n - g,
    {
        if j == 0 {
            w = zw_new();
            start = g;
            proof {
                assert(zw_entries(w) =~= spec_groups_entries(groups@, g as int, g as int));
            }
        }
        let group = &groups[g];
        let m = group.files.len();
        proof {
            assert(spec_group_file_views(groups@[g as int]).subrange(0, 0)
                =~= Seq::<(Seq<char>, Seq<u8>)>::empty());
        }
        let mut t: usize = 0;
        while t < m
            invariant
                0 <= t <= m,
                zw_entries(w) == spec_groups_entries(groups@, start as int, g as int)
                    + spec_group_file_views(groups@[g as int]).subrange(0, t as int),
            decreases m - t,
        {
            let f = &group.files[t];
            let path = entry_path(group.name.as_str(), f.name.as_str());
            proof {
                if spec_groups_zippable(groups@) {
                    lemma_groups_entries_zippable(groups@, start as int, g as int + 1);
                    let full = spec_groups_entries(groups@, start as int, g as int + 1);
                    let m0 = spec_groups_entries(groups@, start as int, g as int).len();
                    let gv = spec_group_file_views(groups@[g as int]);
                    assert(full == spec_groups_entries(groups@, start as int, g as int) + gv);
                    assert(zw_entries(w) =~= full.take(m0 + t));
                    assert(full[m0 + t] == gv[t as int]);
                    assert(gv[t as int] == (path@, f.data@));
                    assert forall|q: int| 0 <= q < m0 + t implies (#[trigger] zw_entries(w)[q]).0
                        != path@ && spec_data_small(zw_entries(w)[q].1) by {
                        assert(zw_entries(w)[q] == full[q]);
                        assert(full[q].0 != full[m0 + t].0);
                    }
                    assert(spec_name_addable(zw_entries(w), path@));
                    assert(spec_all_data_small(zw_entries(w)));
                }
            }
            match zw_start_file(&mut w, path.as_str()) {
                Ok(()) => {},
                Err(e) => {
                    proof {
                        if spec_groups_zippable(groups@) {
                            assert(false);
                        }
                    }
                    return Err(AppError::ZipError(zip_error_text(&e), group.name.clone()));
                },
            }
            proof {
                if spec_groups_zippable(groups@) {
                    assert(Seq::<u8>::empty() + f.data@ =~= f.data@);
                    assert(spec_data_small(zw_entries(w).last().1 + f.data@));
                }
            }
            match zw_write_all(&mut w, f.data.as_slice()) {
                Ok(()) => {},
                Err(e) => {
                    proof {
                        if spec_groups_zippable(groups@) {
                            assert(false);
                        }
                    }
                    return Err(AppError::ZipError(zip_error_text(&e), group.name.clone()));
                },
            }
            proof {
                let gv = spec_group_file_views(groups@[g as int]);
                assert(gv[t as int] == (
                    groups@[g as int].name@ + "/"@ + groups@[g as int].files@[t as int].name@,
                    groups@[g as int].files@[t as int].data@,
                ));
                assert(Seq::<u8>::empty() + f.data@ =~= f.data@);
                assert(zw_entries(w) =~= spec_groups_entries(groups@, start as int, g as int)
                    + gv.subrange(0, t as int + 1));
            }
            t += 1;
        }
        proof {
            assert(spec_group_file_views(groups@[g as int]).subrange(0, m as int)
                =~= spec_group_file_views(groups@[g as int]));
            assert(spec_groups_entries(groups@, start as int, g as int + 1) == spec_groups_entries(
                groups@,
                start as int,
                g as int,
            ) + spec_group_file_views(groups@[g as int]));
        }
        j = j + m;
        if j >= MIN_FILES_PER_ZIP {
            let name = group_archive_name(
                database_name,
                date,
                groups[start].name.as_str(),
                group.name.as_str(),
            );
            let ghost ent = spec_groups_entries(groups@, start as int, g as int + 1);
            proof {
                if spec_groups_zippable(groups@) {
                    lemma_groups_entries_zippable(groups@, start as int, g as int + 1);
                    assert(spec_all_data_small(zw_entries(w)));
                }
            }
            let bytes = match zw_finish(w) {
                Ok(b) => b,
                Err(e) => {
                    proof {
                        if spec_groups_zippable(groups@) {
                            assert(false);
                        }
                    }
                    return Err(AppError::ZipError(zip_error_text(&e), name));
                },
            };
            archs.push(BuiltArchive { name, bytes, entries: Ghost(ent) });
            proof {
                done@ = done@.push((start as int, g as int + 1));
            }
            w = zw_new();
            start = g + 1;
            j = 0;
            proof {
                assert(zw_entries(w) =~= spec_groups_entries(groups@, g as int + 1, g as int + 1));
            }
        }
        g += 1;
    }
    if start < n {
        let name = group_archive_name(
            database_name,
            date,
            groups[start].name.as_str(),
            groups[n - 1].name.as_str(),
        );
        let ghost ent = spec_groups_entries(groups@, start as int, n as int);
        proof {
            if spec_groups_zippable(groups@) {
                lemma_groups_entries_zippable(groups@, start as int, n as int);
                assert(spec_all_data_small(zw_entries(w)));
            }
        }
        let bytes = match zw_finish(w) {
            Ok(b) => b,
            Err(e) => {
                proof {
                    if spec_groups_zippable(groups@) {
                        assert(false);
                    }
                }
                return Err(AppError::ZipError(zip_error_text(&e), name));
            },
        };
        archs.push(BuiltArchive { name, bytes, entries: Ghost(ent) });
        proof {
            done@ = done@.push((start as int, n as int));
        }
    }
    proof {
        assert(spec_grouped_ranges(counts) =~= done@);
    }
    Ok((archs, n))
}

/// The contents of a source's folder, as its batching mode reads it: a flat
/// file list, or a one-level hierarchy of groups.
pub enum FolderListing {
    Flat(Vec<FileEntry>),
    Grouped(Vec<GroupEntry>),
}

/// The number of items a listing holds: files when flat, groups when grouped.
pub open spec fn spec_listing_count(listing: FolderListing) -> int {
    match listing {
        FolderListing::Flat(files) => files@.len() as int,
        FolderListing::Grouped(groups) => groups@.len() as int,
    }
}

/// A listing the archive writer accepts outright, flat or grouped.
pub open spec fn spec_listing_zippable(listing: FolderListing) -> bool {
    match listing {
        FolderListing::Flat(files) => spec_files_zippable(files@),
        FolderListing::Grouped(groups) => spec_groups_zippable(groups@),
    }
}

/// The batching outcome for a listing, flat or grouped.
pub open spec fn spec_listing_ok(
    db: Seq<char>,
    date: Seq<char>,
    listing: FolderListing,
    archs: Seq<BuiltArchive>,
) -> bool {
    match listing {
        FolderListing::Flat(files) => spec_single_folder_ok(db, date, files@, archs),
        FolderListing::Grouped(groups) => spec_grouped_ok(db, date, groups@, archs),
    }
}

/// Relies on chrono's Local::now and its formatter: a six-character stamp of
/// the current local date, two digits each of year, month and day. The result
/// depends on the clock, so only its length is stated.
#[verifier::external_body]
fn today_stamp() -> (s: String)
    ensures
        s@.len() == 6,
{
    chrono::Local::now().format("%y%m%d").to_string()
}

/// Batches one source's files into archives named with today's date stamp;
/// the listing is flat or grouped as the catalog flags the source. A source
/// with a blank database name is rejected before anything else happens.
pub fn zip_mdr_folder(source: &SourceDetails, listing: &FolderListing) -> (r: Result<
    (Vec<BuiltArchive>, usize),
    AppError,
>)
    requires
        match *listing {
            FolderListing::Flat(files) => !source.local_files_grouped && files@.len()
                + FILES_PER_ZIP <= usize::MAX,
            FolderListing::Grouped(groups) => source.local_files_grouped && forall|g: int|
                0 <= g < groups@.len() ==> (#[trigger] groups@[g]).files@.len() <= usize::MAX
                    - MIN_FILES_PER_ZIP,
        },
    ensures
        spec_is_blank(source.database_name@) ==> r is Err,
        !spec_is_blank(source.database_name@) && spec_listing_zippable(*listing) ==> r is Ok,
        match r {
            Ok(out) => !spec_is_blank(source.database_name@) && out.1 == spec_listing_count(
                *listing,
            ) && exists|date: Seq<char>|
                date.len() == 6 && #[trigger] spec_listing_ok(
                    source.database_name@,
                    date,
                    *listing,
                    out.0@,
                ),
            Err(e) => if spec_is_blank(source.database_name@) {
                e is FileSystemError
            } else {
                e is ZipError
            },
        },
{
    if str_is_blank(source.database_name.as_str()) {
        let p = "No database name in Source details".to_owned();
        let d = "Unable to zip the corresponding archive".to_owned();
        return Err(AppError::FileSystemError(p, d));
    }
    let date = today_stamp();
    match listing {
        FolderListing::Flat(files) => {
            match zip_mdr_files_in_single_folder(source.database_name.as_str(), date.as_str(), files) {
                Ok(out) => {
                    proof {
                        assert(spec_listing_ok(source.database_name@, date@, *listing, out.0@));
                    }
                    Ok(out)
                },
                Err(e) => Err(e),
            }
        },
        FolderListing::Grouped(groups) => {
            match zip_mdr_files_in_multiple_folders(
                source.database_name.as_str(),
                date.as_str(),
                groups,
            ) {
                Ok(out) => {
                    proof {
                        assert(spec_listing_ok(source.database_name@, date@, *listing, out.0@));
                    }
                    Ok(out)
                },
                Err(e) => Err(e),
            }
        },
    }
}

/// The first `k` batches of a file list, joined in order.
pub open spec fn spec_concat_batches(files: Seq<FileEntry>, k: int) -> Seq<(Seq<char>, Seq<u8>)>
    decreases k,
{
    if k <= 0 {
        Seq::empty()
    } else {
        spec_concat_batches(files, k - 1) + spec_batch_entries(files, k - 1)
    }
}

proof fn lemma_concat_batches_prefix(files: Seq<FileEntry>, k: int)
    requires
        0 <= k <= spec_num_batches(files.len() as int),
    ensures
        spec_concat_batches(files, k) == spec_file_views(files).take(
            if k * FILES_PER_ZIP <= files.len() {
                k * FILES_PER_ZIP
            } else {
                files.len() as int
            },
        ),
    decreases k,
{
    let fv = spec_file_views(files);
    let n = files.len() as int;
    if k > 0 {
        lemma_concat_batches_prefix(files, k - 1);
        lemma_batch_bounds(n, k - 1);
        let lo = spec_batch_lo(k - 1);
        let hi = spec_batch_hi(n, k - 1);
        assert(fv.take(lo) + fv.subrange(lo, hi) =~= fv.take(hi));
        assert((k - 1) * FILES_PER_ZIP == k * FILES_PER_ZIP - FILES_PER_ZIP);
        if k * FILES_PER_ZIP <= n {
            assert(hi == k * FILES_PER_ZIP);
        } else {
            assert(hi == n);
        }
    } else {
        assert(fv.take(0) =~= Seq::<(Seq<char>, Seq<u8>)>::empty());
    }
}

/// Batch completeness: single-folder batching of a list of `n` files yields
/// exactly `spec_num_batches(n)` batches (the count divided by the batch
/// size, rounded up); every batch holds exactly `FILES_PER_ZIP` entries
/// except possibly the last, which is non-empty; and the batches joined in
/// order are exactly the input files — nothing dropped, nothing repeated.
pub proof fn lemma_batch_completeness(files: Seq<FileEntry>)
    ensures
        forall|k: int|
            0 <= k < spec_num_batches(files.len() as int) - 1 ==> #[trigger] spec_batch_entries(
                files,
                k,
            ).len() == FILES_PER_ZIP,
        spec_num_batches(files.len() as int) > 0 ==> {
            let last = spec_batch_entries(files, spec_num_batches(files.len() as int) - 1);
            1 <= last.len() <= FILES_PER_ZIP
        },
        spec_concat_batches(files, spec_num_batches(files.len() as int)) == spec_file_views(files),
{
    let n = files.len() as int;
    let nb = spec_num_batches(n);
    let f = FILES_PER_ZIP as int;
    assert forall|k: int| 0 <= k < nb - 1 implies #[trigger] spec_batch_entries(files, k).len()
        == FILES_PER_ZIP by {
        lemma_batch_bounds(n, k);
        assert((k + 1) * f <= (nb - 1) * f) by (nonlinear_arith)
            requires
                k + 1 <= nb - 1,
                f > 0,
        ;
        assert((nb - 1) * f <= n - 1) by (nonlinear_arith)
            requires
                nb == (n + f - 1) / f,
                f == 10000,
                n >= 0,
        ;
        assert((k + 1) * f == k * f + f);
    }
    if nb > 0 {
        lemma_batch_bounds(n, nb - 1);
    }
    lemma_concat_batches_prefix(files, nb);
    if nb > 0 {
        assert(nb * f >= n) by (nonlinear_arith)
            requires
                nb == (n + f - 1) / f,
                f == 10000,
                n >= 0,
        ;
        assert(spec_file_views(files).take(n) =~= spec_file_views(files));
    } else {
        assert(n == 0);
        assert(spec_file_views(files).take(0) =~= spec_file_views(files));
    }
}

/// The total file count of the groups in an index range.
pub open spec fn spec_count_sum(counts: Seq<int>, a: int, b: int) -> int
    decreases b - a,
{
    if a >= b {
        0
    } else {
        spec_count_sum(counts, a, b - 1) + counts[b - 1]
    }
}

/// The entries of a list of archive ranges, joined in order.
pub open spec fn spec_ranges_entries(groups: Seq<GroupEntry>, ranges: Seq<(int, int)>) -> Seq<
    (Seq<char>, Seq<u8>),
>
    decreases ranges.len(),
{
    if ranges.len() == 0 {
        Seq::empty()
    } else {
        spec_groups_entries(groups, ranges[0].0, ranges[0].1) + spec_ranges_entries(
            groups,
            ranges.drop_first(),
        )
    }
}

proof fn lemma_groups_entries_split(groups: Seq<GroupEntry>, a: int, b: int, c: int)
    requires
        a <= b <= c,
    ensures
        spec_groups_entries(groups, a, c) == spec_groups_entries(groups, a, b)
            + spec_groups_entries(groups, b, c),
    decreases c - b,
{
    if c == b {
        assert(spec_groups_entries(groups, a, b) + spec_groups_entries(groups, b, b)
            =~= spec_groups_entries(groups, a, b));
    } else {
        lemma_groups_entries_split(groups, a, b, c - 1);
        assert(spec_groups_entries(groups, a, b) + (spec_groups_entries(groups, b, c - 1)
            + spec_group_file_views(groups[c - 1])) =~= (spec_groups_entries(groups, a, b)
            + spec_groups_entries(groups, b, c - 1)) + spec_group_file_views(groups[c - 1]));
    }
}

proof fn lemma_count_sum_nonneg(groups: Seq<GroupEntry>, a: int, b: int)
    requires
        0 <= a <= b <= groups.len(),
    ensures
        spec_count_sum(spec_group_counts(groups), a, b) >= 0,
    decreases b - a,
{
    if a < b {
        lemma_count_sum_nonneg(groups, a, b - 1);
        assert(spec_group_counts(groups)[b - 1] == groups[b - 1].files@.len() as int);
    }
}

proof fn lemma_zero_sum_entries_empty(groups: Seq<GroupEntry>, a: int, b: int)
    requires
        0 <= a <= b <= groups.len(),
        spec_count_sum(spec_group_counts(groups), a, b) == 0,
    ensures
        spec_groups_entries(groups, a, b) == Seq::<(Seq<char>, Seq<u8>)>::empty(),
    decreases b - a,
{
    if a < b {
        lemma_count_sum_nonneg(groups, a, b - 1);
        assert(spec_group_counts(groups)[b - 1] == groups[b - 1].files@.len() as int);
        lemma_zero_sum_entries_empty(groups, a, b - 1);
        assert(spec_group_file_views(groups[b - 1]).len() == 0);
        assert(spec_groups_entries(groups, a, b) =~= Seq::<(Seq<char>, Seq<u8>)>::empty());
    }
}

proof fn lemma_ranges_from_complete(groups: Seq<GroupEntry>, start: int, i: int, j: int)
    requires
        0 <= start <= i <= groups.len(),
        j == spec_count_sum(spec_group_counts(groups), start, i),
    ensures
        spec_ranges_entries(
            groups,
            spec_grouped_ranges_from(spec_group_counts(groups), start, i, j),
        ) == spec_groups_entries(groups, start, groups.len() as int),
    decreases groups.len() - i,
{
    let counts = spec_group_counts(groups);
    let n = groups.len() as int;
    assert(counts.len() == n);
    let res = spec_grouped_ranges_from(counts, start, i, j);
    if i == n {
        if start < i {
            assert(res == seq![(start, n)]);
            assert(res[0] == (start, n));
            assert(res.drop_first() =~= Seq::<(int, int)>::empty());
            assert(spec_ranges_entries(groups, Seq::<(int, int)>::empty())
                == Seq::<(Seq<char>, Seq<u8>)>::empty());
            assert(spec_groups_entries(groups, start, n) + Seq::<(Seq<char>, Seq<u8>)>::empty()
                =~= spec_groups_entries(groups, start, n));
            assert(spec_ranges_entries(groups, res) == spec_groups_entries(groups, start, n));
        } else {
            assert(res == Seq::<(int, int)>::empty());
            assert(spec_groups_entries(groups, n, n) =~= Seq::<(Seq<char>, Seq<u8>)>::empty());
            assert(spec_ranges_entries(groups, res) == spec_groups_entries(groups, start, n));
        }
    } else {
        let s = if j == 0 {
            i
        } else {
            start
        };
        let j2 = j + counts[i];
        assert(counts[i] == groups[i].files@.len() as int);
        if j == 0 {
            lemma_zero_sum_entries_empty(groups, start, i);
            lemma_groups_entries_split(groups, start, i, n);
            assert(spec_groups_entries(groups, start, n) =~= spec_groups_entries(groups, i, n));
        }
        assert(spec_count_sum(counts, s, i + 1) == spec_count_sum(counts, s, i) + counts[i]);
        if j == 0 {
            assert(spec_count_sum(counts, i, i) == 0);
            assert(spec_count_sum(counts, s, i + 1) == counts[i]);
        }
        if j2 >= MIN_FILES_PER_ZIP {
            lemma_ranges_from_complete(groups, i + 1, i + 1, 0);
            let rec = spec_grouped_ranges_from(counts, i + 1, i + 1, 0);
            assert(res == seq![(s, i + 1)] + rec);
            assert(res[0] == (s, i + 1));
            assert(res.drop_first() =~= rec);
            lemma_groups_entries_split(groups, s, i + 1, n);
            assert(spec_ranges_entries(groups, res) == spec_groups_entries(groups, s, i + 1)
                + spec_groups_entries(groups, i + 1, n));
            assert(spec_ranges_entries(groups, res) =~= spec_groups_entries(groups, s, n));
            assert(spec_ranges_entries(groups, res) == spec_groups_entries(groups, start, n));
        } else {
            lemma_ranges_from_complete(groups, s, i + 1, j2);
            assert(res == spec_grouped_ranges_from(counts, s, i + 1, j2));
            assert(spec_ranges_entries(groups, res) == spec_groups_entries(groups, s, n));
            assert(spec_ranges_entries(groups, res) == spec_groups_entries(groups, start, n));
        }
    }
}

/// Grouped batch completeness: the grouped archives' entries, joined in
/// range order, are exactly the entries of all groups — every file lands in
/// exactly one archive, in enumeration order.
pub proof fn lemma_grouped_batch_completeness(groups: Seq<GroupEntry>)
    ensures
        spec_ranges_entries(groups, spec_grouped_ranges(spec_group_counts(groups)))
            == spec_groups_entries(groups, 0, groups.len() as int),
{
    lemma_ranges_from_complete(groups, 0, 0, 0);
}

/// Round-trip idempotence, at the level of archive contents: every archive
/// that single-folder batching builds is fully decodable (so extraction of
/// it succeeds and yields its batch), and the batches joined in order are
/// exactly the input files.
pub proof fn lemma_round_trip_idempotent(
    db: Seq<char>,
    date: Seq<char>,
    files: Seq<FileEntry>,
    archs: Seq<BuiltArchive>,
)
    requires
        spec_single_folder_ok(db, date, files, archs),
    ensures
        forall|k: int|
            0 <= k < archs.len() ==> zip_archive_entries((#[trigger] archs[k].bytes)@) == Some(
                spec_batch_entries(files, k),
            ),
        forall|k: int| 0 <= k < archs.len() ==> zip_archive_decodable((#[trigger] archs[k].bytes)@),
        spec_concat_batches(files, archs.len() as int) == spec_file_views(files),
{
    lemma_batch_completeness(files);
}

} // verus!

