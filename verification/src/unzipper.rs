//! The archive extractor: decodes one archive's bytes into its file entries,
//! runs over a folder's worth of archives, and computes the redistribution
//! subfolder that a grouped source's extracted files move into. The caller
//! reads archive bytes from disk and writes extracted entries back out.

use vstd::prelude::*;
use vstd::string::*;

use crate::err::AppError;
use crate::strutil::{
    lemma_pow10_monotone, lemma_pow10_strict_mono, lemma_repeat_len, repeat_str, spec_all_digits,
    spec_is_blank, spec_is_digit, spec_pow10, spec_repeat, str_is_blank,
};
use crate::zipfile::{
    za_decodable, za_entries, za_entry, za_len, za_new, zip_archive_decodable,
    zip_archive_entries, zip_error_text,
};
use crate::zipper::FileEntry;
use crate::SourceDetails;

verus! {

/// A file name that ends in ".zip", compared without regard to case.
pub open spec fn spec_has_zip_extension(s: Seq<char>) -> bool {
    let n = s.len() as int;
    &&& n >= 4
    &&& s[n - 4] == '.'
    &&& (s[n - 3] == 'z' || s[n - 3] == 'Z')
    &&& (s[n - 2] == 'i' || s[n - 2] == 'I')
    &&& (s[n - 1] == 'p' || s[n - 1] == 'P')
}

/// Tests for a ".zip" file name extension, case-insensitively.
pub fn has_zip_extension(name: &str) -> (r: bool)
    ensures
        r == spec_has_zip_extension(name@),
{
    let n = name.unicode_len();
    if n < 4 {
        return false;
    }
    let c0 = name.get_char(n - 4);
    let c1 = name.get_char(n - 3);
    let c2 = name.get_char(n - 2);
    let c3 = name.get_char(n - 1);
    c0 == '.' && (c1 == 'z' || c1 == 'Z') && (c2 == 'i' || c2 == 'I') && (c3 == 'p' || c3 == 'P')
}

/// The extracted views of a file list.
pub open spec fn spec_entry_views(files: Seq<FileEntry>) -> Seq<(Seq<char>, Seq<u8>)> {
    files.map_values(|f: FileEntry| f@)
}

/// Extracts one archive's full contents. Returns the entries, in archive
/// order; the caller writes them into the destination folder, whose path a
/// failure carries. Bytes that are no archive at all are always rejected;
/// fully decodable bytes always succeed and yield exactly their entries.
#[verifier::loop_isolation(false)]
pub fn unzip_folder(dest_folder: &str, bytes: &Vec<u8>) -> (r: Result<Vec<FileEntry>, AppError>)
    ensures
        match r {
            Ok(out) => zip_archive_entries(bytes@) == Some(spec_entry_views(out@)),
            Err(e) => e matches AppError::UnzipError(_, p) && p@ == dest_folder@,
        },
        zip_archive_entries(bytes@) is None ==> r is Err,
        zip_archive_decodable(bytes@) ==> r is Ok,
{
    let ghost bv = bytes@;
    let mut archive = match za_new(bytes) {
        Ok(a) => a,
        Err(e) => {
            return Err(AppError::UnzipError(zip_error_text(&e), dest_folder.to_owned()));
        },
    };
    let ghost ents = za_entries(archive);
    let n = za_len(&archive);
    let mut out: Vec<FileEntry> = Vec::new();
    proof {
        assert(spec_entry_views(out@) =~= ents.take(0));
    }
    let mut i: usize = 0;
    while i < n
        invariant
            0 <= i <= n,
            za_entries(archive) == ents,
            za_decodable(archive) == zip_archive_decodable(bv),
            n == ents.len(),
            spec_entry_views(out@) == ents.take(i as int),
        decreases n - i,
    {
        let (name, data) = match za_entry(&mut archive, i) {
            Ok(e) => e,
            Err(e) => {
                proof {
                    if zip_archive_decodable(bv) {
                        assert(false);
                    }
                }
                return Err(AppError::UnzipError(zip_error_text(&e), dest_folder.to_owned()));
            },
        };
        out.push(FileEntry { name, data });
        proof {
            assert(spec_entry_views(out@) =~= ents.take(i as int + 1));
        }
        i += 1;
    }
    proof {
        assert(ents.take(n as int) =~= ents);
    }
    Ok(out)
}

/// Whether every ".zip"-named input opens as an archive.
pub open spec fn spec_all_zips_readable(inputs: Seq<FileEntry>) -> bool {
    forall|i: int|
        0 <= i < inputs.len() && spec_has_zip_extension((#[trigger] inputs[i]).name@)
            ==> zip_archive_entries(inputs[i].data@) is Some
}

/// Whether every ".zip"-named input is fully decodable.
pub open spec fn spec_all_zips_decodable(inputs: Seq<FileEntry>) -> bool {
    forall|i: int|
        0 <= i < inputs.len() && spec_has_zip_extension((#[trigger] inputs[i]).name@)
            ==> zip_archive_decodable(inputs[i].data@)
}

/// The entries of all ".zip"-named inputs, joined in input order; other
/// inputs contribute nothing.
pub open spec fn spec_extracted_entries(inputs: Seq<FileEntry>) -> Seq<(Seq<char>, Seq<u8>)>
    decreases inputs.len(),
{
    if inputs.len() == 0 {
        Seq::empty()
    } else {
        let last = inputs.last();
        spec_extracted_entries(inputs.drop_last()) + if spec_has_zip_extension(last.name@)
            && zip_archive_entries(last.data@) is Some {
            zip_archive_entries(last.data@).unwrap()
        } else {
            Seq::empty()
        }
    }
}

/// Extracts every ".zip"-named file of one source's zipped folder (other
/// files and names are skipped silently), accumulating the entries of all
/// archives in order, and returns them with their total count. A source with
/// a blank database name is rejected before anything else happens; fully
/// decodable archives always succeed; an extraction failure carries the
/// destination folder's path.
#[verifier::loop_isolation(false)]
pub fn unzip_mdr_folder(source: &SourceDetails, dest_folder: &str, zip_files: Vec<FileEntry>) -> (r:
    Result<(Vec<FileEntry>, usize), AppError>)
    ensures
        spec_is_blank(source.database_name@) ==> r is Err,
        !spec_is_blank(source.database_name@) && spec_all_zips_decodable(zip_files@) ==> r is Ok,
        match r {
            Ok(out) => {
                &&& !spec_is_blank(source.database_name@)
                &&& spec_all_zips_readable(zip_files@)
                &&& spec_entry_views(out.0@) == spec_extracted_entries(zip_files@)
                &&& out.1 == out.0@.len()
            },
            Err(e) => if spec_is_blank(source.database_name@) {
                e is FileSystemError
            } else {
                e matches AppError::UnzipError(_, p) && p@ == dest_folder@
            },
        },
{
    if str_is_blank(source.database_name.as_str()) {
        let p = "No database name in Source details".to_owned();
        let d = "Unable to unzip the corresponding archive".to_owned();
        return Err(AppError::FileSystemError(p, d));
    }
    let mut out: Vec<FileEntry> = Vec::new();
    proof {
        assert(spec_entry_views(out@) =~= spec_extracted_entries(zip_files@.take(0)));
    }
    let n = zip_files.len();
    let mut i: usize = 0;
    while i < n
        invariant
            0 <= i <= n,
            n == zip_files@.len(),
            spec_entry_views(out@) == spec_extracted_entries(zip_files@.take(i as int)),
            forall|q: int|
                0 <= q < i && spec_has_zip_extension((#[trigger] zip_files@[q]).name@)
                    ==> zip_archive_entries(zip_files@[q].data@) is Some,
        decreases n - i,
    {
        let f = &zip_files[i];
        proof {
            assert(zip_files@.take(i as int + 1).drop_last() =~= zip_files@.take(i as int));
            assert(zip_files@.take(i as int + 1).last() == zip_files@[i as int]);
        }
        if has_zip_extension(f.name.as_str()) {
            let mut part = match unzip_folder(dest_folder, &f.data) {
                Ok(p) => p,
                Err(e) => {
                    proof {
                        if spec_all_zips_decodable(zip_files@) {
                            assert(zip_archive_decodable(zip_files@[i as int].data@));
                            assert(false);
                        }
                    }
                    return Err(e);
                },
            };
            let ghost old_out = out@;
            let ghost pv = part@;
            out.append(&mut part);
            proof {
                assert(spec_entry_views(out@) =~= spec_entry_views(old_out) + spec_entry_views(pv));
            }
        }
        i += 1;
    }
    proof {
        assert(zip_files@.take(n as int) =~= zip_files@);
    }
    let count = out.len();
    Ok((out, count))
}

/// The subfolder suffix for a grouping range: one 'x' per power of ten, for a
/// range that is a power of ten of at least ten; no suffix otherwise.
#[verifier::loop_isolation(false)]
pub fn grouping_suffix(range: i32) -> (r: Option<String>)
    ensures
        r is Some <==> exists|k: int| 1 <= k && spec_pow10(k) == range,
        forall|k: int|
            1 <= k && spec_pow10(k) == range ==> r is Some && r.unwrap()@ == spec_repeat("x"@, k),
{
    let range_wide: i64 = range as i64;
    let mut j: i64 = 10;
    let mut count: usize = 1;
    let mut suffix = repeat_str("x", 1);
    proof {
        reveal_with_fuel(spec_pow10, 2);
    }
    while j < range_wide
        invariant
            1 <= count <= 10,
            j == spec_pow10(count as int),
            10 <= j <= 0x7fff_ffff_i64 * 10,
            suffix@ == spec_repeat("x"@, count as int),
            forall|m: int| 1 <= m < count ==> spec_pow10(m) < range_wide,
        decreases 10 - count,
    {
        proof {
            assert(j * 10 > j) by (nonlinear_arith)
                requires
                    j >= 10,
            ;
            if count >= 10 {
                lemma_pow10_monotone(10, count as int);
                reveal_with_fuel(spec_pow10, 11);
                assert(spec_pow10(10) == 10_000_000_000);
                assert(false);
            }
            assert(count <= 9);
        }
        j = j * 10;
        count = count + 1;
        let mut s = suffix;
        s.append("x");
        suffix = s;
    }
    if j == range_wide {
        proof {
            assert(spec_pow10(count as int) == range);
            assert forall|k: int| 1 <= k && spec_pow10(k) == range implies suffix@ == spec_repeat(
                "x"@,
                k,
            ) by {
                if k < count {
                    lemma_pow10_strict_mono(k, count as int);
                } else if k > count {
                    lemma_pow10_strict_mono(count as int, k);
                }
            }
        }
        Some(suffix)
    } else {
        proof {
            assert forall|k: int| !(1 <= k && spec_pow10(k) == range) by {
                if 1 <= k && spec_pow10(k) == range {
                    if k < count {
                        assert(spec_pow10(k) < range_wide);
                    } else {
                        lemma_pow10_monotone(count as int, k);
                    }
                }
            }
        }
        None
    }
}

/// The length of the file-name stem: the position of the last '.', or a
/// negative value when the name has none.
pub open spec fn spec_stem_len(s: Seq<char>) -> int
    decreases s.len(),
{
    if s.len() == 0 {
        -1
    } else if s.last() == '.' {
        s.len() - 1
    } else {
        spec_stem_len(s.drop_last())
    }
}

proof fn lemma_stem_len_no_dot(s: Seq<char>, i: int)
    requires
        0 <= i <= s.len(),
        forall|q: int| i <= q < s.len() ==> s[q] != '.',
    ensures
        spec_stem_len(s) == spec_stem_len(s.take(i)),
    decreases s.len() - i,
{
    if i < s.len() {
        assert(s.last() != '.');
        assert(s.drop_last() =~= s.take(s.len() - 1));
        lemma_stem_len_no_dot(s.take(s.len() - 1), i);
        assert(s.take(s.len() - 1).take(i) =~= s.take(i));
    } else {
        assert(s.take(i) =~= s);
    }
}

/// Where redistribution for the given file name points, for a suffix of `k`
/// x's: drop the extension and the last `k` stem characters (which must be
/// digits of the file's numeric id) and append the suffix.
pub open spec fn spec_redistribution_folder_k(name: Seq<char>, k: int) -> Option<Seq<char>> {
    let sl = spec_stem_len(name);
    if sl >= k && spec_all_digits(name.subrange(sl - k, sl)) {
        Some(name.take(sl - k) + spec_repeat("x"@, k))
    } else {
        None
    }
}

/// Computes the redistribution subfolder of an extracted file: the file-name
/// stem with the trailing digits of the grouping range dropped and the 'x'
/// suffix appended. Yields nothing when the range is no power of ten, when
/// the name has no extension, or when the stem does not end in enough
/// digits.
#[verifier::loop_isolation(false)]
pub fn redistribution_folder(file_name: &str, range: i32) -> (r: Option<String>)
    ensures
        (forall|k: int| 1 <= k ==> spec_pow10(k) != range) ==> r is None,
        forall|k: int|
            1 <= k && spec_pow10(k) == range ==> {
                let expect = spec_redistribution_folder_k(file_name@, k);
                &&& (r is Some <==> expect is Some)
                &&& (r is Some ==> r.unwrap()@ == expect.unwrap())
            },
{
    let suffix = match grouping_suffix(range) {
        Some(s) => s,
        None => {
            return None;
        },
    };
    let ghost k: int = choose|k: int| 1 <= k && spec_pow10(k) == range;
    proof {
        lemma_repeat_len("x"@, k);
        reveal_strlit("x");
        assert forall|k2: int| 1 <= k2 && spec_pow10(k2) == range implies k2 == k by {
            if k2 < k {
                lemma_pow10_strict_mono(k2, k);
            } else if k2 > k {
                lemma_pow10_strict_mono(k, k2);
            }
        }
    }
    let klen = suffix.as_str().unicode_len();
    let n = file_name.unicode_len();
    let mut i: usize = n;
    while i > 0 && file_name.get_char(i - 1) != '.'
        invariant
            0 <= i <= n,
            n == file_name@.len(),
            forall|q: int| i <= q < n ==> file_name@[q] != '.',
        decreases i,
    {
        i -= 1;
    }
    if i == 0 {
        proof {
            lemma_stem_len_no_dot(file_name@, 0);
            assert(file_name@.take(0) =~= Seq::<char>::empty());
        }
        return None;
    }
    let sl = i - 1;
    proof {
        lemma_stem_len_no_dot(file_name@, i as int);
        assert(file_name@.take(i as int).last() == '.');
        assert(file_name@.take(i as int).drop_last() =~= file_name@.take(sl as int));
        assert(spec_stem_len(file_name@) == sl as int);
    }
    if sl < klen {
        return None;
    }
    let mut t: usize = sl - klen;
    while t < sl
        invariant
            sl - klen <= t <= sl,
            sl < n == file_name@.len(),
            forall|q: int| sl - klen <= q < t ==> spec_is_digit(file_name@[q]),
        decreases sl - t,
    {
        let c = file_name.get_char(t);
        if !(c >= '0' && c <= '9') {
            proof {
                let digits = file_name@.subrange(sl - klen, sl as int);
                assert(digits[t - (sl - klen)] == file_name@[t as int]);
            }
            return None;
        }
        t += 1;
    }
    proof {
        let digits = file_name@.subrange(sl - klen, sl as int);
        assert(forall|q: int|
            0 <= q < digits.len() ==> digits[q] == file_name@[sl - klen + q] && spec_is_digit(
                file_name@[sl - klen + q],
            ));
    }
    let mut r = file_name.substring_char(0, sl - klen).to_owned();
    r.append(suffix.as_str());
    proof {
        assert(file_name@.subrange(0, sl - klen as int) =~= file_name@.take(sl - klen as int));
    }
    Some(r)
}

} // verus!
