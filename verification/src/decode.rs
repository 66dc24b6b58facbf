//! Trusted boundary around the `fits_rs` decoder, and the verified
//! extraction of per-HDU data from a parsed file.
//!
//! `fits_rs::parser::fits` turns a byte buffer into a `Fits` value: the
//! primary HDU followed by the extension HDUs, each one a header made of
//! keyword records. The crate exposes a record only through its `Display`
//! rendering, so that rendering is what the trusted items hand out, and the
//! verified classifier works on those texts.
//!
//! Index layout used throughout: position `0` is the primary HDU, position
//! `i + 1` is extension `i`, in file order.

use vstd::prelude::*;

use crate::hdu::HduKind;
use crate::hdu::classify_extension_records;
use crate::hdu::classify_primary_records;
use crate::hdu::extension_kind;
use crate::hdu::primary_kind;
use crate::hdu::seq_of_views;
use crate::precheck::safe_to_decode;

verus! {

#[verifier::external_type_specification]
#[verifier::external_body]
pub struct ExFits<'a>(fits_rs::types::Fits<'a>);

/// The record texts a parsed file holds: one sequence per HDU (primary
/// first, then the extensions in file order), one entry per keyword record
/// of that HDU's header, each entry the record's `Display` rendering.
pub uninterp spec fn fits_record_texts(f: fits_rs::types::Fits<'_>) -> Seq<Seq<Seq<char>>>;

/// What `fits_rs::parser::fits` makes of a byte buffer: `None` when the
/// buffer is not decodable, otherwise the record texts of the parsed file.
/// Parsing reads nothing but the buffer, so the outcome is a function of
/// the bytes alone.
pub uninterp spec fn fits_parse(bytes: Seq<u8>) -> Option<Seq<Seq<Seq<char>>>>;

/// Relies on `fits_rs::parser::fits` to decode the buffer: parsing reads
/// nothing but the bytes, and a parsed file holds the primary HDU plus the
/// extensions, so at least one HDU.
///
/// The parser aborts instead of returning an error on some malformed
/// headers: its data-array-size computation `expect`s the `NAXISn` records
/// a header's `NAXIS` count announces, and multiplies the declared sizes
/// in plain `i64` arithmetic. The `requires` admits only buffers that
/// [`safe_to_decode`] has vetted against exactly those conditions, so the
/// call returns normally on every admitted input.
#[verifier::external_body]
pub(crate) fn parse_fits<'a>(bytes: &'a [u8]) -> (r: Result<fits_rs::types::Fits<'a>, String>)
    requires
        safe_to_decode(bytes@),
    ensures
        r is Ok <==> fits_parse(bytes@) is Some,
        (r matches Ok(f) ==> fits_parse(bytes@) == Some(fits_record_texts(f))),
        (r matches Ok(f) ==> fits_record_texts(f).len() >= 1),
{
    match fits_rs::parser::fits(bytes).to_full_result() {
        Ok(f) => Ok(f),
        Err(e) => Err(format!("{:?}", e)),
    }
}

/// Relies on `fits_rs::types::Fits`: `extensions` holds the extension HDUs,
/// which together with the primary HDU make up the file.
#[verifier::external_body]
pub(crate) fn extension_count(f: &fits_rs::types::Fits<'_>) -> (n: usize)
    ensures
        fits_record_texts(*f).len() == n + 1,
{
    f.extensions.len()
}

/// Relies on `fits_rs::types::Header`: `keyword_records` lists the records
/// of the primary HDU's header.
#[verifier::external_body]
pub(crate) fn primary_record_count(f: &fits_rs::types::Fits<'_>) -> (n: usize)
    requires
        fits_record_texts(*f).len() >= 1,
    ensures
        n == fits_record_texts(*f)[0].len(),
{
    f.primary_hdu.header.keyword_records.len()
}

/// Relies on `fits_rs::types::Header`: `keyword_records` lists the records
/// of extension `i`'s header.
#[verifier::external_body]
pub(crate) fn extension_record_count(f: &fits_rs::types::Fits<'_>, i: usize) -> (n: usize)
    requires
        i + 1 < fits_record_texts(*f).len(),
    ensures
        n == fits_record_texts(*f)[i + 1].len(),
{
    f.extensions[i].header.keyword_records.len()
}

/// Relies on `fits_rs::types::KeywordRecord`'s `Display` impl, the one read
/// access the crate gives to a record: keyword, value and comment rendered
/// as `{keyword}= {value}/{comment}`.
#[verifier::external_body]
pub(crate) fn primary_record_text(f: &fits_rs::types::Fits<'_>, j: usize) -> (r: String)
    requires
        fits_record_texts(*f).len() >= 1,
        j < fits_record_texts(*f)[0].len(),
    ensures
        r@ == fits_record_texts(*f)[0][j as int],
{
    format!("{}", f.primary_hdu.header.keyword_records[j])
}

/// Relies on `fits_rs::types::KeywordRecord`'s `Display` impl, as
/// [`primary_record_text`] does, for the records of extension `i`.
#[verifier::external_body]
pub(crate) fn extension_record_text(f: &fits_rs::types::Fits<'_>, i: usize, j: usize) -> (r:
    String)
    requires
        i + 1 < fits_record_texts(*f).len(),
        j < fits_record_texts(*f)[i + 1].len(),
    ensures
        r@ == fits_record_texts(*f)[i + 1][j as int],
{
    format!("{}", f.extensions[i].header.keyword_records[j])
}

/// Collects the record texts of the primary HDU.
fn collect_primary_texts(f: &fits_rs::types::Fits<'_>) -> (r: Vec<String>)
    requires
        fits_record_texts(*f).len() >= 1,
    ensures
        seq_of_views(r@) == fits_record_texts(*f)[0],
{
    let n = primary_record_count(f);
    let mut r: Vec<String> = Vec::new();
    let mut j: usize = 0;
    while j < n
        invariant
            j <= n,
            fits_record_texts(*f).len() >= 1,
            n == fits_record_texts(*f)[0].len(),
            r@.len() == j,
            forall|x: int| 0 <= x < j ==> r@[x]@ == fits_record_texts(*f)[0][x],
        decreases n - j,
    {
        r.push(primary_record_text(f, j));
        j += 1;
    }
    proof {
        assert(seq_of_views(r@) =~= fits_record_texts(*f)[0]);
    }
    r
}

/// Collects the record texts of extension `i`.
fn collect_extension_texts(f: &fits_rs::types::Fits<'_>, i: usize) -> (r: Vec<String>)
    requires
        i + 1 < fits_record_texts(*f).len(),
    ensures
        seq_of_views(r@) == fits_record_texts(*f)[i + 1],
{
    let n = extension_record_count(f, i);
    let mut r: Vec<String> = Vec::new();
    let mut j: usize = 0;
    while j < n
        invariant
            j <= n,
            i + 1 < fits_record_texts(*f).len(),
            n == fits_record_texts(*f)[i + 1].len(),
            r@.len() == j,
            forall|x: int| 0 <= x < j ==> r@[x]@ == fits_record_texts(*f)[i + 1][x],
        decreases n - j,
    {
        r.push(extension_record_text(f, i, j));
        j += 1;
    }
    proof {
        assert(seq_of_views(r@) =~= fits_record_texts(*f)[i + 1]);
    }
    r
}

/// The classification of every HDU of a file with record texts `ts`:
/// position 0 by [`primary_kind`], the extensions by [`extension_kind`].
pub open spec fn classified_file(ts: Seq<Seq<Seq<char>>>) -> Seq<HduKind> {
    Seq::new(
        ts.len(),
        |i: int|
            if i == 0 {
                primary_kind(ts[0])
            } else {
                extension_kind(ts[i])
            },
    )
}

/// Classifies every HDU of a parsed file, in file order.
pub(crate) fn classify_file(f: &fits_rs::types::Fits<'_>) -> (ks: Vec<HduKind>)
    requires
        fits_record_texts(*f).len() >= 1,
    ensures
        ks@ == classified_file(fits_record_texts(*f)),
{
    let ghost ts = fits_record_texts(*f);
    let mut ks: Vec<HduKind> = Vec::new();
    let prim = collect_primary_texts(f);
    ks.push(classify_primary_records(&prim));
    let n_ext = extension_count(f);
    let mut i: usize = 0;
    while i < n_ext
        invariant
            i <= n_ext,
            ts == fits_record_texts(*f),
            ts.len() == n_ext + 1,
            ks@.len() == i + 1,
            ks@[0] == primary_kind(ts[0]),
            forall|x: int| 1 <= x <= i ==> ks@[x] == extension_kind(ts[x]),
        decreases n_ext - i,
    {
        let recs = collect_extension_texts(f, i);
        ks.push(classify_extension_records(&recs));
        i += 1;
    }
    proof {
        assert(ks@ =~= classified_file(ts));
    }
    ks
}

} // verus!
