//! HDU payload classification.
//!
//! Each Header-Data-Unit of a FITS file carries one of four display
//! variants. The decoder hands every HDU over as the list of its keyword
//! record texts (see [`crate::decode`]); the functions here derive the
//! variant from those texts and produce the display labels.
//!
//! The two catalog consumers label the empty/primary variant differently on
//! purpose: a bare listing calls it `"None"`, the frame-selector menu calls
//! it `"Primary"`.

use vstd::prelude::*;
use vstd::string::StringExecFns;

use crate::text::has_prefix;
use crate::text::str_has_prefix;

verus! {

/// The display variant of an HDU's payload.
#[derive(Clone, Copy, PartialEq, Eq, Structural, Debug)]
pub enum HduKind {
    /// An image extension, or a primary HDU with a data array.
    Image,
    /// An ASCII table extension.
    Table,
    /// A binary table extension.
    BinaryTable,
    /// An empty primary HDU, or an extension of no recognized kind.
    Primary,
}

/// The label used by the bare frame listing.
pub open spec fn listing_label(k: HduKind) -> Seq<char> {
    match k {
        HduKind::Image => "Image"@,
        HduKind::Table => "Table"@,
        HduKind::BinaryTable => "Binary Table"@,
        HduKind::Primary => "None"@,
    }
}

/// The label used by the frame-selector menu.
pub open spec fn menu_label(k: HduKind) -> Seq<char> {
    match k {
        HduKind::Image => "Image"@,
        HduKind::Table => "Table"@,
        HduKind::BinaryTable => "Binary Table"@,
        HduKind::Primary => "Primary"@,
    }
}

/// Classifies `k` for the bare frame listing.
pub fn classify_for_listing(k: HduKind) -> (r: String)
    ensures
        r@ == listing_label(k),
{
    match k {
        HduKind::Image => String::from_str("Image"),
        HduKind::Table => String::from_str("Table"),
        HduKind::BinaryTable => String::from_str("Binary Table"),
        HduKind::Primary => String::from_str("None"),
    }
}

/// Classifies `k` for the frame-selector menu.
pub fn classify_for_menu(k: HduKind) -> (r: String)
    ensures
        r@ == menu_label(k),
{
    match k {
        HduKind::Image => String::from_str("Image"),
        HduKind::Table => String::from_str("Table"),
        HduKind::BinaryTable => String::from_str("Binary Table"),
        HduKind::Primary => String::from_str("Primary"),
    }
}

/// The views of a vector of record texts.
pub open spec fn seq_of_views(rs: Seq<String>) -> Seq<Seq<char>> {
    rs.map_values(|s: String| s@)
}

/// The first record among `rs` that starts with `p`, in record order.
pub open spec fn first_prefixed(rs: Seq<Seq<char>>, p: Seq<char>) -> Option<Seq<char>>
    decreases rs.len(),
{
    if rs.len() == 0 {
        Option::None
    } else if has_prefix(rs[0], p) {
        Option::Some(rs[0])
    } else {
        first_prefixed(rs.drop_first(), p)
    }
}

/// Finds the first record of `records` that starts with `p`.
pub fn find_prefixed<'a>(records: &'a Vec<String>, p: &str) -> (r: Option<&'a String>)
    ensures
        match r {
            Option::Some(s) => first_prefixed(seq_of_views(records@), p@) == Option::Some(s@),
            Option::None => first_prefixed(seq_of_views(records@), p@) is None,
        },
{
    let ghost views = seq_of_views(records@);
    proof {
        assert(views.skip(0) =~= views);
    }
    let mut i: usize = 0;
    while i < records.len()
        invariant
            i <= records@.len(),
            views == seq_of_views(records@),
            views.len() == records@.len(),
            first_prefixed(views, p@) == first_prefixed(views.skip(i as int), p@),
            forall|j: int| 0 <= j < views.len() ==> views[j] == records@[j]@,
        decreases records@.len() - i,
    {
        let found = str_has_prefix(records[i].as_str(), p);
        proof {
            assert(views.skip(i as int)[0] == views[i as int]);
        }
        if found {
            return Some(&records[i]);
        }
        proof {
            assert(views.skip(i as int).drop_first() =~= views.skip(i as int + 1));
        }
        i += 1;
    }
    proof {
        assert(views.skip(i as int).len() == 0);
    }
    None
}

/// The variant of an extension HDU with record texts `rs`: decided by the
/// first record carrying the `XTENSION` keyword, whose quoted value names
/// `IMAGE`, `TABLE` or `BINTABLE`; anything else falls back to the
/// empty/primary variant.
pub open spec fn extension_kind(rs: Seq<Seq<char>>) -> HduKind {
    match first_prefixed(rs, "XTENSION= CharacterString(\""@) {
        Option::None => HduKind::Primary,
        Option::Some(r) => if has_prefix(r, "XTENSION= CharacterString(\"IMAGE"@) {
            HduKind::Image
        } else if has_prefix(r, "XTENSION= CharacterString(\"TABLE"@) {
            HduKind::Table
        } else if has_prefix(r, "XTENSION= CharacterString(\"BINTABLE"@) {
            HduKind::BinaryTable
        } else {
            HduKind::Primary
        },
    }
}

/// The variant of a primary HDU with record texts `rs`: an image when the
/// `NAXIS` keyword reports a positive axis count (the HDU then carries a
/// data array), otherwise the empty/primary variant.
pub open spec fn primary_kind(rs: Seq<Seq<char>>) -> HduKind {
    match first_prefixed(rs, "NAXIS= Integer("@) {
        Option::None => HduKind::Primary,
        Option::Some(r) => if has_prefix(r, "NAXIS= Integer(0"@) {
            HduKind::Primary
        } else {
            HduKind::Image
        },
    }
}

/// Classifies an extension HDU from its record texts, as [`extension_kind`]
/// states.
pub fn classify_extension_records(records: &Vec<String>) -> (k: HduKind)
    ensures
        k == extension_kind(seq_of_views(records@)),
{
    match find_prefixed(records, "XTENSION= CharacterString(\"") {
        None => HduKind::Primary,
        Some(r) => {
            if str_has_prefix(r.as_str(), "XTENSION= CharacterString(\"IMAGE") {
                HduKind::Image
            } else if str_has_prefix(r.as_str(), "XTENSION= CharacterString(\"TABLE") {
                HduKind::Table
            } else if str_has_prefix(r.as_str(), "XTENSION= CharacterString(\"BINTABLE") {
                HduKind::BinaryTable
            } else {
                HduKind::Primary
            }
        },
    }
}

/// Classifies a primary HDU from its record texts, as [`primary_kind`]
/// states.
pub fn classify_primary_records(records: &Vec<String>) -> (k: HduKind)
    ensures
        k == primary_kind(seq_of_views(records@)),
{
    match find_prefixed(records, "NAXIS= Integer(") {
        None => HduKind::Primary,
        Some(r) => {
            if str_has_prefix(r.as_str(), "NAXIS= Integer(0") {
                HduKind::Primary
            } else {
                HduKind::Image
            }
        },
    }
}

} // verus!
