//! File session state, the frame cursor and the frame catalog.
//!
//! A session owns at most one loaded FITS file — kept as the classified
//! kinds of its HDUs, in file order — together with the cursor of the
//! currently selected frame. Frames are numbered 1-based; position `i` in
//! the file is frame `i + 1`.
//!
//! The catalog's reported length always equals the number of enumerable
//! frames by construction: both come from the one vector of classified
//! kinds, so the fatal length-mismatch of a desynchronized handle cannot
//! arise here.

use vstd::prelude::*;
use vstd::string::StringExecFns;

use crate::decode::classified_file;
use crate::decode::classify_file;
use crate::decode::extension_count;
use crate::decode::fits_parse;
use crate::decode::parse_fits;
use crate::error::ErrorChain;
use crate::hdu::HduKind;
use crate::hdu::classify_for_listing;
use crate::hdu::classify_for_menu;
use crate::hdu::listing_label;
use crate::hdu::menu_label;
use crate::hdu::seq_of_views;
use crate::precheck::bytes_admit_decode;
use crate::precheck::safe_to_decode;
use crate::text::dec_rep;
use crate::text::dec_str;

verus! {

/// The frame cursor: nothing selected, or a 1-based frame number.
#[derive(Clone, Copy, PartialEq, Eq, Structural, Debug)]
pub enum Cursor {
    /// No frame is selected (no file, or an empty file).
    Unselected,
    /// The 1-based number of the selected frame.
    Selected(i32),
}

impl Cursor {
    /// A file with `count` frames was loaded: frame 1 is selected when the
    /// file has any frame at all.
    pub fn on_file_loaded(&mut self, count: i32)
        requires
            count >= 0,
        ensures
            *final(self) == (if count >= 1 {
                Cursor::Selected(1)
            } else {
                Cursor::Unselected
            }),
    {
        if count >= 1 {
            *self = Cursor::Selected(1);
        } else {
            *self = Cursor::Unselected;
        }
    }

    /// The file went away: nothing is selected any more.
    pub fn on_file_unloaded(&mut self)
        ensures
            *final(self) == Cursor::Unselected,
    {
        *self = Cursor::Unselected;
    }

    /// Moves the cursor to frame `n` of a file with `count` frames. The
    /// move is accepted only from a selected state and only for `n` in
    /// `[1, count]`; a rejected move leaves the cursor exactly as it was.
    pub fn select(&mut self, n: i32, count: i32) -> (accepted: bool)
        ensures
            accepted == (old(self) matches Cursor::Selected(_) && 1 <= n <= count),
            accepted ==> *final(self) == Cursor::Selected(n),
            !accepted ==> *final(self) == *old(self),
    {
        match *self {
            Cursor::Unselected => false,
            Cursor::Selected(_) => {
                if 1 <= n && n <= count {
                    *self = Cursor::Selected(n);
                    true
                } else {
                    false
                }
            },
        }
    }
}

/// Selection and resolution failures.
#[derive(Clone, Copy, PartialEq, Eq, Structural, Debug)]
pub enum SessionError {
    /// The frame number lies outside `[1, frame_count]`, or no file is
    /// loaded.
    OutOfRange,
}

/// The file session: at most one loaded file, and the frame cursor.
pub struct Session {
    /// The classified HDU kinds of the loaded file, in file order;
    /// `None` when no file is loaded.
    pub file: Option<Vec<HduKind>>,
    /// The currently selected frame.
    pub cursor: Cursor,
}

/// One entry of the bare frame listing: `"{i+1} : {label}"`.
pub open spec fn description_entry(i: int, k: HduKind) -> Seq<char> {
    dec_rep((i + 1) as nat) + " : "@ + listing_label(k)
}

/// The views of a vector of menu pairs.
pub open spec fn pair_views(rs: Seq<(String, String)>) -> Seq<(Seq<char>, Seq<char>)> {
    rs.map_values(|p: (String, String)| (p.0@, p.1@))
}

/// A buffer that a load accepts: it passes the decoder admission check,
/// the decoder parses it, and its frame count fits the `i32` interface.
pub open spec fn loadable(bytes: Seq<u8>) -> bool {
    &&& safe_to_decode(bytes)
    &&& fits_parse(bytes) matches Some(ts) && ts.len() <= i32::MAX
}

impl Session {
    /// The session invariant: the cursor is meaningful exactly when a file
    /// with at least one frame is loaded, and then stays within bounds.
    pub open spec fn wf(&self) -> bool {
        match self.file {
            Option::None => self.cursor is Unselected,
            Option::Some(v) => v@.len() <= i32::MAX && (if v@.len() == 0 {
                self.cursor is Unselected
            } else {
                self.cursor matches Cursor::Selected(n) && 1 <= n <= v@.len()
            }),
        }
    }

    /// A fresh session: no file, nothing selected.
    pub fn new() -> (s: Session)
        ensures
            s.file is None,
            s.cursor == Cursor::Unselected,
            s.wf(),
    {
        Session { file: Option::None, cursor: Cursor::Unselected }
    }

    /// Unloads any loaded file; idempotent.
    pub fn unload(&mut self)
        ensures
            final(self).file is None,
            final(self).cursor == Cursor::Unselected,
            final(self).wf(),
    {
        self.file = Option::None;
        self.cursor.on_file_unloaded();
    }

    /// Loads the FITS file held in `bytes`, replacing any loaded file.
    ///
    /// On success the session owns the new file's classified kinds, the
    /// cursor sits on frame 1 (or nowhere, for a file of zero frames), and
    /// the frame count is returned. On failure — a buffer the admission
    /// check turns away, undecodable bytes, or a frame count beyond what
    /// the `i32` interface carries — the session ends with no file loaded,
    /// whatever it held before, and the returned chain roots the decode
    /// failure.
    pub fn load_bytes(&mut self, bytes: &[u8]) -> (r: Result<i32, ErrorChain>)
        ensures
            final(self).wf(),
            r is Ok <==> loadable(bytes@),
            (safe_to_decode(bytes@) ==> (fits_parse(bytes@) matches Some(ts) ==> (ts.len()
                <= i32::MAX ==> {
                &&& r == Ok::<i32, ErrorChain>(ts.len() as i32)
                &&& final(self).file matches Some(v) && v@ == classified_file(ts)
                &&& final(self).cursor == (if ts.len() >= 1 {
                    Cursor::Selected(1)
                } else {
                    Cursor::Unselected
                })
            }))),
            r is Err ==> final(self).file is None && final(self).cursor == Cursor::Unselected,
            (r matches Err(e) ==> e.wf() && e@.len() == 2 && e@[0]
                == "could not decode FITS data"@),
    {
        if !bytes_admit_decode(bytes) {
            self.file = Option::None;
            self.cursor.on_file_unloaded();
            let mut e = ErrorChain::new(String::from_str("could not decode FITS data"));
            e.push_cause(String::from_str("unsupported or malformed header structure"));
            return Err(e);
        }
        match parse_fits(bytes) {
            Result::Err(msg) => {
                self.file = Option::None;
                self.cursor.on_file_unloaded();
                let mut e = ErrorChain::new(String::from_str("could not decode FITS data"));
                e.push_cause(msg);
                Err(e)
            },
            Result::Ok(f) => {
                let n_ext = extension_count(&f);
                if n_ext >= (i32::MAX as usize) {
                    self.file = Option::None;
                    self.cursor.on_file_unloaded();
                    let mut e = ErrorChain::new(String::from_str("could not decode FITS data"));
                    e.push_cause(String::from_str("frame count exceeds the supported range"));
                    Err(e)
                } else {
                    let ks = classify_file(&f);
                    let n = ks.len() as i32;
                    self.file = Option::Some(ks);
                    self.cursor.on_file_loaded(n);
                    Ok(n)
                }
            },
        }
    }

    /// The number of frames of the loaded file; 0 when none is loaded.
    pub fn frame_count(&self) -> (n: i32)
        requires
            self.wf(),
        ensures
            n == self.spec_frame_count(),
    {
        match &self.file {
            Option::None => 0,
            Option::Some(v) => v.len() as i32,
        }
    }

    /// What [`Session::frame_count`] returns.
    pub open spec fn spec_frame_count(&self) -> int {
        match self.file {
            Option::None => 0,
            Option::Some(v) => v@.len() as int,
        }
    }

    /// The payload kind at 1-based frame `n`: `Ok` exactly when a file is
    /// loaded and `n` lies in `[1, frame_count]`.
    pub fn resolve_frame_payload(&self, n: i32) -> (r: Result<HduKind, SessionError>)
        requires
            self.wf(),
        ensures
            (self.file matches Some(v) && 1 <= n <= v@.len()) ==> (self.file matches Some(v) && r
                == Ok::<HduKind, SessionError>(v@[n - 1])),
            !(self.file matches Some(v) && 1 <= n <= v@.len()) ==> r == Err::<
                HduKind,
                SessionError,
            >(SessionError::OutOfRange),
    {
        match &self.file {
            Option::None => Err(SessionError::OutOfRange),
            Option::Some(v) => {
                if 1 <= n && (n as usize) <= v.len() {
                    Ok(v[(n - 1) as usize])
                } else {
                    Err(SessionError::OutOfRange)
                }
            },
        }
    }

    /// Moves the cursor to frame `n` and resolves that frame's payload,
    /// resolve-then-commit: the cursor moves only once the payload is in
    /// hand, and a rejected selection leaves the whole session unchanged.
    pub fn select(&mut self, n: i32) -> (r: Result<HduKind, SessionError>)
        requires
            old(self).wf(),
        ensures
            final(self).wf(),
            final(self).file == old(self).file,
            (old(self).file matches Some(v) && 1 <= n <= v@.len() && old(
                self,
            ).cursor matches Cursor::Selected(_)) ==> (old(self).file matches Some(v) && r
                == Ok::<HduKind, SessionError>(v@[n - 1]) && final(self).cursor
                == Cursor::Selected(n)),
            !(old(self).file matches Some(v) && 1 <= n <= v@.len() && old(
                self,
            ).cursor matches Cursor::Selected(_)) ==> (r == Err::<HduKind, SessionError>(
                SessionError::OutOfRange,
            ) && *final(self) == *old(self)),
    {
        match self.resolve_frame_payload(n) {
            Result::Err(e) => Err(e),
            Result::Ok(k) => {
                let count = self.frame_count();
                let accepted = self.cursor.select(n, count);
                if accepted {
                    Ok(k)
                } else {
                    Err(SessionError::OutOfRange)
                }
            },
        }
    }

    /// The current cursor value.
    pub fn current_cursor(&self) -> (c: Cursor)
        ensures
            c == self.cursor,
    {
        self.cursor
    }

    /// Whether a file is loaded.
    pub fn is_loaded(&self) -> (b: bool)
        ensures
            b == (self.file is Some),
    {
        match &self.file {
            Option::None => false,
            Option::Some(_) => true,
        }
    }

    /// The bare frame listing: `"{i+1} : {label}"` per frame in file
    /// order, or the single sentinel `"Err"` when no file is loaded. Never
    /// fails, whatever state the session is in.
    pub fn list_frame_descriptions(&self) -> (r: Vec<String>)
        ensures
            match self.file {
                Option::None => r@.len() == 1 && r@[0]@ == "Err"@,
                Option::Some(v) => r@.len() == v@.len() && forall|i: int|
                    0 <= i < v@.len() ==> r@[i]@ == description_entry(i, v@[i]),
            },
            self.listing_view(seq_of_views(r@)),
    {
        match &self.file {
            Option::None => {
                let mut r: Vec<String> = Vec::new();
                r.push(String::from_str("Err"));
                proof {
                    assert(seq_of_views(r@) =~= seq!["Err"@]);
                }
                r
            },
            Option::Some(v) => {
                let mut r: Vec<String> = Vec::new();
                let mut i: usize = 0;
                while i < v.len()
                    invariant
                        i <= v@.len(),
                        r@.len() == i,
                        forall|j: int| 0 <= j < i ==> r@[j]@ == description_entry(j, v@[j]),
                    decreases v@.len() - i,
                {
                    let mut s = dec_str((i as u64) + 1);
                    s.append(" : ");
                    let label = classify_for_listing(v[i]);
                    s.append(label.as_str());
                    proof {
                        assert(s@ =~= description_entry(i as int, v@[i as int]));
                    }
                    r.push(s);
                    i += 1;
                }
                proof {
                    assert forall|x: int| 0 <= x < v@.len() implies seq_of_views(r@)[x]
                        == description_entry(x, v@[x]) by {
                        assert(r@[x]@ == description_entry(x, v@[x]));
                    }
                }
                r
            },
        }
    }

    /// The frame-selector menu: one `(value, label)` pair per frame, the
    /// value the 1-based frame number and the label the menu
    /// classification, or the single sentinel `("1", "Err")` when no file
    /// is loaded. Never fails, whatever state the session is in.
    pub fn list_frame_menu_labels(&self) -> (r: Vec<(String, String)>)
        ensures
            match self.file {
                Option::None => r@.len() == 1 && r@[0].0@ == "1"@ && r@[0].1@ == "Err"@,
                Option::Some(v) => r@.len() == v@.len() && forall|i: int| #![trigger r@[i]]
                    0 <= i < v@.len() ==> r@[i].0@ == dec_rep((i + 1) as nat) && r@[i].1@
                        == menu_label(v@[i]),
            },
            self.menu_view(pair_views(r@)),
    {
        match &self.file {
            Option::None => {
                let mut r: Vec<(String, String)> = Vec::new();
                let value = String::from_str("1");
                let label = String::from_str("Err");
                proof {
                    assert(value@ == "1"@);
                    assert(label@ == "Err"@);
                }
                r.push((value, label));
                proof {
                    assert(r@[0].0@ == "1"@);
                    assert(r@[0].1@ == "Err"@);
                    assert(pair_views(r@) =~= seq![("1"@, "Err"@)]);
                }
                r
            },
            Option::Some(v) => {
                let mut r: Vec<(String, String)> = Vec::new();
                let mut i: usize = 0;
                while i < v.len()
                    invariant
                        i <= v@.len(),
                        r@.len() == i,
                        forall|j: int| #![trigger r@[j]]
                            0 <= j < i ==> r@[j].0@ == dec_rep((j + 1) as nat) && r@[j].1@
                                == menu_label(v@[j]),
                    decreases v@.len() - i,
                {
                    let value = dec_str((i as u64) + 1);
                    let label = classify_for_menu(v[i]);
                    proof {
                        assert(value@ == dec_rep((i + 1) as nat));
                        assert(label@ == menu_label(v@[i as int]));
                    }
                    r.push((value, label));
                    proof {
                        assert(r@[i as int].0@ == dec_rep((i + 1) as nat));
                        assert(r@[i as int].1@ == menu_label(v@[i as int]));
                    }
                    i += 1;
                }
                proof {
                    assert forall|x: int| 0 <= x < v@.len() implies pair_views(r@)[x].0 == dec_rep(
                        (x + 1) as nat,
                    ) && pair_views(r@)[x].1 == menu_label(v@[x]) by {
                        assert(r@[x].0@ == dec_rep((x + 1) as nat) && r@[x].1@ == menu_label(
                            v@[x],
                        ));
                    }
                }
                r
            },
        }
    }
}

/// The listings are pure functions of the session state: two queries of
/// the same state — in particular a re-query right after a load — give
/// entry-for-entry identical strings, for both listing operations.
pub proof fn lemma_requery_identical(
    s: Session,
    d1: Seq<Seq<char>>,
    d2: Seq<Seq<char>>,
    m1: Seq<(Seq<char>, Seq<char>)>,
    m2: Seq<(Seq<char>, Seq<char>)>,
)
    requires
        s.listing_view(d1),
        s.listing_view(d2),
        s.menu_view(m1),
        s.menu_view(m2),
    ensures
        d1 =~= d2,
        m1 =~= m2,
{
}

impl Session {
    /// `d` is the view of what [`Session::list_frame_descriptions`]
    /// returns on this session.
    pub open spec fn listing_view(&self, d: Seq<Seq<char>>) -> bool {
        match self.file {
            Option::None => d =~= seq!["Err"@],
            Option::Some(v) => d.len() == v@.len() && forall|i: int|
                0 <= i < v@.len() ==> d[i] == description_entry(i, v@[i]),
        }
    }

    /// `m` is the view of what [`Session::list_frame_menu_labels`] returns
    /// on this session.
    pub open spec fn menu_view(&self, m: Seq<(Seq<char>, Seq<char>)>) -> bool {
        match self.file {
            Option::None => m =~= seq![("1"@, "Err"@)],
            Option::Some(v) => m.len() == v@.len() && forall|i: int|
                0 <= i < v@.len() ==> m[i].0 == dec_rep((i + 1) as nat) && m[i].1 == menu_label(
                    v@[i],
                ),
        }
    }
}

/// The catalog always enumerates exactly the frames the session reports:
/// a loaded file's bare listing has one entry per frame. The reported
/// length and the enumerable records come from the one vector of
/// classified kinds, so the fatal mismatch of a desynchronized handle is
/// ruled out, not merely handled.
pub proof fn lemma_catalog_length_matches(s: Session, d: Seq<Seq<char>>)
    requires
        s.file is Some,
        s.listing_view(d),
    ensures
        d.len() == s.spec_frame_count(),
{
}

/// Classifying a frame through the cursor agrees with the catalog: for
/// every frame `n` of a loaded file, resolving frame `n` is owed to
/// succeed, and the menu label listed for that frame is exactly the menu
/// classification of the payload the resolution yields.
pub proof fn lemma_catalog_matches_resolution(
    s: Session,
    m: Seq<(Seq<char>, Seq<char>)>,
    n: int,
    k: HduKind,
)
    requires
        s.wf(),
        s.menu_view(m),
        s.file matches Some(v) && 1 <= n <= v@.len() && k == v@[n - 1],
    ensures
        m[n - 1].1 == menu_label(k),
        m[n - 1].0 == dec_rep(n as nat),
{
}

} // verus!
