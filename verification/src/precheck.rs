//! Admission check for byte buffers handed to the FITS decoder.
//!
//! `fits_rs` computes each HDU's data-array size as soon as it has parsed
//! the HDU's header. That computation panics on some malformed headers: a
//! header that declares `NAXIS = k` with `k > 0` but lacks an integer
//! `NAXISn` record for some `n` in `[1, k]` hits an `expect`, and oversized
//! axis, `BITPIX`, `GCOUNT` or `PCOUNT` values overflow its `i64`
//! arithmetic. The session therefore admits only buffers that pass
//! [`safe_to_decode`]; everything else is reported as a decode failure
//! without touching the decoder.
//!
//! The check leans on one structural fact about the decoder: every header
//! card it ever reads starts at a byte offset that is a multiple of 80,
//! because headers are consumed as 80-byte cards and data segments as
//! multiples of 2880 bytes. So conditions imposed on every 80-aligned card
//! of the buffer cover every card the decoder can read, wherever HDU
//! boundaries fall. The conditions are deliberately conservative: a
//! standard-conforming file — axis records directly after their `NAXIS`
//! card, sizes within the caps below — passes, and a rejected buffer is
//! merely reported as undecodable, never mis-read.
//!
//! Why the caps compose: the axis values one header's size computation
//! looks up come from at most two canonical blocks. Every `NAXISn` card
//! sits `n` cards after an axis-count card, so the only axis records that
//! can precede a header's first `NAXIS` record are the tail of a block
//! headed before the header, and the first `NAXIS` record's own block
//! supplies every remaining axis. Each block's value product is capped at
//! [`MAX_AXIS_PRODUCT`], so the looked-up product stays below that cap
//! squared, and together with the `BITPIX`, `GCOUNT` and `PCOUNT` caps
//! every size the decoder multiplies out stays well inside `i64`.

use vstd::prelude::*;

verus! {

/// Most axes one header may declare (the FITS standard's own maximum).
pub const MAX_AXES: u64 = 999;

/// Cap on the product of one axis block's values, so the decoder's size
/// arithmetic stays far from `i64` overflow.
pub const MAX_AXIS_PRODUCT: u64 = 16777216;

/// Cap on a `BITPIX` value (real files use at most 64 bits per element).
pub const MAX_BITPIX_VALUE: u64 = 128;

/// Cap on a `GCOUNT` value (real files use 1).
pub const MAX_GCOUNT_VALUE: u64 = 128;

/// Cap on a `PCOUNT` value.
pub const MAX_PCOUNT_VALUE: u64 = 1073741824;

/// Saturation bound for value reading; at least every cap above.
const READ_CAP: u64 = 1073741824;

/// The bytes nom's whitespace separator skips around a value.
pub open spec fn is_sep(b: u8) -> bool {
    b == 32 || b == 9 || b == 13 || b == 10
}

/// The bytes `str::trim_end` removes from a keyword field.
pub open spec fn is_pad(b: u8) -> bool {
    b == 32 || (9 <= b && b <= 13)
}

/// An ASCII decimal digit.
pub open spec fn is_digit_byte(b: u8) -> bool {
    48 <= b && b <= 57
}

/// The first position in `[i, end)` holding a non-separator byte; `end` if
/// there is none.
pub open spec fn skip_sep(s: Seq<u8>, i: int, end: int) -> int
    decreases end - i,
{
    if i < end && is_sep(s[i]) {
        skip_sep(s, i + 1, end)
    } else {
        i
    }
}

/// The end of the digit run starting at `i`, bounded by `end`.
pub open spec fn digit_end(s: Seq<u8>, i: int, end: int) -> int
    decreases end - i,
{
    if i < end && is_digit_byte(s[i]) {
        digit_end(s, i + 1, end)
    } else {
        i
    }
}

/// The numeric value of the digits `s[i..j)`.
pub open spec fn digits_val(s: Seq<u8>, i: int, j: int) -> int
    decreases j - i,
{
    if j <= i {
        0
    } else {
        digits_val(s, i, j - 1) * 10 + (s[j - 1] - 48)
    }
}

/// Where a card's value digits start: first non-separator byte of the
/// 70-byte value region of the card at `o`.
pub open spec fn run_start(s: Seq<u8>, o: int) -> int {
    skip_sep(s, o + 10, o + 80)
}

/// Where the card's value digit run ends.
pub open spec fn run_end(s: Seq<u8>, o: int) -> int {
    digit_end(s, run_start(s, o), o + 80)
}

/// The card's value region starts with a digit run (after separators).
pub open spec fn has_num(s: Seq<u8>, o: int) -> bool {
    run_end(s, o) > run_start(s, o)
}

/// The numeric value of that digit run.
pub open spec fn num_val(s: Seq<u8>, o: int) -> int {
    digits_val(s, run_start(s, o), run_end(s, o))
}

/// The card's value is read by the decoder as a plain integer: a digit run
/// not followed (separators aside) by a decimal point, which would make it
/// a real number instead.
pub open spec fn plain_int(s: Seq<u8>, o: int) -> bool {
    has_num(s, o) && {
        let a = skip_sep(s, run_end(s, o), o + 80);
        a >= o + 80 || s[a] != 46
    }
}

/// The card's keyword field begins with `NAXIS`.
pub open spec fn naxis_prefix(s: Seq<u8>, o: int) -> bool {
    s[o] == 78 && s[o + 1] == 65 && s[o + 2] == 88 && s[o + 3] == 73 && s[o + 4] == 83
}

/// The card carries the `"= "` marker of a keyword record.
pub open spec fn record_eq(s: Seq<u8>, o: int) -> bool {
    s[o + 8] == 61 && s[o + 9] == 32
}

/// A card whose keyword trims to exactly `NAXIS`: the axis-count record.
pub open spec fn naxis_head_card(s: Seq<u8>, o: int) -> bool {
    naxis_prefix(s, o) && is_pad(s[o + 5]) && is_pad(s[o + 6]) && is_pad(s[o + 7]) && record_eq(
        s,
        o,
    )
}

/// A card whose keyword is `NAXIS` followed by a digit: an `NAXISn` record.
pub open spec fn naxisn_card(s: Seq<u8>, o: int) -> bool {
    naxis_prefix(s, o) && is_digit_byte(s[o + 5]) && record_eq(s, o)
}

/// A `BITPIX` record card.
pub open spec fn bitpix_card(s: Seq<u8>, o: int) -> bool {
    s[o] == 66 && s[o + 1] == 73 && s[o + 2] == 84 && s[o + 3] == 80 && s[o + 4] == 73 && s[o + 5]
        == 88 && is_pad(s[o + 6]) && is_pad(s[o + 7]) && record_eq(s, o)
}

/// A `GCOUNT` record card.
pub open spec fn gcount_card(s: Seq<u8>, o: int) -> bool {
    s[o] == 71 && s[o + 1] == 67 && s[o + 2] == 79 && s[o + 3] == 85 && s[o + 4] == 78 && s[o + 5]
        == 84 && is_pad(s[o + 6]) && is_pad(s[o + 7]) && record_eq(s, o)
}

/// A `PCOUNT` record card.
pub open spec fn pcount_card(s: Seq<u8>, o: int) -> bool {
    s[o] == 80 && s[o + 1] == 67 && s[o + 2] == 79 && s[o + 3] == 85 && s[o + 4] == 78 && s[o + 5]
        == 84 && is_pad(s[o + 6]) && is_pad(s[o + 7]) && record_eq(s, o)
}

/// The card at `o` is the canonical `NAXISj` record: keyword `NAXIS`
/// followed by `j`'s decimal digits and space padding, with an integer
/// value.
pub open spec fn member_kw(s: Seq<u8>, o: int, j: int) -> bool {
    naxis_prefix(s, o) && if j >= 100 {
        s[o + 5] as int == 48 + j / 100 && s[o + 6] as int == 48 + (j / 10) % 10 && s[o + 7] as int
            == 48 + j % 10
    } else if j >= 10 {
        s[o + 5] as int == 48 + j / 10 && s[o + 6] as int == 48 + j % 10 && s[o + 7] == 32
    } else {
        s[o + 5] as int == 48 + j && s[o + 6] == 32 && s[o + 7] == 32
    }
}

/// A canonical axis record for axis `j`, carrying a plain integer value.
pub open spec fn member_card(s: Seq<u8>, o: int, j: int) -> bool {
    member_kw(s, o, j) && record_eq(s, o) && plain_int(s, o)
}

/// `v` with zero lifted to one, the neutral factor of a product.
pub open spec fn max1(v: int) -> int {
    if v <= 1 {
        1
    } else {
        v
    }
}

/// The product of the first `k` axis values of the block following the
/// axis-count card at `o`, zero values counted as one.
pub open spec fn block_product(s: Seq<u8>, o: int, k: int) -> int
    decreases k,
{
    if k <= 0 {
        1
    } else {
        block_product(s, o, k - 1) * max1(num_val(s, o + 80 * k))
    }
}

/// An axis-count card declaring `k > 0` axes must head a canonical block:
/// the next `k` cards are `NAXIS1 .. NAXISk` in order, integer-valued, all
/// inside the buffer, with the product of their values capped.
pub open spec fn head_ok(s: Seq<u8>, o: int) -> bool {
    (naxis_head_card(s, o) && has_num(s, o) && num_val(s, o) > 0) ==> {
        let k = num_val(s, o);
        &&& k <= MAX_AXES as int
        &&& o + 80 * (k + 1) <= s.len()
        &&& (forall|j: int| 1 <= j <= k ==> #[trigger] member_card(s, o + 80 * j, j))
        &&& block_product(s, o, k) <= MAX_AXIS_PRODUCT as int
    }
}

/// Every `NAXISn` card must belong to such a block: `n` cards earlier sits
/// an axis-count card declaring at least `n` axes. This keeps a header from
/// holding a stray `NAXISn` record that a lookup would reach instead of a
/// block member.
pub open spec fn stray_ok(s: Seq<u8>, o: int) -> bool {
    naxisn_card(s, o) ==> {
        let se = digit_end(s, o + 5, o + 8);
        let n = digits_val(s, o + 5, se);
        &&& (se <= o + 6 ==> is_pad(s[o + 6]))
        &&& (se <= o + 7 ==> is_pad(s[o + 7]))
        &&& (n > 0 ==> {
            &&& n <= MAX_AXES as int
            &&& o - 80 * n >= 0
            &&& naxis_head_card(s, o - 80 * n)
            &&& has_num(s, o - 80 * n)
            &&& num_val(s, o - 80 * n) >= n
        })
    }
}

/// `BITPIX`, `GCOUNT` and `PCOUNT` values are capped, so the decoder's
/// size formula stays within `i64`.
pub open spec fn scalar_ok(s: Seq<u8>, o: int) -> bool {
    &&& ((bitpix_card(s, o) && has_num(s, o)) ==> num_val(s, o) <= MAX_BITPIX_VALUE as int)
    &&& ((gcount_card(s, o) && has_num(s, o)) ==> num_val(s, o) <= MAX_GCOUNT_VALUE as int)
    &&& ((pcount_card(s, o) && has_num(s, o)) ==> num_val(s, o) <= MAX_PCOUNT_VALUE as int)
}

/// Keyword fields must pad with plain ASCII whitespace. Unsigned parsing
/// accepts a leading plus, and trimming also removes multi-byte Unicode
/// whitespace, so a card like `NAXIS+1` or one padded with such bytes
/// would still reach the decoder as an axis or size record while evading
/// the patterns above; any such card is turned away outright.
pub open spec fn kw_shape_ok(s: Seq<u8>, o: int) -> bool {
    &&& ((naxis_prefix(s, o) && record_eq(s, o)) ==> (is_digit_byte(s[o + 5]) || (is_pad(
        s[o + 5],
    ) && is_pad(s[o + 6]) && is_pad(s[o + 7]))))
    &&& ((s[o] == 66 && s[o + 1] == 73 && s[o + 2] == 84 && s[o + 3] == 80 && s[o + 4] == 73 && s[o
        + 5] == 88 && record_eq(s, o)) ==> (is_pad(s[o + 6]) && is_pad(s[o + 7])))
    &&& ((s[o] == 71 && s[o + 1] == 67 && s[o + 2] == 79 && s[o + 3] == 85 && s[o + 4] == 78 && s[o
        + 5] == 84 && record_eq(s, o)) ==> (is_pad(s[o + 6]) && is_pad(s[o + 7])))
    &&& ((s[o] == 80 && s[o + 1] == 67 && s[o + 2] == 79 && s[o + 3] == 85 && s[o + 4] == 78 && s[o
        + 5] == 84 && record_eq(s, o)) ==> (is_pad(s[o + 6]) && is_pad(s[o + 7])))
}

/// All conditions on the one card at `o`.
pub open spec fn card_safe(s: Seq<u8>, o: int) -> bool {
    head_ok(s, o) && stray_ok(s, o) && scalar_ok(s, o) && kw_shape_ok(s, o)
}

/// The buffer may be handed to the decoder: every 80-aligned card satisfies
/// the per-card conditions, so the decoder's size computation neither hits
/// a missing-record `expect` nor overflows.
pub open spec fn safe_to_decode(s: Seq<u8>) -> bool {
    forall|c: int| 0 <= c && 80 * c + 80 <= s.len() ==> #[trigger] card_safe(s, 80 * c)
}

fn is_sep_e(b: u8) -> (r: bool)
    ensures
        r == is_sep(b),
{
    b == 32 || b == 9 || b == 13 || b == 10
}

fn is_pad_e(b: u8) -> (r: bool)
    ensures
        r == is_pad(b),
{
    b == 32 || (9 <= b && b <= 13)
}

fn is_digit_e(b: u8) -> (r: bool)
    ensures
        r == is_digit_byte(b),
{
    48 <= b && b <= 57
}

fn skip_sep_e(bytes: &[u8], from: usize, end: usize) -> (r: usize)
    requires
        from <= end,
        end <= bytes.len(),
    ensures
        r as int == skip_sep(bytes@, from as int, end as int),
        from <= r <= end,
{
    let mut i: usize = from;
    while i < end && is_sep_e(bytes[i])
        invariant
            from <= i <= end,
            end <= bytes@.len(),
            skip_sep(bytes@, from as int, end as int) == skip_sep(bytes@, i as int, end as int),
        decreases end - i,
    {
        i += 1;
    }
    i
}

fn digit_end_e(bytes: &[u8], from: usize, end: usize) -> (r: usize)
    requires
        from <= end,
        end <= bytes.len(),
    ensures
        r as int == digit_end(bytes@, from as int, end as int),
        from <= r <= end,
        forall|x: int| from <= x < r ==> is_digit_byte(bytes@[x]),
{
    let mut i: usize = from;
    while i < end && is_digit_e(bytes[i])
        invariant
            from <= i <= end,
            end <= bytes@.len(),
            digit_end(bytes@, from as int, end as int) == digit_end(bytes@, i as int, end as int),
            forall|x: int| from <= x < i ==> is_digit_byte(bytes@[x]),
        decreases end - i,
    {
        i += 1;
    }
    i
}

/// Reads the digits `bytes[from..end)`, saturating above [`READ_CAP`].
fn digits_sat_e(bytes: &[u8], from: usize, end: usize) -> (v: u64)
    requires
        from <= end,
        end <= bytes.len(),
        forall|x: int| from <= x < end ==> is_digit_byte(bytes@[x]),
    ensures
        digits_val(bytes@, from as int, end as int) <= READ_CAP as int ==> v as int == digits_val(
            bytes@,
            from as int,
            end as int,
        ),
        digits_val(bytes@, from as int, end as int) > READ_CAP as int ==> v == READ_CAP + 1,
{
    let mut v: u64 = 0;
    let mut i: usize = from;
    proof {
        assert(digits_val(bytes@, from as int, from as int) == 0);
    }
    while i < end
        invariant
            from <= i <= end,
            end <= bytes@.len(),
            forall|x: int| from <= x < end ==> is_digit_byte(bytes@[x]),
            digits_val(bytes@, from as int, i as int) <= READ_CAP as int ==> v as int
                == digits_val(bytes@, from as int, i as int),
            digits_val(bytes@, from as int, i as int) > READ_CAP as int ==> v == READ_CAP + 1,
            v <= READ_CAP + 1,
            digits_val(bytes@, from as int, i as int) >= 0,
        decreases end - i,
    {
        proof {
            assert(is_digit_byte(bytes@[i as int]));
        }
        let d = bytes[i] - 48;
        let next: u64 = if v > READ_CAP {
            v
        } else {
            v * 10 + (d as u64)
        };
        proof {
            assert(digits_val(bytes@, from as int, i as int + 1) == digits_val(
                bytes@,
                from as int,
                i as int,
            ) * 10 + (bytes@[i as int] - 48));
        }
        if next > READ_CAP {
            v = READ_CAP + 1;
        } else {
            v = next;
        }
        i += 1;
    }
    v
}

/// Scans the value region of the card at `o`: whether a digit run is
/// there, its value saturated at [`READ_CAP`], and where the run ends.
fn val_scan(bytes: &[u8], o: usize) -> (t: (bool, u64, usize))
    requires
        o + 80 <= bytes.len(),
    ensures
        t.0 == has_num(bytes@, o as int),
        t.2 as int == run_end(bytes@, o as int),
        o + 10 <= t.2 <= o + 80,
        num_val(bytes@, o as int) <= READ_CAP as int ==> t.1 as int == num_val(
            bytes@,
            o as int,
        ),
        num_val(bytes@, o as int) > READ_CAP as int ==> t.1 == READ_CAP + 1,
{
    let rs = skip_sep_e(bytes, o + 10, o + 80);
    let re = digit_end_e(bytes, rs, o + 80);
    if re > rs {
        let v = digits_sat_e(bytes, rs, re);
        (true, v, re)
    } else {
        proof {
            assert(num_val(bytes@, o as int) == 0);
        }
        (false, 0, re)
    }
}

/// Decides [`plain_int`] for the card at `o`, given the end of its digit
/// run.
fn plain_int_tail_e(bytes: &[u8], o: usize, re: usize) -> (r: bool)
    requires
        o + 80 <= bytes.len(),
        re as int == run_end(bytes@, o as int),
        re <= o + 80,
        o + 10 <= re,
    ensures
        has_num(bytes@, o as int) ==> r == plain_int(bytes@, o as int),
{
    let a = skip_sep_e(bytes, re, o + 80);
    a >= o + 80 || bytes[a] != 46
}

proof fn lemma_block_pos(s: Seq<u8>, o: int, k: int)
    ensures
        block_product(s, o, k) >= 1,
    decreases k,
{
    if k > 0 {
        lemma_block_pos(s, o, k - 1);
        assert(max1(num_val(s, o + 80 * k)) >= 1);
        assert(block_product(s, o, k - 1) * max1(num_val(s, o + 80 * k)) >= 1) by (nonlinear_arith)
            requires
                block_product(s, o, k - 1) >= 1,
                max1(num_val(s, o + 80 * k)) >= 1,
        ;
    }
}

proof fn lemma_block_mono(s: Seq<u8>, o: int, j: int, k: int)
    requires
        0 <= j <= k,
    ensures
        block_product(s, o, k) >= block_product(s, o, j),
    decreases k - j,
{
    if j < k {
        lemma_block_mono(s, o, j, k - 1);
        lemma_block_pos(s, o, k - 1);
        assert(block_product(s, o, k - 1) * max1(num_val(s, o + 80 * k)) >= block_product(
            s,
            o,
            k - 1,
        )) by (nonlinear_arith)
            requires
                block_product(s, o, k - 1) >= 1,
                max1(num_val(s, o + 80 * k)) >= 1,
        ;
    }
}

proof fn lemma_block_factor(s: Seq<u8>, o: int, j: int, k: int)
    requires
        1 <= j <= k,
    ensures
        block_product(s, o, k) >= max1(num_val(s, o + 80 * j)),
    decreases k - j,
{
    lemma_block_pos(s, o, j - 1);
    assert(block_product(s, o, j - 1) * max1(num_val(s, o + 80 * j)) >= max1(
        num_val(s, o + 80 * j),
    )) by (nonlinear_arith)
        requires
            block_product(s, o, j - 1) >= 1,
            max1(num_val(s, o + 80 * j)) >= 1,
    ;
    lemma_block_mono(s, o, j, k);
}

/// Checks one canonical axis record: keyword `NAXISj`, `"= "`, plain
/// integer value; returns the saturated value as well.
fn member_card_e(bytes: &[u8], o: usize, j: usize) -> (t: (bool, u64))
    requires
        o + 80 <= bytes.len(),
        1 <= j <= 999,
    ensures
        t.0 == member_card(bytes@, o as int, j as int),
        t.0 ==> (num_val(bytes@, o as int) <= READ_CAP as int ==> t.1 as int == num_val(
            bytes@,
            o as int,
        )) && (num_val(bytes@, o as int) > READ_CAP as int ==> t.1 == READ_CAP + 1),
{
    let prefix_ok = bytes[o] == 78 && bytes[o + 1] == 65 && bytes[o + 2] == 88 && bytes[o + 3]
        == 73 && bytes[o + 4] == 83;
    let digits_ok = if j >= 100 {
        bytes[o + 5] as usize == 48 + j / 100 && bytes[o + 6] as usize == 48 + (j / 10) % 10
            && bytes[o + 7] as usize == 48 + j % 10
    } else if j >= 10 {
        bytes[o + 5] as usize == 48 + j / 10 && bytes[o + 6] as usize == 48 + j % 10 && bytes[o
            + 7] == 32
    } else {
        bytes[o + 5] as usize == 48 + j && bytes[o + 6] == 32 && bytes[o + 7] == 32
    };
    let eq_ok = bytes[o + 8] == 61 && bytes[o + 9] == 32;
    if !(prefix_ok && digits_ok && eq_ok) {
        return (false, 0);
    }
    let (found, v, re) = val_scan(bytes, o);
    if !found {
        return (false, 0);
    }
    if !plain_int_tail_e(bytes, o, re) {
        return (false, 0);
    }
    (true, v)
}

/// Checks the canonical block after an axis-count card declaring `k` axes.
fn head_block_ok(bytes: &[u8], o: usize, k: usize) -> (r: bool)
    requires
        o + 80 <= bytes.len(),
        1 <= k <= 999,
    ensures
        r == ({
            let s = bytes@;
            let oi = o as int;
            let ki = k as int;
            &&& oi + 80 * (ki + 1) <= s.len()
            &&& (forall|j: int| 1 <= j <= ki ==> #[trigger] member_card(s, oi + 80 * j, j))
            &&& block_product(s, oi, ki) <= MAX_AXIS_PRODUCT as int
        }),
{
    let ghost s = bytes@;
    let ghost oi = o as int;
    let avail = (bytes.len() - o) / 80;
    if avail < k + 1 {
        proof {
            assert((bytes@.len() - o) >= 80 * (k + 1) ==> (bytes@.len() - o) / 80 >= k + 1)
                by (nonlinear_arith);
        }
        return false;
    }
    proof {
        assert((bytes@.len() - o) / 80 >= k + 1 ==> bytes@.len() - o >= 80 * (k + 1))
            by (nonlinear_arith);
    }
    let len: usize = bytes.len();
    let mut p: u64 = 1;
    let mut j: usize = 1;
    while j <= k
        invariant
            1 <= j <= k + 1,
            1 <= k <= 999,
            s == bytes@,
            oi == o as int,
            len == bytes@.len(),
            oi + 80 * (k as int + 1) <= s.len(),
            forall|x: int| 1 <= x < j ==> #[trigger] member_card(s, oi + 80 * x, x),
            p as int == block_product(s, oi, j as int - 1),
            p <= MAX_AXIS_PRODUCT,
        decreases k + 1 - j,
    {
        let off = o + 80 * j;
        proof {
            assert(off + 80 <= bytes@.len());
        }
        let (ok, v) = member_card_e(bytes, off, j);
        if !ok {
            proof {
                assert(!member_card(s, oi + 80 * (j as int), j as int));
            }
            return false;
        }
        let f: u64 = if v == 0 {
            1
        } else {
            v
        };
        if f > MAX_AXIS_PRODUCT {
            proof {
                assert(max1(num_val(s, oi + 80 * (j as int))) > MAX_AXIS_PRODUCT as int);
                lemma_block_factor(s, oi, j as int, k as int);
            }
            return false;
        }
        proof {
            assert(f as int == max1(num_val(s, oi + 80 * (j as int))));
            assert(p as int * f as int <= MAX_AXIS_PRODUCT as int * MAX_AXIS_PRODUCT as int)
                by (nonlinear_arith)
                requires
                    0 <= p as int <= MAX_AXIS_PRODUCT as int,
                    0 <= f as int <= MAX_AXIS_PRODUCT as int,
            ;
        }
        let p2: u64 = p * f;
        proof {
            assert(block_product(s, oi, j as int) == block_product(s, oi, j as int - 1) * max1(
                num_val(s, oi + 80 * (j as int)),
            ));
        }
        if p2 > MAX_AXIS_PRODUCT {
            proof {
                lemma_block_mono(s, oi, j as int, k as int);
            }
            return false;
        }
        p = p2;
        j += 1;
    }
    true
}

/// Decides [`card_safe`] for the card at `o`.
fn card_ok(bytes: &[u8], o: usize) -> (r: bool)
    requires
        o + 80 <= bytes.len(),
    ensures
        r == card_safe(bytes@, o as int),
{
    let ghost s = bytes@;
    let ghost oi = o as int;
    let naxis_pfx = bytes[o] == 78 && bytes[o + 1] == 65 && bytes[o + 2] == 88 && bytes[o + 3]
        == 73 && bytes[o + 4] == 83;
    let rec_ok = bytes[o + 8] == 61 && bytes[o + 9] == 32;

    let mut head_good = true;
    if naxis_pfx && rec_ok && is_pad_e(bytes[o + 5]) && is_pad_e(bytes[o + 6]) && is_pad_e(
        bytes[o + 7],
    ) {
        proof {
            assert(naxis_head_card(s, oi));
        }
        let (found, v, _re) = val_scan(bytes, o);
        if found && v > 0 {
            if v > MAX_AXES {
                proof {
                    assert(num_val(s, oi) > MAX_AXES as int);
                }
                head_good = false;
            } else {
                proof {
                    assert(v as int == num_val(s, oi));
                }
                head_good = head_block_ok(bytes, o, v as usize);
            }
        }
    }
    proof {
        assert(head_good == head_ok(s, oi));
    }

    let mut stray_good = true;
    if naxis_pfx && rec_ok && is_digit_e(bytes[o + 5]) {
        proof {
            assert(naxisn_card(s, oi));
        }
        let se = digit_end_e(bytes, o + 5, o + 8);
        let pads_ok = (se > o + 6 || is_pad_e(bytes[o + 6])) && (se > o + 7 || is_pad_e(
            bytes[o + 7],
        ));
        if !pads_ok {
            stray_good = false;
        } else {
            let n64 = digits_sat_e(bytes, o + 5, se);
            if n64 > 0 {
                if n64 > MAX_AXES {
                    proof {
                        assert(digits_val(s, oi + 5, se as int) > MAX_AXES as int);
                    }
                    stray_good = false;
                } else {
                    proof {
                        assert(n64 as int == digits_val(s, oi + 5, se as int));
                    }
                    let n = n64 as usize;
                    if o < 80 * n {
                        stray_good = false;
                    } else {
                        let h = o - 80 * n;
                        let head_pat = bytes[h] == 78 && bytes[h + 1] == 65 && bytes[h + 2] == 88
                            && bytes[h + 3] == 73 && bytes[h + 4] == 83 && is_pad_e(bytes[h + 5])
                            && is_pad_e(bytes[h + 6]) && is_pad_e(bytes[h + 7]) && bytes[h + 8]
                            == 61 && bytes[h + 9] == 32;
                        if !head_pat {
                            stray_good = false;
                        } else {
                            let (hfound, hv, _hre) = val_scan(bytes, h);
                            if !hfound || hv < n64 {
                                stray_good = false;
                            }
                        }
                    }
                }
            }
        }
    }
    proof {
        assert(stray_good == stray_ok(s, oi));
    }

    let mut scalar_good = true;
    let bp_pat = bytes[o] == 66 && bytes[o + 1] == 73 && bytes[o + 2] == 84 && bytes[o + 3] == 80
        && bytes[o + 4] == 73 && bytes[o + 5] == 88 && is_pad_e(bytes[o + 6]) && is_pad_e(
        bytes[o + 7],
    ) && rec_ok;
    let gc_pat = bytes[o] == 71 && bytes[o + 1] == 67 && bytes[o + 2] == 79 && bytes[o + 3] == 85
        && bytes[o + 4] == 78 && bytes[o + 5] == 84 && is_pad_e(bytes[o + 6]) && is_pad_e(
        bytes[o + 7],
    ) && rec_ok;
    let pc_pat = bytes[o] == 80 && bytes[o + 1] == 67 && bytes[o + 2] == 79 && bytes[o + 3] == 85
        && bytes[o + 4] == 78 && bytes[o + 5] == 84 && is_pad_e(bytes[o + 6]) && is_pad_e(
        bytes[o + 7],
    ) && rec_ok;
    if bp_pat || gc_pat || pc_pat {
        let (sfound, sv, _sre) = val_scan(bytes, o);
        if sfound {
            if bp_pat && sv > MAX_BITPIX_VALUE {
                scalar_good = false;
            }
            if gc_pat && sv > MAX_GCOUNT_VALUE {
                scalar_good = false;
            }
            if pc_pat && sv > MAX_PCOUNT_VALUE {
                scalar_good = false;
            }
        }
    }
    proof {
        assert(scalar_good == scalar_ok(s, oi));
    }

    let naxis_shape = !(naxis_pfx && rec_ok) || is_digit_e(bytes[o + 5]) || (is_pad_e(
        bytes[o + 5],
    ) && is_pad_e(bytes[o + 6]) && is_pad_e(bytes[o + 7]));
    let bp_prefix = bytes[o] == 66 && bytes[o + 1] == 73 && bytes[o + 2] == 84 && bytes[o + 3]
        == 80 && bytes[o + 4] == 73 && bytes[o + 5] == 88;
    let gc_prefix = bytes[o] == 71 && bytes[o + 1] == 67 && bytes[o + 2] == 79 && bytes[o + 3]
        == 85 && bytes[o + 4] == 78 && bytes[o + 5] == 84;
    let pc_prefix = bytes[o] == 80 && bytes[o + 1] == 67 && bytes[o + 2] == 79 && bytes[o + 3]
        == 85 && bytes[o + 4] == 78 && bytes[o + 5] == 84;
    let scalar_pads = is_pad_e(bytes[o + 6]) && is_pad_e(bytes[o + 7]);
    let shape_good = naxis_shape && (!(bp_prefix && rec_ok) || scalar_pads) && (!(gc_prefix
        && rec_ok) || scalar_pads) && (!(pc_prefix && rec_ok) || scalar_pads);
    proof {
        assert(shape_good == kw_shape_ok(s, oi));
    }

    head_good && stray_good && scalar_good && shape_good
}

/// Decides [`safe_to_decode`]: scans every 80-aligned card of the buffer.
pub fn bytes_admit_decode(bytes: &[u8]) -> (r: bool)
    ensures
        r == safe_to_decode(bytes@),
{
    let n = bytes.len();
    if n < 80 {
        return true;
    }
    let mut c: usize = 0;
    while 80 * c <= n - 80
        invariant
            n == bytes@.len(),
            n >= 80,
            80 * c <= n,
            forall|x: int| 0 <= x < c ==> #[trigger] card_safe(bytes@, 80 * x),
        decreases n - 80 * c,
    {
        let o = 80 * c;
        if !card_ok(bytes, o) {
            proof {
                assert(card_safe(bytes@, 80 * (c as int)) == false);
                assert(!safe_to_decode(bytes@));
            }
            return false;
        }
        c += 1;
    }
    proof {
        assert forall|x: int| 0 <= x && 80 * x + 80 <= bytes@.len() implies #[trigger] card_safe(
            bytes@,
            80 * x,
        ) by {
            assert(80 * x <= n - 80);
            assert(x < c);
        }
    }
    true
}

} // verus!
