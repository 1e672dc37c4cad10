//! Laws of the scanner, proved once and for all buffers.

use vstd::prelude::*;

use crate::error::Error;
use crate::field::{is_free, is_live, live_at, spec_header_of, Header};
use crate::space::{
    peek_state, pull_state, scan_from, scan_step, seek_state, space_model_len, space_model_offset,
    ScannerModel, SpaceModel, StepResult,
};

verus! {

/// Every field boundary strictly inside `[start, cursor)` after the first
/// field carries a live header tag.
pub open spec fn run_fields_live(data: Seq<u8>, w: int, start: int, cursor: int) -> bool {
    forall|p: int|
        start + w <= p < cursor && (p - start) % w == 0 ==> #[trigger] live_at(data, p)
}

/// What holds of the state machine's bookkeeping mid-run: `start` and
/// `cursor` delimit whole fields already folded, and their tags match the
/// kind of run that `prev` records.
pub open spec fn run_inv(
    data: Seq<u8>,
    w: int,
    start: int,
    cursor: int,
    prev: Option<Header>,
) -> bool {
    &&& 1 <= w
    &&& 0 <= start <= cursor
    &&& match prev {
        None => start == cursor,
        Some(h) => {
            &&& cursor <= data.len()
            &&& start + w <= cursor
            &&& (cursor - start) % w == 0
            &&& (is_free(h) ==> cursor - start == w)
            &&& (is_live(h) ==> spec_header_of(data[start]) == Some(Header::Inserted)
                && run_fields_live(data, w, start, cursor))
        },
    }
}

/// Two multiples of `w` less than `w` apart are equal.
proof fn lemma_multiple_unique_in_window(a: int, b: int, w: int)
    requires
        w >= 1,
        a % w == 0,
        b % w == 0,
        b <= a < b + w,
    ensures
        a == b,
{
    vstd::arithmetic::div_mod::lemma_fundamental_div_mod(a, w);
    vstd::arithmetic::div_mod::lemma_fundamental_div_mod(b, w);
    assert(a / w == b / w) by (nonlinear_arith)
        requires
            a == w * (a / w),
            b == w * (b / w),
            b <= a < b + w,
            w >= 1,
    ;
}

/// The sum of a multiple of `w` and `w` itself is a multiple of `w`.
proof fn lemma_multiple_step(x: int, w: int)
    requires
        w >= 1,
        x % w == 0,
    ensures
        (x + w) % w == 0,
{
    vstd::arithmetic::div_mod::lemma_mod_add_multiples_vanish(x, w);
}

/// The run invariant survives folding one more field with a live tag into
/// an open live run.
proof fn lemma_fold_live(data: Seq<u8>, w: int, start: int, cursor: int, tag: Header)
    requires
        run_inv(data, w, start, cursor, Some(Header::Inserted)) || run_inv(
            data,
            w,
            start,
            cursor,
            Some(Header::Continued),
        ),
        cursor + w <= data.len(),
        spec_header_of(data[cursor]) == Some(tag),
        is_live(tag),
    ensures
        run_inv(data, w, start, cursor + w, Some(tag)),
{
    lemma_multiple_step(cursor - start, w);
    assert forall|p: int| start + w <= p < cursor + w && (p - start) % w == 0 implies #[trigger]
        live_at(data, p) by {
        if p < cursor {
            assert(live_at(data, p));
        } else {
            lemma_multiple_unique_in_window(p - start, cursor - start, w);
            assert(p == cursor);
        }
    }
}

/// What one step of the state machine guarantees, for every reachable
/// bookkeeping state: the cursor never moves backwards; a successful result
/// covers `[offset, cursor)` exactly, empty results are one field wide,
/// occupied results are whole live runs starting with `Inserted`; and after
/// a successful result the cursor stands on a field that is not a
/// continuation (or within the trailing partial field of the buffer).
pub proof fn lemma_scan_from_facts(
    data: Seq<u8>,
    w: int,
    start: int,
    cursor: int,
    prev: Option<Header>,
)
    requires
        run_inv(data, w, start, cursor, prev),
    ensures
        ({
            let sr = scan_from(data, w, start, cursor, prev);
            &&& cursor <= sr.cursor
            &&& (sr.emitted is None ==> sr.cursor + w > data.len())
            &&& (match sr.emitted {
                Some(Ok(s)) => {
                    &&& start <= space_model_offset(s)
                    &&& (prev is Some ==> space_model_offset(s) == start)
                    &&& space_model_offset(s) + space_model_len(s) == sr.cursor
                    &&& (sr.cursor + w > data.len() || (spec_header_of(data[sr.cursor]) matches Some(
                        t,
                    ) && !(t is Continued)))
                    &&& (s matches SpaceModel::Empty { offset: o, len: l } ==> l == w)
                    &&& (s matches SpaceModel::Occupied { offset: o, data: region } ==> {
                        &&& region == data.subrange(o, sr.cursor)
                        &&& w <= region.len()
                        &&& (region.len() as int) % w == 0
                        &&& spec_header_of(data[o]) == Some(Header::Inserted)
                        &&& run_fields_live(data, w, o, sr.cursor)
                    })
                },
                _ => true,
            })
        }),
    decreases data.len() - cursor,
{
    let sr = scan_from(data, w, start, cursor, prev);
    if cursor + w > data.len() {
        match prev {
            None => {},
            Some(h) => {
                if is_live(h) {
                    assert(data.subrange(start, cursor).len() == cursor - start);
                } else {
                    assert(is_free(h));
                }
            },
        }
    } else {
        match spec_header_of(data[cursor]) {
            None => {},
            Some(cur) => match cur {
                Header::Continued => match prev {
                    None => {
                        lemma_scan_from_facts(data, w, start + w, cursor + w, None);
                    },
                    Some(p) => if is_live(p) {
                        lemma_fold_live(data, w, start, cursor, Header::Continued);
                        lemma_scan_from_facts(data, w, start, cursor + w, Some(Header::Continued));
                    } else {
                    },
                },
                Header::Inserted => match prev {
                    Some(p) => if p is Inserted {
                        assert(data.subrange(start, cursor).len() == cursor - start);
                    } else if p is Continued {
                        lemma_fold_live(data, w, start, cursor, Header::Inserted);
                        lemma_scan_from_facts(data, w, start, cursor + w, Some(Header::Inserted));
                    } else {
                        assert(is_free(p));
                    },
                    None => {
                        assert((cursor + w - start) % w == 0) by {
                            lemma_multiple_step(0, w);
                        }
                        lemma_scan_from_facts(data, w, start, cursor + w, Some(Header::Inserted));
                    },
                },
                _ => match prev {
                    Some(p) => if is_live(p) {
                        assert(data.subrange(start, cursor).len() == cursor - start);
                    } else {
                        assert(is_free(p));
                    },
                    None => {
                        assert((cursor + w - start) % w == 0) by {
                            lemma_multiple_step(0, w);
                        }
                        lemma_scan_from_facts(data, w, start, cursor + w, Some(cur));
                    },
                },
            },
        }
    }
}

/// Law: every empty region a scan step reports is exactly one field wide,
/// never more, however many free fields stand side by side.
pub proof fn lemma_empty_space_is_one_field(
    data: Seq<u8>,
    body: int,
    cursor: int,
    off: int,
    len: int,
)
    requires
        0 <= body,
        0 <= cursor,
        scan_step(data, body, cursor).emitted == Some(
            Ok::<SpaceModel, Error>(SpaceModel::Empty { offset: off, len }),
        ),
    ensures
        len == body + 1,
{
    lemma_scan_from_facts(data, body + 1, cursor, cursor, None);
}

/// Law: every occupied region a scan step reports is exactly the buffer
/// sub-range it names; its byte length is a positive integer multiple of
/// the field width; its first field decodes as `Inserted` and every later
/// field boundary carries a live tag.
pub proof fn lemma_occupied_space_shape(
    data: Seq<u8>,
    body: int,
    cursor: int,
    off: int,
    region: Seq<u8>,
)
    requires
        0 <= body,
        0 <= cursor,
        scan_step(data, body, cursor).emitted == Some(
            Ok::<SpaceModel, Error>(SpaceModel::Occupied { offset: off, data: region }),
        ),
    ensures
        region == data.subrange(off, off + region.len()),
        body + 1 <= region.len(),
        (region.len() as int) % (body + 1) == 0,
        spec_header_of(data[off]) == Some(Header::Inserted),
        run_fields_live(data, body + 1, off, off + region.len()),
{
    lemma_scan_from_facts(data, body + 1, cursor, cursor, None);
}

/// Law: when no later field boundary of an occupied region decodes as
/// `Inserted`, the region decodes as one `Inserted` field followed by zero
/// or more `Continued` fields: decoding reconstructs it exactly.
pub proof fn lemma_occupied_space_reconstructs(
    data: Seq<u8>,
    body: int,
    cursor: int,
    off: int,
    region: Seq<u8>,
)
    requires
        0 <= body,
        0 <= cursor,
        scan_step(data, body, cursor).emitted == Some(
            Ok::<SpaceModel, Error>(SpaceModel::Occupied { offset: off, data: region }),
        ),
        forall|p: int|
            off + body + 1 <= p < off + region.len() && (p - off) % (body + 1) == 0
                ==> #[trigger] spec_header_of(data[p]) != Some(Header::Inserted),
    ensures
        spec_header_of(data[off]) == Some(Header::Inserted),
        forall|p: int|
            off + body + 1 <= p < off + region.len() && (p - off) % (body + 1) == 0
                ==> #[trigger] spec_header_of(data[p]) == Some(Header::Continued),
{
    lemma_occupied_space_shape(data, body, cursor, off, region);
    assert forall|p: int|
        off + body + 1 <= p < off + region.len() && (p - off) % (body + 1) == 0 implies #[trigger]
        spec_header_of(data[p]) == Some(Header::Continued) by {
        assert(live_at(data, p));
    }
}

/// Law: results are gapless and ordered: when one scan step reports a
/// region and the next step, from the cursor the first one left, reports
/// another, the second region's offset equals the first's offset plus its
/// length.
pub proof fn lemma_results_gapless(
    data: Seq<u8>,
    body: int,
    cursor: int,
    s1: SpaceModel,
    s2: SpaceModel,
)
    requires
        0 <= body,
        0 <= cursor,
        scan_step(data, body, cursor).emitted == Some(Ok::<SpaceModel, Error>(s1)),
        scan_step(data, body, scan_step(data, body, cursor).cursor).emitted == Some(
            Ok::<SpaceModel, Error>(s2),
        ),
    ensures
        space_model_offset(s2) == space_model_offset(s1) + space_model_len(s1),
{
    let w = body + 1;
    let c1 = scan_step(data, body, cursor).cursor;
    lemma_scan_from_facts(data, w, cursor, cursor, None);
    if c1 + w > data.len() {
        assert(scan_step(data, body, c1).emitted is None);
    } else {
        let t = spec_header_of(data[c1])->0;
        if t is Inserted {
            lemma_scan_from_facts(data, w, c1, c1 + w, Some(Header::Inserted));
        } else {
            assert(is_free(t));
            lemma_scan_from_facts(data, w, c1, c1 + w, Some(t));
        }
    }
}

/// One step after an exhausted step changes nothing: exhaustion is stable.
proof fn lemma_scan_exhausted_stable(data: Seq<u8>, body: int, cursor: int)
    requires
        0 <= body,
        0 <= cursor,
        scan_step(data, body, cursor).emitted is None,
    ensures
        scan_step(data, body, scan_step(data, body, cursor).cursor) == scan_step(
            data,
            body,
            cursor,
        ),
{
    lemma_scan_from_facts(data, body + 1, cursor, cursor, None);
    let sr = scan_step(data, body, cursor);
    assert(sr =~= (StepResult { emitted: None, cursor: sr.cursor }));
}

/// Law: peeking is idempotent: any number of peeks without an intervening
/// pull or forward seek leave the scanner in the same state and return the
/// same result as the first one.
pub proof fn lemma_peek_idempotent(m: ScannerModel)
    requires
        0 <= m.body,
        0 <= m.cursor,
    ensures
        peek_state(peek_state(m)) == peek_state(m),
        peek_state(peek_state(m)).cached == peek_state(m).cached,
{
    match m.cached {
        Some(_) => {},
        None => {
            let sr = scan_step(m.data, m.body, m.cursor);
            match sr.emitted {
                Some(_) => {},
                None => {
                    lemma_scan_from_facts(m.data, m.body + 1, m.cursor, m.cursor, None);
                    lemma_scan_exhausted_stable(m.data, m.body, m.cursor);
                    assert(peek_state(peek_state(m)) =~= peek_state(m));
                },
            }
        },
    }
}

/// Law: the cursor never moves backwards: a pull, a peek and a forward
/// seek each leave it at or beyond where it stood.
pub proof fn lemma_cursor_monotone(m: ScannerModel, target: int)
    requires
        0 <= m.body,
        0 <= m.cursor,
    ensures
        m.cursor <= pull_state(m).cursor,
        m.cursor <= peek_state(m).cursor,
        m.cursor <= seek_state(m, target).cursor,
{
    lemma_scan_from_facts(m.data, m.body + 1, m.cursor, m.cursor, None);
}

/// Law: forward seeks are monotone: after a seek to `x`, a later seek to
/// any `y <= x` changes nothing, so a seek past the cursor leaves it at
/// `x`.
pub proof fn lemma_seek_monotonic(m: ScannerModel, x: int, y: int)
    requires
        y <= x,
    ensures
        seek_state(seek_state(m, x), y) == seek_state(m, x),
        x > m.cursor ==> seek_state(seek_state(m, x), y).cursor == x,
{
}

} // verus!
