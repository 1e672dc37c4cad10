//! The space scanner: walks a slotted buffer and reports occupied and empty
//! regions one at a time.

use vstd::prelude::*;

use crate::error::Error;
use crate::field::{decode_header, is_live, spec_header_of, Header};

verus! {

/// A maximal run of live fields: one record's bytes.
///
/// `data` is a read-only view into the scanned buffer, never a copy, and
/// must not outlive it.
#[derive(Debug, PartialEq, Clone)]
pub struct OccupiedSpace<'a> {
    /// Offset from the beginning of the scanned buffer.
    pub offset: usize,
    /// Exactly the sub-range `[offset, offset + data.len())` of the buffer.
    pub data: &'a [u8],
}

/// Exactly one free field.
///
/// Free runs are never merged across fields, so `len` always equals one
/// field width.
#[derive(Debug, PartialEq, Clone)]
pub struct EmptySpace {
    /// Offset from the beginning of the scanned buffer.
    pub offset: usize,
    /// Byte length of the region: one field width.
    pub len: usize,
}

/// A region the scanner reports: either live record data or a free slot.
#[derive(Debug, PartialEq, Clone)]
pub enum Space<'a> {
    Occupied(OccupiedSpace<'a>),
    Empty(EmptySpace),
}

/// Mathematical shape of a reported region.
#[verifier::ext_equal]
pub ghost enum SpaceModel {
    Occupied { offset: int, data: Seq<u8> },
    Empty { offset: int, len: int },
}

/// The offset at which a region starts.
pub open spec fn space_model_offset(s: SpaceModel) -> int {
    match s {
        SpaceModel::Occupied { offset, .. } => offset,
        SpaceModel::Empty { offset, .. } => offset,
    }
}

/// The byte length of a region.
pub open spec fn space_model_len(s: SpaceModel) -> int {
    match s {
        SpaceModel::Occupied { data, .. } => data.len() as int,
        SpaceModel::Empty { len, .. } => len,
    }
}

impl<'a> View for Space<'a> {
    type V = SpaceModel;

    open spec fn view(&self) -> SpaceModel {
        match self {
            Space::Occupied(o) => SpaceModel::Occupied { offset: o.offset as int, data: o.data@ },
            Space::Empty(e) => SpaceModel::Empty { offset: e.offset as int, len: e.len as int },
        }
    }
}

/// The model of one pull's outcome.
pub open spec fn res_view<'a>(r: Result<Space<'a>, Error>) -> Result<SpaceModel, Error> {
    match r {
        Ok(s) => Ok(s@),
        Err(e) => Err(e),
    }
}

/// The model of one pull's outcome, `None` meaning exhaustion.
pub open spec fn opt_res_view<'a>(r: Option<Result<Space<'a>, Error>>) -> Option<
    Result<SpaceModel, Error>,
> {
    match r {
        Some(x) => Some(res_view(x)),
        None => None,
    }
}

/// What one scan step leaves behind: the region it reports, if any, and the
/// cursor position afterwards.
#[verifier::ext_equal]
pub ghost struct StepResult {
    /// `None` means the step produced nothing: the scan is exhausted.
    pub emitted: Option<Result<SpaceModel, Error>>,
    /// The cursor after the step: the first byte not folded into the
    /// reported region.
    pub cursor: int,
}

/// The scanner's state machine, as a function of the buffer alone.
///
/// `start` is the offset where the current candidate run began, `cursor` the
/// next field to decode, and `prev` the tag of the last field folded into
/// the run (`None` before any field has been folded).  One step scans
/// forward until it can report a region, fails, or exhausts the buffer.
pub open spec fn scan_from(
    data: Seq<u8>,
    w: int,
    start: int,
    cursor: int,
    prev: Option<Header>,
) -> StepResult
    decreases data.len() - cursor
        when w >= 1
{
    if cursor + w > data.len() {
        // Fewer than one field width of bytes remain: flush the open run.
        match prev {
            None => StepResult { emitted: None, cursor },
            Some(h) => if is_live(h) {
                StepResult {
                    emitted: Some(
                        Ok(
                            SpaceModel::Occupied {
                                offset: start,
                                data: data.subrange(start, cursor),
                            },
                        ),
                    ),
                    cursor,
                }
            } else {
                StepResult {
                    emitted: Some(Ok(SpaceModel::Empty { offset: start, len: cursor - start })),
                    cursor,
                }
            },
        }
    } else {
        match spec_header_of(data[cursor]) {
            None => StepResult { emitted: Some(Err(Error::UnknownHeader)), cursor },
            Some(cur) => match cur {
                Header::Continued => match prev {
                    // A leading continuation belongs to no run: drop it
                    // silently and keep scanning.
                    None => scan_from(data, w, start + w, cursor + w, None),
                    Some(p) => if is_live(p) {
                        scan_from(data, w, start, cursor + w, Some(Header::Continued))
                    } else {
                        StepResult { emitted: Some(Err(Error::InvalidHeader)), cursor }
                    },
                },
                Header::Inserted => match prev {
                    Some(p) => if p is Inserted {
                        // Two records side by side never merge: close the
                        // open run; the current field is re-examined on the
                        // next step.
                        StepResult {
                            emitted: Some(
                                Ok(
                                    SpaceModel::Occupied {
                                        offset: start,
                                        data: data.subrange(start, cursor),
                                    },
                                ),
                            ),
                            cursor,
                        }
                    } else if p is Continued {
                        scan_from(data, w, start, cursor + w, Some(Header::Inserted))
                    } else {
                        StepResult {
                            emitted: Some(
                                Ok(SpaceModel::Empty { offset: start, len: cursor - start }),
                            ),
                            cursor,
                        }
                    },
                    None => scan_from(data, w, start, cursor + w, Some(Header::Inserted)),
                },
                _ => match prev {
                    // The current field is free.
                    Some(p) => if is_live(p) {
                        StepResult {
                            emitted: Some(
                                Ok(
                                    SpaceModel::Occupied {
                                        offset: start,
                                        data: data.subrange(start, cursor),
                                    },
                                ),
                            ),
                            cursor,
                        }
                    } else {
                        // A second free field closes the open empty run
                        // before it is folded: empty runs never merge.
                        StepResult {
                            emitted: Some(
                                Ok(SpaceModel::Empty { offset: start, len: cursor - start }),
                            ),
                            cursor,
                        }
                    },
                    None => scan_from(data, w, start, cursor + w, Some(cur)),
                },
            },
        }
    }
}

/// One production step of a scanner with body size `body` and cursor
/// `cursor` over `data`.
pub open spec fn scan_step(data: Seq<u8>, body: int, cursor: int) -> StepResult {
    scan_from(data, body + 1, cursor, cursor, None)
}

/// Mathematical state of a scanner.
#[verifier::ext_equal]
pub ghost struct ScannerModel {
    /// The scanned buffer.
    pub data: Seq<u8>,
    /// The field body size; the field width is `body + 1`.
    pub body: int,
    /// The next byte the scanner will decode.
    pub cursor: int,
    /// The single-slot lookahead cache; `None` when nothing is cached.
    pub cached: Option<Result<SpaceModel, Error>>,
}

/// How a forward seek changes the scanner: a target beyond the cursor moves
/// the cursor there and drops the lookahead; any other target is a no-op.
pub open spec fn seek_state(m: ScannerModel, target: int) -> ScannerModel {
    if target > m.cursor {
        ScannerModel { data: m.data, body: m.body, cursor: target, cached: None }
    } else {
        m
    }
}

/// The scanner after a peek: an already-cached result is kept untouched;
/// otherwise one step runs and its outcome is cached.
pub open spec fn peek_state(m: ScannerModel) -> ScannerModel {
    match m.cached {
        Some(_) => m,
        None => ScannerModel {
            data: m.data,
            body: m.body,
            cursor: scan_step(m.data, m.body, m.cursor).cursor,
            cached: scan_step(m.data, m.body, m.cursor).emitted,
        },
    }
}

/// The scanner after a pull: a cached result is consumed; otherwise one
/// step runs and moves the cursor.
pub open spec fn pull_state(m: ScannerModel) -> ScannerModel {
    match m.cached {
        Some(_) => ScannerModel { data: m.data, body: m.body, cursor: m.cursor, cached: None },
        None => ScannerModel {
            data: m.data,
            body: m.body,
            cursor: scan_step(m.data, m.body, m.cursor).cursor,
            cached: None,
        },
    }
}

/// What a pull returns: the cached result if one is pending, else the
/// outcome of one fresh step.
pub open spec fn pull_result(m: ScannerModel) -> Option<Result<SpaceModel, Error>> {
    match m.cached {
        Some(v) => Some(v),
        None => scan_step(m.data, m.body, m.cursor).emitted,
    }
}

/// The stateful scanner: a borrowed buffer, a field body size, a cursor,
/// and a single-slot lookahead cache.
#[derive(Debug)]
pub struct SpaceIterator<'a> {
    data: &'a [u8],
    field_body_size: usize,
    offset: usize,
    peeked: Option<Result<Space<'a>, Error>>,
}

impl<'a> View for SpaceIterator<'a> {
    type V = ScannerModel;

    closed spec fn view(&self) -> ScannerModel {
        ScannerModel {
            data: self.data@,
            body: self.field_body_size as int,
            cursor: self.offset as int,
            cached: opt_res_view(self.peeked),
        }
    }
}

impl<'a> SpaceIterator<'a> {
    /// Builds a scanner over `data` that starts scanning at `offset`.
    pub fn new(data: &'a [u8], field_body_size: usize, offset: usize) -> (r: Self)
        ensures
            r@ == (ScannerModel {
                data: data@,
                body: field_body_size as int,
                cursor: offset as int,
                cached: None,
            }),
    {
        SpaceIterator { data, field_body_size, offset, peeked: None }
    }

    /// Moves the cursor forward to `offset`, dropping any cached lookahead;
    /// a target at or before the cursor is a no-op.
    pub fn move_offset_forward(&mut self, offset: usize)
        ensures
            final(self)@ == seek_state(old(self)@, offset as int),
    {
        if offset > self.offset {
            self.offset = offset;
            self.peeked = None;
        }
    }

    /// Returns the next result without consuming it, computing and caching
    /// it on first call; repeated calls return the cached value.
    pub fn peek(&mut self) -> (r: Option<&Result<Space<'a>, Error>>)
        requires
            old(self)@.body < usize::MAX,
        ensures
            final(self)@ == peek_state(old(self)@),
            r is Some <==> final(self)@.cached is Some,
            r matches Some(p) ==> final(self)@.cached == Some(res_view(*p)),
    {
        if self.peeked.is_none() {
            let n = self.next();
            self.peeked = n;
        }
        self.peeked.as_ref()
    }

    /// Pulls the next result: the cached lookahead if present, otherwise
    /// the outcome of one fresh state-machine step.  `None` means the scan
    /// is exhausted.
    #[verifier::loop_isolation(false)]
    pub fn next(&mut self) -> (r: Option<Result<Space<'a>, Error>>)
        requires
            old(self)@.body < usize::MAX,
        ensures
            final(self)@ == pull_state(old(self)@),
            opt_res_view(r) == pull_result(old(self)@),
    {
        let cached = self.peeked.take();
        if cached.is_some() {
            return cached;
        }
        let w = self.field_body_size + 1;
        let ghost data_s: Seq<u8> = self.data@;
        let ghost body0: int = self.field_body_size as int;
        let ghost target: StepResult = scan_step(data_s, body0, self.offset as int);
        let mut prev: Option<Header> = None;
        let mut start: usize = self.offset;
        while self.offset < self.data.len() && w <= self.data.len() - self.offset
            invariant
                self.data@ == data_s,
                self.field_body_size as int == body0,
                w == body0 + 1,
                self.peeked is None,
                start <= self.offset,
                prev is None ==> start == self.offset,
                prev is Some ==> self.offset <= self.data@.len(),
                scan_from(data_s, w as int, start as int, self.offset as int, prev) == target,
            decreases data_s.len() - self.offset,
        {
            let b: u8 = *vstd::slice::slice_index_get(self.data, self.offset);
            match decode_header(b) {
                None => {
                    return Some(Err(Error::UnknownHeader));
                },
                Some(h) => match h {
                    Header::Continued => match prev {
                        None => {
                            start = start + w;
                            self.offset = self.offset + w;
                        },
                        Some(Header::Inserted) | Some(Header::Continued) => {
                            self.offset = self.offset + w;
                            prev = Some(Header::Continued);
                        },
                        Some(_) => {
                            return Some(Err(Error::InvalidHeader));
                        },
                    },
                    Header::Inserted => match prev {
                        Some(Header::Inserted) => {
                            let d = vstd::slice::slice_subrange(self.data, start, self.offset);
                            return Some(Ok(Space::Occupied(OccupiedSpace { offset: start, data: d })));
                        },
                        Some(Header::Continued) | None => {
                            self.offset = self.offset + w;
                            prev = Some(Header::Inserted);
                        },
                        Some(_) => {
                            return Some(
                                Ok(Space::Empty(EmptySpace { offset: start, len: self.offset - start })),
                            );
                        },
                    },
                    _ => match prev {
                        Some(Header::Inserted) | Some(Header::Continued) => {
                            let d = vstd::slice::slice_subrange(self.data, start, self.offset);
                            return Some(Ok(Space::Occupied(OccupiedSpace { offset: start, data: d })));
                        },
                        Some(_) => {
                            return Some(
                                Ok(Space::Empty(EmptySpace { offset: start, len: self.offset - start })),
                            );
                        },
                        None => {
                            self.offset = self.offset + w;
                            prev = Some(h);
                        },
                    },
                },
            }
        }
        match prev {
            None => None,
            Some(Header::Inserted) | Some(Header::Continued) => {
                let d = vstd::slice::slice_subrange(self.data, start, self.offset);
                Some(Ok(Space::Occupied(OccupiedSpace { offset: start, data: d })))
            },
            Some(_) => Some(Ok(Space::Empty(EmptySpace { offset: start, len: self.offset - start }))),
        }
    }
}

} // verus!
