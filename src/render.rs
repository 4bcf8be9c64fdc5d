//! One worker's share of a frame: the rows it is asked for, in ascending order,
//! and the scanlines it sends back, copied into its own slice of the frame.
use vstd::prelude::*;
use crate::bands::{band_end, band_first, band_height, lemma_ceil_div_bounds, Band};
use crate::protocol::{is_result_line, result_pixels, store_result, with_row, Command, ProtocolError};

verus! {

/// `buf` starts with the rows of `rows`, one after the other.
pub open spec fn holds_rows(buf: Seq<u8>, rows: Seq<Seq<u8>>) -> bool {
    &&& rows.flatten().len() <= buf.len()
    &&& buf.subrange(0, rows.flatten().len() as int) == rows.flatten()
}

/// Progress of one worker through its band.
pub struct BandRender {
    width: usize,
    band: Band,
    next: usize,
    received: Ghost<Seq<Seq<u8>>>,
}

impl BandRender {
    /// Width of the frame, in pixels.
    pub closed spec fn spec_width(&self) -> int {
        self.width as int
    }

    /// The rows this worker renders.
    pub closed spec fn spec_band(&self) -> Band {
        self.band
    }

    /// The row to ask for next; the band's end once every row came back.
    pub closed spec fn next_row(&self) -> int {
        self.next as int
    }

    /// The pixels of every row received so far, in row order.
    pub closed spec fn received(&self) -> Seq<Seq<u8>> {
        self.received@
    }

    /// Rows of the band whose pixels were already copied into the slice.
    pub open spec fn rows_written(&self) -> Set<int> {
        Set::new(|y: int| self.spec_band().first <= y < self.next_row())
    }

    /// Bytes of the slice of the frame that holds this band.
    pub open spec fn slice_len(&self) -> int {
        (self.spec_band().end - self.spec_band().first) * self.spec_width() * 3
    }

    pub closed spec fn wf(&self) -> bool {
        &&& self.band.first <= self.next <= self.band.end
        &&& self.received@.len() == self.next - self.band.first
        &&& forall|k: int|
            0 <= k < self.received@.len() ==> (#[trigger] self.received@[k]).len() == self.width * 3
        &&& (self.band.end - self.band.first) * self.width * 3 <= usize::MAX
    }

    /// A worker that has not yet been asked for any row of `band`.
    pub fn new(band: Band, width: usize) -> (r: BandRender)
        requires
            band.first <= band.end,
            (band.end - band.first) * width * 3 <= usize::MAX,
        ensures
            r.wf(),
            r.spec_band() == band,
            r.spec_width() == width,
            r.next_row() == band.first,
            r.received() == Seq::<Seq<u8>>::empty(),
    {
        BandRender { width, band, next: band.first, received: Ghost(Seq::empty()) }
    }

    /// Every row of the band came back.
    pub fn is_done(&self) -> (r: bool)
        requires
            self.wf(),
        ensures
            r == (self.next_row() == self.spec_band().end),
    {
        self.next == self.band.end
    }

    /// The command for the next row: one row of the full width, from column 1.
    pub fn next_command(&self) -> (r: Option<Command>)
        requires
            self.wf(),
        ensures
            self.next_row() < self.spec_band().end ==> r == Some(
                Command::Calculate {
                    x: 1,
                    y: self.next_row() as usize,
                    width: self.spec_width() as usize,
                    height: 1,
                },
            ),
            self.next_row() == self.spec_band().end ==> r is None,
    {
        if self.next < self.band.end {
            Some(Command::Calculate { x: 1, y: self.next, width: self.width, height: 1 })
        } else {
            None
        }
    }

    /// Takes the reply to the last row asked for: checks it and copies its
    /// pixels into that row of `dst`, the band's slice of the frame.
    pub fn accept(&mut self, payload: &[u8], dst: &mut [u8]) -> (r: Result<(), ProtocolError>)
        requires
            old(self).wf(),
            old(self).next_row() < old(self).spec_band().end,
            old(dst)@.len() == old(self).slice_len(),
        ensures
            final(self).wf(),
            final(self).spec_band() == old(self).spec_band(),
            final(self).spec_width() == old(self).spec_width(),
            r is Ok <==> is_result_line(payload@, old(self).spec_width()),
            r is Ok ==> final(self).next_row() == old(self).next_row() + 1 && final(self).received()
                == old(self).received().push(result_pixels(payload@)) && final(dst)@ == with_row(
                old(dst)@,
                old(self).spec_width(),
                old(self).next_row() - old(self).spec_band().first,
                result_pixels(payload@),
            ),
            !old(self).rows_written().contains(old(self).next_row()),
            r is Ok ==> final(self).rows_written() == old(self).rows_written().insert(
                old(self).next_row(),
            ),
            r is Ok ==> forall|k: int|
                0 <= k < old(dst)@.len() && #[trigger] final(dst)@[k] != old(dst)@[k] ==> k / (
                old(self).spec_width() * 3) + old(self).spec_band().first == old(self).next_row(),
            r is Ok && holds_rows(old(dst)@, old(self).received()) ==> holds_rows(
                final(dst)@,
                final(self).received(),
            ),
            r is Err ==> *final(self) == *old(self) && final(dst)@ == old(dst)@,
            r is Err ==> r == Err::<(), ProtocolError>(ProtocolError::WrongResultHeader) || r == Err::<
                (),
                ProtocolError,
            >(ProtocolError::WrongResultLength),
    {
        let rel = self.next - self.band.first;
        proof {
            lemma_row_fits(rel as int, (self.band.end - self.band.first) as int, self.width as int);
        }
        let ghost before = dst@;
        let res = store_result(payload, self.width, dst, rel);
        match res {
            Ok(()) => {
                let ghost px = result_pixels(payload@);
                proof {
                    lemma_row_extends(before, self.received@, self.width as int, rel as int, px);
                    self.received@.lemma_flatten_push(px);
                }
                proof {
                    lemma_only_row_changes(before, dst@, self.width as int, rel as int, px);
                }
                let ghost old_rows = self.rows_written();
                self.received = Ghost(self.received@.push(px));
                self.next = self.next + 1;
                assert(self.rows_written() == old_rows.insert(self.next - 1));
                Ok(())
            },
            Err(e) => Err(e),
        }
    }
}

impl BandRender {
    /// Once every row of the band came back, a slice that held the rows as
    /// they arrived is exactly those rows, one after the other.
    pub proof fn lemma_finished_slice(&self, dst: Seq<u8>)
        requires
            self.wf(),
            self.next_row() == self.spec_band().end,
            dst.len() == self.slice_len(),
            holds_rows(dst, self.received()),
        ensures
            dst == self.received().flatten(),
            self.received().len() == self.spec_band().end - self.spec_band().first,
    {
        lemma_flatten_len(self.received@, self.width as int);
        assert(dst.subrange(0, dst.len() as int) == dst);
    }
}

/// Any buffer starts with no rows at all.
pub proof fn lemma_holds_no_rows(buf: Seq<u8>)
    ensures
        holds_rows(buf, Seq::<Seq<u8>>::empty()),
{
    assert(Seq::<Seq<u8>>::empty().flatten() == Seq::<u8>::empty());
    assert(buf.subrange(0, 0) == Seq::<u8>::empty());
}

proof fn lemma_only_row_changes(before: Seq<u8>, after: Seq<u8>, width: int, rel: int, px: Seq<u8>)
    requires
        width >= 0,
        rel >= 0,
        px.len() == width * 3,
        (rel + 1) * width * 3 <= before.len(),
        after == with_row(before, width, rel, px),
    ensures
        forall|k: int|
            0 <= k < before.len() && #[trigger] after[k] != before[k] ==> k / (width * 3) == rel,
{
    assert(rel * width * 3 + width * 3 == (rel + 1) * width * 3 && rel * width * 3 >= 0) by (nonlinear_arith)
        requires
            rel >= 0,
            width >= 0,
    ;
    assert forall|k: int| 0 <= k < before.len() && #[trigger] after[k] != before[k] implies k / (width
        * 3) == rel by {
        assert(rel * width * 3 <= k < (rel + 1) * width * 3);
        assert(width * 3 > 0);
        assert(rel * (width * 3) <= k < (rel + 1) * (width * 3)) by (nonlinear_arith)
            requires
                rel * width * 3 <= k < (rel + 1) * width * 3,
        ;
        vstd::arithmetic::div_mod::lemma_fundamental_div_mod(k, width * 3);
        vstd::arithmetic::div_mod::lemma_mod_bound(k, width * 3);
        let q = k / (width * 3);
        assert(q == rel) by (nonlinear_arith)
            requires
                k == (width * 3) * q + k % (width * 3),
                0 <= k % (width * 3) < width * 3,
                rel * (width * 3) <= k < (rel + 1) * (width * 3),
                width * 3 > 0,
        ;
    }
}

proof fn lemma_row_fits(rel: int, rows: int, width: int)
    requires
        0 <= rel < rows,
        width >= 0,
    ensures
        (rel + 1) * width * 3 <= rows * width * 3,
{
    assert((rel + 1) * width * 3 <= rows * width * 3) by (nonlinear_arith)
        requires
            0 <= rel < rows,
            width >= 0,
    ;
}

/// Rows of equal length `width * 3` laid end to end take `count * width * 3` bytes.
pub proof fn lemma_flatten_len(rows: Seq<Seq<u8>>, width: int)
    requires
        forall|k: int| 0 <= k < rows.len() ==> (#[trigger] rows[k]).len() == width * 3,
    ensures
        rows.flatten().len() == rows.len() * width * 3,
    decreases rows.len(),
{
    if rows.len() > 0 {
        let init = rows.drop_last();
        assert(rows == init.push(rows.last()));
        lemma_flatten_len(init, width);
        init.lemma_flatten_push(rows.last());
        assert(init.len() * width * 3 + width * 3 == rows.len() * width * 3) by (nonlinear_arith)
            requires
                init.len() + 1 == rows.len(),
        ;
    }
}

proof fn lemma_row_extends(buf: Seq<u8>, rows: Seq<Seq<u8>>, width: int, rel: int, px: Seq<u8>)
    requires
        rows.len() == rel,
        forall|k: int| 0 <= k < rows.len() ==> (#[trigger] rows[k]).len() == width * 3,
        px.len() == width * 3,
        (rel + 1) * width * 3 <= buf.len(),
        width >= 0,
        rel >= 0,
    ensures
        holds_rows(buf, rows) ==> holds_rows(with_row(buf, width, rel, px), rows.push(px)),
{
    lemma_flatten_len(rows, width);
    rows.lemma_flatten_push(px);
    assert(rel * width * 3 + width * 3 == (rel + 1) * width * 3) by (nonlinear_arith);
    assert(rel * width * 3 >= 0) by (nonlinear_arith)
        requires
            rel >= 0,
            width >= 0,
    ;
    let after = with_row(buf, width, rel, px);
    if holds_rows(buf, rows) {
        assert(after.subrange(0, (rel + 1) * width * 3) == rows.flatten() + px);
    }
}

} // verus!

verus! {

/// Worker `i`'s slice of `frame` holds the rows of its band, in order.
pub open spec fn band_holds_rows(
    frame: Seq<u8>,
    rows: Seq<Seq<u8>>,
    width: int,
    height: int,
    workers: int,
    i: int,
) -> bool {
    frame.subrange(band_first(i, workers, height) * width * 3, band_end(i, workers, height) * width * 3)
        == rows.subrange(band_first(i, workers, height), band_end(i, workers, height)).flatten()
}

proof fn lemma_band_order(i: int, workers: int, height: int)
    requires
        workers >= 1,
        height >= 0,
        i >= 0,
    ensures
        band_first(0, workers, height) == 0,
        band_first(i, workers, height) <= band_end(i, workers, height) <= height,
        band_first(i + 1, workers, height) == band_end(i, workers, height),
        band_first(workers, workers, height) == height,
{
    lemma_ceil_div_bounds(height, workers);
    let bh = band_height(height, workers);
    assert(i * bh <= (i + 1) * bh) by (nonlinear_arith)
        requires
            bh >= 0,
    ;
    assert(workers * bh == bh * workers) by (nonlinear_arith);
}

proof fn lemma_prefix_assembled(
    frame: Seq<u8>,
    rows: Seq<Seq<u8>>,
    width: int,
    height: int,
    workers: int,
    m: int,
)
    requires
        workers >= 1,
        height >= 0,
        width >= 0,
        0 <= m <= workers,
        rows.len() == height,
        forall|k: int| 0 <= k < rows.len() ==> (#[trigger] rows[k]).len() == width * 3,
        frame.len() == height * width * 3,
        forall|i: int|
            0 <= i < workers ==> #[trigger] band_holds_rows(frame, rows, width, height, workers, i),
    ensures
        frame.subrange(0, band_first(m, workers, height) * width * 3) == rows.subrange(
            0,
            band_first(m, workers, height),
        ).flatten(),
    decreases m,
{
    lemma_band_order(m, workers, height);
    if m == 0 {
        assert(rows.subrange(0, 0) == Seq::<Seq<u8>>::empty());
    } else {
        let i = m - 1;
        lemma_prefix_assembled(frame, rows, width, height, workers, i);
        lemma_band_order(i, workers, height);
        let f = band_first(i, workers, height);
        let e = band_end(i, workers, height);
        assert(band_holds_rows(frame, rows, width, height, workers, i));
        assert(0 <= f * width * 3 <= e * width * 3 <= height * width * 3) by (nonlinear_arith)
            requires
                0 <= f <= e <= height,
                width >= 0,
        ;
        assert(rows.subrange(0, e) == rows.subrange(0, f) + rows.subrange(f, e));
        vstd::seq_lib::lemma_flatten_concat(rows.subrange(0, f), rows.subrange(f, e));
        assert(frame.subrange(0, e * width * 3) == frame.subrange(0, f * width * 3) + frame.subrange(
            f * width * 3,
            e * width * 3,
        ));
    }
}

/// When each worker's slice of the frame holds the rows it was sent, in
/// order, the frame is all the rows laid end to end, top row first.
pub proof fn lemma_bands_assemble_frame(
    frame: Seq<u8>,
    rows: Seq<Seq<u8>>,
    width: int,
    height: int,
    workers: int,
)
    requires
        workers >= 1,
        height >= 0,
        width >= 0,
        rows.len() == height,
        forall|k: int| 0 <= k < rows.len() ==> (#[trigger] rows[k]).len() == width * 3,
        frame.len() == height * width * 3,
        forall|i: int|
            0 <= i < workers ==> #[trigger] band_holds_rows(frame, rows, width, height, workers, i),
    ensures
        frame == rows.flatten(),
{
    lemma_prefix_assembled(frame, rows, width, height, workers, workers);
    lemma_band_order(0, workers, height);
    assert(rows.subrange(0, height) == rows);
    assert(frame.subrange(0, height * width * 3) == frame);
}

} // verus!

verus! {

/// A frame rendered by stub workers that answer row `y` with the pixels
/// `rows[y]`: when every worker's task has finished its band, having received
/// the rows of that band in order, and its slice of the frame (the chunk of
/// `band_stride` bytes it was handed) holds what it received, the frame is the
/// rows laid end to end, top row first.
pub proof fn lemma_finished_tasks_form_frame(
    frame: Seq<u8>,
    tasks: Seq<BandRender>,
    rows: Seq<Seq<u8>>,
    width: int,
    height: int,
    workers: int,
)
    requires
        workers >= 1,
        height >= 0,
        width >= 0,
        rows.len() == height,
        forall|k: int| 0 <= k < rows.len() ==> (#[trigger] rows[k]).len() == width * 3,
        frame.len() == height * width * 3,
        tasks.len() == workers,
        forall|i: int|
            0 <= i < workers ==> {
                let t = #[trigger] tasks[i];
                let f = band_first(i, workers, height);
                let e = band_end(i, workers, height);
                &&& t.wf()
                &&& t.spec_width() == width
                &&& t.spec_band().first == f
                &&& t.spec_band().end == e
                &&& t.next_row() == e
                &&& t.received() == rows.subrange(f, e)
                &&& holds_rows(frame.subrange(f * width * 3, e * width * 3), t.received())
            },
    ensures
        frame == rows.flatten(),
{
    assert forall|i: int| 0 <= i < workers implies #[trigger] band_holds_rows(
        frame,
        rows,
        width,
        height,
        workers,
        i,
    ) by {
        let t = tasks[i];
        let f = band_first(i, workers, height);
        let e = band_end(i, workers, height);
        lemma_band_order(i, workers, height);
        assert(0 <= f * width * 3 <= e * width * 3 <= height * width * 3 && (e - f) * width * 3 == e
            * width * 3 - f * width * 3) by (nonlinear_arith)
            requires
                0 <= f <= e <= height,
                width >= 0,
        ;
        t.lemma_finished_slice(frame.subrange(f * width * 3, e * width * 3));
    }
    lemma_bands_assemble_frame(frame, rows, width, height, workers);
}

} // verus!

verus! {

/// A task that received rows `first..next` of `rows` and then takes the reply
/// `rows[next]` for row `next` has received rows `first..next + 1`: stub
/// replies taken in ask order leave a task holding its band's rows in order.
pub proof fn lemma_stub_reply_extends(rows: Seq<Seq<u8>>, first: int, next: int)
    requires
        0 <= first <= next < rows.len(),
    ensures
        rows.subrange(first, next).push(rows[next]) == rows.subrange(first, next + 1),
{
    assert(rows.subrange(first, next).push(rows[next]) =~= rows.subrange(first, next + 1));
}

} // verus!
