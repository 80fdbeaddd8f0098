//! The display driver's bus serializer: translates display commands into an
//! exact, bounded sequence of bus transactions (command bytes, data bytes,
//! chip-select and reset edges, settle delays), chunking payloads to the
//! DMA transfer limit.
//!
//! The functions here only plan the traffic; the surrounding runtime owns the
//! bus peripheral and performs each transaction in order.

use vstd::prelude::*;

use crate::geom::{spec_ordered, Point, Rect};

verus! {

/// The largest byte count one DMA transfer can move.
pub const EASY_DMA_SIZE: usize = 255;

/// The panel's video memory is taller than the visible area; drawing is
/// offset on one axis so that it lands on the visible part.
pub const SCROLL_OFFSET: u16 = 80;

/// Screen width in pixels.
pub const DISPLAY_WIDTH: u16 = 240;

/// Screen height in pixels.
pub const DISPLAY_HEIGHT: u16 = 240;

/// Total scan lines of the panel's video memory; the vertical-scroll-region
/// fields must sum to this.
pub const PANEL_LINES: u16 = 320;

/// One bus transaction, in the order the runtime must perform them.
#[derive(Debug, PartialEq, Eq)]
pub enum BusOp {
    /// One instruction byte, sent with the data/command pin low.
    Command(u8),
    /// Parameter or pixel bytes, sent with the data/command pin high;
    /// never longer than `EASY_DMA_SIZE`.
    Data(Vec<u8>),
    /// Drive the reset pin high / low.
    ResetHigh,
    ResetLow,
    /// Drive chip-select low (start of transfer) / high (end of transfer).
    SelectChip,
    DeselectChip,
    /// Let the panel settle for this many microseconds.
    DelayMicros(u64),
    /// Drive the backlight pins: at most one of (low, mid, high) is high.
    /// A pin action, not bus traffic, but ordered with the rest.
    SetBacklightPins(bool, bool, bool),
}

/// The mathematical shape of one bus transaction.
pub enum OpModel {
    Command(u8),
    Data(Seq<u8>),
    ResetHigh,
    ResetLow,
    SelectChip,
    DeselectChip,
    DelayMicros(u64),
    SetBacklightPins(bool, bool, bool),
}

/// The shape of a transaction: a `Data` op is its byte sequence.
pub open spec fn op_model(op: BusOp) -> OpModel {
    match op {
        BusOp::Command(c) => OpModel::Command(c),
        BusOp::Data(d) => OpModel::Data(d@),
        BusOp::ResetHigh => OpModel::ResetHigh,
        BusOp::ResetLow => OpModel::ResetLow,
        BusOp::SelectChip => OpModel::SelectChip,
        BusOp::DeselectChip => OpModel::DeselectChip,
        BusOp::DelayMicros(us) => OpModel::DelayMicros(us),
        BusOp::SetBacklightPins(low, mid, high) => OpModel::SetBacklightPins(low, mid, high),
    }
}

/// The shape of a whole plan.
pub open spec fn ops_model(ops: Seq<BusOp>) -> Seq<OpModel> {
    ops.map_values(|op: BusOp| op_model(op))
}

/// Every `Data` transaction fits one DMA transfer.
pub open spec fn chunks_bounded(ops: Seq<BusOp>) -> bool {
    forall|k: int|
        0 <= k < ops.len() ==> ((#[trigger] ops[k]) matches BusOp::Data(d) ==> d@.len()
            <= EASY_DMA_SIZE)
}

/// Every data transaction shape fits one DMA transfer.
pub open spec fn models_bounded(ms: Seq<OpModel>) -> bool {
    forall|k: int|
        0 <= k < ms.len() ==> ((#[trigger] ms[k]) matches OpModel::Data(d) ==> d.len()
            <= EASY_DMA_SIZE)
}

/// A payload split into DMA-sized `Data` transactions: full chunks of
/// `EASY_DMA_SIZE` bytes, then one final chunk with the remainder.
pub open spec fn chunk_models(data: Seq<u8>) -> Seq<OpModel>
    decreases data.len(),
{
    if data.len() == 0 {
        Seq::<OpModel>::empty()
    } else if data.len() <= EASY_DMA_SIZE {
        seq![OpModel::Data(data)]
    } else {
        seq![OpModel::Data(data.take(EASY_DMA_SIZE as int))] + chunk_models(
            data.skip(EASY_DMA_SIZE as int),
        )
    }
}

/// The bytes a sequence of transaction shapes writes while the
/// data/command pin is high, in order.
pub open spec fn payload_of(ms: Seq<OpModel>) -> Seq<u8>
    decreases ms.len(),
{
    if ms.len() == 0 {
        Seq::<u8>::empty()
    } else {
        payload_of(ms.drop_last()) + (match ms.last() {
            OpModel::Data(d) => d,
            _ => Seq::<u8>::empty(),
        })
    }
}

/// Chunking loses and duplicates nothing: the data transactions of
/// `chunk_models(data)` carry exactly `data`, in order.
pub proof fn lemma_chunks_carry_payload(data: Seq<u8>)
    ensures
        payload_of(chunk_models(data)) == data,
    decreases data.len(),
{
    if data.len() == 0 {
        assert(payload_of(chunk_models(data)) =~= data);
    } else if data.len() <= EASY_DMA_SIZE {
        lemma_payload_single(data);
    } else {
        let head = data.take(EASY_DMA_SIZE as int);
        let tail = data.skip(EASY_DMA_SIZE as int);
        lemma_chunks_carry_payload(tail);
        lemma_payload_concat(seq![OpModel::Data(head)], chunk_models(tail));
        lemma_payload_single(head);
        assert(head + tail =~= data);
    }
}

/// A single data transaction carries exactly its bytes.
proof fn lemma_payload_single(d: Seq<u8>)
    ensures
        payload_of(seq![OpModel::Data(d)]) == d,
{
    let ms = seq![OpModel::Data(d)];
    assert(ms.last() == OpModel::Data(d));
    assert(ms.drop_last() =~= Seq::<OpModel>::empty());
    assert(payload_of(ms.drop_last()) =~= Seq::<u8>::empty());
    assert(payload_of(ms) =~= d);
}

/// The payload of concatenated plans is the concatenation of the payloads.
pub proof fn lemma_payload_concat(a: Seq<OpModel>, b: Seq<OpModel>)
    ensures
        payload_of(a + b) == payload_of(a) + payload_of(b),
    decreases b.len(),
{
    if b.len() == 0 {
        assert(a + b =~= a);
        assert(payload_of(a) + payload_of(b) =~= payload_of(a));
    } else {
        lemma_payload_concat(a, b.drop_last());
        assert((a + b).drop_last() =~= a + b.drop_last());
        assert((a + b).last() == b.last());
        assert(payload_of(a) + payload_of(b.drop_last()) + (match b.last() {
            OpModel::Data(d) => d,
            _ => Seq::<u8>::empty(),
        }) =~= payload_of(a) + payload_of(b));
    }
}

/// Why a display command was rejected before any bus traffic.
#[derive(Debug, Copy, Clone, PartialEq, Eq, Structural)]
pub enum DisplayError {
    /// A rectangle's coordinates leave the panel's addressable 16-bit range.
    RectOutOfRange,
    /// A rectangle's edges are out of order.
    RectMalformed,
    /// A draw was requested while the display is powered off.
    NotPoweredOn,
    /// An image payload does not match its header, or the scale is zero.
    ImageMalformed,
}

/// The two big-endian bytes of a 16-bit value.
pub fn be16(x: u16) -> (r: (u8, u8))
    ensures
        r.0 == x / 256,
        r.1 == x % 256,
{
    proof {
        assert((x >> 8u16) == x / 256) by (bit_vector);
        assert((x & 0xff) == x % 256) by (bit_vector);
    }
    ((x >> 8) as u8, (x & 0xff) as u8)
}

/// Append the payload to the plan as DMA-sized `Data` transactions.
fn push_chunks(ops: &mut Vec<BusOp>, data: &Vec<u8>)
    ensures
        ops_model(final(ops)@) == ops_model(old(ops)@) + chunk_models(data@),
{
    let ghost all = data@;
    let mut pos: usize = 0;
    proof {
        assert(all.skip(0) =~= all);
        assert(ops_model(ops@) + chunk_models(all.skip(0)) =~= ops_model(ops@) + chunk_models(
            all,
        ));
    }
    while pos < data.len()
        invariant
            0 <= pos <= data.len(),
            all == data@,
            ops_model(ops@) + chunk_models(all.skip(pos as int)) == ops_model(old(ops)@)
                + chunk_models(all),
        decreases data.len() - pos,
    {
        let remaining = data.len() - pos;
        let step = if remaining > EASY_DMA_SIZE {
            EASY_DMA_SIZE
        } else {
            remaining
        };
        let mut chunk: Vec<u8> = Vec::new();
        let mut j: usize = 0;
        while j < step
            invariant
                0 <= j <= step,
                pos + step <= data.len(),
                all == data@,
                chunk@ == all.subrange(pos as int, pos + j),
            decreases step - j,
        {
            chunk.push(data[pos + j]);
            proof {
                assert(chunk@ =~= all.subrange(pos as int, pos + j + 1));
            }
            j = j + 1;
        }
        let ghost rest = all.skip(pos as int);
        proof {
            assert(rest.len() == all.len() - pos);
            if rest.len() <= EASY_DMA_SIZE {
                assert(chunk@ =~= rest);
            } else {
                assert(chunk@ =~= rest.take(EASY_DMA_SIZE as int));
            }
        }
        ops.push(BusOp::Data(chunk));
        pos = pos + step;
        proof {
            let prev_ops = ops@.drop_last();
            assert(ops_model(ops@) =~= ops_model(prev_ops).push(op_model(ops@.last())));
            if rest.len() <= EASY_DMA_SIZE {
                assert(chunk_models(rest) =~= seq![OpModel::Data(rest)]);
                assert(all.skip(pos as int).len() == 0);
                assert(chunk_models(all.skip(pos as int)) =~= Seq::<OpModel>::empty());
            } else {
                assert(rest.skip(EASY_DMA_SIZE as int) =~= all.skip(pos as int));
            }
            assert(ops_model(ops@) + chunk_models(all.skip(pos as int)) =~= ops_model(old(ops)@)
                + chunk_models(all));
        }
    }
    proof {
        assert(all.skip(data@.len() as int).len() == 0);
        assert(chunk_models(all.skip(data@.len() as int)) =~= Seq::<OpModel>::empty());
        assert(ops_model(ops@) =~= ops_model(ops@) + chunk_models(all.skip(data@.len() as int)));
    }
}

// ST7789 instruction bytes (the ones this driver uses).
pub const SOFTWARE_RESET: u8 = 0x01;
pub const SLEEP_IN: u8 = 0x10;
pub const SLEEP_OUT: u8 = 0x11;
pub const NORMAL_MODE_ON: u8 = 0x13;
pub const DISPLAY_INVERSION_OFF: u8 = 0x20;
pub const DISPLAY_INVERSION_ON: u8 = 0x21;
pub const DISPLAY_ON: u8 = 0x29;
pub const COLUMN_ADDRESS_SET: u8 = 0x2A;
pub const ROW_ADDRESS_SET: u8 = 0x2B;
pub const WRITE_TO_RAM: u8 = 0x2C;
pub const VERTICAL_SCROLLING_DEFINITION: u8 = 0x33;
pub const MEMORY_DATA_ACCESS_CONTROL: u8 = 0x36;
pub const VERTICAL_SCROLL_START_ADDRESS: u8 = 0x37;
pub const INTERFACE_PIXEL_FORMAT: u8 = 0x3A;

/// High big-endian byte of a 16-bit value.
pub open spec fn be_hi(x: int) -> u8 {
    (x / 256) as u8
}

/// Low big-endian byte of a 16-bit value.
pub open spec fn be_lo(x: int) -> u8 {
    (x % 256) as u8
}

/// The transactions that program the panel's address window: a column range
/// and a row range, each as big-endian 16-bit start/end pairs, end inclusive
/// on the wire. The fixed scroll offset is added to the column axis so the
/// write lands on the visible part of the panel's memory.
pub open spec fn address_window_models(sx: int, sy: int, ex: int, ey: int) -> Seq<OpModel> {
    seq![
        OpModel::Command(COLUMN_ADDRESS_SET),
        OpModel::Data(
            seq![
                be_hi(sx + SCROLL_OFFSET),
                be_lo(sx + SCROLL_OFFSET),
                be_hi(ex + SCROLL_OFFSET),
                be_lo(ex + SCROLL_OFFSET),
            ],
        ),
        OpModel::Command(ROW_ADDRESS_SET),
        OpModel::Data(seq![be_hi(sy), be_lo(sy), be_hi(ey), be_lo(ey)]),
    ]
}

/// Append the address-window transactions for the given start/end
/// coordinates (end inclusive).
fn set_address_window(ops: &mut Vec<BusOp>, sx: u16, sy: u16, ex: u16, ey: u16)
    requires
        sx + SCROLL_OFFSET <= u16::MAX,
        ex + SCROLL_OFFSET <= u16::MAX,
    ensures
        ops_model(final(ops)@) == ops_model(old(ops)@) + address_window_models(
            sx as int,
            sy as int,
            ex as int,
            ey as int,
        ),
{
    let (cx0h, cx0l) = be16(sx + SCROLL_OFFSET);
    let (cx1h, cx1l) = be16(ex + SCROLL_OFFSET);
    let (ry0h, ry0l) = be16(sy);
    let (ry1h, ry1l) = be16(ey);
    ops.push(BusOp::Command(COLUMN_ADDRESS_SET));
    let mut col: Vec<u8> = Vec::new();
    col.push(cx0h);
    col.push(cx0l);
    col.push(cx1h);
    col.push(cx1l);
    proof {
        assert(col@ =~= seq![
            be_hi(sx + SCROLL_OFFSET),
            be_lo(sx + SCROLL_OFFSET),
            be_hi(ex + SCROLL_OFFSET),
            be_lo(ex + SCROLL_OFFSET),
        ]);
    }
    ops.push(BusOp::Data(col));
    ops.push(BusOp::Command(ROW_ADDRESS_SET));
    let mut row: Vec<u8> = Vec::new();
    row.push(ry0h);
    row.push(ry0l);
    row.push(ry1h);
    row.push(ry1l);
    proof {
        assert(row@ =~= seq![be_hi(sy as int), be_lo(sy as int), be_hi(ey as int), be_lo(ey as int)]);
    }
    ops.push(BusOp::Data(row));
    proof {
        assert(ops_model(ops@) =~= ops_model(old(ops)@) + address_window_models(
            sx as int,
            sy as int,
            ex as int,
            ey as int,
        ));
    }
}

/// The whole plan for one rectangular write: select the chip, program the
/// address window (converting the half-open rectangle to the wire's
/// inclusive ends), issue the RAM write, stream the payload in DMA-sized
/// chunks, deselect the chip.
pub open spec fn draw_rect_models(area: Rect, payload: Seq<u8>) -> Seq<OpModel> {
    let ex = if spec_rect_empty_wire(area) {
        area.x0 as int
    } else {
        area.x1 - 1
    };
    let ey = if spec_rect_empty_wire(area) {
        area.y0 as int
    } else {
        area.y1 - 1
    };
    seq![OpModel::SelectChip] + address_window_models(area.x0 as int, area.y0 as int, ex, ey)
        + seq![OpModel::Command(WRITE_TO_RAM)] + chunk_models(payload) + seq![
        OpModel::DeselectChip,
    ]
}

/// A rectangle with no pixels keeps its top-left corner as the wire end.
pub open spec fn spec_rect_empty_wire(area: Rect) -> bool {
    area.x0 == area.x1 || area.y0 == area.y1
}

/// Whether a rectangle may be sent to the panel at all.
pub open spec fn spec_rect_addressable(area: Rect) -> bool {
    spec_ordered(area) && area.x0 >= 0 && area.y0 >= 0
}

/// Plan a rectangular write of the given payload bytes. Rejects, before any
/// bus traffic, a rectangle with edges out of order or with negative
/// coordinates (the panel addresses an unsigned 16-bit range).
pub fn draw_rect_ops(area: Rect, data: &Vec<u8>) -> (r: Result<Vec<BusOp>, DisplayError>)
    ensures
        r is Ok <==> spec_rect_addressable(area),
        r matches Ok(ops) ==> ops_model(ops@) == draw_rect_models(area, data@),
        r matches Ok(ops) ==> chunks_bounded(ops@),
        !spec_ordered(area) ==> r == Result::<Vec<BusOp>, DisplayError>::Err(
            DisplayError::RectMalformed,
        ),
        spec_ordered(area) && (area.x0 < 0 || area.y0 < 0) ==> r == Result::<
            Vec<BusOp>,
            DisplayError,
        >::Err(DisplayError::RectOutOfRange),
{
    if area.x0() > area.x1() || area.y0() > area.y1() {
        return Err(DisplayError::RectMalformed);
    }
    if area.x0() < 0 || area.y0() < 0 {
        return Err(DisplayError::RectOutOfRange);
    }
    let empty = area.x0() == area.x1() || area.y0() == area.y1();
    let ex: u16 = if empty {
        area.x0() as u16
    } else {
        (area.x1() - 1) as u16
    };
    let ey: u16 = if empty {
        area.y0() as u16
    } else {
        (area.y1() - 1) as u16
    };
    let mut ops: Vec<BusOp> = Vec::new();
    ops.push(BusOp::SelectChip);
    proof {
        assert(ops_model(ops@) =~= seq![OpModel::SelectChip]);
    }
    set_address_window(&mut ops, area.x0() as u16, area.y0() as u16, ex, ey);
    proof {
        assert(ex as int == (if spec_rect_empty_wire(area) {
            area.x0 as int
        } else {
            area.x1 - 1
        }));
        assert(ey as int == (if spec_rect_empty_wire(area) {
            area.y0 as int
        } else {
            area.y1 - 1
        }));
    }
    let ghost g2 = ops_model(ops@);
    ops.push(BusOp::Command(WRITE_TO_RAM));
    proof {
        assert(ops_model(ops@) =~= g2.push(OpModel::Command(WRITE_TO_RAM)));
    }
    push_chunks(&mut ops, data);
    let ghost g4 = ops_model(ops@);
    ops.push(BusOp::DeselectChip);
    proof {
        assert(ops_model(ops@) =~= g4.push(OpModel::DeselectChip));
        assert(ops_model(ops@) =~= draw_rect_models(area, data@));
        lemma_draw_rect_models_bounded(area, data@);
        lemma_bounded_plan(ops@);
    }
    Ok(ops)
}

/// The number of pixels a rectangle covers.
pub open spec fn rect_pixels(area: Rect) -> int {
    (area.x1 - area.x0) * (area.y1 - area.y0)
}

/// One color repeated over every pixel of a rectangle, two big-endian bytes
/// per pixel.
pub open spec fn color_payload(area: Rect, color: u16) -> Seq<u8> {
    Seq::new(
        (2 * rect_pixels(area)) as nat,
        |k: int|
            if k % 2 == 0 {
                be_hi(color as int)
            } else {
                be_lo(color as int)
            },
    )
}

/// Plan filling a rectangle with one color: the payload is the color's two
/// big-endian bytes repeated for each pixel.
pub fn draw_rect_color(area: Rect, color: u16) -> (r: Result<Vec<BusOp>, DisplayError>)
    ensures
        r is Ok <==> spec_rect_addressable(area),
        r matches Ok(ops) ==> ops_model(ops@) == draw_rect_models(area, color_payload(area, color)),
        r matches Ok(ops) ==> chunks_bounded(ops@),
        !spec_ordered(area) ==> r == Result::<Vec<BusOp>, DisplayError>::Err(
            DisplayError::RectMalformed,
        ),
        spec_ordered(area) && (area.x0 < 0 || area.y0 < 0) ==> r == Result::<
            Vec<BusOp>,
            DisplayError,
        >::Err(DisplayError::RectOutOfRange),
{
    if area.x0() > area.x1() || area.y0() > area.y1() {
        return Err(DisplayError::RectMalformed);
    }
    if area.x0() < 0 || area.y0() < 0 {
        return Err(DisplayError::RectOutOfRange);
    }
    let w: usize = (area.x1() as i32 - area.x0() as i32) as usize;
    let h: usize = (area.y1() as i32 - area.y0() as i32) as usize;
    proof {
        assert(w * h == rect_pixels(area) && w * h <= 0xffff * 0xffff) by (nonlinear_arith)
            requires
                w == area.x1 - area.x0,
                h == area.y1 - area.y0,
                0 <= w <= 0xffff,
                0 <= h <= 0xffff,
        ;
    }
    let npix: usize = w * h;
    let (hi, lo) = be16(color);
    let mut payload: Vec<u8> = Vec::new();
    let mut i: usize = 0;
    while i < npix
        invariant
            0 <= i <= npix,
            payload@.len() == 2 * i,
            forall|k: int|
                0 <= k < payload@.len() ==> payload@[k] == (if k % 2 == 0 {
                    be_hi(color as int)
                } else {
                    be_lo(color as int)
                }),
            hi == be_hi(color as int),
            lo == be_lo(color as int),
        decreases npix - i,
    {
        payload.push(hi);
        payload.push(lo);
        i = i + 1;
    }
    proof {
        assert(payload@ =~= color_payload(area, color));
    }
    draw_rect_ops(area, &payload)
}

/// How the panel maps memory to pixels: column scan direction.
#[derive(Debug, Copy, Clone, PartialEq, Eq, Structural)]
pub enum ColDir {
    TopToBottom,
    BottomToTop,
}

/// How the panel maps memory to pixels: row scan direction.
#[derive(Debug, Copy, Clone, PartialEq, Eq, Structural)]
pub enum RowDir {
    LeftToRight,
    RightToLeft,
}

/// Color component order on the wire.
#[derive(Debug, Copy, Clone, PartialEq, Eq, Structural)]
pub enum ColorOrder {
    Rgb,
    Bgr,
}

/// The memory-data-access-control byte: one flag bit per axis/order choice.
pub open spec fn spec_mdac_byte(
    page_address_order: ColDir,
    column_address_order: RowDir,
    page_col_order_reverse: bool,
    line_address_order: ColDir,
    color_order: ColorOrder,
    display_data_latch_order: RowDir,
) -> u8 {
    ((if page_address_order is BottomToTop {
        0x80u8
    } else {
        0u8
    }) | (if column_address_order is RightToLeft {
        0x40u8
    } else {
        0u8
    }) | (if page_col_order_reverse {
        0x20u8
    } else {
        0u8
    }) | (if line_address_order is BottomToTop {
        0x10u8
    } else {
        0u8
    }) | (if color_order is Bgr {
        0x08u8
    } else {
        0u8
    }) | (if display_data_latch_order is RightToLeft {
        0x04u8
    } else {
        0u8
    })) as u8
}

/// Compute the memory-data-access-control byte from the axis and color
/// order flags.
pub fn mdac_byte(
    page_address_order: ColDir,
    column_address_order: RowDir,
    page_col_order_reverse: bool,
    line_address_order: ColDir,
    color_order: ColorOrder,
    display_data_latch_order: RowDir,
) -> (b: u8)
    ensures
        b == spec_mdac_byte(
            page_address_order,
            column_address_order,
            page_col_order_reverse,
            line_address_order,
            color_order,
            display_data_latch_order,
        ),
{
    let b0: u8 = if matches!(page_address_order, ColDir::BottomToTop) {
        0x80
    } else {
        0
    };
    let b1: u8 = if matches!(column_address_order, RowDir::RightToLeft) {
        0x40
    } else {
        0
    };
    let b2: u8 = if page_col_order_reverse {
        0x20
    } else {
        0
    };
    let b3: u8 = if matches!(line_address_order, ColDir::BottomToTop) {
        0x10
    } else {
        0
    };
    let b4: u8 = if matches!(color_order, ColorOrder::Bgr) {
        0x08
    } else {
        0
    };
    let b5: u8 = if matches!(display_data_latch_order, RowDir::RightToLeft) {
        0x04
    } else {
        0
    };
    b0 | b1 | b2 | b3 | b4 | b5
}

/// The hardware reset pulse: assert, deassert, assert, with settle holds.
pub open spec fn hard_reset_models() -> Seq<OpModel> {
    seq![
        OpModel::ResetHigh,
        OpModel::DelayMicros(10),
        OpModel::ResetLow,
        OpModel::DelayMicros(10),
        OpModel::ResetHigh,
        OpModel::DelayMicros(10),
    ]
}

/// The panel wake-up sequence, in the exact order the panel requires:
/// hardware reset pulse, chip select, software reset, sleep-out,
/// pixel-format configuration, vertical-scroll-region configuration,
/// memory-access-control configuration, display inversion (a quirk of this
/// panel), normal-mode-on, display-on, chip deselect. Settle delays follow
/// each step that needs one.
pub open spec fn sleep_off_models() -> Seq<OpModel> {
    hard_reset_models() + seq![
        OpModel::SelectChip,
        OpModel::Command(SOFTWARE_RESET),
        OpModel::DelayMicros(150_000),
        OpModel::Command(SLEEP_OUT),
        OpModel::DelayMicros(10_000),
        OpModel::Command(INTERFACE_PIXEL_FORMAT),
        OpModel::Data(seq![0x55u8]),
        OpModel::Command(VERTICAL_SCROLLING_DEFINITION),
        OpModel::Data(seq![0u8, 0u8, 0x01u8, 0x40u8, 0u8, 0u8]),
        OpModel::Command(MEMORY_DATA_ACCESS_CONTROL),
        OpModel::Data(seq![0xb0u8]),
        OpModel::Command(DISPLAY_INVERSION_ON),
        OpModel::DelayMicros(10_000),
        OpModel::Command(NORMAL_MODE_ON),
        OpModel::DelayMicros(10_000),
        OpModel::Command(DISPLAY_ON),
        OpModel::DeselectChip,
    ]
}

/// The panel sleep sequence: select, sleep-in, settle, deselect.
pub open spec fn sleep_on_models() -> Seq<OpModel> {
    seq![
        OpModel::SelectChip,
        OpModel::Command(SLEEP_IN),
        OpModel::DelayMicros(10_000),
        OpModel::DeselectChip,
    ]
}

/// Plan the panel wake-up sequence.
pub fn sleep_off_ops() -> (ops: Vec<BusOp>)
    ensures
        ops_model(ops@) == sleep_off_models(),
        chunks_bounded(ops@),
{
    let mut ops: Vec<BusOp> = Vec::new();
    ops.push(BusOp::ResetHigh);
    ops.push(BusOp::DelayMicros(10));
    ops.push(BusOp::ResetLow);
    ops.push(BusOp::DelayMicros(10));
    ops.push(BusOp::ResetHigh);
    ops.push(BusOp::DelayMicros(10));
    ops.push(BusOp::SelectChip);
    ops.push(BusOp::Command(SOFTWARE_RESET));
    ops.push(BusOp::DelayMicros(150_000));
    ops.push(BusOp::Command(SLEEP_OUT));
    ops.push(BusOp::DelayMicros(10_000));
    ops.push(BusOp::Command(INTERFACE_PIXEL_FORMAT));
    let mut pf: Vec<u8> = Vec::new();
    pf.push(0x55);
    proof {
        assert(pf@ =~= seq![0x55u8]);
    }
    ops.push(BusOp::Data(pf));
    ops.push(BusOp::Command(VERTICAL_SCROLLING_DEFINITION));
    let (tfah, tfal) = be16(0);
    let (vsah, vsal) = be16(PANEL_LINES);
    let (bfah, bfal) = be16(0);
    let mut vsd: Vec<u8> = Vec::new();
    vsd.push(tfah);
    vsd.push(tfal);
    vsd.push(vsah);
    vsd.push(vsal);
    vsd.push(bfah);
    vsd.push(bfal);
    proof {
        assert(vsd@ =~= seq![0u8, 0u8, 0x01u8, 0x40u8, 0u8, 0u8]);
    }
    ops.push(BusOp::Data(vsd));
    ops.push(BusOp::Command(MEMORY_DATA_ACCESS_CONTROL));
    let mdac = mdac_byte(
        ColDir::BottomToTop,
        RowDir::LeftToRight,
        true,
        ColDir::BottomToTop,
        ColorOrder::Rgb,
        RowDir::LeftToRight,
    );
    let mut md: Vec<u8> = Vec::new();
    md.push(mdac);
    proof {
        assert((0x80u8 | 0u8 | 0x20u8 | 0x10u8 | 0u8 | 0u8) == 0xb0u8) by (bit_vector);
        assert(md@ =~= seq![0xb0u8]);
    }
    ops.push(BusOp::Data(md));
    ops.push(BusOp::Command(DISPLAY_INVERSION_ON));
    ops.push(BusOp::DelayMicros(10_000));
    ops.push(BusOp::Command(NORMAL_MODE_ON));
    ops.push(BusOp::DelayMicros(10_000));
    ops.push(BusOp::Command(DISPLAY_ON));
    ops.push(BusOp::DeselectChip);
    proof {
        assert(ops_model(ops@) =~= sleep_off_models());
        lemma_sleep_off_models_bounded();
        lemma_bounded_plan(ops@);
    }
    ops
}

/// Plan the panel sleep sequence.
pub fn sleep_on_ops() -> (ops: Vec<BusOp>)
    ensures
        ops_model(ops@) == sleep_on_models(),
        chunks_bounded(ops@),
{
    let mut ops: Vec<BusOp> = Vec::new();
    ops.push(BusOp::SelectChip);
    ops.push(BusOp::Command(SLEEP_IN));
    ops.push(BusOp::DelayMicros(10_000));
    ops.push(BusOp::DeselectChip);
    proof {
        assert(ops_model(ops@) =~= sleep_on_models());
        lemma_bounded_plan(ops@);
    }
    ops
}

/// Levels the backlight can be set to.
#[derive(Debug, Copy, Clone, PartialEq, Eq, Structural)]
pub enum Backlight {
    Off,
    Low,
    Mid,
    High,
}

/// Which of the three backlight pins each level drives: exactly one for
/// `Low`, `Mid` and `High`, none for `Off`.
pub open spec fn spec_backlight_pins(level: Backlight) -> (bool, bool, bool) {
    match level {
        Backlight::Off => (false, false, false),
        Backlight::Low => (true, false, false),
        Backlight::Mid => (false, true, false),
        Backlight::High => (false, false, true),
    }
}

/// At most one backlight pin is ever driven at a time.
pub proof fn lemma_backlight_exclusive(level: Backlight)
    ensures
        !(spec_backlight_pins(level).0 && spec_backlight_pins(level).1),
        !(spec_backlight_pins(level).0 && spec_backlight_pins(level).2),
        !(spec_backlight_pins(level).1 && spec_backlight_pins(level).2),
{
}

/// The pin states for a backlight level.
pub fn backlight_pins(level: Backlight) -> (pins: (bool, bool, bool))
    ensures
        pins == spec_backlight_pins(level),
{
    match level {
        Backlight::Off => (false, false, false),
        Backlight::Low => (true, false, false),
        Backlight::Mid => (false, true, false),
        Backlight::High => (false, false, true),
    }
}

/// The source byte that position `pos` of a nearest-neighbour-scaled image
/// reads. Pixels are two bytes; the scaled image replicates each source
/// pixel `scale` times along both axes.
pub open spec fn scaled_src_index(width: int, scale: int, pos: int) -> int {
    let p = pos / 2;
    let sw = width * scale;
    let row = p / sw;
    let col = p % sw;
    ((row / scale) * width + (col / scale)) * 2 + pos % 2
}

/// Map a position of the scaled image back to the source byte it replicates.
fn scaled_index(width: usize, height: usize, scale: usize, pos: usize) -> (idx: usize)
    requires
        1 <= width <= 255,
        1 <= height <= 255,
        1 <= scale <= 255,
        pos < 2 * ((width * scale) * (height * scale)),
    ensures
        idx == scaled_src_index(width as int, scale as int, pos as int),
        idx < 2 * (width * height),
{
    proof {
        assert(width * scale <= 65025 && height * scale <= 65025 && width * height <= 65025)
            by (nonlinear_arith)
            requires
                1 <= width <= 255,
                1 <= height <= 255,
                1 <= scale <= 255,
        ;
    }
    let p: usize = pos / 2;
    let sw: usize = width * scale;
    proof {
        vstd::arithmetic::div_mod::lemma_multiply_divide_lt(
            pos as int,
            2,
            (sw * (height * scale)) as int,
        );
        assert(2 * ((width * scale) * (height * scale)) == 2 * ((sw * (height * scale)) as int));
        assert(p < sw * (height * scale));
        vstd::arithmetic::div_mod::lemma_multiply_divide_lt(
            p as int,
            sw as int,
            (height * scale) as int,
        );
    }
    let row: usize = p / sw;
    let col: usize = p % sw;
    proof {
        assert(row < height * scale);
        assert(row < scale * (height as int) && col < sw && sw == scale * (width as int))
            by (nonlinear_arith)
            requires
                row < height * scale,
                col == p % sw,
                sw == width * scale,
                p < sw * (height * scale),
                1 <= sw,
        ;
        vstd::arithmetic::div_mod::lemma_multiply_divide_lt(row as int, scale as int, height as int);
        vstd::arithmetic::div_mod::lemma_multiply_divide_lt(col as int, scale as int, width as int);
    }
    let orow: usize = row / scale;
    let ocol: usize = col / scale;
    proof {
        assert(orow * width + ocol < width * height) by (nonlinear_arith)
            requires
                orow < height,
                ocol < width,
                1 <= width,
                1 <= height,
        ;
    }
    (orow * width + ocol) * 2 + pos % 2
}

/// Scale raw pixel bytes (two bytes per pixel, row major, `width` pixels per
/// row) by an integer factor, nearest neighbour: every output byte is the
/// source byte its position replicates.
pub fn scale_image(src: &Vec<u8>, width: u8, height: u8, scale: u8) -> (out: Vec<u8>)
    requires
        1 <= width,
        1 <= height,
        1 <= scale,
        src@.len() == 2 * (width as int) * (height as int),
        2 * ((width as int) * (scale as int)) * ((height as int) * (scale as int)) <= usize::MAX,
    ensures
        out@.len() == 2 * ((width as int) * (scale as int)) * ((height as int) * (scale as int)),
        forall|pos: int|
            0 <= pos < out@.len() ==> out@[pos] == src@[scaled_src_index(width as int, scale as int, pos)],
        forall|pos: int|
            0 <= pos < out@.len() ==> 0 <= #[trigger] scaled_src_index(width as int, scale as int, pos) < src@.len(),
{
    let w: usize = width as usize;
    let h: usize = height as usize;
    let s: usize = scale as usize;
    proof {
        assert(w * s <= 65025 && h * s <= 65025) by (nonlinear_arith)
            requires
                w <= 255,
                h <= 255,
                s <= 255,
        ;
        assert(2 * ((w * s) * (h * s)) == 2 * ((w as int) * (s as int)) * ((h as int) * (
        s as int))) by (nonlinear_arith);
    }
    let total: usize = 2 * ((w * s) * (h * s));
    let mut out: Vec<u8> = Vec::new();
    let mut pos: usize = 0;
    while pos < total
        invariant
            0 <= pos <= total,
            w == width as int && h == height as int && s == scale as int,
            1 <= w <= 255 && 1 <= h <= 255 && 1 <= s <= 255,
            total == 2 * ((w * s) * (h * s)),
            src@.len() == 2 * (w as int) * (h as int),
            out@.len() == pos,
            forall|k: int|
                0 <= k < pos ==> out@[k] == src@[scaled_src_index(w as int, s as int, k)],
            forall|k: int|
                0 <= k < pos ==> 0 <= #[trigger] scaled_src_index(w as int, s as int, k) < src@.len(),
        decreases total - pos,
    {
        let idx = scaled_index(w, h, s, pos);
        proof {
            assert(2 * (w * h) == src@.len()) by (nonlinear_arith)
                requires
                    src@.len() == 2 * (w as int) * (h as int),
            ;
        }
        out.push(src[idx]);
        pos = pos + 1;
    }
    proof {
        assert(out@.len() == 2 * ((w as int) * (s as int)) * ((h as int) * (s as int)))
            by (nonlinear_arith)
            requires
                out@.len() == 2 * ((w * s) * (h * s)),
        ;
    }
    out
}

/// A command for the display task, consumed exactly once.
#[derive(Debug)]
pub enum Cmd {
    /// Wake the display (the full panel wake-up sequence).
    SleepOff,
    /// Power down the display.
    SleepOn,
    /// Fill a rectangular area with one color (big-endian RGB565 bits).
    FillRectWithColor { area: Rect, color: u16 },
    /// Draw an image, scaled by an integer factor. The payload is
    /// `[width, height, pixel bytes...]`, two bytes per pixel.
    DrawImage { top_left: Point, image: Vec<u8>, scale: u8 },
    /// Change the backlight level.
    SetBacklight { level: Backlight },
    /// A high-level power-on indication: wake the panel, clear it to white,
    /// and flash the backlight.
    PowerOn,
}

impl Cmd {
    pub fn fill_rect_with_color(area: Rect, color: u16) -> (c: Self)
        ensures
            c == (Cmd::FillRectWithColor { area, color }),
    {
        Self::FillRectWithColor { area, color }
    }
}

/// The display's power state; drawing requires `PoweredOn`.
#[derive(Debug, Copy, Clone, PartialEq, Eq, Structural)]
pub enum PowerState {
    PoweredOff,
    PoweredOn,
}

/// An image payload is well formed when its header gives nonzero sizes and
/// exactly the pixel bytes follow, and the scale factor is nonzero.
pub open spec fn image_wf(image: Seq<u8>, scale: u8) -> bool {
    &&& scale >= 1
    &&& image.len() >= 2
    &&& image[0] >= 1
    &&& image[1] >= 1
    &&& image.len() == 2 + 2 * ((image[0] as int) * (image[1] as int))
}

/// The screen rectangle a scaled image covers from its top-left corner.
pub open spec fn image_area(top_left: Point, image: Seq<u8>, scale: u8) -> Rect {
    Rect {
        x0: top_left.x,
        y0: top_left.y,
        x1: (top_left.x + (image[0] as int) * (scale as int)) as i16,
        y1: (top_left.y + (image[1] as int) * (scale as int)) as i16,
    }
}

/// Whether a scaled image lands inside the panel's addressable coordinates.
pub open spec fn image_fits(top_left: Point, image: Seq<u8>, scale: u8) -> bool {
    &&& top_left.x >= 0
    &&& top_left.y >= 0
    &&& top_left.x + (image[0] as int) * (scale as int) <= i16::MAX
    &&& top_left.y + (image[1] as int) * (scale as int) <= i16::MAX
}

/// The pixel bytes a scaled image writes: each output byte replicates the
/// source byte that nearest-neighbour scaling maps it to. The source pixels
/// start after the two header bytes.
pub open spec fn scaled_payload(image: Seq<u8>, scale: u8) -> Seq<u8> {
    Seq::new(
        (2 * ((image[0] as int) * (scale as int)) * ((image[1] as int) * (scale as int))) as nat,
        |pos: int| image[2 + scaled_src_index(image[0] as int, scale as int, pos)],
    )
}

/// The screen-filling rectangle.
pub open spec fn full_screen() -> Rect {
    Rect { x0: 0, y0: 0, x1: DISPLAY_WIDTH as i16, y1: DISPLAY_HEIGHT as i16 }
}

/// The power-on indication: wake the panel, clear it to white, drive the
/// backlight high, hold three seconds, backlight off.
pub open spec fn power_on_models() -> Seq<OpModel> {
    sleep_off_models() + draw_rect_models(full_screen(), color_payload(full_screen(), 0xffff))
        + seq![
        OpModel::SetBacklightPins(false, false, true),
        OpModel::DelayMicros(3_000_000),
        OpModel::SetBacklightPins(false, false, false),
    ]
}

/// Whether a command can be carried out from the given power state.
pub open spec fn cmd_ok(power: PowerState, cmd: Cmd) -> bool {
    match cmd {
        Cmd::SleepOff => true,
        Cmd::SleepOn => true,
        Cmd::FillRectWithColor { area, color } => power is PoweredOn && spec_rect_addressable(
            area,
        ),
        Cmd::DrawImage { top_left, image, scale } => power is PoweredOn && image_wf(image@, scale)
            && image_fits(top_left, image@, scale),
        Cmd::SetBacklight { level } => true,
        Cmd::PowerOn => true,
    }
}

/// The exact transactions a command turns into.
pub open spec fn cmd_models(cmd: Cmd) -> Seq<OpModel> {
    match cmd {
        Cmd::SleepOff => sleep_off_models(),
        Cmd::SleepOn => sleep_on_models(),
        Cmd::FillRectWithColor { area, color } => draw_rect_models(
            area,
            color_payload(area, color),
        ),
        Cmd::DrawImage { top_left, image, scale } => draw_rect_models(
            image_area(top_left, image@, scale),
            scaled_payload(image@, scale),
        ),
        Cmd::SetBacklight { level } => seq![
            OpModel::SetBacklightPins(
                spec_backlight_pins(level).0,
                spec_backlight_pins(level).1,
                spec_backlight_pins(level).2,
            ),
        ],
        Cmd::PowerOn => power_on_models(),
    }
}

/// The power state after a command.
pub open spec fn power_after(power: PowerState, cmd: Cmd) -> PowerState {
    match cmd {
        Cmd::SleepOff => PowerState::PoweredOn,
        Cmd::SleepOn => PowerState::PoweredOff,
        Cmd::PowerOn => PowerState::PoweredOn,
        _ => power,
    }
}

/// Move every transaction of `src` onto the end of `dst`, in order.
fn append_ops(dst: &mut Vec<BusOp>, src: Vec<BusOp>)
    ensures
        final(dst)@ == old(dst)@ + src@,
{
    let ghost orig = src@;
    let mut src = src;
    proof {
        assert(dst@ + orig.take(0) =~= dst@);
    }
    let ghost mut moved: int = 0;
    while src.len() > 0
        invariant
            0 <= moved <= orig.len(),
            moved + src@.len() == orig.len(),
            src@ == orig.skip(moved),
            dst@ == old(dst)@ + orig.take(moved),
        decreases src@.len(),
    {
        let ghost pre = src@;
        let op = src.remove(0);
        dst.push(op);
        proof {
            assert(pre == orig.skip(moved));
            assert(src@ == pre.remove(0));
            assert(op == pre[0]);
            assert(pre[0] == orig[moved]);
            assert forall|j: int| 0 <= j < src@.len() implies src@[j] == orig.skip(moved + 1)[j] by {
                assert(src@[j] == pre[j + 1]);
                assert(pre[j + 1] == orig[moved + 1 + j]);
            }
            assert(src@ =~= orig.skip(moved + 1));
            assert(dst@ =~= old(dst)@ + orig.take(moved + 1));
            moved = moved + 1;
        }
    }
    proof {
        assert(old(dst)@ + orig.take(orig.len() as int) =~= old(dst)@ + orig);
    }
}

/// The display driver's state machine: it tracks the power state and turns
/// each command into the exact transaction plan the runtime must perform.
pub struct Driver {
    power: PowerState,
}

impl Driver {
    /// The current power state.
    pub closed spec fn spec_power(self) -> PowerState {
        self.power
    }

    /// A new driver; the display starts powered off.
    pub fn new() -> (d: Driver)
        ensures
            d.spec_power() == PowerState::PoweredOff,
    {
        Driver { power: PowerState::PoweredOff }
    }

    pub fn power_state(&self) -> (p: PowerState)
        ensures
            p == self.spec_power(),
    {
        self.power
    }

    /// Carry out one command: validate it against the power state and the
    /// panel's addressable range before any traffic is planned, update the
    /// power state, and hand back the exact transactions to perform.
    pub fn handle(&mut self, cmd: &Cmd) -> (r: Result<Vec<BusOp>, DisplayError>)
        ensures
            r is Ok <==> cmd_ok(old(self).spec_power(), *cmd),
            r matches Ok(ops) ==> ops_model(ops@) == cmd_models(*cmd),
            r matches Ok(ops) ==> chunks_bounded(ops@),
            r is Ok ==> final(self).spec_power() == power_after(old(self).spec_power(), *cmd),
            r is Err ==> *final(self) == *old(self),
            r == Result::<Vec<BusOp>, DisplayError>::Err(DisplayError::NotPoweredOn) <==> old(self).spec_power() is PoweredOff && (*cmd matches Cmd::FillRectWithColor { .. } || *cmd matches Cmd::DrawImage { .. }),
            old(self).spec_power() is PoweredOn && (*cmd matches Cmd::FillRectWithColor { area, .. } && !spec_ordered(area)) ==> r == Result::<Vec<BusOp>, DisplayError>::Err(DisplayError::RectMalformed),
            old(self).spec_power() is PoweredOn && (*cmd matches Cmd::FillRectWithColor { area, .. } && spec_ordered(area) && (area.x0 < 0 || area.y0 < 0)) ==> r == Result::<Vec<BusOp>, DisplayError>::Err(DisplayError::RectOutOfRange),
            old(self).spec_power() is PoweredOn && (*cmd matches Cmd::DrawImage { image, scale, .. } && !image_wf(image@, scale)) ==> r == Result::<Vec<BusOp>, DisplayError>::Err(DisplayError::ImageMalformed),
            old(self).spec_power() is PoweredOn && (*cmd matches Cmd::DrawImage { top_left, image, scale } && image_wf(image@, scale) && !image_fits(top_left, image@, scale)) ==> r == Result::<Vec<BusOp>, DisplayError>::Err(DisplayError::RectOutOfRange),
    {
        match cmd {
            Cmd::SleepOff => {
                self.power = PowerState::PoweredOn;
                Ok(sleep_off_ops())
            },
            Cmd::SleepOn => {
                self.power = PowerState::PoweredOff;
                Ok(sleep_on_ops())
            },
            Cmd::FillRectWithColor { area, color } => {
                if !matches!(self.power, PowerState::PoweredOn) {
                    return Err(DisplayError::NotPoweredOn);
                }
                draw_rect_color(*area, *color)
            },
            Cmd::DrawImage { top_left, image, scale } => {
                if !matches!(self.power, PowerState::PoweredOn) {
                    return Err(DisplayError::NotPoweredOn);
                }
                self.draw_image(*top_left, image, *scale)
            },
            Cmd::SetBacklight { level } => {
                let pins = backlight_pins(*level);
                let mut ops: Vec<BusOp> = Vec::new();
                ops.push(BusOp::SetBacklightPins(pins.0, pins.1, pins.2));
                proof {
                    assert(ops_model(ops@) =~= cmd_models(*cmd));
                    lemma_bounded_plan(ops@);
                }
                Ok(ops)
            },
            Cmd::PowerOn => {
                self.power = PowerState::PoweredOn;
                let mut ops = sleep_off_ops();
                let clear = match draw_rect_color(
                    Rect::new_unchecked(0, 0, DISPLAY_WIDTH as i16, DISPLAY_HEIGHT as i16),
                    0xffff,
                ) {
                    Ok(c) => c,
                    Err(_) => {
                        // cannot happen: the screen rectangle is addressable
                        return Err(DisplayError::RectMalformed);
                    },
                };
                append_ops(&mut ops, clear);
                ops.push(BusOp::SetBacklightPins(false, false, true));
                ops.push(BusOp::DelayMicros(3_000_000));
                ops.push(BusOp::SetBacklightPins(false, false, false));
                proof {
                    assert(ops_model(ops@) =~= power_on_models());
                    lemma_cmd_models_bounded(*cmd);
                    lemma_bounded_plan(ops@);
                }
                Ok(ops)
            },
        }
    }

    /// Plan drawing a scaled image: reject a malformed payload or one that
    /// leaves the addressable range, then write the scaled pixels into the
    /// rectangle the image covers.
    fn draw_image(&self, top_left: Point, image: &Vec<u8>, scale: u8) -> (r: Result<
        Vec<BusOp>,
        DisplayError,
    >)
        ensures
            r is Ok <==> image_wf(image@, scale) && image_fits(top_left, image@, scale),
            r matches Ok(ops) ==> ops_model(ops@) == draw_rect_models(
                image_area(top_left, image@, scale),
                scaled_payload(image@, scale),
            ),
            r matches Ok(ops) ==> chunks_bounded(ops@),
            !image_wf(image@, scale) ==> r == Result::<Vec<BusOp>, DisplayError>::Err(
                DisplayError::ImageMalformed,
            ),
            image_wf(image@, scale) && !image_fits(top_left, image@, scale) ==> r == Result::<
                Vec<BusOp>,
                DisplayError,
            >::Err(DisplayError::RectOutOfRange),
    {
        if scale < 1 || image.len() < 2 {
            return Err(DisplayError::ImageMalformed);
        }
        let w = image[0];
        let h = image[1];
        if w < 1 || h < 1 {
            return Err(DisplayError::ImageMalformed);
        }
        proof {
            assert((w as int) * (h as int) <= 65025 && (w as int) * (scale as int) <= 65025 && (
            h as int) * (scale as int) <= 65025) by (nonlinear_arith)
                requires
                    w <= 255,
                    h <= 255,
                    scale <= 255,
            ;
        }
        let wh: usize = 2 * ((w as usize) * (h as usize));
        if image.len() != 2 + wh {
            return Err(DisplayError::ImageMalformed);
        }
        let sw: usize = (w as usize) * (scale as usize);
        let sh: usize = (h as usize) * (scale as usize);
        if top_left.x < 0 || top_left.y < 0 {
            return Err(DisplayError::RectOutOfRange);
        }
        if sw > (i16::MAX as usize) - (top_left.x as usize) || sh > (i16::MAX as usize) - (
        top_left.y as usize) {
            return Err(DisplayError::RectOutOfRange);
        }
        let area = Rect::new_unchecked(
            top_left.x,
            top_left.y,
            top_left.x + sw as i16,
            top_left.y + sh as i16,
        );
        let mut pixels: Vec<u8> = Vec::new();
        let mut i: usize = 2;
        while i < image.len()
            invariant
                2 <= i <= image@.len(),
                pixels@ =~= image@.subrange(2, i as int),
            decreases image@.len() - i,
        {
            pixels.push(image[i]);
            proof {
                assert(pixels@ =~= image@.subrange(2, i as int + 1));
            }
            i = i + 1;
        }
        proof {
            assert(pixels@ =~= image@.subrange(2, image@.len() as int));
            assert(pixels@.len() == 2 * (w as int) * (h as int)) by (nonlinear_arith)
                requires
                    pixels@.len() == image@.len() - 2,
                    image@.len() == 2 + 2 * ((w as int) * (h as int)),
            ;
            assert(2 * ((w as int) * (scale as int)) * ((h as int) * (scale as int)) <= 2 * (32767
                * 32767)) by (nonlinear_arith)
                requires
                    (w as int) * (scale as int) <= 32767,
                    (h as int) * (scale as int) <= 32767,
                    w >= 1,
                    h >= 1,
                    scale >= 1,
            ;
        }
        let payload = scale_image(&pixels, w, h, scale);
        proof {
            assert forall|pos: int| 0 <= pos < payload@.len() implies payload@[pos]
                == scaled_payload(image@, scale)[pos] by {
                let idx = scaled_src_index(w as int, scale as int, pos);
                assert(payload@[pos] == pixels@[idx]);
                assert(pixels@[idx] == image@[2 + idx]);
            }
            assert(payload@ =~= scaled_payload(image@, scale));
        }
        draw_rect_ops(area, &payload)
    }
}

/// Chunking respects the DMA limit: every data transaction of
/// `chunk_models(data)` carries at most `EASY_DMA_SIZE` bytes.
pub proof fn lemma_chunk_models_bounded(data: Seq<u8>)
    ensures
        models_bounded(chunk_models(data)),
    decreases data.len(),
{
    if data.len() == 0 {
    } else if data.len() <= EASY_DMA_SIZE {
    } else {
        let tail = data.skip(EASY_DMA_SIZE as int);
        lemma_chunk_models_bounded(tail);
        let ms = chunk_models(data);
        assert forall|k: int| 0 <= k < ms.len() implies ((#[trigger] ms[k]) matches OpModel::Data(d)
            ==> d.len() <= EASY_DMA_SIZE) by {
            if k >= 1 {
                assert(ms[k] == chunk_models(tail)[k - 1]);
            }
        }
    }
}

/// Every plan this driver produces respects the DMA limit: each data
/// transaction of any command's plan carries at most `EASY_DMA_SIZE` bytes.
pub proof fn lemma_cmd_models_bounded(cmd: Cmd)
    ensures
        models_bounded(cmd_models(cmd)),
{
    match cmd {
        Cmd::SleepOff => {
            lemma_sleep_off_models_bounded();
        },
        Cmd::SleepOn => {
            assert(models_bounded(sleep_on_models()));
        },
        Cmd::FillRectWithColor { area, color } => {
            lemma_draw_rect_models_bounded(area, color_payload(area, color));
        },
        Cmd::DrawImage { top_left, image, scale } => {
            lemma_draw_rect_models_bounded(
                image_area(top_left, image@, scale),
                scaled_payload(image@, scale),
            );
        },
        Cmd::SetBacklight { level } => {
        },
        Cmd::PowerOn => {
            lemma_sleep_off_models_bounded();
            lemma_draw_rect_models_bounded(
                full_screen(),
                color_payload(full_screen(), 0xffff),
            );
            let a = sleep_off_models();
            let b = draw_rect_models(full_screen(), color_payload(full_screen(), 0xffff));
            let c = seq![
                OpModel::SetBacklightPins(false, false, true),
                OpModel::DelayMicros(3_000_000),
                OpModel::SetBacklightPins(false, false, false),
            ];
            lemma_models_bounded_concat(a, b);
            lemma_models_bounded_concat(a + b, c);
        },
    }
}

/// A rectangular write respects the DMA limit: its address-window
/// parameters are four bytes each and its payload is chunked.
pub proof fn lemma_draw_rect_models_bounded(area: Rect, payload: Seq<u8>)
    ensures
        models_bounded(draw_rect_models(area, payload)),
{
    lemma_chunk_models_bounded(payload);
    let ex = if spec_rect_empty_wire(area) {
        area.x0 as int
    } else {
        area.x1 - 1
    };
    let ey = if spec_rect_empty_wire(area) {
        area.y0 as int
    } else {
        area.y1 - 1
    };
    let awm = address_window_models(area.x0 as int, area.y0 as int, ex, ey);
    assert(models_bounded(awm));
    lemma_models_bounded_concat(seq![OpModel::SelectChip], awm);
    lemma_models_bounded_concat(seq![OpModel::SelectChip] + awm, seq![
        OpModel::Command(WRITE_TO_RAM),
    ]);
    lemma_models_bounded_concat(
        seq![OpModel::SelectChip] + awm + seq![OpModel::Command(WRITE_TO_RAM)],
        chunk_models(payload),
    );
    lemma_models_bounded_concat(
        seq![OpModel::SelectChip] + awm + seq![OpModel::Command(WRITE_TO_RAM)] + chunk_models(
            payload,
        ),
        seq![OpModel::DeselectChip],
    );
}

/// The wake-up sequence's parameter bytes are far below the DMA limit.
pub proof fn lemma_sleep_off_models_bounded()
    ensures
        models_bounded(sleep_off_models()),
{
    let ms = sleep_off_models();
    assert forall|k: int| 0 <= k < ms.len() implies ((#[trigger] ms[k]) matches OpModel::Data(d)
        ==> d.len() <= EASY_DMA_SIZE) by {
        if k >= 6 {
            assert(ms[k] == sleep_off_models()[k]);
        }
    }
}

/// Boundedness is preserved by concatenation.
pub proof fn lemma_models_bounded_concat(a: Seq<OpModel>, b: Seq<OpModel>)
    requires
        models_bounded(a),
        models_bounded(b),
    ensures
        models_bounded(a + b),
{
    assert forall|k: int| 0 <= k < (a + b).len() implies ((#[trigger] (a + b)[k])
        matches OpModel::Data(d) ==> d.len() <= EASY_DMA_SIZE) by {
        if k < a.len() {
            assert((a + b)[k] == a[k]);
        } else {
            assert((a + b)[k] == b[k - a.len()]);
        }
    }
}

/// A plan whose shapes are bounded is itself bounded: each `Data` op's bytes
/// are its shape's bytes.
pub proof fn lemma_bounded_plan(ops: Seq<BusOp>)
    requires
        models_bounded(ops_model(ops)),
    ensures
        chunks_bounded(ops),
{
    assert forall|k: int| 0 <= k < ops.len() implies ((#[trigger] ops[k]) matches BusOp::Data(d)
        ==> d@.len() <= EASY_DMA_SIZE) by {
        if ops[k] matches BusOp::Data(d) {
            assert(ops_model(ops)[k] == op_model(ops[k]));
        }
    }
}

} // verus!
