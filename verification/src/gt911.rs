//! Register protocol of the GT911 capacitive touch controller.
//!
//! The GT911 sits on I2C (address `GT911_ADDR`) and reports up to five touch
//! points. Registers are addressed by 16-bit numbers sent high byte first; the
//! status register holds a buffer-ready bit and the number of touches, and each
//! touch point occupies an 8-byte record whose first 7 bytes are its id and its
//! little-endian x, y and size.

use vstd::prelude::*;

verus! {

/// I2C address of the GT911.
pub const GT911_ADDR: u8 = 0x5D;

/// Status register: bit 7 buffer ready, bits 0..4 number of touches.
pub const REG_POINT_INFO: u16 = 0x814E;

/// First touch-point record.
pub const REG_POINT_1: u16 = 0x814F;

/// A single touch point.
#[derive(Debug, Clone, Copy, Default)]
pub struct TouchPoint {
    pub id: u8,
    pub x: u16,
    pub y: u16,
    pub size: u16,
}

/// The two bytes that select register `reg`: high byte, then low byte.
pub open spec fn reg_bytes(reg: u16) -> Seq<u8> {
    seq![(reg / 256) as u8, (reg % 256) as u8]
}

/// The bytes that select register `reg` before a read.
pub fn register_address(reg: u16) -> (bytes: [u8; 2])
    ensures
        bytes@ == reg_bytes(reg),
{
    assert((reg >> 8u16) as u8 == reg / 256 && (reg & 0xFFu16) as u8 == reg % 256) by (bit_vector);
    let bytes = [(reg >> 8) as u8, (reg & 0xFF) as u8];
    assert(bytes@ =~= reg_bytes(reg));
    bytes
}

/// The bytes of a write of `val` into register `reg`: the register, then the value.
pub fn write_reg_frame(reg: u16, val: u8) -> (frame: [u8; 3])
    ensures
        frame@ == reg_bytes(reg).push(val),
{
    assert((reg >> 8u16) as u8 == reg / 256 && (reg & 0xFFu16) as u8 == reg % 256) by (bit_vector);
    let frame = [(reg >> 8) as u8, (reg & 0xFF) as u8, val];
    assert(frame@ =~= reg_bytes(reg).push(val));
    frame
}

/// The write that clears the touch status buffer: 0 into the status register.
pub fn clear_status_frame() -> (frame: [u8; 3])
    ensures
        frame@ == reg_bytes(REG_POINT_INFO).push(0),
{
    write_reg_frame(REG_POINT_INFO, 0)
}

/// The touch status held in the status byte `point_info`: whether any point
/// is touched, and how many points are touched (bits 0..4).
pub fn decode_status(point_info: u8) -> (status: (bool, u8))
    ensures
        status.0 == (point_info % 16 != 0),
        status.1 == point_info % 16,
        status.1 <= 15,
{
    let touches = point_info & 0x0F;
    assert(point_info & 0x0Fu8 == point_info % 16) by (bit_vector);
    (touches != 0, touches)
}

/// Register of the record of touch point `i`.
pub open spec fn point_reg(i: nat) -> int {
    REG_POINT_1 + 8 * i
}

/// The register of the record of touch point `i`.
pub fn point_register(i: u8) -> (reg: u16)
    ensures
        reg == point_reg(i as nat),
        reg as int == 0x814F + 8 * i,
{
    REG_POINT_1 + (i as u16 * 8)
}

/// Touch-point records are 8 bytes apart, the first at `0x814F`: record `i`
/// sits at `0x814F + 8 * i`, and each record follows the one before it by 8.
pub proof fn lemma_point_reg_stride(i: nat)
    ensures
        point_reg(i) == 0x814F + 8 * i,
        point_reg(i + 1) == point_reg(i) + 8,
        point_reg(0) == REG_POINT_1,
{
}

/// The little-endian 16-bit value of the bytes `lo`, `hi`.
pub open spec fn le16(lo: u8, hi: u8) -> u16 {
    (lo + 256 * hi) as u16
}

/// The touch point that a 7-byte record holds.
pub open spec fn point_of(data: Seq<u8>) -> TouchPoint {
    TouchPoint {
        id: data[0],
        x: le16(data[1], data[2]),
        y: le16(data[3], data[4]),
        size: le16(data[5], data[6]),
    }
}

/// `u16::from_le_bytes([lo, hi])`.
fn u16_from_le(lo: u8, hi: u8) -> (v: u16)
    ensures
        v == le16(lo, hi),
{
    lo as u16 + 256 * (hi as u16)
}

/// The touch point that the 7-byte record `data` holds.
pub fn decode_point(data: &[u8; 7]) -> (p: TouchPoint)
    ensures
        p == point_of(data@),
        p.id == data@[0],
        p.x as int == data@[1] + 256 * data@[2],
        p.y as int == data@[3] + 256 * data@[4],
        p.size as int == data@[5] + 256 * data@[6],
{
    TouchPoint {
        id: data[0],
        x: u16_from_le(data[1], data[2]),
        y: u16_from_le(data[3], data[4]),
        size: u16_from_le(data[5], data[6]),
    }
}


/// Progress of reading `num` touch points: the points read so far, whether the
/// status buffer was cleared, and the bus error that ended the reading, if any.
pub ghost struct ReaderState {
    pub num: nat,
    pub points: Seq<TouchPoint>,
    pub cleared: bool,
    pub error: Option<i32>,
}

/// The reading of `num` touch points, before any bus transfer.
pub open spec fn reader_start(num: nat) -> ReaderState {
    ReaderState { num, points: seq![], cleared: false, error: None }
}

/// The reading waits for the record of point `s.points.len()`.
pub open spec fn awaiting_point(s: ReaderState) -> bool {
    s.error is None && !s.cleared && s.points.len() < s.num
}

/// All records were read; the reading waits for the status buffer to be cleared.
pub open spec fn awaiting_clear(s: ReaderState) -> bool {
    s.error is None && !s.cleared && s.points.len() == s.num
}

/// The reading is over: a transfer failed, or all points were read and the
/// status buffer cleared.
pub open spec fn reader_finished(s: ReaderState) -> bool {
    s.error is Some || s.cleared
}

/// The reading after the record read for the awaited point came back as `res`.
pub open spec fn after_point(s: ReaderState, res: Result<[u8; 7], i32>) -> ReaderState {
    match res {
        Ok(data) => ReaderState { points: s.points.push(point_of(data@)), ..s },
        Err(e) => ReaderState { error: Some(e), ..s },
    }
}

/// The reading after the status-clearing write came back as `res`.
pub open spec fn after_clear(s: ReaderState, res: Result<(), i32>) -> ReaderState {
    match res {
        Ok(_) => ReaderState { cleared: true, ..s },
        Err(e) => ReaderState { error: Some(e), ..s },
    }
}

/// The reading after the records `records` came back, one after another, all
/// successfully.
pub open spec fn after_records(s: ReaderState, records: Seq<[u8; 7]>) -> ReaderState
    decreases records.len(),
{
    if records.len() == 0 {
        s
    } else {
        after_point(after_records(s, records.drop_last()), Ok(records.last()))
    }
}

/// The next bus transfer that reading touch points asks for.
#[derive(Debug)]
pub enum PointsRequest {
    /// Read the 7-byte record at `register`.
    Read { register: u16 },
    /// Write `frame` to clear the status buffer.
    Clear { frame: [u8; 3] },
    /// Nothing more: take the result.
    Finished,
}

/// Reading a number of touch points (the `read_points` of the GT911 driver):
/// the record of each point in turn, then clearing the status buffer, stopping
/// at the first transfer that fails.
pub struct PointsReader {
    num: u8,
    points: Vec<TouchPoint>,
    cleared: bool,
    error: Option<i32>,
}

impl View for PointsReader {
    type V = ReaderState;

    /// The progress of this reading.
    closed spec fn view(&self) -> ReaderState {
        ReaderState {
            num: self.num as nat,
            points: self.points@,
            cleared: self.cleared,
            error: self.error,
        }
    }
}

impl PointsReader {
    #[verifier::type_invariant]
    spec fn inv(self) -> bool {
        self.points@.len() <= self.num
    }

    /// A reading of `num_touches` points.
    pub fn new(num_touches: u8) -> (r: Self)
        ensures
            r@ == reader_start(num_touches as nat),
    {
        PointsReader { num: num_touches, points: Vec::new(), cleared: false, error: None }
    }

    /// The transfer this reading asks for next.
    pub fn request(&self) -> (req: PointsRequest)
        ensures
            reader_finished(self@) <==> req is Finished,
            awaiting_point(self@) <==> req is Read,
            awaiting_clear(self@) <==> req is Clear,
            req matches PointsRequest::Read { register } ==> register == point_reg(self@.points.len()),
            req matches PointsRequest::Read { register } ==> register as int == 0x814F + 8
                * self@.points.len(),
            req matches PointsRequest::Clear { frame } ==> frame@ == reg_bytes(REG_POINT_INFO).push(0),
    {
        proof {
            use_type_invariant(self);
        }
        if self.error.is_some() || self.cleared {
            PointsRequest::Finished
        } else if self.points.len() < self.num as usize {
            PointsRequest::Read { register: point_register(self.points.len() as u8) }
        } else {
            PointsRequest::Clear { frame: clear_status_frame() }
        }
    }

    /// Takes in the outcome of reading the awaited record.
    pub fn point_read(&mut self, res: Result<[u8; 7], i32>)
        requires
            awaiting_point(old(self)@),
        ensures
            final(self)@ == after_point(old(self)@, res),
    {
        proof {
            use_type_invariant(&*self);
        }
        match res {
            Ok(data) => {
                let p = decode_point(&data);
                let mut points: Vec<TouchPoint> = Vec::new();
                std::mem::swap(&mut points, &mut self.points);
                points.push(p);
                self.points = points;
            },
            Err(e) => {
                self.error = Some(e);
            },
        }
    }

    /// Takes in the outcome of the status-clearing write.
    pub fn clear_done(&mut self, res: Result<(), i32>)
        requires
            awaiting_clear(old(self)@),
        ensures
            final(self)@ == after_clear(old(self)@, res),
    {
        proof {
            use_type_invariant(&*self);
        }
        match res {
            Ok(_) => {
                self.cleared = true;
            },
            Err(e) => {
                self.error = Some(e);
            },
        }
    }

    /// The result of the finished reading: the first failure's error, or the
    /// points in the order they were read.
    pub fn into_result(self) -> (res: Result<Vec<TouchPoint>, i32>)
        requires
            reader_finished(self@),
        ensures
            self@.error matches Some(e) ==> res == Err::<Vec<TouchPoint>, i32>(e),
            self@.error is None ==> (res matches Ok(v) && v@ == self@.points),
    {
        match self.error {
            Some(e) => Err(e),
            None => Ok(self.points),
        }
    }
}

/// Reading `num` points whose records all come back successfully asks for the
/// records at `REG_POINT_1 + 8 * k` for `k = 0, 1, ...` in turn, then for the
/// status-clearing write; and once that write succeeds, the result is the
/// decoded points in order.
pub proof fn lemma_read_points_sequence(num: u8, records: Seq<[u8; 7]>)
    requires
        records.len() == num,
    ensures
        forall|k: int|
            0 <= k < num ==> {
                let s = #[trigger] after_records(reader_start(num as nat), records.take(k));
                awaiting_point(s) && s.points.len() == k
            },
        awaiting_clear(after_records(reader_start(num as nat), records)),
        reader_finished(after_clear(after_records(reader_start(num as nat), records), Ok(()))),
        after_clear(after_records(reader_start(num as nat), records), Ok(())).error is None,
        after_clear(after_records(reader_start(num as nat), records), Ok(())).points
            == records.map_values(|d: [u8; 7]| point_of(d@)),
{
    assert forall|k: int| 0 <= k <= num implies {
        let s = #[trigger] after_records(reader_start(num as nat), records.take(k));
        s.error is None && !s.cleared && s.num == num && s.points
            == records.take(k).map_values(|d: [u8; 7]| point_of(d@))
    } by {
        lemma_after_records(num as nat, records.take(k));
    }
    assert(records.take(num as int) =~= records);
}

/// Feeding successful records to a fresh reading appends their points.
proof fn lemma_after_records(num: nat, records: Seq<[u8; 7]>)
    ensures
        after_records(reader_start(num), records).error is None,
        !after_records(reader_start(num), records).cleared,
        after_records(reader_start(num), records).num == num,
        after_records(reader_start(num), records).points
            == records.map_values(|d: [u8; 7]| point_of(d@)),
    decreases records.len(),
{
    if records.len() > 0 {
        lemma_after_records(num, records.drop_last());
        assert(records.map_values(|d: [u8; 7]| point_of(d@)) =~= records.drop_last().map_values(
            |d: [u8; 7]| point_of(d@),
        ).push(point_of(records.last()@)));
    }
}

/// A failed transfer ends the reading with that transfer's error; in
/// particular no status-clearing write follows a failed record read.
pub proof fn lemma_failure_ends_reading(s: ReaderState, e: i32)
    ensures
        reader_finished(after_point(s, Err(e))),
        after_point(s, Err(e)).error == Some(e),
        !awaiting_clear(after_point(s, Err(e))),
        reader_finished(after_clear(s, Err(e))),
        after_clear(s, Err(e)).error == Some(e),
{
}

} // verus!
