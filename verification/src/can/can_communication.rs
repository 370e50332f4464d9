//! The exchange with the controller: the query that asks it for live data,
//! the bookkeeping of the response frames as they arrive, and simulated
//! responses for running without a controller.
use vstd::prelude::*;
use crate::can::can_frame::{be_i16, hi_byte, lo_byte, ThreeVotolFrames};
use crate::ledmatrix::api::low_byte;

verus! {

/// The standard CAN id of the live-data query.
pub const VOTOL_QUERY_ID: u16 = 1023;

/// The standard CAN id of the controller's live-data response frames.
pub const VOTOL_RESPONSE_ID: u16 = 1022;

/// The two data frames of the live-data query, sent under `VOTOL_QUERY_ID`.
pub fn votol_query_messages() -> (r: [[u8; 8]; 2])
    ensures
        r[0]@ == seq![9u8, 85, 170, 170, 0, 170, 0, 0],
        r[1]@ == seq![0u8, 24, 170, 5, 210, 0, 32, 51],
{
    // from ES https://endless-sphere.com/sphere/threads/votol-em100-canbus-protocols.114159/
    let votol_can_msg1: [u8; 8] = [9, 85, 170, 170, 0, 170, 0, 0];
    let votol_can_msg2: [u8; 8] = [0, 24, 170, 5, 210, 0, 32, 51];
    assert(votol_can_msg1@ =~= seq![9u8, 85, 170, 170, 0, 170, 0, 0]);
    assert(votol_can_msg2@ =~= seq![0u8, 24, 170, 5, 210, 0, 32, 51]);
    [votol_can_msg1, votol_can_msg2]
}

/// The identifier of a received CAN frame.
#[derive(Debug, Clone, Copy, PartialEq, Eq, Structural)]
pub enum FrameId {
    /// An 11-bit identifier.
    Standard(u16),
    /// A 29-bit identifier.
    Extended(u32),
}

/// The three frames as rows of bytes.
pub open spec fn frames_view(frames: ThreeVotolFrames) -> Seq<Seq<u8>> {
    Seq::new(3, |f: int| frames[f]@)
}

/// The frames after storing the first eight bytes of `data` at slot `counter`.
pub open spec fn store_frame(frames: Seq<Seq<u8>>, counter: int, data: Seq<u8>) -> Seq<Seq<u8>> {
    frames.update(counter, data.take(8))
}

/// Whether a frame is a live-data response of the controller.
pub open spec fn is_response(id: FrameId) -> bool {
    id == FrameId::Standard(VOTOL_RESPONSE_ID)
}

/// The frames and the slot counter after one received frame, given by its
/// identifier and data: a response is stored at the slot and the counter
/// moves on; any other frame changes nothing.
pub open spec fn receive(state: (Seq<Seq<u8>>, int), event: (FrameId, Seq<u8>)) -> (
    Seq<Seq<u8>>,
    int,
) {
    if is_response(event.0) {
        (store_frame(state.0, state.1, event.1), (state.1 + 1) % 3)
    } else {
        state
    }
}

/// The frames and the slot counter after receiving `events` in order.
pub open spec fn receive_all(state: (Seq<Seq<u8>>, int), events: Seq<(FrameId, Seq<u8>)>) -> (
    Seq<Seq<u8>>,
    int,
)
    decreases events.len(),
{
    if events.len() == 0 {
        state
    } else {
        receive(receive_all(state, events.drop_last()), events.last())
    }
}

/// Takes one received frame: a response frame of the controller is stored
/// at slot `counter`, which then moves on to the next slot (after the third
/// slot comes the first again); any other frame is ignored.
pub fn handle_frame(id: FrameId, data: &[u8], counter: &mut usize, frames: &mut ThreeVotolFrames)
    requires
        id == FrameId::Standard(VOTOL_RESPONSE_ID) ==> *old(counter) < 3 && data@.len() >= 8,
    ensures
        id == FrameId::Standard(VOTOL_RESPONSE_ID) ==> {
            &&& frames_view(*final(frames)) == store_frame(
                frames_view(*old(frames)),
                *old(counter) as int,
                data@,
            )
            &&& *final(counter) == (*old(counter) + 1) % 3
        },
        id != FrameId::Standard(VOTOL_RESPONSE_ID) ==> {
            &&& *final(frames) == *old(frames)
            &&& *final(counter) == *old(counter)
        },
        (frames_view(*final(frames)), *final(counter) as int) == receive(
            (frames_view(*old(frames)), *old(counter) as int),
            (id, data@),
        ),
{
    match id {
        FrameId::Extended(_id) => {},
        FrameId::Standard(id) => {
            if id == VOTOL_RESPONSE_ID {
                let c = *counter;
                let mut row = frames[c];
                for i in 0..8
                    invariant
                        data@.len() >= 8,
                        forall|j: int| 0 <= j < i ==> #[trigger] row[j] == data@[j],
                {
                    row[i] = data[i];
                }
                frames[c] = row;
                proof {
                    assert(row@ =~= data@.take(8));
                    assert(frames_view(*frames) =~= store_frame(
                        frames_view(*old(frames)),
                        c as int,
                        data@,
                    ));
                }
                *counter += 1;
                if *counter == 3 {
                    *counter = 0;
                }
            }
        },
    }
}

/// Receiving `a` and then `b` is receiving `a + b`.
pub proof fn lemma_receive_all_append(
    state: (Seq<Seq<u8>>, int),
    a: Seq<(FrameId, Seq<u8>)>,
    b: Seq<(FrameId, Seq<u8>)>,
)
    ensures
        receive_all(state, a + b) == receive_all(receive_all(state, a), b),
    decreases b.len(),
{
    if b.len() == 0 {
        assert(a + b =~= a);
    } else {
        assert((a + b).drop_last() =~= a + b.drop_last());
        assert((a + b).last() == b.last());
        lemma_receive_all_append(state, a, b.drop_last());
    }
}

proof fn lemma_receive_one(state: (Seq<Seq<u8>>, int), e: (FrameId, Seq<u8>))
    ensures
        receive_all(state, seq![e]) == receive(state, e),
{
    let evs = seq![e];
    assert(evs.drop_last() =~= Seq::<(FrameId, Seq<u8>)>::empty());
    assert(receive_all(state, evs.drop_last()) == state);
    assert(evs.last() == e);
}

/// Frames other than responses change neither the frames nor the counter.
pub proof fn lemma_other_frames_ignored(state: (Seq<Seq<u8>>, int), events: Seq<(FrameId, Seq<u8>)>)
    requires
        forall|i: int| 0 <= i < events.len() ==> !is_response(#[trigger] events[i].0),
    ensures
        receive_all(state, events) == state,
    decreases events.len(),
{
    if events.len() > 0 {
        lemma_other_frames_ignored(state, events.drop_last());
        assert(!is_response(events[events.len() - 1].0));
    }
}

/// Whatever frames arrive, the counter stays a slot number and there stay
/// three slots, so the frames are never indexed out of bounds.
pub proof fn lemma_counter_stays_in_range(state: (Seq<Seq<u8>>, int), events: Seq<(FrameId, Seq<u8>)>)
    requires
        0 <= state.1 < 3,
        state.0.len() == 3,
    ensures
        0 <= receive_all(state, events).1 < 3,
        receive_all(state, events).0.len() == 3,
    decreases events.len(),
{
    if events.len() > 0 {
        lemma_counter_stays_in_range(state, events.drop_last());
    }
}

/// From the first slot on, three response frames fill the three slots in
/// order, whatever other frames arrive before, between and after them, and
/// the counter is back at the first slot.
pub proof fn lemma_three_frames_fill_in_order(
    frames: Seq<Seq<u8>>,
    others0: Seq<(FrameId, Seq<u8>)>,
    others1: Seq<(FrameId, Seq<u8>)>,
    others2: Seq<(FrameId, Seq<u8>)>,
    others3: Seq<(FrameId, Seq<u8>)>,
    d0: Seq<u8>,
    d1: Seq<u8>,
    d2: Seq<u8>,
)
    requires
        frames.len() == 3,
        forall|i: int| 0 <= i < others0.len() ==> !is_response(#[trigger] others0[i].0),
        forall|i: int| 0 <= i < others1.len() ==> !is_response(#[trigger] others1[i].0),
        forall|i: int| 0 <= i < others2.len() ==> !is_response(#[trigger] others2[i].0),
        forall|i: int| 0 <= i < others3.len() ==> !is_response(#[trigger] others3[i].0),
    ensures
        receive_all(
            (frames, 0),
            others0 + seq![(FrameId::Standard(VOTOL_RESPONSE_ID), d0)] + others1 + seq![
                (FrameId::Standard(VOTOL_RESPONSE_ID), d1),
            ] + others2 + seq![(FrameId::Standard(VOTOL_RESPONSE_ID), d2)] + others3,
        ) == (seq![d0.take(8), d1.take(8), d2.take(8)], 0int),
{
    let r0 = seq![(FrameId::Standard(VOTOL_RESPONSE_ID), d0)];
    let r1 = seq![(FrameId::Standard(VOTOL_RESPONSE_ID), d1)];
    let r2 = seq![(FrameId::Standard(VOTOL_RESPONSE_ID), d2)];
    let s0 = (frames, 0int);
    lemma_other_frames_ignored(s0, others0);
    lemma_receive_all_append(s0, others0, r0);
    lemma_receive_one(receive_all(s0, others0), (FrameId::Standard(VOTOL_RESPONSE_ID), d0));
    let s1 = receive_all(s0, others0 + r0);
    assert(s1 == (store_frame(frames, 0, d0), 1int));
    lemma_other_frames_ignored(s1, others1);
    lemma_receive_all_append(s0, others0 + r0, others1);
    lemma_receive_all_append(s0, others0 + r0 + others1, r1);
    lemma_receive_one(receive_all(s0, others0 + r0 + others1), (FrameId::Standard(VOTOL_RESPONSE_ID), d1));
    let s2 = receive_all(s0, others0 + r0 + others1 + r1);
    assert(s2 == (store_frame(store_frame(frames, 0, d0), 1, d1), 2int));
    lemma_other_frames_ignored(s2, others2);
    lemma_receive_all_append(s0, others0 + r0 + others1 + r1, others2);
    lemma_receive_all_append(s0, others0 + r0 + others1 + r1 + others2, r2);
    lemma_receive_one(receive_all(s0, others0 + r0 + others1 + r1 + others2), (FrameId::Standard(VOTOL_RESPONSE_ID), d2));
    let s3 = receive_all(s0, others0 + r0 + others1 + r1 + others2 + r2);
    assert(s3.1 == 0);
    assert(s3.0 =~= seq![d0.take(8), d1.take(8), d2.take(8)]);
    lemma_other_frames_ignored(s3, others3);
    lemma_receive_all_append(s0, others0 + r0 + others1 + r1 + others2 + r2, others3);
}

/// The stored byte of a temperature sent with its +50 offset.
pub open spec fn offset_temp_byte(t: int) -> u8 {
    low_byte(t + 50)
}

/// The three frames of a simulated live-data response: the given battery
/// voltage, temperatures and rpm, a current of 1 (0.1 A), the fault code 0x84 and
/// state 7 (FAULT).
pub open spec fn fake_frames(battery_voltage: u16, controller_temp: i8, motor_temp: i8, rpm: i16) -> Seq<
    Seq<u8>,
> {
    seq![
        seq![0x09u8, 0x55, 0xaa, 0xaa, 0x00, 0x00, 0x00, (battery_voltage / 256) as u8],
        seq![(battery_voltage % 256) as u8, 0x00, 0x01, 0x00, 0x00, 0x00, 0x00, 0x84],
        seq![
            hi_byte(rpm as int),
            lo_byte(rpm as int),
            offset_temp_byte(controller_temp as int),
            offset_temp_byte(motor_temp as int),
            0x00,
            0x00,
            0x01,
            0x07,
        ],
    ]
}

/// The data of frame `id` of a simulated live-data response.
pub fn create_fake_votol_response(
    id: usize,
    battery_voltage: u16,
    controller_temp: i8,
    motor_temp: i8,
    rpm: i16,
) -> (r: [u8; 8])
    requires
        id < 3,
        controller_temp + 50 <= i8::MAX,
        motor_temp + 50 <= i8::MAX,
    ensures
        r@ == fake_frames(battery_voltage, controller_temp, motor_temp, rpm)[id as int],
{
    let bv_h: u8 = (battery_voltage >> 8) as u8;
    let bv_l: u8 = (battery_voltage & 0xFF) as u8;

    let ct_sum: i8 = controller_temp + 50;
    let et_sum: i8 = motor_temp + 50;
    let ct: u8 = ct_sum as u8;
    let et: u8 = et_sum as u8;

    let rpm_h: u8 = (rpm >> 8) as u8;
    let rpm_l: u8 = (rpm & 0xFF) as u8;
    proof {
        assert(bv_h == (battery_voltage / 256) as u8) by (bit_vector)
            requires
                bv_h == (battery_voltage >> 8u16) as u8,
        ;
        assert(bv_l == (battery_voltage % 256) as u8) by (bit_vector)
            requires
                bv_l == (battery_voltage & 0xFFu16) as u8,
        ;
        assert(ct == (ct_sum as i16) % 256) by (bit_vector)
            requires
                ct == ct_sum as u8,
        ;
        assert(et == (et_sum as i16) % 256) by (bit_vector)
            requires
                et == et_sum as u8,
        ;
        assert(rpm_l == rpm % 256) by (bit_vector)
            requires
                rpm_l == (rpm & 0xFFi16) as u8,
        ;
        assert(rpm_h as i32 * 256 + rpm_l as i32 == (rpm as i32) % 65536) by (bit_vector)
            requires
                rpm_h == (rpm >> 8i16) as u8,
                rpm_l == (rpm & 0xFFi16) as u8,
        ;
    }

    let votol_can_responses: [[u8; 8]; 3] = [
        [0x09, 0x55, 0xaa, 0xaa, 0x00, 0x00, 0x00, bv_h],
        [bv_l, 0x00, 0x01, 0x00, 0x00, 0x00, 0x00, 0x84],
        [rpm_h, rpm_l, ct, et, 0x00, 0x00, 0x01, 0x07],
    ];
    let r = votol_can_responses[id];
    assert(r@ =~= fake_frames(battery_voltage, controller_temp, motor_temp, rpm)[id as int]);
    r
}

/// Decoding a simulated response gives back what went into it: the
/// voltage (read as a signed value), the rpm, and the temperatures from -50
/// on; the state code is 7 (FAULT).
pub proof fn lemma_fake_response_roundtrip(
    frames: ThreeVotolFrames,
    battery_voltage: u16,
    controller_temp: i8,
    motor_temp: i8,
    rpm: i16,
)
    requires
        frames_view(frames) == fake_frames(battery_voltage, controller_temp, motor_temp, rpm),
        -50 <= controller_temp,
        -50 <= motor_temp,
    ensures
        be_i16(frames[0][7], frames[1][0]) == (if battery_voltage < 32768 {
            battery_voltage as int
        } else {
            battery_voltage - 65536
        }),
        be_i16(frames[1][1], frames[1][2]) == 1,
        be_i16(frames[2][0], frames[2][1]) == rpm,
        frames[2][2] - 50 == controller_temp,
        frames[2][3] - 50 == motor_temp,
        frames[2][7] == 7,
{
    let fv = fake_frames(battery_voltage, controller_temp, motor_temp, rpm);
    assert(frames[0]@ == fv[0]);
    assert(frames[1]@ == fv[1]);
    assert(frames[2]@ == fv[2]);
    assert(frames[0][7] == fv[0][7]);
    assert(frames[1][0] == fv[1][0]);
    assert(frames[1][1] == fv[1][1]);
    assert(frames[1][2] == fv[1][2]);
    assert(frames[2][0] == fv[2][0]);
    assert(frames[2][1] == fv[2][1]);
    assert(frames[2][2] == fv[2][2]);
    assert(frames[2][3] == fv[2][3]);
    assert(frames[2][7] == fv[2][7]);
}

} // verus!
