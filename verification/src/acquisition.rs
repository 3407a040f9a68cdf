//! Acquisition of one raw frame, as a machine that says which register to
//! access next and takes what the access gave.
//!
//! The sensor measures a frame in two subpages, one after the other. In each
//! it fills every second pixel, in a checkerboard. A frame is acquired in
//! two passes: wait until the status register announces new data, clear
//! that flag, and read the 384 pixels of the pass.

use vstd::prelude::*;
use vstd::arithmetic::power2::lemma2_to64;
use crate::bits::{bit_field, field};
use crate::bus::{ADDRESS_RAM, REGISTER_STATUS};
use crate::error::{AcquisitionError, BusError};
use crate::PIXEL_COUNT;

verus! {

/// Number of pixels that one pass reads.
pub const PASS_PIXELS: u16 = 384;

/// Where an acquisition stands.
#[derive(Clone, Copy, Debug, PartialEq, Eq, Structural)]
pub enum Stage {
    /// The status register is read to learn the subpage to start with.
    Subpage,
    /// The status register is read to learn whether new data is there.
    Poll,
    /// The "new data" flag of the status register is cleared.
    Clear,
    /// A pixel is read.
    Pixels,
    /// The frame is complete.
    Done,
    /// The acquisition was given up.
    Failed,
}

/// The register access that an acquisition waits for.
#[derive(Clone, Copy, Debug, PartialEq, Eq, Structural)]
pub enum Request {
    /// Read the register at `address`.
    Read { address: u16 },
    /// Write `value` to the register at `address`.
    Write { address: u16, value: u16 },
    /// Nothing: the acquisition has ended.
    Nothing,
}

/// What an acquisition has learned so far.
pub struct State {
    pub stage: Stage,
    /// How often the status register may be read in one wait for new data;
    /// `None` for any number of times.
    pub poll_limit: Option<u32>,
    /// How many reads are left in the current wait, where there is a limit.
    pub polls_left: int,
    /// The subpage that the first pass reads.
    pub subpage: int,
    /// The current pass, 0 or 1.
    pub pass: int,
    /// The number of pixels that the current pass has read.
    pub position: int,
    /// The value of the status register that announced new data.
    pub status: int,
    /// The pixels of the frame, those not yet read being 0.
    pub image: Seq<u16>,
    /// Why the acquisition was given up, if it was.
    pub error: Option<AcquisitionError>,
}

/// The index of the pixel that a pass reads at a position. A pass reads row
/// by row, 16 pixels from each row: every second one, starting with the
/// first in the rows whose number plus the subpage is even.
pub open spec fn pixel_address(subpage: int, pass: int, position: int) -> int {
    let row = position / 16;
    row * 32 + (position % 16) * 2 + (row + subpage + pass) % 2
}

/// The pass that reads pixel `pixel` when the first pass reads subpage
/// `subpage`.
pub open spec fn pass_of(subpage: int, pixel: int) -> int {
    (pixel / 32 + pixel % 32 + subpage) % 2
}

/// The position at which its pass reads pixel `pixel`.
pub open spec fn position_of(pixel: int) -> int {
    (pixel / 32) * 16 + (pixel % 32) / 2
}

impl State {
    /// The state before anything was read.
    pub open spec fn initial(poll_limit: Option<u32>) -> State {
        State {
            stage: Stage::Subpage,
            poll_limit,
            polls_left: 0,
            subpage: 0,
            pass: 0,
            position: 0,
            status: 0,
            image: Seq::new(PIXEL_COUNT as nat, |i: int| 0u16),
            error: None,
        }
    }

    /// What holds of every state that an acquisition reaches.
    pub open spec fn wf(self) -> bool {
        &&& 0 <= self.subpage <= 1
        &&& 0 <= self.pass <= 1
        &&& 0 <= self.position < PASS_PIXELS
        &&& 0 <= self.status < 65536
        &&& 0 <= self.polls_left <= u32::MAX
        &&& self.image.len() == PIXEL_COUNT
        &&& (self.stage == Stage::Failed <==> self.error is Some)
        &&& (self.stage == Stage::Clear ==> field(self.status, 3, 1) == 1)
    }

    /// The given-up state with the reason `error`.
    pub open spec fn fail(self, error: AcquisitionError) -> State {
        State { stage: Stage::Failed, error: Some(error), ..self }
    }

    /// The state at the start of a wait for new data.
    pub open spec fn wait(self) -> State {
        State {
            stage: Stage::Poll,
            polls_left: match self.poll_limit {
                Some(limit) => limit as int,
                None => 0,
            },
            ..self
        }
    }

    /// The register access that the acquisition waits for.
    pub open spec fn request(self) -> Request {
        match self.stage {
            Stage::Subpage | Stage::Poll => Request::Read { address: REGISTER_STATUS },
            Stage::Clear => Request::Write {
                address: REGISTER_STATUS,
                value: (self.status - 8) as u16,
            },
            Stage::Pixels => Request::Read {
                address: (ADDRESS_RAM + pixel_address(
                    self.subpage,
                    self.pass,
                    self.position,
                )) as u16,
            },
            Stage::Done | Stage::Failed => Request::Nothing,
        }
    }

    /// The state after a read gave `reply`. A failed read gives up the
    /// acquisition. The first status gives the subpage. A status without
    /// the "new data" flag is asked for again, unless the limit is reached,
    /// which gives up the acquisition; one with the flag leads to clearing
    /// it. A pixel is stored; after the last pixel of the first pass the
    /// second pass waits for new data, after the last of the second the
    /// frame is complete. Where no read is waited for, nothing changes.
    pub open spec fn after_read(self, reply: Result<u16, BusError>) -> State {
        match self.stage {
            Stage::Subpage => match reply {
                Err(error) => self.fail(AcquisitionError::Bus(error)),
                Ok(status) => State { subpage: field(status as int, 0, 1), ..self }.wait(),
            },
            Stage::Poll => match reply {
                Err(error) => self.fail(AcquisitionError::Bus(error)),
                Ok(status) => if field(status as int, 3, 1) == 1 {
                    State { stage: Stage::Clear, status: status as int, ..self }
                } else if self.poll_limit is Some {
                    if self.polls_left <= 1 {
                        self.fail(AcquisitionError::Timeout)
                    } else {
                        State { polls_left: self.polls_left - 1, ..self }
                    }
                } else {
                    self
                },
            },
            Stage::Pixels => match reply {
                Err(error) => self.fail(AcquisitionError::Bus(error)),
                Ok(pixel) => {
                    let stored = State {
                        image: self.image.update(
                            pixel_address(self.subpage, self.pass, self.position),
                            pixel,
                        ),
                        ..self
                    };
                    if self.position + 1 < PASS_PIXELS {
                        State { position: self.position + 1, ..stored }
                    } else if self.pass == 0 {
                        State { pass: 1, position: 0, ..stored }.wait()
                    } else {
                        State { stage: Stage::Done, ..stored }
                    }
                },
            },
            _ => self,
        }
    }

    /// The state after a write gave `reply`. A failed write gives up the
    /// acquisition; after the flag is cleared the pixels of the pass are
    /// read. Where no write is waited for, nothing changes.
    pub open spec fn after_write(self, reply: Result<(), BusError>) -> State {
        match self.stage {
            Stage::Clear => match reply {
                Err(error) => self.fail(AcquisitionError::Bus(error)),
                Ok(_) => State { stage: Stage::Pixels, position: 0, ..self },
            },
            _ => self,
        }
    }

    /// The frame, once it is complete.
    pub open spec fn frame(self) -> Option<Seq<u16>> {
        if self.stage == Stage::Done {
            Some(self.image)
        } else {
            None
        }
    }

    /// The state after the first `count` of the pixel values `values` were
    /// read one after the other.
    pub open spec fn read_pixels(self, values: Seq<u16>, count: nat) -> State
        decreases count,
    {
        if count == 0 {
            self
        } else {
            self.read_pixels(values, (count - 1) as nat).after_read(
                Ok::<u16, BusError>(values[count - 1]),
            )
        }
    }
}

/// A failed register access gives up the acquisition with the error of the
/// access, unchanged, and a given-up acquisition has no frame.
pub proof fn lemma_failure_aborts(state: State, error: BusError)
    requires
        state.wf(),
    ensures
        state.request() is Read ==> {
            let failed = state.after_read(Err::<u16, BusError>(error));
            &&& failed.stage == Stage::Failed
            &&& failed.error == Some(AcquisitionError::Bus(error))
            &&& failed.frame() is None
            &&& failed.request() == Request::Nothing
            &&& failed.image == state.image
        },
        state.request() is Write ==> {
            let failed = state.after_write(Err::<(), BusError>(error));
            &&& failed.stage == Stage::Failed
            &&& failed.error == Some(AcquisitionError::Bus(error))
            &&& failed.frame() is None
            &&& failed.request() == Request::Nothing
            &&& failed.image == state.image
        },
{
}

/// Once an acquisition has ended, complete or given up, no reply changes it.
pub proof fn lemma_ended_stays(state: State, read: Result<u16, BusError>, written: Result<
    (),
    BusError,
>)
    requires
        state.stage == Stage::Done || state.stage == Stage::Failed,
    ensures
        state.after_read(read) == state,
        state.after_write(written) == state,
{
}

/// Every step keeps a state well formed, and only storing a pixel changes
/// the image.
pub proof fn lemma_step_keeps_wf(state: State, read: Result<u16, BusError>, written: Result<
    (),
    BusError,
>)
    requires
        state.wf(),
    ensures
        state.after_read(read).wf(),
        state.after_write(written).wf(),
        state.after_write(written).image == state.image,
        state.stage != Stage::Pixels ==> state.after_read(read).image == state.image,
        state.after_read(read).subpage == state.subpage || state.stage == Stage::Subpage,
        state.after_write(written).subpage == state.subpage,
{
    lemma2_to64();
}

/// Each pixel is read by exactly one pass, at exactly one position: the
/// pass and the position of a pixel lead back to the pixel, and no other
/// pass or position leads to it.
pub proof fn lemma_pixel_read_once(subpage: int, pass: int, position: int, pixel: int)
    requires
        0 <= subpage <= 1,
        0 <= pass <= 1,
        0 <= position < PASS_PIXELS,
        0 <= pixel < PIXEL_COUNT,
    ensures
        0 <= pixel_address(subpage, pass, position) < PIXEL_COUNT,
        0 <= pass_of(subpage, pixel) <= 1,
        0 <= position_of(pixel) < PASS_PIXELS,
        pixel_address(subpage, pass_of(subpage, pixel), position_of(pixel)) == pixel,
        pixel_address(subpage, pass, position) == pixel <==> pass == pass_of(subpage, pixel)
            && position == position_of(pixel),
{
}

/// Reading the values of a whole pass stores each value at the pixel of its
/// position and leaves the pixels of the other pass as they were. After the
/// first pass the acquisition waits for new data; after the second it is
/// complete.
pub proof fn lemma_pass_stores_pixels(state: State, values: Seq<u16>, count: nat)
    requires
        state.wf(),
        state.stage == Stage::Pixels,
        state.position == 0,
        values.len() == PASS_PIXELS,
        count <= PASS_PIXELS,
    ensures
        ({
            let end = state.read_pixels(values, count);
            &&& end.wf()
            &&& end.subpage == state.subpage
            &&& end.poll_limit == state.poll_limit
            &&& count < PASS_PIXELS ==> end.stage == Stage::Pixels && end.position == count
                && end.pass == state.pass
            &&& count == PASS_PIXELS && state.pass == 0 ==> end.stage == Stage::Poll && end.pass
                == 1 && end.position == 0
            &&& count == PASS_PIXELS && state.pass == 1 ==> end.stage == Stage::Done
            &&& forall|pixel: int|
                0 <= pixel < PIXEL_COUNT ==> #[trigger] end.image[pixel] == if pass_of(
                    state.subpage,
                    pixel,
                ) == state.pass && position_of(pixel) < count {
                    values[position_of(pixel)]
                } else {
                    state.image[pixel]
                }
        }),
    decreases count,
{
    if count > 0 {
        let before = state.read_pixels(values, (count - 1) as nat);
        lemma_pass_stores_pixels(state, values, (count - 1) as nat);
        let end = state.read_pixels(values, count);
        let address = pixel_address(state.subpage, state.pass, count - 1);
        assert(end == before.after_read(Ok::<u16, BusError>(values[count - 1])));
        assert forall|pixel: int| 0 <= pixel < PIXEL_COUNT implies #[trigger] end.image[pixel]
            == if pass_of(state.subpage, pixel) == state.pass && position_of(pixel) < count {
            values[position_of(pixel)]
        } else {
            state.image[pixel]
        } by {
            lemma_pixel_read_once(state.subpage, state.pass, count - 1, pixel);
        }
    }
}

/// A frame holds, for every pixel, the value that the pass of the pixel read
/// at the position of the pixel.
pub proof fn lemma_frame_holds_both_passes(
    first_pass: State,
    first: Seq<u16>,
    second_pass: State,
    second: Seq<u16>,
)
    requires
        first_pass.wf(),
        first_pass.stage == Stage::Pixels,
        first_pass.pass == 0,
        first_pass.position == 0,
        first.len() == PASS_PIXELS,
        second_pass.wf(),
        second_pass.stage == Stage::Pixels,
        second_pass.pass == 1,
        second_pass.position == 0,
        second_pass.subpage == first_pass.subpage,
        second_pass.image == first_pass.read_pixels(first, PASS_PIXELS as nat).image,
        second.len() == PASS_PIXELS,
    ensures
        ({
            let end = second_pass.read_pixels(second, PASS_PIXELS as nat);
            &&& end.frame() == Some(end.image)
            &&& forall|pixel: int|
                0 <= pixel < PIXEL_COUNT ==> #[trigger] end.image[pixel] == if pass_of(
                    first_pass.subpage,
                    pixel,
                ) == 0 {
                    first[position_of(pixel)]
                } else {
                    second[position_of(pixel)]
                }
        }),
{
    lemma_pass_stores_pixels(first_pass, first, PASS_PIXELS as nat);
    lemma_pass_stores_pixels(second_pass, second, PASS_PIXELS as nat);
    let middle = first_pass.read_pixels(first, PASS_PIXELS as nat);
    let end = second_pass.read_pixels(second, PASS_PIXELS as nat);
    assert forall|pixel: int| 0 <= pixel < PIXEL_COUNT implies #[trigger] end.image[pixel]
        == if pass_of(first_pass.subpage, pixel) == 0 {
        first[position_of(pixel)]
    } else {
        second[position_of(pixel)]
    } by {
        lemma_pixel_read_once(first_pass.subpage, 0, 0, pixel);
        assert(middle.image[pixel] == second_pass.image[pixel]);
    }
}

/// An acquisition in which no access fails and the sensor has new data at
/// each first look ends with a frame. The lowest bit of the first status
/// says which pass reads which pixels; the frame holds for every pixel the
/// value that its pass read at its position.
pub proof fn lemma_acquisition_completes(
    poll_limit: Option<u32>,
    status: u16,
    ready_first: u16,
    first: Seq<u16>,
    ready_second: u16,
    second: Seq<u16>,
)
    requires
        field(ready_first as int, 3, 1) == 1,
        field(ready_second as int, 3, 1) == 1,
        first.len() == PASS_PIXELS,
        second.len() == PASS_PIXELS,
    ensures
        ({
            let end = State::initial(poll_limit).after_read(Ok::<u16, BusError>(status)).after_read(
                Ok::<u16, BusError>(ready_first),
            ).after_write(Ok::<(), BusError>(())).read_pixels(first, PASS_PIXELS as nat).after_read(
                Ok::<u16, BusError>(ready_second),
            ).after_write(Ok::<(), BusError>(())).read_pixels(second, PASS_PIXELS as nat);
            &&& end.stage == Stage::Done
            &&& end.error is None
            &&& end.frame() == Some(end.image)
            &&& forall|pixel: int|
                0 <= pixel < PIXEL_COUNT ==> #[trigger] end.image[pixel] == if pass_of(
                    field(status as int, 0, 1),
                    pixel,
                ) == 0 {
                    first[position_of(pixel)]
                } else {
                    second[position_of(pixel)]
                }
        }),
{
    lemma2_to64();
    let started = State::initial(poll_limit).after_read(Ok::<u16, BusError>(status));
    let first_pass = started.after_read(Ok::<u16, BusError>(ready_first)).after_write(
        Ok::<(), BusError>(()),
    );
    assert(first_pass.wf());
    lemma_pass_stores_pixels(first_pass, first, PASS_PIXELS as nat);
    let between = first_pass.read_pixels(first, PASS_PIXELS as nat);
    let second_pass = between.after_read(Ok::<u16, BusError>(ready_second)).after_write(
        Ok::<(), BusError>(()),
    );
    assert(second_pass.wf());
    lemma_frame_holds_both_passes(first_pass, first, second_pass, second);
    lemma_pass_stores_pixels(second_pass, second, PASS_PIXELS as nat);
}

/// While the sensor has no new data and the limit of the wait is not
/// reached, the acquisition keeps asking for the status and changes nothing
/// but the count of the reads that are left.
pub proof fn lemma_idle_poll(state: State, status: u16)
    requires
        state.wf(),
        state.stage == Stage::Poll,
        field(status as int, 3, 1) != 1,
        state.poll_limit is None || state.polls_left > 1,
    ensures
        ({
            let next = state.after_read(Ok::<u16, BusError>(status));
            &&& next.request() == state.request()
            &&& next == State {
                polls_left: if state.poll_limit is Some {
                    state.polls_left - 1
                } else {
                    state.polls_left
                },
                ..state
            }
        }),
{
}

/// The acquisition of one frame.
pub struct Acquisition {
    stage: Stage,
    poll_limit: Option<u32>,
    polls_left: u32,
    subpage: u16,
    pass: u16,
    position: u16,
    status: u16,
    img: [u16; PIXEL_COUNT],
    error: Option<AcquisitionError>,
}

impl View for Acquisition {
    type V = State;

    closed spec fn view(&self) -> State {
        State {
            stage: self.stage,
            poll_limit: self.poll_limit,
            polls_left: self.polls_left as int,
            subpage: self.subpage as int,
            pass: self.pass as int,
            position: self.position as int,
            status: self.status as int,
            image: self.img@,
            error: self.error,
        }
    }
}

impl Acquisition {
    #[verifier::type_invariant]
    spec fn valid(self) -> bool {
        self@.wf()
    }

    /// Starts an acquisition. `poll_limit` is the number of times that the
    /// status register may be read in one wait for new data, `None` for no
    /// limit.
    pub fn new(poll_limit: Option<u32>) -> (acquisition: Acquisition)
        ensures
            acquisition@ == State::initial(poll_limit),
            acquisition@.wf(),
    {
        let acquisition = Acquisition {
            stage: Stage::Subpage,
            poll_limit,
            polls_left: 0,
            subpage: 0,
            pass: 0,
            position: 0,
            status: 0,
            img: [0; PIXEL_COUNT],
            error: None,
        };
        assert(acquisition@.image =~= State::initial(poll_limit).image);
        acquisition
    }

    /// Where the acquisition stands.
    pub fn stage(&self) -> (stage: Stage)
        ensures
            stage == self@.stage,
    {
        self.stage
    }

    /// The index of the pixel to read next in the stage `Pixels`.
    fn next_pixel(&self) -> (pixel: u16)
        ensures
            pixel == pixel_address(self@.subpage, self@.pass, self@.position),
            pixel < PIXEL_COUNT,
    {
        proof {
            use_type_invariant(self);
        }
        let row: u16 = self.position / 16;
        row * 32 + (self.position % 16) * 2 + (row + self.subpage + self.pass) % 2
    }

    /// The register access that the acquisition waits for.
    pub fn request(&self) -> (request: Request)
        ensures
            request == self@.request(),
    {
        proof {
            use_type_invariant(self);
            lemma2_to64();
        }
        match self.stage {
            Stage::Subpage | Stage::Poll => Request::Read { address: REGISTER_STATUS },
            Stage::Clear => {
                let status = self.status;
                assert(status & 0xFFF7 == status - 8) by (bit_vector)
                    requires
                        (status / 8) % 2 == 1,
                ;
                Request::Write { address: REGISTER_STATUS, value: self.status & 0xFFF7 }
            },
            Stage::Pixels => Request::Read { address: ADDRESS_RAM + self.next_pixel() },
            Stage::Done | Stage::Failed => Request::Nothing,
        }
    }

    /// Gives up with the reason `error`.
    fn fail(self, error: AcquisitionError) -> (failed: Acquisition)
        ensures
            failed@ == self@.fail(error),
    {
        proof {
            use_type_invariant(&self);
        }
        Acquisition { stage: Stage::Failed, error: Some(error), ..self }
    }

    /// Starts a wait for new data.
    fn wait(self) -> (waiting: Acquisition)
        requires
            self@.error is None,
        ensures
            waiting@ == self@.wait(),
    {
        proof {
            use_type_invariant(&self);
        }
        let polls_left: u32 = match self.poll_limit {
            Some(limit) => limit,
            None => 0,
        };
        Acquisition { stage: Stage::Poll, polls_left, ..self }
    }

    /// Takes what the read that the acquisition waited for gave, and says
    /// how the acquisition goes on.
    pub fn on_read(self, reply: Result<u16, BusError>) -> (next: Acquisition)
        ensures
            next@ == self@.after_read(reply),
            next@.wf(),
    {
        proof {
            use_type_invariant(&self);
            lemma2_to64();
        }
        match self.stage {
            Stage::Subpage => match reply {
                Err(error) => self.fail(AcquisitionError::Bus(error)),
                Ok(status) => {
                    let subpage: u16 = bit_field(status, 0, 1);
                    Acquisition { subpage, ..self }.wait()
                },
            },
            Stage::Poll => match reply {
                Err(error) => self.fail(AcquisitionError::Bus(error)),
                Ok(status) => {
                    let new_data: bool = bit_field(status, 3, 1) == 1;
                    if new_data {
                        Acquisition { stage: Stage::Clear, status, ..self }
                    } else if self.poll_limit.is_some() {
                        if self.polls_left <= 1 {
                            self.fail(AcquisitionError::Timeout)
                        } else {
                            let polls_left: u32 = self.polls_left - 1;
                            Acquisition { polls_left, ..self }
                        }
                    } else {
                        self
                    }
                },
            },
            Stage::Pixels => match reply {
                Err(error) => self.fail(AcquisitionError::Bus(error)),
                Ok(pixel) => {
                    let address: u16 = self.next_pixel();
                    let mut img = self.img;
                    img[address as usize] = pixel;
                    if self.position + 1 < PASS_PIXELS {
                        let position: u16 = self.position + 1;
                        Acquisition { position, img, ..self }
                    } else if self.pass == 0 {
                        Acquisition { pass: 1, position: 0, img, ..self }.wait()
                    } else {
                        Acquisition { stage: Stage::Done, img, ..self }
                    }
                },
            },
            _ => self,
        }
    }

    /// Takes what the write that the acquisition waited for gave, and says
    /// how the acquisition goes on.
    pub fn on_write(self, reply: Result<(), BusError>) -> (next: Acquisition)
        ensures
            next@ == self@.after_write(reply),
            next@.wf(),
    {
        proof {
            use_type_invariant(&self);
        }
        match self.stage {
            Stage::Clear => match reply {
                Err(error) => self.fail(AcquisitionError::Bus(error)),
                Ok(_) => Acquisition { stage: Stage::Pixels, position: 0, ..self },
            },
            _ => self,
        }
    }

    /// The frame, once it is complete.
    pub fn frame(&self) -> (frame: Option<[u16; PIXEL_COUNT]>)
        ensures
            match frame {
                Some(img) => self@.frame() == Some(img@),
                None => self@.frame() is None,
            },
    {
        match self.stage {
            Stage::Done => Some(self.img),
            _ => None,
        }
    }

    /// Why the acquisition was given up, if it was.
    pub fn error(&self) -> (error: &Option<AcquisitionError>)
        ensures
            *error == self@.error,
    {
        &self.error
    }
}

} // verus!
