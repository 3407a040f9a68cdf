//! The live registers that an evaluation needs besides the pixels, and
//! their reading register by register.

use vstd::prelude::*;
use crate::bits::signed;
use crate::bus::{
    REGISTER_CP_SP0, REGISTER_CP_SP1, REGISTER_CTRL, REGISTER_GAIN, REGISTER_VDD, REGISTER_V_BE,
    REGISTER_V_PTAT,
};
use crate::compensation::signed_register;
use crate::error::BusError;

verus! {

/// Number of live registers that one evaluation reads.
pub const LIVE_COUNT: usize = 8;

/// The live registers of one evaluation, in the order in which they are
/// read. All but the control register are signed.
#[derive(Clone, Copy, Debug, PartialEq, Eq)]
pub struct LiveRegisters {
    /// The control register.
    pub control: u16,
    /// The supply voltage, as read for the supply voltage itself.
    pub vdd: i32,
    /// The supply voltage, as read for the ambient temperature.
    pub vdd_ambient: i32,
    /// The voltage of the ambient temperature sensor.
    pub v_ptat: i32,
    /// The base-emitter voltage of the ambient temperature sensor.
    pub v_be: i32,
    /// The gain.
    pub gain: i32,
    /// The compensation pixel of subpage 0.
    pub cp_sp0: i32,
    /// The compensation pixel of subpage 1.
    pub cp_sp1: i32,
}

/// The address of the live register that is read at place `place`.
pub open spec fn live_address(place: int) -> u16 {
    if place == 0 {
        REGISTER_CTRL
    } else if place == 1 {
        REGISTER_VDD
    } else if place == 2 {
        REGISTER_VDD
    } else if place == 3 {
        REGISTER_V_PTAT
    } else if place == 4 {
        REGISTER_V_BE
    } else if place == 5 {
        REGISTER_GAIN
    } else if place == 6 {
        REGISTER_CP_SP0
    } else {
        REGISTER_CP_SP1
    }
}

/// The live registers that the words `words` stand for, the words being in
/// the order of reading.
pub open spec fn live_registers(words: Seq<u16>) -> LiveRegisters {
    LiveRegisters {
        control: words[0],
        vdd: signed(words[1] as int, 16) as i32,
        vdd_ambient: signed(words[2] as int, 16) as i32,
        v_ptat: signed(words[3] as int, 16) as i32,
        v_be: signed(words[4] as int, 16) as i32,
        gain: signed(words[5] as int, 16) as i32,
        cp_sp0: signed(words[6] as int, 16) as i32,
        cp_sp1: signed(words[7] as int, 16) as i32,
    }
}

/// What a reading of the live registers has learned so far.
pub struct LiveState {
    /// The words read, in the order of reading.
    pub words: Seq<u16>,
    /// The error of the read that failed, if one did.
    pub error: Option<BusError>,
}

impl LiveState {
    /// The state before anything was read.
    pub open spec fn initial() -> LiveState {
        LiveState { words: Seq::empty(), error: None }
    }

    /// What holds of every state that a reading reaches.
    pub open spec fn wf(self) -> bool {
        self.words.len() <= LIVE_COUNT
    }

    /// Whether the reading has ended, complete or given up.
    pub open spec fn ended(self) -> bool {
        self.error is Some || self.words.len() >= LIVE_COUNT
    }

    /// The address of the register to read next, until the reading has
    /// ended.
    pub open spec fn request(self) -> Option<u16> {
        if self.ended() {
            None
        } else {
            Some(live_address(self.words.len() as int))
        }
    }

    /// The state after a read gave `reply`: a word is kept, and the first
    /// failure ends the reading with its error. After the end nothing
    /// changes.
    pub open spec fn after_read(self, reply: Result<u16, BusError>) -> LiveState {
        if self.ended() {
            self
        } else {
            match reply {
                Ok(word) => LiveState { words: self.words.push(word), ..self },
                Err(error) => LiveState { error: Some(error), ..self },
            }
        }
    }

    /// The state after the first `count` of the words `words` were read
    /// one after the other.
    pub open spec fn read_words(self, words: Seq<u16>, count: nat) -> LiveState
        decreases count,
    {
        if count == 0 {
            self
        } else {
            self.read_words(words, (count - 1) as nat).after_read(
                Ok::<u16, BusError>(words[count - 1]),
            )
        }
    }

    /// The live registers, once all were read.
    pub open spec fn registers(self) -> Option<LiveRegisters> {
        if self.error is None && self.words.len() == LIVE_COUNT {
            Some(live_registers(self.words))
        } else {
            None
        }
    }
}

/// The reading of the live registers of one evaluation, register by
/// register.
pub struct LiveRead {
    count: usize,
    words: [u16; LIVE_COUNT],
    error: Option<BusError>,
}

impl View for LiveRead {
    type V = LiveState;

    closed spec fn view(&self) -> LiveState {
        LiveState { words: self.words@.take(self.count as int), error: self.error }
    }
}

impl LiveRead {
    #[verifier::type_invariant]
    spec fn valid(self) -> bool {
        self.count <= LIVE_COUNT
    }

    /// Starts a reading.
    pub fn new() -> (reading: LiveRead)
        ensures
            reading@ == LiveState::initial(),
    {
        let reading = LiveRead { count: 0, words: [0; LIVE_COUNT], error: None };
        assert(reading@.words =~= LiveState::initial().words);
        reading
    }

    /// The address of the register to read next, until the reading has
    /// ended.
    pub fn request(&self) -> (address: Option<u16>)
        ensures
            address == self@.request(),
    {
        proof {
            use_type_invariant(self);
        }
        if self.error.is_some() || self.count >= LIVE_COUNT {
            None
        } else if self.count == 0 {
            Some(REGISTER_CTRL)
        } else if self.count <= 2 {
            Some(REGISTER_VDD)
        } else if self.count == 3 {
            Some(REGISTER_V_PTAT)
        } else if self.count == 4 {
            Some(REGISTER_V_BE)
        } else if self.count == 5 {
            Some(REGISTER_GAIN)
        } else if self.count == 6 {
            Some(REGISTER_CP_SP0)
        } else {
            Some(REGISTER_CP_SP1)
        }
    }

    /// Takes what the read that the reading waited for gave.
    pub fn on_read(self, reply: Result<u16, BusError>) -> (next: LiveRead)
        ensures
            next@ == self@.after_read(reply),
            next@.wf(),
    {
        proof {
            use_type_invariant(&self);
        }
        if self.error.is_some() || self.count >= LIVE_COUNT {
            self
        } else {
            match reply {
                Ok(word) => {
                    let mut words = self.words;
                    words[self.count] = word;
                    let next = LiveRead { count: self.count + 1, words, error: self.error };
                    assert(next@.words =~= self@.words.push(word));
                    next
                },
                Err(error) => {
                    let next = LiveRead { count: self.count, words: self.words, error: Some(error) };
                    next
                },
            }
        }
    }

    /// The live registers, once all were read.
    pub fn registers(&self) -> (registers: Option<LiveRegisters>)
        ensures
            registers == self@.registers(),
    {
        proof {
            use_type_invariant(self);
        }
        if self.error.is_some() || self.count < LIVE_COUNT {
            None
        } else {
            assert(self@.words =~= self.words@);
            Some(
                LiveRegisters {
                    control: self.words[0],
                    vdd: signed_register(self.words[1]),
                    vdd_ambient: signed_register(self.words[2]),
                    v_ptat: signed_register(self.words[3]),
                    v_be: signed_register(self.words[4]),
                    gain: signed_register(self.words[5]),
                    cp_sp0: signed_register(self.words[6]),
                    cp_sp1: signed_register(self.words[7]),
                },
            )
        }
    }

    /// The error of the read that failed, if one did.
    pub fn error(&self) -> (error: &Option<BusError>)
        ensures
            *error == self@.error,
    {
        &self.error
    }
}

/// The first failed read ends a reading with the error of that read,
/// unchanged; later replies change nothing, and no registers come of it.
pub proof fn lemma_first_failure_ends(
    state: LiveState,
    error: BusError,
    later: Result<u16, BusError>,
)
    requires
        state.wf(),
        !state.ended(),
    ensures
        ({
            let failed = state.after_read(Err::<u16, BusError>(error));
            &&& failed.error == Some(error)
            &&& failed.request() is None
            &&& failed.registers() is None
            &&& failed.after_read(later) == failed
        }),
{
}

/// A reading in which no read fails asks for the eight registers in their
/// order and ends with the registers that the words stand for.
pub proof fn lemma_reading_completes(words: Seq<u16>, count: nat)
    requires
        words.len() == LIVE_COUNT,
        count <= LIVE_COUNT,
    ensures
        ({
            let state = LiveState::initial().read_words(words, count);
            &&& state.words == words.take(count as int)
            &&& state.error is None
            &&& count < LIVE_COUNT ==> state.request() == Some(live_address(count as int))
            &&& count == LIVE_COUNT ==> state.request() is None && state.registers() == Some(
                live_registers(words),
            )
        }),
    decreases count,
{
    if count > 0 {
        lemma_reading_completes(words, (count - 1) as nat);
        let before = LiveState::initial().read_words(words, (count - 1) as nat);
        assert(before.words.push(words[count - 1]) =~= words.take(count as int));
    } else {
        assert(words.take(0) =~= Seq::<u16>::empty());
    }
    if count == LIVE_COUNT {
        assert(words.take(count as int) =~= words);
    }
}

} // verus!
