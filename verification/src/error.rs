//! The ways in which talking to the sensor and decoding its data can fail.

use vstd::prelude::*;
use vstd::string::StringExecFns;

verus! {

/// The step of a bus transaction that failed.
#[derive(Clone, Copy, Debug, PartialEq, Eq)]
pub enum BusFailure {
    /// The bus could not be opened.
    Peripheral,
    /// A write to the sensor failed.
    Write,
    /// A read from the sensor failed.
    Read,
}

/// A failed bus transaction, with what the bus driver said of it.
#[derive(Clone, Debug, PartialEq, Eq)]
pub struct BusError {
    pub failure: BusFailure,
    pub detail: String,
}

/// Why no calibration could be restored.
#[derive(Clone, Debug, PartialEq, Eq)]
pub enum CalibrationError {
    /// The calibration block could not be read.
    Bus(BusError),
    /// The calibration block marks more defective pixels than a usable
    /// sensor may have.
    TooManyBadPixels,
}

/// Why no frame could be acquired.
#[derive(Clone, Debug, PartialEq, Eq)]
pub enum AcquisitionError {
    /// A register access failed.
    Bus(BusError),
    /// The sensor did not announce new data within the polls allowed.
    Timeout,
}

impl BusFailure {
    /// The first line of the message for this kind of failure.
    pub open spec fn headline(self) -> Seq<char> {
        match self {
            BusFailure::Peripheral => "I2C Peripheral failure"@,
            BusFailure::Write => "I2C Write failure"@,
            BusFailure::Read => "I2C Read failure"@,
        }
    }
}

impl BusError {
    /// The message of this error: the kind of failure on the first line, what
    /// the bus driver said on the next.
    pub open spec fn message_text(self) -> Seq<char> {
        self.failure.headline() + "\n"@ + self.detail@
    }

    /// The message of this error.
    pub fn message(&self) -> (text: String)
        ensures
            text@ == self.message_text(),
    {
        let mut text = match self.failure {
            BusFailure::Peripheral => String::from_str("I2C Peripheral failure"),
            BusFailure::Write => String::from_str("I2C Write failure"),
            BusFailure::Read => String::from_str("I2C Read failure"),
        };
        text.append("\n");
        text.append(self.detail.as_str());
        text
    }
}

impl CalibrationError {
    /// The message of this error: that of the bus error, or that the block
    /// marks too many pixels.
    pub open spec fn message_text(self) -> Seq<char> {
        match self {
            CalibrationError::Bus(error) => error.message_text(),
            CalibrationError::TooManyBadPixels => "More than four defective pixels"@,
        }
    }

    /// The message of this error.
    pub fn message(&self) -> (text: String)
        ensures
            text@ == self.message_text(),
    {
        match self {
            CalibrationError::Bus(error) => error.message(),
            CalibrationError::TooManyBadPixels => String::from_str(
                "More than four defective pixels",
            ),
        }
    }
}

impl AcquisitionError {
    /// The message of this error: that of the bus error, or that the sensor
    /// had no new data.
    pub open spec fn message_text(self) -> Seq<char> {
        match self {
            AcquisitionError::Bus(error) => error.message_text(),
            AcquisitionError::Timeout => "No new data from the sensor"@,
        }
    }

    /// The message of this error.
    pub fn message(&self) -> (text: String)
        ensures
            text@ == self.message_text(),
    {
        match self {
            AcquisitionError::Bus(error) => error.message(),
            AcquisitionError::Timeout => String::from_str("No new data from the sensor"),
        }
    }
}

} // verus!
