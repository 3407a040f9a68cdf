//! What the user can set: the refresh rate of the sensor and the colouring
//! of the picture.

use vstd::prelude::*;
use vstd::arithmetic::power2::lemma2_to64;
use vstd::string::StringExecFns;
use crate::bits::{bit_field, field};

verus! {

/// Refresh rates of the sensor, in frames per second.
#[derive(Clone, Copy, Debug, PartialEq, Eq, Structural)]
pub enum Framerates {
    Half,
    One,
    Two,
    Four,
    Eight,
    Sixteen,
    Thirtytwo,
    Sixtyfour,
}

/// Ways to colour a temperature.
#[derive(Clone, Copy, Debug, PartialEq, Eq, Structural)]
pub enum ColorTypes {
    Gray,
    Cheap,
    Hue,
}

impl TryFrom<u8> for Framerates {
    type Error = ();

    /// The rate with the code `v`; codes above 7 name no rate.
    fn try_from(v: u8) -> (rate: Result<Framerates, ()>)
        ensures
            match rate {
                Ok(rate) => Framerates::with_code(v as int) == Some(rate) && rate.code_of() == v,
                Err(_) => v > 7,
            },
    {
        match v {
            0 => Ok(Framerates::Half),
            1 => Ok(Framerates::One),
            2 => Ok(Framerates::Two),
            3 => Ok(Framerates::Four),
            4 => Ok(Framerates::Eight),
            5 => Ok(Framerates::Sixteen),
            6 => Ok(Framerates::Thirtytwo),
            7 => Ok(Framerates::Sixtyfour),
            _ => Err(()),
        }
    }
}

impl vstd::std_specs::convert::TryFromSpecImpl<u8> for Framerates {
    open spec fn obeys_try_from_spec() -> bool {
        true
    }

    open spec fn try_from_spec(v: u8) -> Result<Framerates, ()> {
        match Framerates::with_code(v as int) {
            Some(rate) => Ok(rate),
            None => Err(()),
        }
    }
}

/// Whether two texts hold the same characters.
pub fn same_text(left: &str, right: &str) -> (same: bool)
    ensures
        same == (left@ == right@),
{
    String::from_str(left) == String::from_str(right)
}

impl Framerates {
    /// The code of this rate in the control register, from 0 to 7.
    pub open spec fn code_of(self) -> int {
        match self {
            Framerates::Half => 0,
            Framerates::One => 1,
            Framerates::Two => 2,
            Framerates::Four => 3,
            Framerates::Eight => 4,
            Framerates::Sixteen => 5,
            Framerates::Thirtytwo => 6,
            Framerates::Sixtyfour => 7,
        }
    }

    /// The rate with the code `code`, where there is one.
    pub open spec fn with_code(code: int) -> Option<Framerates> {
        if code == 0 {
            Some(Framerates::Half)
        } else if code == 1 {
            Some(Framerates::One)
        } else if code == 2 {
            Some(Framerates::Two)
        } else if code == 3 {
            Some(Framerates::Four)
        } else if code == 4 {
            Some(Framerates::Eight)
        } else if code == 5 {
            Some(Framerates::Sixteen)
        } else if code == 6 {
            Some(Framerates::Thirtytwo)
        } else if code == 7 {
            Some(Framerates::Sixtyfour)
        } else {
            None
        }
    }

    /// The name of this rate: its number of frames per second.
    pub open spec fn name(self) -> Seq<char> {
        match self {
            Framerates::Half => "0.5"@,
            Framerates::One => "1"@,
            Framerates::Two => "2"@,
            Framerates::Four => "4"@,
            Framerates::Eight => "8"@,
            Framerates::Sixteen => "16"@,
            Framerates::Thirtytwo => "32"@,
            Framerates::Sixtyfour => "64"@,
        }
    }

    /// The rate that a text names, by its number or in words.
    pub open spec fn named(text: Seq<char>) -> Option<Framerates> {
        if text == "0.5"@ || text == "h"@ || text == "half"@ {
            Some(Framerates::Half)
        } else if text == "1"@ || text == "one"@ {
            Some(Framerates::One)
        } else if text == "2"@ || text == "two"@ {
            Some(Framerates::Two)
        } else if text == "4"@ || text == "four"@ {
            Some(Framerates::Four)
        } else if text == "8"@ || text == "eight"@ {
            Some(Framerates::Eight)
        } else if text == "16"@ || text == "sixteen"@ {
            Some(Framerates::Sixteen)
        } else if text == "32"@ || text == "thirtytwo"@ {
            Some(Framerates::Thirtytwo)
        } else if text == "64"@ || text == "sixtyfour"@ {
            Some(Framerates::Sixtyfour)
        } else {
            None
        }
    }

    /// The code of this rate in the control register.
    pub fn code(&self) -> (code: u8)
        ensures
            code == self.code_of(),
            code < 8,
    {
        match self {
            Framerates::Half => 0,
            Framerates::One => 1,
            Framerates::Two => 2,
            Framerates::Four => 3,
            Framerates::Eight => 4,
            Framerates::Sixteen => 5,
            Framerates::Thirtytwo => 6,
            Framerates::Sixtyfour => 7,
        }
    }

    /// The next faster rate; the fastest stays as it is.
    pub fn increase(&self) -> (faster: Framerates)
        ensures
            faster.code_of() == if self.code_of() < 7 {
                self.code_of() + 1
            } else {
                7
            },
    {
        let current_val: u8 = self.code();
        let new_val: u8 = if current_val < 7 {
            current_val + 1
        } else {
            7
        };
        match Framerates::try_from(new_val) {
            Ok(faster) => faster,
            Err(_) => Framerates::Sixtyfour,
        }
    }

    /// The next slower rate; the slowest stays as it is.
    pub fn decrease(&self) -> (slower: Framerates)
        ensures
            slower.code_of() == if self.code_of() > 0 {
                self.code_of() - 1
            } else {
                0
            },
    {
        let current_val: u8 = self.code();
        let new_val: u8 = if current_val > 0 {
            current_val - 1
        } else {
            0
        };
        match Framerates::try_from(new_val) {
            Ok(slower) => slower,
            Err(_) => Framerates::Half,
        }
    }

    /// The rate that a text names: its number of frames per second, or the
    /// number in words. Any other text is refused.
    pub fn from_str(s: &str) -> (rate: Result<Framerates, &'static str>)
        ensures
            match rate {
                Ok(rate) => Framerates::named(s@) == Some(rate),
                Err(message) => Framerates::named(s@) is None && message@
                    == "Unrecognised refresh rate. Only powers of 2 up to 64 are allowed"@,
            },
    {
        if same_text(s, "0.5") || same_text(s, "h") || same_text(s, "half") {
            Ok(Framerates::Half)
        } else if same_text(s, "1") || same_text(s, "one") {
            Ok(Framerates::One)
        } else if same_text(s, "2") || same_text(s, "two") {
            Ok(Framerates::Two)
        } else if same_text(s, "4") || same_text(s, "four") {
            Ok(Framerates::Four)
        } else if same_text(s, "8") || same_text(s, "eight") {
            Ok(Framerates::Eight)
        } else if same_text(s, "16") || same_text(s, "sixteen") {
            Ok(Framerates::Sixteen)
        } else if same_text(s, "32") || same_text(s, "thirtytwo") {
            Ok(Framerates::Thirtytwo)
        } else if same_text(s, "64") || same_text(s, "sixtyfour") {
            Ok(Framerates::Sixtyfour)
        } else {
            Err("Unrecognised refresh rate. Only powers of 2 up to 64 are allowed")
        }
    }

    /// The name of this rate: its number of frames per second.
    pub fn to_string(&self) -> (text: String)
        ensures
            text@ == self.name(),
    {
        match self {
            Framerates::Half => String::from_str("0.5"),
            Framerates::One => String::from_str("1"),
            Framerates::Two => String::from_str("2"),
            Framerates::Four => String::from_str("4"),
            Framerates::Eight => String::from_str("8"),
            Framerates::Sixteen => String::from_str("16"),
            Framerates::Thirtytwo => String::from_str("32"),
            Framerates::Sixtyfour => String::from_str("64"),
        }
    }
}

/// The name of a rate names that rate.
pub proof fn lemma_framerate_name_round_trip(rate: Framerates)
    ensures
        Framerates::named(rate.name()) == Some(rate),
{
    reveal_strlit("0.5");
    reveal_strlit("h");
    reveal_strlit("half");
    reveal_strlit("1");
    reveal_strlit("one");
    reveal_strlit("2");
    reveal_strlit("two");
    reveal_strlit("4");
    reveal_strlit("four");
    reveal_strlit("8");
    reveal_strlit("eight");
    reveal_strlit("16");
    reveal_strlit("sixteen");
    reveal_strlit("32");
    reveal_strlit("thirtytwo");
    reveal_strlit("64");
    reveal_strlit("sixtyfour");
    match rate {
        Framerates::Half => {},
        Framerates::One => {
            assert("1"@.len() != "0.5"@.len());
            assert("1"@[0] != "h"@[0]);
            assert("1"@.len() != "half"@.len());
        },
        Framerates::Two => {
            assert("2"@.len() != "0.5"@.len());
            assert("2"@[0] != "h"@[0]);
            assert("2"@.len() != "half"@.len());
            assert("2"@[0] != "1"@[0]);
            assert("2"@.len() != "one"@.len());
        },
        Framerates::Four => {
            assert("4"@.len() != "0.5"@.len());
            assert("4"@[0] != "h"@[0]);
            assert("4"@.len() != "half"@.len());
            assert("4"@[0] != "1"@[0]);
            assert("4"@.len() != "one"@.len());
            assert("4"@[0] != "2"@[0]);
            assert("4"@.len() != "two"@.len());
        },
        Framerates::Eight => {
            assert("8"@.len() != "0.5"@.len());
            assert("8"@[0] != "h"@[0]);
            assert("8"@.len() != "half"@.len());
            assert("8"@[0] != "1"@[0]);
            assert("8"@.len() != "one"@.len());
            assert("8"@[0] != "2"@[0]);
            assert("8"@.len() != "two"@.len());
            assert("8"@[0] != "4"@[0]);
            assert("8"@.len() != "four"@.len());
        },
        Framerates::Sixteen => {
            assert("16"@.len() != "0.5"@.len());
            assert("16"@.len() != "h"@.len());
            assert("16"@.len() != "half"@.len());
            assert("16"@.len() != "1"@.len());
            assert("16"@.len() != "one"@.len());
            assert("16"@.len() != "2"@.len());
            assert("16"@.len() != "two"@.len());
            assert("16"@.len() != "4"@.len());
            assert("16"@.len() != "four"@.len());
            assert("16"@.len() != "8"@.len());
            assert("16"@.len() != "eight"@.len());
        },
        Framerates::Thirtytwo => {
            assert("32"@.len() != "0.5"@.len());
            assert("32"@.len() != "h"@.len());
            assert("32"@.len() != "half"@.len());
            assert("32"@.len() != "1"@.len());
            assert("32"@.len() != "one"@.len());
            assert("32"@.len() != "2"@.len());
            assert("32"@.len() != "two"@.len());
            assert("32"@.len() != "4"@.len());
            assert("32"@.len() != "four"@.len());
            assert("32"@.len() != "8"@.len());
            assert("32"@.len() != "eight"@.len());
            assert("32"@[0] != "16"@[0]);
            assert("32"@.len() != "sixteen"@.len());
        },
        Framerates::Sixtyfour => {
            assert("64"@.len() != "0.5"@.len());
            assert("64"@.len() != "h"@.len());
            assert("64"@.len() != "half"@.len());
            assert("64"@.len() != "1"@.len());
            assert("64"@.len() != "one"@.len());
            assert("64"@.len() != "2"@.len());
            assert("64"@.len() != "two"@.len());
            assert("64"@.len() != "4"@.len());
            assert("64"@.len() != "four"@.len());
            assert("64"@.len() != "8"@.len());
            assert("64"@.len() != "eight"@.len());
            assert("64"@[0] != "16"@[0]);
            assert("64"@.len() != "sixteen"@.len());
            assert("64"@[0] != "32"@[0]);
            assert("64"@.len() != "thirtytwo"@.len());
        },
    }
}

/// A rate is known by its code: the code of a rate names that rate, and two
/// rates with one code are the same.
pub proof fn lemma_code_names_rate(rate: Framerates, other: Framerates)
    ensures
        0 <= rate.code_of() <= 7,
        Framerates::with_code(rate.code_of()) == Some(rate),
        rate.code_of() == other.code_of() ==> rate == other,
{
}

/// The refresh rate that a value of the control register selects: the code
/// in its bits 7 to 9.
pub fn read_framerate(ctrl_register: u16) -> (rate: Framerates)
    ensures
        rate.code_of() == field(ctrl_register as int, 7, 3),
{
    proof {
        lemma2_to64();
    }
    let refresh_rate_raw: u8 = bit_field(ctrl_register, 7, 3) as u8;
    match Framerates::try_from(refresh_rate_raw) {
        Ok(rate) => rate,
        Err(_) => Framerates::Half,
    }
}

/// The value of a control register with its bits 7 to 9 replaced by `code`.
pub open spec fn with_rate_code(ctrl_register: int, code: int) -> int {
    ctrl_register - field(ctrl_register, 7, 3) * 128 + code * 128
}

/// The value to write to the control register to select the rate `val`,
/// given the value that it holds: bits 7 to 9 take the code of the rate, all
/// other bits stay.
pub fn set_framerate(ctrl_register_1: u16, val: Framerates) -> (updated: u16)
    ensures
        updated == with_rate_code(ctrl_register_1 as int, val.code_of()),
        field(updated as int, 7, 3) == val.code_of(),
        field(updated as int, 0, 7) == field(ctrl_register_1 as int, 0, 7),
        field(updated as int, 10, 6) == field(ctrl_register_1 as int, 10, 6),
{
    let speed_val: u16 = val.code() as u16;
    let updated: u16 = (ctrl_register_1 & 0xFC7F) | (speed_val << 7);
    proof {
        lemma2_to64();
        let old_code = (ctrl_register_1 >> 7) & 7;
        assert(updated == ctrl_register_1 - old_code * 128 + speed_val * 128) by (bit_vector)
            requires
                speed_val < 8,
                updated == (ctrl_register_1 & 0xFC7F) | (speed_val << 7),
                old_code == (ctrl_register_1 >> 7) & 7,
        ;
        assert(old_code == (ctrl_register_1 / 128) % 8) by (bit_vector)
            requires
                old_code == (ctrl_register_1 >> 7) & 7,
        ;
        assert((updated / 128) % 8 == speed_val && updated % 128 == ctrl_register_1 % 128
            && updated / 1024 == ctrl_register_1 / 1024) by (bit_vector)
            requires
                speed_val < 8,
                updated == (ctrl_register_1 & 0xFC7F) | (speed_val << 7),
        ;
    }
    updated
}

/// Selecting a rate in the control register and reading the register back
/// gives that rate.
pub proof fn lemma_rate_round_trip(ctrl_register: u16, rate: Framerates, read: Framerates)
    requires
        read.code_of() == field(with_rate_code(ctrl_register as int, rate.code_of()), 7, 3),
    ensures
        read == rate,
{
    lemma2_to64();
    let code = rate.code_of();
    let before = ctrl_register as int;
    let low = before % 128;
    let high = before / 1024;
    let after = with_rate_code(before, code);
    assert(after == low + code * 128 + high * 1024);
    crate::bits::lemma_field_of_packed(low, code, high, 7, 3);
}

/// The lower-case form of a text, as the standard library gives it.
pub uninterp spec fn lowercase(text: Seq<char>) -> Seq<char>;

/// `str::to_lowercase` of the standard library: the result is the
/// lower-case form of the text, which depends on the text alone.
#[verifier::external_body]
fn to_lowercase(s: &str) -> (lower: String)
    ensures
        lower@ == lowercase(s@),
{
    s.to_lowercase()
}

impl ColorTypes {
    /// The name of this colouring.
    pub open spec fn name(self) -> Seq<char> {
        match self {
            ColorTypes::Gray => "Gray"@,
            ColorTypes::Cheap => "Cheap"@,
            ColorTypes::Hue => "Hue"@,
        }
    }

    /// The colouring that a lower-case text names.
    pub open spec fn named(lower: Seq<char>) -> Option<ColorTypes> {
        if lower == "gray"@ {
            Some(ColorTypes::Gray)
        } else if lower == "cheap"@ {
            Some(ColorTypes::Cheap)
        } else if lower == "hue"@ {
            Some(ColorTypes::Hue)
        } else {
            None
        }
    }

    /// The name of this colouring.
    pub fn to_string(&self) -> (text: String)
        ensures
            text@ == self.name(),
    {
        match self {
            ColorTypes::Gray => String::from_str("Gray"),
            ColorTypes::Cheap => String::from_str("Cheap"),
            ColorTypes::Hue => String::from_str("Hue"),
        }
    }

    /// The colouring that a lower-case text names; any other text is
    /// refused.
    pub fn from_lowercase(lower: &str) -> (color: Result<ColorTypes, &'static str>)
        ensures
            match color {
                Ok(color) => ColorTypes::named(lower@) == Some(color),
                Err(message) => ColorTypes::named(lower@) is None && message@
                    == "Unrecognised color type"@,
            },
    {
        if same_text(lower, "gray") {
            Ok(ColorTypes::Gray)
        } else if same_text(lower, "cheap") {
            Ok(ColorTypes::Cheap)
        } else if same_text(lower, "hue") {
            Ok(ColorTypes::Hue)
        } else {
            Err("Unrecognised color type")
        }
    }

    /// The colouring that a text names, whatever the case of its letters;
    /// any other text is refused.
    pub fn from_str(s: &str) -> (color: Result<ColorTypes, &'static str>)
        ensures
            match color {
                Ok(color) => ColorTypes::named(lowercase(s@)) == Some(color),
                Err(message) => ColorTypes::named(lowercase(s@)) is None && message@
                    == "Unrecognised color type"@,
            },
    {
        let lower = to_lowercase(s);
        ColorTypes::from_lowercase(lower.as_str())
    }
}

} // verus!
