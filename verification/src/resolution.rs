//! The six display modes of the headset and the table that describes them.

use vstd::prelude::*;

verus! {

/// A display mode. The headset knows exactly these six; each is selected on
/// the wire by its index, `0` to `5`, in declaration order.
#[derive(Clone, Copy, Debug, PartialEq, Eq, Structural)]
pub enum Resolution {
    R2448x1224f90,
    R2448x1224f120,
    R3264x1632f90,
    R3680x1836f90,
    R4896x2448f90,
    R4896x2448f120,
}

/// Number of display modes; valid indices are `0..MODE_COUNT`.
pub const MODE_COUNT: u8 = 6;

/// Row `i` of the mode table: width and height in pixels, and the frame rate
/// in hundredths of a hertz. Rows outside `0..6` are not part of the table.
pub open spec fn mode_table(i: int) -> (int, int, int) {
    if i == 0 {
        (2448, 1224, 9003)
    } else if i == 1 {
        (2448, 1224, 12005)
    } else if i == 2 {
        (3264, 1632, 9000)
    } else if i == 3 {
        (3680, 1836, 9002)
    } else if i == 4 {
        (4896, 2448, 9002)
    } else {
        (4896, 2448, 12002)
    }
}

/// The mode that index `i` selects, if there is one.
pub open spec fn mode_of_index(i: int) -> Option<Resolution> {
    if i == 0 {
        Some(Resolution::R2448x1224f90)
    } else if i == 1 {
        Some(Resolution::R2448x1224f120)
    } else if i == 2 {
        Some(Resolution::R3264x1632f90)
    } else if i == 3 {
        Some(Resolution::R3680x1836f90)
    } else if i == 4 {
        Some(Resolution::R4896x2448f90)
    } else if i == 5 {
        Some(Resolution::R4896x2448f120)
    } else {
        None
    }
}

impl Resolution {
    /// The wire index of this mode.
    pub open spec fn spec_index(self) -> int {
        match self {
            Resolution::R2448x1224f90 => 0,
            Resolution::R2448x1224f120 => 1,
            Resolution::R3264x1632f90 => 2,
            Resolution::R3680x1836f90 => 3,
            Resolution::R4896x2448f90 => 4,
            Resolution::R4896x2448f120 => 5,
        }
    }

    /// The wire index of this mode, `0` to `5`.
    pub fn index(&self) -> (i: u8)
        ensures
            i == self.spec_index(),
            i < MODE_COUNT,
            mode_of_index(i as int) == Some(*self),
    {
        match self {
            Resolution::R2448x1224f90 => 0,
            Resolution::R2448x1224f120 => 1,
            Resolution::R3264x1632f90 => 2,
            Resolution::R3680x1836f90 => 3,
            Resolution::R4896x2448f90 => 4,
            Resolution::R4896x2448f120 => 5,
        }
    }

    /// Width and height of one frame, in pixels.
    pub fn resolution(&self) -> (wh: (u32, u32))
        ensures
            wh.0 == mode_table(self.spec_index()).0,
            wh.1 == mode_table(self.spec_index()).1,
    {
        match self {
            Resolution::R2448x1224f90 => (2448, 1224),
            Resolution::R2448x1224f120 => (2448, 1224),
            Resolution::R3264x1632f90 => (3264, 1632),
            Resolution::R3680x1836f90 => (3680, 1836),
            Resolution::R4896x2448f90 => (4896, 2448),
            Resolution::R4896x2448f120 => (4896, 2448),
        }
    }

    /// Frame rate in hundredths of a hertz: `9003` stands for 90.03 Hz.
    pub fn frame_rate_centihertz(&self) -> (rate: u32)
        ensures
            rate == mode_table(self.spec_index()).2,
    {
        match self {
            Resolution::R2448x1224f90 => 9003,
            Resolution::R2448x1224f120 => 12005,
            Resolution::R3264x1632f90 => 9000,
            Resolution::R3680x1836f90 => 9002,
            Resolution::R4896x2448f90 => 9002,
            Resolution::R4896x2448f120 => 12002,
        }
    }
}

impl TryFrom<u8> for Resolution {
    type Error = ();

    /// The mode with wire index `value`. Indices past the table are refused,
    /// never mapped onto some mode.
    fn try_from(value: u8) -> (r: Result<Resolution, ()>)
        ensures
            r is Ok <==> value < MODE_COUNT,
            r matches Ok(mode) ==> mode_of_index(value as int) == Some(mode)
                && mode.spec_index() == value,
            r is Err <==> mode_of_index(value as int) is None,
    {
        match value {
            0 => Ok(Resolution::R2448x1224f90),
            1 => Ok(Resolution::R2448x1224f120),
            2 => Ok(Resolution::R3264x1632f90),
            3 => Ok(Resolution::R3680x1836f90),
            4 => Ok(Resolution::R4896x2448f90),
            5 => Ok(Resolution::R4896x2448f120),
            _ => Err(()),
        }
    }
}

impl vstd::std_specs::convert::TryFromSpecImpl<u8> for Resolution {
    open spec fn obeys_try_from_spec() -> bool {
        true
    }

    open spec fn try_from_spec(value: u8) -> Result<Resolution, ()> {
        match mode_of_index(value as int) {
            Some(mode) => Ok(mode),
            None => Err(()),
        }
    }
}

/// Going from a mode to its index and back gives the same mode, and the
/// index lies in the table.
pub proof fn lemma_index_round_trip(mode: Resolution)
    ensures
        0 <= mode.spec_index() < 6,
        mode_of_index(mode.spec_index()) == Some(mode),
{
}

/// Every index `0` to `5` selects a mode, that mode carries the same index
/// again, and no index from `6` on selects anything.
pub proof fn lemma_mode_of_index_total(i: int)
    requires
        0 <= i,
    ensures
        i < 6 ==> mode_of_index(i) is Some && mode_of_index(i)->0.spec_index() == i,
        i >= 6 ==> mode_of_index(i) is None,
{
}

} // verus!
