//! The predictors of the modular mode.

use crate::error::Error;
use vstd::prelude::*;
use vstd::std_specs::convert::TryFromSpec;

verus! {

/// How a sample of a modular channel is predicted from its neighbours.
#[derive(Clone, Copy, Debug, PartialEq, Eq, Structural)]
pub enum Predictor {
    Zero,
    West,
    North,
    AverageWestAndNorth,
    Select,
    Gradient,
    Weighted,
    NorthEast,
    NorthWest,
    WestWest,
    AverageWestAndNorthWest,
    AverageNorthAndNorthWest,
    AverageNorthAndNorthEast,
    AverageAll,
}

impl Predictor {
    /// The number of predictors.
    pub const NUM_PREDICTORS: u32 = 14;

    /// The code of a predictor: its place in the list, from zero.
    pub open spec fn code(self) -> u32 {
        match self {
            Predictor::Zero => 0,
            Predictor::West => 1,
            Predictor::North => 2,
            Predictor::AverageWestAndNorth => 3,
            Predictor::Select => 4,
            Predictor::Gradient => 5,
            Predictor::Weighted => 6,
            Predictor::NorthEast => 7,
            Predictor::NorthWest => 8,
            Predictor::WestWest => 9,
            Predictor::AverageWestAndNorthWest => 10,
            Predictor::AverageNorthAndNorthWest => 11,
            Predictor::AverageNorthAndNorthEast => 12,
            Predictor::AverageAll => 13,
        }
    }
}

impl TryFrom<u32> for Predictor {
    type Error = Error;

    /// The predictor with the code `value`.
    fn try_from(value: u32) -> (r: Result<Self, Error>) {
        match value {
            0 => Ok(Predictor::Zero),
            1 => Ok(Predictor::West),
            2 => Ok(Predictor::North),
            3 => Ok(Predictor::AverageWestAndNorth),
            4 => Ok(Predictor::Select),
            5 => Ok(Predictor::Gradient),
            6 => Ok(Predictor::Weighted),
            7 => Ok(Predictor::NorthEast),
            8 => Ok(Predictor::NorthWest),
            9 => Ok(Predictor::WestWest),
            10 => Ok(Predictor::AverageWestAndNorthWest),
            11 => Ok(Predictor::AverageNorthAndNorthWest),
            12 => Ok(Predictor::AverageNorthAndNorthEast),
            13 => Ok(Predictor::AverageAll),
            _ => Err(Error::InvalidPredictor(value)),
        }
    }
}

impl vstd::std_specs::convert::TryFromSpecImpl<u32> for Predictor {
    open spec fn obeys_try_from_spec() -> bool {
        true
    }

    /// The predictor with the code `value`; a code from 14 on names none.
    open spec fn try_from_spec(value: u32) -> Result<Self, Error> {
        if value == 0 {
            Ok(Predictor::Zero)
        } else if value == 1 {
            Ok(Predictor::West)
        } else if value == 2 {
            Ok(Predictor::North)
        } else if value == 3 {
            Ok(Predictor::AverageWestAndNorth)
        } else if value == 4 {
            Ok(Predictor::Select)
        } else if value == 5 {
            Ok(Predictor::Gradient)
        } else if value == 6 {
            Ok(Predictor::Weighted)
        } else if value == 7 {
            Ok(Predictor::NorthEast)
        } else if value == 8 {
            Ok(Predictor::NorthWest)
        } else if value == 9 {
            Ok(Predictor::WestWest)
        } else if value == 10 {
            Ok(Predictor::AverageWestAndNorthWest)
        } else if value == 11 {
            Ok(Predictor::AverageNorthAndNorthWest)
        } else if value == 12 {
            Ok(Predictor::AverageNorthAndNorthEast)
        } else if value == 13 {
            Ok(Predictor::AverageAll)
        } else {
            Err(Error::InvalidPredictor(value))
        }
    }
}

/// A code below the number of predictors names the predictor that has this
/// code, and no other code names one.
pub proof fn lemma_predictor_of_code(value: u32)
    ensures
        value < Predictor::NUM_PREDICTORS ==> Predictor::try_from_spec(value) is Ok
            && Predictor::try_from_spec(value)->Ok_0.code() == value,
        value >= Predictor::NUM_PREDICTORS ==> Predictor::try_from_spec(value) == Err::<
            Predictor,
            Error,
        >(Error::InvalidPredictor(value)),
{
}

} // verus!
