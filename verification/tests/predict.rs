use jxl::error::Error;
use jxl::frame::modular::predict::Predictor;

#[test]
fn each_code_names_its_predictor() {
    let predictors = [
        Predictor::Zero,
        Predictor::West,
        Predictor::North,
        Predictor::AverageWestAndNorth,
        Predictor::Select,
        Predictor::Gradient,
        Predictor::Weighted,
        Predictor::NorthEast,
        Predictor::NorthWest,
        Predictor::WestWest,
        Predictor::AverageWestAndNorthWest,
        Predictor::AverageNorthAndNorthWest,
        Predictor::AverageNorthAndNorthEast,
        Predictor::AverageAll,
    ];
    assert_eq!(predictors.len() as u32, Predictor::NUM_PREDICTORS);
    for (code, predictor) in predictors.iter().enumerate() {
        assert_eq!(Predictor::try_from(code as u32), Ok(*predictor));
        assert_eq!(*predictor as u32, code as u32);
    }
    assert_eq!(Predictor::NUM_PREDICTORS, Predictor::AverageAll as u32 + 1);
}

#[test]
fn a_code_from_fourteen_on_names_none() {
    assert_eq!(Predictor::try_from(14), Err(Error::InvalidPredictor(14)));
    assert_eq!(Predictor::try_from(15), Err(Error::InvalidPredictor(15)));
    assert_eq!(Predictor::try_from(u32::MAX), Err(Error::InvalidPredictor(u32::MAX)));
    let converted: Result<Predictor, Error> = 5u32.try_into();
    assert_eq!(converted, Ok(Predictor::Gradient));
}
