use vstd::prelude::*;

verus! {

/// Why a development request was rejected.
#[derive(Clone, Copy, Debug, PartialEq, Eq, Structural)]
pub enum DevelopError {
    /// The black level array holds neither one nor four entries.
    BlackLevelCount(usize),
    /// The white level array holds neither one nor four entries.
    WhiteLevelCount(usize),
    /// No calibration entry is given for the reference illuminant.
    IlluminantNotFound,
    /// The active area does not lie within the sensor rectangle.
    ActiveAreaOutOfBounds,
    /// The crop rectangle does not lie within the active area.
    CropOutOfBounds,
    /// The samples are not integers of one component per pixel.
    UnsupportedFormat,
}

impl DevelopError {
    /// Whether the error stems from the calibration data, as opposed to
    /// the representation of the samples.
    pub open spec fn is_configuration(self) -> bool {
        !(self is UnsupportedFormat)
    }

    pub fn is_configuration_error(&self) -> (r: bool)
        ensures
            r == self.is_configuration(),
    {
        match self {
            DevelopError::UnsupportedFormat => false,
            _ => true,
        }
    }
}

} // verus!
