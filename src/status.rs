//! Status codes of the instrument interface and the operating modes it reports.
use vstd::prelude::*;

verus! {

/// The errors an instrument call can report.
#[derive(Clone, Copy, Debug, PartialEq, Eq, Structural)]
pub enum Error {
    ParameterOutOfRangeError,
    IllegalStringError,
    ContextError,
    FunctionNotSupportedError,
    CommunicationError,
    FwError,
    LibraryError,
    GenericError,
    ChannelNotFoundError,
    PatternNotFoundError,
    EventNotFoundError,
    PatternAlreadyExistsError,
    SequencerNotRunningError,
    ResultNotReadyError,
    ResultOutOfDate,
    /// A failure that no status code names.
    UnidentifiedError,
}

/// The result of an operation that hands back nothing but its status.
pub type Res = Result<(), Error>;

/// The error that a non-zero status code names, if any.
pub open spec fn error_of_code(code: int) -> Option<Error> {
    if code == -1 {
        Some(Error::ParameterOutOfRangeError)
    } else if code == -2 {
        Some(Error::IllegalStringError)
    } else if code == -3 {
        Some(Error::ContextError)
    } else if code == -4 {
        Some(Error::FunctionNotSupportedError)
    } else if code == -5 {
        Some(Error::CommunicationError)
    } else if code == -6 {
        Some(Error::FwError)
    } else if code == -7 {
        Some(Error::LibraryError)
    } else if code == -8 {
        Some(Error::GenericError)
    } else if code == -9 {
        Some(Error::ChannelNotFoundError)
    } else if code == -10 {
        Some(Error::PatternNotFoundError)
    } else if code == -11 {
        Some(Error::EventNotFoundError)
    } else if code == -12 {
        Some(Error::PatternAlreadyExistsError)
    } else if code == -13 {
        Some(Error::SequencerNotRunningError)
    } else if code == -14 {
        Some(Error::ResultNotReadyError)
    } else if code == -15 {
        Some(Error::ResultOutOfDate)
    } else {
        None
    }
}

/// What a status code means: zero is success, a known code its error, and
/// any other code the unidentified error.
pub open spec fn status_of(code: int) -> Res {
    if code == 0 {
        Ok(())
    } else {
        match error_of_code(code) {
            Some(e) => Err(e),
            None => Err(Error::UnidentifiedError),
        }
    }
}

impl Error {
    /// The error that a status code names, if it names one.
    pub fn from_code(code: i32) -> (r: Option<Error>)
        ensures
            r == error_of_code(code as int),
    {
        match code {
            -1 => Some(Error::ParameterOutOfRangeError),
            -2 => Some(Error::IllegalStringError),
            -3 => Some(Error::ContextError),
            -4 => Some(Error::FunctionNotSupportedError),
            -5 => Some(Error::CommunicationError),
            -6 => Some(Error::FwError),
            -7 => Some(Error::LibraryError),
            -8 => Some(Error::GenericError),
            -9 => Some(Error::ChannelNotFoundError),
            -10 => Some(Error::PatternNotFoundError),
            -11 => Some(Error::EventNotFoundError),
            -12 => Some(Error::PatternAlreadyExistsError),
            -13 => Some(Error::SequencerNotRunningError),
            -14 => Some(Error::ResultNotReadyError),
            -15 => Some(Error::ResultOutOfDate),
            _ => None,
        }
    }
}

/// Maps a status code to the result of the call that returned it.
pub fn get_result(ret: i32) -> (r: Res)
    ensures
        r == status_of(ret as int),
{
    match ret {
        0 => Ok(()),
        _ => match Error::from_code(ret) {
            Some(err) => Err(err),
            None => Err(Error::UnidentifiedError),
        },
    }
}

/// How a channel is operated.
#[derive(Clone, Copy, Debug, PartialEq, Eq, Structural)]
pub enum OperationMode {
    OperationModeDC,
    OperationModeFastIV,
    OperationModePG,
    OperationModeSMU,
}

/// The quantity a channel measures.
#[derive(Clone, Copy, Debug, PartialEq, Eq, Structural)]
pub enum MeasureMode {
    MeasureModeVoltage,
    MeasureModeCurrent,
}

/// Whether a measure event reports averaged or raw samples.
#[derive(Clone, Copy, Debug, PartialEq, Eq, Structural)]
pub enum MeasureEventMode {
    MeasureEventDataAveraged,
    MeasureEventDataRaw,
}

pub open spec fn operation_mode_code(m: OperationMode) -> int {
    match m {
        OperationMode::OperationModeDC => 2000,
        OperationMode::OperationModeFastIV => 2001,
        OperationMode::OperationModePG => 2002,
        OperationMode::OperationModeSMU => 2003,
    }
}

pub open spec fn measure_mode_code(m: MeasureMode) -> int {
    match m {
        MeasureMode::MeasureModeVoltage => 4000,
        MeasureMode::MeasureModeCurrent => 4001,
    }
}

pub open spec fn measure_event_mode_code(m: MeasureEventMode) -> int {
    match m {
        MeasureEventMode::MeasureEventDataAveraged => 12000,
        MeasureEventMode::MeasureEventDataRaw => 12001,
    }
}

impl OperationMode {
    /// The instrument's code for this mode.
    pub fn code(&self) -> (r: i32)
        ensures
            r as int == operation_mode_code(*self),
    {
        match self {
            OperationMode::OperationModeDC => 2000,
            OperationMode::OperationModeFastIV => 2001,
            OperationMode::OperationModePG => 2002,
            OperationMode::OperationModeSMU => 2003,
        }
    }

    /// The mode that an instrument code names, if any.
    pub fn from_code(code: i32) -> (r: Option<OperationMode>)
        ensures
            r matches Some(m) ==> operation_mode_code(m) == code as int,
            r is None <==> !(2000 <= code <= 2003),
    {
        match code {
            2000 => Some(OperationMode::OperationModeDC),
            2001 => Some(OperationMode::OperationModeFastIV),
            2002 => Some(OperationMode::OperationModePG),
            2003 => Some(OperationMode::OperationModeSMU),
            _ => None,
        }
    }
}

impl MeasureMode {
    /// The instrument's code for this mode.
    pub fn code(&self) -> (r: i32)
        ensures
            r as int == measure_mode_code(*self),
    {
        match self {
            MeasureMode::MeasureModeVoltage => 4000,
            MeasureMode::MeasureModeCurrent => 4001,
        }
    }

    /// The mode that an instrument code names, if any.
    pub fn from_code(code: i32) -> (r: Option<MeasureMode>)
        ensures
            r matches Some(m) ==> measure_mode_code(m) == code as int,
            r is None <==> !(4000 <= code <= 4001),
    {
        match code {
            4000 => Some(MeasureMode::MeasureModeVoltage),
            4001 => Some(MeasureMode::MeasureModeCurrent),
            _ => None,
        }
    }
}

impl MeasureEventMode {
    /// The instrument's code for this mode.
    pub fn code(&self) -> (r: i32)
        ensures
            r as int == measure_event_mode_code(*self),
    {
        match self {
            MeasureEventMode::MeasureEventDataAveraged => 12000,
            MeasureEventMode::MeasureEventDataRaw => 12001,
        }
    }
}

} // verus!
