//! Error types of the services. Each variant carries the detail text that
//! the service reports with it.

use vstd::prelude::*;

verus! {

/// Failures of the signal-processing routines.
pub enum SignalProcessingError {
    InsufficientLength(String),
    WaveletDenoiseError(String),
    NormalizationError(String),
    OrderTrackingError(String),
}

/// Failures of the in-process alarm engine.
pub enum AlarmError {
    WriteError(String),
    MesPushError(String),
}

/// Failures of the alarm pusher task.
pub enum AlarmPusherError {
    SignalProcessingError(SignalProcessingError),
    MesPushError(String),
    ChannelSendError(String),
    ConfigError(String),
    AlarmCreationError(String),
}

/// Failures of the damage classifier task.
pub enum DamageClassifierError {
    SignalProcessingError(SignalProcessingError),
    ConfigError(String),
    ChannelSendError(String),
    ClassificationError(String),
}

/// Failures of the damage diagnosis service.
pub enum DiagnosisError {
    ModelLoadError(String),
    FeatureExtractionError(String),
}

/// Failures of the sensor ingestion driver.
pub enum EthernetDriverError {
    SignalProcessingError(SignalProcessingError),
    ChannelSendError(String),
    ConfigError(String),
}

/// Failures of the time-series store.
pub enum InfluxDBError {
    ConnectionError(String),
    QueryError(String),
    WriteError(String),
    ParseError(String),
}

/// Failures of the strain interpolation task.
pub enum StrainInterpolatorError {
    SignalProcessingError(SignalProcessingError),
    ChannelSendError(String),
    InterpolationError(String),
    ConfigError(String),
}

impl From<SignalProcessingError> for AlarmPusherError {
    fn from(e: SignalProcessingError) -> (r: Self) {
        AlarmPusherError::SignalProcessingError(e)
    }
}

impl vstd::std_specs::convert::FromSpecImpl<SignalProcessingError> for AlarmPusherError {
    open spec fn obeys_from_spec() -> bool {
        true
    }

    open spec fn from_spec(e: SignalProcessingError) -> Self {
        AlarmPusherError::SignalProcessingError(e)
    }
}

impl From<SignalProcessingError> for DamageClassifierError {
    fn from(e: SignalProcessingError) -> (r: Self) {
        DamageClassifierError::SignalProcessingError(e)
    }
}

impl vstd::std_specs::convert::FromSpecImpl<SignalProcessingError> for DamageClassifierError {
    open spec fn obeys_from_spec() -> bool {
        true
    }

    open spec fn from_spec(e: SignalProcessingError) -> Self {
        DamageClassifierError::SignalProcessingError(e)
    }
}

impl From<SignalProcessingError> for EthernetDriverError {
    fn from(e: SignalProcessingError) -> (r: Self) {
        EthernetDriverError::SignalProcessingError(e)
    }
}

impl vstd::std_specs::convert::FromSpecImpl<SignalProcessingError> for EthernetDriverError {
    open spec fn obeys_from_spec() -> bool {
        true
    }

    open spec fn from_spec(e: SignalProcessingError) -> Self {
        EthernetDriverError::SignalProcessingError(e)
    }
}

impl From<SignalProcessingError> for StrainInterpolatorError {
    fn from(e: SignalProcessingError) -> (r: Self) {
        StrainInterpolatorError::SignalProcessingError(e)
    }
}

impl vstd::std_specs::convert::FromSpecImpl<SignalProcessingError> for StrainInterpolatorError {
    open spec fn obeys_from_spec() -> bool {
        true
    }

    open spec fn from_spec(e: SignalProcessingError) -> Self {
        StrainInterpolatorError::SignalProcessingError(e)
    }
}

} // verus!
