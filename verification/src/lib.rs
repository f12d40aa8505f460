//! Decoder and query engine for version 1.04 eXtended Module (XM) tracker files.
//!
//! A module is decoded from a byte buffer into patterns, tracks, instruments and
//! samples. Tracks answer questions about the parameters in effect on a row;
//! samples convert their delta-coded payload into linear PCM.

pub mod bytes;
pub mod effects;
pub mod error;
pub mod instrument;
pub mod module;
pub mod pattern;
pub mod sample;
pub mod track;

pub use effects::{
    XM_FX_0XX, XM_FX_1XX, XM_FX_2XX, XM_FX_3XX, XM_FX_4XX, XM_FX_5XX, XM_FX_6XX, XM_FX_7XX,
    XM_FX_8XX, XM_FX_9XX, XM_FX_AXX, XM_FX_BXX, XM_FX_CXX, XM_FX_DXX, XM_FX_E1X, XM_FX_E2X,
    XM_FX_E3X, XM_FX_E4X, XM_FX_E5X, XM_FX_E6X, XM_FX_E7X, XM_FX_E8X, XM_FX_E9X, XM_FX_EAX,
    XM_FX_EBX, XM_FX_ECX, XM_FX_EDX, XM_FX_EEX, XM_FX_FXX, XM_FX_GXX, XM_FX_HXX, XM_FX_KXX,
    XM_FX_LXX, XM_FX_PXX, XM_FX_RXX, XM_FX_TXX, XM_FX_X1X, XM_FX_X2X,
};
pub use error::{XMErrorKind, XMParseError};
pub use instrument::{XMInstrument, XM_ENVELOPE_LOOP, XM_ENVELOPE_ON, XM_ENVELOPE_SUSTAIN};
pub use module::XModule;
pub use pattern::XMPattern;
pub use sample::{
    XMSample, XM_SAMPLE_16BIT, XM_SAMPLE_LOOP_FORWARD, XM_SAMPLE_LOOP_NONE,
    XM_SAMPLE_LOOP_PINGPONG,
};
pub use track::{XMCell, XMTrack};
