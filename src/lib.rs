//! A client for the XSETTINGS convention: typed settings broadcast by a
//! settings manager through a serialized property on its window.
//!
//! The library holds the logic: the value model, the wire codec, the
//! snapshot differ and the session state machine. The windowing system is
//! reached by the caller, who hands the session plain values.

pub mod setting;
pub mod codec;
pub mod snapshot;
pub mod client;
pub mod diff_laws;
pub mod codec_laws;
pub mod rejection_laws;

pub use setting::{
    Setting, SettingData, SettingRef, XSettingsAction, XSettingsColor, XSettingsResult,
    XSettingsSetting, XSettingsType,
};

pub use client::{Client, Dispatch, Event, Need, Outcome, WATCH_MASK};
pub use snapshot::Change;

pub use setting::XSettingsResult as Error;
