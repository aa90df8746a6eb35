//! Verified core of the wattch energy-measurement tools: length-prefixed
//! framing, configuration and duration parsing, source selection, the
//! daemon's request decisions and stream bookkeeping, and the CLI's text
//! renderers.

pub mod buffer;
pub mod cli;
pub mod config;
pub mod daemon;
pub mod duration;
pub mod errors;
pub mod framing;
pub mod numeric;
pub mod output;
pub mod proto;
pub mod sources;
pub mod text;

use vstd::prelude::*;

pub use crate::config::{
    ServiceConfig, DEFAULT_CONFIG_PATH, DEFAULT_SOCKET_MODE, DEFAULT_SOCKET_PATH,
    PRODUCTION_POWER_CAP_ROOT,
};
pub use crate::duration::parse_duration;
pub use crate::framing::{decode_frame, encode_frame, frame_payload_len, MAX_FRAME_SIZE};
pub use crate::sources::{validate_source_ids, PowercapSource, SourceMetadata};

pub use crate::errors::WattchError;

verus! {

/// The smallest sampling interval the daemon accepts, in nanoseconds (100 us).
pub const MIN_INTERVAL_NS: u64 = 100_000;

/// Accepts a sampling interval of at least [`MIN_INTERVAL_NS`].
pub fn validate_interval_ns(interval_ns: u64) -> (r: Result<(), WattchError>)
    ensures
        interval_ns >= MIN_INTERVAL_NS ==> r is Ok,
        interval_ns < MIN_INTERVAL_NS ==> r == Err::<(), WattchError>(
            WattchError::IntervalTooLow { interval_ns, min_interval_ns: MIN_INTERVAL_NS },
        ),
{
    if interval_ns < MIN_INTERVAL_NS {
        return Err(WattchError::IntervalTooLow { interval_ns, min_interval_ns: MIN_INTERVAL_NS });
    }
    Ok(())
}

} // verus!
