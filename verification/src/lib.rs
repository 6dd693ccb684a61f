//! Per-channel monitor and reconciliation engine for a geographic listing
//! subscription service.
//!
//! Each subscription watches one notification channel: a poll loop fetches the
//! listings currently available around the subscription's coordinates, a
//! filter drops listings whose display name does not match the configured
//! pattern, an availability classifier decides which listings warrant a
//! visible notification, and the reconciler diffs the snapshot against the
//! per-channel notification store to produce the minimal set of post / edit /
//! delete actions. The surrounding process performs the transport calls and
//! feeds each call's outcome back, so every decision — including the rule that
//! a record is committed only after its transport call succeeded — is made
//! here.
//!
//! Two behaviors of the upstream service this engine was written against are
//! kept deliberately and should be read as documented policy, not accident:
//!
//! - A listing is classified as visible when its purchase deadline is
//!   *present* and its quantity is positive; the deadline's value is not
//!   compared against the current time, so a listing whose deadline already
//!   passed stays visible until its quantity drops or the listing leaves the
//!   snapshot.
//! - Records whose item leaves the snapshot entirely are retained, not swept:
//!   a notification disappears only when a later snapshot reports its item as
//!   no longer visible, or when the subscription stops and teardown deletes
//!   everything.

use vstd::prelude::*;

pub mod config;
pub mod data;
pub mod filter;
pub mod kvmap;
pub mod laws;
pub mod monitor;
pub mod reconcile;
pub mod store;

verus! {

/// Unit in which a subscription's radius is measured.
pub const RADIUS_UNIT: &'static str = "km";

/// Radius assigned to a subscription configured without an explicit one.
pub const DEFAULT_RADIUS: u8 = 1;

/// Zoom level used when linking a coordinate pair on a map.
pub const OSM_ZOOM_LEVEL: u8 = 15;

} // verus!
