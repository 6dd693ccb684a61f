//! Data model for one reconciliation cycle.
//!
//! A listing snapshot is ephemeral: it exists for the duration of one cycle
//! and is never persisted. Timestamps are carried as Unix seconds, geographic
//! coordinates as microdegrees (degrees times one million) and distances as
//! meters, so that every field the engine reasons about is a plain integer or
//! string.

use vstd::prelude::*;

verus! {

/// Identity and price of one offered item.
pub struct Item {
    pub item_id: String,
    pub price_including_taxes: ItemPrice,
}

/// A price in minor units of a currency: `minor_units` scaled down by
/// `decimals` decimal places gives the amount in `code`.
pub struct ItemPrice {
    pub code: String,
    pub minor_units: u32,
    pub decimals: u32,
}

/// The store offering a listing. The time zone is carried by name.
pub struct Store {
    pub store_name: String,
    pub logo_picture: Logo,
    pub store_time_zone: String,
}

/// Reference to the store's image.
pub struct Logo {
    pub current_url: String,
}

/// Pickup window, in Unix seconds.
#[derive(Clone, Copy)]
pub struct PickupInterval {
    pub start: i64,
    pub end: i64,
}

/// Where the items are picked up.
#[derive(Clone, Copy)]
pub struct PickupLocation {
    pub location: Location,
}

/// A coordinate pair in microdegrees.
#[derive(Clone, Copy)]
pub struct Location {
    pub latitude_micro: i64,
    pub longitude_micro: i64,
}

/// One listing as reported by the external listing source for one cycle.
pub struct TGTGListing {
    pub item: Item,
    pub store: Store,
    pub display_name: String,
    pub items_available: usize,
    /// Distance from the subscription's coordinates, in meters.
    pub distance: u64,
    pub pickup_location: PickupLocation,
    pub pickup_interval: Option<PickupInterval>,
    /// Purchase deadline in Unix seconds, if the listing has one.
    pub purchase_end: Option<i64>,
}

/// The notification currently representing an item in the channel: the
/// transport message identity and the quantity it was last seen showing.
#[derive(Clone, Copy, PartialEq, Eq, Structural, Debug)]
pub struct ItemMessage {
    pub message_id: u64,
    pub quantity: usize,
}

impl TGTGListing {
    /// The stable identity of the listed item.
    pub open spec fn id(&self) -> Seq<char> {
        self.item.item_id@
    }
}

} // verus!
