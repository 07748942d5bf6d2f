use vstd::prelude::*;

verus! {

/// One decal applied to an item, as the inspection service reports it.
pub struct Sticker {
    pub sticker_id: usize,
    /// Slot on the weapon, 0 to 3.
    pub slot: u8,
    pub codename: String,
    pub name: String,
}

/// What the inspection service reports of one item.
pub struct ItemInfo {
    /// Weapon identifier.
    pub defindex: usize,
    /// Paint-kit identifier.
    pub paintindex: usize,
    pub paintseed: usize,
    /// Wear value, kept as the decimal text of the JSON number.
    pub floatvalue: String,
    /// Weapon type, e.g. `AWP`.
    pub weapon_type: String,
    /// Paint-kit name.
    pub item_name: String,
    pub full_item_name: String,
    /// Decals, in the order in which they are applied.
    pub stickers: Vec<Sticker>,
}

/// The shapes that an inspection-service response can take.
pub enum ApiResponse {
    /// The response carries an `iteminfo` object.
    Item(ItemInfo),
    /// The response carries an `error` field; the other two fields are the
    /// JSON text of `code` and `status`.
    Error { error: String, code: String, status: String },
    /// Neither `error` nor `iteminfo` is present.
    Malformed,
}

/// One decal placement of a canonical record.
pub struct OSticker {
    pub sticker_id: usize,
    pub slot: u8,
}

/// The canonical record of one item.
pub struct Item {
    pub item_name: String,
    /// Absent when the item carries no name tag; an empty tag is `Some("")`.
    pub name_tag: Option<String>,
    pub paint_kit: usize,
    pub paint_kit_name: String,
    pub seed: usize,
    pub stickers: Vec<OSticker>,
    pub weapon_id: usize,
    /// Wear value, as decimal text.
    pub wear: String,
}

} // verus!
