use vstd::prelude::*;
use crate::model::{ItemInfo, Item, OSticker};

verus! {

/// `out` is `info` carried over into the canonical record, decals in order,
/// with `tag` as its name tag.
pub open spec fn is_conversion_of(out: Item, info: ItemInfo, tag: Option<String>) -> bool {
    &&& out.item_name@ == info.weapon_type@
    &&& out.name_tag == tag
    &&& out.paint_kit == info.paintindex
    &&& out.paint_kit_name@ == info.item_name@
    &&& out.seed == info.paintseed
    &&& out.weapon_id == info.defindex
    &&& out.wear@ == info.floatvalue@
    &&& out.stickers@.len() == info.stickers@.len()
    &&& forall|i: int|
        0 <= i < out.stickers@.len() ==> {
            &&& #[trigger] out.stickers@[i].sticker_id == info.stickers@[i].sticker_id
            &&& out.stickers@[i].slot == info.stickers@[i].slot
        }
}

impl Item {
    /// The canonical record of `from`, without a name tag.
    pub fn from_api(from: ItemInfo) -> (r: Item)
        ensures
            is_conversion_of(r, from, None),
    {
        let mut stickers: Vec<OSticker> = Vec::new();
        let n = from.stickers.len();
        let mut i: usize = 0;
        while i < n
            invariant
                n == from.stickers@.len(),
                i <= n,
                stickers@.len() == i,
                forall|j: int|
                    0 <= j < i ==> {
                        &&& #[trigger] stickers@[j].sticker_id == from.stickers@[j].sticker_id
                        &&& stickers@[j].slot == from.stickers@[j].slot
                    },
            decreases n - i,
        {
            let s = &from.stickers[i];
            stickers.push(OSticker { sticker_id: s.sticker_id, slot: s.slot });
            i = i + 1;
        }
        let ItemInfo { defindex, paintindex, paintseed, floatvalue, weapon_type, item_name, .. } =
            from;
        Item {
            item_name: weapon_type,
            name_tag: None,
            paint_kit: paintindex,
            paint_kit_name: item_name,
            seed: paintseed,
            stickers,
            weapon_id: defindex,
            wear: floatvalue,
        }
    }
}

/// The canonical record of `info`, with `name_tag` as its name tag: every
/// field is carried over, decals keep their ids, slots and order, and the tag
/// is absent exactly when `name_tag` is `None`.
pub fn convert(info: ItemInfo, name_tag: Option<String>) -> (r: Item)
    ensures
        is_conversion_of(r, info, name_tag),
        name_tag is None ==> r.name_tag is None,
        forall|s: String| name_tag == Some(s) ==> r.name_tag == Some(s),
{
    let mut out = Item::from_api(info);
    out.name_tag = name_tag;
    out
}

} // verus!
