use osiris_fetch::{convert, get_item, parse, render_item, ApiResponse, FetchError, Item, ItemInfo, Sticker};

fn sticker(id: usize, slot: u8) -> Sticker {
    Sticker { sticker_id: id, slot, codename: format!("code{}", id), name: format!("Sticker {}", id) }
}

fn medusa(stickers: Vec<Sticker>) -> ItemInfo {
    ItemInfo {
        defindex: 7,
        paintindex: 282,
        paintseed: 561,
        floatvalue: "0.23".to_string(),
        weapon_type: "AWP".to_string(),
        item_name: "Medusa".to_string(),
        full_item_name: "AWP | Medusa (Well-Worn)".to_string(),
        stickers,
    }
}

#[test]
fn convert_keeps_decal_order() {
    let out = convert(medusa(vec![sticker(5, 2), sticker(9, 0), sticker(1, 3)]), None);
    let got: Vec<(usize, u8)> = out.stickers.iter().map(|s| (s.sticker_id, s.slot)).collect();
    assert_eq!(got, vec![(5, 2), (9, 0), (1, 3)]);
    assert_eq!(out.item_name, "AWP");
    assert_eq!(out.paint_kit, 282);
    assert_eq!(out.paint_kit_name, "Medusa");
    assert_eq!(out.seed, 561);
    assert_eq!(out.weapon_id, 7);
    assert_eq!(out.wear, "0.23");
}

#[test]
fn convert_without_tag_has_no_tag() {
    let out = convert(medusa(vec![]), None);
    assert_eq!(out.name_tag, None);
}

#[test]
fn convert_with_tag_keeps_it() {
    let out = convert(medusa(vec![]), Some("hello".to_string()));
    assert_eq!(out.name_tag, Some("hello".to_string()));
    let empty = convert(medusa(vec![]), Some(String::new()));
    assert_eq!(empty.name_tag, Some(String::new()));
}

#[test]
fn from_api_sets_no_tag() {
    let out = Item::from_api(medusa(vec![sticker(3, 1)]));
    assert_eq!(out.name_tag, None);
    assert_eq!(out.stickers.len(), 1);
    assert_eq!(out.stickers[0].sticker_id, 3);
    assert_eq!(out.stickers[0].slot, 1);
}

#[test]
fn medusa_record_text() {
    let r = get_item(ApiResponse::Item(medusa(vec![])), None);
    match r {
        Ok(t) => assert_eq!(
            t,
            "{\"Item Name\":\"AWP\",\"Name Tag\":null,\"Paint Kit\":282,\"Paint Kit Name\":\"Medusa\",\"Seed\":561,\"Stickers\":[],\"Weapon ID\":7,\"Wear\":0.23},\n"
        ),
        Err(_) => panic!("expected a record"),
    }
}

#[test]
fn record_with_stickers_and_tag() {
    let r = parse(ApiResponse::Item(medusa(vec![sticker(76, 0), sticker(1302, 3)])), Some("my \"gun\"".to_string()));
    match r {
        Ok(t) => assert_eq!(
            t,
            "{\"Item Name\":\"AWP\",\"Name Tag\":\"my \\\"gun\\\"\",\"Paint Kit\":282,\"Paint Kit Name\":\"Medusa\",\"Seed\":561,\"Stickers\":[{\"Sticker ID\":76,\"Slot\":0},{\"Sticker ID\":1302,\"Slot\":3}],\"Weapon ID\":7,\"Wear\":0.23}"
        ),
        Err(_) => panic!("expected a record"),
    }
}

#[test]
fn render_item_large_numbers() {
    let mut it = convert(medusa(vec![]), Some("".to_string()));
    it.paint_kit = 1234567890;
    let t = render_item(&it);
    assert!(t.contains("\"Paint Kit\":1234567890,"));
    assert!(t.contains("\"Name Tag\":\"\","));
}

#[test]
fn api_error_gives_failure() {
    let r = get_item(
        ApiResponse::Error { error: "Invalid inspect link".to_string(), code: "21".to_string(), status: "400".to_string() },
        None,
    );
    match r {
        Err(FetchError::Api { error, code, status }) => {
            assert_eq!(error, "Invalid inspect link");
            assert_eq!(code, "21");
            assert_eq!(status, "400");
        }
        _ => panic!("expected an api error"),
    }
}

#[test]
fn missing_iteminfo_is_fatal_error() {
    let r = get_item(ApiResponse::Malformed, None);
    assert!(matches!(r, Err(FetchError::MissingItemInfo)));
}

#[test]
fn name_tag_escapes() {
    let it = convert(medusa(vec![]), Some("a\\b\tc\u{1}d\u{1f}é".to_string()));
    let t = render_item(&it);
    assert!(t.contains("\"Name Tag\":\"a\\\\b\\tc\\u0001d\\u001fé\","));
}

#[test]
fn empty_tag_differs_from_no_tag() {
    let with_empty = render_item(&convert(medusa(vec![]), Some(String::new())));
    let without = render_item(&convert(medusa(vec![]), None));
    assert_ne!(with_empty, without);
    assert!(without.contains("\"Name Tag\":null,"));
}
