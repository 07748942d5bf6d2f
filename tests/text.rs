use osiris_fetch::{extract_name_tag, find_text, insert_records, inspect_api_url, inspect_link, inventory_url};

#[test]
fn name_tag_hello() {
    assert_eq!(extract_name_tag("Name Tag: ''hello''"), Some("hello".to_string()));
}

#[test]
fn name_tag_in_longer_warning() {
    assert_eq!(
        extract_name_tag("This item has a Name Tag: ''Big Gun'' applied."),
        Some("Big Gun".to_string())
    );
}

#[test]
fn name_tag_unicode() {
    assert_eq!(
        extract_name_tag("Name Tag: ''你不需要登顶 在山脚我也爱你''"),
        Some("你不需要登顶 在山脚我也爱你".to_string())
    );
}

#[test]
fn name_tag_stops_at_next_delimiter() {
    assert_eq!(extract_name_tag("Name Tag: ''a'' and ''b''"), Some("a".to_string()));
}

#[test]
fn name_tag_empty_is_not_missing() {
    assert_eq!(extract_name_tag("Name Tag: ''''"), Some(String::new()));
}

#[test]
fn name_tag_missing_marker() {
    assert_eq!(extract_name_tag("This item has been tampered with"), None);
    assert_eq!(extract_name_tag(""), None);
}

#[test]
fn name_tag_missing_close() {
    assert_eq!(extract_name_tag("Name Tag: ''unfinished"), None);
}

#[test]
fn find_text_positions() {
    assert_eq!(find_text("abcabc", "bc", 0), Some(1));
    assert_eq!(find_text("abcabc", "bc", 2), Some(4));
    assert_eq!(find_text("abcabc", "bd", 0), None);
    assert_eq!(find_text("ab", "abc", 0), None);
}

#[test]
fn link_template_filled() {
    let t = "steam://rungame/730/76561202255233023/+csgo_econ_action_preview%20S%owner_steamid%A%assetid%D9876";
    assert_eq!(
        inspect_link(t, "76561198000000000", "123456"),
        "steam://rungame/730/76561202255233023/+csgo_econ_action_preview%20S76561198000000000A123456D9876"
    );
}

#[test]
fn link_without_placeholders_unchanged() {
    assert_eq!(inspect_link("plain", "1", "2"), "plain");
}

#[test]
fn inspection_request_url() {
    assert_eq!(inspect_api_url("steam://x"), "https://api.csgofloat.com/?url=steam%3A%2F%2Fx");
    assert_eq!(
        inspect_api_url("steam://rungame/730/1/+csgo_econ_action_preview%20S7A8D9"),
        "https://api.csgofloat.com/?url=steam%3A%2F%2Frungame%2F730%2F1%2F%2Bcsgo_econ_action_preview%2520S7A8D9"
    );
    assert_eq!(inspect_api_url("a b&c~é"), "https://api.csgofloat.com/?url=a%20b%26c~%C3%A9");
    assert_eq!(inspect_api_url("Az09-._~"), "https://api.csgofloat.com/?url=Az09-._~");
}

#[test]
fn inventory_url_by_handle_or_id() {
    assert_eq!(
        inventory_url(Some("someone"), "765"),
        "https://steamcommunity.com/id/someone/inventory/json/730/2"
    );
    assert_eq!(
        inventory_url(None, "765"),
        "https://steamcommunity.com/profiles/765/inventory/json/730/2"
    );
}

#[test]
fn records_inserted_after_marker() {
    assert_eq!(
        insert_records("{\"Items\": [\n]}", "{\"a\":1},\n"),
        Some("{\"Items\": [{\"a\":1},\n\n]}\n".to_string())
    );
    assert_eq!(insert_records("{\"Other\": []}", "x"), None);
}
