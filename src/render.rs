use vstd::prelude::*;
use vstd::string::StringExecFns;
use crate::model::{ApiResponse, Item, OSticker};
use crate::convert::{convert, is_conversion_of};
use crate::link::push_char;

verus! {

/// The lower-case hexadecimal digit of `d`, for `d < 16`.
pub open spec fn lower_hex_digit(d: u32) -> char {
    if d < 10 {
        ((d + 48) as u32) as char
    } else {
        ((d + 87) as u32) as char
    }
}

/// How one character stands inside a JSON string literal: `"` and `\` behind
/// a backslash; backspace, tab, line feed, form feed and carriage return as
/// `\b \t \n \f \r`; any other character below U+0020 as `\u00` and two
/// lower-case hexadecimal digits; every other character as it is.
pub open spec fn escaped_char(c: char) -> Seq<char> {
    if c == '"' {
        seq!['\\', '"']
    } else if c == '\\' {
        seq!['\\', '\\']
    } else if c == '\x08' {
        seq!['\\', 'b']
    } else if c == '\t' {
        seq!['\\', 't']
    } else if c == '\n' {
        seq!['\\', 'n']
    } else if c == '\x0c' {
        seq!['\\', 'f']
    } else if c == '\r' {
        seq!['\\', 'r']
    } else if (c as u32) < 32 {
        seq!['\\', 'u', '0', '0', lower_hex_digit((c as u32) / 16), lower_hex_digit((c as u32) % 16)]
    } else {
        seq![c]
    }
}

/// The characters of `s`, each escaped for a JSON string literal.
pub open spec fn escaped(s: Seq<char>) -> Seq<char>
    decreases s.len(),
{
    if s.len() == 0 {
        Seq::empty()
    } else {
        escaped(s.drop_last()) + escaped_char(s.last())
    }
}

/// The JSON string literal of the text `s`: its escaped characters between
/// double quotes.
pub open spec fn json_string_of(s: Seq<char>) -> Seq<char> {
    seq!['"'] + escaped(s) + seq!['"']
}

/// Relies on `serde_json::to_string` on a `str`: the JSON string literal of
/// `s`, escaped by serde_json's table of escapes for the compact formatter.
/// Serialising a `str` into a `Vec` cannot fail.
#[verifier::external_body]
fn json_string(s: &str) -> (r: String)
    ensures
        r@ == json_string_of(s@),
{
    serde_json::to_string(s).unwrap()
}

/// The decimal digit of `d`, for `d < 10`.
pub open spec fn digit_char(d: nat) -> char {
    ((d + 48) as u8) as char
}

/// The decimal digits of `n`, without leading zeros.
pub open spec fn decimal_text(n: nat) -> Seq<char>
    decreases n,
{
    if n < 10 {
        seq![digit_char(n)]
    } else {
        decimal_text(n / 10) + seq![digit_char(n % 10)]
    }
}

/// Appends the decimal digits of `n` to `out`.
fn push_decimal(out: &mut String, n: usize)
    ensures
        final(out)@ == old(out)@ + decimal_text(n as nat),
    decreases n,
{
    let ghost before = out@;
    if n >= 10 {
        push_decimal(out, n / 10);
    }
    let d = (n % 10) as u8;
    push_char(out, (d + 48) as char);
    proof {
        assert(before + decimal_text(n as nat) =~= out@) by {
            if n >= 10 {
                assert(decimal_text(n as nat) == decimal_text((n / 10) as nat) + seq![
                    digit_char((n % 10) as nat),
                ]);
            }
        }
    }
}

/// The decimal digits of `n`, without leading zeros.
fn decimal(n: usize) -> (r: String)
    ensures
        r@ == decimal_text(n as nat),
{
    let mut r = String::new();
    push_decimal(&mut r, n);
    r
}

/// The text of one decal placement.
pub open spec fn sticker_text(s: OSticker) -> Seq<char> {
    "{\"Sticker ID\":"@ + decimal_text(s.sticker_id as nat) + ",\"Slot\":"@ + decimal_text(
        s.slot as nat,
    ) + "}"@
}

/// The decal placements, separated by commas.
pub open spec fn stickers_text(s: Seq<OSticker>) -> Seq<char>
    decreases s.len(),
{
    if s.len() == 0 {
        Seq::empty()
    } else if s.len() == 1 {
        sticker_text(s[0])
    } else {
        stickers_text(s.drop_last()) + ","@ + sticker_text(s.last())
    }
}

/// The text of a name tag: `null` when absent.
pub open spec fn tag_text(tag: Option<String>) -> Seq<char> {
    match tag {
        Some(t) => json_string_of(t@),
        None => "null"@,
    }
}

/// A present name tag, empty or not, is written as a JSON string and never as
/// `null`, so that a record with a tag differs from one without.
pub proof fn lemma_tag_text_present_is_not_null(t: String)
    ensures
        tag_text(Some(t)) != tag_text(None),
{
    reveal_strlit("null");
    assert(tag_text(Some(t))[0] == '"');
    assert(tag_text(None)[0] == 'n');
}

/// The canonical text of a record: one JSON object with fixed field names,
/// in fixed order.
pub open spec fn item_text(it: Item) -> Seq<char> {
    "{\"Item Name\":"@ + json_string_of(it.item_name@) + ",\"Name Tag\":"@ + tag_text(it.name_tag)
        + ",\"Paint Kit\":"@ + decimal_text(it.paint_kit as nat) + ",\"Paint Kit Name\":"@
        + json_string_of(it.paint_kit_name@) + ",\"Seed\":"@ + decimal_text(it.seed as nat)
        + ",\"Stickers\":["@ + stickers_text(it.stickers@) + "],\"Weapon ID\":"@ + decimal_text(
        it.weapon_id as nat,
    ) + ",\"Wear\":"@ + it.wear@ + "}"@
}

/// Renders a record as its canonical text.
pub fn render_item(it: &Item) -> (r: String)
    ensures
        r@ == item_text(*it),
{
    let mut r = String::from_str("{\"Item Name\":");
    r.append(json_string(it.item_name.as_str()).as_str());
    r.append(",\"Name Tag\":");
    match &it.name_tag {
        Some(t) => r.append(json_string(t.as_str()).as_str()),
        None => r.append("null"),
    }
    r.append(",\"Paint Kit\":");
    r.append(decimal(it.paint_kit).as_str());
    r.append(",\"Paint Kit Name\":");
    r.append(json_string(it.paint_kit_name.as_str()).as_str());
    r.append(",\"Seed\":");
    r.append(decimal(it.seed).as_str());
    r.append(",\"Stickers\":[");
    let n = it.stickers.len();
    let ghost head = r@;
    let mut i: usize = 0;
    while i < n
        invariant
            n == it.stickers@.len(),
            i <= n,
            r@ == head + stickers_text(it.stickers@.subrange(0, i as int)),
        decreases n - i,
    {
        let s = &it.stickers[i];
        if i > 0 {
            r.append(",");
        }
        r.append("{\"Sticker ID\":");
        r.append(decimal(s.sticker_id).as_str());
        r.append(",\"Slot\":");
        r.append(decimal(s.slot as usize).as_str());
        r.append("}");
        proof {
            let pre = it.stickers@.subrange(0, i as int);
            let next = it.stickers@.subrange(0, i + 1);
            assert(next.drop_last() =~= pre);
            assert(next.last() == it.stickers@[i as int]);
            if i == 0 {
                assert(pre.len() == 0);
            }
        }
        i = i + 1;
    }
    assert(it.stickers@.subrange(0, n as int) =~= it.stickers@);
    r.append("],\"Weapon ID\":");
    r.append(decimal(it.weapon_id).as_str());
    r.append(",\"Wear\":");
    r.append(it.wear.as_str());
    r.append("}");
    r
}

/// Why no record came out of an inspection-service response.
pub enum FetchError {
    /// The service reported an error for this item: a failure of this item
    /// alone, which may be retried.
    Api { error: String, code: String, status: String },
    /// The response held no item information: the service broke its contract.
    MissingItemInfo,
}

/// The canonical text of the record that an inspection-service response
/// describes, with `name` as its name tag.
pub fn parse(input: ApiResponse, name: Option<String>) -> (r: Result<String, FetchError>)
    ensures
        input is Item <==> r is Ok,
        input matches ApiResponse::Item(info) ==> forall|it: Item|
            is_conversion_of(it, info, name) ==> r == Ok::<String, FetchError>(r->Ok_0)
                && r->Ok_0@ == item_text(it),
        input is Malformed ==> r matches Err(FetchError::MissingItemInfo),
        input matches ApiResponse::Error { error, code, status } ==> r matches Err(
            FetchError::Api { error: e, code: c, status: s },
        ) && e == error && c == code && s == status,
{
    match input {
        ApiResponse::Item(info) => {
            let ghost info_g = info;
            let out = convert(info, name);
            let text = render_item(&out);
            proof {
                assert forall|it: Item| is_conversion_of(it, info_g, name) implies text@
                    == item_text(it) by {
                    assert forall|j: int| 0 <= j < it.stickers@.len() implies it.stickers@[j]
                        == out.stickers@[j] by {
                        assert(it.stickers@[j].sticker_id == info_g.stickers@[j].sticker_id);
                        assert(out.stickers@[j].sticker_id == info_g.stickers@[j].sticker_id);
                    }
                    assert(it.stickers@ =~= out.stickers@);
                }
            }
            Ok(text)
        },
        ApiResponse::Error { error, code, status } => Err(FetchError::Api { error, code, status }),
        ApiResponse::Malformed => Err(FetchError::MissingItemInfo),
    }
}

/// The record text of an inspection-service response, followed by the `,\n`
/// separator, so that records concatenate into a list.
pub fn get_item(input: ApiResponse, name: Option<String>) -> (r: Result<String, FetchError>)
    ensures
        input is Item <==> r is Ok,
        input matches ApiResponse::Item(info) ==> forall|it: Item|
            is_conversion_of(it, info, name) ==> r == Ok::<String, FetchError>(r->Ok_0)
                && r->Ok_0@ == item_text(it) + ",\n"@,
        input is Malformed ==> r matches Err(FetchError::MissingItemInfo),
        input matches ApiResponse::Error { error, code, status } ==> r matches Err(
            FetchError::Api { error: e, code: c, status: s },
        ) && e == error && c == code && s == status,
{
    match parse(input, name) {
        Ok(text) => {
            let mut text = text;
            text.append(",\n");
            Ok(text)
        },
        Err(e) => Err(e),
    }
}

} // verus!
