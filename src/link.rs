use vstd::prelude::*;
use vstd::string::{StringExecFns, StringSliceAdditionalSpecFns};

verus! {

/// `s` with each occurrence of the non-empty `pat`, taken from the left and
/// without overlap, replaced by `to`.
pub open spec fn replaced(s: Seq<char>, pat: Seq<char>, to: Seq<char>) -> Seq<char>
    decreases s.len(),
{
    if pat.len() == 0 || s.len() < pat.len() {
        s
    } else if s.subrange(0, pat.len() as int) == pat {
        to + replaced(s.subrange(pat.len() as int, s.len() as int), pat, to)
    } else {
        seq![s[0]] + replaced(s.subrange(1, s.len() as int), pat, to)
    }
}

/// Relies on `str::replace`: every match of `from`, found left to right
/// without overlap, is replaced by `to`.
#[verifier::external_body]
fn replace_text(s: &str, from: &str, to: &str) -> (r: String)
    requires
        from@.len() > 0,
    ensures
        r@ == replaced(s@, from@, to@),
{
    s.replace(from, to)
}

/// The inspect link made from an action's link template, for the owner
/// `owner` and the asset `asset`.
pub open spec fn inspect_link_of(template: Seq<char>, owner: Seq<char>, asset: Seq<char>) -> Seq<
    char,
> {
    replaced(replaced(template, "%owner_steamid%"@, owner), "%assetid%"@, asset)
}

/// Fills an action's link template: `%owner_steamid%` becomes `owner`, then
/// `%assetid%` becomes `asset`.
pub fn inspect_link(template: &str, owner: &str, asset: &str) -> (r: String)
    ensures
        r@ == inspect_link_of(template@, owner@, asset@),
{
    proof {
        reveal_strlit("%owner_steamid%");
        reveal_strlit("%assetid%");
    }
    let with_owner = replace_text(template, "%owner_steamid%", owner);
    replace_text(with_owner.as_str(), "%assetid%", asset)
}

/// A byte that a URL carries as it is: an ASCII letter or digit, `-`, `.`,
/// `_` or `~`.
pub open spec fn unreserved(b: u8) -> bool {
    (65 <= b <= 90) || (97 <= b <= 122) || (48 <= b <= 57) || b == 45 || b == 46 || b == 95
        || b == 126
}

/// The upper-case hexadecimal digit of `d`, for `d < 16`.
pub open spec fn hex_digit(d: u8) -> char {
    if d < 10 {
        ((d + 48) as u8) as char
    } else {
        ((d + 55) as u8) as char
    }
}

/// The URL form of one byte: itself where unreserved, else `%` and its two
/// hexadecimal digits.
pub open spec fn encoded_byte(b: u8) -> Seq<char> {
    if unreserved(b) {
        seq![b as char]
    } else {
        seq!['%', hex_digit(b / 16), hex_digit(b % 16)]
    }
}

/// The percent-encoding of the bytes `bytes`.
pub open spec fn url_encoded(bytes: Seq<u8>) -> Seq<char>
    decreases bytes.len(),
{
    if bytes.len() == 0 {
        Seq::empty()
    } else {
        url_encoded(bytes.drop_last()) + encoded_byte(bytes.last())
    }
}

/// Relies on `String::push`: `c` is appended at the end.
#[verifier::external_body]
pub(crate) fn push_char(s: &mut String, c: char)
    ensures
        final(s)@ == old(s)@.push(c),
{
    s.push(c)
}

fn hex_char(d: u8) -> (r: char)
    requires
        d < 16,
    ensures
        r == hex_digit(d),
{
    if d < 10 {
        (d + 48) as char
    } else {
        (d + 55) as char
    }
}

/// Appends to `out` the percent-encoding of `text`'s UTF-8 bytes.
pub fn append_url_encoded(out: &mut String, text: &str)
    ensures
        final(out)@ == old(out)@ + url_encoded(text.spec_bytes()),
{
    let bytes = text.as_bytes();
    let ghost head = out@;
    let n = bytes.len();
    let mut i: usize = 0;
    while i < n
        invariant
            n == bytes@.len(),
            bytes@ == text.spec_bytes(),
            i <= n,
            out@ == head + url_encoded(bytes@.subrange(0, i as int)),
        decreases n - i,
    {
        let b = bytes[i];
        if (65 <= b && b <= 90) || (97 <= b && b <= 122) || (48 <= b && b <= 57) || b == 45 || b
            == 46 || b == 95 || b == 126 {
            push_char(out, b as char);
        } else {
            push_char(out, '%');
            push_char(out, hex_char(b / 16));
            push_char(out, hex_char(b % 16));
        }
        proof {
            let next = bytes@.subrange(0, i + 1);
            assert(next.drop_last() =~= bytes@.subrange(0, i as int));
            assert(next.last() == b);
            assert(out@ =~= head + url_encoded(next));
        }
        i = i + 1;
    }
    assert(bytes@.subrange(0, n as int) =~= bytes@);
}

/// The address of the inspection service's answer for the inspect link
/// `link`, passed percent-encoded as the `url` query parameter.
pub open spec fn inspect_api_url_of(link: &str) -> Seq<char> {
    "https://api.csgofloat.com/?url="@ + url_encoded(link.spec_bytes())
}

/// The inspection-service request address for the inspect link `link`.
pub fn inspect_api_url(link: &str) -> (r: String)
    ensures
        r@ == inspect_api_url_of(link),
{
    let mut r = String::from_str("https://api.csgofloat.com/?url=");
    append_url_encoded(&mut r, link);
    r
}

/// The address of an inventory listing: by the custom profile handle where
/// one is given, else by the numeric id.
pub open spec fn inventory_url_of(profile: Option<Seq<char>>, steam_id: Seq<char>) -> Seq<char> {
    match profile {
        Some(p) => "https://steamcommunity.com/id/"@ + p + "/inventory/json/730/2"@,
        None => "https://steamcommunity.com/profiles/"@ + steam_id + "/inventory/json/730/2"@,
    }
}

/// The inventory-listing address; exactly one addressing mode is used.
pub fn inventory_url(profile: Option<&str>, steam_id: &str) -> (r: String)
    ensures
        r@ == inventory_url_of(
            match profile {
                Some(p) => Some(p@),
                None => None,
            },
            steam_id@,
        ),
{
    let mut r;
    match profile {
        Some(p) => {
            r = String::from_str("https://steamcommunity.com/id/");
            r.append(p);
        },
        None => {
            r = String::from_str("https://steamcommunity.com/profiles/");
            r.append(steam_id);
        },
    }
    r.append("/inventory/json/730/2");
    r
}

} // verus!
