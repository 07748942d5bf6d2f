use vstd::prelude::*;
use vstd::string::StringExecFns;
use crate::text::{char_slice, chars_of, find_chars, find_from};

verus! {

/// The marker of a configuration text after which records are inserted.
pub open spec fn items_marker() -> Seq<char> {
    "\"Items\": ["@
}

/// The configuration text `config`, followed by a line break, with `records`
/// inserted right after the first marker; absent where there is no marker.
pub open spec fn spliced(config: Seq<char>, records: Seq<char>) -> Option<Seq<char>> {
    match find_from(config + "\n"@, items_marker(), 0) {
        Some(i) => {
            let c = config + "\n"@;
            let at = i + items_marker().len();
            Some(c.subrange(0, at) + records + c.subrange(at, c.len() as int))
        },
        None => None,
    }
}

/// Inserts `records` into the configuration text right after its
/// `"Items": [` marker, the text having been given a final line break;
/// `None` where the marker is missing.
pub fn insert_records(config: &str, records: &str) -> (r: Option<String>)
    ensures
        r is None <==> spliced(config@, records@) is None,
        r matches Some(t) ==> spliced(config@, records@) == Some(t@),
{
    let marker = "\"Items\": [";
    proof {
        reveal_strlit("\"Items\": [");
    }
    let mut c = String::from_str(config);
    c.append("\n");
    let cs = c.as_str();
    let text = chars_of(cs);
    let marker_chars = chars_of(marker);
    match find_chars(&text, &marker_chars, 0) {
        None => None,
        Some(i) => {
            let n = text.len();
            proof {
                crate::text::lemma_find_from(cs@, marker@, 0);
                assert(i + marker_chars@.len() <= n);
            }
            let at = i + marker_chars.len();
            let mut out = char_slice(cs, 0, at);
            out.append(records);
            let tail = char_slice(cs, at, n);
            out.append(tail.as_str());
            Some(out)
        },
    }
}

} // verus!
