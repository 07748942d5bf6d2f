use vstd::prelude::*;
use substring::Substring;

verus! {

/// `pat` stands in `s` at position `k`.
pub open spec fn occurs_at(s: Seq<char>, pat: Seq<char>, k: int) -> bool {
    0 <= k && k + pat.len() <= s.len() && s.subrange(k, k + pat.len()) == pat
}

/// The first position at or after `k` where the non-empty `pat` stands in `s`.
pub open spec fn find_from(s: Seq<char>, pat: Seq<char>, k: int) -> Option<int>
    decreases s.len() - k,
{
    if k < 0 || pat.len() == 0 || k + pat.len() > s.len() {
        None
    } else if occurs_at(s, pat, k) {
        Some(k)
    } else {
        find_from(s, pat, k + 1)
    }
}

/// `pat` stands at no position at or after `k`.
pub open spec fn absent_from(s: Seq<char>, pat: Seq<char>, k: int) -> bool {
    forall|j: int| k <= j ==> !#[trigger] occurs_at(s, pat, j)
}

pub(crate) proof fn lemma_find_from(s: Seq<char>, pat: Seq<char>, k: int)
    requires
        0 <= k,
        pat.len() > 0,
    ensures
        find_from(s, pat, k) is None <==> absent_from(s, pat, k),
        find_from(s, pat, k) is Some ==> k <= find_from(s, pat, k)->0 && occurs_at(
            s,
            pat,
            find_from(s, pat, k)->0,
        ),
    decreases s.len() - k,
{
    if k + pat.len() <= s.len() && !occurs_at(s, pat, k) {
        lemma_find_from(s, pat, k + 1);
        if absent_from(s, pat, k + 1) {
            assert forall|j: int| k <= j implies !#[trigger] occurs_at(s, pat, j) by {
                if j > k {
                    assert(!occurs_at(s, pat, j));
                }
            }
        }
    }
}

/// The characters of `s`.
pub fn chars_of(s: &str) -> (r: Vec<char>)
    ensures
        r@ == s@,
{
    let mut v: Vec<char> = Vec::new();
    for c in it: s.chars()
        invariant
            v@ == it.seq().subrange(0, it.index() as int),
    {
        v.push(c);
    }
    v
}

/// Whether `pat` stands in `s` at position `k`.
fn matches_at(s: &Vec<char>, pat: &Vec<char>, k: usize) -> (r: bool)
    requires
        k + pat@.len() <= s@.len(),
    ensures
        r == occurs_at(s@, pat@, k as int),
{
    let n = s.len();
    let m = pat.len();
    let mut i: usize = 0;
    while i < m
        invariant
            n == s@.len(),
            m == pat@.len(),
            k + m <= s@.len(),
            i <= m,
            s@.subrange(k as int, k + i) == pat@.subrange(0, i as int),
        decreases m - i,
    {
        if s[k + i] != pat[i] {
            assert(s@.subrange(k as int, k + m)[i as int] != pat@[i as int]);
            return false;
        }
        assert(s@.subrange(k as int, k + i + 1) =~= s@.subrange(k as int, k + i).push(
            s@[k + i],
        ));
        assert(pat@.subrange(0, i + 1) =~= pat@.subrange(0, i as int).push(pat@[i as int]));
        i = i + 1;
    }
    assert(pat@.subrange(0, m as int) =~= pat@);
    true
}

/// The first position at or after `from` where `pat` stands in `s`.
pub fn find_chars(s: &Vec<char>, pat: &Vec<char>, from: usize) -> (r: Option<usize>)
    requires
        pat@.len() > 0,
    ensures
        r matches Some(k) ==> find_from(s@, pat@, from as int) == Some(k as int),
        r is None ==> find_from(s@, pat@, from as int) is None,
{
    let n = s.len();
    let m = pat.len();
    if m > n {
        return None;
    }
    let mut k: usize = from;
    while k <= n - m
        invariant
            n == s@.len(),
            m == pat@.len(),
            m > 0,
            m <= n,
            from <= k,
            find_from(s@, pat@, k as int) == find_from(s@, pat@, from as int),
        decreases n - k,
    {
        if matches_at(s, pat, k) {
            return Some(k);
        }
        k = k + 1;
    }
    None
}

/// The first position, counted in characters, at or after `from` where `pat`
/// stands in `s`.
pub fn find_text(s: &str, pat: &str, from: usize) -> (r: Option<usize>)
    requires
        pat@.len() > 0,
    ensures
        r matches Some(k) ==> find_from(s@, pat@, from as int) == Some(k as int),
        r is None ==> find_from(s@, pat@, from as int) is None,
{
    find_chars(&chars_of(s), &chars_of(pat), from)
}

/// The name-tag marker that precedes a tag in a warning string.
pub open spec fn tag_marker() -> Seq<char> {
    "Name Tag: ''"@
}

/// The delimiter that closes a name tag.
pub open spec fn tag_close() -> Seq<char> {
    "''"@
}

/// The name tag that the warning text `w` carries: the text after the first
/// marker, up to the next closing delimiter. Absent when the marker is
/// missing or no delimiter follows it.
pub open spec fn name_tag_of(w: Seq<char>) -> Option<Seq<char>> {
    match find_from(w, tag_marker(), 0) {
        None => None,
        Some(i) => match find_from(w, tag_close(), i + tag_marker().len()) {
            None => None,
            Some(j) => Some(w.subrange(i + tag_marker().len(), j)),
        },
    }
}

/// A warning without the marker carries no name tag.
pub proof fn lemma_no_marker_no_tag(w: Seq<char>)
    requires
        absent_from(w, tag_marker(), 0),
    ensures
        name_tag_of(w) is None,
{
    reveal_strlit("Name Tag: ''");
    lemma_find_from(w, tag_marker(), 0);
}

proof fn lemma_first_at(w: Seq<char>, pat: Seq<char>, k: int, p: int)
    requires
        0 <= k <= p,
        pat.len() > 0,
        occurs_at(w, pat, p),
        forall|j: int| k <= j < p ==> !#[trigger] occurs_at(w, pat, j),
    ensures
        find_from(w, pat, k) == Some(p),
    decreases p - k,
{
    if k < p {
        lemma_first_at(w, pat, k + 1, p);
    }
}

/// A warning `a`, marker, `t`, closing delimiter, `b` carries exactly `t` as
/// its name tag, where the marker starts nowhere inside `a` and the closing
/// delimiter starts nowhere inside `t`.
pub proof fn lemma_tag_between_marker_and_close(
    a: Seq<char>,
    t: Seq<char>,
    b: Seq<char>,
)
    requires
        forall|k: int| 0 <= k < a.len() ==> !#[trigger] occurs_at(a + tag_marker(), tag_marker(), k),
        forall|k: int| 0 <= k < t.len() ==> !#[trigger] occurs_at(t + tag_close(), tag_close(), k),
    ensures
        name_tag_of(a + tag_marker() + t + tag_close() + b) == Some(t),
{
    reveal_strlit("Name Tag: ''");
    reveal_strlit("''");
    let m = tag_marker();
    let c = tag_close();
    let w = a + m + t + c + b;
    let am = a + m;
    let tc = t + c;
    let la = a.len() as int;
    let s0 = la + m.len();
    let lt = t.len() as int;
    assert(w.subrange(la, s0) =~= m);
    assert forall|j: int| 0 <= j < la implies !#[trigger] occurs_at(w, m, j) by {
        assert(w.subrange(j, j + m.len()) =~= am.subrange(j, j + m.len()));
        assert(!occurs_at(am, m, j));
    }
    lemma_first_at(w, m, 0, la);
    assert(w.subrange(s0 + lt, s0 + lt + c.len()) =~= c);
    assert forall|j: int| s0 <= j < s0 + lt implies !#[trigger] occurs_at(w, c, j) by {
        assert(w.subrange(j, j + c.len()) =~= tc.subrange(j - s0, j - s0 + c.len()));
        assert(!occurs_at(tc, c, j - s0));
    }
    lemma_first_at(w, c, s0, s0 + lt);
    assert(w.subrange(s0, s0 + lt) =~= t);
}

/// Relies on substring's `Substring::substring`: for
/// `start <= end <=` the number of characters, the characters from index
/// `start` up to `end`.
#[verifier::external_body]
pub(crate) fn char_slice(s: &str, start: usize, end: usize) -> (r: String)
    requires
        start <= end <= s@.len(),
    ensures
        r@ == s@.subrange(start as int, end as int),
{
    s.substring(start, end).to_string()
}

/// Extracts the name tag from a warning string of the form
/// `... Name Tag: ''<text>'' ...`; `None` where the marker or the closing
/// delimiter is missing, so that a missing tag differs from an empty one.
pub fn extract_name_tag(warning: &str) -> (r: Option<String>)
    ensures
        r is None <==> name_tag_of(warning@) is None,
        r matches Some(t) ==> name_tag_of(warning@) == Some(t@),
{
    let marker = "Name Tag: ''";
    let close = "''";
    proof {
        reveal_strlit("Name Tag: ''");
        reveal_strlit("''");
    }
    let text = chars_of(warning);
    let marker_chars = chars_of(marker);
    match find_chars(&text, &marker_chars, 0) {
        None => None,
        Some(i) => {
            let n = text.len();
            proof {
                lemma_find_from(warning@, marker@, 0);
                assert(i + marker_chars@.len() <= n);
            }
            let start = i + marker_chars.len();
            match find_chars(&text, &chars_of(close), start) {
                None => None,
                Some(j) => {
                    proof {
                        lemma_find_from(warning@, close@, start as int);
                    }
                    Some(char_slice(warning, start, j))
                },
            }
        },
    }
}

} // verus!
