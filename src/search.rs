use vstd::prelude::*;
use vstd::string::StrSliceExecFns;

verus! {

/// The lowercase form of a string, as std's `str::to_lowercase` gives it.
pub uninterp spec fn lower_of(s: Seq<char>) -> Seq<char>;

/// Relies on std's `str::to_lowercase`, whose result depends on the
/// characters of its argument alone.
#[verifier::external_body]
pub(crate) fn lowercase(s: &str) -> (r: String)
    ensures
        r@ == lower_of(s@),
{
    s.to_lowercase()
}

/// `needle` occurs in `hay` as a run of consecutive characters.
pub open spec fn is_infix(needle: Seq<char>, hay: Seq<char>) -> bool {
    exists|k: int|
        0 <= k && k + needle.len() <= hay.len() && #[trigger] hay.subrange(k, k + needle.len())
            == needle
}

/// The query `q` matches the handle `handle`, ignoring case.
pub open spec fn folded_match(q: Seq<char>, handle: Seq<char>) -> bool {
    is_infix(lower_of(q), lower_of(handle))
}

fn chars_of(s: &str) -> (r: Vec<char>)
    ensures
        r@ == s@,
{
    let n = s.unicode_len();
    let mut out: Vec<char> = Vec::new();
    let mut i: usize = 0;
    while i < n
        invariant
            n == s@.len(),
            i <= n,
            out@ == s@.subrange(0, i as int),
        decreases n - i,
    {
        out.push(s.get_char(i));
        i += 1;
        assert(out@ == s@.subrange(0, i as int));
    }
    assert(out@ == s@);
    out
}

fn occurs_at(needle: &Vec<char>, hay: &Vec<char>, k: usize) -> (r: bool)
    requires
        k + needle@.len() <= hay@.len(),
    ensures
        r == (hay@.subrange(k as int, k + needle@.len()) == needle@),
{
    let hl = hay.len();
    let mut j: usize = 0;
    while j < needle.len()
        invariant
            hl == hay@.len(),
            k + needle@.len() <= hay@.len(),
            j <= needle@.len(),
            forall|t: int| 0 <= t < j ==> hay@[k + t] == needle@[t],
        decreases needle@.len() - j,
    {
        if hay[k + j] != needle[j] {
            assert(hay@.subrange(k as int, k + needle@.len())[j as int] != needle@[j as int]);
            return false;
        }
        j += 1;
    }
    assert(hay@.subrange(k as int, k + needle@.len()) =~= needle@);
    true
}

/// Whether the already lowercased query `folded_query` occurs in the
/// already lowercased handle `folded_handle`.
pub fn contains_folded(folded_query: &str, folded_handle: &str) -> (r: bool)
    ensures
        r == is_infix(folded_query@, folded_handle@),
{
    let needle = chars_of(folded_query);
    let hay = chars_of(folded_handle);
    if needle.len() > hay.len() {
        return false;
    }
    let last = hay.len() - needle.len();
    let mut k: usize = 0;
    while k < last
        invariant
            k <= last,
            last == hay@.len() - needle@.len(),
            needle@ == folded_query@,
            hay@ == folded_handle@,
            forall|t: int| 0 <= t < k ==> #[trigger] hay@.subrange(t, t + needle@.len()) != needle@,
        decreases last - k,
    {
        if occurs_at(&needle, &hay, k) {
            return true;
        }
        k += 1;
    }
    occurs_at(&needle, &hay, last)
}

/// Whether `q` matches `handle`, ignoring case.
pub fn matches_handle(q: &str, handle: &str) -> (r: bool)
    ensures
        r == folded_match(q@, handle@),
{
    let fq = lowercase(q);
    let fh = lowercase(handle);
    contains_folded(fq.as_str(), fh.as_str())
}

} // verus!
