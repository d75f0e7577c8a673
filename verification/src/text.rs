//! Text helpers for the registry: comparison of ids in code-point order,
//! case-insensitive search, and the two Unicode mappings (trimming and
//! lowercasing) that the standard library computes.

use vstd::prelude::*;

verus! {

/// Code-point order on character sequences, read from position `i` on:
/// the first differing character decides, a proper prefix comes first.
pub open spec fn mensi_od(a: Seq<char>, b: Seq<char>, i: int) -> bool
    decreases a.len() - i,
{
    if i >= a.len() {
        i < b.len()
    } else if i >= b.len() {
        false
    } else if a[i] != b[i] {
        (a[i] as u32) < (b[i] as u32)
    } else {
        mensi_od(a, b, i + 1)
    }
}

/// Strict code-point order on character sequences.  For UTF-8 encoded
/// text this coincides with byte order.
pub open spec fn mensi(a: Seq<char>, b: Seq<char>) -> bool {
    mensi_od(a, b, 0)
}

/// Two sequences neither of which comes before the other are equal
/// from position `i` on.
proof fn lemma_mensi_od_celkem(a: Seq<char>, b: Seq<char>, i: int)
    requires
        0 <= i <= a.len(),
        i <= b.len(),
        !mensi_od(a, b, i),
        !mensi_od(b, a, i),
    ensures
        a.len() == b.len(),
        forall|j: int| i <= j < a.len() ==> a[j] == b[j],
    decreases a.len() - i,
{
    if i >= a.len() {
    } else if i >= b.len() {
    } else if a[i] != b[i] {
        vstd::utf8::char_u32_cast(a[i], a[i] as u32);
        vstd::utf8::char_u32_cast(b[i], b[i] as u32);
    } else {
        lemma_mensi_od_celkem(a, b, i + 1);
    }
}

/// The order is total: of two distinct sequences one comes first.
pub proof fn lemma_mensi_celkem(a: Seq<char>, b: Seq<char>)
    ensures
        mensi(a, b) || mensi(b, a) || a == b,
{
    if !mensi(a, b) && !mensi(b, a) {
        lemma_mensi_od_celkem(a, b, 0);
        assert(a =~= b);
    }
}

proof fn lemma_mensi_od_tranzitivni(a: Seq<char>, b: Seq<char>, c: Seq<char>, i: int)
    requires
        0 <= i,
        mensi_od(a, b, i),
        mensi_od(b, c, i),
    ensures
        mensi_od(a, c, i),
    decreases a.len() - i,
{
    if i >= a.len() {
    } else if a[i] == b[i] && i < b.len() && b[i] == c[i] && i < c.len() {
        lemma_mensi_od_tranzitivni(a, b, c, i + 1);
    }
}

/// The order is transitive.
pub proof fn lemma_mensi_tranzitivni(a: Seq<char>, b: Seq<char>, c: Seq<char>)
    requires
        mensi(a, b),
        mensi(b, c),
    ensures
        mensi(a, c),
{
    lemma_mensi_od_tranzitivni(a, b, c, 0);
}

/// Decides the code-point order on two string slices.
pub fn mensi_nez(a: &str, b: &str) -> (r: bool)
    ensures
        r == mensi(a@, b@),
{
    let la = a.unicode_len();
    let lb = b.unicode_len();
    let mut i: usize = 0;
    while i < la && i < lb
        invariant
            i <= la,
            i <= lb,
            la == a@.len(),
            lb == b@.len(),
            mensi(a@, b@) == mensi_od(a@, b@, i as int),
        decreases la - i,
    {
        let ca = a.get_char(i);
        let cb = b.get_char(i);
        if ca != cb {
            return (ca as u32) < (cb as u32);
        }
        i = i + 1;
    }
    la < lb
}

/// Decides equality of two string slices.
pub fn stejne(a: &str, b: &str) -> (r: bool)
    ensures
        r == (a@ == b@),
{
    let la = a.unicode_len();
    let lb = b.unicode_len();
    if la != lb {
        return false;
    }
    let mut i: usize = 0;
    while i < la
        invariant
            i <= la,
            la == a@.len(),
            la == b@.len(),
            forall|j: int| 0 <= j < i ==> a@[j] == b@[j],
        decreases la - i,
    {
        if a.get_char(i) != b.get_char(i) {
            return false;
        }
        i = i + 1;
    }
    proof {
        assert(a@ =~= b@);
    }
    true
}

/// The needle `n` read at position `k` of the haystack `h` matches.
pub open spec fn shoda_na(h: Seq<char>, n: Seq<char>, k: int) -> bool {
    forall|j: int| 0 <= j < n.len() ==> h[k + j] == n[j]
}

/// The needle `n` occurs somewhere in the haystack `h`.
pub open spec fn obsahuje(h: Seq<char>, n: Seq<char>) -> bool {
    exists|k: int| 0 <= k && k + n.len() <= h.len() && shoda_na(h, n, k)
}

fn shoda_od(h: &str, n: &str, k: usize, lh: usize, ln: usize) -> (r: bool)
    requires
        lh == h@.len(),
        ln == n@.len(),
        k + ln <= lh,
    ensures
        r == shoda_na(h@, n@, k as int),
{
    let mut j: usize = 0;
    while j < ln
        invariant
            j <= ln,
            lh == h@.len(),
            ln == n@.len(),
            k + ln <= lh,
            forall|q: int| 0 <= q < j ==> h@[k + q] == n@[q],
        decreases ln - j,
    {
        if h.get_char(k + j) != n.get_char(j) {
            return false;
        }
        j = j + 1;
    }
    true
}

/// Decides whether the needle `n` occurs in the haystack `h`.
pub fn obsahuje_text(h: &str, n: &str) -> (r: bool)
    ensures
        r == obsahuje(h@, n@),
{
    let lh = h.unicode_len();
    let ln = n.unicode_len();
    if ln > lh {
        return false;
    }
    let mut k: usize = 0;
    while k <= lh - ln
        invariant
            lh == h@.len(),
            ln == n@.len(),
            ln <= lh,
            k <= lh - ln + 1,
            forall|q: int| 0 <= q < k ==> !shoda_na(h@, n@, q),
        decreases lh - ln - k + 1,
    {
        if shoda_od(h, n, k, lh, ln) {
            return true;
        }
        k = k + 1;
    }
    false
}

/// What `str::trim` returns for a given text: the text without leading and
/// trailing whitespace.  Left abstract, since whitespace here is the full
/// Unicode property behind `char::is_whitespace`.
pub uninterp spec fn trim_of(s: Seq<char>) -> Seq<char>;

/// Relies on `str::trim`: the input without leading and trailing Unicode
/// whitespace, a function of the characters alone.
#[verifier::external_body]
pub(crate) fn orez(s: &str) -> (r: String)
    ensures
        r@ == trim_of(s@),
{
    s.trim().to_owned()
}

/// What `str::to_lowercase` returns for a given text.  Left abstract,
/// since it is the full Unicode lowercase mapping.
pub uninterp spec fn lower_of(s: Seq<char>) -> Seq<char>;

/// Relies on `str::to_lowercase`: the Unicode lowercase form of the input,
/// a function of the characters alone.
#[verifier::external_body]
pub(crate) fn mala_pismena(s: &str) -> (r: String)
    ensures
        r@ == lower_of(s@),
{
    s.to_lowercase()
}

} // verus!
