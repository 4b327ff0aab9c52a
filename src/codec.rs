//! Decoding of a broker's state file: the first whitespace-delimited token.
use vstd::prelude::*;
use vstd::utf8::valid_utf8;
use vstd::utf8::encode_utf8;

verus! {

/// ASCII whitespace as `u8::is_ascii_whitespace` defines it: space, tab,
/// line feed, form feed and carriage return.
pub open spec fn is_ws(b: u8) -> bool {
    b == 0x20u8 || b == 0x09u8 || b == 0x0Au8 || b == 0x0Cu8 || b == 0x0Du8
}

/// `c` holds at least one byte that is not ASCII whitespace.
pub open spec fn has_token(c: Seq<u8>) -> bool {
    exists|i: int| 0 <= i < c.len() && !is_ws(#[trigger] c[i])
}

/// `c[s..e]` is the first whitespace-delimited token of `c`.
pub open spec fn token_at(c: Seq<u8>, s: int, e: int) -> bool {
    &&& 0 <= s < e <= c.len()
    &&& forall|i: int| 0 <= i < s ==> is_ws(#[trigger] c[i])
    &&& forall|i: int| s <= i < e ==> !is_ws(#[trigger] c[i])
    &&& (e == c.len() || is_ws(c[e]))
}

/// The first whitespace-delimited token of `c`, if there is one.
pub open spec fn first_token(c: Seq<u8>) -> Option<Seq<u8>> {
    if has_token(c) {
        let (s, e) = choose|s: int, e: int| token_at(c, s, e);
        Some(c.subrange(s, e))
    } else {
        None
    }
}

/// The text that `String::from_utf8_lossy` makes of a byte sequence.
pub uninterp spec fn lossy_text(b: Seq<u8>) -> Seq<char>;

/// What `decode` returns for the contents `c`.
pub open spec fn decoded(c: Seq<u8>) -> Option<Seq<char>> {
    match first_token(c) {
        Some(t) => Some(lossy_text(t)),
        None => None,
    }
}

proof fn lemma_token_unique(c: Seq<u8>, s1: int, e1: int, s2: int, e2: int)
    requires
        token_at(c, s1, e1),
        token_at(c, s2, e2),
    ensures
        s1 == s2,
        e1 == e2,
{
    if s1 < s2 {
        assert(is_ws(c[s1]));
    } else if s2 < s1 {
        assert(is_ws(c[s2]));
    }
    if e1 < e2 {
        assert(!is_ws(c[e1]));
    } else if e2 < e1 {
        assert(!is_ws(c[e2]));
    }
}

/// The token that `token_at` locates is the one `first_token` names.
proof fn lemma_first_token_at(c: Seq<u8>, s: int, e: int)
    requires
        token_at(c, s, e),
    ensures
        first_token(c) == Some(c.subrange(s, e)),
{
    assert(!is_ws(c[s]));
    assert(has_token(c));
    let (s2, e2) = choose|s2: int, e2: int| token_at(c, s2, e2);
    lemma_token_unique(c, s, e, s2, e2);
}

proof fn lemma_token_end(c: Seq<u8>, s: int, e: int)
    requires
        0 <= s < e <= c.len(),
        forall|i: int| 0 <= i < s ==> is_ws(#[trigger] c[i]),
        forall|i: int| s <= i < e ==> !is_ws(#[trigger] c[i]),
    ensures
        exists|s2: int, e2: int| token_at(c, s2, e2),
    decreases c.len() - e,
{
    if e == c.len() || is_ws(c[e]) {
        assert(token_at(c, s, e));
    } else {
        lemma_token_end(c, s, e + 1);
    }
}

proof fn lemma_token_start(c: Seq<u8>, k: int)
    requires
        has_token(c),
        0 <= k <= c.len(),
        forall|i: int| 0 <= i < k ==> is_ws(#[trigger] c[i]),
    ensures
        exists|s: int, e: int| token_at(c, s, e),
    decreases c.len() - k,
{
    if k == c.len() {
        let i = choose|i: int| 0 <= i < c.len() && !is_ws(#[trigger] c[i]);
        assert(is_ws(c[i]));
    } else if is_ws(c[k]) {
        lemma_token_start(c, k + 1);
    } else {
        lemma_token_end(c, k, k + 1);
    }
}

/// Locates the first whitespace-delimited token of `content`, as a range of
/// byte positions.
pub fn token_range(content: &[u8]) -> (r: Option<(usize, usize)>)
    ensures
        r is None <==> !has_token(content@),
        r matches Some((s, e)) ==> token_at(content@, s as int, e as int),
{
    let n = content.len();
    let mut s: usize = 0;
    while s < n && is_ascii_ws(content[s])
        invariant
            s <= n,
            n == content@.len(),
            forall|i: int| 0 <= i < s ==> is_ws(#[trigger] content@[i]),
        decreases n - s,
    {
        s = s + 1;
    }
    if s == n {
        return None;
    }
    let mut e: usize = s + 1;
    while e < n && !is_ascii_ws(content[e])
        invariant
            s < e <= n,
            n == content@.len(),
            forall|i: int| s <= i < e ==> !is_ws(#[trigger] content@[i]),
        decreases n - e,
    {
        e = e + 1;
    }
    assert(!is_ws(content@[s as int]));
    Some((s, e))
}

fn is_ascii_ws(b: u8) -> (r: bool)
    ensures
        r == is_ws(b),
{
    b == 0x20u8 || b == 0x09u8 || b == 0x0Au8 || b == 0x0Cu8 || b == 0x0Du8
}

/// The first whitespace-delimited token of `content`, as bytes.
pub fn first_token_bytes(content: &[u8]) -> (r: Option<Vec<u8>>)
    ensures
        match r {
            Some(t) => first_token(content@) == Some(t@),
            None => first_token(content@) is None,
        },
{
    match token_range(content) {
        None => None,
        Some((s, e)) => {
            proof {
                lemma_first_token_at(content@, s as int, e as int);
            }
            let mut t: Vec<u8> = Vec::new();
            let mut i: usize = s;
            while i < e
                invariant
                    s <= i <= e,
                    e <= content@.len(),
                    t@ == content@.subrange(s as int, i as int),
                decreases e - i,
            {
                t.push(content[i]);
                i = i + 1;
                assert(t@ =~= content@.subrange(s as int, i as int));
            }
            Some(t)
        },
    }
}

/// Relies on `String::from_utf8_lossy`: the text depends on the bytes alone,
/// and bytes that are valid UTF-8 are kept as they are.
#[verifier::external_body]
fn lossy_string(b: &[u8]) -> (r: String)
    ensures
        r@ == lossy_text(b@),
        valid_utf8(b@) ==> encode_utf8(r@) == b@,
{
    String::from_utf8_lossy(b).into_owned()
}

/// Decodes the contents of a state file: the first token delimited by ASCII
/// whitespace, or `None` where the contents hold nothing but whitespace.
pub fn decode(content: &[u8]) -> (r: Option<String>)
    ensures
        r is None <==> !has_token(content@),
        match r {
            Some(t) => decoded(content@) == Some(t@),
            None => decoded(content@) is None,
        },
{
    match first_token_bytes(content) {
        None => None,
        Some(t) => Some(lossy_string(t.as_slice())),
    }
}

/// A token decodes to itself: decoding the first token of some contents again
/// gives that token.
pub proof fn lemma_decode_idempotent(c: Seq<u8>)
    requires
        has_token(c),
    ensures
        first_token(c) is Some,
        first_token(first_token(c)->0) == first_token(c),
        decoded(first_token(c)->0) == decoded(c),
{
    lemma_token_start(c, 0);
    let (s, e) = choose|s: int, e: int| token_at(c, s, e);
    let t = c.subrange(s, e);
    assert(token_at(t, 0, t.len() as int));
    lemma_first_token_at(t, 0, t.len() as int);
    assert(t.subrange(0, t.len() as int) =~= t);
}

} // verus!
