//! Text primitives: searching, splitting, blankness and the byte order of strings.
use vstd::prelude::*;
use vstd::utf8;

verus! {

/// The position of the first `c` in `s`, or the length of `s` where there is none.
pub open spec fn find(s: Seq<char>, c: char) -> nat
    decreases s.len(),
{
    if s.len() == 0 || s[0] == c {
        0
    } else {
        1 + find(s.drop_first(), c)
    }
}

/// `s` cut at the first `c`: what stands before it and what stands after it.
pub open spec fn cut(s: Seq<char>, c: char) -> Option<(Seq<char>, Seq<char>)> {
    let k = find(s, c) as int;
    if k < s.len() {
        Some((s.take(k), s.skip(k + 1)))
    } else {
        None
    }
}

/// The characters with the Unicode property `White_Space`.
pub open spec fn is_space(c: char) -> bool {
    let u = c as u32;
    ||| 0x09 <= u <= 0x0d
    ||| u == 0x20
    ||| u == 0x85
    ||| u == 0xa0
    ||| u == 0x1680
    ||| 0x2000 <= u <= 0x200a
    ||| u == 0x2028
    ||| u == 0x2029
    ||| u == 0x202f
    ||| u == 0x205f
    ||| u == 0x3000
}

/// Nothing but white space.
pub open spec fn is_blank(s: Seq<char>) -> bool {
    forall|i: int| 0 <= i < s.len() ==> is_space(#[trigger] s[i])
}

/// `needle` stands in `text` at position `at`.
pub open spec fn occurs_at(text: Seq<char>, needle: Seq<char>, at: int) -> bool {
    &&& 0 <= at
    &&& at + needle.len() <= text.len()
    &&& text.subrange(at, at + needle.len()) == needle
}

/// `needle` stands somewhere in `text`.
pub open spec fn occurs(text: Seq<char>, needle: Seq<char>) -> bool {
    exists|at: int| occurs_at(text, needle, at)
}

/// `a` and `b` agree before position `k`, and at `k` the first of them ends or is smaller.
pub open spec fn parts_below(a: Seq<u8>, b: Seq<u8>, k: int) -> bool {
    &&& 0 <= k <= a.len()
    &&& k < b.len()
    &&& forall|j: int| 0 <= j < k ==> a[j] == b[j]
    &&& k < a.len() ==> a[k] < b[k]
}

/// The lexicographic order of byte strings.
pub open spec fn bytes_below(a: Seq<u8>, b: Seq<u8>) -> bool {
    exists|k: int| parts_below(a, b, k)
}

/// The order of strings: that of their UTF-8 bytes.
pub open spec fn below(a: Seq<char>, b: Seq<char>) -> bool {
    bytes_below(utf8::encode_utf8(a), utf8::encode_utf8(b))
}

/// The texts of a list of strings.
pub open spec fn texts(s: Seq<String>) -> Seq<Seq<char>> {
    Seq::new(s.len(), |i: int| s[i]@)
}

/// The text of an optional string.
pub open spec fn opt_text(s: Option<String>) -> Option<Seq<char>> {
    match s {
        Some(t) => Some(t@),
        None => None,
    }
}

/// `find` is the one position before which `c` does not stand and at which `s` ends or holds `c`.
pub proof fn lemma_find(s: Seq<char>, c: char)
    ensures
        find(s, c) <= s.len(),
        forall|j: int| 0 <= j < find(s, c) ==> s[j] != c,
        find(s, c) < s.len() ==> s[find(s, c) as int] == c,
    decreases s.len(),
{
    if s.len() > 0 && s[0] != c {
        let rest = s.drop_first();
        lemma_find(rest, c);
        assert forall|j: int| 0 <= j < find(s, c) implies s[j] != c by {
            if j > 0 {
                assert(rest[j - 1] != c);
            }
        }
    }
}

/// A position with these two properties is the one that `find` gives.
pub proof fn lemma_find_unique(s: Seq<char>, c: char, k: int)
    requires
        0 <= k <= s.len(),
        forall|j: int| 0 <= j < k ==> s[j] != c,
        k < s.len() ==> s[k] == c,
    ensures
        find(s, c) == k,
{
    lemma_find(s, c);
    let f = find(s, c) as int;
    if f < k {
        assert(s[f] == c);
    }
}

/// Two strings with the same UTF-8 bytes are the same string.
pub proof fn lemma_encoding_injective(a: Seq<char>, b: Seq<char>)
    requires
        utf8::encode_utf8(a) == utf8::encode_utf8(b),
    ensures
        a == b,
{
    utf8::encode_utf8_decode_utf8(a);
    utf8::encode_utf8_decode_utf8(b);
}

/// No string is below itself, and of two strings at most one is below the other.
pub proof fn lemma_below_asymmetric(a: Seq<char>, b: Seq<char>)
    requires
        below(a, b),
    ensures
        !below(b, a),
        a != b,
{
    let x = utf8::encode_utf8(a);
    let y = utf8::encode_utf8(b);
    let k = choose|k: int| parts_below(x, y, k);
    assert forall|x2: Seq<u8>, y2: Seq<u8>| x2 == x && y2 == y implies !bytes_below(y2, x2) by {
        if bytes_below(y2, x2) {
            let l = choose|l: int| parts_below(y2, x2, l);
            if k < l {
                assert(y[k] == x[k]);
            } else if l < k {
                assert(x[l] == y[l]);
            }
        }
    }
}

/// The order of strings is transitive.
pub proof fn lemma_below_transitive(a: Seq<char>, b: Seq<char>, c: Seq<char>)
    requires
        below(a, b),
        below(b, c),
    ensures
        below(a, c),
{
    let x = utf8::encode_utf8(a);
    let y = utf8::encode_utf8(b);
    let z = utf8::encode_utf8(c);
    let k = choose|k: int| parts_below(x, y, k);
    let l = choose|l: int| parts_below(y, z, l);
    let m = if k < l { k } else { l };
    assert(parts_below(x, z, m));
}

/// The characters of `s`.
pub fn characters(s: &str) -> (r: Vec<char>)
    ensures
        r@ == s@,
{
    let mut r: Vec<char> = Vec::new();
    for c in it: s.chars()
        invariant
            r@ == it.seq().take(it.index() as int),
            it.seq() == s@,
    {
        r.push(c);
    }
    r
}

/// Whether a character is white space.
pub fn is_whitespace(c: char) -> (r: bool)
    ensures
        r == is_space(c),
{
    let u: u32 = c as u32;
    (0x09 <= u && u <= 0x0d) || u == 0x20 || u == 0x85 || u == 0xa0 || u == 0x1680 || (0x2000 <= u
        && u <= 0x200a) || u == 0x2028 || u == 0x2029 || u == 0x202f || u == 0x205f || u == 0x3000
}

/// Whether a text holds nothing but white space.
pub fn blank(s: &str) -> (r: bool)
    ensures
        r == is_blank(s@),
{
    let cs = characters(s);
    let mut i: usize = 0;
    while i < cs.len()
        invariant
            cs@ == s@,
            i <= cs.len(),
            forall|j: int| 0 <= j < i ==> is_space(#[trigger] s@[j]),
        decreases cs.len() - i,
    {
        if !is_whitespace(cs[i]) {
            assert(!is_space(s@[i as int]));
            return false;
        }
        i = i + 1;
    }
    true
}

/// Cuts a text at the first `c`.
pub fn split_once(s: &str, c: char) -> (r: Option<(String, String)>)
    ensures
        match r {
            Some(parts) => cut(s@, c) == Some((parts.0@, parts.1@)),
            None => cut(s@, c) is None,
        },
{
    let cs = characters(s);
    let mut i: usize = 0;
    while i < cs.len()
        invariant
            cs@ == s@,
            i <= cs.len(),
            forall|j: int| 0 <= j < i ==> s@[j] != c,
        decreases cs.len() - i,
    {
        if cs[i] == c {
            proof {
                lemma_find_unique(s@, c, i as int);
            }
            let head = s.substring_char(0, i).to_owned();
            let tail = s.substring_char(i + 1, cs.len()).to_owned();
            return Some((head, tail));
        }
        i = i + 1;
    }
    proof {
        lemma_find_unique(s@, c, i as int);
    }
    None
}

/// Whether `needle` stands somewhere in `text`.
pub fn contains(text: &str, needle: &str) -> (r: bool)
    ensures
        r == occurs(text@, needle@),
{
    let t = characters(text);
    let n = characters(needle);
    if n.len() > t.len() {
        return false;
    }
    if n.len() == 0 {
        assert(text@.subrange(0, 0) =~= needle@);
        assert(occurs_at(text@, needle@, 0));
        return true;
    }
    let last: usize = t.len() - n.len();
    let mut at: usize = 0;
    while at <= last
        invariant
            t@ == text@,
            n@ == needle@,
            0 < n.len() <= t.len(),
            last == t.len() - n.len(),
            at <= last + 1,
            forall|j: int| 0 <= j < at ==> !occurs_at(text@, needle@, j),
        decreases last + 1 - at,
    {
        let mut k: usize = 0;
        while k < n.len() && t[at + k] == n[k]
            invariant
                t@ == text@,
                n@ == needle@,
                at + n.len() <= t.len(),
                k <= n.len(),
                forall|j: int| 0 <= j < k ==> text@[at + j] == needle@[j],
            decreases n.len() - k,
        {
            k = k + 1;
        }
        if k == n.len() {
            assert(text@.subrange(at as int, at + needle@.len()) =~= needle@);
            assert(occurs_at(text@, needle@, at as int));
            return true;
        }
        proof {
            if occurs_at(text@, needle@, at as int) {
                assert(text@.subrange(at as int, at + needle@.len())[k as int] == needle@[k as int]);
            }
        }
        at = at + 1;
    }
    false
}

/// Whether the bytes of `a` come before those of `b`.
pub fn precedes(a: &str, b: &str) -> (r: bool)
    ensures
        r == below(a@, b@),
{
    let x = a.as_bytes();
    let y = b.as_bytes();
    let mut k: usize = 0;
    while k < x.len() && k < y.len() && x[k] == y[k]
        invariant
            x@ == utf8::encode_utf8(a@),
            y@ == utf8::encode_utf8(b@),
            k <= x.len(),
            k <= y.len(),
            forall|j: int| 0 <= j < k ==> x@[j] == y@[j],
        decreases x.len() - k,
    {
        k = k + 1;
    }
    let r = k < y.len() && (k == x.len() || x[k] < y[k]);
    proof {
        if r {
            assert(parts_below(x@, y@, k as int));
        } else if bytes_below(x@, y@) {
            let l = choose|l: int| parts_below(x@, y@, l);
            if l > k {
                assert(x@[k as int] == y@[k as int]);
            }
        }
    }
    r
}

/// Of two different strings one is below the other.
pub proof fn lemma_below_total(a: Seq<char>, b: Seq<char>)
    ensures
        below(a, b) || below(b, a) || a == b,
{
    let x = utf8::encode_utf8(a);
    let y = utf8::encode_utf8(b);
    lemma_bytes_total(x, y, 0);
    if x == y {
        lemma_encoding_injective(a, b);
    }
}

proof fn lemma_bytes_total(x: Seq<u8>, y: Seq<u8>, k: int)
    requires
        0 <= k <= x.len(),
        k <= y.len(),
        forall|j: int| 0 <= j < k ==> x[j] == y[j],
    ensures
        bytes_below(x, y) || bytes_below(y, x) || x == y,
    decreases x.len() - k,
{
    if k == x.len() {
        if k < y.len() {
            assert(parts_below(x, y, k));
        } else {
            assert(x =~= y);
        }
    } else if k == y.len() || y[k] < x[k] {
        assert(parts_below(y, x, k));
    } else if x[k] < y[k] {
        assert(parts_below(x, y, k));
    } else {
        lemma_bytes_total(x, y, k + 1);
    }
}

/// A copy of an optional string.
pub fn copy_opt(s: &Option<String>) -> (r: Option<String>)
    ensures
        opt_text(r) == opt_text(*s),
{
    match s {
        Some(t) => Some(t.clone()),
        None => None,
    }
}

/// The concatenation of two texts.
pub fn join(a: &str, b: &str) -> (r: String)
    ensures
        r@ == a@ + b@,
{
    let mut r = a.to_owned();
    r.append(b);
    r
}

/// `core::str::from_utf8`: gives the text whose UTF-8 bytes are `bytes`, exactly where they are
/// valid UTF-8.
#[verifier::external_body]
pub(crate) fn utf8_text(bytes: &[u8]) -> (r: Option<&str>)
    ensures
        r is Some <==> utf8::valid_utf8(bytes@),
        r matches Some(s) ==> s@ == utf8::decode_utf8(bytes@),
{
    core::str::from_utf8(bytes).ok()
}

/// What `str::to_lowercase` makes of a text.
pub uninterp spec fn lowercase(s: Seq<char>) -> Seq<char>;

/// `str::to_lowercase`, whose result is a function of the text alone and is called `lowercase`
/// here; of the empty text it is the empty text.
pub assume_specification[ str::to_lowercase ](s: &str) -> (r: String)
    ensures
        r@ == lowercase(s@),
        s@.len() == 0 ==> r@.len() == 0,
;

} // verus!
