//! Character-level helpers on strings, with their mathematical models.

use vstd::prelude::*;

verus! {

/// `p` occurs in `s` starting at index `i`.
pub open spec fn occurs_at(s: Seq<char>, p: Seq<char>, i: int) -> bool {
    &&& 0 <= i
    &&& i + p.len() <= s.len()
    &&& s.subrange(i, i + p.len()) == p
}

/// `p` is a substring of `s` (what `str::contains` answers for a `&str` pattern).
pub open spec fn contains_text(s: Seq<char>, p: Seq<char>) -> bool {
    exists|i: int| occurs_at(s, p, i)
}

/// The characters of `s`, in order.
pub fn chars_of(s: &str) -> (v: Vec<char>)
    ensures
        v@ == s@,
{
    broadcast use vstd::string::group_string_axioms;
    let mut v: Vec<char> = Vec::new();
    for c in it: s.chars()
        invariant
            v@ == it.seq().take(it.index() as int),
    {
        v.push(c);
    }
    v
}


/// Every occurrence counts, the first position included: a sequence
/// contains each of its infixes, so each of its prefixes and itself.
pub proof fn lemma_contains_infix(a: Seq<char>, p: Seq<char>, b: Seq<char>)
    ensures
        contains_text(a + p + b, p),
        contains_text(p + b, p),
        contains_text(p, p),
{
    let s = a + p + b;
    assert(s.subrange(a.len() as int, (a.len() + p.len()) as int) =~= p);
    assert(occurs_at(s, p, a.len() as int));
    assert((p + b).subrange(0, p.len() as int) =~= p);
    assert(occurs_at(p + b, p, 0));
    assert(p.subrange(0, p.len() as int) =~= p);
    assert(occurs_at(p, p, 0));
}

/// A sequence contains `p` exactly when `p` stands in it at some position:
/// there are `a` and `b` with the sequence equal to `a + p + b`.
pub proof fn lemma_contains_is_infix(s: Seq<char>, p: Seq<char>)
    ensures
        contains_text(s, p) <==> exists|a: Seq<char>, b: Seq<char>| s == a + p + b,
{
    if contains_text(s, p) {
        let i = choose|i: int| occurs_at(s, p, i);
        let a = s.take(i);
        let b = s.skip(i + p.len());
        assert(s =~= a + p + b);
    }
    if exists|a: Seq<char>, b: Seq<char>| s == a + p + b {
        let (a, b) = choose|a: Seq<char>, b: Seq<char>| s == a + p + b;
        lemma_contains_infix(a, p, b);
    }
}

/// Whether two strings hold the same characters.
pub fn str_eq(a: &str, b: &str) -> (r: bool)
    ensures
        r == (a@ == b@),
{
    let x = chars_of(a);
    let y = chars_of(b);
    if x.len() != y.len() {
        return false;
    }
    let n = x.len();
    let mut i: usize = 0;
    while i < n
        invariant
            n == x@.len(),
            x@ == a@,
            y@ == b@,
            x@.len() == y@.len(),
            i <= n,
            forall|k: int| 0 <= k < i ==> x@[k] == y@[k],
        decreases n - i,
    {
        if x[i] != y[i] {
            assert(x@[i as int] != y@[i as int]);
            return false;
        }
        i += 1;
    }
    assert(x@ =~= y@);
    true
}

/// `p` occurs in `s` at `i`: the exact check, character by character.
fn occurs_at_exec(s: &Vec<char>, p: &Vec<char>, i: usize) -> (b: bool)
    requires
        i + p@.len() <= s@.len(),
    ensures
        b == occurs_at(s@, p@, i as int),
{
    let n = s.len();
    let mut j: usize = 0;
    while j < p.len()
        invariant
            n == s@.len(),
            i + p@.len() <= s@.len(),
            j <= p@.len(),
            forall|k: int| 0 <= k < j ==> s@[i + k] == p@[k],
        decreases p@.len() - j,
    {
        if s[i + j] != p[j] {
            assert(s@.subrange(i as int, i + p@.len())[j as int] == s@[i + j]);
            return false;
        }
        j += 1;
    }
    assert(s@.subrange(i as int, i + p@.len()) =~= p@);
    true
}

/// Whether `p` is a substring of `s`, by trying every start position.
pub fn seq_contains(s: &Vec<char>, p: &Vec<char>) -> (b: bool)
    ensures
        b == contains_text(s@, p@),
{
    if p.len() == 0 {
        assert(s@.subrange(0, 0) =~= p@);
        assert(occurs_at(s@, p@, 0));
        return true;
    }
    if p.len() > s.len() {
        return false;
    }
    let n = s.len();
    let last: usize = n - p.len();
    let mut i: usize = 0;
    while i <= last
        invariant
            n == s@.len(),
            last == n - p@.len(),
            0 < p@.len() <= s@.len(),
            i <= last + 1,
            forall|k: int| 0 <= k < i ==> !occurs_at(s@, p@, k),
        decreases n - i,
    {
        if occurs_at_exec(s, p, i) {
            return true;
        }
        i += 1;
    }
    false
}

/// `str::contains` with a `&str` pattern: whether `needle` occurs in `haystack`.
pub fn str_contains(haystack: &str, needle: &str) -> (b: bool)
    ensures
        b == contains_text(haystack@, needle@),
{
    let h = chars_of(haystack);
    let n = chars_of(needle);
    seq_contains(&h, &n)
}

/// Appends one character to a string.
/// Trusted: `String::push`, whose documentation says it appends the given
/// `char` to the end of the string; the contract states exactly that.
#[verifier::external_body]
pub fn string_push(s: &mut String, c: char)
    ensures
        final(s)@ == old(s)@.push(c),
{
    s.push(c);
}

/// The text of `bytes` read as UTF-8, each invalid sequence replaced by
/// U+FFFD (what `String::from_utf8_lossy` gives).
pub uninterp spec fn lossy_utf8_text(bytes: Seq<u8>) -> Seq<char>;

/// Trusted: `String::from_utf8_lossy`, turned into an owned `String`. The
/// result is named as a function of the bytes; where the bytes are valid
/// UTF-8, its documentation says that they are returned as that text, which
/// the second clause states. What replaces invalid sequences is left unsaid.
#[verifier::external_body]
pub fn utf8_lossy_string(bytes: &[u8]) -> (s: String)
    ensures
        s@ == lossy_utf8_text(bytes@),
        vstd::utf8::valid_utf8(bytes@) ==> s@ == vstd::utf8::decode_utf8(bytes@),
{
    String::from_utf8_lossy(bytes).into_owned()
}

/// `char::is_digit(10)`: the ASCII digits `'0'..='9'`.
pub open spec fn is_decimal_digit(c: char) -> bool {
    '0' <= c && c <= '9'
}

/// The characters a price text keeps: decimal digits and the decimal comma.
pub open spec fn is_price_char(c: char) -> bool {
    is_decimal_digit(c) || c == ','
}

/// A decimal comma becomes a decimal point; every other character stays.
pub open spec fn comma_to_point(c: char) -> char {
    if c == ',' {
        '.'
    } else {
        c
    }
}

/// The price text of `s`: its digits and commas, in order, each comma
/// replaced by a point (the text that is then read as a number).
pub open spec fn price_text_of(s: Seq<char>) -> Seq<char> {
    s.filter(|c: char| is_price_char(c)).map_values(|c: char| comma_to_point(c))
}

proof fn lemma_price_text_step(s: Seq<char>, i: int)
    requires
        0 <= i < s.len(),
    ensures
        price_text_of(s.take(i + 1)) == price_text_of(s.take(i)) + (if is_price_char(s[i]) {
            seq![comma_to_point(s[i])]
        } else {
            Seq::<char>::empty()
        }),
{
    let f = |c: char| is_price_char(c);
    let g = |c: char| comma_to_point(c);
    assert(s.take(i + 1).drop_last() =~= s.take(i));
    reveal_with_fuel(Seq::<_>::filter, 1);
    let a = s.take(i).filter(f);
    if is_price_char(s[i]) {
        assert(s.take(i + 1).filter(f) =~= a.push(s[i]));
        assert(a.push(s[i]).map_values(g) =~= a.map_values(g) + seq![comma_to_point(s[i])]);
    } else {
        assert(s.take(i + 1).filter(f) =~= a);
        assert(a.map_values(g) =~= a.map_values(g) + Seq::<char>::empty());
    }
}

/// A price text holds only decimal digits and points, and one character for
/// each digit or comma of the text it was taken from.
pub proof fn lemma_price_text_chars(s: Seq<char>)
    ensures
        forall|i: int|
            0 <= i < price_text_of(s).len() ==> is_decimal_digit(#[trigger] price_text_of(s)[i])
                || price_text_of(s)[i] == '.',
        price_text_of(s).len() == s.filter(|c: char| is_price_char(c)).len(),
{
    let f = |c: char| is_price_char(c);
    assert forall|i: int|
        0 <= i < price_text_of(s).len() implies is_decimal_digit(
            #[trigger] price_text_of(s)[i],
        ) || price_text_of(s)[i] == '.' by {
        s.lemma_filter_pred(f, i);
    }
}

/// The price text of one character: an ASCII digit stays, a comma becomes a
/// point, anything else is dropped.
pub proof fn lemma_price_text_of_char(c: char)
    ensures
        price_text_of(seq![c]) == if '0' <= c && c <= '9' {
            seq![c]
        } else if c == ',' {
            seq!['.']
        } else {
            Seq::<char>::empty()
        },
{
    let f = |c: char| is_price_char(c);
    reveal_with_fuel(Seq::<_>::filter, 2);
    assert(seq![c].drop_last() =~= Seq::<char>::empty());
    if '0' <= c && c <= '9' || c == ',' {
        assert(seq![c].filter(f) =~= seq![c]);
    } else {
        assert(seq![c].filter(f) =~= Seq::<char>::empty());
    }
}

/// The price text of a joined text is the price texts of its parts, joined.
pub proof fn lemma_price_text_of_concat(a: Seq<char>, b: Seq<char>)
    ensures
        price_text_of(a + b) == price_text_of(a) + price_text_of(b),
{
    let f = |c: char| is_price_char(c);
    let g = |c: char| comma_to_point(c);
    Seq::filter_distributes_over_add(a, b, f);
    assert((a.filter(f) + b.filter(f)).map_values(g) =~= a.filter(f).map_values(g) + b.filter(
        f,
    ).map_values(g));
}

/// Characters other than digits and commas do not change a price text:
/// taking `junk` out from between `a` and `b`, or putting it in, leaves the
/// price text as it is.
pub proof fn lemma_price_text_ignores_other_chars(a: Seq<char>, junk: Seq<char>, b: Seq<char>)
    requires
        forall|j: int| 0 <= j < junk.len() ==> !is_price_char(#[trigger] junk[j]),
    ensures
        price_text_of(a + junk + b) == price_text_of(a + b),
{
    let f = |c: char| is_price_char(c);
    Seq::filter_distributes_over_add(a + junk, b, f);
    Seq::filter_distributes_over_add(a, junk, f);
    Seq::filter_distributes_over_add(a, b, f);
    assert(junk.filter(f).len() == 0) by {
        if junk.filter(f).len() > 0 {
            let x = junk.filter(f)[0];
            junk.lemma_filter_pred(f, 0);
            assert(junk.filter(f).contains(x));
            junk.lemma_filter_contains_rev(f, x);
            let w = choose|w: int| 0 <= w < junk.len() && junk[w] == x;
            assert(!is_price_char(junk[w]));
        }
    }
    assert(a.filter(f) + junk.filter(f) =~= a.filter(f));
}

/// Keeps the decimal digits and commas of `s`, in order, and turns each comma
/// into a point: `"1 299,00 zł"` gives `"1299.00"`.
pub fn price_text(s: &str) -> (t: String)
    ensures
        t@ == price_text_of(s@),
{
    let mut t = String::new();
    let mut i: usize = 0;
    let cs = chars_of(s);
    while i < cs.len()
        invariant
            cs@ == s@,
            i <= cs@.len(),
            t@ == price_text_of(s@.take(i as int)),
        decreases cs@.len() - i,
    {
        proof {
            lemma_price_text_step(s@, i as int);
        }
        let c = cs[i];
        if ('0' <= c && c <= '9') || c == ',' {
            if c == ',' {
                string_push(&mut t, '.');
            } else {
                string_push(&mut t, c);
            }
        }
        i += 1;
    }
    assert(s@.take(cs@.len() as int) =~= s@);
    t
}

} // verus!
