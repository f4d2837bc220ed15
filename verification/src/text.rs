//! Text rules over character sequences: trimming, splitting, searching,
//! replacing and decimal rendering, each with an executable form proved
//! against its specification.
use vstd::prelude::*;
use vstd::utf8::{char_is_scalar, encode_scalar, encode_utf8, has_width_3_encoding};
use crate::bindings::{char_is_whitespace, is_white_space, push_char};

verus! {

/// The text with its leading whitespace removed.
pub open spec fn trim_start(s: Seq<char>) -> Seq<char>
    decreases s.len(),
{
    if s.len() > 0 && is_white_space(s[0]) {
        trim_start(s.drop_first())
    } else {
        s
    }
}

/// The text with its trailing whitespace removed.
pub open spec fn trim_end(s: Seq<char>) -> Seq<char>
    decreases s.len(),
{
    if s.len() > 0 && is_white_space(s.last()) {
        trim_end(s.drop_last())
    } else {
        s
    }
}

/// `str::trim`: leading and trailing whitespace removed.
pub open spec fn trim(s: Seq<char>) -> Seq<char> {
    trim_end(trim_start(s))
}

/// The characters of a text.
pub fn chars_of(s: &str) -> (r: Vec<char>)
    ensures
        r@ == s@,
{
    let mut v: Vec<char> = Vec::new();
    for c in it: s.chars()
        invariant
            it.seq() == s@,
            v@ == s@.take(it.index() as int),
    {
        v.push(c);
        assert(v@ =~= s@.take(it.index() + 1));
    }
    assert(v@ =~= s@);
    v
}

/// The characters of `v` from `from` up to `to`, as a `String`.
pub fn string_of_range(v: &Vec<char>, from: usize, to: usize) -> (r: String)
    requires
        from <= to <= v.len(),
    ensures
        r@ == v@.subrange(from as int, to as int),
{
    let mut r = String::new();
    let mut i = from;
    while i < to
        invariant
            from <= i <= to <= v.len(),
            r@ == v@.subrange(from as int, i as int),
        decreases to - i,
    {
        push_char(&mut r, v[i]);
        i = i + 1;
        assert(r@ =~= v@.subrange(from as int, i as int));
    }
    r
}

/// The characters of `v` as a `String`.
pub fn string_of(v: &Vec<char>) -> (r: String)
    ensures
        r@ == v@,
{
    let r = string_of_range(v, 0, v.len());
    assert(v@.subrange(0, v@.len() as int) =~= v@);
    r
}

proof fn lemma_trim_start_skip(s: Seq<char>, i: int)
    requires
        0 <= i < s.len(),
        is_white_space(s[i]),
    ensures
        trim_start(s.skip(i)) == trim_start(s.skip(i + 1)),
{
    assert(s.skip(i).drop_first() =~= s.skip(i + 1));
}

proof fn lemma_trim_end_take(s: Seq<char>, j: int)
    requires
        0 < j <= s.len(),
        is_white_space(s[j - 1]),
    ensures
        trim_end(s.take(j)) == trim_end(s.take(j - 1)),
{
    assert(s.take(j).drop_last() =~= s.take(j - 1));
}

/// The bounds `(i, j)` of the trimmed part of `v`.
pub fn trim_bounds(v: &Vec<char>) -> (r: (usize, usize))
    ensures
        r.0 <= r.1 <= v.len(),
        v@.subrange(r.0 as int, r.1 as int) == trim(v@),
{
    let n = v.len();
    let mut i: usize = 0;
    assert(v@.skip(0) =~= v@);
    while i < n && char_is_whitespace(v[i])
        invariant
            n == v.len(),
            i <= n,
            trim_start(v@) == trim_start(v@.skip(i as int)),
        decreases n - i,
    {
        proof { lemma_trim_start_skip(v@, i as int); }
        i = i + 1;
    }
    assert(trim_start(v@.skip(i as int)) == v@.skip(i as int));
    let ghost t = v@.skip(i as int);
    let mut j: usize = n;
    assert(t.take(n - i) =~= t);
    while j > i && char_is_whitespace(v[j - 1])
        invariant
            n == v.len(),
            i <= j <= n,
            t == v@.skip(i as int),
            trim_end(t) == trim_end(t.take(j - i)),
        decreases j,
    {
        proof {
            assert(t[j - i - 1] == v@[j - 1]);
            lemma_trim_end_take(t, j - i);
        }
        j = j - 1;
    }
    assert(t.take(j - i) =~= v@.subrange(i as int, j as int));
    assert(t.take(n - i) =~= t);
    if j > i {
        assert(t.take(j - i).last() == v@[j - 1]);
    }
    assert(trim_end(t.take(j - i)) == t.take(j - i));
    (i, j)
}

/// `str::trim` on a character vector.
pub fn trim_chars(v: &Vec<char>) -> (r: Vec<char>)
    ensures
        r@ == trim(v@),
{
    let (i, j) = trim_bounds(v);
    let mut r: Vec<char> = Vec::new();
    let mut k = i;
    while k < j
        invariant
            i <= k <= j <= v.len(),
            r@ == v@.subrange(i as int, k as int),
        decreases j - k,
    {
        r.push(v[k]);
        k = k + 1;
        assert(r@ =~= v@.subrange(i as int, k as int));
    }
    r
}

/// `str::trim` on a text.
pub fn trim_text(s: &str) -> (r: String)
    ensures
        r@ == trim(s@),
{
    let v = chars_of(s);
    let (i, j) = trim_bounds(&v);
    string_of_range(&v, i, j)
}


/// `str::split` on one separator character: the pieces between separators,
/// in order (one empty piece for the empty text).
pub open spec fn split_on(s: Seq<char>, sep: char) -> Seq<Seq<char>>
    decreases s.len(),
{
    if s.len() == 0 {
        seq![Seq::<char>::empty()]
    } else {
        let prev = split_on(s.drop_last(), sep);
        if s.last() == sep {
            prev.push(Seq::<char>::empty())
        } else {
            prev.update(prev.len() - 1, prev.last().push(s.last()))
        }
    }
}

/// The views of a sequence of character vectors.
pub open spec fn char_views(v: Seq<Vec<char>>) -> Seq<Seq<char>> {
    v.map_values(|x: Vec<char>| x@)
}

/// Splitting always gives at least one piece.
pub proof fn lemma_split_nonempty(s: Seq<char>, sep: char)
    ensures
        split_on(s, sep).len() >= 1,
    decreases s.len(),
{
    if s.len() > 0 {
        lemma_split_nonempty(s.drop_last(), sep);
    }
}

/// `str::split` on a separator character, over a character vector.
pub fn split_chars(v: &Vec<char>, sep: char) -> (r: Vec<Vec<char>>)
    ensures
        char_views(r@) == split_on(v@, sep),
{
    let mut pieces: Vec<Vec<char>> = Vec::new();
    let mut cur: Vec<char> = Vec::new();
    let mut i: usize = 0;
    assert(v@.take(0) =~= Seq::<char>::empty());
    assert(char_views(pieces@).push(cur@) =~= split_on(v@.take(0), sep));
    while i < v.len()
        invariant
            i <= v.len(),
            split_on(v@.take(i as int), sep) == char_views(pieces@).push(cur@),
        decreases v.len() - i,
    {
        let c = v[i];
        let ghost prev_pieces = pieces@;
        let ghost prev_cur = cur@;
        assert(v@.take(i + 1).drop_last() =~= v@.take(i as int));
        assert(v@.take(i + 1).last() == c);
        if c == sep {
            pieces.push(cur);
            cur = Vec::new();
            assert(char_views(pieces@).push(cur@) =~= char_views(prev_pieces).push(prev_cur).push(
                Seq::<char>::empty(),
            ));
        } else {
            cur.push(c);
            assert(char_views(pieces@).push(cur@) =~= char_views(prev_pieces).push(prev_cur).update(
                prev_pieces.len() as int,
                prev_cur.push(c),
            ));
        }
        i = i + 1;
    }
    assert(v@.take(v.len() as int) =~= v@);
    let ghost before = pieces@;
    pieces.push(cur);
    assert(char_views(pieces@) =~= char_views(before).push(cur@));
    pieces
}

/// Whether `s` begins with `p`.
pub open spec fn starts_with(s: Seq<char>, p: Seq<char>) -> bool {
    p.len() <= s.len() && s.take(p.len() as int) == p
}

/// Whether `s` ends with `p`.
pub open spec fn ends_with(s: Seq<char>, p: Seq<char>) -> bool {
    p.len() <= s.len() && s.skip(s.len() - p.len()) == p
}

/// Whether `p` occurs in `s` at position `i`.
pub open spec fn occurs_at(s: Seq<char>, p: Seq<char>, i: int) -> bool {
    0 <= i && i + p.len() <= s.len() && s.subrange(i, i + p.len()) == p
}

/// Whether `p` occurs anywhere in `s`.
pub open spec fn contains(s: Seq<char>, p: Seq<char>) -> bool {
    exists|i: int| occurs_at(s, p, i)
}

/// Whether `p` occurs in `s` at position `i`.
pub fn matches_at(s: &Vec<char>, p: &Vec<char>, i: usize) -> (r: bool)
    ensures
        r == occurs_at(s@, p@, i as int),
{
    if i > s.len() || p.len() > s.len() - i {
        return false;
    }
    let mut k: usize = 0;
    while k < p.len()
        invariant
            i + p.len() <= s.len(),
            k <= p.len(),
            forall|m: int| 0 <= m < k ==> s@[i + m] == p@[m],
        decreases p.len() - k,
    {
        if s[i + k] != p[k] {
            assert(s@.subrange(i as int, i + p.len())[k as int] != p@[k as int]);
            return false;
        }
        k = k + 1;
    }
    assert(s@.subrange(i as int, i + p.len()) =~= p@);
    true
}

/// Whether `p` occurs in `s`.
pub fn contains_chars(s: &Vec<char>, p: &Vec<char>) -> (r: bool)
    ensures
        r == contains(s@, p@),
{
    let mut i: usize = 0;
    while i < s.len()
        invariant
            i <= s.len(),
            forall|m: int| 0 <= m < i ==> !occurs_at(s@, p@, m),
        decreases s.len() - i,
    {
        if matches_at(s, p, i) {
            return true;
        }
        i = i + 1;
    }
    if matches_at(s, p, i) {
        return true;
    }
    assert forall|m: int| !occurs_at(s@, p@, m) by {
        if 0 <= m && m + p@.len() <= s@.len() {
            assert(m <= i);
        }
    }
    false
}

/// Whether `s` begins with `p`.
pub fn starts_with_chars(s: &Vec<char>, p: &Vec<char>) -> (r: bool)
    ensures
        r == starts_with(s@, p@),
{
    let r = matches_at(s, p, 0);
    assert(r ==> s@.take(p@.len() as int) =~= s@.subrange(0, p@.len() as int));
    assert(starts_with(s@, p@) ==> s@.take(p@.len() as int) =~= s@.subrange(0, p@.len() as int));
    r
}

/// Whether `s` ends with `p`.
pub fn ends_with_chars(s: &Vec<char>, p: &Vec<char>) -> (r: bool)
    ensures
        r == ends_with(s@, p@),
{
    if p.len() > s.len() {
        return false;
    }
    let i = s.len() - p.len();
    let r = matches_at(s, p, i);
    assert(s@.skip(i as int) =~= s@.subrange(i as int, i + p@.len()));
    r
}

/// `str::replace` with a non-empty pattern: every occurrence of `pat`,
/// found left to right without overlap, becomes `rep`.
pub open spec fn replace_all(s: Seq<char>, pat: Seq<char>, rep: Seq<char>) -> Seq<char>
    decreases s.len(),
{
    if pat.len() == 0 || s.len() < pat.len() {
        s
    } else if s.take(pat.len() as int) == pat {
        rep + replace_all(s.skip(pat.len() as int), pat, rep)
    } else {
        seq![s[0]] + replace_all(s.drop_first(), pat, rep)
    }
}

/// `str::replace` with a non-empty pattern, over character vectors.
pub fn replace_chars(s: &Vec<char>, pat: &Vec<char>, rep: &Vec<char>) -> (r: Vec<char>)
    requires
        pat.len() > 0,
    ensures
        r@ == replace_all(s@, pat@, rep@),
{
    let mut out: Vec<char> = Vec::new();
    let mut i: usize = 0;
    assert(s@.skip(0) =~= s@);
    while i < s.len()
        invariant
            pat.len() > 0,
            i <= s.len(),
            replace_all(s@, pat@, rep@) == out@ + replace_all(s@.skip(i as int), pat@, rep@),
        decreases s.len() - i,
    {
        let ghost t = s@.skip(i as int);
        if matches_at(s, pat, i) {
            assert(t.take(pat@.len() as int) =~= s@.subrange(i as int, i + pat@.len()));
            assert(t.skip(pat@.len() as int) =~= s@.skip(i + pat@.len()));
            let ghost before = out@;
            let mut k: usize = 0;
            while k < rep.len()
                invariant
                    k <= rep.len(),
                    out@ == before + rep@.take(k as int),
                decreases rep.len() - k,
            {
                out.push(rep[k]);
                k = k + 1;
                assert(out@ =~= before + rep@.take(k as int));
            }
            assert(rep@.take(rep@.len() as int) =~= rep@);
            assert(before + (rep@ + replace_all(s@.skip(i + pat@.len()), pat@, rep@)) =~= out@
                + replace_all(s@.skip(i + pat@.len()), pat@, rep@));
            i = i + pat.len();
        } else {
            if pat.len() <= s.len() - i {
                assert(t.take(pat@.len() as int) =~= s@.subrange(i as int, i + pat@.len()));
                assert(t.drop_first() =~= s@.skip(i + 1));
                let ghost before = out@;
                out.push(s[i]);
                assert(before + (seq![s@[i as int]] + replace_all(s@.skip(i + 1), pat@, rep@))
                    =~= out@ + replace_all(s@.skip(i + 1), pat@, rep@));
                i = i + 1;
            } else {
                let ghost before = out@;
                let mut k = i;
                while k < s.len()
                    invariant
                        i <= k <= s.len(),
                        out@ == before + s@.subrange(i as int, k as int),
                    decreases s.len() - k,
                {
                    out.push(s[k]);
                    k = k + 1;
                    assert(out@ =~= before + s@.subrange(i as int, k as int));
                }
                assert(s@.subrange(i as int, s@.len() as int) =~= t);
                assert(s@.skip(s@.len() as int) =~= Seq::<char>::empty());
                assert(out@ + Seq::<char>::empty() =~= out@);
                i = s.len();
            }
        }
    }
    assert(s@.skip(s@.len() as int) =~= Seq::<char>::empty());
    assert(out@ + Seq::<char>::empty() =~= out@);
    out
}

/// The character of a decimal digit.
pub open spec fn digit_char(d: int) -> char {
    (('0' as int) + d) as char
}

/// The decimal rendering of a natural number, as `Display` writes it.
pub open spec fn decimal(n: nat) -> Seq<char>
    decreases n,
{
    if n < 10 {
        seq![digit_char(n as int)]
    } else {
        decimal(n / 10).push(digit_char((n % 10) as int))
    }
}

/// Appends the decimal rendering of `n`.
pub fn push_decimal(out: &mut String, n: u64)
    ensures
        final(out)@ == old(out)@ + decimal(n as nat),
    decreases n,
{
    if n >= 10 {
        push_decimal(out, n / 10);
    }
    let d = (n % 10) as u32;
    let c = char_from_digit(d);
    push_char(out, c);
    proof {
        if n >= 10 {
            assert(old(out)@ + decimal((n / 10) as nat) + seq![c] =~= old(out)@ + decimal(n as nat));
        } else {
            assert(old(out)@ + seq![c] =~= old(out)@ + decimal(n as nat));
        }
    }
}

/// The digit character for `d < 10`.
pub fn char_from_digit(d: u32) -> (c: char)
    requires
        d < 10,
    ensures
        c == digit_char(d as int),
{
    if d == 0 { '0' } else if d == 1 { '1' } else if d == 2 { '2' } else if d == 3 { '3' }
    else if d == 4 { '4' } else if d == 5 { '5' } else if d == 6 { '6' } else if d == 7 { '7' }
    else if d == 8 { '8' } else { '9' }
}

/// The decimal rendering of `n` as a `String`.
pub fn decimal_string(n: u64) -> (r: String)
    ensures
        r@ == decimal(n as nat),
{
    let mut r = String::new();
    push_decimal(&mut r, n);
    assert(Seq::<char>::empty() + decimal(n as nat) =~= decimal(n as nat));
    r
}


/// Whether two character vectors hold the same text.
pub fn chars_equal(a: &Vec<char>, b: &Vec<char>) -> (r: bool)
    ensures
        r == (a@ == b@),
{
    if a.len() != b.len() {
        return false;
    }
    let mut k: usize = 0;
    while k < a.len()
        invariant
            a.len() == b.len(),
            k <= a.len(),
            forall|m: int| 0 <= m < k ==> a@[m] == b@[m],
        decreases a.len() - k,
    {
        if a[k] != b[k] {
            return false;
        }
        k = k + 1;
    }
    assert(a@ =~= b@);
    true
}

/// Whether two texts are equal.
pub fn text_equals(a: &str, b: &str) -> (r: bool)
    ensures
        r == (a@ == b@),
{
    if a.len() != b.len() {
        return false;
    }
    let va = chars_of(a);
    let vb = chars_of(b);
    chars_equal(&va, &vb)
}

/// A `String` holding a copy of a text.
pub fn owned(s: &str) -> (r: String)
    ensures
        r@ == s@,
{
    let mut r = String::new();
    r.append(s);
    assert(Seq::<char>::empty() + s@ =~= s@);
    r
}


/// The length in bytes of the UTF-8 encoding of a text (what `str::len` gives).
pub open spec fn utf8_len(s: Seq<char>) -> nat {
    encode_utf8(s).len()
}

/// Encoding a text with one more character appends that character's bytes.
pub proof fn lemma_encode_push(s: Seq<char>, c: char)
    ensures
        encode_utf8(s.push(c)) == encode_utf8(s) + encode_scalar(c as u32),
    decreases s.len(),
{
    if s.len() == 0 {
        assert(s.push(c).drop_first() =~= Seq::<char>::empty());
        assert(encode_utf8(Seq::<char>::empty()) =~= Seq::<u8>::empty());
        assert(encode_utf8(s) =~= Seq::<u8>::empty());
        assert(encode_scalar(c as u32) + Seq::<u8>::empty() =~= Seq::<u8>::empty() + encode_scalar(c as u32));
    } else {
        lemma_encode_push(s.drop_first(), c);
        assert(s.push(c).drop_first() =~= s.drop_first().push(c));
        assert(s.push(c)[0] == s[0]);
        assert(encode_scalar(s[0] as u32) + (encode_utf8(s.drop_first()) + encode_scalar(c as u32))
            =~= (encode_scalar(s[0] as u32) + encode_utf8(s.drop_first())) + encode_scalar(c as u32));
    }
}

/// The UTF-8 length of two texts one after the other is the sum of theirs.
pub proof fn lemma_utf8_len_concat(a: Seq<char>, b: Seq<char>)
    ensures
        utf8_len(a + b) == utf8_len(a) + utf8_len(b),
    decreases b.len(),
{
    if b.len() == 0 {
        assert(a + b =~= a);
        assert(encode_utf8(b) =~= Seq::<u8>::empty());
    } else {
        let b2 = b.drop_last();
        let c = b.last();
        lemma_utf8_len_concat(a, b2);
        assert(a + b =~= (a + b2).push(c));
        assert(b =~= b2.push(c));
        lemma_encode_push(a + b2, c);
        lemma_encode_push(b2, c);
    }
}

/// The number of bytes `c` takes in UTF-8.
pub fn utf8_width(c: char) -> (w: usize)
    ensures
        w == encode_scalar(c as u32).len(),
        1 <= w <= 4,
{
    proof {
        char_is_scalar(c);
    }
    let v = c as u32;
    if v <= 0x7f {
        1
    } else if v <= 0x7ff {
        2
    } else if v <= 0xffff {
        assert(has_width_3_encoding(v));
        3
    } else {
        4
    }
}

/// The UTF-8 length of each prefix grows with the prefix.
proof fn lemma_utf8_len_prefix(s: Seq<char>, i: int)
    requires
        0 <= i < s.len(),
    ensures
        utf8_len(s.take(i + 1)) == utf8_len(s.take(i)) + encode_scalar(s[i] as u32).len(),
        utf8_len(s.take(i + 1)) > utf8_len(s.take(i)),
{
    assert(s.take(i + 1) =~= s.take(i).push(s[i]));
    lemma_encode_push(s.take(i), s[i]);
    char_is_scalar(s[i]);
}

proof fn lemma_utf8_len_monotonic(s: Seq<char>, a: int, b: int)
    requires
        0 <= a < b <= s.len(),
    ensures
        utf8_len(s.take(a)) < utf8_len(s.take(b)),
    decreases b - a,
{
    lemma_utf8_len_prefix(s, b - 1);
    if a < b - 1 {
        lemma_utf8_len_monotonic(s, a, b - 1);
    }
}

/// Whether byte offset `k` of the UTF-8 encoding of `s` falls between characters.
pub open spec fn at_char_boundary(s: Seq<char>, k: int) -> bool {
    exists|j: int| 0 <= j <= s.len() && utf8_len(s.take(j)) == k
}

/// The characters whose UTF-8 encoding is the first `k` bytes of that of `s`
/// (meaningful where `k` falls between characters).
pub open spec fn byte_prefix_of(s: Seq<char>, k: int) -> Seq<char> {
    s.take(choose|j: int| 0 <= j <= s.len() && utf8_len(s.take(j)) == k)
}

proof fn lemma_byte_prefix_unique(s: Seq<char>, k: int, j: int)
    requires
        0 <= j <= s.len(),
        utf8_len(s.take(j)) == k,
    ensures
        byte_prefix_of(s, k) == s.take(j),
{
    let c = choose|i: int| 0 <= i <= s.len() && utf8_len(s.take(i)) == k;
    if c < j {
        lemma_utf8_len_monotonic(s, c, j);
    } else if c > j {
        lemma_utf8_len_monotonic(s, j, c);
    }
}

/// The first `k` bytes of a text, where `k` falls between characters (what
/// `&s[..k]` gives).
pub fn byte_prefix(s: &str, k: usize) -> (r: String)
    requires
        at_char_boundary(s@, k as int),
    ensures
        r@ == byte_prefix_of(s@, k as int),
{
    let v = chars_of(s);
    let mut acc: usize = 0;
    let mut j: usize = 0;
    assert(s@.take(0) =~= Seq::<char>::empty());
    assert(encode_utf8(Seq::<char>::empty()) =~= Seq::<u8>::empty());
    while acc < k && j < v.len()
        invariant
            v@ == s@,
            j <= v.len(),
            acc == utf8_len(s@.take(j as int)),
            acc <= k,
            at_char_boundary(s@, k as int),
        decreases v.len() - j,
    {
        proof {
            lemma_utf8_len_prefix(s@, j as int);
            let j0 = choose|j0: int| 0 <= j0 <= s@.len() && utf8_len(s@.take(j0)) == k;
            if j0 < j {
                lemma_utf8_len_monotonic(s@, j0, j as int);
            } else if j0 > j + 1 {
                lemma_utf8_len_monotonic(s@, j + 1, j0);
            }
        }
        acc = acc + utf8_width(v[j]);
        j = j + 1;
    }
    proof {
        let j0 = choose|j0: int| 0 <= j0 <= s@.len() && utf8_len(s@.take(j0)) == k;
        if acc < k {
            if j0 < j {
                lemma_utf8_len_monotonic(s@, j0, j as int);
            }
        }
        assert(acc == k);
        lemma_byte_prefix_unique(s@, k as int, j as int);
    }
    string_of_range(&v, 0, j)
}

} // verus!
