//! Character-level text operations and the mathematical functions that
//! describe them. Every text in this crate is modelled by its sequence of
//! Unicode scalar values, the view of `str` and `String`.

use vstd::prelude::*;

verus! {

/// Appends one character: `String::push` adds `c` at the end of the text.
pub assume_specification[ String::push ](s: &mut String, c: char)
    ensures
        final(s)@ == old(s)@.push(c),
;

// ---------------------------------------------------------------------------
// Views of collections of texts
// ---------------------------------------------------------------------------

/// The texts held by a sequence of strings.
pub open spec fn texts(v: Seq<String>) -> Seq<Seq<char>> {
    Seq::new(v.len(), |i: int| v[i]@)
}

/// The text held by an optional string.
pub open spec fn opt_text(o: Option<String>) -> Option<Seq<char>> {
    match o {
        Some(s) => Some(s@),
        None => None,
    }
}

pub broadcast proof fn lemma_texts_push(v: Seq<String>, s: String)
    ensures
        #[trigger] texts(v.push(s)) == texts(v).push(s@),
{
    assert(texts(v.push(s)) =~= texts(v).push(s@));
}

pub proof fn lemma_texts_add(a: Seq<String>, b: Seq<String>)
    ensures
        texts(a + b) == texts(a) + texts(b),
{
    assert(texts(a + b) =~= texts(a) + texts(b));
}

/// The characters of `s`, in order.
pub fn chars_of(s: &str) -> (r: Vec<char>)
    ensures
        r@ == s@,
{
    let mut r: Vec<char> = Vec::new();
    for c in it: s.chars()
        invariant
            it.seq() == s@,
            r@ == s@.take(it.index()),
    {
        r.push(c);
        assert(r@ =~= s@.take(it.index() + 1));
    }
    assert(s@.take(s@.len() as int) =~= s@);
    r
}

/// The text made of the given characters.
pub fn string_of(v: &Vec<char>) -> (r: String)
    ensures
        r@ == v@,
{
    let mut r = String::new();
    let mut i: usize = 0;
    while i < v.len()
        invariant
            i <= v.len(),
            r@ == v@.take(i as int),
        decreases v.len() - i,
    {
        r.push(v[i]);
        i = i + 1;
        assert(v@.take(i as int) =~= v@.take(i - 1).push(v@[i - 1]));
    }
    assert(v@.take(v@.len() as int) =~= v@);
    r
}


// ---------------------------------------------------------------------------
// Character classes
// ---------------------------------------------------------------------------

/// The characters with the Unicode `White_Space` property.
pub open spec fn is_space(c: char) -> bool {
    ||| '\u{9}' <= c <= '\u{d}'
    ||| c == ' '
    ||| c == '\u{85}'
    ||| c == '\u{a0}'
    ||| c == '\u{1680}'
    ||| '\u{2000}' <= c <= '\u{200a}'
    ||| c == '\u{2028}'
    ||| c == '\u{2029}'
    ||| c == '\u{202f}'
    ||| c == '\u{205f}'
    ||| c == '\u{3000}'
}

/// The control characters: C0, DEL and C1.
pub open spec fn is_ctrl(c: char) -> bool {
    c <= '\u{1f}' || '\u{7f}' <= c <= '\u{9f}'
}

/// An ASCII decimal digit.
pub open spec fn is_digit(c: char) -> bool {
    '0' <= c <= '9'
}

pub fn space(c: char) -> (b: bool)
    ensures
        b == is_space(c),
{
    ('\u{9}' <= c && c <= '\u{d}') || c == ' ' || c == '\u{85}' || c == '\u{a0}' || c == '\u{1680}'
        || ('\u{2000}' <= c && c <= '\u{200a}') || c == '\u{2028}' || c == '\u{2029}' || c
        == '\u{202f}' || c == '\u{205f}' || c == '\u{3000}'
}

pub fn control(c: char) -> (b: bool)
    ensures
        b == is_ctrl(c),
{
    c <= '\u{1f}' || ('\u{7f}' <= c && c <= '\u{9f}')
}

pub fn digit(c: char) -> (b: bool)
    ensures
        b == is_digit(c),
{
    '0' <= c && c <= '9'
}

// ---------------------------------------------------------------------------
// Comparison and search
// ---------------------------------------------------------------------------

/// Whether `p` stands in `s` at position `i`.
pub open spec fn occurs_at(s: Seq<char>, p: Seq<char>, i: int) -> bool {
    0 <= i && i + p.len() <= s.len() && s.subrange(i, i + p.len()) == p
}

/// Whether `p` stands anywhere in `s`.
pub open spec fn has_text(s: Seq<char>, p: Seq<char>) -> bool {
    exists|i: int| occurs_at(s, p, i)
}

/// Whether `s` ends with `p`.
pub open spec fn ends_in(s: Seq<char>, p: Seq<char>) -> bool {
    p.len() <= s.len() && s.skip(s.len() - p.len()) == p
}

/// Whether both texts hold the same characters.
pub fn same(a: &str, b: &str) -> (r: bool)
    ensures
        r == (a@ == b@),
{
    let x = chars_of(a);
    let y = chars_of(b);
    same_chars(&x, &y)
}

pub fn same_chars(x: &Vec<char>, y: &Vec<char>) -> (r: bool)
    ensures
        r == (x@ == y@),
{
    if x.len() != y.len() {
        return false;
    }
    let mut i: usize = 0;
    while i < x.len()
        invariant
            i <= x.len(),
            x.len() == y.len(),
            forall|j: int| 0 <= j < i ==> x@[j] == y@[j],
        decreases x.len() - i,
    {
        if x[i] != y[i] {
            assert(x@ != y@) by {
                assert(x@[i as int] != y@[i as int]);
            }
            return false;
        }
        i = i + 1;
    }
    assert(x@ =~= y@);
    true
}

/// Whether an optional text is present and equal to `b`.
pub fn same_opt(a: &Option<String>, b: &str) -> (r: bool)
    ensures
        r == (opt_text(*a) == Some(b@)),
{
    match a {
        Some(x) => same(x.as_str(), b),
        None => false,
    }
}

/// The first position at or after `from` where `p` stands in `s`.
pub fn find_from(s: &Vec<char>, p: &Vec<char>, from: usize) -> (r: Option<usize>)
    ensures
        match r {
            Some(i) => from <= i && occurs_at(s@, p@, i as int) && forall|j: int|
                from <= j < i ==> !occurs_at(s@, p@, j),
            None => forall|j: int| from <= j ==> !occurs_at(s@, p@, j),
        },
{
    if s.len() < p.len() {
        return None;
    }
    let last: usize = s.len() - p.len();
    let mut i: usize = from;
    while i <= last
        invariant
            from <= i,
            last == s.len() - p.len(),
            forall|j: int| from <= j < i ==> !occurs_at(s@, p@, j),
        decreases last + 1 - i,
    {
        let mut k: usize = 0;
        while k < p.len() && s[i + k] == p[k]
            invariant
                i <= last,
                last == s.len() - p.len(),
                k <= p.len(),
                forall|m: int| 0 <= m < k ==> s@[i + m] == p@[m],
            decreases p.len() - k,
        {
            k = k + 1;
        }
        if k == p.len() {
            assert(s@.subrange(i as int, i + p@.len()) =~= p@);
            return Some(i);
        }
        assert(!occurs_at(s@, p@, i as int)) by {
            if occurs_at(s@, p@, i as int) {
                assert(s@.subrange(i as int, i + p@.len())[k as int] == p@[k as int]);
            }
        }
        if i == last {
            return None;
        }
        i = i + 1;
    }
    None
}

/// Whether `p` stands anywhere in `s`.
pub fn contains(s: &str, p: &str) -> (r: bool)
    ensures
        r == has_text(s@, p@),
{
    let x = chars_of(s);
    let y = chars_of(p);
    match find_from(&x, &y, 0) {
        Some(i) => {
            assert(occurs_at(s@, p@, i as int));
            true
        },
        None => {
            assert forall|i: int| !occurs_at(s@, p@, i) by {
                if i >= 0 {
                    assert(0usize <= i);
                }
            }
            false
        },
    }
}

/// Whether `s` starts with `p`.
pub fn starts_with(s: &str, p: &str) -> (r: bool)
    ensures
        r == p@.is_prefix_of(s@),
{
    let x = chars_of(s);
    let y = chars_of(p);
    let mut k: usize = 0;
    if y.len() > x.len() {
        return false;
    }
    while k < y.len()
        invariant
            x@ == s@,
            y@ == p@,
            k <= y.len() <= x.len(),
            forall|m: int| 0 <= m < k ==> x@[m] == y@[m],
        decreases y.len() - k,
    {
        if x[k] != y[k] {
            assert(x@.subrange(0, y@.len() as int)[k as int] != y@[k as int]);
            return false;
        }
        k = k + 1;
    }
    assert(x@.subrange(0, y@.len() as int) =~= y@);
    true
}

/// Whether `s` ends with `p`.
pub fn ends_with(s: &str, p: &str) -> (r: bool)
    ensures
        r == ends_in(s@, p@),
{
    let x = chars_of(s);
    let y = chars_of(p);
    if y.len() > x.len() {
        return false;
    }
    let off: usize = x.len() - y.len();
    let mut k: usize = 0;
    while k < y.len()
        invariant
            x@ == s@,
            y@ == p@,
            k <= y.len() <= x.len(),
            off == x.len() - y.len(),
            forall|m: int| 0 <= m < k ==> x@[off + m] == y@[m],
        decreases y.len() - k,
    {
        if x[off + k] != y[k] {
            assert(x@.skip(off as int)[k as int] != y@[k as int]);
            return false;
        }
        k = k + 1;
    }
    assert(x@.skip(off as int) =~= y@);
    true
}

// ---------------------------------------------------------------------------
// Pieces of a text
// ---------------------------------------------------------------------------

/// The first `n` characters of `s`, or all of them.
pub open spec fn first_chars(s: Seq<char>, n: int) -> Seq<char> {
    if n < s.len() {
        s.take(n)
    } else {
        s
    }
}

/// The first `n` characters of `s`, or all of them.
pub fn take_chars(s: &str, n: usize) -> (r: String)
    ensures
        r@ == first_chars(s@, n as int),
{
    let x = chars_of(s);
    let m: usize = if n < x.len() {
        n
    } else {
        x.len()
    };
    assert(s@.take(s@.len() as int) =~= s@);
    sub_string(&x, 0, m)
}

/// The characters from `from` up to `to`.
pub fn sub_string(x: &Vec<char>, from: usize, to: usize) -> (r: String)
    requires
        from <= to <= x.len(),
    ensures
        r@ == x@.subrange(from as int, to as int),
{
    let mut r = String::new();
    let mut i: usize = from;
    while i < to
        invariant
            from <= i <= to <= x.len(),
            r@ == x@.subrange(from as int, i as int),
        decreases to - i,
    {
        r.push(x[i]);
        i = i + 1;
        assert(x@.subrange(from as int, i as int) =~= x@.subrange(from as int, i - 1).push(
            x@[i - 1],
        ));
    }
    r
}

/// The characters after the first `n`.
pub fn skip_chars(s: &str, n: usize) -> (r: String)
    requires
        n <= s@.len(),
    ensures
        r@ == s@.skip(n as int),
{
    let x = chars_of(s);
    assert(s@.subrange(n as int, s@.len() as int) =~= s@.skip(n as int));
    sub_string(&x, n, x.len())
}

/// `s` without its leading white space.
pub open spec fn trimmed_start(s: Seq<char>) -> Seq<char>
    decreases s.len(),
{
    if s.len() > 0 && is_space(s[0]) {
        trimmed_start(s.skip(1))
    } else {
        s
    }
}

/// `s` without its trailing white space.
pub open spec fn trimmed_end(s: Seq<char>) -> Seq<char>
    decreases s.len(),
{
    if s.len() > 0 && is_space(s.last()) {
        trimmed_end(s.drop_last())
    } else {
        s
    }
}

/// `s` without leading and trailing white space.
pub open spec fn trimmed(s: Seq<char>) -> Seq<char> {
    trimmed_end(trimmed_start(s))
}

/// Whether `s` holds nothing but white space.
pub open spec fn is_blank(s: Seq<char>) -> bool {
    trimmed(s).len() == 0
}

/// Trimming the start leaves an ending of the text that starts with no white
/// space.
pub proof fn lemma_trimmed_start(s: Seq<char>)
    ensures
        trimmed_start(s).len() <= s.len(),
        trimmed_start(s) == s.skip(s.len() - trimmed_start(s).len()),
        trimmed_start(s).len() > 0 ==> !is_space(trimmed_start(s)[0]) && trimmed_start(s).last()
            == s.last(),
        s.len() > 0 && !is_space(s.last()) ==> trimmed_start(s).len() > 0,
    decreases s.len(),
{
    if s.len() > 0 && is_space(s[0]) {
        lemma_trimmed_start(s.skip(1));
        let n = trimmed_start(s).len();
        assert(s.skip(1).skip(s.len() - 1 - n) =~= s.skip(s.len() - n));
    } else {
        assert(s.skip(0) =~= s);
    }
}

/// Trimming the end leaves a beginning of the text that ends in no white space.
pub proof fn lemma_trimmed_end(s: Seq<char>)
    ensures
        trimmed_end(s).len() <= s.len(),
        trimmed_end(s) == s.take(trimmed_end(s).len() as int),
        trimmed_end(s).len() > 0 ==> !is_space(trimmed_end(s).last()),
        trimmed_end(trimmed_end(s)) == trimmed_end(s),
    decreases s.len(),
{
    if s.len() > 0 && is_space(s.last()) {
        lemma_trimmed_end(s.drop_last());
        let n = trimmed_end(s).len() as int;
        assert(s.drop_last().take(n) =~= s.take(n));
    } else {
        assert(s.take(s.len() as int) =~= s);
    }
}

/// What stands behind a text that is not blank does not matter for its start.
pub proof fn lemma_trimmed_start_of_sum(a: Seq<char>, b: Seq<char>)
    requires
        trimmed_start(a).len() > 0,
    ensures
        trimmed_start(a + b) == trimmed_start(a) + b,
    decreases a.len(),
{
    if is_space(a[0]) {
        lemma_trimmed_start_of_sum(a.skip(1), b);
        assert((a + b).skip(1) =~= a.skip(1) + b);
    }
}

/// A text that ends in no white space is blank only where it is empty.
pub proof fn lemma_blank_is_empty(s: Seq<char>)
    requires
        trimmed_end(s) == s,
    ensures
        is_blank(s) <==> s.len() == 0,
{
    lemma_trimmed_end(s);
    lemma_trimmed_start(s);
}

pub fn trim_start(s: &str) -> (r: String)
    ensures
        r@ == trimmed_start(s@),
{
    let x = chars_of(s);
    let mut i: usize = 0;
    assert(s@.skip(0) =~= s@);
    while i < x.len() && space(x[i])
        invariant
            i <= x.len(),
            x@ == s@,
            trimmed_start(s@) == trimmed_start(s@.skip(i as int)),
        decreases x.len() - i,
    {
        assert(s@.skip(i as int).skip(1) =~= s@.skip(i + 1));
        i = i + 1;
    }
    assert(s@.skip(i as int) =~= s@.subrange(i as int, s@.len() as int));
    sub_string(&x, i, x.len())
}

pub fn trim_end(s: &str) -> (r: String)
    ensures
        r@ == trimmed_end(s@),
{
    let x = chars_of(s);
    let mut n: usize = x.len();
    assert(s@.take(n as int) =~= s@);
    while n > 0 && space(x[n - 1])
        invariant
            n <= x.len(),
            x@ == s@,
            trimmed_end(s@) == trimmed_end(s@.take(n as int)),
        decreases n,
    {
        assert(s@.take(n as int).drop_last() =~= s@.take(n - 1));
        n = n - 1;
    }
    assert(s@.take(n as int) =~= s@.subrange(0, n as int));
    sub_string(&x, 0, n)
}

pub fn trim(s: &str) -> (r: String)
    ensures
        r@ == trimmed(s@),
{
    let t = trim_start(s);
    trim_end(t.as_str())
}

pub fn blank(s: &str) -> (r: bool)
    ensures
        r == is_blank(s@),
{
    let t = trim(s);
    t.as_str().unicode_len() == 0
}

/// The words of `s` that are complete, and the one being read: a word is a
/// maximal run of characters that are no white space.
pub open spec fn scan_words(s: Seq<char>) -> (Seq<Seq<char>>, Seq<char>)
    decreases s.len(),
{
    if s.len() == 0 {
        (Seq::empty(), Seq::empty())
    } else {
        let (done, cur) = scan_words(s.drop_last());
        if is_space(s.last()) {
            (if cur.len() == 0 {
                done
            } else {
                done.push(cur)
            }, Seq::empty())
        } else {
            (done, cur.push(s.last()))
        }
    }
}

/// The words of `s`.
pub open spec fn words(s: Seq<char>) -> Seq<Seq<char>> {
    let (done, cur) = scan_words(s);
    if cur.len() == 0 {
        done
    } else {
        done.push(cur)
    }
}

pub fn split_words(s: &str) -> (r: Vec<String>)
    ensures
        texts(r@) == words(s@),
{
    broadcast use lemma_texts_push;

    let x = chars_of(s);
    let mut done: Vec<String> = Vec::new();
    let mut cur = String::new();
    let mut empty = true;
    let mut i: usize = 0;
    assert(texts(done@) =~= Seq::empty());
    assert(x@.take(0) =~= Seq::empty());
    while i < x.len()
        invariant
            i <= x.len(),
            x@ == s@,
            (texts(done@), cur@) == scan_words(x@.take(i as int)),
            empty == (cur@.len() == 0),
        decreases x.len() - i,
    {
        broadcast use lemma_texts_push;

        assert(x@.take(i + 1).drop_last() =~= x@.take(i as int));
        if space(x[i]) {
            if !empty {
                done.push(cur);
            }
            cur = String::new();
            empty = true;
        } else {
            cur.push(x[i]);
            empty = false;
        }
        i = i + 1;
    }
    assert(x@.take(i as int) =~= x@);
    if !empty {
        done.push(cur);
    }
    done
}

/// Whether every character of `s` satisfies `p`.
pub open spec fn all_chars(s: Seq<char>, p: spec_fn(char) -> bool) -> bool {
    forall|i: int| 0 <= i < s.len() ==> p(#[trigger] s[i])
}

/// Whether `w` is a word: not empty and without white space.
pub open spec fn is_word(w: Seq<char>) -> bool {
    w.len() > 0 && all_chars(w, |c: char| !is_space(c))
}

/// Whether all of `ws` are words.
pub open spec fn are_words(ws: Seq<Seq<char>>) -> bool {
    forall|i: int| 0 <= i < ws.len() ==> is_word(#[trigger] ws[i])
}

proof fn lemma_scan_words(s: Seq<char>, p: spec_fn(char) -> bool)
    requires
        all_chars(s, p),
    ensures
        are_words(scan_words(s).0),
        forall|i: int|
            0 <= i < scan_words(s).0.len() ==> all_chars(#[trigger] scan_words(s).0[i], p),
        all_chars(scan_words(s).1, |c: char| !is_space(c)),
        all_chars(scan_words(s).1, p),
    decreases s.len(),
{
    if s.len() > 0 {
        assert(all_chars(s.drop_last(), p));
        lemma_scan_words(s.drop_last(), p);
        assert(p(s[s.len() - 1]));
    }
}

/// The words of a text are words, and hold no characters but those of the
/// text.
pub proof fn lemma_words(s: Seq<char>, p: spec_fn(char) -> bool)
    requires
        all_chars(s, p),
    ensures
        are_words(words(s)),
        forall|i: int| 0 <= i < words(s).len() ==> all_chars(#[trigger] words(s)[i], p),
{
    lemma_scan_words(s, p);
}

proof fn lemma_scan_append_word(a: Seq<char>, w: Seq<char>)
    requires
        all_chars(w, |c: char| !is_space(c)),
    ensures
        scan_words(a + w) == (scan_words(a).0, scan_words(a).1 + w),
    decreases w.len(),
{
    if w.len() == 0 {
        assert(a + w =~= a);
        assert(scan_words(a).1 + w =~= scan_words(a).1);
    } else {
        lemma_scan_append_word(a, w.drop_last());
        assert((a + w).drop_last() =~= a + w.drop_last());
        assert((a + w).last() == w.last());
        assert(!is_space(w[w.len() - 1]));
        assert((scan_words(a).1 + w.drop_last()).push(w.last()) =~= scan_words(a).1 + w);
    }
}

proof fn lemma_scan_joined(ws: Seq<Seq<char>>)
    requires
        ws.len() > 0,
        are_words(ws),
    ensures
        scan_words(joined(ws, seq![' '])) == (ws.drop_last(), ws.last()),
    decreases ws.len(),
{
    let w = ws.last();
    assert(is_word(ws[ws.len() - 1]));
    if ws.len() == 1 {
        lemma_scan_append_word(Seq::empty(), w);
        assert(Seq::<char>::empty() + w =~= w);
        assert(ws.drop_last() =~= Seq::empty());
    } else {
        let init = ws.drop_last();
        assert(are_words(init)) by {
            assert forall|i: int| 0 <= i < init.len() implies is_word(#[trigger] init[i]) by {
                assert(init[i] == ws[i]);
            }
        }
        lemma_scan_joined(init);
        let a = joined(init, seq![' ']);
        let b = a + seq![' '];
        assert(b.drop_last() =~= a);
        assert(b.last() == ' ');
        assert(init.drop_last().push(init.last()) =~= init);
        assert(is_word(ws[ws.len() - 2]));
        assert(scan_words(b) == (init, Seq::<char>::empty()));
        lemma_scan_append_word(b, w);
        assert(Seq::<char>::empty() + w =~= w);
    }
}

/// Joining words by single spaces and splitting again gives the same words.
pub proof fn lemma_words_of_joined(ws: Seq<Seq<char>>)
    requires
        are_words(ws),
    ensures
        words(joined(ws, seq![' '])) == ws,
{
    if ws.len() > 0 {
        lemma_scan_joined(ws);
        assert(is_word(ws[ws.len() - 1]));
        assert(ws.drop_last().push(ws.last()) =~= ws);
    } else {
        assert(words(Seq::empty()) =~= ws);
    }
}

/// Every character of joined words is one of the words' or a space.
pub proof fn lemma_joined_chars(ws: Seq<Seq<char>>, p: spec_fn(char) -> bool)
    requires
        p(' '),
        forall|i: int| 0 <= i < ws.len() ==> all_chars(#[trigger] ws[i], p),
    ensures
        all_chars(joined(ws, seq![' ']), p),
    decreases ws.len(),
{
    if ws.len() == 1 {
        assert(all_chars(ws[0], p));
    } else if ws.len() > 1 {
        let init = ws.drop_last();
        assert forall|i: int| 0 <= i < init.len() implies all_chars(#[trigger] init[i], p) by {
            assert(init[i] == ws[i]);
        }
        lemma_joined_chars(init, p);
        assert(all_chars(ws[ws.len() - 1], p));
        let a = joined(init, seq![' ']);
        let all = joined(ws, seq![' ']);
        assert forall|i: int| 0 <= i < all.len() implies p(#[trigger] all[i]) by {
            if i < a.len() {
                assert(all[i] == a[i]);
            } else if i == a.len() {
                assert(all[i] == ' ');
            } else {
                assert(all[i] == ws.last()[i - a.len() - 1]);
            }
        }
    }
}

/// In joined words every white space is a single space between two characters
/// that are none.
pub proof fn lemma_joined_spacing(ws: Seq<Seq<char>>)
    requires
        are_words(ws),
    ensures
        ({
            let s = joined(ws, seq![' ']);
            &&& ws.len() > 0 ==> s.len() > 0 && !is_space(s[0]) && !is_space(s.last())
            &&& forall|i: int|
                0 < i < s.len() && is_space(#[trigger] s[i]) ==> !is_space(s[i - 1])
        }),
    decreases ws.len(),
{
    let s = joined(ws, seq![' ']);
    if ws.len() > 0 {
        let w = ws.last();
        let init = ws.drop_last();
        assert(is_word(ws[ws.len() - 1]));
        assert(is_word(w));
        assert forall|i: int| 0 <= i < init.len() implies is_word(#[trigger] init[i]) by {
            assert(init[i] == ws[i]);
        }
        lemma_joined_spacing(init);
        if ws.len() > 1 {
            let a = joined(init, seq![' ']);
            assert(s =~= a + seq![' '] + w);
            assert(s[0] == a[0]);
            assert(s.last() == w[w.len() - 1]);
            assert forall|i: int| 0 < i < s.len() && is_space(#[trigger] s[i]) implies !is_space(
                s[i - 1],
            ) by {
                if i < a.len() {
                    assert(s[i] == a[i]);
                    assert(s[i - 1] == a[i - 1]);
                } else if i == a.len() {
                    assert(s[i - 1] == a.last());
                } else {
                    assert(s[i] == w[i - a.len() - 1]);
                }
            }
        } else {
            assert(s == w);
            assert(!is_space(w[0]));
            assert(!is_space(w[w.len() - 1]));
            assert forall|i: int| 0 < i < s.len() && is_space(#[trigger] s[i]) implies !is_space(
                s[i - 1],
            ) by {
                assert(!is_space(w[i]));
            }
        }
    }
}

/// Joining fewer of the parts gives no longer a text.
pub proof fn lemma_joined_prefix_length(parts: Seq<Seq<char>>, sep: Seq<char>, n: int)
    requires
        0 <= n <= parts.len(),
    ensures
        joined(parts.take(n), sep).len() <= joined(parts, sep).len(),
    decreases parts.len() - n,
{
    if n == parts.len() {
        assert(parts.take(n) =~= parts);
    } else {
        lemma_joined_prefix_length(parts, sep, n + 1);
        assert(parts.take(n + 1).drop_last() =~= parts.take(n));
        if n == 0 {
            assert(parts.take(0) =~= Seq::empty());
        }
    }
}

/// The pieces of `s` between the occurrences of `c`: one more than there are
/// occurrences.
pub open spec fn split_at_char(s: Seq<char>, c: char) -> Seq<Seq<char>>
    decreases s.len(),
{
    if s.len() == 0 {
        seq![Seq::empty()]
    } else {
        let p = split_at_char(s.drop_last(), c);
        if s.last() == c {
            p.push(Seq::empty())
        } else {
            p.drop_last().push(p.last().push(s.last()))
        }
    }
}

pub proof fn lemma_split_at_char_nonempty(s: Seq<char>, c: char)
    ensures
        split_at_char(s, c).len() >= 1,
    decreases s.len(),
{
    if s.len() > 0 {
        lemma_split_at_char_nonempty(s.drop_last(), c);
    }
}

proof fn lemma_split_append(a: Seq<char>, w: Seq<char>, c: char)
    requires
        all_chars(w, |d: char| d != c),
    ensures
        ({
            let p = split_at_char(a, c);
            split_at_char(a + w, c) == p.drop_last().push(p.last() + w)
        }),
    decreases w.len(),
{
    let p = split_at_char(a, c);
    lemma_split_at_char_nonempty(a, c);
    if w.len() == 0 {
        assert(a + w =~= a);
        assert(p.last() + w =~= p.last());
        assert(p.drop_last().push(p.last()) =~= p);
    } else {
        lemma_split_append(a, w.drop_last(), c);
        assert((a + w).drop_last() =~= a + w.drop_last());
        assert(w[w.len() - 1] != c);
        assert((p.last() + w.drop_last()).push(w.last()) =~= p.last() + w);
        let q = p.drop_last().push(p.last() + w.drop_last());
        assert(q.drop_last() =~= p.drop_last());
    }
}

/// Splitting joined pieces gives them back, where none holds the separator.
pub proof fn lemma_split_of_joined(parts: Seq<Seq<char>>, c: char)
    requires
        parts.len() > 0,
        forall|i: int| 0 <= i < parts.len() ==> all_chars(#[trigger] parts[i], |d: char| d != c),
    ensures
        split_at_char(joined(parts, seq![c]), c) == parts,
    decreases parts.len(),
{
    let w = parts.last();
    assert(w == parts[parts.len() - 1]);
    if parts.len() == 1 {
        lemma_split_append(Seq::empty(), w, c);
        assert(Seq::<char>::empty() + w =~= w);
        assert(split_at_char(w, c) =~= parts);
    } else {
        let init = parts.drop_last();
        assert forall|i: int| 0 <= i < init.len() implies all_chars(
            #[trigger] init[i],
            |d: char| d != c,
        ) by {
            assert(init[i] == parts[i]);
        }
        lemma_split_of_joined(init, c);
        let a = joined(init, seq![c]) + seq![c];
        assert(a.drop_last() =~= joined(init, seq![c]));
        lemma_split_append(a, w, c);
        assert(split_at_char(a, c) == init.push(Seq::empty()));
        assert(init.push(Seq::<char>::empty()).drop_last() =~= init);
        assert(Seq::<char>::empty() + w =~= w);
        assert(init.push(w) =~= parts);
    }
}

pub fn split_char(s: &str, c: char) -> (r: Vec<String>)
    ensures
        texts(r@) == split_at_char(s@, c),
        r@.len() >= 1,
{
    broadcast use lemma_texts_push;

    let x = chars_of(s);
    let mut done: Vec<String> = Vec::new();
    let mut cur = String::new();
    let mut i: usize = 0;
    assert(x@.take(0) =~= Seq::empty());
    assert(texts(done@).push(cur@) =~= seq![Seq::<char>::empty()]);
    while i < x.len()
        invariant
            i <= x.len(),
            x@ == s@,
            texts(done@).push(cur@) == split_at_char(x@.take(i as int), c),
        decreases x.len() - i,
    {
        broadcast use lemma_texts_push;

        assert(x@.take(i + 1).drop_last() =~= x@.take(i as int));
        let ghost before = texts(done@).push(cur@);
        assert(before.drop_last() =~= texts(done@));
        if x[i] == c {
            done.push(cur);
            cur = String::new();
        } else {
            cur.push(x[i]);
        }
        i = i + 1;
    }
    assert(x@.take(i as int) =~= x@);
    done.push(cur);
    done
}

/// `line` without one trailing carriage return.
pub open spec fn without_cr(line: Seq<char>) -> Seq<char> {
    if line.len() > 0 && line.last() == '\r' {
        line.drop_last()
    } else {
        line
    }
}

/// The lines of `s`: the pieces that end in a line feed, each without its
/// line feed and a carriage return before it, then what follows the last line
/// feed, if anything does.
pub open spec fn lines(s: Seq<char>) -> Seq<Seq<char>> {
    let p = split_at_char(s, '\n');
    let n = (p.len() - 1) as nat;
    let ended = Seq::new(n, |i: int| without_cr(p[i]));
    if p.last().len() == 0 {
        ended
    } else {
        ended.push(p.last())
    }
}

pub fn split_lines(s: &str) -> (r: Vec<String>)
    ensures
        texts(r@) == lines(s@),
{
    broadcast use lemma_texts_push;

    let p = split_char(s, '\n');
    let mut r: Vec<String> = Vec::new();
    let ghost pieces = split_at_char(s@, '\n');
    let ghost ended = Seq::new((pieces.len() - 1) as nat, |i: int| without_cr(pieces[i]));
    let mut i: usize = 0;
    assert(texts(r@) =~= ended.take(0));
    while i + 1 < p.len()
        invariant
            i + 1 <= p.len(),
            texts(p@) == pieces,
            ended == Seq::new((pieces.len() - 1) as nat, |k: int| without_cr(pieces[k])),
            texts(r@) == ended.take(i as int),
        decreases p.len() - i,
    {
        broadcast use lemma_texts_push;

        let x = chars_of(p[i].as_str());
        assert(x@ == pieces[i as int]);
        let line = if x.len() > 0 && x[x.len() - 1] == '\r' {
            assert(x@.subrange(0, x@.len() - 1) =~= x@.drop_last());
            sub_string(&x, 0, x.len() - 1)
        } else {
            p[i].clone()
        };
        r.push(line);
        assert(ended.take(i + 1) =~= ended.take(i as int).push(ended[i as int]));
        i = i + 1;
    }
    assert(ended.take(i as int) =~= ended);
    assert(p@[p@.len() - 1]@ == pieces.last());
    if p[p.len() - 1].as_str().unicode_len() > 0 {
        r.push(p[p.len() - 1].clone());
    }
    r
}

// ---------------------------------------------------------------------------
// Assembly
// ---------------------------------------------------------------------------

/// The texts of `parts` one after the other with `sep` between them.
pub open spec fn joined(parts: Seq<Seq<char>>, sep: Seq<char>) -> Seq<char>
    decreases parts.len(),
{
    if parts.len() == 0 {
        Seq::empty()
    } else if parts.len() == 1 {
        parts[0]
    } else {
        joined(parts.drop_last(), sep) + sep + parts.last()
    }
}

pub fn join_texts(parts: &[String], sep: &str) -> (r: String)
    ensures
        r@ == joined(texts(parts@), sep@),
{
    let mut r = String::new();
    let mut i: usize = 0;
    let ghost all = texts(parts@);
    assert(all.take(0) =~= Seq::empty());
    while i < parts.len()
        invariant
            i <= parts.len(),
            all == texts(parts@),
            r@ == joined(all.take(i as int), sep@),
        decreases parts.len() - i,
    {
        assert(all.take(i + 1).drop_last() =~= all.take(i as int));
        if i > 0 {
            r.append(sep);
        }
        r.append(parts[i].as_str());
        if i == 0 {
            assert(all.take(1) =~= seq![all[0]]);
            assert(r@ =~= all[0]);
        }
        i = i + 1;
    }
    assert(all.take(i as int) =~= all);
    r
}

/// The concatenation of two texts.
pub fn concat2(a: &str, b: &str) -> (r: String)
    ensures
        r@ == a@ + b@,
{
    let mut r = a.to_string();
    r.append(b);
    r
}

/// The concatenation of three texts.
pub fn concat3(a: &str, b: &str, c: &str) -> (r: String)
    ensures
        r@ == a@ + b@ + c@,
{
    let mut r = a.to_string();
    r.append(b);
    r.append(c);
    r
}

/// `n` copies of the character `c`.
pub open spec fn repeated(c: char, n: nat) -> Seq<char> {
    Seq::new(n, |i: int| c)
}

pub fn repeat_char(c: char, n: usize) -> (r: String)
    ensures
        r@ == repeated(c, n as nat),
{
    let mut r = String::new();
    let mut i: usize = 0;
    assert(r@ =~= repeated(c, 0));
    while i < n
        invariant
            i <= n,
            r@ == repeated(c, i as nat),
        decreases n - i,
    {
        r.push(c);
        i = i + 1;
        assert(r@ =~= repeated(c, i as nat));
    }
    r
}

/// The decimal digit of `n`, for `n` below ten.
pub open spec fn digit_char(n: int) -> char {
    (n + '0' as int) as char
}

/// The decimal notation of `n`, without leading zeros.
pub open spec fn decimal(n: nat) -> Seq<char>
    decreases n,
{
    if n < 10 {
        seq![digit_char(n as int)]
    } else {
        decimal(n / 10).push(digit_char((n % 10) as int))
    }
}

/// The decimal notation of an integer, with a minus sign where it is negative.
pub open spec fn signed_decimal(n: int) -> Seq<char> {
    if n < 0 {
        seq!['-'] + decimal((-n) as nat)
    } else {
        decimal(n as nat)
    }
}

pub fn format_decimal(n: u64) -> (r: String)
    ensures
        r@ == decimal(n as nat),
    decreases n,
{
    let d: u8 = (n % 10) as u8;
    let c: char = (d + 48u8) as char;
    assert(c == digit_char((n % 10) as int));
    if n < 10 {
        let mut r = String::new();
        r.push(c);
        assert(r@ =~= seq![c]);
        r
    } else {
        let mut r = format_decimal(n / 10);
        r.push(c);
        r
    }
}

pub fn format_signed(n: i64) -> (r: String)
    ensures
        r@ == signed_decimal(n as int),
{
    if n < 0 {
        let magnitude: u64 = (0 - (n as i128)) as u64;
        let mut r = "-".to_string();
        let d = format_decimal(magnitude);
        r.append(d.as_str());
        proof {
            reveal_strlit("-");
        }
        assert("-"@ =~= seq!['-']);
        r
    } else {
        format_decimal(n as u64)
    }
}

// ---------------------------------------------------------------------------
// Case
// ---------------------------------------------------------------------------

/// What `str::to_lowercase` returns for a text.
pub uninterp spec fn lowercase(s: Seq<char>) -> Seq<char>;

/// `str::to_lowercase`: the text with every character replaced by its Unicode
/// lower-case form. The result is a function of the text alone; which
/// characters it holds is left to the Unicode tables.
#[verifier::external_body]
pub(crate) fn to_lowercase(s: &str) -> (r: String)
    ensures
        r@ == lowercase(s@),
{
    s.to_lowercase()
}

/// An ASCII capital as its small letter, any other character as it is.
pub open spec fn ascii_lower(c: char) -> char {
    if 'A' <= c <= 'Z' {
        (c as int + 32) as char
    } else {
        c
    }
}

/// `s` with its ASCII capitals as small letters.
pub open spec fn ascii_lowered(s: Seq<char>) -> Seq<char> {
    Seq::new(s.len(), |i: int| ascii_lower(s[i]))
}

pub fn lower_char(c: char) -> (r: char)
    ensures
        r == ascii_lower(c),
{
    if 'A' <= c && c <= 'Z' {
        let b: u8 = c as u8;
        (b + 32u8) as char
    } else {
        c
    }
}

pub fn to_ascii_lower(s: &str) -> (r: String)
    ensures
        r@ == ascii_lowered(s@),
{
    let x = chars_of(s);
    let mut r = String::new();
    let mut i: usize = 0;
    assert(r@ =~= ascii_lowered(x@).take(0));
    while i < x.len()
        invariant
            i <= x.len(),
            r@ == ascii_lowered(x@).take(i as int),
        decreases x.len() - i,
    {
        r.push(lower_char(x[i]));
        i = i + 1;
        assert(r@ =~= ascii_lowered(x@).take(i as int));
    }
    assert(ascii_lowered(x@).take(i as int) =~= ascii_lowered(x@));
    r
}

// ---------------------------------------------------------------------------
// Reading numbers
// ---------------------------------------------------------------------------

/// What digits count to.
pub open spec fn digits_value(s: Seq<char>) -> nat
    decreases s.len(),
{
    if s.len() == 0 {
        0
    } else {
        digits_value(s.drop_last()) * 10 + (s.last() as nat - '0' as nat) as nat
    }
}

/// Digits and nothing else.
pub open spec fn is_digits(s: Seq<char>) -> bool {
    s.len() > 0 && all_chars(s, |c: char| is_digit(c))
}

/// The digits of a number, past its sign.
pub open spec fn unsigned(s: Seq<char>) -> Seq<char> {
    if s.len() > 0 && s[0] == '+' {
        s.skip(1)
    } else {
        s
    }
}

/// The number that `s` spells, where it spells one that is small enough.
pub open spec fn number(s: Seq<char>) -> Option<usize> {
    if is_digits(unsigned(s)) && digits_value(unsigned(s)) <= usize::MAX {
        Some(digits_value(unsigned(s)) as usize)
    } else {
        None
    }
}

proof fn lemma_digits_grow(s: Seq<char>, n: int)
    requires
        0 <= n <= s.len(),
    ensures
        digits_value(s.take(n)) <= digits_value(s),
    decreases s.len() - n,
{
    if n < s.len() {
        lemma_digits_grow(s, n + 1);
        assert(s.take(n + 1).drop_last() =~= s.take(n));
    } else {
        assert(s.take(n) =~= s);
    }
}

/// Whether `s` is digits and nothing else.
pub fn all_digits(s: &str) -> (r: bool)
    ensures
        r == is_digits(s@),
{
    let x = chars_of(s);
    let n: usize = x.len();
    if n == 0 {
        return false;
    }
    let mut i: usize = 0;
    while i < n
        invariant
            i <= n,
            n == x@.len(),
            x@ == s@,
            forall|j: int| 0 <= j < i ==> is_digit(#[trigger] s@[j]),
        decreases n - i,
    {
        if !digit(x[i]) {
            assert(!is_digit(s@[i as int]));
            return false;
        }
        i = i + 1;
    }
    true
}

/// Reads a number.
pub fn parse_number(s: &str) -> (r: Option<usize>)
    ensures
        r == number(s@),
{
    let x = chars_of(s);
    let n: usize = x.len();
    let body = if n > 0 && x[0] == '+' {
        skip_chars(s, 1)
    } else {
        s.to_string()
    };
    let ghost d = unsigned(s@);
    assert(body@ == d);
    if !all_digits(body.as_str()) {
        return None;
    }
    let y = chars_of(body.as_str());
    let m: usize = y.len();
    let mut total: usize = 0;
    let mut i: usize = 0;
    while i < m
        invariant
            i <= m,
            m == y@.len(),
            y@ == d,
            d == unsigned(s@),
            is_digits(d),
            total == digits_value(d.take(i as int)),
        decreases m - i,
    {
        proof {
            assert(d.take(i + 1).drop_last() =~= d.take(i as int));
            lemma_digits_grow(d, i + 1);
            assert(is_digit(d[i as int]));
        }
        let value: usize = (y[i] as u32 - '0' as u32) as usize;
        let more: usize = match total.checked_mul(10) {
            Some(tens) => match tens.checked_add(value) {
                Some(sum) => sum,
                None => {
                    return None;
                },
            },
            None => {
                return None;
            },
        };
        total = more;
        i = i + 1;
    }
    assert(d.take(i as int) =~= d);
    Some(total)
}

// ---------------------------------------------------------------------------
// Laws
// ---------------------------------------------------------------------------

/// White space among the ASCII characters: the space, the tab, the line feed
/// and the three controls behind it. No printed character is white space, nor
/// is any other control.
pub proof fn law_ascii_white_space(c: char)
    requires
        c <= '\u{7f}',
    ensures
        is_space(c) <==> c == ' ' || c == '\t' || c == '\n' || c == '\u{b}' || c == '\u{c}' || c
            == '\r',
{
}

/// Trimming takes away white space at both ends and nothing else: what is left
/// begins and ends with another character, or is empty.
pub proof fn law_trimming_takes_only_white_space(s: Seq<char>)
    ensures
        exists|i: int, j: int|
            0 <= i <= j <= s.len() && #[trigger] s.subrange(i, j) == trimmed(s) && (forall|k: int|
                0 <= k < i || j <= k < s.len() ==> is_space(#[trigger] s[k])),
        trimmed(s).len() > 0 ==> !is_space(trimmed(s)[0]) && !is_space(trimmed(s).last()),
{
    let a = trimmed_start(s);
    let t = trimmed(s);
    lemma_trimmed_start(s);
    lemma_trimmed_end(a);
    lemma_trimmed_ends_are_space(s);
    lemma_trimmed_ends_are_space(a);
    let i = s.len() - a.len();
    let j = i + t.len();
    assert(s.subrange(i, j) =~= t);
    assert forall|k: int| 0 <= k < i || j <= k < s.len() implies is_space(#[trigger] s[k]) by {
        if j <= k {
            assert(s[k] == a[k - i]);
        }
    }
    assert(s.subrange(i, j) == trimmed(s));
}

proof fn lemma_trimmed_ends_are_space(s: Seq<char>)
    ensures
        forall|k: int| 0 <= k < s.len() - trimmed_start(s).len() ==> is_space(#[trigger] s[k]),
        forall|k: int| trimmed_end(s).len() <= k < s.len() ==> is_space(#[trigger] s[k]),
    decreases s.len(),
{
    if s.len() > 0 {
        if is_space(s[0]) {
            let rest = s.skip(1);
            lemma_trimmed_ends_are_space(rest);
            assert forall|k: int| 0 <= k < s.len() - trimmed_start(s).len() implies is_space(
                #[trigger] s[k],
            ) by {
                if k > 0 {
                    assert(s[k] == rest[k - 1]);
                }
            }
        }
        if is_space(s.last()) {
            let rest = s.drop_last();
            lemma_trimmed_ends_are_space(rest);
            assert forall|k: int| trimmed_end(s).len() <= k < s.len() implies is_space(
                #[trigger] s[k],
            ) by {
                if k < rest.len() {
                    assert(s[k] == rest[k]);
                }
            }
        }
    }
}

/// A text is blank exactly where every character of it is white space.
pub proof fn law_blank_is_all_space(s: Seq<char>)
    ensures
        is_blank(s) <==> (forall|i: int| 0 <= i < s.len() ==> is_space(#[trigger] s[i])),
{
    law_trimming_takes_only_white_space(s);
    let (i, j) = choose|i: int, j: int|
        0 <= i <= j <= s.len() && #[trigger] s.subrange(i, j) == trimmed(s) && (forall|k: int|
            0 <= k < i || j <= k < s.len() ==> is_space(#[trigger] s[k]));
    if i < j {
        assert(trimmed(s)[0] == s[i]);
    }
}

/// A text between white space is what trimming leaves of it.
pub proof fn law_trimming_gives_the_middle(a: Seq<char>, t: Seq<char>, b: Seq<char>)
    requires
        all_chars(a, |c: char| is_space(c)),
        all_chars(b, |c: char| is_space(c)),
        t.len() > 0,
        !is_space(t[0]),
        !is_space(t.last()),
    ensures
        trimmed(a + t + b) == t,
    decreases a.len() + b.len(),
{
    let s = a + t + b;
    if a.len() > 0 {
        assert(is_space(a[0]));
        assert(s.skip(1) =~= a.skip(1) + t + b);
        assert(all_chars(a.skip(1), |c: char| is_space(c)));
        law_trimming_gives_the_middle(a.skip(1), t, b);
    } else {
        assert(s =~= t + b);
        assert(s[0] == t[0]);
        assert(trimmed_start(s) == s);
        if b.len() > 0 {
            assert(is_space(b[b.len() - 1]));
            let shorter = b.drop_last();
            assert(s.drop_last() =~= a + t + shorter);
            assert(all_chars(shorter, |c: char| is_space(c)));
            law_trimming_gives_the_middle(a, t, shorter);
            assert((a + t + shorter)[0] == t[0]);
            assert(trimmed_start(a + t + shorter) == a + t + shorter);
        } else {
            assert(s =~= t);
        }
    }
}

/// White space between two texts parts their words, and joins none.
pub proof fn law_white_space_parts_words(a: Seq<char>, c: char, b: Seq<char>)
    requires
        is_space(c),
    ensures
        words(a + seq![c] + b) == words(a) + words(b),
    decreases b.len(),
{
    lemma_scan_behind_space(a, c, b);
    let (done, cur) = scan_words(b);
    assert((words(a) + done).push(cur) =~= words(a) + done.push(cur));
}

proof fn lemma_scan_behind_space(a: Seq<char>, c: char, b: Seq<char>)
    requires
        is_space(c),
    ensures
        scan_words(a + seq![c] + b) == (words(a) + scan_words(b).0, scan_words(b).1),
    decreases b.len(),
{
    let s = a + seq![c] + b;
    if b.len() == 0 {
        assert(s.drop_last() =~= a);
        assert(s.last() == c);
        assert(words(a) + scan_words(b).0 =~= words(a));
    } else {
        lemma_scan_behind_space(a, c, b.drop_last());
        assert(s.drop_last() =~= a + seq![c] + b.drop_last());
        assert(s.last() == b.last());
        let (done, cur) = scan_words(b.drop_last());
        assert((words(a) + done).push(cur) =~= words(a) + done.push(cur));
    }
}

/// A text without white space is one word, an empty one none.
pub proof fn law_a_text_without_spaces_is_one_word(w: Seq<char>)
    requires
        forall|i: int| 0 <= i < w.len() ==> !is_space(#[trigger] w[i]),
    ensures
        words(w) == (if w.len() == 0 {
            Seq::empty()
        } else {
            seq![w]
        }),
{
    lemma_scan_append_word(Seq::empty(), w);
    assert(Seq::<char>::empty() + w =~= w);
    assert(Seq::<Seq<char>>::empty().push(w) =~= seq![w]);
}

/// Splitting at a character and joining the pieces by it gives the text back,
/// and no piece holds the character.
pub proof fn law_splitting_loses_nothing(s: Seq<char>, c: char)
    ensures
        joined(split_at_char(s, c), seq![c]) == s,
        forall|i: int|
            0 <= i < split_at_char(s, c).len() ==> !(#[trigger] split_at_char(s, c)[i]).contains(c),
    decreases s.len(),
{
    let p = split_at_char(s, c);
    lemma_split_at_char_nonempty(s, c);
    if s.len() == 0 {
        assert(joined(p, seq![c]) =~= s);
    } else {
        let init = s.drop_last();
        let q = split_at_char(init, c);
        law_splitting_loses_nothing(init, c);
        lemma_split_at_char_nonempty(init, c);
        assert(init.push(s.last()) =~= s);
        if s.last() == c {
            assert(p.drop_last() =~= q);
            assert(joined(p, seq![c]) =~= init.push(c));
        } else {
            let x = q.last().push(s.last());
            assert(p.drop_last() =~= q.drop_last());
            if q.len() > 1 {
                assert(joined(q, seq![c]) == joined(q.drop_last(), seq![c]) + seq![c] + q.last());
                assert(joined(p, seq![c]) =~= (joined(q.drop_last(), seq![c]) + seq![c]
                    + q.last()).push(s.last()));
            } else {
                assert(joined(p, seq![c]) =~= init.push(s.last()));
            }
            assert forall|i: int| 0 <= i < p.len() implies !(#[trigger] p[i]).contains(c) by {
                if i < p.len() - 1 {
                    assert(p[i] == q[i]);
                } else {
                    assert(!q[q.len() - 1].contains(c));
                    assert forall|k: int| 0 <= k < x.len() implies x[k] != c by {
                        if k < x.len() - 1 {
                            assert(q.last()[k] == x[k]);
                            assert(q.last().contains(x[k]));
                        }
                    }
                }
            }
        }
    }
}

/// The first line of a text ends at its first line feed, with a carriage
/// return before it or without; what follows are the lines of the rest.
pub proof fn law_a_line_feed_ends_a_line(line: Seq<char>, rest: Seq<char>)
    requires
        !line.contains('\n'),
        line.len() > 0 ==> line.last() != '\r',
    ensures
        lines(line + seq!['\n'] + rest) == seq![line] + lines(rest),
        lines(line + seq!['\r', '\n'] + rest) == seq![line] + lines(rest),
{
    let with_cr = line.push('\r');
    assert(all_chars(line, |d: char| d != '\n')) by {
        assert forall|i: int| 0 <= i < line.len() implies (#[trigger] line[i]) != '\n' by {
            assert(line.contains(line[i]));
        }
    }
    assert(all_chars(with_cr, |d: char| d != '\n')) by {
        assert forall|i: int| 0 <= i < with_cr.len() implies (#[trigger] with_cr[i]) != '\n' by {
            if i < line.len() {
                assert(line.contains(line[i]));
            }
        }
    }
    lemma_split_first_line(line, rest);
    lemma_split_first_line(with_cr, rest);
    assert(with_cr + seq!['\n'] + rest =~= line + seq!['\r', '\n'] + rest);
    assert(with_cr.drop_last() =~= line);
    lemma_split_at_char_nonempty(rest, '\n');
    let p = split_at_char(rest, '\n');
    let q = seq![line] + p;
    let r = seq![with_cr] + p;
    assert(q.last() == p.last());
    assert(r.last() == p.last());
    assert(lines(line + seq!['\n'] + rest) =~= seq![line] + lines(rest));
    assert(lines(with_cr + seq!['\n'] + rest) =~= seq![line] + lines(rest));
}

proof fn lemma_split_first_line(line: Seq<char>, rest: Seq<char>)
    requires
        all_chars(line, |d: char| d != '\n'),
    ensures
        split_at_char(line + seq!['\n'] + rest, '\n') == seq![line] + split_at_char(rest, '\n'),
    decreases rest.len(),
{
    let s = line + seq!['\n'] + rest;
    if rest.len() == 0 {
        assert(s.drop_last() =~= line);
        lemma_split_append(Seq::empty(), line, '\n');
        assert(Seq::<char>::empty() + line =~= line);
        assert(split_at_char(line, '\n') =~= seq![line]);
        assert(split_at_char(s, '\n') =~= seq![line] + split_at_char(rest, '\n'));
    } else {
        lemma_split_first_line(line, rest.drop_last());
        lemma_split_at_char_nonempty(rest.drop_last(), '\n');
        assert(s.drop_last() =~= line + seq!['\n'] + rest.drop_last());
        assert(s.last() == rest.last());
        let p = split_at_char(rest.drop_last(), '\n');
        let q = seq![line] + p;
        assert(q.last() == p.last());
        assert(q.drop_last() =~= seq![line] + p.drop_last());
        assert(split_at_char(s, '\n') =~= seq![line] + split_at_char(rest, '\n'));
    }
}

/// A text without a line feed is one line as it stands, an empty one none.
pub proof fn law_a_text_without_line_feed_is_one_line(s: Seq<char>)
    requires
        !s.contains('\n'),
    ensures
        lines(s) == (if s.len() == 0 {
            Seq::empty()
        } else {
            seq![s]
        }),
{
    assert(all_chars(s, |d: char| d != '\n')) by {
        assert forall|i: int| 0 <= i < s.len() implies (#[trigger] s[i]) != '\n' by {
            assert(s.contains(s[i]));
        }
    }
    lemma_split_append(Seq::empty(), s, '\n');
    assert(Seq::<char>::empty() + s =~= s);
    assert(split_at_char(s, '\n') =~= seq![s]);
    assert(lines(s) =~= (if s.len() == 0 {
        Seq::empty()
    } else {
        seq![s]
    }));
}

/// The decimal notation of a number holds digits only, begins with a zero only
/// where it is the number zero, and counts to the number. Reading it gives the
/// number back, with a plus sign before it as well.
pub proof fn law_a_decimal_reads_back(n: nat)
    ensures
        decimal(n).len() > 0,
        forall|i: int| 0 <= i < decimal(n).len() ==> '0' <= #[trigger] decimal(n)[i] <= '9',
        decimal(n)[0] == '0' ==> n == 0,
        digits_value(decimal(n)) == n,
        n <= usize::MAX ==> number(decimal(n)) == Some(n as usize) && number(
            seq!['+'] + decimal(n),
        ) == Some(n as usize),
    decreases n,
{
    if n >= 10 {
        law_a_decimal_reads_back(n / 10);
        let d = digit_char((n % 10) as int);
        let p = decimal(n / 10);
        assert(decimal(n) == p.push(d));
        assert(p.push(d).drop_last() =~= p);
        assert(p.push(d)[0] == p[0]);
        assert forall|i: int| 0 <= i < decimal(n).len() implies '0' <= #[trigger] decimal(n)[i]
            <= '9' by {
            if i < p.len() {
                assert(decimal(n)[i] == p[i]);
            }
        }
    } else {
        let d = digit_char(n as int);
        assert(seq![d].drop_last() =~= Seq::empty());
        assert(digits_value(seq![d]) == digits_value(Seq::empty()) * 10 + n);
    }
    assert((seq!['+'] + decimal(n)).skip(1) =~= decimal(n));
    assert(is_digits(decimal(n)));
}

/// What digits count to: a further digit at the end counts its own value, and
/// what stood before ten times as much.
pub proof fn law_digits_count_by_tens(s: Seq<char>, d: int)
    requires
        0 <= d < 10,
    ensures
        digits_value(s.push("0123456789"@[d])) == 10 * digits_value(s) + d,
        digits_value(seq!["0123456789"@[d]]) == d,
        decimal(d as nat) == seq!["0123456789"@[d]],
{
    reveal_strlit("0123456789");
    let c = "0123456789"@[d];
    assert(s.push(c).drop_last() =~= s);
    assert(seq![c].drop_last() =~= Seq::empty());
    assert(digits_value(seq![c]) == digits_value(Seq::empty()) * 10 + d);
}

/// Only digits, with a plus sign before them or without, spell a number.
pub proof fn law_only_digits_spell_a_number(s: Seq<char>, i: int)
    requires
        0 <= i < s.len(),
        !('0' <= s[i] <= '9'),
        i > 0 || s[0] != '+',
    ensures
        number(s) is None,
        number(Seq::empty()) is None,
        number(seq!['+']) is None,
{
    let u = unsigned(s);
    if is_digits(u) {
        let k = i - (s.len() - u.len());
        assert(u[k] == s[i]);
        assert(is_digit(u[k]));
    }
    assert(seq!['+'].skip(1) =~= Seq::empty());
}

/// Lowering ASCII capitals changes nothing but the capitals, each to its small
/// letter.
pub proof fn law_only_capitals_are_lowered(s: Seq<char>, i: int)
    requires
        0 <= i < s.len(),
    ensures
        ascii_lowered(s).len() == s.len(),
        forall|k: int|
            0 <= k < 26 ==> s[i] == #[trigger] "ABCDEFGHIJKLMNOPQRSTUVWXYZ"@[k] ==> ascii_lowered(
                s,
            )[i] == "abcdefghijklmnopqrstuvwxyz"@[k],
        !('A' <= s[i] <= 'Z') ==> ascii_lowered(s)[i] == s[i],
{
    reveal_strlit("ABCDEFGHIJKLMNOPQRSTUVWXYZ");
    reveal_strlit("abcdefghijklmnopqrstuvwxyz");
}

/// The control characters are the thirty-two below the space, and those from
/// the delete character to the end of the second control block.
pub proof fn law_printed_characters_are_no_controls(c: char)
    ensures
        ' ' <= c <= '~' ==> !is_ctrl(c),
        c >= '\u{a0}' ==> !is_ctrl(c),
        c < ' ' || c == '\u{7f}' || '\u{80}' <= c <= '\u{9f}' ==> is_ctrl(c),
{
}

/// A text stands in another exactly where the other is that text with something
/// before it and something behind; a text ends another where nothing is behind.
pub proof fn law_a_text_stands_between_what_is_around_it(
    a: Seq<char>,
    p: Seq<char>,
    b: Seq<char>,
    s: Seq<char>,
)
    ensures
        has_text(a + p + b, p),
        has_text(s, p) ==> exists|x: Seq<char>, y: Seq<char>| #[trigger] (x + p + y) == s,
        ends_in(a + p, p),
        ends_in(s, p) ==> exists|x: Seq<char>| #[trigger] (x + p) == s,
        occurs_at(a + p + b, p, a.len() as int),
{
    let all = a + p + b;
    let n = a.len() as int;
    assert(all.subrange(n, n + p.len()) =~= p);
    assert(occurs_at(all, p, n));
    assert((a + p).skip(n) =~= p);
    if has_text(s, p) {
        let i = choose|i: int| occurs_at(s, p, i);
        let x = s.take(i);
        let y = s.skip(i + p.len());
        assert(x + p + y =~= s);
    }
    if ends_in(s, p) {
        let x = s.take(s.len() - p.len());
        assert(x + p =~= s);
    }
}

/// The first characters of a text are as many as were asked for, or all.
pub proof fn law_the_first_characters_are_the_first(s: Seq<char>, n: int)
    requires
        0 <= n,
    ensures
        n <= s.len() ==> first_chars(s, n) == s.subrange(0, n),
        n >= s.len() ==> first_chars(s, n) == s,
{
    if n <= s.len() {
        assert(first_chars(s, n) =~= s.subrange(0, n));
    }
}

/// Parts are joined in order with the separator between them: none give
/// nothing, one gives itself, and a further one comes behind a separator.
pub proof fn law_parts_are_joined_in_order(parts: Seq<Seq<char>>, sep: Seq<char>, part: Seq<char>)
    ensures
        joined(Seq::empty(), sep) == Seq::<char>::empty(),
        joined(seq![part], sep) == part,
        parts.len() > 0 ==> joined(parts.push(part), sep) == joined(parts, sep) + sep + part,
{
    assert(parts.push(part).drop_last() =~= parts);
}

/// The texts of strings are those strings' texts, in order.
pub proof fn law_texts_are_the_texts_of_strings(v: Seq<String>, i: int, s: String)
    ensures
        texts(v).len() == v.len(),
        0 <= i < v.len() ==> texts(v)[i] == v[i]@,
        opt_text(Some(s)) == Some(s@),
        opt_text(None) is None,
{
}

/// A negative number is told by a minus sign and its amount.
pub proof fn law_a_negative_number_has_a_minus_sign(n: int)
    ensures
        n >= 0 ==> signed_decimal(n) == decimal(n as nat),
        n < 0 ==> signed_decimal(n) == seq!['-'] + decimal((-n) as nat),
{
}

/// White space beyond ASCII: the next-line control, the no-break space, and the
/// spaces and separators of the other scripts. A letter is none.
pub proof fn law_white_space_beyond_ascii(c: char)
    ensures
        c == '\u{85}' || c == '\u{a0}' || c == '\u{1680}' || c == '\u{2028}' || c == '\u{2029}' || c
            == '\u{202f}' || c == '\u{205f}' || c == '\u{3000}' ==> is_space(c),
        '\u{2000}' <= c <= '\u{200a}' ==> is_space(c),
        '\u{a1}' <= c <= '\u{167f}' ==> !is_space(c),
        '\u{3001}' <= c ==> !is_space(c),
        c == '\u{200b}' || c == '\u{feff}' ==> !is_space(c),
{
}

} // verus!
