//! Character-level text operations on which the feed keys, URLs and
//! configuration records are built.
use vstd::prelude::*;
use vstd::multiset::Multiset;

verus! {

broadcast use vstd::string::group_string_axioms;

/// Appends one character to a string.
///
/// Trusted: `String::push`, which std documents as appending the character
/// to the end of the string.
#[verifier::external_body]
pub(crate) fn push_char(s: &mut String, c: char)
    ensures
        final(s)@ == old(s)@.push(c),
{
    s.push(c);
}

/// The characters of a string, in order.
pub fn chars_of(s: &str) -> (r: Vec<char>)
    ensures
        r@ == s@,
{
    let mut out: Vec<char> = Vec::new();
    for c in it: s.chars()
        invariant
            it.seq() == s@,
            out@ == it.seq().take(it.index()),
    {
        out.push(c);
    }
    out
}

/// The string made of the given characters, in order.
pub fn string_of(cs: &[char]) -> (r: String)
    ensures
        r@ == cs@,
{
    let mut out = String::new();
    let mut i: usize = 0;
    while i < cs.len()
        invariant
            i <= cs.len(),
            out@ == cs@.take(i as int),
        decreases cs.len() - i,
    {
        push_char(&mut out, cs[i]);
        proof {
            assert(cs@.take(i + 1) =~= cs@.take(i as int).push(cs@[i as int]));
        }
        i = i + 1;
    }
    proof {
        assert(cs@.take(cs@.len() as int) =~= cs@);
    }
    out
}


/// `pat` occurs in `s` at position `i`.
pub open spec fn occurs_at(s: Seq<char>, pat: Seq<char>, i: int) -> bool {
    0 <= i && i + pat.len() <= s.len() && s.subrange(i, i + pat.len()) == pat
}

/// `s` with every occurrence of the non-empty `from` replaced by `to`,
/// scanning left to right and resuming after each replaced occurrence
/// (the occurrences replaced never overlap).
pub open spec fn replaced(s: Seq<char>, from: Seq<char>, to: Seq<char>) -> Seq<char>
    decreases s.len(),
{
    if from.len() == 0 || s.len() < from.len() {
        s
    } else if s.take(from.len() as int) == from {
        to + replaced(s.skip(from.len() as int), from, to)
    } else {
        seq![s[0]] + replaced(s.skip(1), from, to)
    }
}

/// Whether `pat` occurs in `cs` at position `i`.
fn matches_at(cs: &[char], pat: &[char], i: usize) -> (r: bool)
    requires
        i <= cs@.len(),
    ensures
        r == occurs_at(cs@, pat@, i as int),
{
    if pat.len() > cs.len() - i {
        return false;
    }
    let mut k: usize = 0;
    while k < pat.len()
        invariant
            i + pat@.len() <= cs@.len(),
            cs@.len() == cs.len(),
            pat@.len() == pat.len(),
            k <= pat@.len(),
            forall|j: int| 0 <= j < k ==> cs@[i + j] == pat@[j],
        decreases pat.len() - k,
    {
        if cs[i + k] != pat[k] {
            assert(cs@.subrange(i as int, i + pat@.len())[k as int] != pat@[k as int]);
            return false;
        }
        k = k + 1;
    }
    assert(cs@.subrange(i as int, i + pat@.len()) =~= pat@);
    true
}

/// The characters of `cs` with every occurrence of `from` replaced by `to`.
pub fn replace_chars(cs: &[char], from: &[char], to: &[char]) -> (r: Vec<char>)
    requires
        from@.len() > 0,
    ensures
        r@ == replaced(cs@, from@, to@),
{
    let mut out: Vec<char> = Vec::new();
    let mut i: usize = 0;
    assert(cs@.skip(0) =~= cs@);
    while i < cs.len()
        invariant
            from@.len() > 0,
            i <= cs@.len(),
            out@ + replaced(cs@.skip(i as int), from@, to@) == replaced(cs@, from@, to@),
        decreases cs.len() - i,
    {
        let ghost rest = cs@.skip(i as int);
        if matches_at(cs, from, i) {
            assert(rest.take(from@.len() as int) =~= cs@.subrange(i as int, i + from@.len()));
            assert(rest.skip(from@.len() as int) =~= cs@.skip(i + from@.len()));
            let mut k: usize = 0;
            let ghost out0 = out@;
            while k < to.len()
                invariant
                    k <= to@.len(),
                    out@ == out0 + to@.take(k as int),
                decreases to.len() - k,
            {
                out.push(to[k]);
                assert(to@.take(k + 1) =~= to@.take(k as int).push(to@[k as int]));
                k = k + 1;
            }
            assert(to@.take(to@.len() as int) =~= to@);
            assert(out@ + replaced(cs@.skip(i + from@.len()), from@, to@) =~= out0 + replaced(rest, from@, to@));
            i = i + from.len();
        } else {
            assert(rest.len() >= from@.len() ==> rest.take(from@.len() as int) =~= cs@.subrange(i as int, i + from@.len()));
            assert(rest.skip(1) =~= cs@.skip(i + 1));
            let ghost out0 = out@;
            out.push(cs[i]);
            if cs.len() - i < from.len() {
                // No occurrence fits in the rest: it is copied unchanged.
                assert(replaced(rest, from@, to@) == rest);
                let ghost tail = rest.skip(1);
                assert(replaced(tail, from@, to@) == tail);
                assert(out@ + replaced(cs@.skip(i + 1), from@, to@) =~= out0 + rest);
            } else {
                assert(out@ + replaced(cs@.skip(i + 1), from@, to@) =~= out0 + replaced(rest, from@, to@));
            }
            i = i + 1;
        }
    }
    assert(cs@.skip(cs@.len() as int) =~= Seq::<char>::empty());
    assert(out@ + Seq::<char>::empty() =~= out@);
    out
}

/// `s` with every occurrence of the non-empty `from` replaced by `to`, as
/// `str::replace` does it.
pub fn replace(s: &str, from: &str, to: &str) -> (r: String)
    requires
        from@.len() > 0,
    ensures
        r@ == replaced(s@, from@, to@),
{
    let cs = chars_of(s);
    let f = chars_of(from);
    let t = chars_of(to);
    let out = replace_chars(cs.as_slice(), f.as_slice(), t.as_slice());
    string_of(out.as_slice())
}


/// Replacing a pattern that does not occur leaves the text unchanged.
pub proof fn lemma_replace_absent(s: Seq<char>, from: Seq<char>, to: Seq<char>)
    requires
        from.len() > 0,
        forall|i: int| !occurs_at(s, from, i),
    ensures
        replaced(s, from, to) == s,
    decreases s.len(),
{
    if s.len() >= from.len() {
        assert(s.subrange(0, from.len() as int) =~= s.take(from.len() as int));
        assert(!occurs_at(s, from, 0));
        let t = s.skip(1);
        assert forall|i: int| !occurs_at(t, from, i) by {
            if occurs_at(t, from, i) {
                assert(s.subrange(i + 1, i + 1 + from.len()) =~= t.subrange(i, i + from.len()));
                assert(occurs_at(s, from, i + 1));
            }
        }
        lemma_replace_absent(t, from, to);
        assert(seq![s[0]] + t =~= s);
    }
}

/// A text that begins with the pattern: the leading occurrence is replaced
/// and the scan resumes right after it.
pub proof fn lemma_replace_leading(p: Seq<char>, f: Seq<char>, to: Seq<char>)
    requires
        p.len() > 0,
    ensures
        replaced(p + f, p, to) == to + replaced(f, p, to),
{
    let s = p + f;
    assert(s.take(p.len() as int) =~= p);
    assert(s.skip(p.len() as int) =~= f);
}

// ---------------------------------------------------------------------------
// Splitting and joining on a separator character.

/// The pieces of `s` between occurrences of `sep`, as `str::split` gives them
/// for a one-character pattern: one more piece than there are separators.
pub open spec fn split_on(s: Seq<char>, sep: char) -> Seq<Seq<char>>
    decreases s.len(),
{
    if s.len() == 0 {
        seq![Seq::<char>::empty()]
    } else {
        let init = split_on(s.drop_last(), sep);
        if s.last() == sep {
            init.push(Seq::<char>::empty())
        } else {
            init.update(init.len() - 1, init.last().push(s.last()))
        }
    }
}

/// The pieces glued back together with `sep` between consecutive pieces.
pub open spec fn join_with(parts: Seq<Seq<char>>, sep: char) -> Seq<char>
    decreases parts.len(),
{
    if parts.len() == 0 {
        Seq::<char>::empty()
    } else if parts.len() == 1 {
        parts[0]
    } else {
        join_with(parts.drop_last(), sep).push(sep) + parts.last()
    }
}

/// The number of times `c` occurs in `s`.
pub open spec fn count_char(s: Seq<char>, c: char) -> nat
    decreases s.len(),
{
    if s.len() == 0 {
        0
    } else {
        count_char(s.drop_last(), c) + if s.last() == c { 1nat } else { 0nat }
    }
}

/// Splitting gives one more piece than there are separators, and no piece
/// holds the separator.
pub proof fn lemma_split_shape(s: Seq<char>, sep: char)
    ensures
        split_on(s, sep).len() == count_char(s, sep) + 1,
        forall|i: int, j: int|
            0 <= i < split_on(s, sep).len() && 0 <= j < split_on(s, sep)[i].len()
                ==> split_on(s, sep)[i][j] != sep,
    decreases s.len(),
{
    if s.len() > 0 {
        lemma_split_shape(s.drop_last(), sep);
        let init = split_on(s.drop_last(), sep);
        if s.last() != sep {
            let p = split_on(s, sep);
            assert forall|i: int, j: int| 0 <= i < p.len() && 0 <= j < p[i].len()
                implies p[i][j] != sep by {
                if i == p.len() - 1 && j == init.last().len() {
                } else if i == p.len() - 1 {
                    assert(p[i][j] == init[i][j]);
                } else {
                    assert(p[i] == init[i]);
                }
            }
        } else {
            let p = split_on(s, sep);
            assert forall|i: int, j: int| 0 <= i < p.len() && 0 <= j < p[i].len()
                implies p[i][j] != sep by {
                assert(p[i] == init[i]);
            }
        }
    }
}

/// Joining the pieces of a split with the same separator gives back the text.
pub proof fn lemma_join_split(s: Seq<char>, sep: char)
    ensures
        join_with(split_on(s, sep), sep) == s,
    decreases s.len(),
{
    if s.len() > 0 {
        let init = split_on(s.drop_last(), sep);
        lemma_join_split(s.drop_last(), sep);
        lemma_split_shape(s.drop_last(), sep);
        let p = split_on(s, sep);
        if s.last() == sep {
            assert(p.drop_last() =~= init);
            assert(join_with(p, sep) =~= s.drop_last().push(sep));
        } else {
            assert(p.last() == init.last().push(s.last()));
            if init.len() == 1 {
                assert(join_with(p, sep) == p[0]);
                assert(init.last() == join_with(init, sep));
            } else {
                assert(p.drop_last() =~= init.drop_last());
                assert(join_with(p, sep) =~= join_with(init.drop_last(), sep).push(sep) + init.last().push(s.last()));
            }
        }
        assert(s.drop_last().push(s.last()) =~= s);
    }
}

/// The pieces of `s` between occurrences of `sep`.
pub fn split_chars(s: &str, sep: char) -> (r: Vec<String>)
    ensures
        r@.len() == split_on(s@, sep).len(),
        forall|i: int| 0 <= i < r@.len() ==> #[trigger] r@[i]@ == split_on(s@, sep)[i],
{
    let cs = chars_of(s);
    let mut done: Vec<String> = Vec::new();
    let mut cur: Vec<char> = Vec::new();
    let mut i: usize = 0;
    while i < cs.len()
        invariant
            cs@ == s@,
            i <= cs@.len(),
            done@.len() + 1 == split_on(cs@.take(i as int), sep).len(),
            forall|k: int| 0 <= k < done@.len() ==> #[trigger] done@[k]@ == split_on(cs@.take(i as int), sep)[k],
            cur@ == split_on(cs@.take(i as int), sep).last(),
        decreases cs.len() - i,
    {
        let c = cs[i];
        proof {
            assert(cs@.take(i + 1).drop_last() =~= cs@.take(i as int));
            lemma_split_shape(cs@.take(i as int), sep);
        }
        if c == sep {
            let piece = string_of(cur.as_slice());
            done.push(piece);
            cur = Vec::new();
        } else {
            cur.push(c);
        }
        i = i + 1;
    }
    let piece = string_of(cur.as_slice());
    done.push(piece);
    proof {
        assert(cs@.take(cs@.len() as int) =~= cs@);
    }
    done
}

// ---------------------------------------------------------------------------
// Whitespace.

/// The characters with the Unicode `White_Space` property, which
/// `char::is_whitespace` recognises.
pub open spec fn is_white_space(c: char) -> bool {
    ||| ('\u{9}' <= c && c <= '\u{d}')
    ||| c == ' '
    ||| c == '\u{85}'
    ||| c == '\u{a0}'
    ||| c == '\u{1680}'
    ||| ('\u{2000}' <= c && c <= '\u{200a}')
    ||| c == '\u{2028}'
    ||| c == '\u{2029}'
    ||| c == '\u{202f}'
    ||| c == '\u{205f}'
    ||| c == '\u{3000}'
}

fn white_space(c: char) -> (r: bool)
    ensures
        r == is_white_space(c),
{
    ('\u{9}' <= c && c <= '\u{d}') || c == ' ' || c == '\u{85}' || c == '\u{a0}' || c == '\u{1680}'
        || ('\u{2000}' <= c && c <= '\u{200a}') || c == '\u{2028}' || c == '\u{2029}'
        || c == '\u{202f}' || c == '\u{205f}' || c == '\u{3000}'
}

/// `s` without its leading white space.
pub open spec fn trimmed_start(s: Seq<char>) -> Seq<char>
    decreases s.len(),
{
    if s.len() > 0 && is_white_space(s[0]) {
        trimmed_start(s.drop_first())
    } else {
        s
    }
}

/// `s` without its trailing white space.
pub open spec fn trimmed_end(s: Seq<char>) -> Seq<char>
    decreases s.len(),
{
    if s.len() > 0 && is_white_space(s.last()) {
        trimmed_end(s.drop_last())
    } else {
        s
    }
}

/// `s` without leading or trailing white space, as `str::trim` gives it.
pub open spec fn trimmed(s: Seq<char>) -> Seq<char> {
    trimmed_end(trimmed_start(s))
}

/// `s` without leading or trailing white space.
pub fn trim(s: &str) -> (r: String)
    ensures
        r@ == trimmed(s@),
{
    let cs = chars_of(s);
    let mut a: usize = 0;
    assert(cs@.subrange(0, cs@.len() as int) =~= cs@);
    while a < cs.len() && white_space(cs[a])
        invariant
            cs@ == s@,
            a <= cs@.len(),
            trimmed_start(cs@.subrange(a as int, cs@.len() as int)) == trimmed_start(s@),
        decreases cs.len() - a,
    {
        assert(cs@.subrange(a as int, cs@.len() as int).drop_first() =~= cs@.subrange(a + 1, cs@.len() as int));
        a = a + 1;
    }
    let mut b: usize = cs.len();
    assert(trimmed_start(cs@.subrange(a as int, cs@.len() as int)) == cs@.subrange(a as int, cs@.len() as int));
    while b > a && white_space(cs[b - 1])
        invariant
            cs@ == s@,
            a <= b <= cs@.len(),
            trimmed_end(cs@.subrange(a as int, b as int)) == trimmed(s@),
        decreases b,
    {
        assert(cs@.subrange(a as int, b as int).drop_last() =~= cs@.subrange(a as int, b - 1));
        b = b - 1;
    }
    let out = slice_range(cs.as_slice(), a, b);
    string_of(out.as_slice())
}

/// The characters of `cs` from position `a` up to (not including) `b`.
pub fn slice_range(cs: &[char], a: usize, b: usize) -> (r: Vec<char>)
    requires
        a <= b <= cs@.len(),
    ensures
        r@ == cs@.subrange(a as int, b as int),
{
    let mut out: Vec<char> = Vec::new();
    let mut i: usize = a;
    while i < b
        invariant
            a <= i <= b <= cs@.len(),
            out@ == cs@.subrange(a as int, i as int),
        decreases b - i,
    {
        out.push(cs[i]);
        assert(cs@.subrange(a as int, i + 1) =~= cs@.subrange(a as int, i as int).push(cs@[i as int]));
        i = i + 1;
    }
    out
}


// ---------------------------------------------------------------------------
// Equality and order.

/// Whether two texts hold the same characters.
pub fn same_text(a: &str, b: &str) -> (r: bool)
    ensures
        r == (a@ == b@),
{
    let x = chars_of(a);
    let y = chars_of(b);
    same_chars(x.as_slice(), y.as_slice())
}

/// Whether two character sequences are equal.
pub fn same_chars(x: &[char], y: &[char]) -> (r: bool)
    ensures
        r == (x@ == y@),
{
    if x.len() != y.len() {
        return false;
    }
    let mut i: usize = 0;
    while i < x.len()
        invariant
            x@.len() == y@.len(),
            i <= x@.len(),
            forall|j: int| 0 <= j < i ==> x@[j] == y@[j],
        decreases x.len() - i,
    {
        if x[i] != y[i] {
            return false;
        }
        i = i + 1;
    }
    assert(x@ =~= y@);
    true
}

/// `a` comes no later than `b` in the order of `String`: character by
/// character, by code point, a proper prefix first.
pub open spec fn text_le(a: Seq<char>, b: Seq<char>) -> bool
    decreases a.len(),
{
    if a.len() == 0 {
        true
    } else if b.len() == 0 {
        false
    } else if a[0] != b[0] {
        (a[0] as int) < (b[0] as int)
    } else {
        text_le(a.drop_first(), b.drop_first())
    }
}

/// The order of texts is total.
pub proof fn lemma_text_le_total(a: Seq<char>, b: Seq<char>)
    ensures
        text_le(a, b) || text_le(b, a),
    decreases a.len(),
{
    if a.len() > 0 && b.len() > 0 && a[0] == b[0] {
        lemma_text_le_total(a.drop_first(), b.drop_first());
    }
}

/// The order of texts is transitive.
pub proof fn lemma_text_le_trans(a: Seq<char>, b: Seq<char>, c: Seq<char>)
    requires
        text_le(a, b),
        text_le(b, c),
    ensures
        text_le(a, c),
    decreases a.len(),
{
    if a.len() > 0 && b.len() > 0 && c.len() > 0 && a[0] == b[0] && b[0] == c[0] {
        lemma_text_le_trans(a.drop_first(), b.drop_first(), c.drop_first());
    }
}

/// The order of texts is antisymmetric.
pub proof fn lemma_text_le_antisym(a: Seq<char>, b: Seq<char>)
    requires
        text_le(a, b),
        text_le(b, a),
    ensures
        a == b,
    decreases a.len(),
{
    if a.len() > 0 && b.len() > 0 {
        lemma_text_le_antisym(a.drop_first(), b.drop_first());
        assert(a =~= seq![a[0]] + a.drop_first());
        assert(b =~= seq![b[0]] + b.drop_first());
    }
}

/// Whether `x` comes no later than `y` in the order of texts.
pub fn chars_le(x: &[char], y: &[char]) -> (r: bool)
    ensures
        r == text_le(x@, y@),
{
    let mut i: usize = 0;
    assert(x@.skip(0) =~= x@);
    assert(y@.skip(0) =~= y@);
    while i < x.len() && i < y.len() && x[i] == y[i]
        invariant
            i <= x@.len(),
            i <= y@.len(),
            text_le(x@.skip(i as int), y@.skip(i as int)) == text_le(x@, y@),
        decreases x.len() - i,
    {
        assert(x@.skip(i as int).drop_first() =~= x@.skip(i + 1));
        assert(y@.skip(i as int).drop_first() =~= y@.skip(i + 1));
        i = i + 1;
    }
    if i == x.len() {
        true
    } else if i == y.len() {
        false
    } else {
        x[i] < y[i]
    }
}

/// Whether `a` comes no later than `b` in the order of texts.
pub fn text_le_exec(a: &str, b: &str) -> (r: bool)
    ensures
        r == text_le(a@, b@),
{
    let x = chars_of(a);
    let y = chars_of(b);
    chars_le(x.as_slice(), y.as_slice())
}

/// The texts are in the order of `String`.
pub open spec fn texts_sorted(v: Seq<Seq<char>>) -> bool {
    forall|i: int, j: int| 0 <= i <= j < v.len() ==> text_le(#[trigger] v[i], #[trigger] v[j])
}

/// The views of a vector of strings.
pub open spec fn texts_of(v: Seq<String>) -> Seq<Seq<char>> {
    v.map_values(|x: String| x@)
}

/// The strings sorted in the order of `String`, as `Vec::sort` leaves them:
/// the result holds the same strings and is sorted.
pub fn sort_texts(v: Vec<String>) -> (r: Vec<String>)
    ensures
        texts_of(r@).to_multiset() == texts_of(v@).to_multiset(),
        texts_sorted(texts_of(r@)),
{
    let mut out: Vec<String> = Vec::new();
    let mut i: usize = 0;
    assert(texts_of(v@.take(0)) =~= texts_of(out@));
    while i < v.len()
        invariant
            i <= v@.len(),
            texts_of(out@).to_multiset() == texts_of(v@.take(i as int)).to_multiset(),
            texts_sorted(texts_of(out@)),
        decreases v.len() - i,
    {
        let x = v[i].clone();
        let ghost xv = x@;
        // Find the first position whose text comes after x.
        let mut k: usize = 0;
        while k < out.len()
            invariant
                k <= out@.len(),
                xv == x@,
                forall|j: int| 0 <= j < k ==> text_le(#[trigger] out@[j]@, xv),
            ensures
                k <= out@.len(),
                forall|j: int| 0 <= j < k ==> text_le(#[trigger] out@[j]@, xv),
                k < out@.len() ==> !text_le(out@[k as int]@, xv),
            decreases out.len() - k,
        {
            let le = text_le_exec(out[k].as_str(), x.as_str());
            if !le {
                break;
            }
            k = k + 1;
        }
        let ghost before = texts_of(out@);
        proof {
            if k < out@.len() {
                lemma_text_le_total(out@[k as int]@, xv);
            }
        }
        out.insert(k, x);
        proof {
            let after = texts_of(out@);
            assert(after =~= before.insert(k as int, xv));
            assert(after.remove(k as int) =~= before);
            assert(after[k as int] == xv);
            assert(texts_of(v@.take(i + 1)) =~= texts_of(v@.take(i as int)).push(xv));
            assert(after.to_multiset() =~= before.to_multiset().insert(xv)) by {
                broadcast use vstd::seq_lib::group_to_multiset_ensures;
                broadcast use vstd::multiset::group_multiset_axioms;
                assert(after.contains(xv));
            }
            assert(texts_of(v@.take(i + 1)).to_multiset() =~= texts_of(v@.take(i as int)).to_multiset().insert(xv)) by {
                broadcast use vstd::seq_lib::group_to_multiset_ensures;
            }
            assert forall|a: int, b: int| 0 <= a <= b < after.len()
                implies text_le(#[trigger] after[a], #[trigger] after[b]) by {
                if a < k && b < k {
                } else if a < k && b == k {
                } else if a < k && b > k {
                    lemma_text_le_trans(before[a], before[k as int], before[b - 1]);
                } else if a == k && b == k {
                    lemma_text_le_total(xv, xv);
                } else if a == k && b > k {
                    lemma_text_le_trans(xv, before[k as int], before[b - 1]);
                } else {
                }
            }
        }
        i = i + 1;
    }
    proof {
        assert(v@.take(v@.len() as int) =~= v@);
    }
    out
}


// ---------------------------------------------------------------------------
// Decimal numbers.

/// `c` is one of the ASCII digits `0` to `9`.
pub open spec fn is_digit(c: char) -> bool {
    '0' <= c && c <= '9'
}

/// The value of the ASCII digit `c`.
pub open spec fn digit_value(c: char) -> nat {
    ((c as int) - ('0' as int)) as nat
}

/// The number that the digits `s` write in base ten.
pub open spec fn digits_value(s: Seq<char>) -> nat
    decreases s.len(),
{
    if s.len() == 0 {
        0
    } else {
        digits_value(s.drop_last()) * 10 + digit_value(s.last())
    }
}

/// Every character of `s` is a digit.
pub open spec fn all_digits(s: Seq<char>) -> bool {
    forall|i: int| 0 <= i < s.len() ==> is_digit(#[trigger] s[i])
}

/// What `str::parse::<u64>` gives for `s`: an optional `+`, then at least one
/// digit and nothing else, and a value that fits in 64 bits.
pub open spec fn parsed_u64(s: Seq<char>) -> Option<u64> {
    let d = if s.len() > 0 && s[0] == '+' { s.drop_first() } else { s };
    if d.len() > 0 && all_digits(d) && digits_value(d) <= u64::MAX {
        Some(digits_value(d) as u64)
    } else {
        None
    }
}

/// A longer run of digits never has a smaller value than its prefix.
pub proof fn lemma_digits_value_prefix(s: Seq<char>, j: int)
    requires
        0 <= j <= s.len(),
        all_digits(s),
    ensures
        digits_value(s.take(j)) <= digits_value(s),
    decreases s.len() - j,
{
    if j < s.len() {
        lemma_digits_value_prefix(s, j + 1);
        assert(s.take(j + 1).drop_last() =~= s.take(j));
    } else {
        assert(s.take(j) =~= s);
    }
}

/// The number written by `s`, as `str::parse::<u64>` reads it.
pub fn parse_u64(s: &str) -> (r: Option<u64>)
    ensures
        r == parsed_u64(s@),
{
    let cs = chars_of(s);
    let start: usize = if cs.len() > 0 && cs[0] == '+' { 1 } else { 0 };
    let ghost d = if s@.len() > 0 && s@[0] == '+' { s@.drop_first() } else { s@ };
    assert(d =~= cs@.skip(start as int));
    if start == cs.len() {
        return None;
    }
    let mut acc: u64 = 0;
    let mut i: usize = start;
    while i < cs.len()
        invariant
            cs@ == s@,
            d == (if s@.len() > 0 && s@[0] == '+' { s@.drop_first() } else { s@ }),
            d == cs@.skip(start as int),
            start <= i <= cs@.len(),
            all_digits(cs@.subrange(start as int, i as int)),
            acc == digits_value(cs@.subrange(start as int, i as int)),
        decreases cs.len() - i,
    {
        let c = cs[i];
        if !('0' <= c && c <= '9') {
            assert(d[i - start] == c);
            assert(!is_digit(d[i - start]));
            assert(!all_digits(d));
            assert(parsed_u64(s@) is None);
            return None;
        }
        let v: u64 = (c as u64) - ('0' as u64);
        let ghost pre = cs@.subrange(start as int, i as int);
        let ghost next = cs@.subrange(start as int, i + 1);
        assert(next.drop_last() =~= pre);
        assert(next.last() == c);
        assert(digit_value(c) == v);
        assert(digits_value(next) == acc * 10 + v);
        if acc > (u64::MAX - v) / 10 {
            proof {
                assert(digits_value(next) > u64::MAX) by (nonlinear_arith)
                    requires
                        digits_value(next) == acc * 10 + v,
                        acc > (u64::MAX - v) / 10,
                        v <= 9,
                ;
                if all_digits(d) {
                    assert(d.take(i + 1 - start) =~= next);
                    lemma_digits_value_prefix(d, i + 1 - start);
                }
                assert(parsed_u64(s@) is None);
            }
            return None;
        }
        assert(acc * 10 + v <= u64::MAX) by (nonlinear_arith)
            requires
                acc <= (u64::MAX - v) / 10,
                v <= 9,
        ;
        acc = acc * 10 + v;
        assert(all_digits(next)) by {
            assert forall|k: int| 0 <= k < next.len() implies is_digit(#[trigger] next[k]) by {
                if k < pre.len() {
                    assert(next[k] == pre[k]);
                }
            }
        }
        i = i + 1;
    }
    assert(cs@.subrange(start as int, cs@.len() as int) =~= d);
    Some(acc)
}

/// The decimal digits of `n`, most significant first, without leading zeros
/// (`0` is written `0`).
pub open spec fn decimal(n: nat) -> Seq<char>
    decreases n,
{
    if n < 10 {
        seq![digit_char(n)]
    } else {
        decimal(n / 10).push(digit_char(n % 10))
    }
}

/// The ASCII digit for a value below ten.
pub open spec fn digit_char(d: nat) -> char {
    (('0' as int) + d) as char
}

/// The digit written for a value below ten is a digit of that value.
pub proof fn lemma_digit_char(d: nat)
    requires
        d < 10,
    ensures
        is_digit(digit_char(d)),
        digit_value(digit_char(d)) == d,
        digit_char(d) != '+',
{
    assert((('0' as int) + d) as char as int == ('0' as int) + d);
}

/// The decimal text of `n` reads back as `n`.
pub proof fn lemma_decimal_digits(n: nat)
    ensures
        all_digits(decimal(n)),
        digits_value(decimal(n)) == n,
        decimal(n).len() > 0,
        decimal(n)[0] != '+',
    decreases n,
{
    lemma_digit_char(n % 10);
    if n >= 10 {
        lemma_decimal_digits(n / 10);
        let d = decimal(n);
        assert(d.drop_last() =~= decimal(n / 10));
        assert(d[0] == decimal(n / 10)[0]);
        assert(all_digits(d)) by {
            assert forall|k: int| 0 <= k < d.len() implies is_digit(#[trigger] d[k]) by {
                if k < d.len() - 1 {
                    assert(d[k] == decimal(n / 10)[k]);
                }
            }
        }
        assert(d.last() == digit_char(n % 10));
        assert(digits_value(d) == digits_value(decimal(n / 10)) * 10 + digit_value(digit_char(n % 10)));
        assert((n / 10) * 10 + n % 10 == n) by (nonlinear_arith);
        assert(digits_value(d) == n);
    } else {
        lemma_digit_char(n);
        assert(decimal(n).drop_last() =~= Seq::<char>::empty());
        assert(decimal(n).last() == digit_char(n));
        assert(digits_value(Seq::<char>::empty()) == 0);
        assert(digits_value(decimal(n)) == digits_value(decimal(n).drop_last()) * 10 + digit_value(decimal(n).last()));
        assert(digits_value(decimal(n)) == n);
    }
}

/// Reading back a number written in decimal gives the number.
pub proof fn lemma_parse_decimal(n: u64)
    ensures
        parsed_u64(decimal(n as nat)) == Some(n),
{
    lemma_decimal_digits(n as nat);
}

/// The decimal digits of `n`.
pub fn decimal_chars(n: u128) -> (r: Vec<char>)
    ensures
        r@ == decimal(n as nat),
    decreases n,
{
    if n < 10 {
        let c = char_of_digit(n as u8);
        let mut v: Vec<char> = Vec::new();
        v.push(c);
        assert(v@ =~= seq![digit_char(n as nat)]);
        v
    } else {
        let mut v = decimal_chars(n / 10);
        let c = char_of_digit((n % 10) as u8);
        v.push(c);
        v
    }
}

/// The ASCII digit for `d`.
fn char_of_digit(d: u8) -> (c: char)
    requires
        d < 10,
    ensures
        c == digit_char(d as nat),
{
    match d {
        0 => '0',
        1 => '1',
        2 => '2',
        3 => '3',
        4 => '4',
        5 => '5',
        6 => '6',
        7 => '7',
        8 => '8',
        _ => '9',
    }
}

/// `n` written in decimal, as `to_string` writes an unsigned integer.
pub fn decimal_string(n: u128) -> (r: String)
    ensures
        r@ == decimal(n as nat),
{
    let v = decimal_chars(n);
    string_of(v.as_slice())
}

/// `n` written in decimal with a leading `-` when negative, as `to_string`
/// writes a signed integer.
pub open spec fn signed_decimal(n: int) -> Seq<char> {
    if n < 0 {
        seq!['-'] + decimal((-n) as nat)
    } else {
        decimal(n as nat)
    }
}

/// `n` written in decimal with a leading `-` when negative.
pub fn signed_decimal_string(n: i64) -> (r: String)
    ensures
        r@ == signed_decimal(n as int),
{
    if n < 0 {
        let m: u128 = (0i128 - (n as i128)) as u128;
        let digits = decimal_chars(m);
        let mut v: Vec<char> = Vec::new();
        v.push('-');
        let mut i: usize = 0;
        while i < digits.len()
            invariant
                i <= digits@.len(),
                v@ == seq!['-'] + digits@.take(i as int),
            decreases digits.len() - i,
        {
            v.push(digits[i]);
            assert(digits@.take(i + 1) =~= digits@.take(i as int).push(digits@[i as int]));
            assert(seq!['-'] + digits@.take(i + 1) =~= (seq!['-'] + digits@.take(i as int)).push(digits@[i as int]));
            i = i + 1;
        }
        assert(digits@.take(digits@.len() as int) =~= digits@);
        string_of(v.as_slice())
    } else {
        decimal_string(n as u128)
    }
}

} // verus!
