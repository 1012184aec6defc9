//! Text primitives used by search and error classification.

use vstd::prelude::*;
use vstd::string::{StrSliceExecFns, StringExecFns};

verus! {

/// Whether `c` is white space in the sense of Unicode's `White_Space` property.
pub open spec fn spec_is_space(c: char) -> bool {
    c == '\t' || c == '\n' || c == '\u{0B}' || c == '\u{0C}' || c == '\r' || c == ' '
        || c == '\u{85}' || c == '\u{A0}' || c == '\u{1680}'
        || ('\u{2000}' <= c && c <= '\u{200A}') || c == '\u{2028}' || c == '\u{2029}'
        || c == '\u{202F}' || c == '\u{205F}' || c == '\u{3000}'
}

/// Executable white-space test.
pub fn is_space(c: char) -> (r: bool)
    ensures
        r == spec_is_space(c),
{
    c == '\t' || c == '\n' || c == '\u{0B}' || c == '\u{0C}' || c == '\r' || c == ' '
        || c == '\u{85}' || c == '\u{A0}' || c == '\u{1680}'
        || ('\u{2000}' <= c && c <= '\u{200A}') || c == '\u{2028}' || c == '\u{2029}'
        || c == '\u{202F}' || c == '\u{205F}' || c == '\u{3000}'
}

/// The characters of `s`, as a vector.
pub fn chars_of(s: &str) -> (r: Vec<char>)
    ensures
        r@ == s@,
{
    let n = s.unicode_len();
    let mut out: Vec<char> = Vec::new();
    let mut i: usize = 0;
    while i < n
        invariant
            n == s@.len(),
            i <= n,
            out@ == s@.take(i as int),
        decreases n - i,
    {
        let c = s.get_char(i);
        out.push(c);
        i = i + 1;
        assert(out@ =~= s@.take(i as int));
    }
    assert(out@ =~= s@);
    out
}

/// Whether `needle` occurs in `hay` as a contiguous run.
pub open spec fn occurs_in(needle: Seq<char>, hay: Seq<char>) -> bool {
    exists|i: int|
        0 <= i && i + needle.len() <= hay.len() && #[trigger] hay.subrange(i, i + needle.len())
            == needle
}

/// Whether `needle` occurs in `hay` at position `at`.
pub(crate) fn occurs_at(needle: &Vec<char>, hay: &Vec<char>, at: usize) -> (r: bool)
    requires
        at + needle@.len() <= hay@.len(),
    ensures
        r == (hay@.subrange(at as int, at + needle@.len()) == needle@),
{
    let hay_len = hay.len();
    let mut j: usize = 0;
    while j < needle.len()
        invariant
            at + needle@.len() <= hay@.len(),
            hay_len == hay@.len(),
            j <= needle@.len(),
            forall|k: int| 0 <= k < j ==> hay@[at + k] == needle@[k],
        decreases needle@.len() - j,
    {
        if hay[at + j] != needle[j] {
            assert(hay@.subrange(at as int, at + needle@.len())[j as int] != needle@[j as int]);
            return false;
        }
        j = j + 1;
    }
    assert(hay@.subrange(at as int, at + needle@.len()) =~= needle@);
    true
}

/// Substring test on character vectors.
pub fn contains_chars(hay: &Vec<char>, needle: &Vec<char>) -> (r: bool)
    ensures
        r == occurs_in(needle@, hay@),
{
    if needle.len() > hay.len() {
        assert(!occurs_in(needle@, hay@));
        return false;
    }
    let last = hay.len() - needle.len();
    let mut i: usize = 0;
    loop
        invariant
            last == hay@.len() - needle@.len(),
            i <= last,
            forall|k: int| 0 <= k < i ==> #[trigger] hay@.subrange(k, k + needle@.len()) != needle@,
        ensures
            forall|k: int| 0 <= k <= last ==> #[trigger] hay@.subrange(k, k + needle@.len()) != needle@,
        decreases last - i,
    {
        if occurs_at(needle, hay, i) {
            return true;
        }
        if i == last {
            break;
        }
        i = i + 1;
    }
    assert(!occurs_in(needle@, hay@)) by {
        if occurs_in(needle@, hay@) {
            let k = choose|k: int|
                0 <= k && k + needle@.len() <= hay@.len() && #[trigger] hay@.subrange(
                    k,
                    k + needle@.len(),
                ) == needle@;
            assert(hay@.subrange(k, k + needle@.len()) != needle@);
        }
    }
    false
}

/// Name for what `str::to_lowercase` returns on a string.
pub uninterp spec fn lower_of(s: Seq<char>) -> Seq<char>;

/// Relies on `str::to_lowercase`: the result depends on the characters alone.
#[verifier::external_body]
pub(crate) fn lowercase(s: &str) -> (r: String)
    ensures
        r@ == lower_of(s@),
{
    s.to_lowercase()
}

/// Words found so far in `s`, and the word still being read at its end.
pub open spec fn words_acc(s: Seq<char>) -> (Seq<Seq<char>>, Seq<char>)
    decreases s.len(),
{
    if s.len() == 0 {
        (seq![], seq![])
    } else {
        let (ws, cur) = words_acc(s.drop_last());
        let c = s.last();
        if spec_is_space(c) {
            if cur.len() > 0 {
                (ws.push(cur), seq![])
            } else {
                (ws, cur)
            }
        } else {
            (ws, cur.push(c))
        }
    }
}

/// The maximal runs of non-space characters of `s`, in order.
pub open spec fn words(s: Seq<char>) -> Seq<Seq<char>> {
    let (ws, cur) = words_acc(s);
    if cur.len() > 0 {
        ws.push(cur)
    } else {
        ws
    }
}

/// The character sequences held by a vector of character vectors.
pub open spec fn views_of(v: Seq<Vec<char>>) -> Seq<Seq<char>> {
    v.map_values(|w: Vec<char>| w@)
}

/// Splits `s` at white space into its words.
pub fn split_words(s: &str) -> (r: Vec<Vec<char>>)
    ensures
        views_of(r@) == words(s@),
{
    let cs = chars_of(s);
    let mut ws: Vec<Vec<char>> = Vec::new();
    let mut cur: Vec<char> = Vec::new();
    let mut i: usize = 0;
    while i < cs.len()
        invariant
            cs@ == s@,
            i <= cs@.len(),
            (views_of(ws@), cur@) == words_acc(s@.take(i as int)),
        decreases cs@.len() - i,
    {
        let c = cs[i];
        assert(s@.take(i + 1).drop_last() =~= s@.take(i as int));
        if is_space(c) {
            if cur.len() > 0 {
                let ghost pre = views_of(ws@);
                let ghost last = cur@;
                ws.push(cur);
                assert(views_of(ws@) =~= pre.push(last));
                cur = Vec::new();
            }
        } else {
            cur.push(c);
        }
        i = i + 1;
        assert(views_of(ws@) =~= words_acc(s@.take(i as int)).0);
        assert(cur@ =~= words_acc(s@.take(i as int)).1);
    }
    assert(s@.take(i as int) =~= s@);
    let ghost pre = views_of(ws@);
    let ghost last = cur@;
    if cur.len() > 0 {
        ws.push(cur);
        assert(views_of(ws@) =~= pre.push(last));
    }
    assert(views_of(ws@) =~= words(s@));
    ws
}

/// Whether every word of `words` occurs in `hay`.
pub open spec fn all_occur(words: Seq<Seq<char>>, hay: Seq<char>) -> bool {
    forall|k: int| 0 <= k < words.len() ==> occurs_in(#[trigger] words[k], hay)
}

/// Tests whether every word of `words` occurs in `hay`.
pub fn contains_all(hay: &Vec<char>, words: &Vec<Vec<char>>) -> (r: bool)
    ensures
        r == all_occur(views_of(words@), hay@),
{
    let mut k: usize = 0;
    while k < words.len()
        invariant
            k <= words@.len(),
            forall|j: int| 0 <= j < k ==> occurs_in(#[trigger] views_of(words@)[j], hay@),
        decreases words@.len() - k,
    {
        if !contains_chars(hay, &words[k]) {
            assert(!occurs_in(views_of(words@)[k as int], hay@));
            return false;
        }
        k = k + 1;
    }
    true
}

/// `s` with every occurrence of `pat`, left to right and without overlap,
/// replaced by `with`. An empty pattern leaves `s` as it is.
pub open spec fn replaced(s: Seq<char>, pat: Seq<char>, with: Seq<char>) -> Seq<char>
    decreases s.len(),
{
    if pat.len() == 0 || s.len() < pat.len() {
        s
    } else if s.subrange(0, pat.len() as int) == pat {
        with + replaced(s.subrange(pat.len() as int, s.len() as int), pat, with)
    } else {
        seq![s[0]] + replaced(s.subrange(1, s.len() as int), pat, with)
    }
}

/// Replaces every occurrence of `pat` in `s` by `with`.
pub fn replace_all(s: &str, pat: &str, with: &str) -> (r: String)
    ensures
        r@ == replaced(s@, pat@, with@),
{
    let cs = chars_of(s);
    let ps = chars_of(pat);
    let n = cs.len();
    let m = ps.len();
    if m == 0 {
        return String::from_str(s);
    }
    let ghost full = s@;
    let mut out = String::new();
    let mut last: usize = 0;
    let mut i: usize = 0;
    proof {
        assert(full.subrange(0, n as int) =~= full);
        assert(out@ + full.subrange(0, 0) + replaced(full, pat@, with@) =~= replaced(
            full,
            pat@,
            with@,
        ));
    }
    while i <= n && m <= n - i
        invariant
            cs@ == full,
            ps@ == pat@,
            full == s@,
            n == full.len(),
            m == pat@.len(),
            m > 0,
            last <= i <= n,
            out@ + full.subrange(last as int, i as int) + replaced(
                full.subrange(i as int, n as int),
                pat@,
                with@,
            ) == replaced(full, pat@, with@),
        decreases n - i,
    {
        let ghost rest = full.subrange(i as int, n as int);
        if occurs_at(&ps, &cs, i) {
            proof {
                assert(rest.subrange(0, m as int) =~= full.subrange(i as int, i + m));
                assert(rest.subrange(m as int, rest.len() as int) =~= full.subrange(i + m, n as int));
            }
            let piece = s.substring_char(last, i);
            let ghost before = out@;
            out.append(piece);
            out.append(with);
            proof {
                assert(full.subrange((i + m) as int, (i + m) as int) =~= Seq::<char>::empty());
                assert(out@ + full.subrange((i + m) as int, (i + m) as int) + replaced(
                    full.subrange((i + m) as int, n as int),
                    pat@,
                    with@,
                ) =~= before + full.subrange(last as int, i as int) + (with@ + replaced(
                    full.subrange((i + m) as int, n as int),
                    pat@,
                    with@,
                )));
            }
            i = i + m;
            last = i;
        } else {
            proof {
                assert(rest.subrange(0, m as int) =~= full.subrange(i as int, i + m));
                assert(rest.subrange(1, rest.len() as int) =~= full.subrange(i + 1, n as int));
                assert(rest[0] == full[i as int]);
                assert(out@ + full.subrange(last as int, i + 1) + replaced(
                    full.subrange(i + 1, n as int),
                    pat@,
                    with@,
                ) =~= out@ + full.subrange(last as int, i as int) + (seq![full[i as int]] + replaced(
                    full.subrange(i + 1, n as int),
                    pat@,
                    with@,
                )));
            }
            i = i + 1;
        }
    }
    proof {
        let rest = full.subrange(i as int, n as int);
        assert(rest.len() < m);
        assert(replaced(rest, pat@, with@) == rest);
        assert(full.subrange(last as int, i as int) + rest =~= full.subrange(last as int, n as int));
    }
    let tail = s.substring_char(last, n);
    out.append(tail);
    out
}

} // verus!
