//! String utilities exposed to guest scripts: separator-preserving `split`
//! and whitespace `trim`, with exact mathematical contracts.
use vstd::prelude::*;

verus! {

/// The views of a sequence of owned strings.
pub open spec fn views_of(parts: Seq<String>) -> Seq<Seq<char>> {
    parts.map_values(|p: String| p@)
}

/// True when `sep` occurs in `s` starting at character position `i`.
pub open spec fn has_sep_at(s: Seq<char>, sep: Seq<char>, i: int) -> bool {
    0 <= i && i + sep.len() <= s.len() && s.subrange(i, i + sep.len()) == sep
}

/// Character position of the first occurrence of `sep` in `s` at or after
/// position `i`, or -1 when there is none.
pub open spec fn first_sep_from(s: Seq<char>, sep: Seq<char>, i: int) -> int
    decreases s.len() - i + 1,
{
    if i < 0 || i + sep.len() > s.len() {
        -1
    } else if has_sep_at(s, sep, i) {
        i
    } else {
        first_sep_from(s, sep, i + 1)
    }
}

/// Splitting by the empty separator yields an empty segment, then each
/// character as its own segment, then a final empty segment.
pub open spec fn split_empty_sep(s: Seq<char>) -> Seq<Seq<char>> {
    seq![Seq::<char>::empty()] + Seq::new(s.len(), |i: int| seq![s[i]]) + seq![
        Seq::<char>::empty(),
    ]
}

/// The segments of `s` cut at each leftmost, non-overlapping occurrence of
/// `sep`; empty segments are preserved, and a string with no occurrence is a
/// single segment.
pub open spec fn split_spec(s: Seq<char>, sep: Seq<char>) -> Seq<Seq<char>>
    decreases s.len(),
{
    if sep.len() == 0 {
        split_empty_sep(s)
    } else {
        let j = first_sep_from(s, sep, 0);
        if j < 0 || j + sep.len() > s.len() {
            seq![s]
        } else {
            seq![s.subrange(0, j)] + split_spec(s.subrange(j + sep.len(), s.len() as int), sep)
        }
    }
}

/// `s` without its leading whitespace.
pub open spec fn trim_start_spec(s: Seq<char>) -> Seq<char>
    decreases s.len(),
{
    if s.len() > 0 && is_space_char(s[0]) {
        trim_start_spec(s.drop_first())
    } else {
        s
    }
}

/// `s` without its trailing whitespace.
pub open spec fn trim_end_spec(s: Seq<char>) -> Seq<char>
    decreases s.len(),
{
    if s.len() > 0 && is_space_char(s[s.len() - 1]) {
        trim_end_spec(s.drop_last())
    } else {
        s
    }
}

/// `s` without leading and trailing whitespace.
pub open spec fn trim_spec(s: Seq<char>) -> Seq<char> {
    trim_end_spec(trim_start_spec(s))
}

/// The characters with the Unicode `White_Space` property.
pub open spec fn is_space_char(c: char) -> bool {
    ||| c == '\u{0009}'
    ||| c == '\u{000A}'
    ||| c == '\u{000B}'
    ||| c == '\u{000C}'
    ||| c == '\u{000D}'
    ||| c == '\u{0020}'
    ||| c == '\u{0085}'
    ||| c == '\u{00A0}'
    ||| c == '\u{1680}'
    ||| c == '\u{2000}'
    ||| c == '\u{2001}'
    ||| c == '\u{2002}'
    ||| c == '\u{2003}'
    ||| c == '\u{2004}'
    ||| c == '\u{2005}'
    ||| c == '\u{2006}'
    ||| c == '\u{2007}'
    ||| c == '\u{2008}'
    ||| c == '\u{2009}'
    ||| c == '\u{200A}'
    ||| c == '\u{2028}'
    ||| c == '\u{2029}'
    ||| c == '\u{202F}'
    ||| c == '\u{205F}'
    ||| c == '\u{3000}'
}

/// Whether `c` has the Unicode `White_Space` property.
pub fn is_space(c: char) -> (r: bool)
    ensures
        r == is_space_char(c),
{
    c == '\u{0009}' || c == '\u{000A}' || c == '\u{000B}' || c == '\u{000C}' || c == '\u{000D}'
        || c == '\u{0020}' || c == '\u{0085}' || c == '\u{00A0}' || c == '\u{1680}' || c
        == '\u{2000}' || c == '\u{2001}' || c == '\u{2002}' || c == '\u{2003}' || c == '\u{2004}'
        || c == '\u{2005}' || c == '\u{2006}' || c == '\u{2007}' || c == '\u{2008}' || c
        == '\u{2009}' || c == '\u{200A}' || c == '\u{2028}' || c == '\u{2029}' || c == '\u{202F}'
        || c == '\u{205F}' || c == '\u{3000}'
}

/// Character-wise equality of two string slices.
pub fn str_eq(a: &str, b: &str) -> (r: bool)
    ensures
        r == (a@ == b@),
{
    let n = a.unicode_len();
    let m = b.unicode_len();
    if n != m {
        proof {
            assert(a@ != b@) by {
                assert(a@.len() != b@.len());
            }
        }
        return false;
    }
    let mut i: usize = 0;
    while i < n
        invariant
            n == a@.len(),
            n == b@.len(),
            i <= n,
            forall|k: int| 0 <= k < i ==> a@[k] == b@[k],
        decreases n - i,
    {
        if a.get_char(i) != b.get_char(i) {
            return false;
        }
        i = i + 1;
    }
    proof {
        assert(a@ =~= b@);
    }
    true
}

/// Whether `sep` occurs in `s` at character position `i`.
fn matches_at(s: &str, sep: &str, i: usize, n: usize, m: usize) -> (r: bool)
    requires
        n == s@.len(),
        m == sep@.len(),
        i + m <= n,
    ensures
        r == has_sep_at(s@, sep@, i as int),
{
    let mut j: usize = 0;
    while j < m
        invariant
            n == s@.len(),
            m == sep@.len(),
            i + m <= n,
            j <= m,
            forall|k: int| 0 <= k < j ==> s@[i + k] == sep@[k],
        decreases m - j,
    {
        if s.get_char(i + j) != sep.get_char(j) {
            proof {
                assert(s@.subrange(i as int, i + m)[j as int] != sep@[j as int]);
            }
            return false;
        }
        j = j + 1;
    }
    proof {
        assert(s@.subrange(i as int, i + m) =~= sep@);
    }
    true
}

proof fn lemma_first_sep_from_is(s: Seq<char>, sep: Seq<char>, i: int, j: int)
    requires
        0 <= i <= j,
        has_sep_at(s, sep, j),
        forall|k: int| i <= k < j ==> !has_sep_at(s, sep, k),
    ensures
        first_sep_from(s, sep, i) == j,
    decreases j - i,
{
    if i < j {
        lemma_first_sep_from_is(s, sep, i + 1, j);
    }
}

proof fn lemma_first_sep_from_none(s: Seq<char>, sep: Seq<char>, i: int)
    requires
        0 <= i,
        forall|k: int| i <= k ==> !has_sep_at(s, sep, k),
    ensures
        first_sep_from(s, sep, i) == -1,
    decreases s.len() - i + 1,
{
    if !(i + sep.len() > s.len()) {
        lemma_first_sep_from_none(s, sep, i + 1);
    }
}

/// An occurrence inside the suffix of `s` that starts at `cut` is an
/// occurrence of `s` shifted by `cut`.
proof fn lemma_sep_at_shift(s: Seq<char>, sep: Seq<char>, cut: int, k: int)
    requires
        0 <= cut <= s.len(),
        0 <= k,
    ensures
        has_sep_at(s.subrange(cut, s.len() as int), sep, k) == has_sep_at(s, sep, cut + k),
{
    let t = s.subrange(cut, s.len() as int);
    if k + sep.len() <= t.len() {
        assert(t.subrange(k, k + sep.len()) =~= s.subrange(cut + k, cut + k + sep.len()));
    }
}

/// The segments of `s` cut at each leftmost occurrence of `sep`, in order;
/// empty segments are preserved.  With an empty separator the result is an
/// empty segment, one segment per character, and a final empty segment.
pub fn split(s: &str, sep: &str) -> (r: Vec<String>)
    ensures
        views_of(r@) == split_spec(s@, sep@),
{
    let n = s.unicode_len();
    let m = sep.unicode_len();
    if m == 0 {
        return split_by_empty(s, n);
    }
    let mut parts: Vec<String> = Vec::new();
    let mut cut: usize = 0;
    let mut i: usize = 0;
    proof {
        assert(s@.subrange(0, n as int) =~= s@);
        assert(views_of(parts@) =~= Seq::<Seq<char>>::empty());
        assert(views_of(parts@) + split_spec(s@.subrange(0, n as int), sep@) =~= split_spec(
            s@,
            sep@,
        ));
    }
    while i < n
        invariant
            n == s@.len(),
            m == sep@.len(),
            m >= 1,
            cut <= i <= n,
            split_spec(s@, sep@) == views_of(parts@) + split_spec(
                s@.subrange(cut as int, n as int),
                sep@,
            ),
            forall|k: int| cut <= k < i ==> !has_sep_at(s@, sep@, k),
        decreases n - i,
    {
        if m <= n - i && matches_at(s, sep, i, n, m) {
            let piece = s.substring_char(cut, i);
            let ghost old_views = views_of(parts@);
            parts.push(piece.to_owned());
            proof {
                let t = s@.subrange(cut as int, n as int);
                assert forall|k: int| 0 <= k < i - cut implies !has_sep_at(t, sep@, k) by {
                    lemma_sep_at_shift(s@, sep@, cut as int, k);
                }
                lemma_sep_at_shift(s@, sep@, cut as int, i - cut);
                lemma_first_sep_from_is(t, sep@, 0, i - cut);
                assert(t.subrange(0, i - cut) =~= s@.subrange(cut as int, i as int));
                assert(t.subrange(i - cut + sep@.len(), t.len() as int) =~= s@.subrange(
                    i + m,
                    n as int,
                ));
                assert(views_of(parts@) =~= old_views.push(s@.subrange(cut as int, i as int)));
                assert(split_spec(s@, sep@) =~= views_of(parts@) + split_spec(
                    s@.subrange((i + m) as int, n as int),
                    sep@,
                ));
            }
            i = i + m;
            cut = i;
        } else {
            proof {
                assert(!has_sep_at(s@, sep@, i as int));
            }
            i = i + 1;
        }
    }
    let last = s.substring_char(cut, n);
    let ghost old_views = views_of(parts@);
    parts.push(last.to_owned());
    proof {
        let t = s@.subrange(cut as int, n as int);
        assert forall|k: int| 0 <= k implies !has_sep_at(t, sep@, k) by {
            if k + sep@.len() <= t.len() {
                lemma_sep_at_shift(s@, sep@, cut as int, k);
            }
        }
        lemma_first_sep_from_none(t, sep@, 0);
        assert(views_of(parts@) =~= old_views.push(t));
        assert(views_of(parts@) =~= split_spec(s@, sep@));
    }
    parts
}

/// Splitting by the empty separator: an empty segment, one segment per
/// character, and a final empty segment.
fn split_by_empty(s: &str, n: usize) -> (r: Vec<String>)
    requires
        n == s@.len(),
    ensures
        views_of(r@) == split_spec(s@, Seq::<char>::empty()),
{
    let mut parts: Vec<String> = Vec::new();
    let empty_head = s.substring_char(0, 0);
    parts.push(empty_head.to_owned());
    proof {
        assert(empty_head@ =~= Seq::<char>::empty());
        assert(views_of(parts@) =~~= seq![Seq::<char>::empty()] + Seq::new(
            0nat,
            |k: int| seq![s@[k]],
        ));
    }
    let mut i: usize = 0;
    while i < n
        invariant
            n == s@.len(),
            i <= n,
            views_of(parts@) =~~= seq![Seq::<char>::empty()] + Seq::new(
                i as nat,
                |k: int| seq![s@[k]],
            ),
        decreases n - i,
    {
        let piece = s.substring_char(i, i + 1);
        let ghost old_views = views_of(parts@);
        parts.push(piece.to_owned());
        proof {
            assert(piece@ =~= seq![s@[i as int]]);
            assert(views_of(parts@) =~= old_views.push(seq![s@[i as int]]));
            assert(views_of(parts@) =~~= seq![Seq::<char>::empty()] + Seq::new(
                (i + 1) as nat,
                |k: int| seq![s@[k]],
            ));
        }
        i = i + 1;
    }
    let empty_tail = s.substring_char(n, n);
    parts.push(empty_tail.to_owned());
    proof {
        assert(empty_tail@ =~= Seq::<char>::empty());
        assert(views_of(parts@) =~~= split_empty_sep(s@));
    }
    parts
}

proof fn lemma_trim_start_at(s: Seq<char>, a: int)
    requires
        0 <= a <= s.len(),
        forall|k: int| 0 <= k < a ==> is_space_char(s[k]),
        a < s.len() ==> !is_space_char(s[a]),
    ensures
        trim_start_spec(s) == s.subrange(a, s.len() as int),
    decreases a,
{
    if a == 0 {
        if !(s.len() > 0 && is_space_char(s[0])) {
            assert(s.subrange(0, s.len() as int) =~= s);
        } else {
            assert(!is_space_char(s[0]));
        }
    } else {
        let tail = s.drop_first();
        lemma_trim_start_at(tail, a - 1);
        assert(tail.subrange(a - 1, tail.len() as int) =~= s.subrange(a, s.len() as int));
    }
}

proof fn lemma_trim_end_at(s: Seq<char>, b: int)
    requires
        0 <= b <= s.len(),
        forall|k: int| b <= k < s.len() ==> is_space_char(s[k]),
        b > 0 ==> !is_space_char(s[b - 1]),
    ensures
        trim_end_spec(s) == s.subrange(0, b),
    decreases s.len(),
{
    if b == s.len() {
        if !(s.len() > 0 && is_space_char(s[s.len() - 1])) {
            assert(s.subrange(0, b) =~= s);
        } else {
            assert(!is_space_char(s[b - 1]));
        }
    } else {
        let head = s.drop_last();
        lemma_trim_end_at(head, b);
        assert(head.subrange(0, b) =~= s.subrange(0, b));
    }
}

/// `s` without leading and trailing whitespace.
pub fn trim(s: &str) -> (r: String)
    ensures
        r@ == trim_spec(s@),
{
    let n = s.unicode_len();
    let mut a: usize = 0;
    while a < n && is_space(s.get_char(a))
        invariant
            n == s@.len(),
            a <= n,
            forall|k: int| 0 <= k < a ==> is_space_char(s@[k]),
        decreases n - a,
    {
        a = a + 1;
    }
    let mut b: usize = n;
    while b > a && is_space(s.get_char(b - 1))
        invariant
            n == s@.len(),
            a <= b <= n,
            forall|k: int| b <= k < n ==> is_space_char(s@[k]),
        decreases b,
    {
        b = b - 1;
    }
    let out = s.substring_char(a, b);
    proof {
        lemma_trim_start_at(s@, a as int);
        let u = s@.subrange(a as int, n as int);
        assert forall|k: int| b - a <= k < u.len() implies is_space_char(u[k]) by {
            assert(u[k] == s@[a + k]);
        }
        if b > a {
            assert(u[b - a - 1] == s@[b - 1]);
        }
        lemma_trim_end_at(u, b - a);
        assert(u.subrange(0, b - a) =~= s@.subrange(a as int, b as int));
    }
    out.to_owned()
}

} // verus!
