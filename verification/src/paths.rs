//! Path utilities exposed to guest scripts: the final component of a
//! slash-separated path and the textual parent of a path.
//!
//! A path is modelled as its real components: the segments between `/`
//! separators, with empty segments and bare `.` segments ignored.  `basename`
//! is the last real component (none when there is no component or it is
//! `..`); `dirname` is the remaining components joined by `/`, with a leading
//! `/` kept for absolute paths.
use vstd::prelude::*;

use crate::strings::split;
use crate::strings::split_spec;
use crate::strings::str_eq;
use crate::strings::views_of;

verus! {

/// A segment that names a directory entry: non-empty and not the `.`
/// self-reference.
pub open spec fn is_real_component(c: Seq<char>) -> bool {
    c.len() > 0 && c != seq!['.']
}

/// The real components among `parts`, in order.
pub open spec fn components_of(parts: Seq<Seq<char>>) -> Seq<Seq<char>>
    decreases parts.len(),
{
    if parts.len() == 0 {
        Seq::empty()
    } else {
        let rest = components_of(parts.drop_last());
        if is_real_component(parts.last()) {
            rest.push(parts.last())
        } else {
            rest
        }
    }
}

/// The real components of the path `s`.
pub open spec fn path_components(s: Seq<char>) -> Seq<Seq<char>> {
    components_of(split_spec(s, seq!['/']))
}

/// Whether the path `s` is absolute.
pub open spec fn is_absolute_path(s: Seq<char>) -> bool {
    s.len() > 0 && s[0] == '/'
}

/// The last real component of `s`, or none when `s` has no real component or
/// ends in a `..` parent reference.
pub open spec fn basename_spec(s: Seq<char>) -> Option<Seq<char>> {
    let cs = path_components(s);
    if cs.len() == 0 {
        None
    } else if cs.last() == seq!['.', '.'] {
        None
    } else {
        Some(cs.last())
    }
}

/// `parts` joined by `/` separators.
pub open spec fn joined(parts: Seq<Seq<char>>) -> Seq<char>
    decreases parts.len(),
{
    if parts.len() == 0 {
        Seq::empty()
    } else if parts.len() == 1 {
        parts[0]
    } else {
        joined(parts.drop_last()) + seq!['/'] + parts.last()
    }
}

/// The path `s` without its last real component, or none when `s` has no
/// real component at all.
pub open spec fn dirname_spec(s: Seq<char>) -> Option<Seq<char>> {
    let cs = path_components(s);
    if cs.len() == 0 {
        None
    } else if is_absolute_path(s) {
        Some(seq!['/'] + joined(cs.drop_last()))
    } else {
        Some(joined(cs.drop_last()))
    }
}

proof fn lemma_components_push(parts: Seq<Seq<char>>, x: Seq<char>)
    ensures
        components_of(parts.push(x)) == if is_real_component(x) {
            components_of(parts).push(x)
        } else {
            components_of(parts)
        },
{
    assert(parts.push(x).drop_last() =~= parts);
    assert(parts.push(x).last() == x);
}

proof fn lemma_joined_push(parts: Seq<Seq<char>>, x: Seq<char>)
    ensures
        parts.len() == 0 ==> joined(parts.push(x)) == x,
        parts.len() > 0 ==> joined(parts.push(x)) == joined(parts) + seq!['/'] + x,
{
    assert(parts.push(x).drop_last() =~= parts);
    assert(parts.push(x).last() == x);
}

/// The real components of `path`, in order.
pub fn path_parts(path: &str) -> (r: Vec<String>)
    ensures
        views_of(r@) == path_components(path@),
{
    proof {
        reveal_strlit("/");
        reveal_strlit(".");
        assert("/"@ =~= seq!['/']);
        assert("."@ =~= seq!['.']);
    }
    let raw = split(path, "/");
    let mut comps: Vec<String> = Vec::new();
    let mut k: usize = 0;
    proof {
        assert(views_of(raw@).subrange(0, 0) =~= Seq::<Seq<char>>::empty());
        assert(views_of(comps@) =~= components_of(views_of(raw@).subrange(0, 0)));
    }
    while k < raw.len()
        invariant
            k <= raw@.len(),
            views_of(raw@) == split_spec(path@, seq!['/']),
            views_of(comps@) == components_of(views_of(raw@).subrange(0, k as int)),
        decreases raw@.len() - k,
    {
        let part = &raw[k];
        let keep = part.as_str().unicode_len() > 0 && !str_eq(part.as_str(), ".");
        proof {
            reveal_strlit(".");
            assert("."@ =~= seq!['.']);
            assert(keep == is_real_component(part@));
        }
        if keep {
            comps.push(part.clone());
        }
        proof {
            assert(views_of(raw@).subrange(0, k + 1) =~= views_of(raw@).subrange(
                0,
                k as int,
            ).push(part@));
            lemma_components_push(views_of(raw@).subrange(0, k as int), part@);
            if keep {
                assert(views_of(comps@) =~= components_of(
                    views_of(raw@).subrange(0, k as int),
                ).push(part@));
            }
        }
        k = k + 1;
    }
    proof {
        assert(views_of(raw@).subrange(0, raw@.len() as int) =~= views_of(raw@));
    }
    comps
}

/// The final component of `path`, or none when the path has no component or
/// ends in a `..` parent reference.
pub fn basename(path: &str) -> (r: Option<String>)
    ensures
        match r {
            Some(b) => basename_spec(path@) == Some(b@),
            None => basename_spec(path@) is None,
        },
{
    proof {
        reveal_strlit("..");
        assert(".."@ =~= seq!['.', '.']);
    }
    let comps = path_parts(path);
    if comps.len() == 0 {
        return None;
    }
    let last = &comps[comps.len() - 1];
    if str_eq(last.as_str(), "..") {
        None
    } else {
        Some(last.clone())
    }
}

/// The textual parent of `path`, or none when the path has no real
/// component.
pub fn dirname(path: &str) -> (r: Option<String>)
    ensures
        match r {
            Some(d) => dirname_spec(path@) == Some(d@),
            None => dirname_spec(path@) is None,
        },
{
    proof {
        reveal_strlit("/");
        assert("/"@ =~= seq!['/']);
    }
    let comps = path_parts(path);
    let n = comps.len();
    if n == 0 {
        return None;
    }
    let absolute = path.unicode_len() > 0 && path.get_char(0) == '/';
    let mut out = String::new();
    if absolute {
        out.append("/");
    }
    let ghost prefix: Seq<char> = if absolute {
        seq!['/']
    } else {
        Seq::<char>::empty()
    };
    let ghost cs = path_components(path@);
    let mut k: usize = 0;
    proof {
        assert(cs.subrange(0, 0) =~= Seq::<Seq<char>>::empty());
        assert(out@ =~= prefix + joined(cs.subrange(0, 0)));
    }
    while k < n - 1
        invariant
            n == comps@.len(),
            n >= 1,
            k <= n - 1,
            views_of(comps@) == cs,
            absolute == is_absolute_path(path@),
            prefix == if absolute {
                seq!['/']
            } else {
                Seq::<char>::empty()
            },
            out@ == prefix + joined(cs.subrange(0, k as int)),
        decreases n - 1 - k,
    {
        if k > 0 {
            out.append("/");
        }
        out.append(comps[k].as_str());
        proof {
            reveal_strlit("/");
            assert("/"@ =~= seq!['/']);
            assert(cs.subrange(0, k + 1) =~= cs.subrange(0, k as int).push(cs[k as int]));
            lemma_joined_push(cs.subrange(0, k as int), cs[k as int]);
            assert(out@ =~= prefix + joined(cs.subrange(0, k + 1)));
        }
        k = k + 1;
    }
    proof {
        assert(cs.subrange(0, n - 1) =~= cs.drop_last());
        assert(out@ =~= prefix + joined(cs.drop_last()));
    }
    Some(out)
}

} // verus!
