//! Filesystem paths as `/`-separated strings.
//!
//! Joining and taking the parent follow the Unix rules of `std::path` for
//! paths made of plain components: an absolute part replaces the base, a
//! separator is inserted when the base does not end in one, and the parent
//! drops the last component together with the separators around it.

use vstd::prelude::*;

use crate::text::{chars_of, chars_slice, string_from_chars};

verus! {

/// `base` joined with `part`.
pub open spec fn join_spec(base: Seq<char>, part: Seq<char>) -> Seq<char> {
    if part.len() > 0 && part[0] == '/' {
        part
    } else if base.len() == 0 {
        part
    } else if base.last() == '/' {
        base + part
    } else {
        base + seq!['/'] + part
    }
}

/// The length of `s` once trailing `/` are removed.
pub open spec fn trimmed_len_spec(s: Seq<char>) -> nat
    decreases s.len(),
{
    if s.len() > 0 && s.last() == '/' {
        trimmed_len_spec(s.drop_last())
    } else {
        s.len()
    }
}

/// The index just past the last `/` of `s`, or 0 when it has none.
pub open spec fn after_last_slash_spec(s: Seq<char>) -> nat
    decreases s.len(),
{
    if s.len() == 0 {
        0
    } else if s.last() == '/' {
        s.len()
    } else {
        after_last_slash_spec(s.drop_last())
    }
}

/// The parent of `p`: `None` for the empty path and the root, `""` for a
/// single relative component, `/` for a single absolute component.
pub open spec fn parent_spec(p: Seq<char>) -> Option<Seq<char>> {
    let t = p.subrange(0, trimmed_len_spec(p) as int);
    if t.len() == 0 {
        None
    } else {
        let cut = after_last_slash_spec(t);
        if cut == 0 {
            Some(Seq::empty())
        } else {
            let head = t.subrange(0, trimmed_len_spec(t.subrange(0, cut as int)) as int);
            if head.len() == 0 {
                Some(seq!['/'])
            } else {
                Some(head)
            }
        }
    }
}

proof fn lemma_trimmed_len(s: Seq<char>)
    ensures
        trimmed_len_spec(s) <= s.len(),
        trimmed_len_spec(s) > 0 ==> s[trimmed_len_spec(s) - 1] != '/',
        forall|k: int| trimmed_len_spec(s) <= k < s.len() ==> s[k] == '/',
    decreases s.len(),
{
    if s.len() > 0 && s.last() == '/' {
        lemma_trimmed_len(s.drop_last());
        assert forall|k: int| 0 <= k < s.len() - 1 implies s.drop_last()[k] == s[k] by {}
    }
}

proof fn lemma_after_last_slash(s: Seq<char>)
    ensures
        after_last_slash_spec(s) <= s.len(),
        after_last_slash_spec(s) > 0 ==> s[after_last_slash_spec(s) - 1] == '/',
        forall|k: int| after_last_slash_spec(s) <= k < s.len() ==> s[k] != '/',
    decreases s.len(),
{
    if s.len() > 0 && s.last() != '/' {
        lemma_after_last_slash(s.drop_last());
        assert forall|k: int| 0 <= k < s.len() - 1 implies s.drop_last()[k] == s[k] by {}
    }
}

/// Number of characters left once trailing `/` are removed from `cs[..len]`.
fn trimmed_len(cs: &Vec<char>, len: usize) -> (r: usize)
    requires
        len <= cs@.len(),
    ensures
        r == trimmed_len_spec(cs@.subrange(0, len as int)),
{
    let mut n = len;
    while n > 0 && cs[n - 1] == '/'
        invariant
            n <= len <= cs@.len(),
            trimmed_len_spec(cs@.subrange(0, len as int)) == trimmed_len_spec(cs@.subrange(0, n as int)),
        decreases n,
    {
        proof {
            assert(cs@.subrange(0, n as int).drop_last() =~= cs@.subrange(0, n - 1));
        }
        n = n - 1;
    }
    n
}

/// `base` joined with `part`.
pub fn join_path(base: &str, part: &str) -> (r: String)
    ensures
        r@ == join_spec(base@, part@),
{
    let b = chars_of(base);
    let p = chars_of(part);
    if p.len() > 0 && p[0] == '/' {
        String::from_str(part)
    } else if b.len() == 0 {
        String::from_str(part)
    } else if b[b.len() - 1] == '/' {
        let mut s = String::from_str(base);
        s.append(part);
        s
    } else {
        let mut s = String::from_str(base);
        s.append("/");
        s.append(part);
        proof {
            reveal_strlit("/");
        }
        s
    }
}

/// The parent of `path`.
pub fn parent_path(path: &str) -> (r: Option<String>)
    ensures
        match r {
            Some(s) => parent_spec(path@) == Some(s@),
            None => parent_spec(path@) is None,
        },
{
    let cs = chars_of(path);
    let tl = trimmed_len(&cs, cs.len());
    assert(cs@.subrange(0, cs@.len() as int) =~= cs@);
    proof {
        lemma_trimmed_len(cs@);
    }
    if tl == 0 {
        return None;
    }
    let t = chars_slice(&cs, 0, tl);
    let mut cut = tl;
    assert(t@.subrange(0, tl as int) =~= t@);
    while cut > 0 && t[cut - 1] != '/'
        invariant
            cut <= tl,
            t@.len() == tl,
            after_last_slash_spec(t@) == after_last_slash_spec(t@.subrange(0, cut as int)),
        decreases cut,
    {
        proof {
            assert(t@.subrange(0, cut as int).drop_last() =~= t@.subrange(0, cut - 1));
        }
        cut = cut - 1;
    }
    proof {
        assert(t@.subrange(0, tl as int) =~= t@);
        let u = t@.subrange(0, cut as int);
        if cut > 0 {
            assert(u.last() == '/');
        }
    }
    if cut == 0 {
        return Some(String::new());
    }
    let hl = trimmed_len(&t, cut);
    proof {
        lemma_trimmed_len(t@.subrange(0, cut as int));
    }
    if hl == 0 {
        let mut v: Vec<char> = Vec::new();
        v.push('/');
        assert(v@ =~= seq!['/']);
        Some(string_from_chars(&v))
    } else {
        let head = chars_slice(&t, 0, hl);
        Some(string_from_chars(&head))
    }
}

} // verus!
