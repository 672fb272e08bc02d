//! Path templates: `{name}` placeholder extraction, placeholder/parameter
//! consistency, and placeholder substitution.

use vstd::prelude::*;
use vstd::string::*;
use crate::strutil::push_char;
use crate::param::{ParamKind, ParamMeta};

verus! {

broadcast use vstd::set::group_set_axioms;

/// The index of the first occurrence of `c` in `s`, or -1 when there is none.
pub open spec fn spec_find(s: Seq<char>, c: char) -> int
    decreases s.len(),
{
    if s.len() == 0 {
        -1
    } else if s[0] == c {
        0
    } else {
        let r = spec_find(s.skip(1), c);
        if r == -1 {
            -1
        } else {
            r + 1
        }
    }
}

proof fn lemma_find(s: Seq<char>, c: char)
    ensures
        spec_find(s, c) == -1 ==> forall|i: int| 0 <= i < s.len() ==> s[i] != c,
        spec_find(s, c) != -1 ==> {
            &&& 0 <= spec_find(s, c) < s.len()
            &&& s[spec_find(s, c)] == c
            &&& forall|i: int| 0 <= i < spec_find(s, c) ==> s[i] != c
        },
    decreases s.len(),
{
    if s.len() > 0 && s[0] != c {
        lemma_find(s.skip(1), c);
        assert forall|i: int| 0 <= i < s.len() && spec_find(s, c) == -1 implies s[i] != c by {
            if i > 0 {
                assert(s.skip(1)[i - 1] == s[i]);
            }
        }
        if spec_find(s, c) != -1 {
            assert(s.skip(1)[spec_find(s, c) - 1] == s[spec_find(s, c)]);
            assert forall|i: int| 0 <= i < spec_find(s, c) implies s[i] != c by {
                if i > 0 {
                    assert(s.skip(1)[i - 1] == s[i]);
                }
            }
        }
    }
}

/// Finds the first occurrence of `c` at or after `start`.
fn find_from(s: &str, n: usize, start: usize, c: char) -> (r: Option<usize>)
    requires
        n == s@.len(),
        start <= n,
    ensures
        match r {
            None => spec_find(s@.skip(start as int), c) == -1,
            Some(p) => start <= p < n && spec_find(s@.skip(start as int), c) == p - start,
        },
{
    let mut j: usize = start;
    while j < n
        invariant
            start <= j <= n,
            n == s@.len(),
            spec_find(s@.skip(start as int), c) == -1 <==> spec_find(s@.skip(j as int), c) == -1,
            spec_find(s@.skip(j as int), c) != -1 ==> spec_find(s@.skip(start as int), c)
                == spec_find(s@.skip(j as int), c) + j - start,
        decreases n - j,
    {
        let ch = s.get_char(j);
        proof {
            assert(s@.skip(j as int)[0] == s@[j as int]);
            assert(s@.skip(j as int).skip(1) =~= s@.skip(j + 1 as int));
        }
        if ch == c {
            assert(spec_find(s@.skip(j as int), c) == 0);
            return Some(j);
        }
        proof {
            lemma_find(s@.skip(j + 1 as int), c);
            let fj1 = spec_find(s@.skip(j + 1 as int), c);
            assert(spec_find(s@.skip(j as int), c) == (if fj1 == -1 {
                -1 as int
            } else {
                fj1 + 1
            }));
        }
        j = j + 1;
    }
    proof {
        assert(s@.skip(n as int) =~= Seq::<char>::empty());
    }
    None
}

/// The `{name}` placeholder names of a template, in order of occurrence:
/// each placeholder is the text between a `{` and the next `}`.
pub open spec fn spec_placeholders(s: Seq<char>) -> Seq<Seq<char>>
    decreases s.len(),
{
    let i = spec_find(s, '{');
    if i < 0 || i + 1 > s.len() {
        Seq::empty()
    } else {
        let rest = s.skip(i + 1);
        let j = spec_find(rest, '}');
        if j < 0 || j + 1 > rest.len() {
            Seq::empty()
        } else {
            seq![rest.take(j)] + spec_placeholders(rest.skip(j + 1))
        }
    }
}

/// The views of a list of strings.
pub open spec fn strs_view(v: Seq<String>) -> Seq<Seq<char>> {
    v.map_values(|x: String| x@)
}

/// Extracts the `{name}` placeholder names of a template, in order.
pub fn placeholders(s: &str) -> (r: Vec<String>)
    ensures
        strs_view(r@) == spec_placeholders(s@),
{
    let n = s.unicode_len();
    let mut out: Vec<String> = Vec::new();
    let mut pos: usize = 0;
    proof {
        assert(s@.skip(0) =~= s@);
        assert(strs_view(Seq::<String>::empty()) =~= Seq::<Seq<char>>::empty());
        assert(strs_view(out@) + spec_placeholders(s@) =~= spec_placeholders(s@));
    }
    loop
        invariant
            pos <= n,
            n == s@.len(),
            spec_placeholders(s@) == strs_view(out@) + spec_placeholders(s@.skip(pos as int)),
        decreases n - pos,
    {
        proof {
            lemma_find(s@.skip(pos as int), '{');
        }
        let i = match find_from(s, n, pos, '{') {
            None => {
                proof {
                    assert(strs_view(out@) + spec_placeholders(s@.skip(pos as int)) =~= strs_view(
                        out@,
                    ));
                }
                return out;
            },
            Some(i) => i,
        };
        proof {
            assert(s@.skip(pos as int).skip(i - pos + 1) =~= s@.skip(i + 1 as int));
            lemma_find(s@.skip(i + 1 as int), '}');
        }
        let j = match find_from(s, n, i + 1, '}') {
            None => {
                proof {
                    assert(spec_placeholders(s@.skip(pos as int)) =~= Seq::<Seq<char>>::empty());
                    assert(strs_view(out@) + spec_placeholders(s@.skip(pos as int)) =~= strs_view(
                        out@,
                    ));
                }
                return out;
            },
            Some(j) => j,
        };
        let name = s.substring_char(i + 1, j);
        let ghost old_out = out@;
        out.push(String::from_str(name));
        proof {
            let rest = s@.skip(pos as int).skip(i - pos + 1);
            assert(rest =~= s@.skip(i + 1 as int));
            assert(rest.take(j - (i + 1)) =~= s@.subrange(i + 1, j as int));
            assert(rest.skip(j - (i + 1) + 1) =~= s@.skip(j + 1 as int));
            assert(spec_placeholders(s@.skip(pos as int)) == seq![name@] + spec_placeholders(
                s@.skip(j + 1 as int),
            ));
            assert(strs_view(out@) =~= strs_view(old_out).push(name@));
            assert(strs_view(old_out) + (seq![name@] + spec_placeholders(s@.skip(j + 1 as int)))
                =~= strs_view(out@) + spec_placeholders(s@.skip(j + 1 as int)));
        }
        pos = j + 1;
    }
}

/// Replaces every non-overlapping occurrence of `pat` in `s` by `rep`,
/// scanning left to right; an empty pattern leaves the text unchanged.
pub open spec fn spec_replace(s: Seq<char>, pat: Seq<char>, rep: Seq<char>) -> Seq<char>
    decreases s.len(),
{
    if pat.len() == 0 {
        s
    } else if s.len() < pat.len() {
        s
    } else if s.take(pat.len() as int) == pat {
        rep + spec_replace(s.skip(pat.len() as int), pat, rep)
    } else {
        seq![s[0]] + spec_replace(s.skip(1), pat, rep)
    }
}

fn match_at(s: &str, n: usize, i: usize, pat: &str, m: usize) -> (r: bool)
    requires
        n == s@.len(),
        m == pat@.len(),
        i + m <= n,
    ensures
        r == (s@.subrange(i as int, i + m) == pat@),
{
    let mut j: usize = 0;
    while j < m
        invariant
            j <= m,
            i + m <= n,
            n == s@.len(),
            m == pat@.len(),
            forall|k: int| 0 <= k < j ==> s@[i + k] == pat@[k],
        decreases m - j,
    {
        if s.get_char(i + j) != pat.get_char(j) {
            proof {
                assert(s@.subrange(i as int, i + m)[j as int] == s@[i + j]);
            }
            return false;
        }
        j = j + 1;
    }
    proof {
        assert(s@.subrange(i as int, i + m) =~= pat@);
    }
    true
}

/// Replaces every occurrence of `pat` in `s` by `rep`, left to right and
/// without rescanning replaced text, as placeholder substitution does.
pub fn replace_all(s: &str, pat: &str, rep: &str) -> (r: String)
    ensures
        r@ == spec_replace(s@, pat@, rep@),
{
    let n = s.unicode_len();
    let m = pat.unicode_len();
    if m == 0 {
        return String::from_str(s);
    }
    let mut out = String::new();
    let mut i: usize = 0;
    proof {
        assert(s@.skip(0) =~= s@);
        assert(out@ + spec_replace(s@, pat@, rep@) =~= spec_replace(s@, pat@, rep@));
    }
    while i < n
        invariant
            i <= n,
            n == s@.len(),
            m == pat@.len(),
            m > 0,
            spec_replace(s@, pat@, rep@) == out@ + spec_replace(s@.skip(i as int), pat@, rep@),
        decreases n - i,
    {
        let is_match = if n - i >= m {
            match_at(s, n, i, pat, m)
        } else {
            false
        };
        if is_match {
            let ghost old_out = out@;
            out.append(rep);
            proof {
                assert(s@.skip(i as int).take(m as int) =~= s@.subrange(i as int, i + m));
                assert(s@.skip(i as int).skip(m as int) =~= s@.skip(i + m));
                assert(spec_replace(s@.skip(i as int), pat@, rep@) == rep@ + spec_replace(
                    s@.skip(i + m),
                    pat@,
                    rep@,
                ));
                assert(old_out + (rep@ + spec_replace(s@.skip(i + m), pat@, rep@)) =~= out@
                    + spec_replace(s@.skip(i + m), pat@, rep@));
            }
            i = i + m;
        } else {
            let c = s.get_char(i);
            let ghost old_out = out@;
            push_char(&mut out, c);
            proof {
                if i + m <= n {
                    assert(s@.skip(i as int).take(m as int) =~= s@.subrange(i as int, i + m));
                }
                assert(s@.skip(i as int)[0] == s@[i as int]);
                assert(s@.skip(i as int).skip(1) =~= s@.skip(i + 1 as int));
                assert(spec_replace(s@.skip(i as int), pat@, rep@) == seq![s@[i as int]]
                    + spec_replace(s@.skip(i + 1 as int), pat@, rep@));
                assert(old_out + (seq![s@[i as int]] + spec_replace(s@.skip(i + 1 as int), pat@, rep@))
                    =~= out@ + spec_replace(s@.skip(i + 1 as int), pat@, rep@));
            }
            i = i + 1;
        }
    }
    proof {
        assert(s@.skip(n as int) =~= Seq::<char>::empty());
        assert(out@ + spec_replace(s@.skip(n as int), pat@, rep@) =~= out@);
    }
    out
}

/// The identifiers of the Path-bound parameters, in declaration order.
pub open spec fn spec_path_idents(ps: Seq<ParamMeta>) -> Seq<Seq<char>>
    decreases ps.len(),
{
    if ps.len() == 0 {
        Seq::empty()
    } else {
        spec_path_idents(ps.drop_last()) + (if ps.last().kind is Path {
            seq![ps.last().ident@]
        } else {
            Seq::empty()
        })
    }
}

/// Whether the template's placeholder set and the Path-bound parameter
/// identifier set are the same.
pub open spec fn spec_placeholders_match(path: Seq<char>, ps: Seq<ParamMeta>) -> bool {
    spec_placeholders(path).to_set() == spec_path_idents(ps).to_set()
}

fn contains_str(v: &Vec<String>, x: &String) -> (r: bool)
    ensures
        r == strs_view(v@).contains(x@),
{
    let mut i: usize = 0;
    while i < v.len()
        invariant
            i <= v@.len(),
            forall|k: int| 0 <= k < i ==> strs_view(v@)[k] != x@,
        decreases v@.len() - i,
    {
        if String::eq(&v[i], x) {
            assert(strs_view(v@)[i as int] == x@);
            return true;
        }
        assert(strs_view(v@)[i as int] == v@[i as int]@);
        i = i + 1;
    }
    false
}

/// Checks that every placeholder in the template names a Path-bound
/// parameter and every Path-bound parameter appears as a placeholder.
pub fn validate_placeholders(path: &str, params: &Vec<ParamMeta>) -> (r: bool)
    ensures
        r == spec_placeholders_match(path@, params@),
{
    let phs = placeholders(path);
    let mut idents: Vec<String> = Vec::new();
    let mut i: usize = 0;
    while i < params.len()
        invariant
            i <= params@.len(),
            strs_view(idents@) == spec_path_idents(params@.take(i as int)),
        decreases params@.len() - i,
    {
        proof {
            assert(params@.take(i + 1 as int).drop_last() =~= params@.take(i as int));
            assert(params@.take(i + 1 as int).last() == params@[i as int]);
        }
        let ghost old_idents = idents@;
        match &params[i].kind {
            ParamKind::Path => {
                idents.push(params[i].ident.clone());
                proof {
                    assert(strs_view(idents@) =~= strs_view(old_idents).push(
                        params@[i as int].ident@,
                    ));
                    assert(strs_view(old_idents).push(params@[i as int].ident@) =~= strs_view(
                        old_idents,
                    ) + seq![params@[i as int].ident@]);
                }
            },
            _ => {
                proof {
                    assert(strs_view(idents@) + Seq::<Seq<char>>::empty() =~= strs_view(idents@));
                }
            },
        }
        i = i + 1;
    }
    proof {
        assert(params@.take(params@.len() as int) =~= params@);
    }
    let mut k: usize = 0;
    while k < phs.len()
        invariant
            k <= phs@.len(),
            strs_view(phs@) == spec_placeholders(path@),
            strs_view(idents@) == spec_path_idents(params@),
            forall|t: int| 0 <= t < k ==> spec_path_idents(params@).to_set().contains(
                #[trigger] strs_view(phs@)[t],
            ),
        decreases phs@.len() - k,
    {
        if !contains_str(&idents, &phs[k]) {
            proof {
                let x = phs@[k as int]@;
                assert(strs_view(phs@)[k as int] == x);
                assert(spec_placeholders(path@)[k as int] == x);
                assert(spec_placeholders(path@).contains(x));
                assert(spec_placeholders(path@).to_set().contains(x));
                assert(!spec_path_idents(params@).contains(x));
                assert(!spec_path_idents(params@).to_set().contains(x));
            }
            return false;
        }
        assert(strs_view(phs@)[k as int] == phs@[k as int]@);
        assert(spec_path_idents(params@).to_set().contains(strs_view(phs@)[k as int]));
        k = k + 1;
    }
    let mut k: usize = 0;
    while k < idents.len()
        invariant
            k <= idents@.len(),
            strs_view(phs@) == spec_placeholders(path@),
            strs_view(idents@) == spec_path_idents(params@),
            forall|t: int| 0 <= t < strs_view(phs@).len() ==> spec_path_idents(
                params@,
            ).to_set().contains(#[trigger] strs_view(phs@)[t]),
            forall|t: int| 0 <= t < k ==> spec_placeholders(path@).to_set().contains(
                #[trigger] strs_view(idents@)[t],
            ),
        decreases idents@.len() - k,
    {
        if !contains_str(&phs, &idents[k]) {
            proof {
                let x = idents@[k as int]@;
                assert(strs_view(idents@)[k as int] == x);
                assert(spec_path_idents(params@)[k as int] == x);
                assert(spec_path_idents(params@).contains(x));
                assert(spec_path_idents(params@).to_set().contains(x));
                assert(!spec_placeholders(path@).contains(x));
                assert(!spec_placeholders(path@).to_set().contains(x));
            }
            return false;
        }
        assert(strs_view(idents@)[k as int] == idents@[k as int]@);
        assert(spec_placeholders(path@).to_set().contains(strs_view(idents@)[k as int]));
        k = k + 1;
    }
    proof {
        let phset = spec_placeholders(path@).to_set();
        let idset = spec_path_idents(params@).to_set();
        assert forall|x: Seq<char>| phset.contains(x) implies idset.contains(x) by {
            let t = choose|t: int| 0 <= t < strs_view(phs@).len() && strs_view(phs@)[t] == x;
            assert(idset.contains(strs_view(phs@)[t]));
        }
        assert forall|x: Seq<char>| idset.contains(x) implies phset.contains(x) by {
            let t = choose|t: int|
                0 <= t < strs_view(idents@).len() && strs_view(idents@)[t] == x;
            assert(phset.contains(strs_view(idents@)[t]));
        }
        assert(phset =~= idset);
    }
    true
}

} // verus!
