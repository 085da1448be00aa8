//! Lexical resolution of `..` components in a path.
use vstd::prelude::*;

use crate::text::{from_chars, to_chars};

verus! {

/// The components of `s` and the one being read, after its first `n`
/// characters: every `/` ends a component.
pub open spec fn split_prefix(s: Seq<char>, n: nat) -> (Seq<Seq<char>>, Seq<char>)
    decreases n,
{
    if n == 0 || n > s.len() {
        (Seq::empty(), Seq::empty())
    } else {
        let (done, cur) = split_prefix(s, (n - 1) as nat);
        if s[n - 1] == '/' {
            (done.push(cur), Seq::empty())
        } else {
            (done, cur.push(s[n - 1]))
        }
    }
}

/// The `/`-separated components of `s`, empty ones included.
pub open spec fn components(s: Seq<char>) -> Seq<Seq<char>> {
    let (done, cur) = split_prefix(s, s.len());
    done.push(cur)
}

/// The kept components after the first `n`: a `..` drops the nearest kept
/// component before it, except the first component, which stays; a leading
/// `..` is dropped.
pub open spec fn resolve_prefix(parts: Seq<Seq<char>>, n: nat) -> Seq<Seq<char>>
    decreases n,
{
    if n == 0 || n > parts.len() {
        Seq::empty()
    } else {
        let kept = resolve_prefix(parts, (n - 1) as nat);
        let p = parts[n - 1];
        if p == ".."@ {
            if n >= 2 && kept.len() > base_len(parts) {
                kept.drop_last()
            } else {
                kept
            }
        } else {
            kept.push(p)
        }
    }
}

/// How many components of the start are never dropped: the first one,
/// unless it is `..`.
pub open spec fn base_len(parts: Seq<Seq<char>>) -> nat {
    if parts.len() > 0 && parts[0] != ".."@ { 1 } else { 0 }
}

/// Components joined with `/`.
pub open spec fn join_components(parts: Seq<Seq<char>>) -> Seq<char>
    decreases parts.len(),
{
    if parts.len() == 0 {
        Seq::empty()
    } else if parts.len() == 1 {
        parts[0]
    } else {
        join_components(parts.drop_last()) + seq!['/'] + parts.last()
    }
}

/// `path` with its `..` components resolved lexically.
pub open spec fn logical_path(path: Seq<char>) -> Seq<char> {
    let parts = components(path);
    join_components(resolve_prefix(parts, parts.len()))
}

fn is_dot_dot(v: &Vec<char>) -> (r: bool)
    ensures
        r == (v@ == ".."@),
{
    proof {
        reveal_strlit("..");
    }
    if v.len() == 2 && v[0] == '.' && v[1] == '.' {
        assert(v@ =~= ".."@);
        true
    } else {
        false
    }
}

/// The `/`-separated components of `s`.
fn split_components(s: &Vec<char>) -> (r: Vec<Vec<char>>)
    ensures
        r@.len() == components(s@).len(),
        forall|i: int| 0 <= i < r@.len() ==> #[trigger] r@[i]@ == components(s@)[i],
{
    let mut done: Vec<Vec<char>> = Vec::new();
    let mut cur: Vec<char> = Vec::new();
    let mut i: usize = 0;
    while i < s.len()
        invariant
            i <= s.len(),
            done@.len() == split_prefix(s@, i as nat).0.len(),
            forall|k: int| 0 <= k < done@.len() ==> #[trigger] done@[k]@ == split_prefix(s@, i as nat).0[k],
            cur@ == split_prefix(s@, i as nat).1,
        decreases s.len() - i,
    {
        if s[i] == '/' {
            let c = cur;
            done.push(c);
            cur = Vec::new();
            assert(cur@ =~= Seq::<char>::empty());
        } else {
            cur.push(s[i]);
        }
        i = i + 1;
    }
    done.push(cur);
    done
}

/// `path` with its `..` components resolved lexically: each `..` removes
/// the nearest remaining component before it, the first component aside.
pub fn get_logical_path(path: &str) -> (r: String)
    ensures
        r@ == logical_path(path@),
{
    let chars = to_chars(path);
    let parts = split_components(&chars);
    let ghost ps = components(path@);
    let mut base: usize = 0;
    if parts.len() > 0 && !is_dot_dot(&parts[0]) {
        base = 1;
    }
    assert(base == base_len(ps));
    let mut kept: Vec<Vec<char>> = Vec::new();
    let mut i: usize = 0;
    while i < parts.len()
        invariant
            i <= parts.len() == ps.len(),
            base == base_len(ps),
            forall|k: int| 0 <= k < parts@.len() ==> #[trigger] parts@[k]@ == ps[k],
            kept@.len() == resolve_prefix(ps, i as nat).len(),
            forall|k: int| 0 <= k < kept@.len() ==> #[trigger] kept@[k]@ == resolve_prefix(ps, i as nat)[k],
        decreases parts.len() - i,
    {
        if is_dot_dot(&parts[i]) {
            if i >= 1 && kept.len() > base {
                kept.pop();
            }
        } else {
            let mut c: Vec<char> = Vec::new();
            let mut k: usize = 0;
            while k < parts[i].len()
                invariant
                    i < parts@.len(),
                    k <= parts@[i as int].len(),
                    c@ == parts@[i as int]@.take(k as int),
                decreases parts@[i as int].len() - k,
            {
                c.push(parts[i][k]);
                assert(parts@[i as int]@.take(k as int + 1) =~= parts@[i as int]@.take(k as int).push(parts@[i as int]@[k as int]));
                k = k + 1;
            }
            assert(parts@[i as int]@.take(k as int) =~= parts@[i as int]@);
            kept.push(c);
        }
        i = i + 1;
    }
    let ghost res = resolve_prefix(ps, ps.len());
    let mut out: Vec<char> = Vec::new();
    let mut j: usize = 0;
    while j < kept.len()
        invariant
            j <= kept@.len() == res.len(),
            forall|k: int| 0 <= k < kept@.len() ==> #[trigger] kept@[k]@ == res[k],
            out@ == join_components(res.take(j as int)),
        decreases kept.len() - j,
    {
        let ghost before = out@;
        if j > 0 {
            out.push('/');
        }
        let mut k: usize = 0;
        while k < kept[j].len()
            invariant
                j < kept@.len(),
                k <= kept@[j as int].len(),
                out@ == (if j > 0 { before + seq!['/'] } else { before }) + kept@[j as int]@.take(k as int),
            decreases kept@[j as int].len() - k,
        {
            out.push(kept[j][k]);
            assert(kept@[j as int]@.take(k as int + 1) =~= kept@[j as int]@.take(k as int).push(kept@[j as int]@[k as int]));
            k = k + 1;
        }
        proof {
            assert(kept@[j as int]@.take(k as int) =~= kept@[j as int]@);
            assert(res.take(j as int + 1).drop_last() =~= res.take(j as int));
            if j == 0 {
                assert(join_components(res.take(0)) =~= Seq::<char>::empty());
                assert(out@ =~= join_components(res.take(1)));
            }
        }
        j = j + 1;
    }
    assert(res.take(j as int) =~= res);
    from_chars(&out)
}

} // verus!
