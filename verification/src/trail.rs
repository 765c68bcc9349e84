//! The ancestry trail: the human-readable span chain an event occurred
//! under, rendered outermost to innermost.

use vstd::prelude::*;

verus! {

/// The separator between span names in the trail.
pub open spec fn trail_sep() -> Seq<char> {
    " / "@
}

/// The character sequences of a list of names.
pub open spec fn names_view(names: Seq<String>) -> Seq<Seq<char>> {
    names.map_values(|s: String| s@)
}

/// Names joined by the trail separator, in the order given.
pub open spec fn join_spec(names: Seq<Seq<char>>) -> Seq<char>
    decreases names.len(),
{
    if names.len() == 0 {
        Seq::empty()
    } else if names.len() == 1 {
        names[0]
    } else {
        join_spec(names.drop_last()) + trail_sep() + names.last()
    }
}

/// The trail of a span chain given innermost first (the current span,
/// then its parent, up to the root): the ancestors joined outermost to
/// innermost; the current span's own name when it has no ancestors;
/// nothing when there is no span at all.
pub open spec fn trail_spec(chain: Seq<Seq<char>>) -> Option<Seq<char>> {
    if chain.len() == 0 {
        None
    } else if chain.len() == 1 {
        Some(chain[0])
    } else {
        Some(join_spec(chain.skip(1).reverse()))
    }
}

/// Computes the ancestry trail of a span chain, innermost span first.
pub fn ancestry_trail(chain: &Vec<String>) -> (t: Option<String>)
    ensures
        t is Some <==> trail_spec(names_view(chain@)) is Some,
        t is Some ==> trail_spec(names_view(chain@)) == Some(t.unwrap()@),
{
    let n = chain.len();
    if n == 0 {
        None
    } else if n == 1 {
        Some(chain[0].clone())
    } else {
        let mut out = chain[n - 1].clone();
        proof {
            assert(names_view(chain@).subrange(n - 1, n as int).reverse() =~= seq![chain@[n - 1]@]);
            assert(out@ == join_spec(names_view(chain@).subrange(n - 1, n as int).reverse()));
        }
        let mut i = n - 1;
        while i > 1
            invariant
                1 <= i <= n - 1,
                n == chain@.len(),
                out@ == join_spec(names_view(chain@).subrange(i as int, n as int).reverse()),
            decreases i,
        {
            out.append(" / ");
            out.append(chain[i - 1].as_str());
            proof {
                let full = names_view(chain@);
                let prev = full.subrange(i as int, n as int).reverse();
                let cur = full.subrange(i - 1, n as int).reverse();
                assert(cur.drop_last() =~= prev);
                assert(cur.last() == chain@[i - 1]@);
                assert(cur.len() >= 2);
                assert(out@ =~= join_spec(cur));
            }
            i -= 1;
        }
        proof {
            assert(names_view(chain@).subrange(1, n as int) =~= names_view(chain@).skip(1));
        }
        Some(out)
    }
}

/// Law: with a current span and two ancestors the trail names the
/// ancestors outermost first — the root, then the middle span — and
/// leaves the current span itself to the event; the order is never
/// reversed.
pub proof fn lemma_trail_outermost_first(leaf: Seq<char>, mid: Seq<char>, root: Seq<char>)
    ensures
        trail_spec(seq![leaf, mid, root]) == Some(root + trail_sep() + mid),
{
    let chain = seq![leaf, mid, root];
    let rev = chain.skip(1).reverse();
    assert(rev =~= seq![root, mid]);
    assert(rev.drop_last() =~= seq![root]);
    assert(join_spec(seq![root]) == root);
    assert(join_spec(rev) == root + trail_sep() + mid);
}

/// Law: a single parentless current span contributes its own name as
/// the whole trail, and no span at all contributes nothing.
pub proof fn lemma_trail_fallback(chain: Seq<Seq<char>>)
    ensures
        chain.len() == 0 ==> trail_spec(chain) is None,
        chain.len() == 1 ==> trail_spec(chain) == Some(chain[0]),
{
}

} // verus!
