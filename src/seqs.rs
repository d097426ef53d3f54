use vstd::prelude::*;

verus! {

/// The elements of `s` that satisfy `p`, in their order.
pub open spec fn kept<T>(s: Seq<T>, p: spec_fn(T) -> bool) -> Seq<T>
    decreases s.len(),
{
    if s.len() == 0 {
        seq![]
    } else {
        (if p(s[0]) {
            seq![s[0]]
        } else {
            seq![]
        }) + kept(s.subrange(1, s.len() as int), p)
    }
}

pub proof fn kept_len<T>(s: Seq<T>, p: spec_fn(T) -> bool)
    ensures
        kept(s, p).len() <= s.len(),
        forall|i: int| 0 <= i < kept(s, p).len() ==> p(#[trigger] kept(s, p)[i]),
        forall|i: int|
            0 <= i < kept(s, p).len() ==> exists|j: int|
                0 <= j < s.len() && s[j] == #[trigger] kept(s, p)[i],
    decreases s.len(),
{
    if s.len() > 0 {
        let t = s.subrange(1, s.len() as int);
        kept_len(t, p);
        let h: Seq<T> = if p(s[0]) {
            seq![s[0]]
        } else {
            seq![]
        };
        assert forall|i: int| 0 <= i < kept(s, p).len() implies exists|j: int|
            0 <= j < s.len() && s[j] == #[trigger] kept(s, p)[i] by {
            if i < h.len() {
                assert(s[0] == kept(s, p)[i]);
            } else {
                let j = choose|j: int| 0 <= j < t.len() && t[j] == kept(t, p)[i - h.len()];
                assert(s[j + 1] == kept(s, p)[i]);
            }
        }
    }
}

/// Extending the input by one element extends `kept` by that element when
/// it satisfies `p`.
pub proof fn kept_push<T>(s: Seq<T>, x: T, p: spec_fn(T) -> bool)
    ensures
        kept(s.push(x), p) == kept(s, p) + (if p(x) {
            seq![x]
        } else {
            seq![]
        }),
    decreases s.len(),
{
    let t: Seq<T> = if p(x) {
        seq![x]
    } else {
        seq![]
    };
    if s.len() == 0 {
        assert(s.push(x).subrange(1, 1) =~= Seq::<T>::empty());
        assert(kept(s.push(x).subrange(1, 1), p) =~= Seq::<T>::empty());
        assert(kept(s, p) =~= Seq::<T>::empty());
        assert(s.push(x)[0] == x);
        assert(kept(s.push(x), p) =~= kept(s, p) + t);
    } else {
        let rest = s.subrange(1, s.len() as int);
        kept_push(rest, x, p);
        assert(s.push(x).subrange(1, s.len() as int + 1) =~= rest.push(x));
        let h: Seq<T> = if p(s[0]) {
            seq![s[0]]
        } else {
            seq![]
        };
        assert(kept(s.push(x), p) == h + kept(rest.push(x), p));
        assert(h + (kept(rest, p) + t) =~= (h + kept(rest, p)) + t);
    }
}

/// Mapping commutes with `kept` when the predicates agree through the map.
pub proof fn kept_map<A, B>(s: Seq<A>, p: spec_fn(A) -> bool, f: spec_fn(A) -> B, q: spec_fn(B) -> bool)
    requires
        forall|x: A| #[trigger] p(x) == q(f(x)),
    ensures
        kept(s, p).map_values(f) == kept(s.map_values(f), q),
    decreases s.len(),
{
    if s.len() > 0 {
        let t = s.subrange(1, s.len() as int);
        kept_map(t, p, f, q);
        assert(s.map_values(f).subrange(1, s.len() as int) =~= t.map_values(f));
        assert(s.map_values(f)[0] == f(s[0]));
        let h: Seq<A> = if p(s[0]) {
            seq![s[0]]
        } else {
            seq![]
        };
        assert((h + kept(t, p)).map_values(f) =~= h.map_values(f) + kept(t, p).map_values(f));
        assert(kept(s, p).map_values(f) =~= kept(s.map_values(f), q));
    } else {
        assert(kept(s, p).map_values(f) =~= kept(s.map_values(f), q));
    }
}

/// Keeps, in order, the elements of `v` on which `f` answers `true`.
pub fn retain_where<T, F: Fn(&T) -> bool>(v: &mut Vec<T>, f: F, Ghost(p): Ghost<spec_fn(T) -> bool>)
    requires
        forall|x: &T| #[trigger] f.requires((x,)),
        forall|x: &T, r: bool| f.ensures((x,), r) ==> r == p(*x),
    ensures
        final(v)@ == kept(old(v)@, p),
{
    let ghost orig = v@;
    let n = v.len();
    let mut i: usize = n;
    proof {
        assert(orig.subrange(n as int, n as int) =~= seq![]);
        assert(v@ =~= orig.subrange(0, n as int) + kept(orig.subrange(n as int, n as int), p));
    }
    while i > 0
        invariant
            i <= n,
            n == orig.len(),
            forall|x: &T| #[trigger] f.requires((x,)),
            forall|x: &T, r: bool| f.ensures((x,), r) ==> r == p(*x),
            v@ == orig.subrange(0, i as int) + kept(orig.subrange(i as int, n as int), p),
        decreases i,
    {
        let ghost rest = kept(orig.subrange(i as int, n as int), p);
        let keep = f(&v[i - 1]);
        proof {
            let s = orig.subrange(i - 1, n as int);
            assert(s.subrange(1, s.len() as int) =~= orig.subrange(i as int, n as int));
            assert(s[0] == orig[i - 1]);
        }
        if !keep {
            v.remove(i - 1);
            proof {
                assert(v@ =~= orig.subrange(0, i - 1) + kept(orig.subrange(i - 1, n as int), p));
            }
        } else {
            proof {
                assert(v@ =~= orig.subrange(0, i - 1) + kept(orig.subrange(i - 1, n as int), p));
            }
        }
        i = i - 1;
    }
    proof {
        assert(v@ =~= kept(orig, p)) by {
            assert(orig.subrange(0, n as int) =~= orig);
        }
    }
}

} // verus!
