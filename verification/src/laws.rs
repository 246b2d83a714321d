use vstd::prelude::*;

use crate::broadcast::{spec_axis_unify, spec_unify, spec_unify_rev};
use crate::dim::{has_dim, lemma_index_of_props, names_of, spec_index_of, wf_dims, Axis};
use crate::edit::{has_duplicate, spec_insert_at, spec_permute};
use crate::error::ShapeError;
use crate::flatten::{flat_size, run_known, run_prod, spec_flatten_positions};
use crate::list::{
    first_absent, lemma_list_index_of_props, lemma_list_indexes_of_props, spec_list_indexes_of,
};
use crate::size::Size;

verus! {

/// Permuting a shape by its own names, in their original order, returns
/// the shape unchanged, with the identity permutation vector.
pub proof fn lemma_permute_identity(s: Seq<Axis>)
    requires
        wf_dims(s),
    ensures
        spec_permute(s, names_of(s)) == Ok::<(Seq<Axis>, Seq<int>), ShapeError>(
            (s, Seq::new(s.len(), |k: int| k)),
        ),
{
    let ns = names_of(s);
    assert(ns.len() == s.len());
    lemma_list_indexes_of_props(ns, ns);
    match spec_list_indexes_of(ns, ns) {
        Err(_) => {
            let k = first_absent(ns, ns);
            lemma_list_index_of_props(ns, ns[k]);
            assert(false);
        },
        Ok(ps) => {
            assert forall|k: int| 0 <= k < s.len() implies ps[k] == k by {
                lemma_list_index_of_props(ns, ns[k]);
                if ps[k] < k {
                    assert(ns[ps[k]] == ns[k]);
                    assert(s[ps[k]].name == s[k].name);
                    assert(false);
                }
                if ps[k] > k {
                    assert(ns[k] != ns[k]);
                }
            }
            assert(!has_duplicate(ps)) by {
                assert forall|i: int, j: int| 0 <= i < j < ps.len() implies ps[i] != ps[j] by {
                    assert(ps[i] == i && ps[j] == j);
                }
            }
            assert(ps =~= Seq::new(s.len(), |k: int| k));
            assert(Seq::new(s.len(), |k: int| s[ps[k]]) =~= s);
        },
    }
}

/// After removing a named axis the name resolves no longer, and placing
/// the removed axis back at its reported position restores the original
/// shape.
pub proof fn lemma_remove_round_trip(s: Seq<Axis>, n: u64)
    requires
        wf_dims(s),
        has_dim(s, n),
    ensures
        spec_index_of(s, n) is Ok,
        ({
            let i = spec_index_of(s, n).unwrap();
            let rest = s.take(i) + s.skip(i + 1);
            spec_index_of(rest, n) == Err::<int, ShapeError>(ShapeError::NameNotFound(n))
                && spec_insert_at(rest, i, s[i]) == s
        }),
{
    lemma_index_of_props(s, n);
    let i = spec_index_of(s, n).unwrap();
    let rest = s.take(i) + s.skip(i + 1);
    lemma_index_of_props(rest, n);
    match spec_index_of(rest, n) {
        Ok(j) => {
            assert(rest[j].name == n);
            if j < i {
                assert(rest[j] == s[j]);
                assert(s[j].name == s[i].name);
                assert(false);
            } else {
                assert(rest[j] == s[j + 1]);
                assert(s[j + 1].name == s[i].name);
                assert(false);
            }
        },
        Err(_) => {},
    }
    assert(rest.take(i) =~= s.take(i));
    assert(rest.skip(i) =~= s.skip(i + 1));
    assert(spec_insert_at(rest, i, s[i]) =~= s);
}

/// Flattening a contiguous run leaves one axis whose size is the product
/// of the run's known sizes, and an unknown size anywhere in the run
/// poisons the product.
pub proof fn lemma_flatten_run_size(s: Seq<Axis>, nm: u64, b: int, e: int)
    requires
        0 <= b <= e < s.len(),
    ensures
        ({
            let run = s.subrange(b, e + 1);
            let out = spec_flatten_positions(s, nm, b, e);
            out.len() == s.len() - (e - b) && out[b] == Axis { name: nm, size: flat_size(run) }
                && (run_known(run) ==> flat_size(run) == Size::Known(run_prod(run) as u64)) && ((
            exists|k: int| 0 <= k < run.len() && run[k].size is Unknown) ==> flat_size(run)
                == Size::Unknown)
        }),
{
    let run = s.subrange(b, e + 1);
    let out = spec_flatten_positions(s, nm, b, e);
    assert(out[b] == Axis { name: nm, size: flat_size(run) });
    if exists|k: int| 0 <= k < run.len() && run[k].size is Unknown {
        let k = choose|k: int| 0 <= k < run.len() && run[k].size is Unknown;
        assert(!run_known(run));
    }
}

proof fn lemma_unify_rev_self(s: Seq<Axis>)
    ensures
        spec_unify_rev(s, s) == Some(s),
    decreases s.len(),
{
    if s.len() == 0 {
    } else {
        assert(spec_axis_unify(s[0], s[0]) == Some(s[0]));
        lemma_unify_rev_self(s.skip(1));
        assert(seq![s[0]] + s.skip(1) =~= s);
    }
}

/// Broadcasting a shape against itself returns the shape unchanged.
pub proof fn lemma_broadcast_identity(s: Seq<Axis>)
    ensures
        spec_unify(s, s) == Some(s),
{
    lemma_unify_rev_self(s.reverse());
    assert(s.reverse().reverse() =~= s);
}

/// Broadcasting a shape against the scalar shape returns the shape
/// unchanged, on either side.
pub proof fn lemma_broadcast_scalar(s: Seq<Axis>)
    ensures
        spec_unify(s, Seq::<Axis>::empty()) == Some(s),
        spec_unify(Seq::<Axis>::empty(), s) == Some(s),
{
    assert(Seq::<Axis>::empty().reverse() =~= Seq::<Axis>::empty());
    assert(s.reverse().reverse() =~= s);
    if s.len() == 0 {
    } else {
        assert(spec_unify_rev(s.reverse(), Seq::<Axis>::empty()) == Some(s.reverse()));
        assert(spec_unify_rev(Seq::<Axis>::empty(), s.reverse()) == Some(s.reverse()));
    }
}

proof fn lemma_unify_rev_sym(a: Seq<Axis>, b: Seq<Axis>)
    ensures
        spec_unify_rev(a, b) == spec_unify_rev(b, a),
    decreases a.len() + b.len(),
{
    if a.len() == 0 || b.len() == 0 {
    } else {
        assert(spec_axis_unify(a[0], b[0]) == spec_axis_unify(b[0], a[0]));
        lemma_unify_rev_sym(a.skip(1), b.skip(1));
    }
}

/// Broadcasting does not depend on the order of its operands.
pub proof fn lemma_broadcast_symmetry(a: Seq<Axis>, b: Seq<Axis>)
    ensures
        spec_unify(a, b) == spec_unify(b, a),
{
    lemma_unify_rev_sym(a.reverse(), b.reverse());
}

proof fn lemma_axis_unify_three(x: Axis, y: Axis, z: Axis)
    requires
        spec_axis_unify(x, y) is Some,
        spec_axis_unify(y, z) is Some,
        spec_axis_unify(x, z) is Some,
    ensures
        spec_axis_unify(spec_axis_unify(x, y).unwrap(), z) is Some,
        spec_axis_unify(x, spec_axis_unify(y, z).unwrap()) is Some,
        spec_axis_unify(spec_axis_unify(x, y).unwrap(), z) == spec_axis_unify(
            x,
            spec_axis_unify(y, z).unwrap(),
        ),
{
}

proof fn lemma_unify_rev_assoc(a: Seq<Axis>, b: Seq<Axis>, c: Seq<Axis>)
    requires
        spec_unify_rev(a, b) is Some,
        spec_unify_rev(b, c) is Some,
        spec_unify_rev(a, c) is Some,
    ensures
        spec_unify_rev(spec_unify_rev(a, b).unwrap(), c) is Some,
        spec_unify_rev(a, spec_unify_rev(b, c).unwrap()) is Some,
        spec_unify_rev(spec_unify_rev(a, b).unwrap(), c) == spec_unify_rev(
            a,
            spec_unify_rev(b, c).unwrap(),
        ),
    decreases a.len() + b.len() + c.len(),
{
    if a.len() == 0 {
    } else if b.len() == 0 {
    } else if c.len() == 0 {
    } else {
        let x = a[0];
        let y = b[0];
        let z = c[0];
        let xy = spec_axis_unify(x, y).unwrap();
        let yz = spec_axis_unify(y, z).unwrap();
        let t_ab = spec_unify_rev(a.skip(1), b.skip(1)).unwrap();
        let t_bc = spec_unify_rev(b.skip(1), c.skip(1)).unwrap();
        assert(spec_unify_rev(a, b) == Some(seq![xy] + t_ab));
        assert(spec_unify_rev(b, c) == Some(seq![yz] + t_bc));
        assert((seq![xy] + t_ab)[0] == xy);
        assert((seq![xy] + t_ab).skip(1) =~= t_ab);
        assert((seq![yz] + t_bc)[0] == yz);
        assert((seq![yz] + t_bc).skip(1) =~= t_bc);
        assert((seq![xy] + t_ab).len() != 0);
        assert((seq![yz] + t_bc).len() != 0);
        lemma_axis_unify_three(x, y, z);
        lemma_unify_rev_assoc(a.skip(1), b.skip(1), c.skip(1));
    }
}

/// Broadcasting three shapes gives one outcome in either association, and
/// both associations are defined, whenever all pairwise unifications
/// succeed.
pub proof fn lemma_broadcast_assoc(a: Seq<Axis>, b: Seq<Axis>, c: Seq<Axis>)
    requires
        spec_unify(a, b) is Some,
        spec_unify(b, c) is Some,
        spec_unify(a, c) is Some,
    ensures
        spec_unify(spec_unify(a, b).unwrap(), c) is Some,
        spec_unify(a, spec_unify(b, c).unwrap()) is Some,
        spec_unify(spec_unify(a, b).unwrap(), c) == spec_unify(a, spec_unify(b, c).unwrap()),
{
    let ar = a.reverse();
    let br = b.reverse();
    let cr = c.reverse();
    let u_ab = spec_unify_rev(ar, br).unwrap();
    let u_bc = spec_unify_rev(br, cr).unwrap();
    assert(spec_unify(a, b).unwrap() == u_ab.reverse());
    assert(spec_unify(b, c).unwrap() == u_bc.reverse());
    assert(u_ab.reverse().reverse() =~= u_ab);
    assert(u_bc.reverse().reverse() =~= u_bc);
    lemma_unify_rev_assoc(ar, br, cr);
}

} // verus!
