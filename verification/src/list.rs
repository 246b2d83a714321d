use vstd::prelude::*;

use crate::error::ShapeError;

verus! {

/// A list of symbolic names, the building block for batched shape
/// operations: permutation targets, removal targets, reduction targets.
pub trait TList: Sized {
    /// The sequence of names this value stands for.
    spec fn items(&self) -> Seq<u64>;

    /// How many names the list holds.
    fn length(&self) -> (n: usize)
        ensures
            n == self.items().len(),
    ;
}

impl TList for Vec<u64> {
    open spec fn items(&self) -> Seq<u64> {
        self@
    }

    fn length(&self) -> (n: usize) {
        self.len()
    }
}

/// The position of the first occurrence of `t`, scanning head to tail;
/// `NameNotFound` when `t` is absent.
pub open spec fn spec_list_index_of(s: Seq<u64>, t: u64) -> Result<int, ShapeError>
    decreases s.len(),
{
    if s.len() == 0 {
        Err(ShapeError::NameNotFound(t))
    } else if s[0] == t {
        Ok(0)
    } else {
        match spec_list_index_of(s.skip(1), t) {
            Ok(i) => Ok(i + 1),
            Err(e) => Err(e),
        }
    }
}

/// What `spec_list_index_of` finds: on success the first position carrying
/// the value, on failure the absence of the value.
pub proof fn lemma_list_index_of_props(s: Seq<u64>, t: u64)
    ensures
        match spec_list_index_of(s, t) {
            Ok(i) => 0 <= i < s.len() && s[i] == t && (forall|k: int| 0 <= k < i ==> s[k] != t),
            Err(e) => e == ShapeError::NameNotFound(t) && !s.contains(t),
        },
    decreases s.len(),
{
    if s.len() == 0 {
    } else if s[0] == t {
    } else {
        lemma_list_index_of_props(s.skip(1), t);
        match spec_list_index_of(s.skip(1), t) {
            Ok(i) => {
                assert forall|k: int| 0 <= k < i + 1 implies s[k] != t by {
                    if k > 0 {
                        assert(s.skip(1)[k - 1] != t);
                    }
                }
            },
            Err(_) => {
                assert forall|k: int| 0 <= k < s.len() implies s[k] != t by {
                    if k > 0 {
                        assert(!s.skip(1).contains(t));
                        assert(s.skip(1)[k - 1] != t);
                    }
                }
            },
        }
    }
}

/// The positions of several names, in the order the targets are given;
/// the first absent target decides the error.
pub open spec fn spec_list_indexes_of(s: Seq<u64>, ts: Seq<u64>) -> Result<Seq<int>, ShapeError>
    decreases ts.len(),
{
    if ts.len() == 0 {
        Ok(Seq::empty())
    } else {
        match spec_list_index_of(s, ts[0]) {
            Err(e) => Err(e),
            Ok(i) => match spec_list_indexes_of(s, ts.skip(1)) {
                Err(e) => Err(e),
                Ok(rest) => Ok(seq![i] + rest),
            },
        }
    }
}

/// The position within `ts` of the leftmost target absent from `s`;
/// meaningful only when some target is absent.
pub open spec fn first_absent(s: Seq<u64>, ts: Seq<u64>) -> int
    decreases ts.len(),
{
    if ts.len() == 0 {
        0
    } else if spec_list_index_of(s, ts[0]) is Err {
        0
    } else {
        1 + first_absent(s, ts.skip(1))
    }
}

/// What `spec_list_indexes_of` finds: on success one position per target,
/// each the first occurrence of its target; on failure the leftmost absent
/// target.
pub proof fn lemma_list_indexes_of_props(s: Seq<u64>, ts: Seq<u64>)
    ensures
        match spec_list_indexes_of(s, ts) {
            Ok(ps) => ps.len() == ts.len() && (forall|k: int|
                0 <= k < ts.len() ==> spec_list_index_of(s, ts[k]) == Ok::<int, ShapeError>(
                    ps[k],
                )),
            Err(e) => ({
                let k = first_absent(s, ts);
                0 <= k < ts.len() && spec_list_index_of(s, ts[k]) == Err::<int, ShapeError>(e) && (
                forall|m: int| 0 <= m < k ==> spec_list_index_of(s, ts[m]) is Ok)
            }),
        },
    decreases ts.len(),
{
    if ts.len() == 0 {
    } else {
        lemma_list_indexes_of_props(s, ts.skip(1));
        match spec_list_index_of(s, ts[0]) {
            Err(_) => {},
            Ok(i) => {
                match spec_list_indexes_of(s, ts.skip(1)) {
                    Err(e) => {
                        let k0 = first_absent(s, ts.skip(1));
                        assert(first_absent(s, ts) == 1 + k0);
                        assert(ts[k0 + 1] == ts.skip(1)[k0]);
                        assert forall|m: int| 0 <= m < k0 + 1 implies spec_list_index_of(
                            s,
                            ts[m],
                        ) is Ok by {
                            if m > 0 {
                                assert(ts[m] == ts.skip(1)[m - 1]);
                                assert(spec_list_index_of(s, ts.skip(1)[m - 1]) is Ok);
                            }
                        }
                    },
                    Ok(rest) => {
                        let ps = seq![i] + rest;
                        assert forall|k: int| 0 <= k < ts.len() implies spec_list_index_of(
                            s,
                            ts[k],
                        ) == Ok::<int, ShapeError>(ps[k]) by {
                            if k > 0 {
                                assert(ts[k] == ts.skip(1)[k - 1]);
                                assert(ps[k] == rest[k - 1]);
                            }
                        }
                    },
                }
            },
        }
    }
}

/// The sequence `s` with every position in `ps` struck out; the surviving
/// elements keep their order.
pub open spec fn strip_positions<T>(s: Seq<T>, ps: Seq<int>) -> Seq<T>
    decreases s.len(),
{
    if s.len() == 0 {
        s
    } else if ps.contains(s.len() - 1) {
        strip_positions(s.drop_last(), ps)
    } else {
        strip_positions(s.drop_last(), ps) + seq![s.last()]
    }
}

/// The positions below `len` that `ps` does not hold, in increasing order.
pub open spec fn spec_inverse_positions(len: int, ps: Seq<int>) -> Seq<int>
    recommends
        len >= 0,
{
    strip_positions(Seq::new(len as nat, |i: int| i), ps)
}

/// The view of a vector of positions as mathematical integers.
pub open spec fn to_int_seq(ps: Seq<usize>) -> Seq<int> {
    ps.map_values(|p: usize| p as int)
}

/// Whether a position vector holds the position `i`.
pub(crate) fn contains_position(ps: &Vec<usize>, i: usize) -> (r: bool)
    ensures
        r == to_int_seq(ps@).contains(i as int),
{
    let mut k: usize = 0;
    while k < ps.len()
        invariant
            k <= ps.len(),
            forall|m: int| 0 <= m < k ==> to_int_seq(ps@)[m] != i as int,
        decreases ps.len() - k,
    {
        if ps[k] == i {
            assert(to_int_seq(ps@)[k as int] == i as int);
            return true;
        }
        k = k + 1;
    }
    false
}

/// Prepending a name to a list.
pub trait LPrepend: TList {
    /// The list with `item` placed at the head.  Always succeeds.
    fn prepend(&self, item: u64) -> (r: Self)
        ensures
            r.items() == seq![item] + self.items(),
    ;
}

/// Appending a name to a list.
pub trait LAppend: TList {
    /// The list with `item` placed at the end.  Always succeeds.
    fn append(&self, item: u64) -> (r: Self)
        ensures
            r.items() == self.items().push(item),
    ;
}

/// Inserting a name immediately after a target name.
pub trait LInsertAt: TList {
    /// The list with `item` placed right after the first occurrence of
    /// `target`; `NameNotFound` when `target` is absent.
    fn insert_at(&self, item: u64, target: u64) -> (r: Result<Self, ShapeError>)
        ensures
            match r {
                Ok(v) => spec_list_index_of(self.items(), target) matches Ok(i) && v.items()
                    == self.items().take(i + 1) + seq![item] + self.items().skip(i + 1),
                Err(e) => spec_list_index_of(self.items(), target) == Err::<int, ShapeError>(e),
            },
    ;
}

/// Removing the first occurrence of a target name.
pub trait LRemoveAt: TList {
    /// The list without the first occurrence of `target`; `NameNotFound`
    /// when `target` is absent.
    fn remove_at(&self, target: u64) -> (r: Result<Self, ShapeError>)
        ensures
            match r {
                Ok(v) => spec_list_index_of(self.items(), target) matches Ok(i) && v.items()
                    == self.items().take(i) + self.items().skip(i + 1),
                Err(e) => spec_list_index_of(self.items(), target) == Err::<int, ShapeError>(e),
            },
    ;
}

/// Removing several target names in one operation.
pub trait LRemoveMany: TList {
    /// The list without the targets.  Positions are collected against the
    /// original list first, and the marked elements are struck out in a
    /// second pass; `NameNotFound` names the leftmost absent target.
    fn remove_many(&self, targets: &Self) -> (r: Result<Self, ShapeError>)
        ensures
            match r {
                Ok(v) => spec_list_indexes_of(self.items(), targets.items()) matches Ok(ps)
                    && v.items() == strip_positions(self.items(), ps),
                Err(e) => spec_list_indexes_of(self.items(), targets.items()) == Err::<
                    Seq<int>,
                    ShapeError,
                >(e),
            },
    ;
}

/// Position lookup of one name.
pub trait LIndexOf: TList {
    /// The position of the first occurrence of `target`; `NameNotFound`
    /// when `target` is absent.
    fn index_of(&self, target: u64) -> (r: Result<usize, ShapeError>)
        ensures
            match r {
                Ok(i) => spec_list_index_of(self.items(), target) == Ok::<int, ShapeError>(
                    i as int,
                ),
                Err(e) => spec_list_index_of(self.items(), target) == Err::<int, ShapeError>(e),
            },
    ;
}

/// Position lookup of several names at once.
pub trait LIndexOfMany: TList {
    /// The positions of the targets, in the order the targets are given,
    /// not sorted; `NameNotFound` names the leftmost absent target.
    fn indexes_of(&self, targets: &Self) -> (r: Result<Vec<usize>, ShapeError>)
        ensures
            match r {
                Ok(v) => spec_list_indexes_of(self.items(), targets.items()) matches Ok(ps)
                    && to_int_seq(v@) == ps,
                Err(e) => spec_list_indexes_of(self.items(), targets.items()) == Err::<
                    Seq<int>,
                    ShapeError,
                >(e),
            },
    ;

    /// The positions the targets do not claim, in increasing order;
    /// `NameNotFound` names the leftmost absent target.
    fn inverse_indexes(&self, targets: &Self) -> (r: Result<Vec<usize>, ShapeError>)
        ensures
            match r {
                Ok(v) => spec_list_indexes_of(self.items(), targets.items()) matches Ok(ps)
                    && to_int_seq(v@) == spec_inverse_positions(self.items().len() as int, ps),
                Err(e) => spec_list_indexes_of(self.items(), targets.items()) == Err::<
                    Seq<int>,
                    ShapeError,
                >(e),
            },
    ;
}

/// Reversal with an explicit continuation list.
pub trait LReverseWithTail: TList {
    /// The reversal of the list, followed by `tail`.
    fn reverse_with_tail(&self, tail: &Self) -> (r: Self)
        ensures
            r.items() == self.items().reverse() + tail.items(),
    ;
}

/// Comparison of two lists as unordered collections.
pub trait LSetEqual: TList {
    /// Whether both lists hold the same names the same number of times.
    fn set_equal(&self, other: &Self) -> (r: bool)
        ensures
            r == (self.items().to_multiset() == other.items().to_multiset()),
    ;
}

/// Element-wise comparison of two lists.
pub trait LAssertEqual: TList {
    /// Whether both lists hold the same names in the same order.
    fn assert_equal(&self, other: &Self) -> (r: bool)
        ensures
            r == (self.items() == other.items()),
    ;
}

/// Concatenation of two lists.
pub trait LConcat: TList {
    /// This list followed by `other`.
    fn concat(&self, other: &Self) -> (r: Self)
        ensures
            r.items() == self.items() + other.items(),
    ;
}

impl LPrepend for Vec<u64> {
    fn prepend(&self, item: u64) -> (r: Self) {
        let mut out: Vec<u64> = Vec::new();
        out.push(item);
        let mut i: usize = 0;
        while i < self.len()
            invariant
                i <= self@.len(),
                out@ == seq![item] + self@.take(i as int),
            decreases self@.len() - i,
        {
            out.push(self[i]);
            assert(out@ =~= seq![item] + self@.take(i + 1));
            i = i + 1;
        }
        assert(out@ =~= seq![item] + self@);
        out
    }
}

impl LAppend for Vec<u64> {
    fn append(&self, item: u64) -> (r: Self) {
        let mut out = self.duplicate_names();
        out.push(item);
        out
    }
}

impl LConcat for Vec<u64> {
    fn concat(&self, other: &Self) -> (r: Self) {
        let mut out = self.duplicate_names();
        let mut i: usize = 0;
        while i < other.len()
            invariant
                i <= other@.len(),
                out@ == self@ + other@.take(i as int),
            decreases other@.len() - i,
        {
            out.push(other[i]);
            assert(out@ =~= self@ + other@.take(i + 1));
            i = i + 1;
        }
        assert(out@ =~= self@ + other@);
        out
    }
}

impl LIndexOf for Vec<u64> {
    fn index_of(&self, target: u64) -> (r: Result<usize, ShapeError>) {
        proof {
            lemma_list_index_of_props(self@, target);
        }
        let mut i: usize = 0;
        while i < self.len()
            invariant
                i <= self@.len(),
                forall|k: int| 0 <= k < i ==> self@[k] != target,
                match spec_list_index_of(self@, target) {
                    Ok(j) => 0 <= j < self@.len() && self@[j] == target && (forall|k: int|
                        0 <= k < j ==> self@[k] != target),
                    Err(e) => e == ShapeError::NameNotFound(target) && !self@.contains(target),
                },
            decreases self@.len() - i,
        {
            if self[i] == target {
                proof {
                    match spec_list_index_of(self@, target) {
                        Ok(j) => {
                            if j < i as int {
                                assert(self@[j] != target);
                            }
                            if j > i as int {
                                assert(self@[i as int] != target);
                            }
                        },
                        Err(_) => {
                            assert(self@.contains(target));
                        },
                    }
                }
                return Ok(i);
            }
            i = i + 1;
        }
        proof {
            match spec_list_index_of(self@, target) {
                Ok(j) => {
                    assert(self@[j] != target);
                },
                Err(_) => {},
            }
        }
        Err(ShapeError::NameNotFound(target))
    }
}

impl LInsertAt for Vec<u64> {
    fn insert_at(&self, item: u64, target: u64) -> (r: Result<Self, ShapeError>) {
        let i = match self.index_of(target) {
            Ok(i) => i,
            Err(e) => {
                return Err(e);
            },
        };
        proof {
            lemma_list_index_of_props(self@, target);
        }
        let mut out = self.duplicate_names();
        let n = out.len();
        proof {
            assert(i < n);
        }
        out.insert(i + 1, item);
        proof {
            assert(out@ =~= self@.take(i + 1) + seq![item] + self@.skip(i + 1));
        }
        Ok(out)
    }
}

impl LRemoveAt for Vec<u64> {
    fn remove_at(&self, target: u64) -> (r: Result<Self, ShapeError>) {
        let i = match self.index_of(target) {
            Ok(i) => i,
            Err(e) => {
                return Err(e);
            },
        };
        proof {
            lemma_list_index_of_props(self@, target);
        }
        let mut out = self.duplicate_names();
        out.remove(i);
        proof {
            assert(out@ =~= self@.take(i as int) + self@.skip(i + 1));
        }
        Ok(out)
    }
}

impl LIndexOfMany for Vec<u64> {
    #[verifier::loop_isolation(false)]
    fn indexes_of(&self, targets: &Self) -> (r: Result<Vec<usize>, ShapeError>) {
        proof {
            lemma_list_indexes_of_props(self@, targets@);
        }
        let mut out: Vec<usize> = Vec::new();
        let mut j: usize = 0;
        while j < targets.len()
            invariant
                j <= targets@.len(),
                out@.len() == j,
                forall|k: int| 0 <= k < j ==> spec_list_index_of(self@, targets@[k]) == Ok::<
                    int,
                    ShapeError,
                >(to_int_seq(out@)[k]),
                match spec_list_indexes_of(self@, targets@) {
                    Ok(ps) => ps.len() == targets@.len() && (forall|k: int|
                        0 <= k < targets@.len() ==> spec_list_index_of(self@, targets@[k]) == Ok::<
                            int,
                            ShapeError,
                        >(ps[k])),
                    Err(e) => ({
                        let k = first_absent(self@, targets@);
                        0 <= k < targets@.len() && spec_list_index_of(self@, targets@[k]) == Err::<
                            int,
                            ShapeError,
                        >(e) && (forall|m: int|
                            0 <= m < k ==> spec_list_index_of(self@, targets@[m]) is Ok)
                    }),
                },
            decreases targets@.len() - j,
        {
            match self.index_of(targets[j]) {
                Ok(i) => {
                    out.push(i);
                    assert(to_int_seq(out@) =~= to_int_seq(out@.drop_last()).push(i as int));
                },
                Err(e) => {
                    proof {
                        match spec_list_indexes_of(self@, targets@) {
                            Ok(_) => {
                                assert(spec_list_index_of(self@, targets@[j as int]) is Ok);
                            },
                            Err(_) => {
                                let k = first_absent(self@, targets@);
                                if k < j as int {
                                    assert(spec_list_index_of(self@, targets@[k]) is Ok);
                                }
                                if k > j as int {
                                    assert(spec_list_index_of(self@, targets@[j as int]) is Ok);
                                }
                                assert(k == j as int);
                            },
                        }
                    }
                    return Err(e);
                },
            }
            j = j + 1;
        }
        proof {
            match spec_list_indexes_of(self@, targets@) {
                Ok(ps) => {
                    assert(to_int_seq(out@) =~= ps);
                },
                Err(_) => {
                    let k = first_absent(self@, targets@);
                    assert(spec_list_index_of(self@, targets@[k]) is Ok);
                },
            }
        }
        Ok(out)
    }

    #[verifier::loop_isolation(false)]
    fn inverse_indexes(&self, targets: &Self) -> (r: Result<Vec<usize>, ShapeError>) {
        let ps = match self.indexes_of(targets) {
            Ok(ps) => ps,
            Err(e) => {
                return Err(e);
            },
        };
        let ghost psm = to_int_seq(ps@);
        let mut out: Vec<usize> = Vec::new();
        let mut i: usize = 0;
        while i < self.len()
            invariant
                i <= self@.len(),
                to_int_seq(out@) == strip_positions(Seq::new(i as nat, |k: int| k), psm),
            decreases self@.len() - i,
        {
            let ghost pre = Seq::new(i as nat, |k: int| k);
            let ghost post = Seq::new((i + 1) as nat, |k: int| k);
            proof {
                assert(post.drop_last() =~= pre);
                assert(post.last() == i as int);
            }
            let ghost outpre = out@;
            if !contains_position(&ps, i) {
                out.push(i);
                proof {
                    assert(!psm.contains(post.len() - 1));
                    assert(strip_positions(post, psm) == strip_positions(pre, psm) + seq![
                        i as int,
                    ]);
                    assert(to_int_seq(out@) =~= to_int_seq(outpre) + seq![i as int]);
                }
            } else {
                proof {
                    assert(psm.contains(post.len() - 1));
                    assert(strip_positions(post, psm) == strip_positions(pre, psm));
                }
            }
            i = i + 1;
        }
        proof {
            assert(Seq::new(self@.len(), |k: int| k) =~= Seq::new(i as nat, |k: int| k));
        }
        Ok(out)
    }
}

impl LRemoveMany for Vec<u64> {
    #[verifier::loop_isolation(false)]
    fn remove_many(&self, targets: &Self) -> (r: Result<Self, ShapeError>) {
        let ps = match self.indexes_of(targets) {
            Ok(ps) => ps,
            Err(e) => {
                return Err(e);
            },
        };
        let ghost psm = to_int_seq(ps@);
        let mut out: Vec<u64> = Vec::new();
        let mut i: usize = 0;
        while i < self.len()
            invariant
                i <= self@.len(),
                out@ == strip_positions(self@.take(i as int), psm),
            decreases self@.len() - i,
        {
            let ghost pre = self@.take(i as int);
            let ghost post = self@.take(i + 1);
            proof {
                assert(post.drop_last() =~= pre);
                assert(post.last() == self@[i as int]);
            }
            let ghost outpre = out@;
            if !contains_position(&ps, i) {
                out.push(self[i]);
                proof {
                    assert(!psm.contains(post.len() - 1));
                    assert(strip_positions(post, psm) == strip_positions(pre, psm) + seq![
                        self@[i as int],
                    ]);
                    assert(out@ =~= outpre + seq![self@[i as int]]);
                }
            } else {
                proof {
                    assert(psm.contains(post.len() - 1));
                    assert(strip_positions(post, psm) == strip_positions(pre, psm));
                }
            }
            i = i + 1;
        }
        proof {
            assert(self@.take(self@.len() as int) =~= self@);
        }
        Ok(out)
    }
}

impl LReverseWithTail for Vec<u64> {
    fn reverse_with_tail(&self, tail: &Self) -> (r: Self) {
        let mut out: Vec<u64> = Vec::new();
        let mut i: usize = self.len();
        while i > 0
            invariant
                i <= self@.len(),
                out@ == self@.skip(i as int).reverse(),
            decreases i,
        {
            i = i - 1;
            out.push(self[i]);
            proof {
                assert(out@ =~= self@.skip(i as int).reverse());
            }
        }
        proof {
            assert(self@.skip(0) =~= self@);
        }
        let mut i: usize = 0;
        while i < tail.len()
            invariant
                i <= tail@.len(),
                out@ == self@.reverse() + tail@.take(i as int),
            decreases tail@.len() - i,
        {
            out.push(tail[i]);
            assert(out@ =~= self@.reverse() + tail@.take(i + 1));
            i = i + 1;
        }
        assert(out@ =~= self@.reverse() + tail@);
        out
    }
}

impl LAssertEqual for Vec<u64> {
    fn assert_equal(&self, other: &Self) -> (r: bool) {
        if self.len() != other.len() {
            proof {
                assert(self@.len() != other@.len());
            }
            return false;
        }
        let mut i: usize = 0;
        while i < self.len()
            invariant
                i <= self@.len(),
                self@.len() == other@.len(),
                forall|k: int| 0 <= k < i ==> self@[k] == other@[k],
            decreases self@.len() - i,
        {
            if self[i] != other[i] {
                return false;
            }
            i = i + 1;
        }
        proof {
            assert(self@ =~= other@);
        }
        true
    }
}

impl LSetEqual for Vec<u64> {
    #[verifier::loop_isolation(false)]
    fn set_equal(&self, other: &Self) -> (r: bool) {
        broadcast use vstd::seq_lib::group_to_multiset_ensures;
        broadcast use vstd::multiset::group_multiset_axioms;

        let mut scratch = self.duplicate_names();
        let mut j: usize = 0;
        while j < other.len()
            invariant
                j <= other@.len(),
                scratch@.to_multiset().add(other@.take(j as int).to_multiset())
                    == self@.to_multiset(),
            decreases other@.len() - j,
        {
            let t = other[j];
            proof {
                assert(other@.take(j + 1) =~= other@.take(j as int).push(t));
            }
            let mut found: bool = false;
            let mut pos: usize = 0;
            let mut k: usize = 0;
            while k < scratch.len() && !found
                invariant
                    k <= scratch@.len(),
                    !found ==> forall|m: int| 0 <= m < k ==> scratch@[m] != t,
                    found ==> pos < scratch@.len() && scratch@[pos as int] == t,
                decreases scratch@.len() - k, (if found { 0int } else { 1int }),
            {
                if scratch[k] == t {
                    found = true;
                    pos = k;
                } else {
                    k = k + 1;
                }
            }
            if found {
                let ghost pre = scratch@;
                scratch.remove(pos);
                proof {
                    assert(pre.contains(t));
                    assert(pre.to_multiset().count(t) > 0);
                    assert(pre.remove(pos as int).to_multiset() == pre.to_multiset().remove(t));
                    assert(other@.take(j as int).push(t).to_multiset() =~= other@.take(
                        j as int,
                    ).to_multiset().insert(t));
                    assert(other@.take(j + 1).to_multiset() == other@.take(
                        j as int,
                    ).to_multiset().insert(t));
                    assert(scratch@.to_multiset().add(other@.take(j + 1).to_multiset()) =~= self@
                        .to_multiset());
                }
            } else {
                proof {
                    assert(!scratch@.contains(t));
                    assert(scratch@.to_multiset().count(t) == 0);
                    assert(other@.take(j + 1).to_multiset().count(t) == other@.take(
                        j as int,
                    ).to_multiset().count(t) + 1);
                    assert(self@.to_multiset().count(t) == other@.take(
                        j as int,
                    ).to_multiset().count(t));
                    assert(other@.to_multiset().count(t) >= other@.take(j + 1).to_multiset().count(
                        t,
                    )) by {
                        lemma_take_multiset_le(other@, j + 1, t);
                    }
                    assert(self@.to_multiset().count(t) != other@.to_multiset().count(t));
                }
                return false;
            }
            j = j + 1;
        }
        proof {
            assert(other@.take(other@.len() as int) =~= other@);
        }
        if scratch.len() == 0 {
            proof {
                assert(scratch@ =~= Seq::<u64>::empty());
                assert(scratch@.to_multiset().len() == 0);
                vstd::multiset::lemma_multiset_empty_len(scratch@.to_multiset());
                assert(scratch@.to_multiset().add(other@.to_multiset()) =~= other@.to_multiset());
            }
            true
        } else {
            proof {
                assert(self@.to_multiset().len() == scratch@.to_multiset().len()
                    + other@.to_multiset().len());
                assert(scratch@.to_multiset().len() == scratch@.len());
                assert(self@.to_multiset() != other@.to_multiset());
            }
            false
        }
    }
}

/// Any prefix of a sequence holds at most as many copies of a value as the
/// whole sequence.
proof fn lemma_take_multiset_le(s: Seq<u64>, n: int, t: u64)
    requires
        0 <= n <= s.len(),
    ensures
        s.to_multiset().count(t) >= s.take(n).to_multiset().count(t),
    decreases s.len() - n,
{
    broadcast use vstd::seq_lib::group_to_multiset_ensures;

    if n == s.len() {
        assert(s.take(n) =~= s);
    } else {
        lemma_take_multiset_le(s, n + 1, t);
        assert(s.take(n + 1) =~= s.take(n).push(s[n]));
    }
}

/// A plain element-wise copy.
pub(crate) trait DuplicateNames: Sized + View {
    /// A copy of this vector.
    fn duplicate_names(&self) -> (r: Self)
        ensures
            r@ == self@,
    ;
}

impl DuplicateNames for Vec<u64> {
    fn duplicate_names(&self) -> (r: Self) {
        let mut out: Vec<u64> = Vec::new();
        let mut i: usize = 0;
        while i < self.len()
            invariant
                i <= self@.len(),
                out@ == self@.take(i as int),
            decreases self@.len() - i,
        {
            out.push(self[i]);
            assert(out@ =~= self@.take(i + 1));
            i = i + 1;
        }
        assert(out@ =~= self@);
        out
    }
}

} // verus!
