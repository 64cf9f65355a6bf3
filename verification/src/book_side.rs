//! One side of an order book: price levels kept sorted by price.

use vstd::prelude::*;

verus! {

/// Largest magnitude a price or quantity may have, in units of `10^-8`.
pub const MAX_UNITS: i128 = 10_000_000_000_000_000_000_000_000_000;

/// Levels strictly ascending by price, every quantity positive, every value
/// within `MAX_UNITS`.
pub open spec fn sorted_levels(s: Seq<(i128, i128)>) -> bool {
    &&& forall|i: int, j: int| 0 <= i < j < s.len() ==> (#[trigger] s[i]).0 < (#[trigger] s[j]).0
    &&& forall|i: int|
        0 <= i < s.len() ==> {
            &&& 0 < (#[trigger] s[i]).1 < MAX_UNITS
            &&& -MAX_UNITS < s[i].0 < MAX_UNITS
        }
}

/// The map from price to quantity that a level sequence holds.
pub open spec fn levels_map(s: Seq<(i128, i128)>) -> Map<int, int> {
    Map::new(
        |k: int| exists|i: int| 0 <= i < s.len() && (#[trigger] s[i]).0 == k,
        |k: int| s[choose|i: int| 0 <= i < s.len() && (#[trigger] s[i]).0 == k].1 as int,
    )
}

pub open spec fn sum_quantities(s: Seq<(i128, i128)>) -> int
    decreases s.len(),
{
    if s.len() == 0 {
        0
    } else {
        sum_quantities(s.drop_last()) + s.last().1
    }
}

pub proof fn lemma_levels_map_at(s: Seq<(i128, i128)>, i: int)
    requires
        sorted_levels(s),
        0 <= i < s.len(),
    ensures
        levels_map(s).contains_key(s[i].0 as int),
        levels_map(s)[s[i].0 as int] == s[i].1 as int,
{
    let k = s[i].0 as int;
    assert(exists|j: int| 0 <= j < s.len() && (#[trigger] s[j]).0 == k);
    let j = choose|j: int| 0 <= j < s.len() && (#[trigger] s[j]).0 == k;
    if j < i {
        assert(s[j].0 < s[i].0);
    } else if i < j {
        assert(s[i].0 < s[j].0);
    }
}

pub proof fn lemma_levels_map_absent(s: Seq<(i128, i128)>, k: int)
    requires
        forall|i: int| 0 <= i < s.len() ==> (#[trigger] s[i]).0 != k,
    ensures
        !levels_map(s).contains_key(k),
{
}

/// One side of the book. Its view maps each price to its quantity.
#[derive(Debug)]
pub struct BookSide {
    levels: Vec<(i128, i128)>,
}

impl View for BookSide {
    type V = Map<int, int>;

    closed spec fn view(&self) -> Map<int, int> {
        levels_map(self.levels@)
    }
}

impl BookSide {
    #[verifier::type_invariant]
    closed spec fn inv(self) -> bool {
        sorted_levels(self.levels@)
    }

    /// The levels in ascending price order.
    pub closed spec fn levels(self) -> Seq<(i128, i128)> {
        self.levels@
    }

    /// The levels in ascending price order, each quantity positive.
    pub fn to_vec(&self) -> (r: Vec<(i128, i128)>)
        ensures
            r@ == self.levels(),
            sorted_levels(r@),
            levels_map(r@) == self@,
    {
        proof {
            use_type_invariant(self);
        }
        let mut out: Vec<(i128, i128)> = Vec::new();
        let mut i: usize = 0;
        while i < self.levels.len()
            invariant
                i <= self.levels@.len(),
                out@ == self.levels@.subrange(0, i as int),
            decreases self.levels@.len() - i,
        {
            out.push(self.levels[i]);
            proof {
                assert(out@ =~= self.levels@.subrange(0, i + 1));
            }
            i = i + 1;
        }
        proof {
            assert(out@ =~= self.levels@);
        }
        out
    }

    /// A copy of the side.
    pub fn duplicate(&self) -> (r: Self)
        ensures
            r@ == self@,
            r.levels() == self.levels(),
    {
        proof {
            use_type_invariant(self);
        }
        let levels = self.to_vec();
        BookSide { levels }
    }

    /// An empty side.
    pub fn new() -> (r: Self)
        ensures
            r@ == Map::<int, int>::empty(),
            r.levels().len() == 0,
    {
        let r = BookSide { levels: Vec::new() };
        assert(r@ =~= Map::<int, int>::empty());
        r
    }

    /// Number of price levels.
    pub fn len(&self) -> (r: usize)
        ensures
            r == self.levels().len(),
            r == self@.len(),
    {
        proof {
            use_type_invariant(self);
            lemma_map_finite(self.levels@);
        }
        self.levels.len()
    }

    pub fn is_empty(&self) -> (r: bool)
        ensures
            r == (self@ == Map::<int, int>::empty()),
    {
        proof {
            use_type_invariant(self);
            if self.levels@.len() > 0 {
                lemma_levels_map_at(self.levels@, 0);
            } else {
                assert(self@ =~= Map::<int, int>::empty());
            }
        }
        self.levels.len() == 0
    }

    /// The level at a position in ascending price order.
    pub fn level(&self, i: usize) -> (r: (i128, i128))
        requires
            i < self.levels().len(),
        ensures
            r == self.levels()[i as int],
    {
        self.levels[i]
    }

    /// The quantity resting at a price, if any.
    pub fn get(&self, price: i128) -> (r: Option<i128>)
        ensures
            match r {
                Some(q) => self@.contains_key(price as int) && self@[price as int] == q && 0 < q
                    < MAX_UNITS,
                None => !self@.contains_key(price as int),
            },
    {
        proof {
            use_type_invariant(self);
        }
        let mut i: usize = 0;
        while i < self.levels.len()
            invariant
                sorted_levels(self.levels@),
                i <= self.levels@.len(),
                forall|j: int| 0 <= j < i ==> (#[trigger] self.levels@[j]).0 != price,
            decreases self.levels@.len() - i,
        {
            if self.levels[i].0 == price {
                proof {
                    lemma_levels_map_at(self.levels@, i as int);
                }
                return Some(self.levels[i].1);
            }
            i = i + 1;
        }
        proof {
            lemma_levels_map_absent(self.levels@, price as int);
        }
        None
    }

    /// The highest price on this side.
    pub fn highest(&self) -> (r: Option<i128>)
        ensures
            match r {
                Some(p) => self@.contains_key(p as int) && -MAX_UNITS < p < MAX_UNITS && forall|k: int|
                    #[trigger] self@.contains_key(k) ==> k <= p,
                None => self@ == Map::<int, int>::empty(),
            },
    {
        proof {
            use_type_invariant(self);
        }
        let n = self.levels.len();
        if n == 0 {
            proof {
                assert(self@ =~= Map::<int, int>::empty());
            }
            None
        } else {
            let p = self.levels[n - 1].0;
            proof {
                let s = self.levels@;
                lemma_levels_map_at(s, n - 1);
                assert forall|k: int| #[trigger] self@.contains_key(k) implies k <= p by {
                    let i = choose|i: int| 0 <= i < s.len() && (#[trigger] s[i]).0 == k;
                    if i < n - 1 {
                        assert(s[i].0 < s[n - 1].0);
                    }
                }
            }
            Some(p)
        }
    }

    /// The lowest price on this side.
    pub fn lowest(&self) -> (r: Option<i128>)
        ensures
            match r {
                Some(p) => self@.contains_key(p as int) && -MAX_UNITS < p < MAX_UNITS && forall|k: int|
                    #[trigger] self@.contains_key(k) ==> p <= k,
                None => self@ == Map::<int, int>::empty(),
            },
    {
        proof {
            use_type_invariant(self);
        }
        let n = self.levels.len();
        if n == 0 {
            proof {
                assert(self@ =~= Map::<int, int>::empty());
            }
            None
        } else {
            let p = self.levels[0].0;
            proof {
                let s = self.levels@;
                lemma_levels_map_at(s, 0);
                assert forall|k: int| #[trigger] self@.contains_key(k) implies p <= k by {
                    let i = choose|i: int| 0 <= i < s.len() && (#[trigger] s[i]).0 == k;
                    if 0 < i {
                        assert(s[0].0 < s[i].0);
                    }
                }
            }
            Some(p)
        }
    }

    /// Sets the quantity at a price, returning the quantity it replaced.
    pub fn insert(&mut self, price: i128, quantity: i128) -> (r: Option<i128>)
        requires
            0 < quantity < MAX_UNITS,
            -MAX_UNITS < price < MAX_UNITS,
        ensures
            final(self)@ == old(self)@.insert(price as int, quantity as int),
            match r {
                Some(q) => old(self)@.contains_key(price as int) && old(self)@[price as int] == q,
                None => !old(self)@.contains_key(price as int),
            },
    {
        proof {
            use_type_invariant(&*self);
        }
        let ghost s0 = self.levels@;
        let n = self.levels.len();
        let mut i: usize = 0;
        while i < n && self.levels[i].0 < price
            invariant
                n == self.levels@.len(),
                s0 == self.levels@,
                sorted_levels(s0),
                i <= n,
                forall|j: int| 0 <= j < i ==> (#[trigger] s0[j]).0 < price,
            decreases n - i,
        {
            i = i + 1;
        }
        if i < n && self.levels[i].0 == price {
            let old_q = self.levels[i].1;
            let ghost s1 = s0.update(i as int, (price, quantity));
            proof {
                lemma_levels_map_at(s0, i as int);
                assert(sorted_levels(s1)) by {
                    assert forall|a: int, b: int| 0 <= a < b < s1.len() implies (
                    #[trigger] s1[a]).0 < (#[trigger] s1[b]).0 by {
                        assert(s0[a].0 < s0[b].0);
                    }
                }
                lemma_insert_map(s0, s1, i as int, price, quantity);
            }
            let mut v: Vec<(i128, i128)> = Vec::new();
            std::mem::swap(&mut v, &mut self.levels);
            v.set(i, (price, quantity));
            proof {
                assert(v@ == s1);
            }
            self.levels = v;
            Some(old_q)
        } else {
            let ghost s1 = s0.insert(i as int, (price, quantity));
            proof {
                assert forall|j: int| 0 <= j < s0.len() implies (#[trigger] s0[j]).0 != price by {
                    if j >= i {
                        if j > i {
                            assert(s0[i as int].0 < s0[j].0);
                        }
                    }
                }
                lemma_levels_map_absent(s0, price as int);
                assert(sorted_levels(s1)) by {
                    assert forall|a: int, b: int| 0 <= a < b < s1.len() implies (
                    #[trigger] s1[a]).0 < (#[trigger] s1[b]).0 by {
                        if b < i {
                            assert(s0[a].0 < s0[b].0);
                        } else if b == i {
                            assert(s0[a].0 < price);
                        } else if a < i {
                            assert(s1[b] == s0[b - 1]);
                            if a < b - 1 {
                                assert(s0[a].0 < s0[b - 1].0);
                            }
                        } else if a == i {
                            assert(s1[b] == s0[b - 1]);
                            if b - 1 > i {
                                assert(s0[i as int].0 < s0[b - 1].0);
                            }
                        } else {
                            assert(s0[a - 1].0 < s0[b - 1].0);
                        }
                    }
                }
                lemma_insert_new_map(s0, s1, i as int, price, quantity);
            }
            let mut v: Vec<(i128, i128)> = Vec::new();
            std::mem::swap(&mut v, &mut self.levels);
            v.insert(i, (price, quantity));
            proof {
                assert(v@ == s1);
            }
            self.levels = v;
            None
        }
    }

    /// Removes the level at a price, returning its quantity.
    pub fn remove(&mut self, price: i128) -> (r: Option<i128>)
        ensures
            final(self)@ == old(self)@.remove(price as int),
            match r {
                Some(q) => old(self)@.contains_key(price as int) && old(self)@[price as int] == q,
                None => !old(self)@.contains_key(price as int),
            },
    {
        proof {
            use_type_invariant(&*self);
        }
        let ghost s0 = self.levels@;
        let n = self.levels.len();
        let mut i: usize = 0;
        while i < n && self.levels[i].0 != price
            invariant
                n == self.levels@.len(),
                s0 == self.levels@,
                sorted_levels(s0),
                i <= n,
                forall|j: int| 0 <= j < i ==> (#[trigger] s0[j]).0 != price,
            decreases n - i,
        {
            i = i + 1;
        }
        if i < n {
            let ghost s1 = s0.remove(i as int);
            proof {
                lemma_levels_map_at(s0, i as int);
                assert(sorted_levels(s1)) by {
                    assert forall|a: int, b: int| 0 <= a < b < s1.len() implies (
                    #[trigger] s1[a]).0 < (#[trigger] s1[b]).0 by {
                        if b < i {
                            assert(s0[a].0 < s0[b].0);
                        } else if a < i {
                            assert(s0[a].0 < s0[b + 1].0);
                        } else {
                            assert(s0[a + 1].0 < s0[b + 1].0);
                        }
                    }
                }
                lemma_remove_map(s0, s1, i as int);
            }
            let mut v: Vec<(i128, i128)> = Vec::new();
            std::mem::swap(&mut v, &mut self.levels);
            let removed = v.remove(i);
            proof {
                assert(v@ == s1);
            }
            self.levels = v;
            Some(removed.1)
        } else {
            proof {
                lemma_levels_map_absent(s0, price as int);
                assert(old(self)@.remove(price as int) =~= old(self)@);
            }
            None
        }
    }

    /// Removes every level.
    pub fn clear(&mut self)
        ensures
            final(self)@ == Map::<int, int>::empty(),
    {
        self.levels = Vec::new();
        proof {
            assert(self@ =~= Map::<int, int>::empty());
        }
    }

    /// Sum of all quantities, or `None` when it does not fit in an `i128`.
    pub fn total_quantity(&self) -> (r: Option<i128>)
        ensures
            match r {
                Some(t) => t == sum_quantities(self.levels()),
                None => sum_quantities(self.levels()) > i128::MAX,
            },
    {
        proof {
            use_type_invariant(self);
        }
        let mut total: i128 = 0;
        let mut i: usize = 0;
        while i < self.levels.len()
            invariant
                sorted_levels(self.levels@),
                i <= self.levels@.len(),
                total == sum_quantities(self.levels@.subrange(0, i as int)),
                0 <= total,
            decreases self.levels@.len() - i,
        {
            let q = self.levels[i].1;
            proof {
                let t = self.levels@.subrange(0, i + 1);
                assert(t.drop_last() =~= self.levels@.subrange(0, i as int));
            }
            if total > i128::MAX - q {
                proof {
                    lemma_sum_grows(self.levels@, (i + 1) as int);
                }
                return None;
            }
            total = total + q;
            i = i + 1;
        }
        proof {
            assert(self.levels@.subrange(0, i as int) =~= self.levels@);
        }
        Some(total)
    }
}

proof fn lemma_sum_grows(s: Seq<(i128, i128)>, k: int)
    requires
        sorted_levels(s),
        0 <= k <= s.len(),
    ensures
        sum_quantities(s.subrange(0, k)) <= sum_quantities(s),
    decreases s.len() - k,
{
    if k < s.len() {
        lemma_sum_grows(s, k + 1);
        let t = s.subrange(0, k + 1);
        assert(t.drop_last() =~= s.subrange(0, k));
    } else {
        assert(s.subrange(0, k) =~= s);
    }
}

proof fn lemma_map_finite(s: Seq<(i128, i128)>)
    requires
        sorted_levels(s),
    ensures
        levels_map(s).dom().finite(),
        levels_map(s).len() == s.len(),
    decreases s.len(),
{
    let m = levels_map(s);
    if s.len() == 0 {
        assert(m.dom() =~= Set::<int>::empty());
    } else {
        let t = s.drop_last();
        assert(sorted_levels(t)) by {
            assert forall|a: int, b: int| 0 <= a < b < t.len() implies (#[trigger] t[a]).0 < (
            #[trigger] t[b]).0 by {
                assert(s[a].0 < s[b].0);
            }
        }
        lemma_map_finite(t);
        let last = s.last().0 as int;
        assert forall|j: int| 0 <= j < t.len() implies (#[trigger] t[j]).0 != last by {
            assert(s[j].0 < s[s.len() - 1].0);
        }
        lemma_levels_map_absent(t, last);
        assert(m.dom() =~= levels_map(t).dom().insert(last)) by {
            assert forall|k: int| m.dom().contains(k) <==> levels_map(t).dom().insert(last).contains(
                k,
            ) by {
                if m.dom().contains(k) {
                    let i = choose|i: int| 0 <= i < s.len() && (#[trigger] s[i]).0 == k;
                    if i < s.len() - 1 {
                        assert(t[i] == s[i]);
                    }
                }
                if levels_map(t).dom().contains(k) {
                    let i = choose|i: int| 0 <= i < t.len() && (#[trigger] t[i]).0 == k;
                    assert(s[i] == t[i]);
                }
                if k == last {
                    assert(s[s.len() - 1].0 == k);
                }
            }
        }
    }
}

proof fn lemma_insert_map(
    s0: Seq<(i128, i128)>,
    s1: Seq<(i128, i128)>,
    i: int,
    price: i128,
    quantity: i128,
)
    requires
        sorted_levels(s0),
        sorted_levels(s1),
        0 <= i < s0.len(),
        s0[i].0 == price,
        s1 == s0.update(i, (price, quantity)),
    ensures
        levels_map(s1) == levels_map(s0).insert(price as int, quantity as int),
{
    let m0 = levels_map(s0);
    let m1 = levels_map(s1);
    let m = m0.insert(price as int, quantity as int);
    assert forall|k: int| m1.contains_key(k) <==> m.contains_key(k) by {
        if m1.contains_key(k) {
            let j = choose|j: int| 0 <= j < s1.len() && (#[trigger] s1[j]).0 == k;
            if j != i {
                lemma_levels_map_at(s0, j);
            }
        }
        if m0.contains_key(k) {
            let j = choose|j: int| 0 <= j < s0.len() && (#[trigger] s0[j]).0 == k;
            lemma_levels_map_at(s1, j);
        }
        if k == price {
            lemma_levels_map_at(s1, i);
        }
    }
    assert forall|k: int| #[trigger] m1.contains_key(k) implies m1[k] == m[k] by {
        let j = choose|j: int| 0 <= j < s1.len() && (#[trigger] s1[j]).0 == k;
        lemma_levels_map_at(s1, j);
        if j != i {
            lemma_levels_map_at(s0, j);
        }
    }
    assert(m1 =~= m);
}

proof fn lemma_insert_new_map(
    s0: Seq<(i128, i128)>,
    s1: Seq<(i128, i128)>,
    i: int,
    price: i128,
    quantity: i128,
)
    requires
        sorted_levels(s0),
        sorted_levels(s1),
        0 <= i <= s0.len(),
        !levels_map(s0).contains_key(price as int),
        s1 == s0.insert(i, (price, quantity)),
    ensures
        levels_map(s1) == levels_map(s0).insert(price as int, quantity as int),
{
    let m0 = levels_map(s0);
    let m1 = levels_map(s1);
    let m = m0.insert(price as int, quantity as int);
    assert forall|k: int| m1.contains_key(k) <==> m.contains_key(k) by {
        if m1.contains_key(k) {
            let j = choose|j: int| 0 <= j < s1.len() && (#[trigger] s1[j]).0 == k;
            if j < i {
                lemma_levels_map_at(s0, j);
            } else if j > i {
                assert(s1[j] == s0[j - 1]);
                lemma_levels_map_at(s0, j - 1);
            }
        }
        if m0.contains_key(k) {
            let j = choose|j: int| 0 <= j < s0.len() && (#[trigger] s0[j]).0 == k;
            if j < i {
                lemma_levels_map_at(s1, j);
            } else {
                assert(s1[j + 1] == s0[j]);
                lemma_levels_map_at(s1, j + 1);
            }
        }
        if k == price {
            lemma_levels_map_at(s1, i);
        }
    }
    assert forall|k: int| #[trigger] m1.contains_key(k) implies m1[k] == m[k] by {
        let j = choose|j: int| 0 <= j < s1.len() && (#[trigger] s1[j]).0 == k;
        lemma_levels_map_at(s1, j);
        if j < i {
            lemma_levels_map_at(s0, j);
        } else if j > i {
            assert(s1[j] == s0[j - 1]);
            lemma_levels_map_at(s0, j - 1);
        }
    }
    assert(m1 =~= m);
}

proof fn lemma_remove_map(s0: Seq<(i128, i128)>, s1: Seq<(i128, i128)>, i: int)
    requires
        sorted_levels(s0),
        sorted_levels(s1),
        0 <= i < s0.len(),
        s1 == s0.remove(i),
    ensures
        levels_map(s1) == levels_map(s0).remove(s0[i].0 as int),
{
    let m0 = levels_map(s0);
    let m1 = levels_map(s1);
    let p = s0[i].0 as int;
    let m = m0.remove(p);
    assert forall|k: int| m1.contains_key(k) <==> m.contains_key(k) by {
        if m1.contains_key(k) {
            let j = choose|j: int| 0 <= j < s1.len() && (#[trigger] s1[j]).0 == k;
            if j < i {
                lemma_levels_map_at(s0, j);
                assert(s0[j].0 < s0[i].0);
            } else {
                assert(s1[j] == s0[j + 1]);
                lemma_levels_map_at(s0, j + 1);
                assert(s0[i].0 < s0[j + 1].0);
            }
        }
        if m.contains_key(k) {
            let j = choose|j: int| 0 <= j < s0.len() && (#[trigger] s0[j]).0 == k;
            if j < i {
                lemma_levels_map_at(s1, j);
            } else if j > i {
                assert(s1[j - 1] == s0[j]);
                lemma_levels_map_at(s1, j - 1);
            }
        }
    }
    assert forall|k: int| #[trigger] m1.contains_key(k) implies m1[k] == m[k] by {
        let j = choose|j: int| 0 <= j < s1.len() && (#[trigger] s1[j]).0 == k;
        lemma_levels_map_at(s1, j);
        if j < i {
            lemma_levels_map_at(s0, j);
        } else {
            assert(s1[j] == s0[j + 1]);
            lemma_levels_map_at(s0, j + 1);
        }
    }
    assert(m1 =~= m);
}

} // verus!
