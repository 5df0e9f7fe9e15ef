//! A row-major Cartesian product of two finite sequences.

use vstd::arithmetic::div_mod::lemma_fundamental_div_mod_converse;
use vstd::arithmetic::mul::{
    lemma_mul_inequality, lemma_mul_is_distributive_sub_other_way, lemma_mul_nonnegative,
};
use vstd::prelude::*;

verus! {

/// Every pair `(a, b)` with `a` from `outer` and `b` from `inner`: all
/// pairs of `outer`'s first item in `inner`'s order, then all of its
/// second item, and so on.
pub open spec fn product<A, B>(outer: Seq<A>, inner: Seq<B>) -> Seq<(A, B)> {
    Seq::new(
        outer.len() * inner.len(),
        |k: int| (outer[k / inner.len() as int], inner[k % inner.len() as int]),
    )
}

/// Where the pair of the `i`-th outer and `j`-th inner item stands in a
/// product whose inner sequence holds `n` items.
pub open spec fn row_major_index(n: nat, i: int, j: int) -> int {
    i * n + j
}

/// The pair of `outer[i]` and `inner[j]` stands at `i * inner.len() + j`.
proof fn lemma_product_at<A, B>(outer: Seq<A>, inner: Seq<B>, i: int, j: int)
    requires
        0 <= i < outer.len(),
        0 <= j < inner.len(),
    ensures
        0 <= i * inner.len() + j < product(outer, inner).len(),
        product(outer, inner)[i * inner.len() + j] == (outer[i], inner[j]),
{
    let n = inner.len() as int;
    let k = i * n + j;
    lemma_fundamental_div_mod_converse(k, n, i, j);
    lemma_mul_inequality(i + 1, outer.len() as int, n);
    lemma_mul_nonnegative(outer.len() as int, n);
    assert((i + 1) * n == i * n + n) by (nonlinear_arith);
    assert(0 <= i * n) by (nonlinear_arith)
        requires
            0 <= i,
            0 <= n,
    ;
}

/// The pairs of two finite sequences, drawn one at a time in row-major
/// order.
///
/// The outer sequence advances one item each time the inner one runs
/// out; the inner one then restarts from its beginning.
pub struct CartesianProduct<A, B> {
    /// The outer sequence, and the index of its next item to draw.
    first: Vec<A>,
    first_next: usize,
    /// The outer item now being paired, or `None` once the outer
    /// sequence has run out.
    saved_first: Option<A>,
    /// The inner sequence, kept whole so that it can be replayed, and the
    /// index of its next item to draw.
    second: Vec<B>,
    second_next: usize,
}

impl<A: Copy, B: Copy> CartesianProduct<A, B> {
    /// The outer sequence.
    pub closed spec fn outer(&self) -> Seq<A> {
        self.first@
    }

    /// The inner sequence.
    pub closed spec fn inner(&self) -> Seq<B> {
        self.second@
    }

    /// How many pairs of the product have been drawn.
    pub closed spec fn position(&self) -> int {
        match self.saved_first {
            Some(_) => (self.first_next - 1) * self.second@.len() + self.second_next,
            None => (self.first@.len() * self.second@.len()) as int,
        }
    }

    /// Whether the cursors agree with each other.
    pub closed spec fn wf(&self) -> bool {
        &&& self.first_next <= self.first@.len()
        &&& self.second_next <= self.second@.len()
        &&& match self.saved_first {
            Some(a) => 1 <= self.first_next && a == self.first@[self.first_next - 1],
            None => self.first_next == self.first@.len(),
        }
    }

    /// The pairs still to be drawn.
    pub open spec fn remaining(&self) -> Seq<(A, B)> {
        product(self.outer(), self.inner()).skip(self.position())
    }

    proof fn lemma_position_in_range(&self)
        requires
            self.wf(),
        ensures
            0 <= self.position() <= self.outer().len() * self.inner().len(),
    {
        let m = self.first@.len() as int;
        let n = self.second@.len() as int;
        if let Some(_) = self.saved_first {
            let f = self.first_next as int;
            lemma_mul_inequality(f, m, n);
            lemma_mul_is_distributive_sub_other_way(n, f, 1);
            assert(0 <= (f - 1) * n) by (nonlinear_arith)
                requires
                    1 <= f,
                    0 <= n,
            ;
        }
    }

    /// Draws the next pair, or `None` once every pair has been drawn.
    pub fn next(&mut self) -> (r: Option<(A, B)>)
        requires
            old(self).wf(),
        ensures
            final(self).wf(),
            final(self).outer() == old(self).outer(),
            final(self).inner() == old(self).inner(),
            old(self).remaining().len() > 0 ==> r == Some(old(self).remaining()[0])
                && final(self).remaining() == old(self).remaining().drop_first(),
            old(self).remaining().len() == 0 ==> r is None && final(self).remaining().len() == 0,
    {
        let ghost pre = *self;
        proof {
            pre.lemma_position_in_range();
        }
        let ghost m = self.first@.len() as int;
        let ghost n = self.second@.len() as int;
        let second_item: B;
        if self.second_next < self.second.len() {
            second_item = self.second[self.second_next];
            proof {
                if let Some(_) = self.saved_first {
                    lemma_product_at(
                        self.first@,
                        self.second@,
                        self.first_next - 1,
                        self.second_next as int,
                    );
                }
            }
            self.second_next = self.second_next + 1;
        } else {
            // The inner sequence ran out: restart it.
            self.second_next = 0;
            if self.second_next < self.second.len() {
                second_item = self.second[self.second_next];
                self.second_next = 1;
                if self.first_next < self.first.len() {
                    proof {
                        let f = self.first_next as int;
                        assert((f - 1) * n + n == f * n) by (nonlinear_arith);
                        lemma_product_at(self.first@, self.second@, f, 0);
                    }
                    self.saved_first = Some(self.first[self.first_next]);
                    self.first_next = self.first_next + 1;
                } else {
                    proof {
                        assert((m - 1) * n + n == m * n) by (nonlinear_arith);
                    }
                    self.saved_first = None;
                }
            } else {
                proof {
                    let f = self.first_next as int;
                    assert((f - 1) * n == 0 && m * n == 0) by (nonlinear_arith)
                        requires
                            n == 0,
                    ;
                    assert(*self == pre);
                }
                return None;
            }
        }
        proof {
            self.lemma_position_in_range();
            if pre.remaining().len() > 0 {
                assert(self.remaining() =~= pre.remaining().drop_first());
            }
        }
        match self.saved_first {
            Some(first_item) => Some((first_item, second_item)),
            None => None,
        }
    }
}

/// The product of `first` and `second`, before any pair is drawn.
pub fn cartesian_product<A: Copy, B: Copy>(first: Vec<A>, second: Vec<B>) -> (r: CartesianProduct<
    A,
    B,
>)
    ensures
        r.wf(),
        r.outer() == first@,
        r.inner() == second@,
        r.remaining() == product(first@, second@),
{
    let saved_first = if first.len() > 0 {
        Some(first[0])
    } else {
        None
    };
    let first_next: usize = if first.len() > 0 {
        1
    } else {
        0
    };
    let r = CartesianProduct {
        first: first,
        first_next: first_next,
        saved_first: saved_first,
        second: second,
        second_next: 0,
    };
    proof {
        let n = second@.len() as int;
        assert(0 * n == 0 && 0int * n == 0) by (nonlinear_arith);
        assert(r.remaining() =~= product(first@, second@));
    }
    r
}

/// The product of a sequence of `m` items and one of `n` items holds
/// exactly `m * n` pairs, the pair of the `i`-th and `j`-th items at
/// `i * n + j`.
pub proof fn lemma_product_row_major<A, B>(outer: Seq<A>, inner: Seq<B>)
    ensures
        product(outer, inner).len() == outer.len() * inner.len(),
        forall|i: int, j: int|
            0 <= i < outer.len() && 0 <= j < inner.len() ==> #[trigger] row_major_index(
                inner.len(),
                i,
                j,
            ) < product(outer, inner).len() && product(outer, inner)[row_major_index(
                inner.len(),
                i,
                j,
            )] == (outer[i], inner[j]),
{
    assert forall|i: int, j: int|
        0 <= i < outer.len() && 0 <= j < inner.len() implies #[trigger] row_major_index(
            inner.len(),
            i,
            j,
        ) < product(outer, inner).len() && product(outer, inner)[row_major_index(
            inner.len(),
            i,
            j,
        )] == (outer[i], inner[j]) by {
        lemma_product_at(outer, inner, i, j);
    }
}

/// Where either sequence is empty, the product holds no pair.
pub proof fn lemma_product_empty<A, B>(outer: Seq<A>, inner: Seq<B>)
    requires
        outer.len() == 0 || inner.len() == 0,
    ensures
        product(outer, inner).len() == 0,
{
    assert(outer.len() * inner.len() == 0) by (nonlinear_arith)
        requires
            outer.len() == 0 || inner.len() == 0,
    ;
}

} // verus!
