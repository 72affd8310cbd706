//! Dense N-dimensional grid.
//!
//! A `GridND<T>` owns a flat row-major buffer holding one element per
//! coordinate tuple; the buffer length always equals the product of the
//! dimensions.  Fixing the leading index yields a borrowed, zero-copy
//! view one rank lower (`GridViewND`, `GridViewNDMut`); a rank-one grid
//! or view hands out its elements directly.

use vstd::prelude::*;

verus! {

/// Product of all entries of `dims`: the number of elements a grid with
/// these dimensions holds.
pub open spec fn dims_product(dims: Seq<usize>) -> nat
    decreases dims.len(),
{
    if dims.len() == 0 {
        1
    } else {
        (dims.first() as nat) * dims_product(dims.drop_first())
    }
}

/// Every suffix product of `dims` fits in a `usize`.  This is the machine
/// limit under which a grid with these dimensions can be addressed at all:
/// the total element count and every stride are then representable.
pub open spec fn dims_fit(dims: Seq<usize>) -> bool {
    forall|k: int|
        0 <= k <= dims.len() ==> #[trigger] dims_product(dims.subrange(k, dims.len() as int))
            <= usize::MAX
}

/// The whole sequence is its own suffix, so a fitting dimension list has a
/// fitting total product.
pub proof fn lemma_dims_fit_total(dims: Seq<usize>)
    requires
        dims_fit(dims),
    ensures
        dims_product(dims) <= usize::MAX,
{
    assert(dims.subrange(0, dims.len() as int) =~= dims);
}

/// Dropping the leading dimension keeps `dims_fit`: the suffixes of the
/// tail are suffixes of the whole.
pub proof fn lemma_dims_fit_drop_first(dims: Seq<usize>)
    requires
        dims_fit(dims),
        dims.len() >= 1,
    ensures
        dims_fit(dims.drop_first()),
{
    let tail = dims.drop_first();
    assert forall|k: int|
        0 <= k <= tail.len() implies #[trigger] dims_product(
        tail.subrange(k, tail.len() as int),
    ) <= usize::MAX by {
        assert(tail.subrange(k, tail.len() as int) =~= dims.subrange(k + 1, dims.len() as int));
    }
}

/// Computes the product of the dimensions in a slice.
fn product_of(dims: &[usize]) -> (r: usize)
    requires
        dims_fit(dims@),
    ensures
        r == dims_product(dims@),
{
    let mut acc: usize = 1;
    let mut k: usize = dims.len();
    proof {
        assert(dims@.subrange(k as int, dims@.len() as int) =~= Seq::<usize>::empty());
    }
    while k > 0
        invariant
            dims_fit(dims@),
            k <= dims@.len(),
            acc == dims_product(dims@.subrange(k as int, dims@.len() as int)),
        decreases k,
    {
        k = k - 1;
        let d = *vstd::slice::slice_index_get(dims, k);
        proof {
            let suffix = dims@.subrange(k as int, dims@.len() as int);
            assert(suffix.first() == dims@[k as int]);
            assert(suffix.drop_first() =~= dims@.subrange(k as int + 1, dims@.len() as int));
            assert(dims_product(suffix) == (d as nat) * (acc as nat));
        }
        acc = d * acc;
    }
    proof {
        assert(dims@.subrange(0, dims@.len() as int) =~= dims@);
    }
    acc
}

/// Decides `dims_fit` at run time: returns whether every suffix product
/// of `dims` fits in a `usize`, so that a grid with these dimensions can
/// be allocated and addressed.
pub fn dims_are_addressable(dims: &[usize]) -> (b: bool)
    ensures
        b == dims_fit(dims@),
{
    let mut acc: usize = 1;
    let mut k: usize = dims.len();
    proof {
        assert(dims@.subrange(k as int, dims@.len() as int) =~= Seq::<usize>::empty());
    }
    while k > 0
        invariant
            k <= dims@.len(),
            acc == dims_product(dims@.subrange(k as int, dims@.len() as int)),
            forall|j: int|
                k <= j <= dims@.len() ==> #[trigger] dims_product(
                    dims@.subrange(j, dims@.len() as int),
                ) <= usize::MAX,
        decreases k,
    {
        k = k - 1;
        let d = *vstd::slice::slice_index_get(dims, k);
        proof {
            let suffix = dims@.subrange(k as int, dims@.len() as int);
            assert(suffix.first() == dims@[k as int]);
            assert(suffix.drop_first() =~= dims@.subrange(k as int + 1, dims@.len() as int));
            assert(dims_product(suffix) == (d as nat) * (acc as nat));
        }
        match d.checked_mul(acc) {
            Some(v) => {
                acc = v;
            },
            None => {
                proof {
                    assert(dims_product(dims@.subrange(k as int, dims@.len() as int))
                        > usize::MAX);
                }
                return false;
            },
        }
    }
    true
}

/// A dense N-dimensional array owning its element buffer.  The buffer is
/// row-major: the last axis is contiguous, and the stride of the leading
/// axis is the product of the remaining dimensions.
pub struct GridND<T> {
    data: Vec<T>,
    dims: Vec<usize>,
}

impl<T> GridND<T> {
    /// The dimension list, as a mathematical sequence.
    pub closed spec fn spec_dims(&self) -> Seq<usize> {
        self.dims@
    }

    /// The flat element buffer, as a mathematical sequence.
    pub closed spec fn spec_data(&self) -> Seq<T> {
        self.data@
    }

    /// Structural invariant: the buffer holds exactly one element per
    /// coordinate tuple, and every stride is representable.
    pub open spec fn wf(&self) -> bool {
        &&& self.spec_data().len() == dims_product(self.spec_dims())
        &&& dims_fit(self.spec_dims())
    }

    /// Returns a copy of the dimension list.
    pub fn shape(&self) -> (r: Vec<usize>)
        ensures
            r@ == self.spec_dims(),
    {
        copy_dims(self.dims.as_slice())
    }
}

impl<T: Copy> GridND<T> {
    /// Allocates a grid of the given dimensions with every element set to
    /// `value`.
    pub fn new(dims: Vec<usize>, value: T) -> (r: Self)
        requires
            dims_fit(dims@),
        ensures
            r.wf(),
            r.spec_dims() == dims@,
            r.spec_data() == Seq::new(dims_product(dims@), |i: int| value),
    {
        let total = product_of(dims.as_slice());
        let mut data: Vec<T> = Vec::new();
        let mut k: usize = 0;
        while k < total
            invariant
                k <= total,
                data@ =~= Seq::new(k as nat, |i: int| value),
            decreases total - k,
        {
            data.push(value);
            k = k + 1;
        }
        GridND { data, dims }
    }
}

impl<T: Copy + Default> GridND<T> {
    /// Allocates a grid of the given dimensions with every element set to
    /// the element type's default value — zero for the numeric types —
    /// so the whole buffer is uniform.
    pub fn new_zeroed(dims: Vec<usize>) -> (r: Self)
        requires
            dims_fit(dims@),
        ensures
            r.wf(),
            r.spec_dims() == dims@,
            r.spec_data().len() == dims_product(dims@),
            forall|i: int|
                0 <= i < r.spec_data().len() ==> call_ensures(
                    T::default,
                    (),
                    #[trigger] r.spec_data()[i],
                ),
            forall|i: int, j: int|
                0 <= i < r.spec_data().len() && 0 <= j < r.spec_data().len()
                    ==> r.spec_data()[i] == r.spec_data()[j],
    {
        GridND::new(dims, T::default())
    }
}

impl<T> GridND<T> {
    /// Borrows the element at `index` of a one-dimensional grid.
    pub fn get(&self, index: usize) -> (r: &T)
        requires
            self.wf(),
            self.spec_dims().len() == 1,
            index < self.spec_dims().first(),
        ensures
            *r == self.spec_data()[index as int],
    {
        proof {
            lemma_rank_one_len(self.spec_dims());
        }
        &self.data[index]
    }

    /// Mutably borrows the element at `index` of a one-dimensional grid;
    /// the rest of the grid is unchanged.
    pub fn get_mut(&mut self, index: usize) -> (r: &mut T)
        requires
            old(self).wf(),
            old(self).spec_dims().len() == 1,
            index < old(self).spec_dims().first(),
        ensures
            *r == old(self).spec_data()[index as int],
            final(self).spec_dims() == old(self).spec_dims(),
            final(self).spec_data() == old(self).spec_data().update(index as int, *final(r)),
            final(self).wf(),
    {
        proof {
            lemma_rank_one_len(old(self).spec_dims());
        }
        &mut self.data[index]
    }

    /// Borrows the view obtained by fixing the leading axis of a grid of
    /// rank at least two at `index`: a zero-copy window one rank lower.
    pub fn at<'a>(&'a self, index: usize) -> (r: GridViewND<'a, T>)
        requires
            self.wf(),
            self.spec_dims().len() >= 2,
            index < self.spec_dims().first(),
        ensures
            r.wf(),
            r.spec_dims() == self.spec_dims().drop_first(),
            r.spec_data() == self.spec_data().subrange(
                index * dims_product(self.spec_dims().drop_first()),
                (index + 1) * dims_product(self.spec_dims().drop_first()),
            ),
    {
        let len = self.dims.len();
        let tail = vstd::slice::slice_subrange(self.dims.as_slice(), 1, len);
        proof {
            assert(tail@ =~= self.spec_dims().drop_first());
            lemma_dims_fit_drop_first(self.spec_dims());
        }
        let stride = product_of(tail);
        proof {
            lemma_window_in_bounds(self.spec_dims(), index as int);
        }
        let lo = index * stride;
        let hi = lo + stride;
        let window = vstd::slice::slice_subrange(self.data.as_slice(), lo, hi);
        GridViewND { data: window, dims: tail }
    }
}

/// A `Vec`'s length always fits in a `usize`.
proof fn lemma_buf_len_bound<T>(v: &Vec<T>)
    ensures
        v@.len() <= usize::MAX,
{
    vstd::std_specs::vec::axiom_spec_len(v);
}

/// A one-dimensional grid holds exactly its leading dimension's worth of
/// elements.
proof fn lemma_rank_one_len(dims: Seq<usize>)
    requires
        dims.len() == 1,
    ensures
        dims_product(dims) == dims.first(),
{
    assert(dims.drop_first() =~= Seq::<usize>::empty());
    assert(dims_product(Seq::<usize>::empty()) == 1);
    assert(dims_product(dims) == (dims.first() as nat) * dims_product(dims.drop_first()));
    assert((dims.first() as nat) * 1 == dims.first());
}

/// The window of the sub-grid at leading index `index` lies within the
/// parent buffer: `(index + 1) * stride <= dims[0] * stride`, the total
/// element count, which itself fits in a `usize`.
proof fn lemma_window_in_bounds(dims: Seq<usize>, index: int)
    requires
        dims_fit(dims),
        dims.len() >= 1,
        0 <= index < dims.first(),
    ensures
        (index + 1) * dims_product(dims.drop_first()) <= dims_product(dims) <= usize::MAX,
        index * dims_product(dims.drop_first()) + dims_product(dims.drop_first()) == (index + 1)
            * dims_product(dims.drop_first()),
{
    let stride = dims_product(dims.drop_first()) as int;
    vstd::arithmetic::mul::lemma_mul_inequality(index + 1, dims.first() as int, stride);
    vstd::arithmetic::mul::lemma_mul_is_distributive_add_other_way(stride, index, 1);
    lemma_dims_fit_total(dims);
}

/// A borrowed, read-only window over a sub-grid: the elements reached by
/// fixing one or more leading indices of an owning `GridND`.
#[derive(Clone, Copy)]
pub struct GridViewND<'a, T> {
    data: &'a [T],
    dims: &'a [usize],
}

impl<'a, T> GridViewND<'a, T> {
    /// The dimension list of the window, as a mathematical sequence.
    pub closed spec fn spec_dims(&self) -> Seq<usize> {
        self.dims@
    }

    /// The elements of the window, as a mathematical sequence.
    pub closed spec fn spec_data(&self) -> Seq<T> {
        self.data@
    }

    /// Structural invariant, as for the owning grid.
    pub open spec fn wf(&self) -> bool {
        &&& self.spec_data().len() == dims_product(self.spec_dims())
        &&& dims_fit(self.spec_dims())
    }

    /// Returns a copy of the window's dimension list.
    pub fn shape(&self) -> (r: Vec<usize>)
        ensures
            r@ == self.spec_dims(),
    {
        copy_dims(self.dims)
    }

    /// Borrows the element at `index` of a one-dimensional view.
    pub fn get(&self, index: usize) -> (r: &'a T)
        requires
            self.wf(),
            self.spec_dims().len() == 1,
            index < self.spec_dims().first(),
        ensures
            *r == self.spec_data()[index as int],
    {
        proof {
            lemma_rank_one_len(self.spec_dims());
        }
        vstd::slice::slice_index_get(self.data, index)
    }

    /// Borrows the view obtained by fixing the leading axis of a view of
    /// rank at least two at `index`.
    pub fn at(&self, index: usize) -> (r: GridViewND<'a, T>)
        requires
            self.wf(),
            self.spec_dims().len() >= 2,
            index < self.spec_dims().first(),
        ensures
            r.wf(),
            r.spec_dims() == self.spec_dims().drop_first(),
            r.spec_data() == self.spec_data().subrange(
                index * dims_product(self.spec_dims().drop_first()),
                (index + 1) * dims_product(self.spec_dims().drop_first()),
            ),
    {
        let len = self.dims.len();
        let tail = vstd::slice::slice_subrange(self.dims, 1, len);
        proof {
            assert(tail@ =~= self.spec_dims().drop_first());
            lemma_dims_fit_drop_first(self.spec_dims());
        }
        let stride = product_of(tail);
        proof {
            lemma_window_in_bounds(self.spec_dims(), index as int);
        }
        let lo = index * stride;
        let hi = lo + stride;
        let window = vstd::slice::slice_subrange(self.data, lo, hi);
        GridViewND { data: window, dims: tail }
    }
}

/// A borrowed, mutable window over a sub-grid.  It holds the owning
/// grid's whole buffer mutably together with the window's base offset;
/// its methods only ever touch elements inside the window.  The fields
/// are public only so that the methods' postconditions can speak of the
/// final value behind the held borrow; a caller that goes through the
/// fields directly steps outside every contract stated here.
pub struct GridViewNDMut<'a, T> {
    pub data: &'a mut Vec<T>,
    pub offset: usize,
    pub dims: &'a [usize],
}

impl<'a, T> GridViewNDMut<'a, T> {
    /// The dimension list of the window, as a mathematical sequence.
    pub open spec fn spec_dims(&self) -> Seq<usize> {
        self.dims@
    }

    /// The window's base offset into the underlying buffer.
    pub open spec fn spec_offset(&self) -> nat {
        self.offset as nat
    }

    /// The whole underlying buffer, as a mathematical sequence.
    pub open spec fn spec_buf(&self) -> Seq<T> {
        self.data@
    }

    /// The elements of the window, as a mathematical sequence.
    pub open spec fn spec_data(&self) -> Seq<T> {
        self.spec_buf().subrange(
            self.spec_offset() as int,
            (self.spec_offset() + dims_product(self.spec_dims())) as int,
        )
    }

    /// Structural invariant: the window lies inside the buffer and every
    /// stride is representable.
    pub open spec fn wf(&self) -> bool {
        &&& self.spec_offset() + dims_product(self.spec_dims()) <= self.spec_buf().len()
        &&& dims_fit(self.spec_dims())
    }

    /// Returns a copy of the window's dimension list.
    pub fn shape(&self) -> (r: Vec<usize>)
        ensures
            r@ == self.spec_dims(),
    {
        copy_dims(self.dims)
    }

    /// Borrows the element at `index` of a one-dimensional window.
    pub fn get(&self, index: usize) -> (r: &T)
        requires
            self.wf(),
            self.spec_dims().len() == 1,
            index < self.spec_dims().first(),
        ensures
            *r == self.spec_data()[index as int],
    {
        proof {
            lemma_rank_one_len(self.spec_dims());
            lemma_buf_len_bound(&*self.data);
        }
        &self.data[self.offset + index]
    }

    /// Returns an iterator over the elements of a one-dimensional window.
    pub fn iter(&self) -> (r: GridViewIter<'_, T>)
        requires
            self.wf(),
            self.spec_dims().len() == 1,
        ensures
            r.spec_elems() == self.spec_data(),
            r.spec_index() == 0,
    {
        proof {
            lemma_rank_one_len(self.spec_dims());
            lemma_buf_len_bound(&*self.data);
        }
        let lo = self.offset;
        let hi = lo + *vstd::slice::slice_index_get(self.dims, 0);
        let window = vstd::slice::slice_subrange(self.data.as_slice(), lo, hi);
        GridViewIter { data: window, index: 0 }
    }

    /// Consumes a one-dimensional window and mutably borrows its element
    /// at `index`; the underlying buffer ends up with exactly that element
    /// replaced by whatever the caller writes through the borrow.
    pub fn get_mut(self, index: usize) -> (r: &'a mut T)
        requires
            self.wf(),
            self.spec_dims().len() == 1,
            index < self.spec_dims().first(),
        ensures
            *r == self.spec_data()[index as int],
            final(self.data)@ == self.spec_buf().update(
                self.spec_offset() + index,
                *final(r),
            ),
    {
        proof {
            lemma_rank_one_len(self.spec_dims());
            lemma_buf_len_bound(&*self.data);
        }
        let k = self.offset + index;
        &mut self.data[k]
    }

    /// Borrows the read-only view obtained by fixing the leading axis of
    /// a window of rank at least two at `index`.
    pub fn at(&self, index: usize) -> (r: GridViewND<'_, T>)
        requires
            self.wf(),
            self.spec_dims().len() >= 2,
            index < self.spec_dims().first(),
        ensures
            r.wf(),
            r.spec_dims() == self.spec_dims().drop_first(),
            r.spec_data() == self.spec_data().subrange(
                index * dims_product(self.spec_dims().drop_first()),
                (index + 1) * dims_product(self.spec_dims().drop_first()),
            ),
    {
        let len = self.dims.len();
        let tail = vstd::slice::slice_subrange(self.dims, 1, len);
        proof {
            assert(tail@ =~= self.spec_dims().drop_first());
            lemma_dims_fit_drop_first(self.spec_dims());
        }
        let stride = product_of(tail);
        proof {
            lemma_window_in_bounds(self.spec_dims(), index as int);
            lemma_buf_len_bound(&*self.data);
        }
        let lo = self.offset + index * stride;
        let hi = lo + stride;
        let window = vstd::slice::slice_subrange(self.data.as_slice(), lo, hi);
        proof {
            assert(window@ =~= self.spec_data().subrange(
                index * dims_product(self.spec_dims().drop_first()),
                (index + 1) * dims_product(self.spec_dims().drop_first()),
            ));
        }
        GridViewND { data: window, dims: tail }
    }

    /// Consumes a window of rank at least two and yields the mutable
    /// window obtained by fixing its leading axis at `index`; writes made
    /// through the narrower window land in the same underlying buffer.
    pub fn at_mut(self, index: usize) -> (r: GridViewNDMut<'a, T>)
        requires
            self.wf(),
            self.spec_dims().len() >= 2,
            index < self.spec_dims().first(),
        ensures
            r.wf(),
            r.spec_dims() == self.spec_dims().drop_first(),
            r.spec_offset() == self.spec_offset() + index * dims_product(
                self.spec_dims().drop_first(),
            ),
            r.spec_buf() == self.spec_buf(),
            final(self.data)@ == final(r.data)@,
    {
        let len = self.dims.len();
        let tail = vstd::slice::slice_subrange(self.dims, 1, len);
        proof {
            assert(tail@ =~= self.spec_dims().drop_first());
            lemma_dims_fit_drop_first(self.spec_dims());
        }
        let stride = product_of(tail);
        proof {
            lemma_window_in_bounds(self.spec_dims(), index as int);
            lemma_buf_len_bound(&*self.data);
        }
        let lo = self.offset + index * stride;
        GridViewNDMut { data: self.data, offset: lo, dims: tail }
    }
}

impl<T> GridND<T> {
    /// Mutably borrows the view obtained by fixing the leading axis of a
    /// grid of rank at least two at `index`.  Once the view is dropped,
    /// the grid holds whatever buffer the view left behind; the view's
    /// own methods confine all writes to the window.
    pub fn at_mut<'a>(&'a mut self, index: usize) -> (r: GridViewNDMut<'a, T>)
        requires
            old(self).wf(),
            old(self).spec_dims().len() >= 2,
            index < old(self).spec_dims().first(),
        ensures
            r.wf(),
            r.spec_dims() == old(self).spec_dims().drop_first(),
            r.spec_offset() == index * dims_product(old(self).spec_dims().drop_first()),
            r.spec_buf() == old(self).spec_data(),
            final(self).spec_dims() == old(self).spec_dims(),
            final(self).spec_data() == final(r.data)@,
    {
        let len = self.dims.len();
        let tail = vstd::slice::slice_subrange(self.dims.as_slice(), 1, len);
        proof {
            assert(tail@ =~= self.spec_dims().drop_first());
            lemma_dims_fit_drop_first(self.spec_dims());
        }
        let stride = product_of(tail);
        proof {
            lemma_window_in_bounds(self.spec_dims(), index as int);
        }
        let lo = index * stride;
        GridViewNDMut { data: &mut self.data, offset: lo, dims: tail }
    }
}

/// A forward-only iterator over the elements of a one-dimensional grid
/// or window.  It is restartable only by deriving a fresh iterator from
/// the owner.
pub struct GridViewIter<'a, T> {
    data: &'a [T],
    index: usize,
}

impl<'a, T> GridViewIter<'a, T> {
    /// The elements the iterator walks over.
    pub closed spec fn spec_elems(&self) -> Seq<T> {
        self.data@
    }

    /// The position of the next element to yield.
    pub closed spec fn spec_index(&self) -> nat {
        self.index as nat
    }

    /// Yields the next element, or `None` once the sequence is exhausted.
    pub fn next(&mut self) -> (r: Option<&'a T>)
        ensures
            final(self).spec_elems() == old(self).spec_elems(),
            old(self).spec_index() < old(self).spec_elems().len() ==> {
                &&& r is Some
                &&& *r.unwrap() == old(self).spec_elems()[old(self).spec_index() as int]
                &&& final(self).spec_index() == old(self).spec_index() + 1
            },
            old(self).spec_index() >= old(self).spec_elems().len() ==> {
                &&& r is None
                &&& final(self).spec_index() == old(self).spec_index()
            },
    {
        if self.index < self.data.len() {
            let r = vstd::slice::slice_index_get(self.data, self.index);
            self.index = self.index + 1;
            Some(r)
        } else {
            None
        }
    }
}

impl<T> GridND<T> {
    /// Returns an iterator over the elements of a one-dimensional grid.
    pub fn iter(&self) -> (r: GridViewIter<'_, T>)
        requires
            self.spec_dims().len() == 1,
        ensures
            r.spec_elems() == self.spec_data(),
            r.spec_index() == 0,
    {
        GridViewIter { data: self.data.as_slice(), index: 0 }
    }
}

impl<'a, T> GridViewND<'a, T> {
    /// Returns an iterator over the elements of a one-dimensional view.
    pub fn iter(&self) -> (r: GridViewIter<'a, T>)
        requires
            self.spec_dims().len() == 1,
        ensures
            r.spec_elems() == self.spec_data(),
            r.spec_index() == 0,
    {
        GridViewIter { data: self.data, index: 0 }
    }
}

/// A forward-only iterator over the one-rank-lower sub-views of a grid
/// or window of rank at least two: what fixing the leading axis yields,
/// for each leading index in turn.
pub struct GridSubviewIter<'a, T> {
    view: GridViewND<'a, T>,
    index: usize,
}

impl<'a, T> GridSubviewIter<'a, T> {
    /// The dimension list of the window being walked.
    pub closed spec fn spec_dims(&self) -> Seq<usize> {
        self.view.spec_dims()
    }

    /// The elements of the window being walked.
    pub closed spec fn spec_data(&self) -> Seq<T> {
        self.view.spec_data()
    }

    /// The position of the next sub-view to yield.
    pub closed spec fn spec_index(&self) -> nat {
        self.index as nat
    }

    /// Structural invariant: a well-formed window of rank at least two.
    pub open spec fn wf(&self) -> bool {
        &&& self.spec_data().len() == dims_product(self.spec_dims())
        &&& dims_fit(self.spec_dims())
        &&& self.spec_dims().len() >= 2
    }

    /// Yields the sub-view at the next leading index, or `None` once the
    /// leading axis is exhausted.
    pub fn next(&mut self) -> (r: Option<GridViewND<'a, T>>)
        requires
            old(self).wf(),
        ensures
            final(self).wf(),
            final(self).spec_dims() == old(self).spec_dims(),
            final(self).spec_data() == old(self).spec_data(),
            old(self).spec_index() < old(self).spec_dims().first() ==> {
                &&& r is Some
                &&& r.unwrap().wf()
                &&& r.unwrap().spec_dims() == old(self).spec_dims().drop_first()
                &&& r.unwrap().spec_data() == old(self).spec_data().subrange(
                    (old(self).spec_index() * dims_product(
                        old(self).spec_dims().drop_first(),
                    )) as int,
                    ((old(self).spec_index() + 1) * dims_product(
                        old(self).spec_dims().drop_first(),
                    )) as int,
                )
                &&& final(self).spec_index() == old(self).spec_index() + 1
            },
            old(self).spec_index() >= old(self).spec_dims().first() ==> {
                &&& r is None
                &&& final(self).spec_index() == old(self).spec_index()
            },
    {
        let d0 = *vstd::slice::slice_index_get(self.view.dims, 0);
        if self.index < d0 {
            let sub = self.view.at(self.index);
            self.index = self.index + 1;
            Some(sub)
        } else {
            None
        }
    }
}

impl<T> GridND<T> {
    /// Returns an iterator over the sub-views of a grid of rank at least
    /// two, in leading-index order.
    pub fn subviews(&self) -> (r: GridSubviewIter<'_, T>)
        requires
            self.wf(),
            self.spec_dims().len() >= 2,
        ensures
            r.wf(),
            r.spec_dims() == self.spec_dims(),
            r.spec_data() == self.spec_data(),
            r.spec_index() == 0,
    {
        GridSubviewIter {
            view: GridViewND { data: self.data.as_slice(), dims: self.dims.as_slice() },
            index: 0,
        }
    }
}

impl<'a, T> GridViewND<'a, T> {
    /// Returns an iterator over the sub-views of a view of rank at least
    /// two, in leading-index order.
    pub fn subviews(&self) -> (r: GridSubviewIter<'a, T>)
        requires
            self.wf(),
            self.spec_dims().len() >= 2,
        ensures
            r.wf(),
            r.spec_dims() == self.spec_dims(),
            r.spec_data() == self.spec_data(),
            r.spec_index() == 0,
    {
        GridSubviewIter { view: GridViewND { data: self.data, dims: self.dims }, index: 0 }
    }
}

/// Relies on `rand::random`: draws one value of a samplable type from the
/// thread-local generator.  Nothing is assumed about the value drawn.
#[verifier::external_body]
fn random_value<T>() -> T where rand::distr::StandardUniform: rand::distr::Distribution<T> {
    rand::random()
}

impl<T: Copy + Default> GridND<T> where
    rand::distr::StandardUniform: rand::distr::Distribution<T>,
 {
    /// Allocates a grid of the given dimensions, each element drawn
    /// independently from the uniform distribution of its type.  The
    /// shape is as requested; nothing is promised of the values.
    pub fn new_random(dims: Vec<usize>) -> (r: Self)
        requires
            dims_fit(dims@),
        ensures
            r.wf(),
            r.spec_dims() == dims@,
            r.spec_data().len() == dims_product(dims@),
    {
        let total = product_of(dims.as_slice());
        let mut data: Vec<T> = Vec::new();
        let mut k: usize = 0;
        while k < total
            invariant
                k <= total,
                data@.len() == k,
            decreases total - k,
        {
            data.push(random_value());
            k = k + 1;
        }
        GridND { data, dims }
    }
}

/// Whether `idx` is an in-bounds coordinate tuple for a grid of
/// dimensions `dims`: one coordinate per axis, each below its dimension.
pub open spec fn index_in_bounds(dims: Seq<usize>, idx: Seq<usize>) -> bool {
    &&& idx.len() == dims.len()
    &&& forall|k: int| 0 <= k < dims.len() ==> idx[k] < dims[k]
}

/// Row-major flat position of the coordinate tuple `idx` in a grid of
/// dimensions `dims`: each leading coordinate advances by the product of
/// the remaining dimensions, exactly the window offset that fixing the
/// leading axis computes.
pub open spec fn flat_index(dims: Seq<usize>, idx: Seq<usize>) -> nat
    decreases dims.len(),
{
    if dims.len() == 0 {
        0
    } else {
        (idx.first() as nat) * dims_product(dims.drop_first()) + flat_index(
            dims.drop_first(),
            idx.drop_first(),
        )
    }
}

/// Law: one step of the view descent agrees with the flat layout.  The
/// window that fixing the leading coordinate selects starts at that
/// coordinate's stride multiple — exactly where `at` places it — and the
/// remaining coordinates stay in bounds and locate the cell within the
/// window.
pub proof fn lemma_flat_index_step(dims: Seq<usize>, idx: Seq<usize>)
    requires
        dims.len() >= 1,
        index_in_bounds(dims, idx),
    ensures
        index_in_bounds(dims.drop_first(), idx.drop_first()),
        flat_index(dims, idx) == idx.first() * dims_product(dims.drop_first()) + flat_index(
            dims.drop_first(),
            idx.drop_first(),
        ),
        flat_index(dims.drop_first(), idx.drop_first()) < dims_product(dims.drop_first()),
{
    let tail = dims.drop_first();
    assert(index_in_bounds(tail, idx.drop_first())) by {
        assert(forall|k: int|
            0 <= k < tail.len() ==> idx.drop_first()[k] == idx[k + 1] && tail[k] == dims[k + 1]);
    }
    lemma_flat_index_in_bounds(tail, idx.drop_first());
}

/// Every in-bounds coordinate tuple lands strictly inside the buffer.
pub proof fn lemma_flat_index_in_bounds(dims: Seq<usize>, idx: Seq<usize>)
    requires
        index_in_bounds(dims, idx),
    ensures
        flat_index(dims, idx) < dims_product(dims),
    decreases dims.len(),
{
    if dims.len() == 0 {
    } else {
        let tail = dims.drop_first();
        assert(index_in_bounds(tail, idx.drop_first())) by {
            assert(forall|k: int|
                0 <= k < tail.len() ==> idx.drop_first()[k] == idx[k + 1] && tail[k] == dims[k
                    + 1]);
        }
        lemma_flat_index_in_bounds(tail, idx.drop_first());
        let i0 = idx.first() as int;
        let stride = dims_product(tail) as int;
        assert(i0 * stride + stride == (i0 + 1) * stride) by {
            vstd::arithmetic::mul::lemma_mul_is_distributive_add_other_way(stride, i0, 1);
        }
        vstd::arithmetic::mul::lemma_mul_inequality(i0 + 1, dims.first() as int, stride);
    }
}

/// A one-coordinate tuple addresses the cell at its own value.
proof fn lemma_rank_one_flat(dims: Seq<usize>, idx: Seq<usize>)
    requires
        dims.len() == 1,
        idx.len() == 1,
    ensures
        flat_index(dims, idx) == idx.first(),
{
    assert(dims.drop_first() =~= Seq::<usize>::empty());
    assert(idx.drop_first() =~= Seq::<usize>::empty());
    assert(dims_product(Seq::<usize>::empty()) == 1);
    assert(flat_index(Seq::<usize>::empty(), Seq::<usize>::empty()) == 0);
    assert(flat_index(dims, idx) == (idx.first() as nat) * dims_product(dims.drop_first())
        + flat_index(dims.drop_first(), idx.drop_first()));
}

impl<'a, T> GridViewND<'a, T> {
    /// Borrows the cell at the in-bounds coordinate tuple `idx`: the
    /// chained descent, one axis per coordinate, in one call.
    pub fn read_at(&self, idx: &[usize]) -> (r: &'a T)
        requires
            self.wf(),
            self.spec_dims().len() >= 1,
            index_in_bounds(self.spec_dims(), idx@),
        ensures
            *r == self.spec_data()[flat_index(self.spec_dims(), idx@) as int],
        decreases self.spec_dims().len(),
    {
        let i0 = *vstd::slice::slice_index_get(idx, 0);
        if self.dims.len() == 1 {
            proof {
                lemma_rank_one_flat(self.spec_dims(), idx@);
            }
            self.get(i0)
        } else {
            let sub = self.at(i0);
            let rest = vstd::slice::slice_subrange(idx, 1, idx.len());
            proof {
                assert(rest@ =~= idx@.drop_first());
                lemma_flat_index_step(self.spec_dims(), idx@);
            }
            let r = sub.read_at(rest);
            proof {
                let stride = dims_product(self.spec_dims().drop_first()) as int;
                let tail_pos = flat_index(
                    self.spec_dims().drop_first(),
                    idx@.drop_first(),
                ) as int;
                lemma_window_in_bounds(self.spec_dims(), i0 as int);
                let window = self.spec_data().subrange(i0 * stride, (i0 as int + 1) * stride);
                assert(sub.spec_data() == window);
                assert(window[tail_pos] == self.spec_data()[i0 * stride + tail_pos]);
            }
            r
        }
    }
}

impl<T> GridND<T> {
    /// Borrows the cell at the in-bounds coordinate tuple `idx`.
    pub fn read_at(&self, idx: &[usize]) -> (r: &T)
        requires
            self.wf(),
            self.spec_dims().len() >= 1,
            index_in_bounds(self.spec_dims(), idx@),
        ensures
            *r == self.spec_data()[flat_index(self.spec_dims(), idx@) as int],
    {
        let i0 = *vstd::slice::slice_index_get(idx, 0);
        if self.dims.len() == 1 {
            proof {
                lemma_rank_one_flat(self.spec_dims(), idx@);
            }
            self.get(i0)
        } else {
            let sub = self.at(i0);
            let rest = vstd::slice::slice_subrange(idx, 1, idx.len());
            proof {
                assert(rest@ =~= idx@.drop_first());
                lemma_flat_index_step(self.spec_dims(), idx@);
            }
            let r = sub.read_at(rest);
            proof {
                let stride = dims_product(self.spec_dims().drop_first()) as int;
                let tail_pos = flat_index(
                    self.spec_dims().drop_first(),
                    idx@.drop_first(),
                ) as int;
                lemma_window_in_bounds(self.spec_dims(), i0 as int);
                let window = self.spec_data().subrange(i0 * stride, (i0 as int + 1) * stride);
                assert(sub.spec_data() == window);
                assert(window[tail_pos] == self.spec_data()[i0 * stride + tail_pos]);
            }
            r
        }
    }

    /// Writes `value` into the cell at the in-bounds coordinate tuple
    /// `idx`; every other cell and the shape are untouched.
    pub fn write_at(&mut self, idx: &[usize], value: T)
        requires
            old(self).wf(),
            old(self).spec_dims().len() >= 1,
            index_in_bounds(old(self).spec_dims(), idx@),
        ensures
            final(self).wf(),
            final(self).spec_dims() == old(self).spec_dims(),
            final(self).spec_data() == old(self).spec_data().update(
                flat_index(old(self).spec_dims(), idx@) as int,
                value,
            ),
    {
        let i0 = *vstd::slice::slice_index_get(idx, 0);
        if self.dims.len() == 1 {
            proof {
                lemma_rank_one_flat(old(self).spec_dims(), idx@);
            }
            let cell = self.get_mut(i0);
            *cell = value;
        } else {
            let sub = self.at_mut(i0);
            let rest = vstd::slice::slice_subrange(idx, 1, idx.len());
            proof {
                assert(rest@ =~= idx@.drop_first());
                lemma_flat_index_step(old(self).spec_dims(), idx@);
            }
            sub.write_at(rest, value);
        }
    }
}

impl<'a, T> GridViewNDMut<'a, T> {
    /// Consumes the window and writes `value` into the cell at the
    /// in-bounds coordinate tuple `idx`; the underlying buffer ends up
    /// with exactly that cell replaced.
    pub fn write_at(self, idx: &[usize], value: T)
        requires
            self.wf(),
            self.spec_dims().len() >= 1,
            index_in_bounds(self.spec_dims(), idx@),
        ensures
            final(self.data)@ == self.spec_buf().update(
                (self.spec_offset() + flat_index(self.spec_dims(), idx@)) as int,
                value,
            ),
        decreases self.spec_dims().len(),
    {
        let i0 = *vstd::slice::slice_index_get(idx, 0);
        if self.dims.len() == 1 {
            proof {
                lemma_rank_one_flat(self.spec_dims(), idx@);
            }
            let cell = self.get_mut(i0);
            *cell = value;
        } else {
            let sub = self.at_mut(i0);
            let rest = vstd::slice::slice_subrange(idx, 1, idx.len());
            proof {
                assert(rest@ =~= idx@.drop_first());
                lemma_flat_index_step(self.spec_dims(), idx@);
            }
            sub.write_at(rest, value);
        }
    }
}

/// Law: the grid indexing round trip.  Writing a value at any in-bounds
/// coordinate tuple — whose flat position is what the chained view
/// descent computes — and reading the same tuple back yields that value,
/// and every other cell is untouched.
pub proof fn lemma_index_round_trip<T>(g: GridND<T>, idx: Seq<usize>, v: T)
    requires
        g.wf(),
        index_in_bounds(g.spec_dims(), idx),
    ensures
        flat_index(g.spec_dims(), idx) < g.spec_data().len(),
        g.spec_data().update(flat_index(g.spec_dims(), idx) as int, v)[flat_index(
            g.spec_dims(),
            idx,
        ) as int] == v,
        forall|j: int|
            0 <= j < g.spec_data().len() && j != flat_index(g.spec_dims(), idx)
                ==> g.spec_data().update(flat_index(g.spec_dims(), idx) as int, v)[j]
                == g.spec_data()[j],
{
    lemma_flat_index_in_bounds(g.spec_dims(), idx);
}

/// Law: the grid shape invariant.  A well-formed grid — as every
/// constructor ensures and every method preserves — holds exactly the
/// product of its dimensions many elements.
pub proof fn lemma_grid_element_count<T>(g: GridND<T>)
    requires
        g.wf(),
    ensures
        g.spec_data().len() == dims_product(g.spec_dims()),
{
}

/// Copies a dimension slice into a fresh vector.
fn copy_dims(dims: &[usize]) -> (r: Vec<usize>)
    ensures
        r@ == dims@,
{
    let mut r: Vec<usize> = Vec::new();
    let mut k: usize = 0;
    while k < dims.len()
        invariant
            k <= dims@.len(),
            r@ =~= dims@.subrange(0, k as int),
        decreases dims@.len() - k,
    {
        r.push(*vstd::slice::slice_index_get(dims, k));
        k = k + 1;
    }
    proof {
        assert(dims@.subrange(0, dims@.len() as int) =~= dims@);
    }
    r
}

} // verus!
