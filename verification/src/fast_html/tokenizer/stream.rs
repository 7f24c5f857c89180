use vstd::prelude::*;
use vstd::std_specs::cmp::PartialEqSpec;

verus! {

/// A cursor over a borrowed slice: `idx` is the position of the element that
/// is read next. The cursor may run past the end; reads there give nothing.
pub struct Stream<'a, T> {
    pub idx: usize,
    pub data: &'a [T],
}

impl<'a, T> Stream<'a, T> {
    /// The whole sequence the cursor runs over.
    pub open spec fn spec_data(&self) -> Seq<T> {
        self.data@
    }

    /// The element under the cursor, if the cursor is inside the data.
    pub open spec fn spec_current(&self) -> Option<T> {
        if self.idx < self.spec_data().len() {
            Some(self.spec_data()[self.idx as int])
        } else {
            None
        }
    }
}

impl<'a, T: Copy> Stream<'a, T> {
    /// A copy of the element under the cursor.
    pub fn current_cpy(&self) -> (res: Option<T>)
        ensures
            res == self.spec_current(),
    {
        if self.idx < self.data.len() {
            Some(self.data[self.idx])
        } else {
            None
        }
    }
}

impl<'a, T: Eq + Copy> Stream<'a, T> {
    /// What stepping over `expect` gives: the current element, where there is
    /// one and it equals `expect`.
    pub open spec fn skip_outcome(&self, expect: T) -> Option<T> {
        match self.spec_current() {
            Some(c) => if c.eq_spec(&expect) {
                Some(c)
            } else {
                None
            },
            None => None,
        }
    }

    /// Steps over the current element when it equals `expect`, and hands it back.
    pub fn expect_and_skip(&mut self, expect: T) -> (res: Option<T>)
        requires
            T::obeys_eq_spec(),
            old(self).idx < usize::MAX,
        ensures
            final(self).spec_data() == old(self).spec_data(),
            match old(self).spec_current() {
                Some(c) => if c.eq_spec(&expect) {
                    res == Some(c) && final(self).idx == old(self).idx + 1
                } else {
                    res is None && final(self).idx == old(self).idx
                },
                None => res is None && final(self).idx == old(self).idx,
            },
            res == old(self).skip_outcome(expect),
    {
        let c = match self.current_cpy() {
            Some(c) => c,
            None => return None,
        };
        if c == expect {
            self.advance();
            Some(c)
        } else {
            None
        }
    }

    /// Steps over the current element when it equals one of `expect`, and hands it back.
    pub fn expect_oneof_and_skip(&mut self, expect: &[T]) -> (res: Option<T>)
        requires
            T::obeys_eq_spec(),
            old(self).idx < usize::MAX,
        ensures
            final(self).spec_data() == old(self).spec_data(),
            match old(self).spec_current() {
                Some(c) => if exists|i: int| 0 <= i < expect@.len() && c.eq_spec(&expect@[i]) {
                    res == Some(c) && final(self).idx == old(self).idx + 1
                } else {
                    res is None && final(self).idx == old(self).idx
                },
                None => res is None && final(self).idx == old(self).idx,
            },
    {
        let c = match self.current_cpy() {
            Some(c) => c,
            None => return None,
        };
        let mut i: usize = 0;
        while i < expect.len()
            invariant
                i <= expect@.len(),
                T::obeys_eq_spec(),
                *self == *old(self),
                old(self).idx < usize::MAX,
                old(self).spec_current() == Some(c),
                forall|j: int| 0 <= j < i ==> !c.eq_spec(&expect@[j]),
            decreases expect@.len() - i,
        {
            if c == expect[i] {
                self.advance();
                return Some(c);
            }
            i += 1;
        }
        None
    }

    /// Whether the current element equals `expect`; steps over it when it does.
    pub fn expect_and_skip_cond(&mut self, expect: T) -> (res: bool)
        requires
            T::obeys_eq_spec(),
            old(self).idx < usize::MAX,
        ensures
            final(self).spec_data() == old(self).spec_data(),
            res == (old(self).spec_current() matches Some(c) && c.eq_spec(&expect)),
            res == old(self).skip_outcome(expect) is Some,
            final(self).idx == if res { old(self).idx + 1 } else { old(self).idx as int },
            vstd::laws_eq::obeys_concrete_eq::<T>() ==> res == (old(self).spec_current() == Some(expect)),
    {
        proof {
            law_skip_outcome_is_equality(*self, expect);
        }
        self.expect_and_skip(expect).is_some()
    }
}

/// Where `==` on the elements is equality of values, stepping over `expect`
/// succeeds exactly when the current element is `expect`, and gives it back.
pub proof fn law_skip_outcome_is_equality<'a, T: Eq + Copy>(s: Stream<'a, T>, expect: T)
    ensures
        vstd::laws_eq::obeys_concrete_eq::<T>() ==> s.skip_outcome(expect) == (if s.spec_current()
            == Some(expect) {
            Some(expect)
        } else {
            None
        }),
{
    reveal(vstd::laws_eq::obeys_concrete_eq);
}

impl<'a, T> Stream<'a, T> {
    /// A cursor at the start of `data`.
    pub fn new(data: &'a [T]) -> (res: Stream<'a, T>)
        ensures
            res.idx == 0,
            res.spec_data() == data@,
    {
        Self { data, idx: 0 }
    }

    /// The number of elements in the data.
    pub fn len(&self) -> (res: usize)
        ensures
            res == self.spec_data().len(),
    {
        self.data.len()
    }

    /// The whole data.
    pub fn data(&self) -> (res: &[T])
        ensures
            res@ == self.spec_data(),
    {
        self.data
    }

    /// Moves the cursor one element forward.
    pub fn advance(&mut self)
        requires
            old(self).idx < usize::MAX,
        ensures
            final(self).idx == old(self).idx + 1,
            final(self).spec_data() == old(self).spec_data(),
    {
        self.idx += 1;
    }

    /// Moves the cursor `step` elements forward.
    pub fn advance_by(&mut self, step: usize)
        requires
            old(self).idx + step <= usize::MAX,
        ensures
            final(self).idx == old(self).idx + step,
            final(self).spec_data() == old(self).spec_data(),
    {
        self.idx += step;
    }

    /// The element under the cursor.
    pub fn current(&self) -> (res: Option<&T>)
        ensures
            match self.spec_current() {
                Some(c) => res == Some(&c),
                None => res is None,
            },
    {
        if self.idx < self.data.len() {
            Some(&self.data[self.idx])
        } else {
            None
        }
    }

    /// Whether the cursor has run past the data.
    pub fn is_eof(&self) -> (res: bool)
        ensures
            res == (self.idx >= self.spec_data().len()),
    {
        self.idx >= self.data.len()
    }

    /// The elements from `from` up to, not including, `to`.
    pub fn slice(&self, from: usize, to: usize) -> (res: &'a [T])
        requires
            from <= to <= self.spec_data().len(),
        ensures
            res@ == self.spec_data().subrange(from as int, to as int),
    {
        slice_range(self.data, from, to)
    }

    /// The elements from `from` up to `to`, with `to` cut down to the data's end.
    pub fn slice_checked(&self, from: usize, to: usize) -> (res: &'a [T])
        requires
            from <= to,
            from <= self.spec_data().len(),
        ensures
            res@ == self.spec_data().subrange(
                from as int,
                if to <= self.spec_data().len() { to as int } else { self.spec_data().len() as int },
            ),
    {
        let end = if self.data.len() < to { self.data.len() } else { to };
        slice_range(self.data, from, end)
    }

    /// The elements from `from` up to `len` elements past the cursor, cut down to the data's end.
    pub fn slice_len(&self, from: usize, len: usize) -> (res: &'a [T])
        requires
            self.idx + len <= usize::MAX,
            from <= self.idx + len,
            from <= self.spec_data().len(),
        ensures
            res@ == self.spec_data().subrange(
                from as int,
                if self.idx + len <= self.spec_data().len() {
                    self.idx + len
                } else {
                    self.spec_data().len() as int
                },
            ),
    {
        self.slice_checked(from, self.idx + len)
    }
}

/// The sub-slice `data[from..to]`.
pub fn slice_range<'a, T>(data: &'a [T], from: usize, to: usize) -> (res: &'a [T])
    requires
        from <= to <= data@.len(),
    ensures
        res@ == data@.subrange(from as int, to as int),
{
    &data[from..to]
}

} // verus!
