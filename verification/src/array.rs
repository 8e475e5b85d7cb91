//! The bookkeeping of reading a JavaScript array element by element.
//!
//! The engine hands over the elements one call at a time; an
//! `ArrayDowncast` decides which index to ask for next, collects the answers
//! in order and says when the array has been read to its end.
use vstd::prelude::*;

verus! {

/// Reading of an array of `length` elements, of which the first
/// `values.len()` have been received.
pub struct ArrayDowncast<T> {
    length: u32,
    values: Vec<T>,
}

impl<T> ArrayDowncast<T> {
    #[verifier::type_invariant]
    spec fn well_formed(self) -> bool {
        self.values.len() <= self.length
    }

    /// The number of elements that the array has.
    pub closed spec fn spec_length(&self) -> nat {
        self.length as nat
    }

    /// The elements received so far, in the order of their indices.
    pub closed spec fn spec_values(&self) -> Seq<T> {
        self.values@
    }

    /// Starts reading an array of `length` elements.
    pub fn new(length: u32) -> (reader: Self)
        ensures
            reader.spec_length() == length,
            reader.spec_values() == Seq::<T>::empty(),
    {
        ArrayDowncast { length, values: Vec::with_capacity(length as usize) }
    }

    /// The index of the element to ask the engine for next: the number of
    /// elements received so far, or `None` once all of them are in.
    pub fn next_index(&self) -> (index: Option<u32>)
        ensures
            match index {
                Some(i) => i == self.spec_values().len() && i < self.spec_length(),
                None => self.spec_values().len() == self.spec_length(),
            },
    {
        proof {
            use_type_invariant(self);
        }
        if self.values.len() < self.length as usize {
            Some(self.values.len() as u32)
        } else {
            None
        }
    }

    /// Records the element that the engine returned for the index that
    /// `next_index` asked for.
    pub fn push_element(&mut self, value: T)
        requires
            old(self).spec_values().len() < old(self).spec_length(),
        ensures
            final(self).spec_length() == old(self).spec_length(),
            final(self).spec_values() == old(self).spec_values().push(value),
    {
        let mut values: Vec<T> = Vec::new();
        std::mem::swap(&mut values, &mut self.values);
        values.push(value);
        self.values = values;
    }

    /// The elements of a completely read array, in the order of their
    /// indices.
    pub fn into_values(self) -> (values: Vec<T>)
        requires
            self.spec_values().len() == self.spec_length(),
        ensures
            values@ == self.spec_values(),
            values.len() == self.spec_length(),
    {
        self.values
    }
}

} // verus!
