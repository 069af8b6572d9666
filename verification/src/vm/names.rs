//! The names of a program's labels and functions, each kept once and known
//! by its position.

use vstd::prelude::*;
use vstd::slice::slice_to_vec;
use crate::text::bytes_equal;

verus! {

/// The position of the first `name` in `names` at or after `from`.
pub open spec fn position_from(names: Seq<Seq<u8>>, name: Seq<u8>, from: int) -> Option<int>
    decreases names.len() - from,
{
    if from < 0 || from >= names.len() {
        None
    } else if names[from] == name {
        Some(from)
    } else {
        position_from(names, name, from + 1)
    }
}

/// The number by which `name` is known once it is in the table: its
/// position if it is there already, the next free position if not.
pub open spec fn number_of(names: Seq<Seq<u8>>, name: Seq<u8>) -> int {
    match position_from(names, name, 0) {
        Some(at) => at,
        None => names.len() as int,
    }
}

/// The table once `name` is in it.
pub open spec fn with_name(names: Seq<Seq<u8>>, name: Seq<u8>) -> Seq<Seq<u8>> {
    if position_from(names, name, 0) is Some {
        names
    } else {
        names.push(name)
    }
}

/// The table of names.
pub struct Names {
    names: Vec<Vec<u8>>,
}

impl View for Names {
    type V = Seq<Seq<u8>>;

    closed spec fn view(&self) -> Seq<Seq<u8>> {
        self.names@.map_values(|name: Vec<u8>| name@)
    }
}

impl Names {
    /// A table without names.
    pub fn new() -> (names: Names)
        ensures
            names@ == Seq::<Seq<u8>>::empty(),
    {
        let names = Names { names: Vec::new() };
        assert(names@ =~= Seq::empty());
        names
    }

    /// The number of names.
    pub fn len(&self) -> (len: usize)
        ensures
            len == self@.len(),
    {
        self.names.len()
    }

    /// The name with number `number`.
    pub fn get(&self, number: usize) -> (name: &[u8])
        requires
            number < self@.len(),
        ensures
            name@ == self@[number as int],
    {
        self.names[number].as_slice()
    }

    /// The number of `name`, if it is in the table.
    pub fn position(&self, name: &[u8]) -> (at: Option<usize>)
        ensures
            at matches Some(i) ==> position_from(self@, name@, 0) == Some(i as int) && i < self@.len(),
            at.is_none() ==> position_from(self@, name@, 0).is_none(),
    {
        let mut i: usize = 0;
        while i < self.names.len()
            invariant
                i <= self.names.len(),
                position_from(self@, name@, 0) == position_from(self@, name@, i as int),
            decreases self.names.len() - i,
        {
            if bytes_equal(self.names[i].as_slice(), name) {
                return Some(i);
            }
            i += 1;
        }
        None
    }

    /// Puts `name` into the table unless it is there, and gives its number.
    pub fn intern(&mut self, name: &[u8]) -> (number: usize)
        ensures
            number == number_of(old(self)@, name@),
            final(self)@ == with_name(old(self)@, name@),
            number < final(self)@.len(),
    {
        match self.position(name) {
            Some(at) => at,
            None => {
                let number = self.names.len();
                self.names.push(slice_to_vec(name));
                assert(self@ =~= old(self)@.push(name@));
                number
            },
        }
    }

    /// Forgets the names from number `len` on.
    pub fn truncate(&mut self, len: usize)
        requires
            len <= old(self)@.len(),
        ensures
            final(self)@ == old(self)@.take(len as int),
    {
        self.names.truncate(len);
        assert(self@ =~= old(self)@.take(len as int));
    }
}

} // verus!
