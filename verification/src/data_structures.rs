use vstd::prelude::*;

use crate::error::ExecError;
use crate::utils::{decode_num, lemma_num_roundtrip, num_bytes, read_scriptint_size, scriptint_vec};

verus! {

/// Why a byte string is no script number.
#[derive(Debug, Clone, Copy, PartialEq, Eq, Structural)]
pub enum ScriptIntError {
    NonMinimalPush,
    NumericOverflow,
}

/// The most bytes of an item that an opcode reads as a number.
pub const MAX_NUM_SIZE: usize = 8;

/// Reads the bytes of an item as a script number.
pub fn read_scriptint(item: &[u8], size: usize, minimal: bool) -> (r: Result<i64, ExecError>)
    requires
        size <= 8,
    ensures
        match decode_num(item@, size as int) {
            Some(n) => r == Ok::<i64, ExecError>(n),
            None => r == Err::<i64, ExecError>(ExecError::ScriptIntNumericOverflow),
        },
{
    match read_scriptint_size(item, size, minimal) {
        Ok(n) => Ok(n),
        Err(ScriptIntError::NonMinimalPush) => Err(ExecError::MinimalData),
        Err(ScriptIntError::NumericOverflow) => Err(ExecError::ScriptIntNumericOverflow),
    }
}

/// An item of the stack. A number is kept as it is until its bytes are asked for.
#[derive(Debug)]
pub enum StackEntry {
    Num(i64),
    StrRef(Vec<u8>),
}

impl View for StackEntry {
    type V = Seq<u8>;

    /// The bytes of the item.
    open spec fn view(&self) -> Seq<u8> {
        match self {
            StackEntry::Num(n) => num_bytes(*n),
            StackEntry::StrRef(v) => v@,
        }
    }
}

impl Clone for StackEntry {
    fn clone(&self) -> (r: Self)
        ensures
            r@ == self@,
    {
        match self {
            StackEntry::Num(n) => StackEntry::Num(*n),
            StackEntry::StrRef(v) => StackEntry::StrRef(v.clone()),
        }
    }
}

impl StackEntry {
    /// The bytes of the item.
    pub fn to_bytes(&self) -> (r: Vec<u8>)
        ensures
            r@ == self@,
    {
        match self {
            StackEntry::Num(n) => scriptint_vec(*n),
            StackEntry::StrRef(v) => v.clone(),
        }
    }
}

/// A stack of byte strings, the last item on top.
#[derive(Debug)]
pub struct Stack(pub Vec<StackEntry>);

impl View for Stack {
    type V = Seq<Seq<u8>>;

    /// The bytes of the items, from the bottom up.
    open spec fn view(&self) -> Seq<Seq<u8>> {
        self.0@.map_values(|e: StackEntry| e@)
    }
}

impl Clone for Stack {
    fn clone(&self) -> (r: Self)
        ensures
            r@ == self@,
    {
        let mut items: Vec<StackEntry> = Vec::new();
        for i in 0..self.0.len()
            invariant
                items.len() == i,
                forall|j: int| 0 <= j < i ==> (#[trigger] items[j])@ == self.0[j]@,
        {
            items.push(self.0[i].clone());
        }
        let r = Stack(items);
        assert(r@ =~= self@);
        r
    }
}

/// The item `depth` places down from the top, the top item being one place down.
pub open spec fn item_at(s: Seq<Seq<u8>>, depth: int) -> Seq<u8> {
    s[s.len() - depth]
}

impl Stack {
    pub fn new() -> (r: Self)
        ensures
            r@ == Seq::<Seq<u8>>::empty(),
    {
        let r = Stack(Vec::new());
        assert(r@ =~= Seq::<Seq<u8>>::empty());
        r
    }

    /// A stack of these byte strings, the last one on top.
    pub fn from_u8_vec(v: Vec<Vec<u8>>) -> (r: Self)
        ensures
            r@ == v@.map_values(|b: Vec<u8>| b@),
    {
        let mut r = Stack::new();
        for i in 0..v.len()
            invariant
                r@ == v@.take(i as int).map_values(|b: Vec<u8>| b@),
        {
            r.pushstr(v[i].as_slice());
            assert(v@.take(i + 1).map_values(|b: Vec<u8>| b@) =~= v@.take(i as int).map_values(
                |b: Vec<u8>| b@,
            ).push(v[i as int]@));
        }
        assert(v@.take(v.len() as int) =~= v@);
        r
    }

    /// The byte strings of the items, from the bottom up.
    pub fn to_u8_array(&self) -> (r: Vec<Vec<u8>>)
        ensures
            r@.map_values(|b: Vec<u8>| b@) == self@,
    {
        let mut out: Vec<Vec<u8>> = Vec::new();
        for i in 0..self.0.len()
            invariant
                out.len() == i,
                forall|j: int| 0 <= j < i ==> (#[trigger] out[j])@ == self.0[j]@,
        {
            out.push(self.0[i].to_bytes());
        }
        assert(out@.map_values(|b: Vec<u8>| b@) =~= self@);
        out
    }

    pub fn len(&self) -> (r: usize)
        ensures
            r == self@.len(),
    {
        self.0.len()
    }

    pub fn is_empty(&self) -> (r: bool)
        ensures
            r == (self@.len() == 0),
    {
        self.0.len() == 0
    }

    /// The bytes of the item at `index`, counted from the bottom.
    pub fn get(&self, index: usize) -> (r: Vec<u8>)
        requires
            index < self@.len(),
        ensures
            r@ == self@[index as int],
    {
        self.0[index].to_bytes()
    }

    /// The item `-offset` places down from the top.
    pub fn top(&self, offset: isize) -> (r: Result<&StackEntry, ExecError>)
        requires
            offset < 0,
        ensures
            r is Ok <==> -offset <= self@.len(),
            r matches Ok(e) ==> e@ == item_at(self@, -offset),
            r matches Err(e) ==> e == ExecError::InvalidStackOperation,
    {
        let depth: usize = (-(offset + 1)) as usize + 1;
        if depth <= self.0.len() {
            Ok(&self.0[self.0.len() - depth])
        } else {
            Err(ExecError::InvalidStackOperation)
        }
    }

    /// The bytes of the item `-offset` places down from the top.
    pub fn topstr(&self, offset: isize) -> (r: Result<Vec<u8>, ExecError>)
        requires
            offset < 0,
        ensures
            r is Ok <==> -offset <= self@.len(),
            r matches Ok(b) ==> b@ == item_at(self@, -offset),
            r matches Err(e) ==> e == ExecError::InvalidStackOperation,
    {
        match self.top(offset) {
            Ok(entry) => Ok(entry.to_bytes()),
            Err(e) => Err(e),
        }
    }

    /// The number in the item `-offset` places down from the top.
    pub fn topnum(&self, offset: isize, require_minimal: bool) -> (r: Result<i64, ExecError>)
        requires
            offset < 0,
        ensures
            r == num_at(self@, -offset),
    {
        match self.top(offset) {
            Ok(StackEntry::Num(n)) => {
                proof {
                    lemma_num_roundtrip(*n);
                }
                Ok(*n)
            },
            Ok(StackEntry::StrRef(v)) => {
                read_scriptint(v.as_slice(), MAX_NUM_SIZE, require_minimal)
            },
            Err(e) => Err(e),
        }
    }

    /// The bytes of the top item.
    pub fn last(&self) -> (r: Result<Vec<u8>, ExecError>)
        ensures
            r is Ok <==> self@.len() > 0,
            r matches Ok(b) ==> b@ == self@.last(),
            r matches Err(e) ==> e == ExecError::InvalidStackOperation,
    {
        self.topstr(-1)
    }

    /// Whether there are at least `min_nb_items` items.
    pub fn needn(&self, min_nb_items: usize) -> (r: Result<(), ExecError>)
        ensures
            r is Ok <==> min_nb_items <= self@.len(),
            r matches Err(e) ==> e == ExecError::InvalidStackOperation,
    {
        if self.0.len() < min_nb_items {
            Err(ExecError::InvalidStackOperation)
        } else {
            Ok(())
        }
    }

    pub fn push(&mut self, entry: StackEntry)
        ensures
            final(self)@ == old(self)@.push(entry@),
    {
        let ghost before = self@;
        self.0.push(entry);
        assert(self@ =~= before.push(entry@));
    }

    pub fn pushnum(&mut self, num: i64)
        ensures
            final(self)@ == old(self)@.push(num_bytes(num)),
    {
        self.push(StackEntry::Num(num));
    }

    pub fn pushstr(&mut self, v: &[u8])
        ensures
            final(self)@ == old(self)@.push(v@),
    {
        self.push(StackEntry::StrRef(vstd::slice::slice_to_vec(v)));
    }

    pub fn pop(&mut self) -> (r: Option<StackEntry>)
        ensures
            r is Some <==> old(self)@.len() > 0,
            r matches Some(e) ==> e@ == old(self)@.last() && final(self)@
                == old(self)@.drop_last(),
            r is None ==> final(self)@ == old(self)@,
    {
        let ghost before = self@;
        let r = self.0.pop();
        assert(r is Some ==> self@ =~= before.drop_last());
        r
    }

    pub fn popstr(&mut self) -> (r: Result<Vec<u8>, ExecError>)
        ensures
            r is Ok <==> old(self)@.len() > 0,
            r matches Ok(b) ==> b@ == old(self)@.last() && final(self)@ == old(self)@.drop_last(),
            r matches Err(e) ==> e == ExecError::InvalidStackOperation && final(self)@
                == old(self)@,
    {
        match self.pop() {
            Some(entry) => Ok(entry.to_bytes()),
            None => Err(ExecError::InvalidStackOperation),
        }
    }

    /// Drops the `n` items on top, of which there must be as many.
    pub fn popn(&mut self, n: usize)
        requires
            n <= old(self)@.len(),
        ensures
            final(self)@ == old(self)@.take(old(self)@.len() - n),
    {
        let ghost before = self@;
        let rest: usize = self.0.len() - n;
        self.0.truncate(rest);
        assert(self@ =~= before.take(before.len() - n));
    }

    /// Takes out the item at `i`, counted from the bottom.
    pub fn remove(&mut self, i: usize)
        requires
            i < old(self)@.len(),
        ensures
            final(self)@ == old(self)@.remove(i as int),
    {
        let ghost before = self@;
        self.0.remove(i);
        assert(self@ =~= before.remove(i as int));
    }
}

/// What reading a number `depth` places down from the top gives.
pub open spec fn num_at(s: Seq<Seq<u8>>, depth: int) -> Result<i64, ExecError> {
    if depth > s.len() {
        Err(ExecError::InvalidStackOperation)
    } else {
        match decode_num(item_at(s, depth), 8) {
            Some(n) => Ok(n),
            None => Err(ExecError::ScriptIntNumericOverflow),
        }
    }
}

} // verus!
