//! An append-only unit of bytecode: instruction bytes, a constant pool and a
//! table of source locations.
use vstd::prelude::*;
use crate::location::Location;
use crate::value::{Value, ValueModel};

verus! {

/// The big-endian 16-bit number made of two bytes.
pub open spec fn be16(high: u8, low: u8) -> int {
    high as int * 256 + low as int
}

/// The models of a sequence of values.
pub open spec fn models(vs: Seq<Value>) -> Seq<ValueModel> {
    vs.map_values(|v: Value| v@)
}

#[derive(Debug)]
pub struct Chunk {
    code: Vec<u8>,
    constants: Vec<Value>,
    locations: Vec<Location>,
}

impl Chunk {
    /// The instruction bytes.
    pub closed spec fn code(&self) -> Seq<u8> {
        self.code@
    }

    /// The constant pool.
    pub closed spec fn constants(&self) -> Seq<ValueModel> {
        models(self.constants@)
    }

    /// The source locations, one per instruction that recorded one.
    pub closed spec fn locations(&self) -> Seq<Location> {
        self.locations@
    }

    /// The code and the constant pool are held in memory.
    pub proof fn lemma_bounds(&self)
        ensures
            self.code().len() <= usize::MAX,
            self.constants().len() <= usize::MAX,
    {
        broadcast use vstd::std_specs::vec::axiom_spec_len;

        assert(self.code.len() as int == self.code@.len());
        assert(self.constants.len() as int == self.constants@.len());
    }

    pub fn new() -> (r: Chunk)
        ensures
            r.code() == Seq::<u8>::empty(),
            r.constants() == Seq::<ValueModel>::empty(),
            r.locations() == Seq::<Location>::empty(),
    {
        let r = Chunk { code: Vec::new(), constants: Vec::new(), locations: Vec::new() };
        assert(models(r.constants@) =~= Seq::<ValueModel>::empty());
        r
    }

    pub fn get_code_len(&self) -> (r: usize)
        ensures
            r == self.code().len(),
    {
        self.code.len()
    }

    pub fn constants_len(&self) -> (r: usize)
        ensures
            r == self.constants().len(),
    {
        self.constants.len()
    }

    pub fn get_byte(&self, i: usize) -> (r: Option<u8>)
        ensures
            r == if i < self.code().len() {
                Some(self.code()[i as int])
            } else {
                None::<u8>
            },
    {
        if i < self.code.len() {
            Some(self.code[i])
        } else {
            None
        }
    }

    /// The big-endian 16-bit number at `start` and `start + 1`.
    pub fn get_long_bytes(&self, start: usize) -> (r: Option<u16>)
        ensures
            r == if start + 2 <= self.code().len() {
                Some(be16(self.code()[start as int], self.code()[start + 1]) as u16)
            } else {
                None::<u16>
            },
    {
        if start >= self.code.len() || self.code.len() - start < 2 {
            return None;
        }
        let high = self.code[start];
        let low = self.code[start + 1];
        Some(high as u16 * 256 + low as u16)
    }

    pub fn get_constant(&self, i: usize) -> (r: Option<&Value>)
        ensures
            r is None <==> i >= self.constants().len(),
            r matches Some(v) ==> v@ == self.constants()[i as int],
    {
        if i < self.constants.len() {
            Some(&self.constants[i])
        } else {
            None
        }
    }

    pub fn get_location(&self, i: usize) -> (r: Option<&Location>)
        ensures
            r is None <==> i >= self.locations().len(),
            r matches Some(l) ==> *l == self.locations()[i as int],
    {
        if i < self.locations.len() {
            Some(&self.locations[i])
        } else {
            None
        }
    }

    pub fn write_code(&mut self, code: u8)
        ensures
            final(self).code() == old(self).code().push(code),
            final(self).constants() == old(self).constants(),
            final(self).locations() == old(self).locations(),
    {
        self.code.push(code);
    }

    /// Adds a constant to the pool and gives its index; equal constants are
    /// not shared.
    pub fn write_constant(&mut self, v: Value) -> (r: usize)
        ensures
            final(self).constants() == old(self).constants().push(v@),
            r == old(self).constants().len(),
            final(self).code() == old(self).code(),
            final(self).locations() == old(self).locations(),
    {
        let ghost m = v@;
        self.constants.push(v);
        assert(models(self.constants@) =~= models(old(self).constants@).push(m));
        self.constants.len() - 1
    }

    pub fn write_location(&mut self, l: Location)
        ensures
            final(self).locations() == old(self).locations().push(l),
            final(self).code() == old(self).code(),
            final(self).constants() == old(self).constants(),
    {
        self.locations.push(l);
    }

    /// Overwrites the byte at `i`, which was written before.
    pub fn backfill(&mut self, i: usize, code: u8)
        requires
            i < old(self).code().len(),
        ensures
            final(self).code() == old(self).code().update(i as int, code),
            final(self).constants() == old(self).constants(),
            final(self).locations() == old(self).locations(),
    {
        self.code.set(i, code);
    }
}

} // verus!
