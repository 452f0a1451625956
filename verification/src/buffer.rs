//! The sample store of an image: one flat vector of samples of one type.

use crate::sample::SampleType;
use vstd::prelude::*;

verus! {

/// A flat store of samples, all of one sample type.
#[derive(Debug, PartialEq, Eq)]
pub enum Buffer {
    U8(Vec<u8>),
    U16(Vec<u16>),
}

impl Buffer {
    /// The sample type of the store.
    pub open spec fn spec_kind(&self) -> SampleType {
        match self {
            Buffer::U8(_) => SampleType::U8,
            Buffer::U16(_) => SampleType::U16,
        }
    }

    /// The stored samples, as integers.
    pub open spec fn samples(&self) -> Seq<int> {
        match self {
            Buffer::U8(v) => Seq::new(v@.len(), |i: int| v@[i] as int),
            Buffer::U16(v) => Seq::new(v@.len(), |i: int| v@[i] as int),
        }
    }

    /// A store of `len` samples of type `kind`, all zero.
    pub fn zeros(kind: SampleType, len: usize) -> (b: Buffer)
        ensures
            b.spec_kind() == kind,
            b.samples() == Seq::new(len as nat, |i: int| 0int),
    {
        let b = match kind {
            SampleType::U8 => Buffer::U8(vec![0u8; len]),
            SampleType::U16 => Buffer::U16(vec![0u16; len]),
        };
        assert(b.samples() =~= Seq::new(len as nat, |i: int| 0int));
        b
    }

    /// The sample type of the store.
    pub fn kind(&self) -> (k: SampleType)
        ensures
            k == self.spec_kind(),
    {
        match self {
            Buffer::U8(_) => SampleType::U8,
            Buffer::U16(_) => SampleType::U16,
        }
    }

    /// The number of samples.
    pub fn len(&self) -> (n: usize)
        ensures
            n == self.samples().len(),
    {
        match self {
            Buffer::U8(v) => v.len(),
            Buffer::U16(v) => v.len(),
        }
    }

    /// The sample at `index`.
    pub fn get(&self, index: usize) -> (sample: u16)
        requires
            index < self.samples().len(),
        ensures
            sample == self.samples()[index as int],
            sample <= self.spec_kind().max_sample(),
    {
        match self {
            Buffer::U8(v) => v[index] as u16,
            Buffer::U16(v) => v[index],
        }
    }

    /// A copy of the store.
    pub fn duplicate(&self) -> (b: Buffer)
        ensures
            b.spec_kind() == self.spec_kind(),
            b.samples() == self.samples(),
    {
        match self {
            Buffer::U8(v) => {
                let copy = v.clone();
                assert(copy@ =~= v@);
                let b = Buffer::U8(copy);
                assert(b.samples() =~= self.samples());
                b
            },
            Buffer::U16(v) => {
                let copy = v.clone();
                assert(copy@ =~= v@);
                let b = Buffer::U16(copy);
                assert(b.samples() =~= self.samples());
                b
            },
        }
    }

    /// Replaces the sample at `index`.
    pub fn set(&mut self, index: usize, sample: u16)
        requires
            index < old(self).samples().len(),
            sample <= old(self).spec_kind().max_sample(),
        ensures
            final(self).spec_kind() == old(self).spec_kind(),
            final(self).samples() == old(self).samples().update(index as int, sample as int),
    {
        match self {
            Buffer::U8(v) => {
                v.set(index, sample as u8);
            },
            Buffer::U16(v) => {
                v.set(index, sample);
            },
        }
        assert(self.samples() =~= old(self).samples().update(index as int, sample as int));
    }
}

} // verus!
