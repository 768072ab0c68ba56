//! Byte buffers, and the serializers that fill them from one token.

use vstd::prelude::*;
use crate::cmdline::error::FlowError;

pub mod arg_int;
pub mod arg_net;

verus! {

/// The capacity of every byte buffer.
pub const ARG_DATA_SIZE: usize = 64;

/// What a byte buffer holds: all the bytes of its storage, and how many of
/// them count.
pub struct ArgModel {
    pub data: Seq<u8>,
    pub size: nat,
}

impl ArgModel {
    /// The storage has the fixed capacity and the logical size lies within it.
    pub open spec fn wf(self) -> bool {
        self.data.len() == ARG_DATA_SIZE && self.size <= ARG_DATA_SIZE
    }

    /// A buffer of zero bytes with the logical size `size`.
    pub open spec fn zero(size: nat) -> ArgModel {
        ArgModel { data: Seq::new(ARG_DATA_SIZE as nat, |i: int| 0u8), size }
    }

    /// A buffer that starts with `bytes`, is zero behind them and counts
    /// exactly them.
    pub open spec fn from_bytes(bytes: Seq<u8>) -> ArgModel {
        ArgModel {
            data: Seq::new(
                ARG_DATA_SIZE as nat,
                |i: int| if i < bytes.len() { bytes[i] } else { 0u8 },
            ),
            size: bytes.len(),
        }
    }

    /// The bytes that count.
    pub open spec fn bytes(self) -> Seq<u8> {
        self.data.take(self.size as int)
    }

    /// A write of `len` bytes at `offset` stays within the capacity.
    pub open spec fn fits(len: nat, offset: nat) -> bool {
        offset + len <= ARG_DATA_SIZE
    }

    /// The logical size after a write of `len` bytes at `offset`.
    pub open spec fn grown(self, len: nat, offset: nat) -> nat {
        if self.size >= offset + len { self.size } else { offset + len }
    }

    /// The buffer after `src` was OR-ed into it at `offset`.
    pub open spec fn or_merge(self, src: Seq<u8>, offset: nat) -> ArgModel {
        ArgModel {
            data: Seq::new(
                self.data.len(),
                |i: int|
                    if offset <= i < offset + src.len() {
                        self.data[i] | src[i - offset]
                    } else {
                        self.data[i]
                    },
            ),
            size: self.grown(src.len(), offset),
        }
    }

    /// The buffer after `src` was AND-ed into it at `offset`.
    pub open spec fn and_merge(self, src: Seq<u8>, offset: nat) -> ArgModel {
        ArgModel {
            data: Seq::new(
                self.data.len(),
                |i: int|
                    if offset <= i < offset + src.len() {
                        self.data[i] & src[i - offset]
                    } else {
                        self.data[i]
                    },
            ),
            size: self.grown(src.len(), offset),
        }
    }
}

/// A storage of which every byte is `byte`.
fn filled(byte: u8) -> (data: [u8; 64])
    ensures
        data@ == Seq::new(ARG_DATA_SIZE as nat, |i: int| byte),
{
    let mut data = [byte; 64];
    let mut i: usize = 0;
    while i < 64
        invariant
            i <= 64,
            forall|j: int| 0 <= j < i ==> data@[j] == byte,
        decreases 64 - i,
    {
        data[i] = byte;
        i += 1;
    }
    assert(data@ =~= Seq::new(ARG_DATA_SIZE as nat, |i: int| byte));
    data
}

/// A byte buffer of fixed capacity with a logical size.
#[derive(Clone, Copy, Debug)]
pub struct ArgData {
    pub(crate) data: [u8; 64],
    pub(crate) size: usize,
}

impl View for ArgData {
    type V = ArgModel;

    closed spec fn view(&self) -> ArgModel {
        ArgModel { data: self.data@, size: self.size as nat }
    }
}

impl ArgData {
    #[verifier::type_invariant]
    spec fn within_capacity(self) -> bool {
        self.size <= ARG_DATA_SIZE
    }

    /// A storage of which every bit is set: the mask of an exact match.
    pub fn default_mask() -> (mask: [u8; 64])
        ensures
            mask@ == Seq::new(ARG_DATA_SIZE as nat, |i: int| 0xffu8),
    {
        filled(0xff)
    }

    /// An empty buffer of zero bytes.
    pub fn new() -> (r: Self)
        ensures
            r@ == ArgModel::zero(0),
    {
        ArgData { data: filled(0), size: 0 }
    }

    /// A buffer of zero bytes that counts `size` of them.
    pub fn new_from_size(size: usize) -> (r: Self)
        requires
            size <= ARG_DATA_SIZE,
        ensures
            r@ == ArgModel::zero(size as nat),
    {
        ArgData { data: filled(0), size }
    }

    /// A buffer that holds a copy of `slice`.
    pub fn new_from_slice(slice: &[u8]) -> (r: Self)
        requires
            slice@.len() <= ARG_DATA_SIZE,
        ensures
            r@ == ArgModel::from_bytes(slice@),
    {
        let mut data = filled(0);
        let n = slice.len();
        let mut i: usize = 0;
        while i < n
            invariant
                i <= n,
                n == slice@.len(),
                n <= ARG_DATA_SIZE,
                forall|j: int| 0 <= j < i ==> data@[j] == slice@[j],
                forall|j: int| i <= j < ARG_DATA_SIZE ==> data@[j] == 0u8,
            decreases n - i,
        {
            data[i] = slice[i];
            i += 1;
        }
        let r = ArgData { data, size: n };
        assert(r@.data =~= ArgModel::from_bytes(slice@).data);
        r
    }

    /// The logical size.
    pub fn size(&self) -> (n: usize)
        ensures
            n == self@.size,
            self@.wf(),
    {
        proof {
            use_type_invariant(self);
        }
        self.size
    }

    /// The whole storage.
    pub fn data(&self) -> (d: &[u8; 64])
        ensures
            d@ == self@.data,
    {
        &self.data
    }

    /// The bytes that count.
    pub fn bytes(&self) -> (b: &[u8])
        ensures
            b@ == self@.bytes(),
    {
        proof {
            use_type_invariant(self);
        }
        vstd::slice::slice_subrange(self.data.as_slice(), 0, self.size)
    }

    /// ORs `src` into the buffer at `offset` and grows the logical size to
    /// the end of the write. A write that would end beyond the capacity
    /// changes nothing.
    pub fn or_from_slice(&mut self, src: &[u8], offset: usize) -> (r: Result<(), FlowError>)
        ensures
            final(self)@.wf(),
            match r {
                Ok(()) => ArgModel::fits(src@.len(), offset as nat) && final(self)@ == old(
                    self,
                )@.or_merge(src@, offset as nat),
                Err(e) => e == FlowError::OutOfBounds && !ArgModel::fits(
                    src@.len(),
                    offset as nat,
                ) && final(self)@ == old(self)@,
            },
    {
        proof {
            use_type_invariant(&*self);
        }
        let n = src.len();
        if offset > ARG_DATA_SIZE || n > ARG_DATA_SIZE - offset {
            return Err(FlowError::OutOfBounds);
        }
        let mut i: usize = 0;
        while i < n
            invariant
                i <= n,
                n == src@.len(),
                offset + n <= ARG_DATA_SIZE,
                self.size == old(self).size,
                self.size <= ARG_DATA_SIZE,
                forall|j: int|
                    offset <= j < offset + i ==> self.data@[j] == old(self).data@[j] | src@[j
                        - offset],
                forall|j: int|
                    0 <= j < ARG_DATA_SIZE && !(offset <= j < offset + i) ==> self.data@[j] == old(
                        self,
                    ).data@[j],
            decreases n - i,
        {
            self.data[offset + i] = self.data[offset + i] | src[i];
            i += 1;
        }
        if offset + n > self.size {
            self.size = offset + n;
        }
        assert(self@.data =~= old(self)@.or_merge(src@, offset as nat).data);
        Ok(())
    }

    /// ANDs `src` into the buffer at `offset` and grows the logical size to
    /// the end of the write. A write that would end beyond the capacity
    /// changes nothing.
    pub fn and_from_slice(&mut self, src: &[u8], offset: usize) -> (r: Result<(), FlowError>)
        ensures
            final(self)@.wf(),
            match r {
                Ok(()) => ArgModel::fits(src@.len(), offset as nat) && final(self)@ == old(
                    self,
                )@.and_merge(src@, offset as nat),
                Err(e) => e == FlowError::OutOfBounds && !ArgModel::fits(
                    src@.len(),
                    offset as nat,
                ) && final(self)@ == old(self)@,
            },
    {
        proof {
            use_type_invariant(&*self);
        }
        let n = src.len();
        if offset > ARG_DATA_SIZE || n > ARG_DATA_SIZE - offset {
            return Err(FlowError::OutOfBounds);
        }
        let mut i: usize = 0;
        while i < n
            invariant
                i <= n,
                n == src@.len(),
                offset + n <= ARG_DATA_SIZE,
                self.size == old(self).size,
                self.size <= ARG_DATA_SIZE,
                forall|j: int|
                    offset <= j < offset + i ==> self.data@[j] == old(self).data@[j] & src@[j
                        - offset],
                forall|j: int|
                    0 <= j < ARG_DATA_SIZE && !(offset <= j < offset + i) ==> self.data@[j] == old(
                        self,
                    ).data@[j],
            decreases n - i,
        {
            self.data[offset + i] = self.data[offset + i] & src[i];
            i += 1;
        }
        if offset + n > self.size {
            self.size = offset + n;
        }
        assert(self@.data =~= old(self)@.and_merge(src@, offset as nat).data);
        Ok(())
    }
}

/// A serializer: turns one token into the bytes of a field.
pub trait Arg: Send + Sync {
    /// The buffer that the token `sample` stands for, or why it stands for none.
    spec fn encode(&self, sample: Seq<char>) -> Result<ArgModel, FlowError>;

    /// Serializes `sample`.
    fn serialize(&self, sample: &str) -> (r: Result<ArgData, FlowError>)
        ensures
            match r {
                Ok(a) => self.encode(sample@) == Ok::<ArgModel, FlowError>(a@),
                Err(e) => self.encode(sample@) == Err::<ArgModel, FlowError>(e),
            },
    ;
}

} // verus!
