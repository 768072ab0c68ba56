//! Grammar nodes that are plain data: a terminal selector, which names a
//! descriptor type and the size of its payload, or a field leaf, which
//! names a field by its serializer and its offset in the payload.

use vstd::prelude::*;
use crate::cmdline::arg::{Arg, ArgData, ArgModel};
use crate::cmdline::error::FlowError;

verus! {

/// The serializer of a field and the offset of the field in its payload.
pub type ParamArg = (Box<dyn Arg>, usize);

/// A registered keyword: a terminal selector or a field leaf, never both.
pub struct Param {
    pub(crate) name: String,
    pub(crate) id: Option<isize>,
    pub(crate) size: Option<usize>,
    pub(crate) args: Option<Vec<ParamArg>>,
}

impl Param {
    #[verifier::type_invariant]
    spec fn one_kind(self) -> bool {
        self.wf()
    }

    /// What a terminal selector is made of: a type and a size, no field.
    pub open spec fn terminal_parts(
        id: Option<isize>,
        size: Option<usize>,
        args: Option<Vec<ParamArg>>,
    ) -> bool {
        id is Some && size is Some && args is None
    }

    /// What a field leaf is made of: one field at least, no type, no size.
    pub open spec fn leaf_parts(
        id: Option<isize>,
        size: Option<usize>,
        args: Option<Vec<ParamArg>>,
    ) -> bool {
        id is None && size is None && args is Some && args->0.len() >= 1
    }

    /// The node is a terminal selector or a field leaf.
    pub closed spec fn wf(&self) -> bool {
        Self::terminal_parts(self.id, self.size, self.args) || Self::leaf_parts(
            self.id,
            self.size,
            self.args,
        )
    }

    /// The keyword of the node.
    pub closed spec fn label(&self) -> Seq<char> {
        self.name@
    }

    /// The node is a terminal selector.
    pub closed spec fn is_terminal(&self) -> bool {
        self.id is Some
    }

    /// The descriptor type that a terminal selector names.
    pub closed spec fn type_id(&self) -> isize {
        self.id->0
    }

    /// The size of the payload of the descriptor that a terminal selector names.
    pub closed spec fn payload_size(&self) -> usize {
        self.size->0
    }

    /// What the serializer of a field leaf makes of `sample`.
    pub closed spec fn encode(&self, sample: Seq<char>) -> Result<ArgModel, FlowError> {
        self.args->0[0].0.encode(sample)
    }

    /// The offset of the field of a field leaf.
    pub closed spec fn offset(&self) -> usize {
        self.args->0[0].1
    }

    /// A node with the keyword `name`: a terminal selector for the type `id`
    /// with a payload of `size` bytes, or a field leaf for the first field
    /// of `args`.
    pub fn from(
        name: &str,
        id: Option<isize>,
        size: Option<usize>,
        args: Option<Vec<ParamArg>>,
    ) -> (r: Param)
        requires
            Self::terminal_parts(id, size, args) || Self::leaf_parts(id, size, args),
        ensures
            r.wf(),
            r.label() == name@,
            r.is_terminal() == (id is Some),
            id is Some ==> r.type_id() == id->0 && r.payload_size() == size->0,
            id is None ==> r.offset() == args->0[0].1 && forall|sample: Seq<char>|
                #[trigger] r.encode(sample) == args->0[0].0.encode(sample),
    {
        Param { name: name.to_owned(), id, size, args }
    }

    /// The keyword of the node.
    pub fn keyword(&self) -> (r: &str)
        ensures
            r@ == self.label(),
    {
        self.name.as_str()
    }

    /// The type and the payload size that a terminal selector names.
    pub fn terminal(&self) -> (r: Option<(isize, usize)>)
        ensures
            self.wf(),
            match r {
                Some((id, size)) => self.is_terminal() && id == self.type_id() && size
                    == self.payload_size(),
                None => !self.is_terminal(),
            },
    {
        proof {
            use_type_invariant(self);
        }
        match (self.id, self.size) {
            (Some(id), Some(size)) => Some((id, size)),
            _ => None,
        }
    }

    /// The offset of the field of a field leaf.
    pub fn field_offset(&self) -> (r: Option<usize>)
        ensures
            match r {
                Some(offset) => !self.is_terminal() && offset == self.offset(),
                None => self.is_terminal(),
            },
    {
        proof {
            use_type_invariant(self);
        }
        match &self.args {
            Some(args) => Some(args[0].1),
            None => None,
        }
    }

    /// Serializes `sample` as the field of a field leaf.
    pub(crate) fn serialize(&self, sample: &str) -> (r: Result<ArgData, FlowError>)
        requires
            !self.is_terminal(),
        ensures
            match r {
                Ok(a) => self.encode(sample@) == Ok::<ArgModel, FlowError>(a@),
                Err(e) => self.encode(sample@) == Err::<ArgModel, FlowError>(e),
            },
    {
        proof {
            use_type_invariant(self);
        }
        match &self.args {
            Some(args) => args[0].0.serialize(sample),
            None => Err(FlowError::InvalidArgument),
        }
    }
}

} // verus!
