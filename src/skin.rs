//! Skins: joints, skeleton root and inverse-bind matrices.
use vstd::prelude::*;
use crate::accessor::{
    answer_outcome, bytes_of, is_reachable, read_accessor, reachable, view_of, Iter, ReadError,
    Resolve,
};
use crate::json::{self, Accessor, DataType, Dimensions, Node, Root};
use crate::validation::is_float;

verus! {

/// Joints and matrices defining a skin.
#[derive(Clone, Copy, Debug)]
pub struct Skin<'a> {
    document: &'a Root,
    index: usize,
}

/// Walks the nodes used as joints of a skin, in order.
#[derive(Clone, Copy, Debug)]
pub struct Joints<'a> {
    document: &'a Root,
    skin: usize,
    pos: usize,
}

/// Decodes a skin's inverse-bind matrices with bytes from a resolver.
pub struct Reader<'a, R: Resolve> {
    skin: Skin<'a>,
    resolver: R,
}

/// The inverse-bind matrices of a skin.
#[derive(Debug)]
pub enum InverseBindMatrices<'s> {
    /// The skin names no accessor: every matrix is the identity.
    NoAccessor,
    /// The matrices, as 4x4 column-major 32-bit floats given by their bits.
    Data(Iter<'s>),
}

/// What reading the inverse-bind matrices gives when the skin names accessor
/// `m` (or none), for the resolver's answer `answer` for its buffer.
pub open spec fn matrices_outcome<'s>(
    r: Root,
    m: Option<usize>,
    answer: Option<Seq<u8>>,
    res: Result<InverseBindMatrices<'s>, ReadError>,
) -> bool {
    match m {
        None => res matches Ok(InverseBindMatrices::NoAccessor),
        Some(i) => if answer is Some && !is_float(r.accessors@[i as int], Dimensions::Mat4) {
            res == Err::<InverseBindMatrices<'s>, ReadError>(ReadError::Unsupported)
        } else {
            match res {
                Ok(InverseBindMatrices::Data(it)) => answer_outcome(
                    r.accessors@[i as int],
                    view_of(r, i as int),
                    answer,
                    Ok(it),
                ),
                Ok(InverseBindMatrices::NoAccessor) => false,
                Err(e) => answer_outcome(r.accessors@[i as int], view_of(r, i as int), answer, Err(e)),
            }
        },
    }
}

/// Two reads of a skin's matrices from the same answer agree: both
/// `NoAccessor`, the same error, or data of the same elements.
pub proof fn lemma_matrices_determined<'s, 't>(
    r: Root,
    m: Option<usize>,
    answer: Option<Seq<u8>>,
    first: Result<InverseBindMatrices<'s>, ReadError>,
    second: Result<InverseBindMatrices<'t>, ReadError>,
)
    requires
        matrices_outcome(r, m, answer, first),
        matrices_outcome(r, m, answer, second),
    ensures
        first is Ok <==> second is Ok,
        first matches Err(e) ==> second == Err::<InverseBindMatrices<'t>, ReadError>(e),
        first matches Ok(InverseBindMatrices::NoAccessor) ==> second matches Ok(
            InverseBindMatrices::NoAccessor,
        ),
        first matches Ok(InverseBindMatrices::Data(x)) ==> second matches Ok(
            InverseBindMatrices::Data(y),
        ) && x@ == y@,
{
    if m is Some && !(answer is Some && !is_float(r.accessors@[m->0 as int], Dimensions::Mat4)) {
        let a = r.accessors@[m->0 as int];
        let v = view_of(r, m->0 as int);
        let f: Result<Iter<'s>, ReadError> = match first {
            Ok(InverseBindMatrices::Data(x)) => Ok(x),
            Ok(InverseBindMatrices::NoAccessor) => Err(ReadError::Dangling),
            Err(e) => Err(e),
        };
        let g: Result<Iter<'t>, ReadError> = match second {
            Ok(InverseBindMatrices::Data(y)) => Ok(y),
            Ok(InverseBindMatrices::NoAccessor) => Err(ReadError::Dangling),
            Err(e) => Err(e),
        };
        crate::accessor::lemma_outcome_determined(a, v, answer, f, g);
    }
}

impl<'a> Skin<'a> {
    pub closed spec fn doc(&self) -> Root {
        *self.document
    }

    pub closed spec fn idx(&self) -> int {
        self.index as int
    }

    pub open spec fn wf(&self) -> bool {
        0 <= self.idx() < self.doc().skins@.len()
    }

    pub open spec fn record(&self) -> json::Skin {
        self.doc().skins@[self.idx()]
    }

    /// The inverse-bind accessor, if any, and the path to its bytes exist.
    pub open spec fn readable(&self) -> bool {
        self.wf() && (self.record().inverse_bind_matrices matches Some(i) ==> reachable(
            self.doc(),
            i as int,
        ))
    }

    /// The buffer that holds the inverse-bind accessor's bytes.
    pub open spec fn matrices_buffer_spec(&self) -> usize {
        view_of(self.doc(), self.record().inverse_bind_matrices->0 as int).buffer
    }

    /// The buffer asked for the inverse-bind matrices.
    pub fn matrices_buffer(&self) -> (b: usize)
        requires
            self.readable(),
            self.record().inverse_bind_matrices is Some,
        ensures
            b == self.matrices_buffer_spec(),
    {
        let doc = self.document;
        match doc.skins[self.index].inverse_bind_matrices {
            Some(i) => doc.buffer_views[doc.accessors[i].buffer_view].buffer,
            None => 0,
        }
    }

    /// Skin `index` of `document`.
    pub fn new(document: &'a Root, index: usize) -> (r: Skin<'a>)
        requires
            index < document.skins@.len(),
        ensures
            r.doc() == *document,
            r.idx() == index,
            r.wf(),
    {
        Skin { document, index }
    }

    /// Position of this skin in the document.
    pub fn index(&self) -> (r: usize)
        ensures
            r == self.idx(),
    {
        self.index
    }

    /// Optional user-defined name.
    pub fn name(&self) -> (r: &'a Option<String>)
        requires
            self.wf(),
        ensures
            *r == self.record().name,
    {
        &self.document.skins[self.index].name
    }

    /// Optional application-specific data, as raw JSON text.
    pub fn extras(&self) -> (r: &'a Option<String>)
        requires
            self.wf(),
        ensures
            *r == self.record().extras,
    {
        let doc: &'a Root = self.document;
        &doc.skins[self.index].extras
    }

    /// The accessor of inverse-bind matrices; `None` means each matrix is
    /// the identity.
    pub fn inverse_bind_matrices(&self) -> (r: Option<&'a Accessor>)
        requires
            self.wf(),
            self.record().inverse_bind_matrices matches Some(i) ==> i
                < self.doc().accessors@.len(),
        ensures
            match self.record().inverse_bind_matrices {
                None => r is None,
                Some(i) => r matches Some(a) && *a == self.doc().accessors@[i as int],
            },
    {
        let doc: &'a Root = self.document;
        match doc.skins[self.index].inverse_bind_matrices {
            None => None,
            Some(i) => Some(&doc.accessors[i]),
        }
    }

    /// The skeleton root; `None` means joints resolve to the scene root.
    pub fn skeleton(&self) -> (r: Option<&'a Node>)
        requires
            self.wf(),
            self.record().skeleton matches Some(i) ==> i < self.doc().nodes@.len(),
        ensures
            match self.record().skeleton {
                None => r is None,
                Some(i) => r matches Some(n) && *n == self.doc().nodes@[i as int],
            },
    {
        let doc: &'a Root = self.document;
        match doc.skins[self.index].skeleton {
            None => None,
            Some(i) => Some(&doc.nodes[i]),
        }
    }

    /// Walks the joints from the first.
    pub fn joints(&self) -> (r: Joints<'a>)
        requires
            self.wf(),
        ensures
            r.doc() == self.doc(),
            r.skin_idx() == self.idx(),
            r.pos_spec() == 0,
            r.wf(),
    {
        Joints { document: self.document, skin: self.index, pos: 0 }
    }

    /// A reader of this skin's matrices, with bytes from `resolver`.
    pub fn reader<R: Resolve>(&self, resolver: R) -> (r: Reader<'a, R>)
        requires
            self.wf(),
        ensures
            r.skin_spec() == *self,
            r.resolver_spec() == resolver,
            r.wf(),
    {
        Reader { skin: *self, resolver }
    }

    /// Builds the matrix sequence from the resolver's answer for the
    /// accessor's buffer; a skin without an accessor gives `NoAccessor`
    /// whatever the answer.
    pub fn inverse_bind_matrices_from<'s>(&self, data: Option<&'s [u8]>) -> (res: Result<
        InverseBindMatrices<'s>,
        ReadError,
    >)
        requires
            self.readable(),
        ensures
            matrices_outcome(self.doc(), self.record().inverse_bind_matrices, bytes_of(data), res),
    {
        match self.document.skins[self.index].inverse_bind_matrices {
            None => Ok(InverseBindMatrices::NoAccessor),
            Some(i) => {
                let a = &self.document.accessors[i];
                if data.is_some() && !(a.component_type == DataType::F32 && a.type_
                    == Dimensions::Mat4) {
                    return Err(ReadError::Unsupported);
                }
                match read_accessor(self.document, i, data) {
                    Ok(it) => Ok(InverseBindMatrices::Data(it)),
                    Err(e) => Err(e),
                }
            },
        }
    }
}

impl<'a> Joints<'a> {
    pub closed spec fn doc(&self) -> Root {
        *self.document
    }

    pub closed spec fn skin_idx(&self) -> int {
        self.skin as int
    }

    pub closed spec fn pos_spec(&self) -> int {
        self.pos as int
    }

    pub open spec fn wf(&self) -> bool {
        0 <= self.skin_idx() < self.doc().skins@.len() && 0 <= self.pos_spec()
            <= self.doc().skins@[self.skin_idx()].joints@.len()
    }

    /// The joint indices not yet visited.
    pub open spec fn remaining(&self) -> Seq<usize> {
        self.doc().skins@[self.skin_idx()].joints@.skip(self.pos_spec())
    }

    /// The next joint's node; `None` once every joint has been visited. A
    /// joint index out of range is a precondition violation: the minimal
    /// pass reports it.
    pub fn next(&mut self) -> (r: Option<&'a Node>)
        requires
            old(self).wf(),
            old(self).remaining().len() > 0 ==> old(self).remaining()[0] < old(self).doc().nodes@.len(),
        ensures
            final(self).wf(),
            final(self).doc() == old(self).doc(),
            final(self).skin_idx() == old(self).skin_idx(),
            old(self).remaining().len() == 0 ==> r is None && *final(self) == *old(self),
            old(self).remaining().len() > 0 ==> {
                &&& r matches Some(n) && *n == old(self).doc().nodes@[old(self).remaining()[0] as int]
                &&& final(self).remaining() == old(self).remaining().skip(1)
            },
    {
        let doc: &'a Root = self.document;
        let joints = &doc.skins[self.skin].joints;
        if self.pos < joints.len() {
            let n = joints[self.pos];
            self.pos = self.pos + 1;
            proof {
                assert(self.remaining() =~= old(self).remaining().skip(1));
            }
            Some(&doc.nodes[n])
        } else {
            None
        }
    }
}

impl<'a, R: Resolve> Reader<'a, R> {
    pub closed spec fn skin_spec(&self) -> Skin<'a> {
        self.skin
    }

    pub closed spec fn resolver_spec(&self) -> R {
        self.resolver
    }

    pub open spec fn wf(&self) -> bool {
        self.skin_spec().wf()
    }

    /// Reads the inverse-bind matrices. A skin without an accessor gives
    /// `NoAccessor`, never `Unresolved`, and asks the resolver nothing;
    /// `Dangling` when an index on the way is out of range; otherwise asks
    /// the resolver for the accessor's buffer and gives what
    /// `Skin::inverse_bind_matrices_from` gives for its answer.
    pub fn read_inverse_bind_matrices(&self) -> (res: Result<InverseBindMatrices<'_>, ReadError>)
        requires
            self.wf(),
        ensures
            self.skin_spec().record().inverse_bind_matrices is None ==> res matches Ok(
                InverseBindMatrices::NoAccessor,
            ),
            res == Err::<InverseBindMatrices<'_>, ReadError>(ReadError::Dangling) <==> !self.skin_spec().readable(),
            self.skin_spec().readable() && self.skin_spec().record().inverse_bind_matrices is Some
                ==> matrices_outcome(
                self.skin_spec().doc(),
                self.skin_spec().record().inverse_bind_matrices,
                self.resolver_spec().answer(self.skin_spec().matrices_buffer_spec()),
                res,
            ),
    {
        let doc = self.skin.document;
        match doc.skins[self.skin.index].inverse_bind_matrices {
            None => Ok(InverseBindMatrices::NoAccessor),
            Some(i) => {
                if !is_reachable(doc, i) {
                    return Err(ReadError::Dangling);
                }
                let data = self.resolver.resolve(self.skin.matrices_buffer());
                self.skin.inverse_bind_matrices_from(data)
            },
        }
    }
}

} // verus!
