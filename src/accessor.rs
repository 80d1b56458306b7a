//! Decoding of accessor bytes into typed elements, read lazily from a
//! borrowed byte slice.
use vstd::prelude::*;
use crate::json::{Accessor, BufferView, DataType, Dimensions, Root};

verus! {

/// Bytes per element of an accessor (tightly packed).
pub open spec fn element_size(a: Accessor) -> nat {
    a.component_type.size_spec() * a.type_.multiplicity_spec()
}

/// Distance in bytes between the starts of two consecutive elements.
pub open spec fn stride_of(a: Accessor, v: BufferView) -> nat {
    match v.byte_stride {
        Some(s) => s as nat,
        None => element_size(a),
    }
}

/// Bytes, counted from the start of the accessor, that its elements span.
pub open spec fn span_of(a: Accessor, v: BufferView) -> nat {
    if a.count == 0 {
        0
    } else {
        ((a.count - 1) * stride_of(a, v) + element_size(a)) as nat
    }
}

/// Every element of the accessor lies inside its buffer view.
pub open spec fn fits_view(a: Accessor, v: BufferView) -> bool {
    a.byte_offset + span_of(a, v) <= v.byte_length
}

/// The value of one component stored little-endian at byte `p`; a 32-bit
/// float is given by its bit pattern.
pub open spec fn component_value(t: DataType, b: Seq<u8>, p: int) -> int {
    match t {
        DataType::U8 => b[p] as int,
        DataType::I8 => if b[p] < 128 { b[p] as int } else { b[p] - 256 },
        DataType::U16 => b[p] + 256 * b[p + 1],
        DataType::I16 => {
            let u = b[p] + 256 * b[p + 1];
            if u < 32768 { u } else { u - 65536 }
        },
        DataType::U32 | DataType::F32 => b[p] + 256 * b[p + 1] + 65536 * b[p + 2] + 16777216 * b[
            p + 3],
    }
}

/// The components of the element that starts at byte `p`.
pub open spec fn element_value(t: DataType, d: Dimensions, b: Seq<u8>, p: int) -> Seq<int> {
    Seq::new(d.multiplicity_spec(), |k: int| component_value(t, b, p + k * t.size_spec()))
}

/// Byte at which element `i` starts, in a slice that holds the whole buffer.
pub open spec fn element_start(a: Accessor, v: BufferView, i: int) -> int {
    v.byte_offset + a.byte_offset + i * stride_of(a, v)
}

/// The elements of an accessor read from a slice holding the whole buffer.
pub open spec fn decoded(a: Accessor, v: BufferView, b: Seq<u8>) -> Seq<Seq<int>> {
    Seq::new(
        a.count as nat,
        |i: int| element_value(a.component_type, a.type_, b, element_start(a, v, i)),
    )
}

/// Bytes per element of `a`.
pub fn element_bytes(a: &Accessor) -> (r: usize)
    ensures
        r == element_size(*a),
{
    a.component_type.size() * a.type_.multiplicity()
}

/// The stride of `a` in `v`: the view's own, or the element size.
pub fn stride(a: &Accessor, v: &BufferView) -> (r: usize)
    ensures
        r == stride_of(*a, *v),
{
    match v.byte_stride {
        Some(s) => s,
        None => element_bytes(a),
    }
}

/// Whether every element of `a` lies inside `v`.
pub fn fits(a: &Accessor, v: &BufferView) -> (r: bool)
    ensures
        r == fits_view(*a, *v),
{
    if a.count == 0 {
        a.byte_offset <= v.byte_length
    } else {
        let c1 = (a.count - 1) as u128;
        let st = stride(a, v) as u128;
        proof {
            assert(c1 * st <= 0xffff_ffff_ffff_ffffu128 * 0xffff_ffff_ffff_ffffu128)
                by (nonlinear_arith)
                requires
                    c1 <= 0xffff_ffff_ffff_ffffu128,
                    st <= 0xffff_ffff_ffff_ffffu128,
            ;
        }
        let need = a.byte_offset as u128 + c1 * st + element_bytes(a) as u128;
        need <= v.byte_length as u128
    }
}

/// A normalised integer as an exact fraction `num / den`.
#[derive(Clone, Copy, Debug, PartialEq, Eq, Structural)]
pub struct Fraction {
    pub num: i64,
    pub den: u32,
}

/// The normalised value of an integer component: unsigned types map onto
/// [0, 1] and signed types onto [-1, 1] by division by the type's largest
/// value; the most negative signed value clamps to -1. Float and 32-bit
/// components have no normalised form.
pub open spec fn normalized_value(t: DataType, c: int) -> Option<(int, int)> {
    match t {
        DataType::U8 => Some((c, 255)),
        DataType::U16 => Some((c, 65535)),
        DataType::I8 => Some((if c < -127 { -127 } else { c }, 127)),
        DataType::I16 => Some((if c < -32767 { -32767 } else { c }, 32767)),
        DataType::U32 | DataType::F32 => None,
    }
}

/// Why a sequence could not be built over a slice.
#[derive(Clone, Copy, Debug, PartialEq, Eq, Structural)]
pub enum DecodeError {
    /// The accessor's elements run past the end of its buffer view.
    OutsideView,
    /// The slice is shorter than the buffer view requires.
    ShortSlice,
}

/// Reads the component of type `t` stored at byte `p` of `b`.
pub fn decode_component(t: DataType, b: &[u8], p: usize) -> (r: i64)
    requires
        p + t.size_spec() <= b@.len(),
    ensures
        r as int == component_value(t, b@, p as int),
{
    match t {
        DataType::U8 => b[p] as i64,
        DataType::I8 => {
            let x = b[p] as i64;
            if x < 128 {
                x
            } else {
                x - 256
            }
        },
        DataType::U16 => b[p] as i64 + 256 * (b[p + 1] as i64),
        DataType::I16 => {
            let u = b[p] as i64 + 256 * (b[p + 1] as i64);
            if u < 32768 {
                u
            } else {
                u - 65536
            }
        },
        DataType::U32 | DataType::F32 => {
            b[p] as i64 + 256 * (b[p + 1] as i64) + 65536 * (b[p + 2] as i64) + 16777216 * (b[p
                + 3] as i64)
        },
    }
}

/// The normalised form of component value `c` of type `t`.
pub fn normalize(t: DataType, c: i64) -> (r: Option<Fraction>)
    ensures
        match normalized_value(t, c as int) {
            Some((n, d)) => r == Some(Fraction { num: n as i64, den: d as u32 }),
            None => r.is_none(),
        },
{
    match t {
        DataType::U8 => Some(Fraction { num: c, den: 255 }),
        DataType::U16 => Some(Fraction { num: c, den: 65535 }),
        DataType::I8 => Some(Fraction { num: if c < -127 { -127 } else { c }, den: 127 }),
        DataType::I16 => Some(Fraction { num: if c < -32767 { -32767 } else { c }, den: 32767 }),
        DataType::U32 | DataType::F32 => None,
    }
}

/// A lazy, restartable sequence of the elements of one accessor, read from a
/// slice that holds the whole buffer.
#[derive(Clone, Copy, Debug)]
pub struct Iter<'s> {
    data: &'s [u8],
    accessor: Accessor,
    view: BufferView,
    stride: usize,
}

impl<'s> View for Iter<'s> {
    type V = Seq<Seq<int>>;

    closed spec fn view(&self) -> Seq<Seq<int>> {
        decoded(self.accessor, self.view, self.data@)
    }
}

impl<'s> Iter<'s> {
    /// The accessor this sequence reads.
    pub closed spec fn accessor_spec(&self) -> Accessor {
        self.accessor
    }

    /// The buffer view this sequence reads from.
    pub closed spec fn view_spec(&self) -> BufferView {
        self.view
    }

    /// The bytes this sequence reads.
    pub closed spec fn bytes(&self) -> Seq<u8> {
        self.data@
    }

    /// Built for accessor `a` in view `v` over the bytes `b`.
    pub open spec fn decodes(&self, a: Accessor, v: BufferView, b: Seq<u8>) -> bool {
        &&& self.accessor_spec() == a
        &&& self.view_spec() == v
        &&& self.bytes() == b
        &&& self@ == decoded(a, v, b)
    }

    pub closed spec fn wf(&self) -> bool {
        &&& self.stride == stride_of(self.accessor, self.view)
        &&& fits_view(self.accessor, self.view)
        &&& self.view.byte_offset + self.view.byte_length <= self.data@.len()
    }

    /// Builds the sequence for accessor `a` in view `v` over `data`, which
    /// holds the whole buffer. Fails, without reading, when the accessor does
    /// not fit its view or the view does not fit the slice.
    pub fn new(a: Accessor, v: BufferView, data: &'s [u8]) -> (r: Result<Iter<'s>, DecodeError>)
        ensures
            match r {
                Ok(it) => it.wf() && it.decodes(a, v, data@) && it@.len() == a.count,
                Err(DecodeError::OutsideView) => !fits_view(a, v),
                Err(DecodeError::ShortSlice) => fits_view(a, v) && v.byte_offset + v.byte_length
                    > data@.len(),
            },
            r.is_ok() <==> fits_view(a, v) && v.byte_offset + v.byte_length <= data@.len(),
    {
        let stride = stride(&a, &v);
        let fits = fits(&a, &v);
        if !fits {
            return Err(DecodeError::OutsideView);
        }
        if v.byte_offset as u128 + v.byte_length as u128 > data.len() as u128 {
            return Err(DecodeError::ShortSlice);
        }
        Ok(Iter { data, accessor: a, view: v, stride })
    }

    /// The accessor this sequence reads: its component type, shape and
    /// normalisation flag.
    pub fn accessor(&self) -> (r: Accessor)
        ensures
            r == self.accessor_spec(),
    {
        self.accessor
    }

    /// Number of elements: the accessor's declared count.
    pub fn len(&self) -> (r: usize)
        requires
            self.wf(),
        ensures
            r == self@.len(),
            r == self.accessor_spec().count,
    {
        self.accessor.count
    }

    /// Reads element `i`.
    pub fn get(&self, i: usize) -> (r: Vec<i64>)
        requires
            self.wf(),
            i < self@.len(),
        ensures
            r@.len() == self@[i as int].len(),
            forall|k: int| 0 <= k < r@.len() ==> r@[k] as int == self@[i as int][k],
    {
        proof {
            self.lemma_element_in_view(i as int);
        }
        let size = self.accessor.component_type.size();
        let m = self.accessor.type_.multiplicity();
        let _len = self.data.len();
        proof {
            assert(size * m == m * size) by (nonlinear_arith);
            assert(i * self.stride >= 0) by (nonlinear_arith);
        }
        let start = self.view.byte_offset + self.accessor.byte_offset + i * self.stride;
        let mut out: Vec<i64> = Vec::new();
        let mut k: usize = 0;
        while k < m
            invariant
                self.wf(),
                i < self.accessor.count,
                size == self.accessor.component_type.size_spec(),
                m == self.accessor.type_.multiplicity_spec(),
                start == element_start(self.accessor, self.view, i as int),
                start + m * size <= self.data@.len(),
                self.data@.len() <= usize::MAX,
                k <= m,
                out@.len() == k,
                forall|j: int|
                    0 <= j < k ==> out@[j] as int == element_value(
                        self.accessor.component_type,
                        self.accessor.type_,
                        self.data@,
                        start as int,
                    )[j],
            decreases m - k,
        {
            proof {
                assert((k + 1) * size <= m * size) by (nonlinear_arith)
                    requires
                        k < m,
                ;
                assert((k + 1) * size == k * size + size) by (nonlinear_arith);
                assert(k * size <= m * size) by (nonlinear_arith)
                    requires
                        k < m,
                ;
            }
            let c = decode_component(self.accessor.component_type, self.data, start + k * size);
            out.push(c);
            k = k + 1;
        }
        out
    }

    /// Reads element `i` rescaled, when the accessor is marked normalised and
    /// its component type has a normalised form; `None` otherwise.
    pub fn get_normalized(&self, i: usize) -> (r: Option<Vec<Fraction>>)
        requires
            self.wf(),
            i < self@.len(),
        ensures
            r is Some <==> self.accessor_spec().normalized && normalized_value(
                self.accessor_spec().component_type,
                0,
            ) is Some,
            r matches Some(v) ==> v@.len() == self@[i as int].len() && forall|k: int|
                0 <= k < v@.len() ==> normalized_value(
                    self.accessor_spec().component_type,
                    self@[i as int][k],
                ) == Some(((#[trigger] v@[k]).num as int, v@[k].den as int)),
    {
        let t = self.accessor.component_type;
        if !self.accessor.normalized || t == DataType::U32 || t == DataType::F32 {
            return None;
        }
        let raw = self.get(i);
        let mut out: Vec<Fraction> = Vec::new();
        let mut k: usize = 0;
        while k < raw.len()
            invariant
                raw@.len() == self@[i as int].len(),
                forall|j: int| 0 <= j < raw@.len() ==> raw@[j] as int == self@[i as int][j],
                t == self.accessor_spec().component_type,
                t != DataType::U32 && t != DataType::F32,
                k <= raw@.len(),
                out@.len() == k,
                forall|j: int|
                    0 <= j < k ==> normalized_value(t, self@[i as int][j]) == Some(
                        ((#[trigger] out@[j]).num as int, out@[j].den as int),
                    ),
            decreases raw@.len() - k,
        {
            match normalize(t, raw[k]) {
                Some(f) => out.push(f),
                None => {
                    return None;
                },
            }
            k = k + 1;
        }
        Some(out)
    }

    /// Element `i` ends inside the buffer view, hence inside the slice.
    pub proof fn lemma_element_in_view(&self, i: int)
        requires
            self.wf(),
            0 <= i < self.accessor_spec().count,
        ensures
            self.view_spec().byte_offset <= element_start(self.accessor_spec(), self.view_spec(), i),
            element_start(self.accessor_spec(), self.view_spec(), i) + element_size(
                self.accessor_spec(),
            ) <= self.view_spec().byte_offset + self.view_spec().byte_length,
            self.view_spec().byte_offset + self.view_spec().byte_length <= self.bytes().len(),
    {
        lemma_reads_inside_view(self.accessor, self.view, i);
    }

    /// Reads every element, from the first, without changing the sequence.
    pub fn to_vec(&self) -> (r: Vec<Vec<i64>>)
        requires
            self.wf(),
        ensures
            r@.len() == self@.len(),
            forall|i: int|
                0 <= i < r@.len() ==> r@[i]@.len() == self@[i].len() && forall|k: int|
                    0 <= k < r@[i]@.len() ==> r@[i]@[k] as int == #[trigger] self@[i][k],
    {
        let n = self.len();
        let mut out: Vec<Vec<i64>> = Vec::new();
        let mut i: usize = 0;
        while i < n
            invariant
                self.wf(),
                n == self@.len(),
                i <= n,
                out@.len() == i,
                forall|j: int|
                    0 <= j < i ==> out@[j]@.len() == self@[j].len() && forall|k: int|
                        0 <= k < out@[j]@.len() ==> out@[j]@[k] as int == #[trigger] self@[j][k],
            decreases n - i,
        {
            let e = self.get(i);
            out.push(e);
            i = i + 1;
        }
        out
    }
}

/// Supplies the bytes of a buffer, given its index; `None` when they cannot
/// be had (an unsupported URI, a missing file). A resolver is pure: for one
/// document it gives the same answer, `answer(buffer)`, for the same index.
pub trait Resolve {
    /// The bytes this resolver supplies for `buffer`, if any.
    spec fn answer(&self, buffer: usize) -> Option<Seq<u8>>;

    fn resolve(&self, buffer: usize) -> (r: Option<&[u8]>)
        ensures
            bytes_of(r) == self.answer(buffer),
    ;
}

/// The bytes a resolver's reply holds, if any.
pub open spec fn bytes_of(r: Option<&[u8]>) -> Option<Seq<u8>> {
    match r {
        None => None,
        Some(s) => Some(s@),
    }
}

/// A resolver that holds the bytes of each buffer that could be loaded.
pub struct Buffers {
    pub data: Vec<Option<Vec<u8>>>,
}

impl Resolve for Buffers {
    open spec fn answer(&self, buffer: usize) -> Option<Seq<u8>> {
        if buffer < self.data@.len() {
            match self.data@[buffer as int] {
                Some(b) => Some(b@),
                None => None,
            }
        } else {
            None
        }
    }

    fn resolve(&self, buffer: usize) -> (r: Option<&[u8]>) {
        if buffer < self.data.len() {
            match &self.data[buffer] {
                Some(b) => Some(b.as_slice()),
                None => None,
            }
        } else {
            None
        }
    }
}

/// Why a reader produced no sequence.
#[derive(Clone, Copy, Debug, PartialEq, Eq, Structural)]
pub enum ReadError {
    /// An index on the way to the bytes is out of range.
    Dangling,
    /// The resolver could not supply the buffer's bytes.
    Unresolved,
    /// The accessor's type or shape is not one the reader may produce.
    Unsupported,
    /// The accessor does not fit its view, or the view the bytes.
    Decode(DecodeError),
}

/// Accessor `i`, its buffer view and that view's buffer all exist.
pub open spec fn reachable(r: Root, i: int) -> bool {
    &&& 0 <= i < r.accessors@.len()
    &&& r.accessors@[i].buffer_view < r.buffer_views@.len()
    &&& r.buffer_views@[r.accessors@[i].buffer_view as int].buffer < r.buffers@.len()
}

/// Whether accessor `i` of `r`, its view and its buffer all exist.
pub fn is_reachable(r: &Root, i: usize) -> (b: bool)
    ensures
        b == reachable(*r, i as int),
{
    i < r.accessors.len() && r.accessors[i].buffer_view < r.buffer_views.len()
        && r.buffer_views[r.accessors[i].buffer_view].buffer < r.buffers.len()
}

/// The view that accessor `i` reads from.
pub open spec fn view_of(r: Root, i: int) -> BufferView {
    r.buffer_views@[r.accessors@[i].buffer_view as int]
}

/// What building a sequence for accessor `a` in view `v` gives when the
/// resolver replied `data`.
pub open spec fn read_outcome<'s>(
    a: Accessor,
    v: BufferView,
    data: Option<&'s [u8]>,
    res: Result<Iter<'s>, ReadError>,
) -> bool {
    answer_outcome(a, v, bytes_of(data), res)
}

/// What building a sequence for accessor `a` in view `v` gives when the
/// resolver's answer is `answer`: the outcome for that answer, whichever
/// slice holds its bytes.
pub open spec fn answer_outcome<'s>(
    a: Accessor,
    v: BufferView,
    answer: Option<Seq<u8>>,
    res: Result<Iter<'s>, ReadError>,
) -> bool {
    match answer {
        None => res == Err::<Iter<'s>, ReadError>(ReadError::Unresolved),
        Some(d) => (res is Ok <==> fits_view(a, v) && v.byte_offset + v.byte_length <= d.len())
            && match res {
            Ok(it) => it.wf() && it.decodes(a, v, d) && it@.len() == a.count,
            Err(ReadError::Decode(DecodeError::OutsideView)) => !fits_view(a, v),
            Err(ReadError::Decode(DecodeError::ShortSlice)) => fits_view(a, v) && v.byte_offset
                + v.byte_length > d.len(),
            Err(_) => false,
        },
    }
}

/// Two builds from the same answer agree: both fail with the same error, or
/// both succeed with sequences of the same elements.
pub proof fn lemma_outcome_determined<'s, 't>(
    a: Accessor,
    v: BufferView,
    answer: Option<Seq<u8>>,
    first: Result<Iter<'s>, ReadError>,
    second: Result<Iter<'t>, ReadError>,
)
    requires
        answer_outcome(a, v, answer, first),
        answer_outcome(a, v, answer, second),
    ensures
        first is Ok <==> second is Ok,
        first matches Err(e) ==> second == Err::<Iter<'t>, ReadError>(e),
        first matches Ok(x) ==> second matches Ok(y) && x@ == y@,
{
}

/// Builds the sequence for accessor `i` of `r` over the resolver's answer.
pub fn read_accessor<'s>(r: &Root, i: usize, data: Option<&'s [u8]>) -> (res: Result<
    Iter<'s>,
    ReadError,
>)
    requires
        reachable(*r, i as int),
    ensures
        read_outcome(r.accessors@[i as int], view_of(*r, i as int), data, res),
{
    match data {
        None => Err(ReadError::Unresolved),
        Some(d) => {
            let a = r.accessors[i];
            match Iter::new(a, r.buffer_views[a.buffer_view], d) {
                Ok(it) => Ok(it),
                Err(e) => Err(ReadError::Decode(e)),
            }
        },
    }
}

/// When an accessor fits its view, element `i` starts and ends inside the
/// view: the bytes read for it are all the view's own.
pub proof fn lemma_reads_inside_view(a: Accessor, v: BufferView, i: int)
    requires
        fits_view(a, v),
        0 <= i < a.count,
    ensures
        v.byte_offset <= element_start(a, v, i),
        element_start(a, v, i) + element_size(a) <= v.byte_offset + v.byte_length,
{
    let s = stride_of(a, v);
    assert(i * s <= (a.count - 1) * s) by (nonlinear_arith)
        requires
            i <= a.count - 1,
            s >= 0,
    ;
    assert(i * s >= 0) by (nonlinear_arith)
        requires
            i >= 0,
            s >= 0,
    ;
}

/// The decoded sequence has exactly the accessor's declared count of
/// elements, whatever the stride.
pub proof fn lemma_decoded_len(a: Accessor, v: BufferView, b: Seq<u8>)
    ensures
        decoded(a, v, b).len() == a.count,
{
}

/// Two sequences built over the same bytes for the same accessor and view
/// yield the same elements, element by element.
pub proof fn lemma_decode_restartable(
    a: Accessor,
    v: BufferView,
    b: Seq<u8>,
    first: Iter,
    second: Iter,
)
    requires
        first.decodes(a, v, b),
        second.decodes(a, v, b),
    ensures
        first@ == second@,
        forall|i: int| 0 <= i < first@.len() ==> first@[i] == second@[i],
{
}

/// Normalised integers stay in [0, 1] (unsigned) or [-1, 1] (signed): zero
/// bytes give 0, the largest unsigned value gives 1, and for signed types
/// the largest value gives 1 and the two most negative give -1.
pub proof fn lemma_normalized_bounds(t: DataType, b: Seq<u8>, p: int)
    requires
        0 <= p,
        p + t.size_spec() <= b.len(),
        t != DataType::U32,
        t != DataType::F32,
    ensures
        ({
            let (n, d) = normalized_value(t, component_value(t, b, p))->0;
            &&& normalized_value(t, component_value(t, b, p)) is Some
            &&& -d <= n <= d
            &&& (t == DataType::U8 || t == DataType::U16) ==> 0 <= n
            &&& b[p] == 0u8 && (t.size_spec() == 2 ==> b[p + 1] == 0u8) ==> n == 0
            &&& (t == DataType::U8 || t == DataType::U16) && b[p] == 0xffu8 && (t.size_spec() == 2
                ==> b[p + 1] == 0xffu8) ==> n == d
            &&& t == DataType::I8 && b[p] == 0x7fu8 ==> n == d
            &&& t == DataType::I8 && (b[p] == 0x80u8 || b[p] == 0x81u8) ==> n == -d
            &&& t == DataType::I16 && b[p] == 0xffu8 && b[p + 1] == 0x7fu8 ==> n == d
            &&& t == DataType::I16 && (b[p] == 0u8 || b[p] == 1u8) && b[p + 1] == 0x80u8 ==> n
                == -d
        }),
{
}

} // verus!
