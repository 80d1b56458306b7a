//! Animations, their channels and samplers, and the reader that decodes a
//! channel's keyframes.
use vstd::prelude::*;
use crate::accessor::{
    answer_outcome, bytes_of, is_reachable, read_accessor, reachable, view_of, Iter, ReadError,
    Resolve,
};
use crate::json::{self, Accessor, Checked, DataType, Dimensions, Interpolation, Node, Property, Root};
use crate::accessor::{element_size, element_start};
use crate::validation::{is_float, lemma_valid_channel, minimal_errors, output_suits, suits};

verus! {

/// A keyframe animation of a document.
#[derive(Clone, Copy, Debug)]
pub struct Animation<'a> {
    document: &'a Root,
    index: usize,
}

/// Targets one of an animation's samplers at a node's property.
#[derive(Clone, Copy, Debug)]
pub struct Channel<'a> {
    anim: Animation<'a>,
    index: usize,
}

/// A keyframe graph: input times, output values, interpolation.
#[derive(Clone, Copy, Debug)]
pub struct Sampler<'a> {
    anim: Animation<'a>,
    index: usize,
}

/// The node and property that a channel drives.
#[derive(Clone, Copy, Debug)]
pub struct Target<'a> {
    anim: Animation<'a>,
    channel: usize,
}

/// Decodes a channel's keyframes with bytes from a resolver.
pub struct Reader<'a, R: Resolve> {
    channel: Channel<'a>,
    resolver: R,
}

/// Rotation keyframes, in the component type the accessor declares.
#[derive(Debug)]
pub enum Rotations<'s> {
    I8(Iter<'s>),
    U8(Iter<'s>),
    I16(Iter<'s>),
    U16(Iter<'s>),
    F32(Iter<'s>),
}

/// Morph-target weights, in the component type the accessor declares.
#[derive(Debug)]
pub enum MorphTargetWeights<'s> {
    I8(Iter<'s>),
    U8(Iter<'s>),
    I16(Iter<'s>),
    U16(Iter<'s>),
    F32(Iter<'s>),
}

/// A channel's output values, tagged by the property they drive.
#[derive(Debug)]
pub enum ReadOutputs<'s> {
    Translations(Iter<'s>),
    Rotations(Rotations<'s>),
    Scales(Iter<'s>),
    MorphTargetWeights(MorphTargetWeights<'s>),
}

impl<'s> Rotations<'s> {
    pub open spec fn data_type(&self) -> DataType {
        match self {
            Rotations::I8(_) => DataType::I8,
            Rotations::U8(_) => DataType::U8,
            Rotations::I16(_) => DataType::I16,
            Rotations::U16(_) => DataType::U16,
            Rotations::F32(_) => DataType::F32,
        }
    }

    pub open spec fn iter(&self) -> Iter<'s> {
        match self {
            Rotations::I8(i) | Rotations::U8(i) | Rotations::I16(i) | Rotations::U16(i)
            | Rotations::F32(i) => *i,
        }
    }
}

impl<'s> MorphTargetWeights<'s> {
    pub open spec fn data_type(&self) -> DataType {
        match self {
            MorphTargetWeights::I8(_) => DataType::I8,
            MorphTargetWeights::U8(_) => DataType::U8,
            MorphTargetWeights::I16(_) => DataType::I16,
            MorphTargetWeights::U16(_) => DataType::U16,
            MorphTargetWeights::F32(_) => DataType::F32,
        }
    }

    pub open spec fn iter(&self) -> Iter<'s> {
        match self {
            MorphTargetWeights::I8(i) | MorphTargetWeights::U8(i) | MorphTargetWeights::I16(i)
            | MorphTargetWeights::U16(i) | MorphTargetWeights::F32(i) => *i,
        }
    }
}

impl<'s> ReadOutputs<'s> {
    /// The sequence inside the tag.
    pub open spec fn iter(&self) -> Iter<'s> {
        match self {
            ReadOutputs::Translations(i) | ReadOutputs::Scales(i) => *i,
            ReadOutputs::Rotations(r) => r.iter(),
            ReadOutputs::MorphTargetWeights(w) => w.iter(),
        }
    }

    /// The tag is the one for property `p` and component type `t`.
    pub open spec fn tagged(&self, p: Property, t: DataType) -> bool {
        match self {
            ReadOutputs::Translations(_) => p == Property::Translation,
            ReadOutputs::Scales(_) => p == Property::Scale,
            ReadOutputs::Rotations(r) => p == Property::Rotation && r.data_type() == t,
            ReadOutputs::MorphTargetWeights(w) => p == Property::MorphTargetWeights
                && w.data_type() == t,
        }
    }
}

/// A rotation channel whose output accessor holds `I8` components reads as
/// the `I8` rotation variant, and no other.
pub proof fn lemma_rotation_tag(o: ReadOutputs, t: DataType)
    requires
        o.tagged(Property::Rotation, t),
    ensures
        t == DataType::I8 ==> o is Rotations && o->Rotations_0 is I8,
        t == DataType::F32 ==> o is Rotations && o->Rotations_0 is F32,
{
}

/// What reading the outputs of a channel gives, for property `p`, accessor
/// `a` in view `v`, and the resolver's answer `answer` for the view's buffer.
pub open spec fn outputs_outcome<'s>(
    p: Property,
    a: Accessor,
    v: json::BufferView,
    answer: Option<Seq<u8>>,
    res: Result<ReadOutputs<'s>, ReadError>,
) -> bool {
    match answer {
        None => res == Err::<ReadOutputs<'s>, ReadError>(ReadError::Unresolved),
        Some(_) => if !output_suits(p, a) {
            res == Err::<ReadOutputs<'s>, ReadError>(ReadError::Unsupported)
        } else {
            match res {
                Ok(o) => o.tagged(p, a.component_type) && answer_outcome(a, v, answer, Ok(o.iter())),
                Err(e) => answer_outcome(a, v, answer, Err(e)),
            }
        },
    }
}

/// Two reads of a channel's outputs from the same answer agree: the same
/// error, or the same variant over the same elements.
pub proof fn lemma_outputs_determined<'s, 't>(
    p: Property,
    a: Accessor,
    v: json::BufferView,
    answer: Option<Seq<u8>>,
    first: Result<ReadOutputs<'s>, ReadError>,
    second: Result<ReadOutputs<'t>, ReadError>,
)
    requires
        outputs_outcome(p, a, v, answer, first),
        outputs_outcome(p, a, v, answer, second),
    ensures
        first is Ok <==> second is Ok,
        first matches Err(e) ==> second == Err::<ReadOutputs<'t>, ReadError>(e),
        first matches Ok(x) ==> second matches Ok(y) && x.iter()@ == y.iter()@ && (
        x is Translations <==> y is Translations) && (x is Scales <==> y is Scales) && (
        x is Rotations <==> y is Rotations) && (x is MorphTargetWeights
            <==> y is MorphTargetWeights) && (x is Rotations ==> x->Rotations_0.data_type()
            == y->Rotations_0.data_type()) && (x is MorphTargetWeights
            ==> x->MorphTargetWeights_0.data_type() == y->MorphTargetWeights_0.data_type()),
{
    if answer is Some && output_suits(p, a) {
        match (first, second) {
            (Ok(x), Ok(y)) => {
                crate::accessor::lemma_outcome_determined(a, v, answer, Ok(x.iter()), Ok(y.iter()));
            },
            (Ok(x), Err(e)) => {
                crate::accessor::lemma_outcome_determined(a, v, answer, Ok(x.iter()), Err::<Iter<'t>, ReadError>(e));
            },
            (Err(e), Ok(y)) => {
                crate::accessor::lemma_outcome_determined(a, v, answer, Err::<Iter<'s>, ReadError>(e), Ok(y.iter()));
            },
            (Err(e), Err(f)) => {
                crate::accessor::lemma_outcome_determined(a, v, answer, Err::<Iter<'s>, ReadError>(e), Err::<Iter<'t>, ReadError>(f));
            },
        }
    }
}

/// Two reads of a channel's keyframe times from the same answer agree.
pub proof fn lemma_inputs_determined<'s, 't>(
    a: Accessor,
    v: json::BufferView,
    answer: Option<Seq<u8>>,
    first: Result<Iter<'s>, ReadError>,
    second: Result<Iter<'t>, ReadError>,
)
    requires
        inputs_outcome(a, v, answer, first),
        inputs_outcome(a, v, answer, second),
    ensures
        first is Ok <==> second is Ok,
        first matches Err(e) ==> second == Err::<Iter<'t>, ReadError>(e),
        first matches Ok(x) ==> second matches Ok(y) && x@ == y@,
{
    if answer is Some && is_float(a, Dimensions::Scalar) {
        crate::accessor::lemma_outcome_determined(a, v, answer, first, second);
    }
}

/// What reading the keyframe times gives, for accessor `a` in view `v` and
/// the resolver's answer `answer` for the view's buffer.
pub open spec fn inputs_outcome<'s>(
    a: Accessor,
    v: json::BufferView,
    answer: Option<Seq<u8>>,
    res: Result<Iter<'s>, ReadError>,
) -> bool {
    match answer {
        None => res == Err::<Iter<'s>, ReadError>(ReadError::Unresolved),
        Some(_) => if !is_float(a, Dimensions::Scalar) {
            res == Err::<Iter<'s>, ReadError>(ReadError::Unsupported)
        } else {
            answer_outcome(a, v, answer, res)
        },
    }
}

impl<'a> Animation<'a> {
    pub closed spec fn doc(&self) -> Root {
        *self.document
    }

    pub closed spec fn idx(&self) -> int {
        self.index as int
    }

    pub open spec fn wf(&self) -> bool {
        0 <= self.idx() < self.doc().animations@.len()
    }

    pub open spec fn record(&self) -> json::Animation {
        self.doc().animations@[self.idx()]
    }

    /// Animation `index` of `document`.
    pub fn new(document: &'a Root, index: usize) -> (r: Animation<'a>)
        requires
            index < document.animations@.len(),
        ensures
            r.doc() == *document,
            r.idx() == index,
            r.wf(),
    {
        Animation { document, index }
    }

    /// Position of this animation in the document.
    pub fn index(&self) -> (r: usize)
        ensures
            r == self.idx(),
    {
        self.index
    }

    /// Optional user-defined name.
    pub fn name(&self) -> (r: &'a Option<String>)
        requires
            self.wf(),
        ensures
            *r == self.record().name,
    {
        &self.document.animations[self.index].name
    }

    /// Optional application-specific data, as raw JSON text.
    pub fn extras(&self) -> (r: &'a Option<String>)
        requires
            self.wf(),
        ensures
            *r == self.record().extras,
    {
        let doc: &'a Root = self.document;
        &doc.animations[self.index].extras
    }

    /// The channels, in order.
    pub fn channels(&self) -> (r: Vec<Channel<'a>>)
        requires
            self.wf(),
        ensures
            r@.len() == self.record().channels@.len(),
            forall|i: int|
                0 <= i < r@.len() ==> (#[trigger] r@[i]).animation_spec() == *self && r@[i].idx()
                    == i && r@[i].wf(),
    {
        let n = self.document.animations[self.index].channels.len();
        let mut out: Vec<Channel<'a>> = Vec::new();
        let mut i: usize = 0;
        while i < n
            invariant
                self.wf(),
                n == self.record().channels@.len(),
                i <= n,
                out@.len() == i,
                forall|j: int|
                    0 <= j < i ==> (#[trigger] out@[j]).animation_spec() == *self && out@[j].idx()
                        == j && out@[j].wf(),
            decreases n - i,
        {
            out.push(Channel::new(*self, i));
            i = i + 1;
        }
        out
    }

    /// The samplers, in order.
    pub fn samplers(&self) -> (r: Vec<Sampler<'a>>)
        requires
            self.wf(),
        ensures
            r@.len() == self.record().samplers@.len(),
            forall|i: int|
                0 <= i < r@.len() ==> (#[trigger] r@[i]).animation_spec() == *self && r@[i].idx()
                    == i && r@[i].wf(),
    {
        let n = self.document.animations[self.index].samplers.len();
        let mut out: Vec<Sampler<'a>> = Vec::new();
        let mut i: usize = 0;
        while i < n
            invariant
                self.wf(),
                n == self.record().samplers@.len(),
                i <= n,
                out@.len() == i,
                forall|j: int|
                    0 <= j < i ==> (#[trigger] out@[j]).animation_spec() == *self && out@[j].idx()
                        == j && out@[j].wf(),
            decreases n - i,
        {
            out.push(Sampler::new(*self, i));
            i = i + 1;
        }
        out
    }
}

impl<'a> Channel<'a> {
    pub closed spec fn animation_spec(&self) -> Animation<'a> {
        self.anim
    }

    pub closed spec fn idx(&self) -> int {
        self.index as int
    }

    pub open spec fn wf(&self) -> bool {
        self.animation_spec().wf() && 0 <= self.idx()
            < self.animation_spec().record().channels@.len()
    }

    pub open spec fn record(&self) -> json::Channel {
        self.animation_spec().record().channels@[self.idx()]
    }

    pub open spec fn doc(&self) -> Root {
        self.animation_spec().doc()
    }

    /// The sampler record this channel uses.
    pub open spec fn sampler_record(&self) -> json::Sampler {
        self.animation_spec().record().samplers@[self.record().sampler as int]
    }

    /// Every index from this channel to the bytes of its sampler's input
    /// and output accessors is in range, and its property is recognised.
    pub open spec fn readable(&self) -> bool {
        &&& self.wf()
        &&& self.record().sampler < self.animation_spec().record().samplers@.len()
        &&& reachable(self.doc(), self.sampler_record().input as int)
        &&& reachable(self.doc(), self.sampler_record().output as int)
        &&& self.record().target.path is Valid
    }

    /// The buffer that holds the input accessor's bytes.
    pub open spec fn input_buffer(&self) -> usize {
        view_of(self.doc(), self.sampler_record().input as int).buffer
    }

    /// The buffer that holds the output accessor's bytes.
    pub open spec fn output_buffer(&self) -> usize {
        view_of(self.doc(), self.sampler_record().output as int).buffer
    }

    /// Channel `index` of `anim`.
    pub fn new(anim: Animation<'a>, index: usize) -> (r: Channel<'a>)
        requires
            anim.wf(),
            index < anim.record().channels@.len(),
        ensures
            r.animation_spec() == anim,
            r.idx() == index,
            r.wf(),
    {
        Channel { anim, index }
    }

    /// Optional application-specific data, as raw JSON text.
    pub fn extras(&self) -> (r: &'a Option<String>)
        requires
            self.wf(),
        ensures
            *r == self.record().extras,
    {
        let doc: &'a Root = self.anim.document;
        &doc.animations[self.anim.index].channels[self.index].extras
    }

    /// The animation this channel belongs to.
    pub fn animation(&self) -> (r: Animation<'a>)
        ensures
            r == self.animation_spec(),
    {
        self.anim
    }

    /// The sampler that computes the target's values.
    pub fn sampler(&self) -> (r: Sampler<'a>)
        requires
            self.wf(),
            self.record().sampler < self.animation_spec().record().samplers@.len(),
        ensures
            r.animation_spec() == self.animation_spec(),
            r.idx() == self.record().sampler,
            r.wf(),
    {
        Sampler { anim: self.anim, index: self.anim.document.animations[self.anim.index].channels[self.index].sampler }
    }

    /// The node and property this channel drives.
    pub fn target(&self) -> (r: Target<'a>)
        requires
            self.wf(),
        ensures
            r.animation_spec() == self.animation_spec(),
            r.channel_idx() == self.idx(),
            r.wf(),
    {
        Target::new(self.anim, self.index)
    }

    /// A reader of this channel's keyframes, with bytes from `resolver`.
    pub fn reader<R: Resolve>(&self, resolver: R) -> (r: Reader<'a, R>)
        requires
            self.wf(),
        ensures
            r.wf(),
            r.channel_spec() == *self,
            r.resolver_spec() == resolver,
    {
        Reader { channel: *self, resolver }
    }

    /// Builds the sequence of keyframe times from the resolver's answer for
    /// the input accessor's buffer.
    pub fn inputs_from<'s>(&self, data: Option<&'s [u8]>) -> (res: Result<Iter<'s>, ReadError>)
        requires
            self.readable(),
        ensures
            inputs_outcome(
                self.doc().accessors@[self.sampler_record().input as int],
                view_of(self.doc(), self.sampler_record().input as int),
                bytes_of(data),
                res,
            ),
    {
        let anim = &self.anim.document.animations[self.anim.index];
        let input = anim.samplers[anim.channels[self.index].sampler].input;
        let a = &self.anim.document.accessors[input];
        if data.is_some() && !(a.component_type == DataType::F32 && a.type_ == Dimensions::Scalar) {
            return Err(ReadError::Unsupported);
        }
        read_accessor(self.anim.document, input, data)
    }

    /// Builds the tagged sequence of output values from the resolver's
    /// answer for the output accessor's buffer.
    pub fn outputs_from<'s>(&self, data: Option<&'s [u8]>) -> (res: Result<ReadOutputs<'s>, ReadError>)
        requires
            self.readable(),
        ensures
            outputs_outcome(
                self.record().target.path->Valid_0,
                self.doc().accessors@[self.sampler_record().output as int],
                view_of(self.doc(), self.sampler_record().output as int),
                bytes_of(data),
                res,
            ),
    {
        let anim = &self.anim.document.animations[self.anim.index];
        let ch = &anim.channels[self.index];
        let output = anim.samplers[ch.sampler].output;
        let a = &self.anim.document.accessors[output];
        let p = match ch.target.path {
            Checked::Valid(p) => p,
            Checked::Invalid => {
                return Err(ReadError::Dangling);
            },
        };
        if data.is_none() {
            return Err(ReadError::Unresolved);
        }
        if !suits(p, a) {
            return Err(ReadError::Unsupported);
        }
        let it = match read_accessor(self.anim.document, output, data) {
            Ok(it) => it,
            Err(e) => {
                return Err(e);
            },
        };
        let o = match p {
            Property::Translation => ReadOutputs::Translations(it),
            Property::Scale => ReadOutputs::Scales(it),
            Property::Rotation => ReadOutputs::Rotations(
                match a.component_type {
                    DataType::I8 => Rotations::I8(it),
                    DataType::U8 => Rotations::U8(it),
                    DataType::I16 => Rotations::I16(it),
                    DataType::U16 => Rotations::U16(it),
                    _ => Rotations::F32(it),
                },
            ),
            Property::MorphTargetWeights => ReadOutputs::MorphTargetWeights(
                match a.component_type {
                    DataType::I8 => MorphTargetWeights::I8(it),
                    DataType::U8 => MorphTargetWeights::U8(it),
                    DataType::I16 => MorphTargetWeights::I16(it),
                    DataType::U16 => MorphTargetWeights::U16(it),
                    _ => MorphTargetWeights::F32(it),
                },
            ),
        };
        Ok(o)
    }
}

impl<'a, R: Resolve> Reader<'a, R> {
    pub closed spec fn channel_spec(&self) -> Channel<'a> {
        self.channel
    }

    pub closed spec fn resolver_spec(&self) -> R {
        self.resolver
    }

    pub open spec fn wf(&self) -> bool {
        self.channel_spec().wf()
    }

    /// Whether every index from the channel to its accessors' bytes is in
    /// range and its property is recognised.
    pub fn readable(&self) -> (b: bool)
        requires
            self.wf(),
        ensures
            b == self.channel_spec().readable(),
    {
        let doc = self.channel.anim.document;
        let anim = &doc.animations[self.channel.anim.index];
        let ch = &anim.channels[self.channel.index];
        if ch.sampler >= anim.samplers.len() {
            return false;
        }
        let sm = &anim.samplers[ch.sampler];
        is_reachable(doc, sm.input) && is_reachable(doc, sm.output) && match ch.target.path {
            Checked::Valid(_) => true,
            Checked::Invalid => false,
        }
    }

    /// The buffer asked for the keyframe times.
    pub fn input_buffer(&self) -> (b: usize)
        requires
            self.wf(),
            self.channel_spec().readable(),
        ensures
            b == self.channel_spec().input_buffer(),
    {
        let doc = self.channel.anim.document;
        let anim = &doc.animations[self.channel.anim.index];
        let input = anim.samplers[anim.channels[self.channel.index].sampler].input;
        doc.buffer_views[doc.accessors[input].buffer_view].buffer
    }

    /// The buffer asked for the output values.
    pub fn output_buffer(&self) -> (b: usize)
        requires
            self.wf(),
            self.channel_spec().readable(),
        ensures
            b == self.channel_spec().output_buffer(),
    {
        let doc = self.channel.anim.document;
        let anim = &doc.animations[self.channel.anim.index];
        let output = anim.samplers[anim.channels[self.channel.index].sampler].output;
        doc.buffer_views[doc.accessors[output].buffer_view].buffer
    }

    /// Reads the keyframe times. Fails with `Dangling` when an index on the
    /// way is out of range or the property is not recognised; otherwise asks
    /// the resolver for the input accessor's buffer and gives what
    /// `Channel::inputs_from` gives for its answer.
    pub fn read_inputs(&self) -> (res: Result<Iter<'_>, ReadError>)
        requires
            self.wf(),
        ensures
            res == Err::<Iter<'_>, ReadError>(ReadError::Dangling) <==> !self.channel_spec().readable(),
            self.channel_spec().readable() ==> inputs_outcome(
                self.channel_spec().doc().accessors@[self.channel_spec().sampler_record().input as int],
                view_of(self.channel_spec().doc(), self.channel_spec().sampler_record().input as int),
                self.resolver_spec().answer(self.channel_spec().input_buffer()),
                res,
            ),
    {
        if !self.readable() {
            return Err(ReadError::Dangling);
        }
        let data = self.resolver.resolve(self.input_buffer());
        self.channel.inputs_from(data)
    }

    /// Reads the output values, tagged by the target's property and the
    /// accessor's component type. Fails with `Dangling` when an index on the
    /// way is out of range or the property is not recognised; otherwise asks
    /// the resolver for the output accessor's buffer and gives what
    /// `Channel::outputs_from` gives for its answer.
    pub fn read_outputs(&self) -> (res: Result<ReadOutputs<'_>, ReadError>)
        requires
            self.wf(),
        ensures
            res == Err::<ReadOutputs<'_>, ReadError>(ReadError::Dangling) <==> !self.channel_spec().readable(),
            self.channel_spec().readable() ==> outputs_outcome(
                self.channel_spec().record().target.path->Valid_0,
                self.channel_spec().doc().accessors@[self.channel_spec().sampler_record().output as int],
                view_of(self.channel_spec().doc(), self.channel_spec().sampler_record().output as int),
                self.resolver_spec().answer(self.channel_spec().output_buffer()),
                res,
            ),
    {
        if !self.readable() {
            return Err(ReadError::Dangling);
        }
        let data = self.resolver.resolve(self.output_buffer());
        self.channel.outputs_from(data)
    }
}

/// After a successful minimal pass, reading the outputs of any channel, with
/// a resolver that supplies at least the whole output buffer, never fails
/// for a missing index, succeeds when the output accessor suits the
/// property, and every element of the result lies inside the output
/// accessor's buffer view.
pub proof fn lemma_validated_outputs_inside<'a, 's, R: Resolve>(
    rd: &Reader<'a, R>,
    res: Result<ReadOutputs<'s>, ReadError>,
)
    requires
        rd.wf(),
        minimal_errors(rd.channel_spec().doc()).len() == 0,
        rd.channel_spec().readable() ==> outputs_outcome(
            rd.channel_spec().record().target.path->Valid_0,
            rd.channel_spec().doc().accessors@[rd.channel_spec().sampler_record().output as int],
            view_of(rd.channel_spec().doc(), rd.channel_spec().sampler_record().output as int),
            rd.resolver_spec().answer(rd.channel_spec().output_buffer()),
            res,
        ),
        rd.resolver_spec().answer(rd.channel_spec().output_buffer()) matches Some(d) && d.len()
            >= rd.channel_spec().doc().buffers@[rd.channel_spec().output_buffer() as int].byte_length,
    ensures
        rd.channel_spec().readable(),
        output_suits(
            rd.channel_spec().record().target.path->Valid_0,
            rd.channel_spec().doc().accessors@[rd.channel_spec().sampler_record().output as int],
        ) ==> res is Ok,
        res matches Ok(o) ==> ({
            let acc = o.iter().accessor_spec();
            let v = o.iter().view_spec();
            forall|e: int|
                0 <= e < acc.count ==> v.byte_offset <= #[trigger] element_start(acc, v, e)
                    && element_start(acc, v, e) + element_size(acc) <= v.byte_offset + v.byte_length
        }),
{
    let c = rd.channel_spec();
    let r = c.doc();
    lemma_valid_channel(r, c.animation_spec().idx(), c.idx());
}

impl<'a> Target<'a> {
    pub closed spec fn animation_spec(&self) -> Animation<'a> {
        self.anim
    }

    pub closed spec fn channel_idx(&self) -> int {
        self.channel as int
    }

    pub open spec fn wf(&self) -> bool {
        self.animation_spec().wf() && 0 <= self.channel_idx()
            < self.animation_spec().record().channels@.len()
    }

    pub open spec fn record(&self) -> json::Target {
        self.animation_spec().record().channels@[self.channel_idx()].target
    }

    /// The target of channel `channel` of `anim`.
    pub fn new(anim: Animation<'a>, channel: usize) -> (r: Target<'a>)
        requires
            anim.wf(),
            channel < anim.record().channels@.len(),
        ensures
            r.animation_spec() == anim,
            r.channel_idx() == channel,
            r.wf(),
    {
        Target { anim, channel }
    }

    /// Optional application-specific data, as raw JSON text.
    pub fn extras(&self) -> (r: &'a Option<String>)
        requires
            self.wf(),
        ensures
            *r == self.record().extras,
    {
        let doc: &'a Root = self.anim.document;
        &doc.animations[self.anim.index].channels[self.channel].target.extras
    }

    /// The animation this target belongs to.
    pub fn animation(&self) -> (r: Animation<'a>)
        ensures
            r == self.animation_spec(),
    {
        self.anim
    }

    /// The node whose property is driven.
    pub fn node(&self) -> (r: &'a Node)
        requires
            self.wf(),
            self.record().node < self.animation_spec().doc().nodes@.len(),
        ensures
            *r == self.animation_spec().doc().nodes@[self.record().node as int],
    {
        let doc: &'a Root = self.anim.document;
        &doc.nodes[doc.animations[self.anim.index].channels[self.channel].target.node]
    }

    /// The property driven.
    pub fn property(&self) -> (r: Property)
        requires
            self.wf(),
            self.record().path is Valid,
        ensures
            self.record().path == Checked::Valid(r),
    {
        match self.anim.document.animations[self.anim.index].channels[self.channel].target.path {
            Checked::Valid(p) => p,
            Checked::Invalid => Property::Translation,
        }
    }
}

impl<'a> Sampler<'a> {
    pub closed spec fn animation_spec(&self) -> Animation<'a> {
        self.anim
    }

    pub closed spec fn idx(&self) -> int {
        self.index as int
    }

    pub open spec fn wf(&self) -> bool {
        self.animation_spec().wf() && 0 <= self.idx()
            < self.animation_spec().record().samplers@.len()
    }

    pub open spec fn record(&self) -> json::Sampler {
        self.animation_spec().record().samplers@[self.idx()]
    }

    /// Sampler `index` of `anim`.
    pub fn new(anim: Animation<'a>, index: usize) -> (r: Sampler<'a>)
        requires
            anim.wf(),
            index < anim.record().samplers@.len(),
        ensures
            r.animation_spec() == anim,
            r.idx() == index,
            r.wf(),
    {
        Sampler { anim, index }
    }

    /// Optional application-specific data, as raw JSON text.
    pub fn extras(&self) -> (r: &'a Option<String>)
        requires
            self.wf(),
        ensures
            *r == self.record().extras,
    {
        let doc: &'a Root = self.anim.document;
        &doc.animations[self.anim.index].samplers[self.index].extras
    }

    /// The animation this sampler belongs to.
    pub fn animation(&self) -> (r: Animation<'a>)
        ensures
            r == self.animation_spec(),
    {
        self.anim
    }

    /// The accessor of keyframe inputs (times).
    pub fn input(&self) -> (r: &'a Accessor)
        requires
            self.wf(),
            self.record().input < self.animation_spec().doc().accessors@.len(),
        ensures
            *r == self.animation_spec().doc().accessors@[self.record().input as int],
    {
        let doc: &'a Root = self.anim.document;
        &doc.accessors[doc.animations[self.anim.index].samplers[self.index].input]
    }

    /// The interpolation mode.
    pub fn interpolation(&self) -> (r: Interpolation)
        requires
            self.wf(),
            self.record().interpolation is Valid,
        ensures
            self.record().interpolation == Checked::Valid(r),
    {
        match self.anim.document.animations[self.anim.index].samplers[self.index].interpolation {
            Checked::Valid(i) => i,
            Checked::Invalid => Interpolation::Linear,
        }
    }

    /// The accessor of keyframe outputs (values).
    pub fn output(&self) -> (r: &'a Accessor)
        requires
            self.wf(),
            self.record().output < self.animation_spec().doc().accessors@.len(),
        ensures
            *r == self.animation_spec().doc().accessors@[self.record().output as int],
    {
        let doc: &'a Root = self.anim.document;
        &doc.accessors[doc.animations[self.anim.index].samplers[self.index].output]
    }
}

} // verus!
