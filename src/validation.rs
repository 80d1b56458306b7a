//! Two validation passes over a document. Each pass walks the collections in
//! a fixed order and reports every violation it finds, with the path of the
//! field at fault.
use vstd::prelude::*;
use crate::accessor::{
    element_bytes, element_size, element_start, fits, fits_view, lemma_reads_inside_view, stride,
    stride_of,
};
use crate::json::{Accessor, Checked, DataType, Dimensions, Property, Root};
use vstd::string::StringSliceAdditionalSpecFns;

verus! {

/// The name of a field in a path.
#[derive(Clone, Copy, Debug, PartialEq, Eq, Structural)]
pub enum Field {
    Accessors,
    Animations,
    Buffer,
    BufferView,
    BufferViews,
    ByteLength,
    ByteStride,
    Channels,
    Count,
    Input,
    Interpolation,
    InverseBindMatrices,
    Joints,
    Node,
    Normalized,
    Output,
    Path,
    Sampler,
    Samplers,
    Skeleton,
    Skins,
    Sparse,
    Target,
}

/// One step of a path: a member of an object or an element of an array.
#[derive(Clone, Copy, Debug, PartialEq, Eq, Structural)]
pub enum Segment {
    Field(Field),
    Index(usize),
}

/// The location of a field in the document, from the root.
#[derive(Clone, Debug)]
pub struct Path {
    pub segments: Vec<Segment>,
}

/// What is wrong at a path.
#[derive(Clone, Copy, Debug, PartialEq, Eq, Structural)]
pub enum Violation {
    /// An index refers past the end of its collection.
    IndexOutOfBounds,
    /// A field holds a value that is not recognised.
    Invalid,
    /// Offsets, lengths and strides do not fit together.
    ByteLength,
    /// Safe to read, but not what the format allows.
    Conformance,
}

/// A reported violation, as paths and kinds.
pub type Report = Seq<(Seq<Segment>, Violation)>;

/// The plain view of a list of reported violations.
pub open spec fn report_of(s: Seq<(Path, Violation)>) -> Report {
    s.map_values(|e: (Path, Violation)| (e.0.segments@, e.1))
}

/// The concatenation of `f(0)`, ..., `f(n - 1)`.
pub open spec fn concat_upto(n: nat, f: spec_fn(int) -> Report) -> Report
    decreases n,
{
    if n == 0 {
        Seq::empty()
    } else {
        concat_upto((n - 1) as nat, f) + f(n - 1)
    }
}

/// A one-entry report when `c` holds, an empty one otherwise.
pub open spec fn when(c: bool, p: Seq<Segment>, v: Violation) -> Report {
    if c {
        seq![(p, v)]
    } else {
        Seq::empty()
    }
}

pub open spec fn fld(f: Field) -> Segment {
    Segment::Field(f)
}

pub open spec fn idx(i: int) -> Segment {
    Segment::Index(i as usize)
}

// ---- minimal pass ----
pub open spec fn view_errors(r: Root, i: int) -> Report {
    let v = r.buffer_views@[i];
    let base = seq![fld(Field::BufferViews), idx(i)];
    if v.buffer >= r.buffers@.len() {
        seq![(base.push(fld(Field::Buffer)), Violation::IndexOutOfBounds)]
    } else {
        when(
            v.byte_offset + v.byte_length > r.buffers@[v.buffer as int].byte_length,
            base.push(fld(Field::ByteLength)),
            Violation::ByteLength,
        )
    }
}

pub open spec fn accessor_errors(r: Root, i: int) -> Report {
    let a = r.accessors@[i];
    let base = seq![fld(Field::Accessors), idx(i)];
    if a.buffer_view >= r.buffer_views@.len() {
        seq![(base.push(fld(Field::BufferView)), Violation::IndexOutOfBounds)]
    } else {
        let v = r.buffer_views@[a.buffer_view as int];
        if stride_of(a, v) < element_size(a) {
            seq![(base.push(fld(Field::BufferView)), Violation::ByteLength)]
        } else {
            when(!fits_view(a, v), base.push(fld(Field::Count)), Violation::ByteLength)
        }
    }
}

pub open spec fn channel_errors(r: Root, a: int, c: int) -> Report {
    let anim = r.animations@[a];
    let ch = anim.channels@[c];
    let base = seq![fld(Field::Animations), idx(a), fld(Field::Channels), idx(c)];
    when(
        ch.sampler >= anim.samplers@.len(),
        base.push(fld(Field::Sampler)),
        Violation::IndexOutOfBounds,
    ) + when(
        ch.target.node >= r.nodes@.len(),
        base + seq![fld(Field::Target), fld(Field::Node)],
        Violation::IndexOutOfBounds,
    ) + when(
        ch.target.path == Checked::<Property>::Invalid,
        base + seq![fld(Field::Target), fld(Field::Path)],
        Violation::Invalid,
    )
}

pub open spec fn sampler_errors(r: Root, a: int, s: int) -> Report {
    let sm = r.animations@[a].samplers@[s];
    let base = seq![fld(Field::Animations), idx(a), fld(Field::Samplers), idx(s)];
    when(
        sm.input >= r.accessors@.len(),
        base.push(fld(Field::Input)),
        Violation::IndexOutOfBounds,
    ) + when(
        sm.output >= r.accessors@.len(),
        base.push(fld(Field::Output)),
        Violation::IndexOutOfBounds,
    ) + when(
        sm.interpolation is Invalid,
        base.push(fld(Field::Interpolation)),
        Violation::Invalid,
    )
}

pub open spec fn animation_errors(r: Root, a: int) -> Report {
    concat_upto(r.animations@[a].channels@.len(), |c: int| channel_errors(r, a, c))
        + concat_upto(r.animations@[a].samplers@.len(), |s: int| sampler_errors(r, a, s))
}

pub open spec fn joint_errors(r: Root, k: int, j: int) -> Report {
    when(
        r.skins@[k].joints@[j] >= r.nodes@.len(),
        seq![fld(Field::Skins), idx(k), fld(Field::Joints), idx(j)],
        Violation::IndexOutOfBounds,
    )
}

pub open spec fn skin_errors(r: Root, k: int) -> Report {
    let sk = r.skins@[k];
    concat_upto(sk.joints@.len(), |j: int| joint_errors(r, k, j)) + when(
        sk.inverse_bind_matrices is Some && sk.inverse_bind_matrices->0 >= r.accessors@.len(),
        seq![fld(Field::Skins), idx(k), fld(Field::InverseBindMatrices)],
        Violation::IndexOutOfBounds,
    ) + when(
        sk.skeleton is Some && sk.skeleton->0 >= r.nodes@.len(),
        seq![fld(Field::Skins), idx(k), fld(Field::Skeleton)],
        Violation::IndexOutOfBounds,
    )
}

/// Every violation of the minimal pass, in the order of the walk: buffer
/// views, accessors, animations (channels, then samplers), skins.
pub open spec fn minimal_errors(r: Root) -> Report {
    concat_upto(r.buffer_views@.len(), |i: int| view_errors(r, i)) + concat_upto(
        r.accessors@.len(),
        |i: int| accessor_errors(r, i),
    ) + concat_upto(r.animations@.len(), |a: int| animation_errors(r, a)) + concat_upto(
        r.skins@.len(),
        |k: int| skin_errors(r, k),
    )
}

// ---- complete pass ----
/// Whether an accessor holds 32-bit floats of shape `d`.
pub open spec fn is_float(a: Accessor, d: Dimensions) -> bool {
    a.component_type == DataType::F32 && a.type_ == d
}

/// Whether an output accessor has a shape and type that property `p` allows.
pub open spec fn output_suits(p: Property, a: Accessor) -> bool {
    match p {
        Property::Translation | Property::Scale => is_float(a, Dimensions::Vec3),
        Property::Rotation => a.type_ == Dimensions::Vec4 && a.component_type != DataType::U32,
        Property::MorphTargetWeights => a.type_ == Dimensions::Scalar && a.component_type
            != DataType::U32,
    }
}

pub open spec fn view_conformance(r: Root, i: int) -> Report {
    let st = r.buffer_views@[i].byte_stride;
    when(
        st is Some && (st->0 < 4 || st->0 > 252 || st->0 % 4 != 0),
        seq![fld(Field::BufferViews), idx(i), fld(Field::ByteStride)],
        Violation::Conformance,
    )
}

pub open spec fn accessor_conformance(r: Root, i: int) -> Report {
    let a = r.accessors@[i];
    when(
        a.normalized && (a.component_type == DataType::U32 || a.component_type == DataType::F32),
        seq![fld(Field::Accessors), idx(i), fld(Field::Normalized)],
        Violation::Conformance,
    ) + when(
        a.sparse is Some && a.sparse->0.count >= a.count,
        seq![fld(Field::Accessors), idx(i), fld(Field::Sparse), fld(Field::Count)],
        Violation::Conformance,
    )
}

pub open spec fn channel_conformance(r: Root, a: int, c: int) -> Report {
    let anim = r.animations@[a];
    let ch = anim.channels@[c];
    let out = anim.samplers@[ch.sampler as int].output;
    when(
        ch.sampler < anim.samplers@.len() && ch.target.path is Valid && out < r.accessors@.len()
            && !output_suits(ch.target.path->Valid_0, r.accessors@[out as int]),
        seq![fld(Field::Animations), idx(a), fld(Field::Channels), idx(c), fld(Field::Sampler)],
        Violation::Conformance,
    )
}

pub open spec fn sampler_conformance(r: Root, a: int, s: int) -> Report {
    let input = r.animations@[a].samplers@[s].input;
    when(
        input < r.accessors@.len() && !is_float(r.accessors@[input as int], Dimensions::Scalar),
        seq![fld(Field::Animations), idx(a), fld(Field::Samplers), idx(s), fld(Field::Input)],
        Violation::Conformance,
    )
}

pub open spec fn animation_conformance(r: Root, a: int) -> Report {
    concat_upto(r.animations@[a].channels@.len(), |c: int| channel_conformance(r, a, c))
        + concat_upto(r.animations@[a].samplers@.len(), |s: int| sampler_conformance(r, a, s))
}

pub open spec fn skin_conformance(r: Root, k: int) -> Report {
    let m = r.skins@[k].inverse_bind_matrices;
    when(
        m is Some && m->0 < r.accessors@.len() && !is_float(
            r.accessors@[m->0 as int],
            Dimensions::Mat4,
        ),
        seq![fld(Field::Skins), idx(k), fld(Field::InverseBindMatrices)],
        Violation::Conformance,
    )
}

/// Every conformance violation, in the order of the walk.
pub open spec fn conformance_errors(r: Root) -> Report {
    concat_upto(r.buffer_views@.len(), |i: int| view_conformance(r, i)) + concat_upto(
        r.accessors@.len(),
        |i: int| accessor_conformance(r, i),
    ) + concat_upto(r.animations@.len(), |a: int| animation_conformance(r, a)) + concat_upto(
        r.skins@.len(),
        |k: int| skin_conformance(r, k),
    )
}

/// Every violation of the complete pass: those of the minimal pass, then the
/// conformance ones.
pub open spec fn complete_errors(r: Root) -> Report {
    minimal_errors(r) + conformance_errors(r)
}

// ---- exec ----
fn report(errs: &mut Vec<(Path, Violation)>, segments: Vec<Segment>, v: Violation)
    ensures
        report_of(final(errs)@) == report_of(old(errs)@).push((segments@, v)),
{
    let ghost before = errs@;
    errs.push((Path { segments }, v));
    proof {
        assert(report_of(errs@) =~= report_of(before).push((segments@, v)));
    }
}

fn check_view(r: &Root, i: usize, errs: &mut Vec<(Path, Violation)>)
    requires
        i < r.buffer_views@.len(),
    ensures
        report_of(final(errs)@) == report_of(old(errs)@) + view_errors(*r, i as int),
{
    let ghost before = report_of(errs@);
    let v = &r.buffer_views[i];
    if v.buffer >= r.buffers.len() {
        report(
            errs,
            vec![Segment::Field(Field::BufferViews), Segment::Index(i), Segment::Field(Field::Buffer)],
            Violation::IndexOutOfBounds,
        );
        assert(report_of(errs@) =~~= before + view_errors(*r, i as int));
    } else if v.byte_offset as u128 + v.byte_length as u128 > r.buffers[v.buffer].byte_length as u128 {
        report(
            errs,
            vec![Segment::Field(Field::BufferViews), Segment::Index(i), Segment::Field(Field::ByteLength)],
            Violation::ByteLength,
        );
        assert(report_of(errs@) =~~= before + view_errors(*r, i as int));
    } else {
        assert(report_of(errs@) =~~= before + view_errors(*r, i as int));
    }
}

fn check_views(r: &Root, errs: &mut Vec<(Path, Violation)>)
    ensures
        report_of(final(errs)@) == report_of(old(errs)@) + concat_upto(
            r.buffer_views@.len(),
            |i: int| view_errors(*r, i),
        ),
{
    let ghost before = report_of(errs@);
    let mut i: usize = 0;
    while i < r.buffer_views.len()
        invariant
            i <= r.buffer_views@.len(),
            report_of(errs@) == before + concat_upto(i as nat, |j: int| view_errors(*r, j)),
        decreases r.buffer_views@.len() - i,
    {
        check_view(r, i, errs);
        i = i + 1;
        assert(report_of(errs@) =~= before + concat_upto(i as nat, |j: int| view_errors(*r, j)));
    }
}

fn check_accessor(r: &Root, i: usize, errs: &mut Vec<(Path, Violation)>)
    requires
        i < r.accessors@.len(),
    ensures
        report_of(final(errs)@) == report_of(old(errs)@) + accessor_errors(*r, i as int),
{
    let ghost before = report_of(errs@);
    let a = &r.accessors[i];
    if a.buffer_view >= r.buffer_views.len() {
        report(
            errs,
            vec![Segment::Field(Field::Accessors), Segment::Index(i), Segment::Field(Field::BufferView)],
            Violation::IndexOutOfBounds,
        );
    } else {
        let v = &r.buffer_views[a.buffer_view];
        if stride(a, v) < element_bytes(a) {
            report(
                errs,
                vec![Segment::Field(Field::Accessors), Segment::Index(i), Segment::Field(Field::BufferView)],
                Violation::ByteLength,
            );
        } else if !fits(a, v) {
            report(
                errs,
                vec![Segment::Field(Field::Accessors), Segment::Index(i), Segment::Field(Field::Count)],
                Violation::ByteLength,
            );
        }
    }
    assert(report_of(errs@) =~~= before + accessor_errors(*r, i as int));
}

fn check_accessors(r: &Root, errs: &mut Vec<(Path, Violation)>)
    ensures
        report_of(final(errs)@) == report_of(old(errs)@) + concat_upto(
            r.accessors@.len(),
            |i: int| accessor_errors(*r, i),
        ),
{
    let ghost before = report_of(errs@);
    let mut i: usize = 0;
    while i < r.accessors.len()
        invariant
            i <= r.accessors@.len(),
            report_of(errs@) == before + concat_upto(i as nat, |j: int| accessor_errors(*r, j)),
        decreases r.accessors@.len() - i,
    {
        check_accessor(r, i, errs);
        i = i + 1;
        assert(report_of(errs@) =~= before + concat_upto(i as nat, |j: int| accessor_errors(*r, j)));
    }
}

fn check_channel(r: &Root, a: usize, c: usize, errs: &mut Vec<(Path, Violation)>)
    requires
        a < r.animations@.len(),
        c < r.animations@[a as int].channels@.len(),
    ensures
        report_of(final(errs)@) == report_of(old(errs)@) + channel_errors(*r, a as int, c as int),
{
    let ghost before = report_of(errs@);
    let anim = &r.animations[a];
    let ch = &anim.channels[c];
    if ch.sampler >= anim.samplers.len() {
        report(
            errs,
            vec![
                Segment::Field(Field::Animations),
                Segment::Index(a),
                Segment::Field(Field::Channels),
                Segment::Index(c),
                Segment::Field(Field::Sampler),
            ],
            Violation::IndexOutOfBounds,
        );
    }
    let ghost mid1 = report_of(errs@);
    if ch.target.node >= r.nodes.len() {
        report(
            errs,
            vec![
                Segment::Field(Field::Animations),
                Segment::Index(a),
                Segment::Field(Field::Channels),
                Segment::Index(c),
                Segment::Field(Field::Target),
                Segment::Field(Field::Node),
            ],
            Violation::IndexOutOfBounds,
        );
    }
    let ghost mid2 = report_of(errs@);
    if let Checked::Invalid = ch.target.path {
        report(
            errs,
            vec![
                Segment::Field(Field::Animations),
                Segment::Index(a),
                Segment::Field(Field::Channels),
                Segment::Index(c),
                Segment::Field(Field::Target),
                Segment::Field(Field::Path),
            ],
            Violation::Invalid,
        );
    }
    assert(report_of(errs@) =~~= before + channel_errors(*r, a as int, c as int));
}

fn check_sampler(r: &Root, a: usize, s: usize, errs: &mut Vec<(Path, Violation)>)
    requires
        a < r.animations@.len(),
        s < r.animations@[a as int].samplers@.len(),
    ensures
        report_of(final(errs)@) == report_of(old(errs)@) + sampler_errors(*r, a as int, s as int),
{
    let ghost before = report_of(errs@);
    let sm = &r.animations[a].samplers[s];
    if sm.input >= r.accessors.len() {
        report(
            errs,
            vec![
                Segment::Field(Field::Animations),
                Segment::Index(a),
                Segment::Field(Field::Samplers),
                Segment::Index(s),
                Segment::Field(Field::Input),
            ],
            Violation::IndexOutOfBounds,
        );
    }
    if sm.output >= r.accessors.len() {
        report(
            errs,
            vec![
                Segment::Field(Field::Animations),
                Segment::Index(a),
                Segment::Field(Field::Samplers),
                Segment::Index(s),
                Segment::Field(Field::Output),
            ],
            Violation::IndexOutOfBounds,
        );
    }
    if let Checked::Invalid = sm.interpolation {
        report(
            errs,
            vec![
                Segment::Field(Field::Animations),
                Segment::Index(a),
                Segment::Field(Field::Samplers),
                Segment::Index(s),
                Segment::Field(Field::Interpolation),
            ],
            Violation::Invalid,
        );
    }
    assert(report_of(errs@) =~~= before + sampler_errors(*r, a as int, s as int));
}

fn check_animation(r: &Root, a: usize, errs: &mut Vec<(Path, Violation)>)
    requires
        a < r.animations@.len(),
    ensures
        report_of(final(errs)@) == report_of(old(errs)@) + animation_errors(*r, a as int),
{
    let ghost before = report_of(errs@);
    let anim = &r.animations[a];
    let mut c: usize = 0;
    while c < anim.channels.len()
        invariant
            a < r.animations@.len(),
            anim == r.animations@[a as int],
            c <= anim.channels@.len(),
            report_of(errs@) == before + concat_upto(
                c as nat,
                |j: int| channel_errors(*r, a as int, j),
            ),
        decreases anim.channels@.len() - c,
    {
        check_channel(r, a, c, errs);
        c = c + 1;
        assert(report_of(errs@) =~= before + concat_upto(
            c as nat,
            |j: int| channel_errors(*r, a as int, j),
        ));
    }
    let ghost mid = report_of(errs@);
    let mut s: usize = 0;
    while s < anim.samplers.len()
        invariant
            a < r.animations@.len(),
            anim == r.animations@[a as int],
            s <= anim.samplers@.len(),
            report_of(errs@) == mid + concat_upto(
                s as nat,
                |j: int| sampler_errors(*r, a as int, j),
            ),
        decreases anim.samplers@.len() - s,
    {
        check_sampler(r, a, s, errs);
        s = s + 1;
        assert(report_of(errs@) =~= mid + concat_upto(
            s as nat,
            |j: int| sampler_errors(*r, a as int, j),
        ));
    }
    assert(report_of(errs@) =~= before + animation_errors(*r, a as int));
}

fn check_animations(r: &Root, errs: &mut Vec<(Path, Violation)>)
    ensures
        report_of(final(errs)@) == report_of(old(errs)@) + concat_upto(
            r.animations@.len(),
            |a: int| animation_errors(*r, a),
        ),
{
    let ghost before = report_of(errs@);
    let mut i: usize = 0;
    while i < r.animations.len()
        invariant
            i <= r.animations@.len(),
            report_of(errs@) == before + concat_upto(i as nat, |j: int| animation_errors(*r, j)),
        decreases r.animations@.len() - i,
    {
        check_animation(r, i, errs);
        i = i + 1;
        assert(report_of(errs@) =~= before + concat_upto(i as nat, |j: int| animation_errors(*r, j)));
    }
}

fn check_skin(r: &Root, k: usize, errs: &mut Vec<(Path, Violation)>)
    requires
        k < r.skins@.len(),
    ensures
        report_of(final(errs)@) == report_of(old(errs)@) + skin_errors(*r, k as int),
{
    let ghost before = report_of(errs@);
    let sk = &r.skins[k];
    let mut j: usize = 0;
    while j < sk.joints.len()
        invariant
            k < r.skins@.len(),
            sk == r.skins@[k as int],
            j <= sk.joints@.len(),
            report_of(errs@) == before + concat_upto(j as nat, |x: int| joint_errors(*r, k as int, x)),
        decreases sk.joints@.len() - j,
    {
        let ghost prev = report_of(errs@);
        if sk.joints[j] >= r.nodes.len() {
            report(
                errs,
                vec![
                    Segment::Field(Field::Skins),
                    Segment::Index(k),
                    Segment::Field(Field::Joints),
                    Segment::Index(j),
                ],
                Violation::IndexOutOfBounds,
            );
        }
        assert(report_of(errs@) =~~= prev + joint_errors(*r, k as int, j as int));
        j = j + 1;
        assert(report_of(errs@) =~= before + concat_upto(j as nat, |x: int| joint_errors(*r, k as int, x)));
    }
    let ghost mid = report_of(errs@);
    if let Some(m) = sk.inverse_bind_matrices {
        if m >= r.accessors.len() {
            report(
                errs,
                vec![Segment::Field(Field::Skins), Segment::Index(k), Segment::Field(Field::InverseBindMatrices)],
                Violation::IndexOutOfBounds,
            );
        }
    }
    if let Some(n) = sk.skeleton {
        if n >= r.nodes.len() {
            report(
                errs,
                vec![Segment::Field(Field::Skins), Segment::Index(k), Segment::Field(Field::Skeleton)],
                Violation::IndexOutOfBounds,
            );
        }
    }
    assert(report_of(errs@) =~~= before + skin_errors(*r, k as int));
}

fn check_skins(r: &Root, errs: &mut Vec<(Path, Violation)>)
    ensures
        report_of(final(errs)@) == report_of(old(errs)@) + concat_upto(
            r.skins@.len(),
            |k: int| skin_errors(*r, k),
        ),
{
    let ghost before = report_of(errs@);
    let mut i: usize = 0;
    while i < r.skins.len()
        invariant
            i <= r.skins@.len(),
            report_of(errs@) == before + concat_upto(i as nat, |j: int| skin_errors(*r, j)),
        decreases r.skins@.len() - i,
    {
        check_skin(r, i, errs);
        i = i + 1;
        assert(report_of(errs@) =~= before + concat_upto(i as nat, |j: int| skin_errors(*r, j)));
    }
}

/// Appends every violation of the minimal pass to `errs`, in walk order.
pub fn collect_minimal(r: &Root, errs: &mut Vec<(Path, Violation)>)
    ensures
        report_of(final(errs)@) == report_of(old(errs)@) + minimal_errors(*r),
{
    let ghost before = report_of(errs@);
    check_views(r, errs);
    check_accessors(r, errs);
    check_animations(r, errs);
    check_skins(r, errs);
    assert(report_of(errs@) =~= before + minimal_errors(*r));
}

fn is_float_exec(a: &Accessor, d: Dimensions) -> (r: bool)
    ensures
        r == is_float(*a, d),
{
    a.component_type == DataType::F32 && a.type_ == d
}

/// Whether `a` may serve as the output of a channel that drives `p`.
pub fn suits(p: Property, a: &Accessor) -> (r: bool)
    ensures
        r == output_suits(p, *a),
{
    match p {
        Property::Translation | Property::Scale => is_float_exec(a, Dimensions::Vec3),
        Property::Rotation => a.type_ == Dimensions::Vec4 && a.component_type != DataType::U32,
        Property::MorphTargetWeights => a.type_ == Dimensions::Scalar && a.component_type
            != DataType::U32,
    }
}

fn conform_views(r: &Root, errs: &mut Vec<(Path, Violation)>)
    ensures
        report_of(final(errs)@) == report_of(old(errs)@) + concat_upto(
            r.buffer_views@.len(),
            |i: int| view_conformance(*r, i),
        ),
{
    let ghost before = report_of(errs@);
    let mut i: usize = 0;
    while i < r.buffer_views.len()
        invariant
            i <= r.buffer_views@.len(),
            report_of(errs@) == before + concat_upto(i as nat, |j: int| view_conformance(*r, j)),
        decreases r.buffer_views@.len() - i,
    {
        let ghost prev = report_of(errs@);
        if let Some(st) = r.buffer_views[i].byte_stride {
            if st < 4 || st > 252 || st % 4 != 0 {
                report(
                    errs,
                    vec![Segment::Field(Field::BufferViews), Segment::Index(i), Segment::Field(Field::ByteStride)],
                    Violation::Conformance,
                );
            }
        }
        assert(report_of(errs@) =~~= prev + view_conformance(*r, i as int));
        i = i + 1;
        assert(report_of(errs@) =~= before + concat_upto(i as nat, |j: int| view_conformance(*r, j)));
    }
}

fn conform_accessors(r: &Root, errs: &mut Vec<(Path, Violation)>)
    ensures
        report_of(final(errs)@) == report_of(old(errs)@) + concat_upto(
            r.accessors@.len(),
            |i: int| accessor_conformance(*r, i),
        ),
{
    let ghost before = report_of(errs@);
    let mut i: usize = 0;
    while i < r.accessors.len()
        invariant
            i <= r.accessors@.len(),
            report_of(errs@) == before + concat_upto(i as nat, |j: int| accessor_conformance(*r, j)),
        decreases r.accessors@.len() - i,
    {
        let ghost prev = report_of(errs@);
        let a = &r.accessors[i];
        if a.normalized && (a.component_type == DataType::U32 || a.component_type == DataType::F32) {
            report(
                errs,
                vec![Segment::Field(Field::Accessors), Segment::Index(i), Segment::Field(Field::Normalized)],
                Violation::Conformance,
            );
        }
        if let Some(sp) = a.sparse {
            if sp.count >= a.count {
                report(
                    errs,
                    vec![
                        Segment::Field(Field::Accessors),
                        Segment::Index(i),
                        Segment::Field(Field::Sparse),
                        Segment::Field(Field::Count),
                    ],
                    Violation::Conformance,
                );
            }
        }
        assert(report_of(errs@) =~~= prev + accessor_conformance(*r, i as int));
        i = i + 1;
        assert(report_of(errs@) =~= before + concat_upto(i as nat, |j: int| accessor_conformance(*r, j)));
    }
}

fn conform_channel(r: &Root, a: usize, c: usize, errs: &mut Vec<(Path, Violation)>)
    requires
        a < r.animations@.len(),
        c < r.animations@[a as int].channels@.len(),
    ensures
        report_of(final(errs)@) == report_of(old(errs)@) + channel_conformance(*r, a as int, c as int),
{
    let ghost before = report_of(errs@);
    let anim = &r.animations[a];
    let ch = &anim.channels[c];
    if ch.sampler < anim.samplers.len() {
        let out = anim.samplers[ch.sampler].output;
        if let Checked::Valid(p) = ch.target.path {
            if out < r.accessors.len() && !suits(p, &r.accessors[out]) {
                report(
                    errs,
                    vec![
                        Segment::Field(Field::Animations),
                        Segment::Index(a),
                        Segment::Field(Field::Channels),
                        Segment::Index(c),
                        Segment::Field(Field::Sampler),
                    ],
                    Violation::Conformance,
                );
            }
        }
    }
    assert(report_of(errs@) =~~= before + channel_conformance(*r, a as int, c as int));
}

fn conform_sampler(r: &Root, a: usize, s: usize, errs: &mut Vec<(Path, Violation)>)
    requires
        a < r.animations@.len(),
        s < r.animations@[a as int].samplers@.len(),
    ensures
        report_of(final(errs)@) == report_of(old(errs)@) + sampler_conformance(*r, a as int, s as int),
{
    let ghost before = report_of(errs@);
    let input = r.animations[a].samplers[s].input;
    if input < r.accessors.len() && !is_float_exec(&r.accessors[input], Dimensions::Scalar) {
        report(
            errs,
            vec![
                Segment::Field(Field::Animations),
                Segment::Index(a),
                Segment::Field(Field::Samplers),
                Segment::Index(s),
                Segment::Field(Field::Input),
            ],
            Violation::Conformance,
        );
    }
    assert(report_of(errs@) =~~= before + sampler_conformance(*r, a as int, s as int));
}

fn conform_animation(r: &Root, a: usize, errs: &mut Vec<(Path, Violation)>)
    requires
        a < r.animations@.len(),
    ensures
        report_of(final(errs)@) == report_of(old(errs)@) + animation_conformance(*r, a as int),
{
    let ghost before = report_of(errs@);
    let anim = &r.animations[a];
    let mut c: usize = 0;
    while c < anim.channels.len()
        invariant
            a < r.animations@.len(),
            anim == r.animations@[a as int],
            c <= anim.channels@.len(),
            report_of(errs@) == before + concat_upto(
                c as nat,
                |j: int| channel_conformance(*r, a as int, j),
            ),
        decreases anim.channels@.len() - c,
    {
        conform_channel(r, a, c, errs);
        c = c + 1;
        assert(report_of(errs@) =~= before + concat_upto(
            c as nat,
            |j: int| channel_conformance(*r, a as int, j),
        ));
    }
    let ghost mid = report_of(errs@);
    let mut s: usize = 0;
    while s < anim.samplers.len()
        invariant
            a < r.animations@.len(),
            anim == r.animations@[a as int],
            s <= anim.samplers@.len(),
            report_of(errs@) == mid + concat_upto(
                s as nat,
                |j: int| sampler_conformance(*r, a as int, j),
            ),
        decreases anim.samplers@.len() - s,
    {
        conform_sampler(r, a, s, errs);
        s = s + 1;
        assert(report_of(errs@) =~= mid + concat_upto(
            s as nat,
            |j: int| sampler_conformance(*r, a as int, j),
        ));
    }
    assert(report_of(errs@) =~= before + animation_conformance(*r, a as int));
}

fn conform_animations(r: &Root, errs: &mut Vec<(Path, Violation)>)
    ensures
        report_of(final(errs)@) == report_of(old(errs)@) + concat_upto(
            r.animations@.len(),
            |a: int| animation_conformance(*r, a),
        ),
{
    let ghost before = report_of(errs@);
    let mut i: usize = 0;
    while i < r.animations.len()
        invariant
            i <= r.animations@.len(),
            report_of(errs@) == before + concat_upto(i as nat, |j: int| animation_conformance(*r, j)),
        decreases r.animations@.len() - i,
    {
        conform_animation(r, i, errs);
        i = i + 1;
        assert(report_of(errs@) =~= before + concat_upto(i as nat, |j: int| animation_conformance(*r, j)));
    }
}

fn conform_skins(r: &Root, errs: &mut Vec<(Path, Violation)>)
    ensures
        report_of(final(errs)@) == report_of(old(errs)@) + concat_upto(
            r.skins@.len(),
            |k: int| skin_conformance(*r, k),
        ),
{
    let ghost before = report_of(errs@);
    let mut k: usize = 0;
    while k < r.skins.len()
        invariant
            k <= r.skins@.len(),
            report_of(errs@) == before + concat_upto(k as nat, |j: int| skin_conformance(*r, j)),
        decreases r.skins@.len() - k,
    {
        let ghost prev = report_of(errs@);
        if let Some(m) = r.skins[k].inverse_bind_matrices {
            if m < r.accessors.len() && !is_float_exec(&r.accessors[m], Dimensions::Mat4) {
                report(
                    errs,
                    vec![Segment::Field(Field::Skins), Segment::Index(k), Segment::Field(Field::InverseBindMatrices)],
                    Violation::Conformance,
                );
            }
        }
        assert(report_of(errs@) =~~= prev + skin_conformance(*r, k as int));
        k = k + 1;
        assert(report_of(errs@) =~= before + concat_upto(k as nat, |j: int| skin_conformance(*r, j)));
    }
}

/// Appends every conformance violation to `errs`, in walk order.
pub fn collect_conformance(r: &Root, errs: &mut Vec<(Path, Violation)>)
    ensures
        report_of(final(errs)@) == report_of(old(errs)@) + conformance_errors(*r),
{
    let ghost before = report_of(errs@);
    conform_views(r, errs);
    conform_accessors(r, errs);
    conform_animations(r, errs);
    conform_skins(r, errs);
    assert(report_of(errs@) =~= before + conformance_errors(*r));
}

/// A document that has not been validated yet.
pub struct Unvalidated(pub Root);

/// A document, validated or taken as it is.
pub struct Gltf {
    pub document: Root,
}

/// Every violation that a validation pass found, in walk order.
#[derive(Debug)]
pub struct Error {
    errs: Vec<(Path, Violation)>,
}

impl Error {
    pub closed spec fn report(&self) -> Report {
        report_of(self.errs@)
    }

    /// A short description of the failure.
    pub fn description(&self) -> (r: &'static str)
        ensures
            r == "validation failed",
    {
        "validation failed"
    }

    /// The first violation found, if any.
    pub fn cause(&self) -> (r: Option<&(Path, Violation)>)
        ensures
            r is None <==> self.report().len() == 0,
            r matches Some(e) ==> (e.0.segments@, e.1) == self.report()[0],
    {
        if self.errs.len() > 0 {
            Some(&self.errs[0])
        } else {
            None
        }
    }

    /// The violations, in the order they were found.
    pub fn errors(&self) -> (r: &Vec<(Path, Violation)>)
        ensures
            report_of(r@) == self.report(),
    {
        &self.errs
    }
}

impl Gltf {
    /// The document's records.
    pub fn as_json(&self) -> (r: &Root)
        ensures
            r == &self.document,
    {
        &self.document
    }
}

impl Unvalidated {
    /// The records, not yet validated.
    pub fn as_json(&self) -> (r: &Root)
        ensures
            r == &self.0,
    {
        &self.0
    }

    /// Takes the document as it is. Readers check every index they follow,
    /// but a document that fails the minimal pass may not decode.
    pub fn skip_validation(self) -> (r: Gltf)
        ensures
            r.document == self.0,
    {
        Gltf { document: self.0 }
    }

    /// Checks what safe decoding needs: every index in range, every accessor
    /// inside its buffer view, every enumerated value recognised.
    pub fn validate_minimally(self) -> (r: Result<Gltf, Error>)
        ensures
            r.is_ok() <==> minimal_errors(self.0).len() == 0,
            r matches Ok(g) ==> g.document == self.0,
            r matches Err(e) ==> e.report() == minimal_errors(self.0),
    {
        let mut errs: Vec<(Path, Violation)> = Vec::new();
        collect_minimal(&self.0, &mut errs);
        assert(report_of(errs@) =~= minimal_errors(self.0));
        if errs.len() == 0 {
            Ok(Gltf { document: self.0 })
        } else {
            Err(Error { errs })
        }
    }

    /// Checks everything the minimal pass checks, then conformance to the
    /// format.
    pub fn validate_completely(self) -> (r: Result<Gltf, Error>)
        ensures
            r.is_ok() <==> complete_errors(self.0).len() == 0,
            r matches Ok(g) ==> g.document == self.0,
            r matches Err(e) ==> e.report() == complete_errors(self.0),
    {
        let mut errs: Vec<(Path, Violation)> = Vec::new();
        collect_minimal(&self.0, &mut errs);
        collect_conformance(&self.0, &mut errs);
        assert(report_of(errs@) =~= complete_errors(self.0));
        if errs.len() == 0 {
            Ok(Gltf { document: self.0 })
        } else {
            Err(Error { errs })
        }
    }
}

// ---- laws ----
/// `p` is the path of an index field of `r` whose value is past the end of
/// the collection it refers to.
pub open spec fn dangling(r: Root, p: Seq<Segment>) -> bool {
    ||| exists|i: int|
        0 <= i < r.buffer_views@.len() && r.buffer_views@[i].buffer >= r.buffers@.len() && p
            == seq![fld(Field::BufferViews), idx(i), fld(Field::Buffer)]
    ||| exists|i: int|
        0 <= i < r.accessors@.len() && r.accessors@[i].buffer_view >= r.buffer_views@.len() && p
            == seq![fld(Field::Accessors), idx(i), fld(Field::BufferView)]
    ||| exists|a: int, c: int|
        0 <= a < r.animations@.len() && 0 <= c < r.animations@[a].channels@.len() && (
        channel_errors(r, a, c).contains((p, Violation::IndexOutOfBounds)))
    ||| exists|a: int, s: int|
        0 <= a < r.animations@.len() && 0 <= s < r.animations@[a].samplers@.len() && (
        sampler_errors(r, a, s).contains((p, Violation::IndexOutOfBounds)))
    ||| exists|k: int, j: int|
        0 <= k < r.skins@.len() && 0 <= j < r.skins@[k].joints@.len() && r.skins@[k].joints@[j]
            >= r.nodes@.len() && p == seq![fld(Field::Skins), idx(k), fld(Field::Joints), idx(j)]
    ||| exists|k: int|
        0 <= k < r.skins@.len() && r.skins@[k].inverse_bind_matrices is Some
            && r.skins@[k].inverse_bind_matrices->0 >= r.accessors@.len() && p == seq![
            fld(Field::Skins),
            idx(k),
            fld(Field::InverseBindMatrices),
        ]
    ||| exists|k: int|
        0 <= k < r.skins@.len() && r.skins@[k].skeleton is Some && r.skins@[k].skeleton->0
            >= r.nodes@.len() && p == seq![fld(Field::Skins), idx(k), fld(Field::Skeleton)]
}

proof fn lemma_add_contains(x: Report, y: Report, e: (Seq<Segment>, Violation))
    requires
        x.contains(e) || y.contains(e),
    ensures
        (x + y).contains(e),
{
    if x.contains(e) {
        let i = choose|i: int| 0 <= i < x.len() && x[i] == e;
        assert((x + y)[i] == e);
    } else {
        let i = choose|i: int| 0 <= i < y.len() && y[i] == e;
        assert((x + y)[x.len() + i] == e);
    }
}

proof fn lemma_upto_contains(n: nat, f: spec_fn(int) -> Report, i: int, e: (Seq<Segment>, Violation))
    requires
        0 <= i < n,
        f(i).contains(e),
    ensures
        concat_upto(n, f).contains(e),
    decreases n,
{
    if i < n - 1 {
        lemma_upto_contains((n - 1) as nat, f, i, e);
    }
    lemma_add_contains(concat_upto((n - 1) as nat, f), f(n - 1), e);
}

proof fn lemma_upto_empty(n: nat, f: spec_fn(int) -> Report, i: int)
    requires
        0 <= i < n,
        concat_upto(n, f).len() == 0,
    ensures
        f(i).len() == 0,
    decreases n,
{
    if i < n - 1 {
        lemma_upto_empty((n - 1) as nat, f, i);
    }
}

/// An index that refers past the end of its collection is always reported
/// by the minimal pass, at the path of that index, so a document holding one
/// never passes it.
pub proof fn lemma_dangling_reported(r: Root, p: Seq<Segment>)
    requires
        dangling(r, p),
    ensures
        minimal_errors(r).contains((p, Violation::IndexOutOfBounds)),
        minimal_errors(r).len() > 0,
{
    let e = (p, Violation::IndexOutOfBounds);
    let fv = |i: int| view_errors(r, i);
    let fa = |i: int| accessor_errors(r, i);
    let fn_ = |a: int| animation_errors(r, a);
    let fk = |k: int| skin_errors(r, k);
    let v = concat_upto(r.buffer_views@.len(), fv);
    let ac = concat_upto(r.accessors@.len(), fa);
    let an = concat_upto(r.animations@.len(), fn_);
    let sk = concat_upto(r.skins@.len(), fk);
    if exists|i: int|
        0 <= i < r.buffer_views@.len() && r.buffer_views@[i].buffer >= r.buffers@.len() && p
            == seq![fld(Field::BufferViews), idx(i), fld(Field::Buffer)] {
        let i = choose|i: int|
            0 <= i < r.buffer_views@.len() && r.buffer_views@[i].buffer >= r.buffers@.len() && p
                == seq![fld(Field::BufferViews), idx(i), fld(Field::Buffer)];
        assert(view_errors(r, i)[0] == e);
        lemma_upto_contains(r.buffer_views@.len(), fv, i, e);
        lemma_add_contains(v, ac, e);
        lemma_add_contains(v + ac, an, e);
        lemma_add_contains(v + ac + an, sk, e);
    } else if exists|i: int|
        0 <= i < r.accessors@.len() && r.accessors@[i].buffer_view >= r.buffer_views@.len() && p
            == seq![fld(Field::Accessors), idx(i), fld(Field::BufferView)] {
        let i = choose|i: int|
            0 <= i < r.accessors@.len() && r.accessors@[i].buffer_view >= r.buffer_views@.len()
                && p == seq![fld(Field::Accessors), idx(i), fld(Field::BufferView)];
        assert(accessor_errors(r, i)[0] == e);
        lemma_upto_contains(r.accessors@.len(), fa, i, e);
        lemma_add_contains(v, ac, e);
        lemma_add_contains(v + ac, an, e);
        lemma_add_contains(v + ac + an, sk, e);
    } else if exists|a: int, c: int|
        0 <= a < r.animations@.len() && 0 <= c < r.animations@[a].channels@.len() && (
        channel_errors(r, a, c).contains(e)) {
        let (a, c) = choose|a: int, c: int|
            0 <= a < r.animations@.len() && 0 <= c < r.animations@[a].channels@.len() && (
            channel_errors(r, a, c).contains(e));
        let fc = |j: int| channel_errors(r, a, j);
        let fs = |j: int| sampler_errors(r, a, j);
        lemma_upto_contains(r.animations@[a].channels@.len(), fc, c, e);
        lemma_add_contains(
            concat_upto(r.animations@[a].channels@.len(), fc),
            concat_upto(r.animations@[a].samplers@.len(), fs),
            e,
        );
        lemma_upto_contains(r.animations@.len(), fn_, a, e);
        lemma_add_contains(v + ac, an, e);
        lemma_add_contains(v + ac + an, sk, e);
    } else if exists|a: int, s: int|
        0 <= a < r.animations@.len() && 0 <= s < r.animations@[a].samplers@.len() && (
        sampler_errors(r, a, s).contains(e)) {
        let (a, s) = choose|a: int, s: int|
            0 <= a < r.animations@.len() && 0 <= s < r.animations@[a].samplers@.len() && (
            sampler_errors(r, a, s).contains(e));
        let fc = |j: int| channel_errors(r, a, j);
        let fs = |j: int| sampler_errors(r, a, j);
        lemma_upto_contains(r.animations@[a].samplers@.len(), fs, s, e);
        lemma_add_contains(
            concat_upto(r.animations@[a].channels@.len(), fc),
            concat_upto(r.animations@[a].samplers@.len(), fs),
            e,
        );
        lemma_upto_contains(r.animations@.len(), fn_, a, e);
        lemma_add_contains(v + ac, an, e);
        lemma_add_contains(v + ac + an, sk, e);
    } else if exists|k: int, j: int|
        0 <= k < r.skins@.len() && 0 <= j < r.skins@[k].joints@.len() && r.skins@[k].joints@[j]
            >= r.nodes@.len() && p == seq![fld(Field::Skins), idx(k), fld(Field::Joints), idx(j)] {
        let (k, j) = choose|k: int, j: int|
            0 <= k < r.skins@.len() && 0 <= j < r.skins@[k].joints@.len() && r.skins@[k].joints@[j]
                >= r.nodes@.len() && p == seq![fld(Field::Skins), idx(k), fld(Field::Joints), idx(j)];
        let sko = r.skins@[k];
        let fj = |x: int| joint_errors(r, k, x);
        let jo = concat_upto(sko.joints@.len(), fj);
        let m = when(
            sko.inverse_bind_matrices is Some && sko.inverse_bind_matrices->0 >= r.accessors@.len(),
            seq![fld(Field::Skins), idx(k), fld(Field::InverseBindMatrices)],
            Violation::IndexOutOfBounds,
        );
        let t = when(
            sko.skeleton is Some && sko.skeleton->0 >= r.nodes@.len(),
            seq![fld(Field::Skins), idx(k), fld(Field::Skeleton)],
            Violation::IndexOutOfBounds,
        );
        assert(joint_errors(r, k, j)[0] == e);
        lemma_upto_contains(sko.joints@.len(), fj, j, e);
        lemma_add_contains(jo, m, e);
        lemma_add_contains(jo + m, t, e);
        assert(skin_errors(r, k) == jo + m + t);
        lemma_upto_contains(r.skins@.len(), fk, k, e);
        lemma_add_contains(v + ac + an, sk, e);
    } else {
        let k = if exists|k: int|
            0 <= k < r.skins@.len() && r.skins@[k].inverse_bind_matrices is Some
                && r.skins@[k].inverse_bind_matrices->0 >= r.accessors@.len() && p == seq![
                fld(Field::Skins),
                idx(k),
                fld(Field::InverseBindMatrices),
            ] {
            choose|k: int|
                0 <= k < r.skins@.len() && r.skins@[k].inverse_bind_matrices is Some
                    && r.skins@[k].inverse_bind_matrices->0 >= r.accessors@.len() && p == seq![
                    fld(Field::Skins),
                    idx(k),
                    fld(Field::InverseBindMatrices),
                ]
        } else {
            choose|k: int|
                0 <= k < r.skins@.len() && r.skins@[k].skeleton is Some && r.skins@[k].skeleton->0
                    >= r.nodes@.len() && p == seq![fld(Field::Skins), idx(k), fld(Field::Skeleton)]
        };
        let sko = r.skins@[k];
        let jo = concat_upto(sko.joints@.len(), |x: int| joint_errors(r, k, x));
        let m = when(
            sko.inverse_bind_matrices is Some && sko.inverse_bind_matrices->0 >= r.accessors@.len(),
            seq![fld(Field::Skins), idx(k), fld(Field::InverseBindMatrices)],
            Violation::IndexOutOfBounds,
        );
        let t = when(
            sko.skeleton is Some && sko.skeleton->0 >= r.nodes@.len(),
            seq![fld(Field::Skins), idx(k), fld(Field::Skeleton)],
            Violation::IndexOutOfBounds,
        );
        if m.len() > 0 && m[0] == e {
            assert(m.contains(e));
            lemma_add_contains(jo, m, e);
            lemma_add_contains(jo + m, t, e);
        } else {
            assert(t[0] == e);
            assert(t.contains(e));
            lemma_add_contains(jo + m, t, e);
        }
        assert(skin_errors(r, k) == jo + m + t);
        lemma_upto_contains(r.skins@.len(), fk, k, e);
        lemma_add_contains(v + ac + an, sk, e);
    }
}

/// After a successful minimal pass, the input and output accessors of every
/// animation sampler lie inside their buffer views, and those views inside
/// their buffers: every byte read for any of their elements is inside the
/// element's buffer view.
pub proof fn lemma_sampler_accessors_fit(r: Root, a: int, s: int)
    requires
        minimal_errors(r).len() == 0,
        0 <= a < r.animations@.len(),
        0 <= s < r.animations@[a].samplers@.len(),
    ensures
        accessor_readable(r, r.animations@[a].samplers@[s].input as int),
        accessor_readable(r, r.animations@[a].samplers@[s].output as int),
        reads_inside_view(r, r.animations@[a].samplers@[s].input as int),
        reads_inside_view(r, r.animations@[a].samplers@[s].output as int),
{
    let v = concat_upto(r.buffer_views@.len(), |i: int| view_errors(r, i));
    let ac = concat_upto(r.accessors@.len(), |i: int| accessor_errors(r, i));
    let an = concat_upto(r.animations@.len(), |x: int| animation_errors(r, x));
    assert(an.len() == 0);
    lemma_upto_empty(r.animations@.len(), |x: int| animation_errors(r, x), a);
    lemma_upto_empty(r.animations@[a].samplers@.len(), |j: int| sampler_errors(r, a, j), s);
    let sm = r.animations@[a].samplers@[s];
    lemma_valid_accessor_readable(r, sm.input as int);
    lemma_valid_accessor_readable(r, sm.output as int);
    lemma_readable_reads_inside(r, sm.input as int);
    lemma_readable_reads_inside(r, sm.output as int);
}

/// After a successful minimal pass, every channel refers to a sampler of its
/// animation, names a recognised property, and its sampler's accessors are
/// readable with every element inside its view.
pub proof fn lemma_valid_channel(r: Root, a: int, c: int)
    requires
        minimal_errors(r).len() == 0,
        0 <= a < r.animations@.len(),
        0 <= c < r.animations@[a].channels@.len(),
    ensures
        r.animations@[a].channels@[c].sampler < r.animations@[a].samplers@.len(),
        r.animations@[a].channels@[c].target.path is Valid,
        accessor_readable(r, r.animations@[a].samplers@[r.animations@[a].channels@[c].sampler as int].input as int),
        accessor_readable(r, r.animations@[a].samplers@[r.animations@[a].channels@[c].sampler as int].output as int),
        reads_inside_view(r, r.animations@[a].samplers@[r.animations@[a].channels@[c].sampler as int].input as int),
        reads_inside_view(r, r.animations@[a].samplers@[r.animations@[a].channels@[c].sampler as int].output as int),
{
    let an = concat_upto(r.animations@.len(), |x: int| animation_errors(r, x));
    assert(an.len() == 0);
    lemma_upto_empty(r.animations@.len(), |x: int| animation_errors(r, x), a);
    lemma_upto_empty(r.animations@[a].channels@.len(), |j: int| channel_errors(r, a, j), c);
    let ch = r.animations@[a].channels@[c];
    if ch.sampler >= r.animations@[a].samplers@.len() {
        assert(channel_errors(r, a, c).len() > 0);
    }
    if ch.target.path is Invalid {
        assert(channel_errors(r, a, c).len() > 0);
    }
    lemma_sampler_accessors_fit(r, a, ch.sampler as int);
}

/// Every element of accessor `i` starts and ends inside its buffer view.
pub open spec fn reads_inside_view(r: Root, i: int) -> bool {
    let acc = r.accessors@[i];
    let v = r.buffer_views@[acc.buffer_view as int];
    forall|e: int|
        0 <= e < acc.count ==> v.byte_offset <= #[trigger] element_start(acc, v, e) && element_start(
            acc,
            v,
            e,
        ) + element_size(acc) <= v.byte_offset + v.byte_length
}

proof fn lemma_readable_reads_inside(r: Root, i: int)
    requires
        accessor_readable(r, i),
    ensures
        reads_inside_view(r, i),
{
    let acc = r.accessors@[i];
    let v = r.buffer_views@[acc.buffer_view as int];
    assert forall|e: int| 0 <= e < acc.count implies v.byte_offset <= #[trigger] element_start(
        acc,
        v,
        e,
    ) && element_start(acc, v, e) + element_size(acc) <= v.byte_offset + v.byte_length by {
        lemma_reads_inside_view(acc, v, e);
    }
}

/// Accessor `i` exists, its buffer view and buffer exist, every element lies
/// inside the view and the view inside the buffer.
pub open spec fn accessor_readable(r: Root, i: int) -> bool {
    &&& 0 <= i < r.accessors@.len()
    &&& r.accessors@[i].buffer_view < r.buffer_views@.len()
    &&& fits_view(r.accessors@[i], r.buffer_views@[r.accessors@[i].buffer_view as int])
    &&& r.buffer_views@[r.accessors@[i].buffer_view as int].buffer < r.buffers@.len()
    &&& r.buffer_views@[r.accessors@[i].buffer_view as int].byte_offset
        + r.buffer_views@[r.accessors@[i].buffer_view as int].byte_length <= r.buffers@[r.buffer_views@[r.accessors@[i].buffer_view as int].buffer as int].byte_length
}

proof fn lemma_valid_accessor_readable(r: Root, i: int)
    requires
        minimal_errors(r).len() == 0,
        0 <= i < r.accessors@.len(),
    ensures
        accessor_readable(r, i),
{
    let v = concat_upto(r.buffer_views@.len(), |x: int| view_errors(r, x));
    let ac = concat_upto(r.accessors@.len(), |x: int| accessor_errors(r, x));
    assert(v.len() == 0 && ac.len() == 0);
    lemma_upto_empty(r.accessors@.len(), |x: int| accessor_errors(r, x), i);
    let bv = r.accessors@[i].buffer_view as int;
    lemma_upto_empty(r.buffer_views@.len(), |x: int| view_errors(r, x), bv);
}

// ---- text form of a path ----
/// The name of a field as it stands in the document.
pub open spec fn field_name(f: Field) -> &'static str {
    match f {
        Field::Accessors => "accessors",
        Field::Animations => "animations",
        Field::Buffer => "buffer",
        Field::BufferView => "bufferView",
        Field::BufferViews => "bufferViews",
        Field::ByteLength => "byteLength",
        Field::ByteStride => "byteStride",
        Field::Channels => "channels",
        Field::Count => "count",
        Field::Input => "input",
        Field::Interpolation => "interpolation",
        Field::InverseBindMatrices => "inverseBindMatrices",
        Field::Joints => "joints",
        Field::Node => "node",
        Field::Normalized => "normalized",
        Field::Output => "output",
        Field::Path => "path",
        Field::Sampler => "sampler",
        Field::Samplers => "samplers",
        Field::Skeleton => "skeleton",
        Field::Skins => "skins",
        Field::Sparse => "sparse",
        Field::Target => "target",
    }
}

/// The decimal digits of `n`, most significant first, as ASCII.
pub open spec fn decimal(n: nat) -> Seq<u8>
    decreases n,
{
    if n < 10 {
        seq![(48 + n) as u8]
    } else {
        decimal(n / 10).push((48 + n % 10) as u8)
    }
}

/// One segment as text: `.name` (no dot at the start of the path) or `[i]`.
pub open spec fn segment_text(s: Segment, first: bool) -> Seq<u8> {
    match s {
        Segment::Field(f) => if first {
            field_name(f).spec_bytes()
        } else {
            seq![46u8] + field_name(f).spec_bytes()
        },
        Segment::Index(i) => seq![91u8] + decimal(i as nat) + seq![93u8],
    }
}

/// A path as text, such as `animations[0].samplers[2].input`.
pub open spec fn path_text(p: Seq<Segment>) -> Seq<u8>
    decreases p.len(),
{
    if p.len() == 0 {
        Seq::empty()
    } else {
        path_text(p.drop_last()) + segment_text(p.last(), p.len() == 1)
    }
}

impl Field {
    /// The name of the field as it stands in the document.
    pub fn name(&self) -> (r: &'static str)
        ensures
            r == field_name(*self),
    {
        match self {
            Field::Accessors => "accessors",
            Field::Animations => "animations",
            Field::Buffer => "buffer",
            Field::BufferView => "bufferView",
            Field::BufferViews => "bufferViews",
            Field::ByteLength => "byteLength",
            Field::ByteStride => "byteStride",
            Field::Channels => "channels",
            Field::Count => "count",
            Field::Input => "input",
            Field::Interpolation => "interpolation",
            Field::InverseBindMatrices => "inverseBindMatrices",
            Field::Joints => "joints",
            Field::Node => "node",
            Field::Normalized => "normalized",
            Field::Output => "output",
            Field::Path => "path",
            Field::Sampler => "sampler",
            Field::Samplers => "samplers",
            Field::Skeleton => "skeleton",
            Field::Skins => "skins",
            Field::Sparse => "sparse",
            Field::Target => "target",
        }
    }
}

fn push_decimal(out: &mut Vec<u8>, n: usize)
    ensures
        final(out)@ == old(out)@ + decimal(n as nat),
    decreases n,
{
    if n >= 10 {
        push_decimal(out, n / 10);
    }
    out.push((48 + n % 10) as u8);
    proof {
        if n >= 10 {
            assert(out@ =~= old(out)@ + decimal(n as nat));
        } else {
            assert(out@ =~= old(out)@ + decimal(n as nat));
        }
    }
}

fn push_bytes(out: &mut Vec<u8>, b: &[u8])
    ensures
        final(out)@ == old(out)@ + b@,
{
    let mut i: usize = 0;
    while i < b.len()
        invariant
            i <= b@.len(),
            out@ == old(out)@ + b@.subrange(0, i as int),
        decreases b@.len() - i,
    {
        out.push(b[i]);
        i = i + 1;
        assert(out@ =~= old(out)@ + b@.subrange(0, i as int));
    }
    assert(b@.subrange(0, b@.len() as int) =~= b@);
}

impl Path {
    /// The path as ASCII text, such as `animations[0].samplers[2].input`:
    /// fields joined by dots, indices in brackets.
    pub fn text_bytes(&self) -> (r: Vec<u8>)
        ensures
            r@ == path_text(self.segments@),
    {
        let mut out: Vec<u8> = Vec::new();
        let mut i: usize = 0;
        while i < self.segments.len()
            invariant
                i <= self.segments@.len(),
                out@ == path_text(self.segments@.subrange(0, i as int)),
            decreases self.segments@.len() - i,
        {
            let ghost before = out@;
            match self.segments[i] {
                Segment::Field(f) => {
                    if i > 0 {
                        out.push(46u8);
                    }
                    push_bytes(&mut out, f.name().as_bytes());
                },
                Segment::Index(k) => {
                    out.push(91u8);
                    push_decimal(&mut out, k);
                    out.push(93u8);
                },
            }
            let ghost p = self.segments@.subrange(0, i + 1);
            assert(p.drop_last() =~= self.segments@.subrange(0, i as int));
            assert(out@ =~= before + segment_text(self.segments@[i as int], i == 0));
            i = i + 1;
        }
        assert(self.segments@.subrange(0, self.segments@.len() as int) =~= self.segments@);
        out
    }
}

} // verus!
