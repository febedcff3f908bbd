//! The mathematical model of shapes, layouts and values, and the layout rule.
//!
//! Fields are laid out in declared order: each field starts at the running
//! cursor rounded up to the field's alignment, and the cursor then moves past
//! the field. A record is aligned to the largest alignment of its fields (1
//! when it has none), and its size is the final cursor rounded up to that
//! alignment.
use vstd::prelude::*;
use crate::prim_type::PrimTypeInfo;

verus! {

/// The model of a type descriptor.
pub enum TypeModel {
    Prim(PrimTypeInfo),
    Record(RecordModel),
}

/// The model of a record layout.
pub struct RecordModel {
    pub name: Seq<char>,
    pub fields: Seq<FieldModel>,
    pub size: nat,
    pub align: nat,
}

/// The model of one field of a record layout.
pub struct FieldModel {
    pub name: Seq<char>,
    pub data_type: TypeModel,
    pub offset: nat,
}

/// The model of a value of some shape: the 32-bit lanes of a primitive, or
/// the values of a record's fields in declared order.
pub enum ValueModel {
    Prim(Seq<u32>),
    Record(Seq<ValueModel>),
}

impl TypeModel {
    pub open spec fn size(self) -> nat {
        match self {
            TypeModel::Prim(p) => p.spec_size(),
            TypeModel::Record(r) => r.size,
        }
    }

    pub open spec fn align(self) -> nat {
        match self {
            TypeModel::Prim(p) => p.spec_align(),
            TypeModel::Record(r) => r.align,
        }
    }

    pub open spec fn name(self) -> Seq<char> {
        match self {
            TypeModel::Prim(p) => p.spec_name(),
            TypeModel::Record(r) => r.name,
        }
    }

    /// Every record inside the type is laid out by the layout rule.
    pub open spec fn wf(self) -> bool
        decreases self,
    {
        match self {
            TypeModel::Prim(_) => true,
            TypeModel::Record(r) => {
                &&& r.is_laid_out()
                &&& forall|i: int| 0 <= i < r.fields.len() ==> (#[trigger] r.fields[i]).data_type.wf()
            },
        }
    }
}

/// `x` rounded up to the next multiple of `a`.
pub open spec fn round_up(x: int, a: int) -> int {
    if a > 0 {
        ((x + a - 1) / a) * a
    } else {
        x
    }
}

/// The cursor after laying out fields of the given types in order.
pub open spec fn end_of(types: Seq<TypeModel>) -> int
    decreases types.len(),
{
    if types.len() == 0 {
        0
    } else {
        round_up(end_of(types.drop_last()), types.last().align() as int) + types.last().size()
    }
}

/// The offset of field `i` among fields of the given types.
pub open spec fn offset_in(types: Seq<TypeModel>, i: int) -> int {
    round_up(end_of(types.take(i)), types[i].align() as int)
}

/// The largest alignment among the given types, and 1 when there are none.
pub open spec fn max_align(types: Seq<TypeModel>) -> int
    decreases types.len(),
{
    if types.len() == 0 {
        1
    } else {
        let m = max_align(types.drop_last());
        let a = types.last().align() as int;
        if a > m {
            a
        } else {
            m
        }
    }
}

/// The types of an ordered field specification.
pub open spec fn field_types(specs: Seq<(Seq<char>, TypeModel)>) -> Seq<TypeModel> {
    specs.map_values(|s: (Seq<char>, TypeModel)| s.1)
}

/// Two fields of the specification share a name.
pub open spec fn has_duplicate_names(specs: Seq<(Seq<char>, TypeModel)>) -> bool {
    exists|i: int, j: int| 0 <= i < j < specs.len() && #[trigger] specs[i].0 == #[trigger] specs[j].0
}

/// The layout's arithmetic stays within `usize`: the last cursor plus the
/// record's alignment is at most `usize::MAX + 1`.
pub open spec fn layout_fits(specs: Seq<(Seq<char>, TypeModel)>) -> bool {
    end_of(field_types(specs)) + max_align(field_types(specs)) <= usize::MAX + 1
}

/// The record layout of the named ordered field specification.
pub open spec fn layout_of(name: Seq<char>, specs: Seq<(Seq<char>, TypeModel)>) -> RecordModel {
    let types = field_types(specs);
    RecordModel {
        name,
        fields: Seq::new(
            specs.len(),
            |i: int| FieldModel { name: specs[i].0, data_type: specs[i].1, offset: offset_in(types, i) as nat },
        ),
        size: round_up(end_of(types), max_align(types)) as nat,
        align: max_align(types) as nat,
    }
}

impl RecordModel {
    /// The ordered field specification the layout was made from.
    pub open spec fn field_specs(self) -> Seq<(Seq<char>, TypeModel)> {
        self.fields.map_values(|f: FieldModel| (f.name, f.data_type))
    }

    pub open spec fn is_laid_out(self) -> bool {
        &&& self == layout_of(self.name, self.field_specs())
        &&& !has_duplicate_names(self.field_specs())
    }

    pub open spec fn field_end(self, i: int) -> int {
        self.fields[i].offset + self.fields[i].data_type.size() as int
    }
}

pub proof fn lemma_round_up(x: int, a: int)
    requires
        x >= 0,
    ensures
        x <= round_up(x, a),
        a > 0 ==> round_up(x, a) <= x + a - 1,
        a > 0 ==> round_up(x, a) % a == 0,
{
    if a > 0 {
        let q = (x + a - 1) / a;
        let r = (x + a - 1) % a;
        assert(x + a - 1 == q * a + r && 0 <= r < a) by (nonlinear_arith)
            requires
                a > 0,
                q == (x + a - 1) / a,
                r == (x + a - 1) % a,
        ;
        assert((q * a) % a == 0) by (nonlinear_arith)
            requires
                a > 0,
        ;
    }
}

pub proof fn lemma_end_of_nonneg(types: Seq<TypeModel>)
    ensures
        end_of(types) >= 0,
    decreases types.len(),
{
    if types.len() > 0 {
        lemma_end_of_nonneg(types.drop_last());
        lemma_round_up(end_of(types.drop_last()), types.last().align() as int);
    }
}

/// Field `i` ends where the cursor stands after the first `i + 1` fields.
pub proof fn lemma_field_end(types: Seq<TypeModel>, i: int)
    requires
        0 <= i < types.len(),
    ensures
        offset_in(types, i) + types[i].size() == end_of(types.take(i + 1)),
        end_of(types.take(i)) <= offset_in(types, i),
{
    assert(types.take(i + 1).drop_last() =~= types.take(i));
    lemma_end_of_nonneg(types.take(i));
    lemma_round_up(end_of(types.take(i)), types[i].align() as int);
}

/// The cursor only moves forward.
pub proof fn lemma_end_of_monotone(types: Seq<TypeModel>, i: int, j: int)
    requires
        0 <= i <= j <= types.len(),
    ensures
        end_of(types.take(i)) <= end_of(types.take(j)),
    decreases j - i,
{
    if i < j {
        lemma_end_of_monotone(types, i, j - 1);
        lemma_field_end(types, j - 1);
    }
}

/// The largest alignment of a prefix is at most that of the whole, and at least each member's.
pub proof fn lemma_max_align(types: Seq<TypeModel>, j: int)
    requires
        0 <= j <= types.len(),
    ensures
        max_align(types.take(j)) <= max_align(types),
        max_align(types) >= 1,
        forall|k: int| 0 <= k < types.len() ==> types[k].align() <= max_align(types),
    decreases types.len(),
{
    if types.len() > 0 {
        let init = types.drop_last();
        if j < types.len() {
            assert(types.take(j) =~= init.take(j));
            lemma_max_align(init, j);
        } else {
            assert(types.take(j) =~= types);
            lemma_max_align(init, 0);
        }
        assert forall|k: int| 0 <= k < types.len() implies types[k].align() <= max_align(types) by {
            if k < types.len() - 1 {
                assert(init[k] == types[k]);
            }
        }
    }
}

/// In a laid-out record the fields follow one another without overlap and
/// end within the record's size.
pub proof fn lemma_fields_ordered(r: RecordModel, i: int, j: int)
    requires
        r.is_laid_out(),
        0 <= i < j <= r.fields.len(),
    ensures
        r.field_end(i) <= (if j < r.fields.len() { r.fields[j].offset as int } else { r.size as int }),
        r.fields[i].offset <= r.field_end(i),
{
    let specs = r.field_specs();
    let types = field_types(specs);
    assert(types.len() == r.fields.len());
    assert(types[i] == r.fields[i].data_type);
    let l = layout_of(r.name, specs);
    assert(r.fields[i] == l.fields[i]);
    lemma_field_end(types, i);
    lemma_end_of_nonneg(types.take(i));
    lemma_end_of_monotone(types, i + 1, j);
    if j < r.fields.len() {
        assert(r.fields[j] == l.fields[j]);
        lemma_field_end(types, j);
        lemma_end_of_nonneg(types.take(j));
    } else {
        assert(types.take(j) =~= types);
        lemma_end_of_nonneg(types);
        lemma_round_up(end_of(types), max_align(types));
    }
}


/// A well-formed type has an alignment of at least one.
pub proof fn lemma_wf_align(t: TypeModel)
    requires
        t.wf(),
    ensures
        t.align() >= 1,
{
    match t {
        TypeModel::Prim(p) => {
            p.lemma_size_align();
        },
        TypeModel::Record(r) => {
            let types = field_types(r.field_specs());
            lemma_max_align(types, 0);
        },
    }
}

/// Laying out one more field: the earlier fields keep their offsets, the new
/// one starts at the old cursor rounded up to its alignment.
pub proof fn lemma_layout_push(
    name: Seq<char>,
    specs: Seq<(Seq<char>, TypeModel)>,
    spec: (Seq<char>, TypeModel),
)
    ensures
        ({
            let types = field_types(specs);
            let next = field_types(specs.push(spec));
            let l = layout_of(name, specs);
            let m = layout_of(name, specs.push(spec));
            &&& next == types.push(spec.1)
            &&& m.fields.len() == specs.len() + 1
            &&& forall|i: int| 0 <= i < specs.len() ==> #[trigger] m.fields[i] == l.fields[i]
            &&& m.fields[specs.len() as int] == FieldModel {
                name: spec.0,
                data_type: spec.1,
                offset: round_up(end_of(types), spec.1.align() as int) as nat,
            }
            &&& end_of(next) == round_up(end_of(types), spec.1.align() as int) + spec.1.size()
            &&& max_align(next) == (if spec.1.align() > max_align(types) {
                spec.1.align() as int
            } else {
                max_align(types)
            })
        }),
{
    let types = field_types(specs);
    let next = field_types(specs.push(spec));
    assert(next =~= types.push(spec.1));
    assert(next.drop_last() =~= types);
    assert(next.take(specs.len() as int) =~= types);
    let l = layout_of(name, specs);
    let m = layout_of(name, specs.push(spec));
    assert forall|i: int| 0 <= i < specs.len() implies #[trigger] m.fields[i] == l.fields[i] by {
        assert(next.take(i) =~= types.take(i));
    }
    lemma_end_of_nonneg(types);
    lemma_round_up(end_of(types), spec.1.align() as int);
}

/// The layout of a whole specification is no smaller than that of a prefix.
pub proof fn lemma_fits_prefix(specs: Seq<(Seq<char>, TypeModel)>, n: int)
    requires
        0 <= n <= specs.len(),
    ensures
        end_of(field_types(specs.take(n))) <= end_of(field_types(specs)),
        max_align(field_types(specs.take(n))) <= max_align(field_types(specs)),
        layout_fits(specs) ==> layout_fits(specs.take(n)),
{
    let types = field_types(specs);
    assert(field_types(specs.take(n)) =~= types.take(n));
    assert(types.take(types.len() as int) =~= types);
    lemma_end_of_monotone(types, n, types.len() as int);
    lemma_max_align(types, n);
}

pub proof fn lemma_wf_fields(r: RecordModel)
    requires
        TypeModel::Record(r).wf(),
    ensures
        r.is_laid_out(),
        forall|i: int| 0 <= i < r.fields.len() ==> #[trigger] r.fields[i].data_type.wf(),
{
    assert forall|i: int| 0 <= i < r.fields.len() implies #[trigger] r.fields[i].data_type.wf() by {
    }
}

} // verus!
