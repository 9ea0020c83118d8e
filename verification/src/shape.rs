//! The rule by which a node type gets its span, for node types that are
//! declared elsewhere: from the shape of the type, the fields whose spans
//! are merged, in the order in which they are declared.

use crate::text::{decimal, push_decimal};
use vstd::prelude::*;

verus! {

/// The fields of a struct or of a variant.
#[derive(Clone, Debug, PartialEq, Eq)]
pub enum Fields {
    /// Fields with names, by their names.
    Named(Vec<String>),
    /// Fields without names, by their number.
    Unnamed(usize),
    /// No fields.
    Unit,
}

/// A variant of an enum.
#[derive(Clone, Debug, PartialEq, Eq)]
pub struct Variant {
    pub name: String,
    pub fields: Fields,
}

/// The shape of a type.
#[derive(Clone, Debug, PartialEq, Eq)]
pub enum Data {
    Struct(Fields),
    Enum(Vec<Variant>),
    Union,
}

/// How the code reaches one field.
#[derive(Clone, Debug, PartialEq, Eq)]
pub enum Access {
    /// The field of `self` with this name.
    Field(String),
    /// The field of `self` at this position.
    Index(usize),
    /// The name that the pattern of the arm binds the field to.
    Binding(String),
}

/// One case of the rule: for a struct the only one, for an enum that of one
/// variant. The span is the union of the spans of `parts`, in their order.
#[derive(Clone, Debug, PartialEq, Eq)]
pub struct Arm {
    /// The variant that the case is for; none for a struct.
    pub variant: Option<String>,
    /// Whether the variant has fields with names.
    pub named: bool,
    /// The names that the pattern binds, one for each field of the variant.
    pub bindings: Vec<String>,
    /// The fields whose spans are merged.
    pub parts: Vec<Access>,
}

/// Why a type has no rule.
#[derive(Clone, Copy, Debug, PartialEq, Eq, Structural)]
pub enum ShapeError {
    /// A struct without fields has no span.
    UnitStruct,
    /// The variant at this position has no fields, and so no span.
    UnitVariant { index: usize },
    /// A union has no rule.
    Union,
}

/// What the fields of a struct or a variant are.
pub enum FieldsView {
    Named(Seq<Seq<char>>),
    Unnamed(nat),
    Unit,
}

/// What a variant is.
pub struct VariantView {
    pub name: Seq<char>,
    pub fields: FieldsView,
}

/// What the shape of a type is.
pub enum DataView {
    Struct(FieldsView),
    Enum(Seq<VariantView>),
    Union,
}

/// How one field is reached.
pub enum AccessView {
    Field(Seq<char>),
    Index(nat),
    Binding(Seq<char>),
}

/// What one case of the rule is.
pub struct ArmView {
    pub variant: Option<Seq<char>>,
    pub named: bool,
    pub bindings: Seq<Seq<char>>,
    pub parts: Seq<AccessView>,
}

/// The texts of `names`, in their order.
pub open spec fn texts(names: Seq<String>) -> Seq<Seq<char>> {
    Seq::new(names.len(), |i: int| names[i]@)
}

impl View for Fields {
    type V = FieldsView;

    open spec fn view(&self) -> FieldsView {
        match self {
            Fields::Named(names) => FieldsView::Named(texts(names@)),
            Fields::Unnamed(n) => FieldsView::Unnamed(*n as nat),
            Fields::Unit => FieldsView::Unit,
        }
    }
}

impl View for Variant {
    type V = VariantView;

    open spec fn view(&self) -> VariantView {
        VariantView { name: self.name@, fields: self.fields@ }
    }
}

impl View for Data {
    type V = DataView;

    open spec fn view(&self) -> DataView {
        match self {
            Data::Struct(fields) => DataView::Struct(fields@),
            Data::Enum(variants) => DataView::Enum(
                Seq::new(variants@.len(), |i: int| variants@[i]@),
            ),
            Data::Union => DataView::Union,
        }
    }
}

impl View for Access {
    type V = AccessView;

    open spec fn view(&self) -> AccessView {
        match self {
            Access::Field(name) => AccessView::Field(name@),
            Access::Index(i) => AccessView::Index(*i as nat),
            Access::Binding(name) => AccessView::Binding(name@),
        }
    }
}

impl View for Arm {
    type V = ArmView;

    open spec fn view(&self) -> ArmView {
        ArmView {
            variant: match self.variant {
                Some(name) => Some(name@),
                None => None,
            },
            named: self.named,
            bindings: texts(self.bindings@),
            parts: Seq::new(self.parts@.len(), |i: int| self.parts@[i]@),
        }
    }
}

/// The name that the pattern of a variant binds its field at position `i`
/// to, where the field has none: `i` and the position.
pub open spec fn positional_name(i: nat) -> Seq<char> {
    seq!['i'] + decimal(i)
}

/// The names that the pattern of a variant with these fields binds.
pub open spec fn bindings_of(fields: FieldsView) -> Seq<Seq<char>> {
    match fields {
        FieldsView::Named(names) => names,
        FieldsView::Unnamed(n) => Seq::new(n, |i: int| positional_name(i as nat)),
        FieldsView::Unit => Seq::empty(),
    }
}

/// The case of a struct with these fields: every field, reached through
/// `self`.
pub open spec fn struct_arm(fields: FieldsView) -> ArmView {
    ArmView {
        variant: None,
        named: fields is Named,
        bindings: Seq::empty(),
        parts: match fields {
            FieldsView::Named(names) => Seq::new(
                names.len(),
                |i: int| AccessView::Field(names[i]),
            ),
            FieldsView::Unnamed(n) => Seq::new(n, |i: int| AccessView::Index(i as nat)),
            FieldsView::Unit => Seq::empty(),
        },
    }
}

/// The case of a variant: every field, reached through the name that the
/// pattern binds it to.
pub open spec fn variant_arm(variant: VariantView) -> ArmView {
    let bindings = bindings_of(variant.fields);
    ArmView {
        variant: Some(variant.name),
        named: variant.fields is Named,
        bindings,
        parts: Seq::new(bindings.len(), |i: int| AccessView::Binding(bindings[i])),
    }
}

/// Whether there is no field: none is declared, or the list of those
/// declared is empty.
pub open spec fn fieldless(fields: FieldsView) -> bool {
    match fields {
        FieldsView::Named(names) => names.len() == 0,
        FieldsView::Unnamed(n) => n == 0,
        FieldsView::Unit => true,
    }
}

/// The position of the first variant without fields at or after `from`; the
/// number of variants where there is none.
pub open spec fn first_unit(variants: Seq<VariantView>, from: nat) -> nat
    decreases variants.len() - from,
{
    if from >= variants.len() {
        variants.len()
    } else if fieldless(variants[from as int].fields) {
        from
    } else {
        first_unit(variants, from + 1)
    }
}

/// The rule for a type of the shape `data`: one case for a struct, one for
/// each variant of an enum, each over all the fields in the order in which
/// they are declared. There is none for a type that has a case without
/// fields, nor for a union.
pub open spec fn rule(data: DataView) -> Result<Seq<ArmView>, ShapeError> {
    match data {
        DataView::Struct(fields) => if fieldless(fields) {
            Err(ShapeError::UnitStruct)
        } else {
            Ok(seq![struct_arm(fields)])
        },
        DataView::Enum(variants) => if first_unit(variants, 0) < variants.len() {
            Err(ShapeError::UnitVariant { index: first_unit(variants, 0) as usize })
        } else {
            Ok(Seq::new(variants.len(), |i: int| variant_arm(variants[i])))
        },
        DataView::Union => Err(ShapeError::Union),
    }
}

/// Every case of a rule has a part for each field of its struct or variant,
/// and at least one: a type with a case without fields has no rule.
pub proof fn rule_takes_every_field(data: DataView)
    ensures
        match rule(data) {
            Ok(arms) => {
                &&& forall|i: int| 0 <= i < arms.len() ==> (#[trigger] arms[i]).parts.len() > 0
                &&& match data {
                    DataView::Struct(fields) => {
                        &&& arms.len() == 1
                        &&& fields matches FieldsView::Named(names) ==> arms[0].parts.len()
                            == names.len()
                        &&& fields matches FieldsView::Unnamed(n) ==> arms[0].parts.len() == n
                    },
                    DataView::Enum(variants) => {
                        &&& arms.len() == variants.len()
                        &&& forall|i: int|
                            0 <= i < variants.len() ==> (#[trigger] arms[i]).parts.len()
                                == bindings_of(variants[i].fields).len()
                    },
                    DataView::Union => false,
                }
            },
            Err(_) => true,
        },
{
    match data {
        DataView::Enum(variants) => {
            lemma_first_unit(variants, 0);
            if first_unit(variants, 0) >= variants.len() {
                let arms = Seq::new(variants.len(), |i: int| variant_arm(variants[i]));
                assert forall|i: int| 0 <= i < arms.len() implies (#[trigger] arms[i]).parts.len()
                    > 0 && arms[i].parts.len() == bindings_of(variants[i].fields).len() by {
                    assert(!fieldless(variants[i].fields));
                }
            }
        },
        _ => {},
    }
}

/// What `first_unit` finds is the first variant without fields.
pub proof fn lemma_first_unit(variants: Seq<VariantView>, from: nat)
    ensures
        from <= first_unit(variants, from) || first_unit(variants, from) == variants.len(),
        first_unit(variants, from) <= variants.len(),
        first_unit(variants, from) < variants.len() ==> fieldless(
            variants[first_unit(variants, from) as int].fields,
        ),
        forall|k: int|
            from <= k < first_unit(variants, from) ==> !fieldless((#[trigger] variants[k]).fields),
    decreases variants.len() - from,
{
    if from < variants.len() && !fieldless(variants[from as int].fields) {
        lemma_first_unit(variants, from + 1);
    }
}

/// Whether `fields` holds no field.
fn is_fieldless(fields: &Fields) -> (b: bool)
    ensures
        b == fieldless(fields@),
{
    match fields {
        Fields::Named(names) => names.len() == 0,
        Fields::Unnamed(n) => *n == 0,
        Fields::Unit => true,
    }
}

/// The names that the pattern of a variant with the fields `fields` binds.
fn bindings(fields: &Fields) -> (names: Vec<String>)
    ensures
        texts(names@) == bindings_of(fields@),
{
    let mut names: Vec<String> = Vec::new();
    match fields {
        Fields::Named(given) => {
            let mut i: usize = 0;
            while i < given.len()
                invariant
                    i <= given@.len(),
                    names@.len() == i,
                    forall|k: int| 0 <= k < i ==> (#[trigger] names@[k])@ == given@[k]@,
                decreases given@.len() - i,
            {
                names.push(given[i].clone());
                i += 1;
            }
            proof {
                assert(texts(names@) =~= texts(given@));
            }
        },
        Fields::Unnamed(n) => {
            let mut i: usize = 0;
            while i < *n
                invariant
                    i <= *n,
                    names@.len() == i,
                    forall|k: int|
                        0 <= k < i ==> (#[trigger] names@[k])@ == positional_name(k as nat),
                decreases *n - i,
            {
                let mut name = String::new();
                name.push('i');
                push_decimal(&mut name, i as u64);
                proof {
                    assert(name@ =~= positional_name(i as nat));
                }
                names.push(name);
                i += 1;
            }
            proof {
                assert(texts(names@) =~= bindings_of(fields@));
            }
        },
        Fields::Unit => {
            proof {
                assert(texts(names@) =~= bindings_of(fields@));
            }
        },
    }
    names
}

/// The case of a struct with the fields `fields`.
fn arm_of_struct(fields: &Fields) -> (arm: Arm)
    ensures
        arm@ == struct_arm(fields@),
{
    let mut parts: Vec<Access> = Vec::new();
    let mut named = false;
    match fields {
        Fields::Named(given) => {
            named = true;
            let mut i: usize = 0;
            while i < given.len()
                invariant
                    i <= given@.len(),
                    parts@.len() == i,
                    forall|k: int|
                        0 <= k < i ==> (#[trigger] parts@[k])@ == AccessView::Field(given@[k]@),
                decreases given@.len() - i,
            {
                parts.push(Access::Field(given[i].clone()));
                i += 1;
            }
        },
        Fields::Unnamed(n) => {
            let mut i: usize = 0;
            while i < *n
                invariant
                    i <= *n,
                    parts@.len() == i,
                    forall|k: int|
                        0 <= k < i ==> (#[trigger] parts@[k])@ == AccessView::Index(k as nat),
                decreases *n - i,
            {
                parts.push(Access::Index(i));
                i += 1;
            }
        },
        Fields::Unit => {},
    }
    let arm = Arm { variant: None, named, bindings: Vec::new(), parts };
    proof {
        assert(arm@.bindings =~= struct_arm(fields@).bindings);
        assert(arm@.parts =~= struct_arm(fields@).parts);
    }
    arm
}

/// The case of the variant `variant`.
fn arm_of_variant(variant: &Variant) -> (arm: Arm)
    ensures
        arm@ == variant_arm(variant@),
{
    let names = bindings(&variant.fields);
    let mut parts: Vec<Access> = Vec::new();
    let mut i: usize = 0;
    while i < names.len()
        invariant
            i <= names@.len(),
            parts@.len() == i,
            forall|k: int|
                0 <= k < i ==> (#[trigger] parts@[k])@ == AccessView::Binding(names@[k]@),
        decreases names@.len() - i,
    {
        parts.push(Access::Binding(names[i].clone()));
        i += 1;
    }
    let named = match &variant.fields {
        Fields::Named(_) => true,
        _ => false,
    };
    let arm = Arm { variant: Some(variant.name.clone()), named, bindings: names, parts };
    proof {
        assert(arm@.parts =~= variant_arm(variant@).parts);
    }
    arm
}

/// The rule by which a type of the shape `data` gets its span: for each of
/// its cases, the fields whose spans are merged, in the order in which they
/// are declared.
pub fn span_rule(data: &Data) -> (r: Result<Vec<Arm>, ShapeError>)
    ensures
        match r {
            Ok(arms) => rule(data@) == Ok::<Seq<ArmView>, ShapeError>(
                Seq::new(arms@.len(), |i: int| arms@[i]@),
            ),
            Err(error) => rule(data@) == Err::<Seq<ArmView>, ShapeError>(error),
        },
{
    match data {
        Data::Struct(fields) => {
            if is_fieldless(fields) {
                Err(ShapeError::UnitStruct)
            } else {
                {
                    let mut arms: Vec<Arm> = Vec::new();
                    arms.push(arm_of_struct(fields));
                    proof {
                        assert(Seq::new(arms@.len(), |i: int| arms@[i]@) =~= seq![
                            struct_arm(fields@),
                        ]);
                    }
                    Ok(arms)
                }
            }
        },
        Data::Enum(variants) => {
            let mut arms: Vec<Arm> = Vec::new();
            let mut i: usize = 0;
            let ghost shapes = Seq::new(variants@.len(), |k: int| variants@[k]@);
            assert(data@ == DataView::Enum(shapes));
            while i < variants.len()
                invariant
                    i <= variants@.len(),
                    data@ == DataView::Enum(shapes),
                    arms@.len() == i,
                    shapes == Seq::new(variants@.len(), |k: int| variants@[k]@),
                    forall|k: int| 0 <= k < i ==> (#[trigger] arms@[k])@ == variant_arm(shapes[k]),
                    first_unit(shapes, 0) == first_unit(shapes, i as nat),
                decreases variants@.len() - i,
            {
                proof {
                    assert(shapes[i as int] == variants@[i as int]@);
                }
                if is_fieldless(&variants[i].fields) {
                    proof {
                        assert(fieldless(shapes[i as int].fields));
                        assert(first_unit(shapes, i as nat) == i);
                    }
                    return Err(ShapeError::UnitVariant { index: i });
                }
                proof {
                    assert(!fieldless(shapes[i as int].fields));
                }
                arms.push(arm_of_variant(&variants[i]));
                i += 1;
            }
            proof {
                assert(data@ == DataView::Enum(shapes));
                assert(first_unit(shapes, 0) == shapes.len());
                assert(Seq::new(arms@.len(), |k: int| arms@[k]@) =~= Seq::new(
                    shapes.len(),
                    |k: int| variant_arm(shapes[k]),
                ));
            }
            Ok(arms)
        },
        Data::Union => Err(ShapeError::Union),
    }
}

} // verus!
