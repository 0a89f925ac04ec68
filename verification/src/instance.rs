//! What the generated types hold: the values of their instances.
//!
//! Every generated record type has two constructors without arguments. One
//! gives each field the value of its initial-value expression; the other
//! gives each field the zero value of its type. A field that holds a nested
//! record is initialised by that record's all-zero constructor, so the
//! values of a nested object do not show in the instance of its owner.
//!
//! This module computes both instances from the definitions alone, the way
//! the definitions would be read as program text: a type is found by its
//! name, the first definition of that name counts, and a name without a
//! definition has no instance.

use crate::schema::{
    default_models, field_models, lemma_list_view, DefaultModel, DefaultValue, FieldModel,
    GeneratedModule, GeneratedStruct, ModuleModel, StructModel, TypeDescriptor, TypeModel,
};
use crate::value::key_index;
use vstd::prelude::*;
use vstd::string::*;

verus! {

/// The value of a field of an instance.
#[derive(Debug, PartialEq)]
pub enum Datum {
    Bool(bool),
    Integer(i64),
    Unsigned(u64),
    /// A floating-point number, held as its IEEE 754 bit pattern.
    Float(u64),
    Text(String),
    List(Vec<Datum>),
    Absent,
    Present(Box<Datum>),
    /// An instance of the record type called `name`: its fields with their
    /// values, in the order of the definition.
    Record { name: String, fields: Vec<(String, Datum)> },
}

/// The mathematical form of a [`Datum`].
pub enum DatumModel {
    Bool(bool),
    Integer(i64),
    Unsigned(u64),
    Float(u64),
    Text(Seq<char>),
    List(Seq<DatumModel>),
    Absent,
    Present(Box<DatumModel>),
    Record { name: Seq<char>, fields: Seq<(Seq<char>, DatumModel)> },
}

impl View for Datum {
    type V = DatumModel;

    open spec fn view(&self) -> DatumModel {
        datum_model(*self)
    }
}

/// The mathematical form of a datum.
pub open spec fn datum_model(datum: Datum) -> DatumModel
    decreases datum, 0nat,
{
    match datum {
        Datum::Bool(b) => DatumModel::Bool(b),
        Datum::Integer(i) => DatumModel::Integer(i),
        Datum::Unsigned(u) => DatumModel::Unsigned(u),
        Datum::Float(bits) => DatumModel::Float(bits),
        Datum::Text(s) => DatumModel::Text(s@),
        Datum::List(items) => DatumModel::List(datum_models_of(items, items@.len())),
        Datum::Absent => DatumModel::Absent,
        Datum::Present(inner) => DatumModel::Present(Box::new(datum_model(*inner))),
        Datum::Record { name, fields } => DatumModel::Record {
            name: name@,
            fields: field_data_of(fields, fields@.len()),
        },
    }
}

/// The mathematical forms of the first `n` elements of a list.
pub open spec fn datum_models_of(items: Vec<Datum>, n: nat) -> Seq<DatumModel>
    decreases items, n,
{
    if 0 < n <= items@.len() {
        datum_models_of(items, (n - 1) as nat).push(datum_model(items@[n - 1]))
    } else {
        Seq::empty()
    }
}

/// The mathematical forms of the first `n` fields of a record.
pub open spec fn field_data_of(fields: Vec<(String, Datum)>, n: nat) -> Seq<
    (Seq<char>, DatumModel),
>
    decreases fields, n,
{
    if 0 < n <= fields@.len() {
        field_data_of(fields, (n - 1) as nat).push(
            (fields@[n - 1].0@, datum_model(fields@[n - 1].1)),
        )
    } else {
        Seq::empty()
    }
}

/// The mathematical form of the elements of a list.
pub open spec fn datum_models(items: Seq<Datum>) -> Seq<DatumModel> {
    Seq::new(items.len(), |i: int| items[i]@)
}

/// The mathematical form of the fields of a record.
pub open spec fn field_data(fields: Seq<(String, Datum)>) -> Seq<(Seq<char>, DatumModel)> {
    Seq::new(fields.len(), |i: int| (fields[i].0@, fields[i].1@))
}

proof fn lemma_datum_models_of(items: Vec<Datum>, n: nat)
    requires
        n <= items@.len(),
    ensures
        datum_models_of(items, n) == datum_models(items@).take(n as int),
    decreases n,
{
    if n > 0 {
        lemma_datum_models_of(items, (n - 1) as nat);
    }
    assert(datum_models_of(items, n) =~= datum_models(items@).take(n as int));
}

proof fn lemma_field_data_of(fields: Vec<(String, Datum)>, n: nat)
    requires
        n <= fields@.len(),
    ensures
        field_data_of(fields, n) == field_data(fields@).take(n as int),
    decreases n,
{
    if n > 0 {
        lemma_field_data_of(fields, (n - 1) as nat);
    }
    assert(field_data_of(fields, n) =~= field_data(fields@).take(n as int));
}

/// A list is, mathematically, the sequence of its elements' forms.
pub proof fn lemma_datum_list_view(items: Vec<Datum>)
    ensures
        Datum::List(items)@ == DatumModel::List(datum_models(items@)),
{
    lemma_datum_models_of(items, items@.len());
    assert(datum_models(items@).take(items@.len() as int) =~= datum_models(items@));
}

/// A record is, mathematically, its name and the sequence of its fields'
/// forms.
pub proof fn lemma_record_view(name: String, fields: Vec<(String, Datum)>)
    ensures
        (Datum::Record { name, fields })@ == (DatumModel::Record {
            name: name@,
            fields: field_data(fields@),
        }),
{
    lemma_field_data_of(fields, fields@.len());
    assert(field_data(fields@).take(fields@.len() as int) =~= field_data(fields@));
}

/// The position of the first definition called `name`, or the number of
/// definitions if there is none.
pub open spec fn struct_index(structs: Seq<StructModel>, name: Seq<char>) -> nat
    decreases structs.len(),
{
    if structs.len() == 0 || structs[0].name == name {
        0
    } else {
        1 + struct_index(structs.drop_first(), name)
    }
}

/// The definition that the name `name` refers to, if there is one.
pub open spec fn lookup(structs: Seq<StructModel>, name: Seq<char>) -> Option<StructModel> {
    let i = struct_index(structs, name);
    if i < structs.len() {
        Some(structs[i as int])
    } else {
        None
    }
}

/// The value of the expression `expr`, read against the definitions
/// `structs`. A constructor call gives the all-zero instance of the named
/// type. `fuel` bounds how deep record types may nest; when it runs out, or
/// a name has no definition, there is no value.
pub open spec fn eval(structs: Seq<StructModel>, expr: DefaultModel, fuel: nat) -> Option<
    DatumModel,
>
    decreases expr, 0nat,
{
    match expr {
        DefaultModel::Absent => Some(DatumModel::Absent),
        DefaultModel::Present(inner) => match eval(structs, *inner, fuel) {
            Some(datum) => Some(DatumModel::Present(Box::new(datum))),
            None => None,
        },
        DefaultModel::Bool(b) => Some(DatumModel::Bool(b)),
        DefaultModel::Integer(i) => Some(DatumModel::Integer(i)),
        DefaultModel::Unsigned(u) => Some(DatumModel::Unsigned(u)),
        DefaultModel::Float(bits) => Some(DatumModel::Float(bits)),
        DefaultModel::Text(s) => Some(DatumModel::Text(s)),
        DefaultModel::List(items) => match eval_list(structs, items, fuel, items.len()) {
            Some(data) => Some(DatumModel::List(data)),
            None => None,
        },
        DefaultModel::Construct(name) => if fuel == 0 {
            None
        } else {
            zero_record(structs, name, (fuel - 1) as nat)
        },
    }
}

/// The values of the first `n` of the expressions `items`, if all have one.
pub open spec fn eval_list(
    structs: Seq<StructModel>,
    items: Seq<DefaultModel>,
    fuel: nat,
    n: nat,
) -> Option<Seq<DatumModel>>
    decreases items, n,
{
    if 0 < n <= items.len() {
        match eval_list(structs, items, fuel, (n - 1) as nat) {
            Some(data) => match eval(structs, items[n - 1], fuel) {
                Some(datum) => Some(data.push(datum)),
                None => None,
            },
            None => None,
        }
    } else {
        Some(Seq::empty())
    }
}

/// The first `n` of the fields `fields` with the values of their
/// expressions, if all have one.
pub open spec fn populate_fields(
    structs: Seq<StructModel>,
    fields: Seq<FieldModel>,
    fuel: nat,
    n: nat,
) -> Option<Seq<(Seq<char>, DatumModel)>>
    decreases n,
{
    if 0 < n <= fields.len() {
        match populate_fields(structs, fields, fuel, (n - 1) as nat) {
            Some(data) => match eval(structs, fields[n - 1].default, fuel) {
                Some(datum) => Some(data.push((fields[n - 1].name, datum))),
                None => None,
            },
            None => None,
        }
    } else {
        Some(Seq::empty())
    }
}

/// The instance of `definition` that its value-populating constructor
/// builds: every field holds the value of its expression.
pub open spec fn populated_instance(
    structs: Seq<StructModel>,
    definition: StructModel,
    fuel: nat,
) -> Option<DatumModel> {
    match populate_fields(structs, definition.fields, fuel, definition.fields.len()) {
        Some(fields) => Some(DatumModel::Record { name: definition.name, fields }),
        None => None,
    }
}

/// The zero value of the type `ty`, read against the definitions `structs`:
/// `false`, zero, the empty text, the empty list, the absent value, and for
/// a record type the instance whose fields hold their zero values.
pub open spec fn zero(structs: Seq<StructModel>, ty: TypeModel, fuel: nat) -> Option<DatumModel>
    decreases fuel, 0nat,
{
    match ty {
        TypeModel::Bool => Some(DatumModel::Bool(false)),
        TypeModel::Integer64 => Some(DatumModel::Integer(0)),
        TypeModel::UnsignedInteger64 => Some(DatumModel::Unsigned(0)),
        TypeModel::Float64 => Some(DatumModel::Float(0)),
        TypeModel::Text => Some(DatumModel::Text(Seq::empty())),
        TypeModel::Any => Some(DatumModel::Absent),
        TypeModel::List(_) => Some(DatumModel::List(Seq::empty())),
        TypeModel::Optional(_) => Some(DatumModel::Absent),
        TypeModel::NamedStruct(name) => if fuel == 0 {
            None
        } else {
            zero_record(structs, name, (fuel - 1) as nat)
        },
    }
}

/// The instance of `definition` that its all-defaults constructor builds:
/// every field holds the zero value of its type.
pub open spec fn zero_instance(
    structs: Seq<StructModel>,
    definition: StructModel,
    fuel: nat,
) -> Option<DatumModel>
    decreases fuel, 2nat,
{
    match zero_fields(structs, definition.fields, fuel, definition.fields.len()) {
        Some(fields) => Some(DatumModel::Record { name: definition.name, fields }),
        None => None,
    }
}

/// The all-zero instance of the type that `name` refers to.
pub open spec fn zero_record(structs: Seq<StructModel>, name: Seq<char>, fuel: nat) -> Option<
    DatumModel,
>
    decreases fuel, 3nat,
{
    match lookup(structs, name) {
        Some(definition) => zero_instance(structs, definition, fuel),
        None => None,
    }
}

/// The first `n` of the fields `fields` with the zero values of their
/// types, if all have one.
pub open spec fn zero_fields(
    structs: Seq<StructModel>,
    fields: Seq<FieldModel>,
    fuel: nat,
    n: nat,
) -> Option<Seq<(Seq<char>, DatumModel)>>
    decreases fuel, 1nat, fields, n,
{
    if 0 < n <= fields.len() {
        match zero_fields(structs, fields, fuel, (n - 1) as nat) {
            Some(data) => match zero(structs, fields[n - 1].ty, fuel) {
                Some(datum) => Some(data.push((fields[n - 1].name, datum))),
                None => None,
            },
            None => None,
        }
    } else {
        Some(Seq::empty())
    }
}

/// Whether the bits are those of a NaN.
pub open spec fn float_is_nan(bits: u64) -> bool {
    bits & 0x7ff0_0000_0000_0000 == 0x7ff0_0000_0000_0000 && bits & 0x000f_ffff_ffff_ffff != 0
}

/// Whether the bits are those of a zero, positive or negative.
pub open spec fn float_is_zero(bits: u64) -> bool {
    bits & 0x7fff_ffff_ffff_ffff == 0
}

/// Equality of two floating-point numbers given by their bits, as IEEE 754
/// has it: a NaN equals nothing, the two zeros equal each other, and any
/// other number equals only itself.
pub open spec fn float_eq(a: u64, b: u64) -> bool {
    !float_is_nan(a) && !float_is_nan(b) && (a == b || (float_is_zero(a) && float_is_zero(b)))
}

/// Compares two floating-point numbers given by their bits.
pub fn floats_equal(a: u64, b: u64) -> (r: bool)
    ensures
        r == float_eq(a, b),
{
    let a_nan = a & 0x7ff0_0000_0000_0000 == 0x7ff0_0000_0000_0000 && a & 0x000f_ffff_ffff_ffff
        != 0;
    let b_nan = b & 0x7ff0_0000_0000_0000 == 0x7ff0_0000_0000_0000 && b & 0x000f_ffff_ffff_ffff
        != 0;
    let zeros = a & 0x7fff_ffff_ffff_ffff == 0 && b & 0x7fff_ffff_ffff_ffff == 0;
    !a_nan && !b_nan && (a == b || zeros)
}

/// Equality of two values as the generated types compare them: field by
/// field and element by element, floating-point numbers by `float_eq`.
pub open spec fn same(a: DatumModel, b: DatumModel) -> bool
    decreases a,
{
    match a {
        DatumModel::Bool(x) => b == a,
        DatumModel::Integer(x) => b == a,
        DatumModel::Unsigned(x) => b == a,
        DatumModel::Float(x) => b matches DatumModel::Float(y) && float_eq(x, y),
        DatumModel::Text(x) => b == a,
        DatumModel::List(xs) => b matches DatumModel::List(ys) && xs.len() == ys.len()
            && forall|i: int| #![trigger xs[i]] 0 <= i < xs.len() ==> same(xs[i], ys[i]),
        DatumModel::Absent => b == a,
        DatumModel::Present(x) => b matches DatumModel::Present(y) && same(*x, *y),
        DatumModel::Record { name, fields } => b matches DatumModel::Record {
            name: other_name,
            fields: other_fields,
        } && name == other_name && fields.len() == other_fields.len() && forall|i: int|
            #![trigger fields[i]]
            0 <= i < fields.len() ==> fields[i].0 == other_fields[i].0 && same(
                fields[i].1,
                other_fields[i].1,
            ),
    }
}

impl DatumModel {
    /// The value of the field called `name`, if this is a record that has
    /// one.
    pub open spec fn field(self, name: Seq<char>) -> Option<DatumModel> {
        match self {
            DatumModel::Record { fields, .. } => {
                let i = key_index(fields, name);
                if i < fields.len() {
                    Some(fields[i as int].1)
                } else {
                    None
                }
            },
            _ => None,
        }
    }
}

impl ModuleModel {
    /// How deep record types may nest when an instance of the module is
    /// built: as deep as there are definitions.
    pub open spec fn depth(self) -> nat {
        self.structs().len()
    }

    /// The instance of the document's type that its value-populating
    /// constructor builds.
    pub open spec fn populated(self) -> Option<DatumModel> {
        populated_instance(self.structs(), self.root, self.depth())
    }

    /// The instance of the document's type that its all-defaults
    /// constructor builds.
    pub open spec fn zeroed(self) -> Option<DatumModel> {
        zero_instance(self.structs(), self.root, self.depth())
    }

    /// Whether `instance` equals the all-zero instance of the document's
    /// type.
    pub open spec fn is_empty(self, instance: DatumModel) -> bool {
        match self.zeroed() {
            Some(nothing) => same(instance, nothing),
            None => false,
        }
    }
}

/// The mathematical form of an instance that may be missing.
pub open spec fn datum_option(r: Option<Datum>) -> Option<DatumModel> {
    match r {
        Some(datum) => Some(datum@),
        None => None,
    }
}

proof fn lemma_eval_list_fails(
    structs: Seq<StructModel>,
    items: Seq<DefaultModel>,
    fuel: nat,
    k: nat,
    n: nat,
)
    requires
        k <= n <= items.len(),
        eval_list(structs, items, fuel, k) is None,
    ensures
        eval_list(structs, items, fuel, n) is None,
    decreases n,
{
    if k < n {
        lemma_eval_list_fails(structs, items, fuel, k, (n - 1) as nat);
    }
}

proof fn lemma_populate_fields_fails(
    structs: Seq<StructModel>,
    fields: Seq<FieldModel>,
    fuel: nat,
    k: nat,
    n: nat,
)
    requires
        k <= n <= fields.len(),
        populate_fields(structs, fields, fuel, k) is None,
    ensures
        populate_fields(structs, fields, fuel, n) is None,
    decreases n,
{
    if k < n {
        lemma_populate_fields_fails(structs, fields, fuel, k, (n - 1) as nat);
    }
}

proof fn lemma_zero_fields_fails(
    structs: Seq<StructModel>,
    fields: Seq<FieldModel>,
    fuel: nat,
    k: nat,
    n: nat,
)
    requires
        k <= n <= fields.len(),
        zero_fields(structs, fields, fuel, k) is None,
    ensures
        zero_fields(structs, fields, fuel, n) is None,
    decreases n,
{
    if k < n {
        lemma_zero_fields_fails(structs, fields, fuel, k, (n - 1) as nat);
    }
}

impl GeneratedModule {
    /// Finds the definition that `name` refers to: the first one of that
    /// name, the document's own type coming last.
    #[verifier::loop_isolation(false)]
    pub fn find(&self, name: &str) -> (r: Option<&GeneratedStruct>)
        ensures
            match lookup(self@.structs(), name@) {
                Some(definition) => r matches Some(found) && found@ == definition,
                None => r is None,
            },
    {
        let wanted = String::from_str(name);
        let ghost all = self@.structs();
        let mut i: usize = 0;
        assert(all.skip(0) == all);
        while i < self.nested.len()
            invariant
                i <= self.nested.len(),
                struct_index(all, name@) == i + struct_index(all.skip(i as int), name@),
            decreases self.nested.len() - i,
        {
            assert(all.skip(i as int)[0] == all[i as int]);
            assert(all[i as int] == self.nested@[i as int]@);
            if self.nested[i].name == wanted {
                return Some(&self.nested[i]);
            }
            assert(all.skip(i as int).drop_first() == all.skip(i + 1));
            i += 1;
        }
        assert(all.skip(i as int)[0] == all[i as int]);
        assert(all[i as int] == self.root@);
        if self.root.name == wanted {
            Some(&self.root)
        } else {
            assert(all.skip(i as int).drop_first() == all.skip(i + 1));
            None
        }
    }

    /// The value of `expr`, read against the definitions of this module.
    #[verifier::loop_isolation(false)]
    fn evaluate(&self, expr: &DefaultValue, fuel: u128) -> (r: Option<Datum>)
        ensures
            datum_option(r) == eval(self@.structs(), expr@, fuel as nat),
        decreases expr,
    {
        match expr {
            DefaultValue::Absent => Some(Datum::Absent),
            DefaultValue::Present(inner) => match self.evaluate(inner, fuel) {
                Some(datum) => Some(Datum::Present(Box::new(datum))),
                None => None,
            },
            DefaultValue::Bool(b) => Some(Datum::Bool(*b)),
            DefaultValue::Integer(i) => Some(Datum::Integer(*i)),
            DefaultValue::Unsigned(u) => Some(Datum::Unsigned(*u)),
            DefaultValue::Float(bits) => Some(Datum::Float(*bits)),
            DefaultValue::Text(s) => Some(Datum::Text(s.clone())),
            DefaultValue::List(items) => {
                proof {
                    lemma_list_view(*items);
                }
                let ghost models = default_models(items@);
                let mut out: Vec<Datum> = Vec::new();
                let mut i: usize = 0;
                while i < items.len()
                    invariant
                        i <= items.len(),
                        eval_list(self@.structs(), models, fuel as nat, i as nat) == Some(
                            datum_models(out@),
                        ),
                    decreases items.len() - i,
                {
                    assert(models[i as int] == items@[i as int]@);
                    match self.evaluate(&items[i], fuel) {
                        Some(datum) => {
                            let ghost before = datum_models(out@);
                            out.push(datum);
                            assert(datum_models(out@) =~= before.push(datum@));
                        },
                        None => {
                            proof {
                                lemma_eval_list_fails(
                                    self@.structs(),
                                    models,
                                    fuel as nat,
                                    (i + 1) as nat,
                                    models.len(),
                                );
                            }
                            return None;
                        },
                    }
                    i += 1;
                }
                proof {
                    lemma_datum_list_view(out);
                }
                Some(Datum::List(out))
            },
            DefaultValue::Construct(name) => {
                if fuel == 0 {
                    None
                } else {
                    self.zero_record(name.as_str(), fuel - 1)
                }
            },
        }
    }

    /// The instance of `definition` that holds the values of the fields'
    /// expressions.
    #[verifier::loop_isolation(false)]
    fn populated_instance(&self, definition: &GeneratedStruct, fuel: u128) -> (r: Option<Datum>)
        ensures
            datum_option(r) == populated_instance(self@.structs(), definition@, fuel as nat),
    {
        let ghost models = field_models(definition.fields@);
        let mut out: Vec<(String, Datum)> = Vec::new();
        let mut i: usize = 0;
        while i < definition.fields.len()
            invariant
                i <= definition.fields.len(),
                populate_fields(self@.structs(), models, fuel as nat, i as nat) == Some(
                    field_data(out@),
                ),
            decreases definition.fields.len() - i,
        {
            let field = &definition.fields[i];
            assert(models[i as int] == field@);
            match self.evaluate(&field.default, fuel) {
                Some(datum) => {
                    let ghost before = field_data(out@);
                    out.push((field.name.clone(), datum));
                    assert(field_data(out@) =~= before.push((field.name@, datum@)));
                },
                None => {
                    proof {
                        lemma_populate_fields_fails(
                            self@.structs(),
                            models,
                            fuel as nat,
                            (i + 1) as nat,
                            models.len(),
                        );
                    }
                    return None;
                },
            }
            i += 1;
        }
        let name = definition.name.clone();
        proof {
            lemma_record_view(name, out);
        }
        Some(Datum::Record { name, fields: out })
    }

    /// The zero value of the type `ty`, read against the definitions of this
    /// module.
    fn zero(&self, ty: &TypeDescriptor, fuel: u128) -> (r: Option<Datum>)
        ensures
            datum_option(r) == zero(self@.structs(), ty@, fuel as nat),
        decreases fuel, 0nat,
    {
        match ty {
            TypeDescriptor::Bool => Some(Datum::Bool(false)),
            TypeDescriptor::Integer64 => Some(Datum::Integer(0)),
            TypeDescriptor::UnsignedInteger64 => Some(Datum::Unsigned(0)),
            TypeDescriptor::Float64 => Some(Datum::Float(0)),
            TypeDescriptor::Text => Some(Datum::Text(String::new())),
            TypeDescriptor::Any => Some(Datum::Absent),
            TypeDescriptor::List(_) => {
                let items: Vec<Datum> = Vec::new();
                proof {
                    lemma_datum_list_view(items);
                    assert(datum_models(items@) =~= Seq::empty());
                }
                Some(Datum::List(items))
            },
            TypeDescriptor::Optional(_) => Some(Datum::Absent),
            TypeDescriptor::NamedStruct(name) => {
                if fuel == 0 {
                    None
                } else {
                    self.zero_record(name.as_str(), fuel - 1)
                }
            },
        }
    }

    /// The instance of `definition` that holds the zero values of the
    /// fields' types.
    #[verifier::loop_isolation(false)]
    fn zero_instance(&self, definition: &GeneratedStruct, fuel: u128) -> (r: Option<Datum>)
        ensures
            datum_option(r) == zero_instance(self@.structs(), definition@, fuel as nat),
        decreases fuel, 2nat,
    {
        let ghost models = field_models(definition.fields@);
        let mut out: Vec<(String, Datum)> = Vec::new();
        let mut i: usize = 0;
        while i < definition.fields.len()
            invariant
                i <= definition.fields.len(),
                zero_fields(self@.structs(), models, fuel as nat, i as nat) == Some(
                    field_data(out@),
                ),
            decreases definition.fields.len() - i,
        {
            let field = &definition.fields[i];
            assert(models[i as int] == field@);
            match self.zero(&field.ty, fuel) {
                Some(datum) => {
                    let ghost before = field_data(out@);
                    out.push((field.name.clone(), datum));
                    assert(field_data(out@) =~= before.push((field.name@, datum@)));
                },
                None => {
                    proof {
                        lemma_zero_fields_fails(
                            self@.structs(),
                            models,
                            fuel as nat,
                            (i + 1) as nat,
                            models.len(),
                        );
                    }
                    return None;
                },
            }
            i += 1;
        }
        let name = definition.name.clone();
        proof {
            lemma_record_view(name, out);
        }
        Some(Datum::Record { name, fields: out })
    }

    /// The all-zero instance of the type that `name` refers to.
    fn zero_record(&self, name: &str, fuel: u128) -> (r: Option<Datum>)
        ensures
            datum_option(r) == zero_record(self@.structs(), name@, fuel as nat),
        decreases fuel, 3nat,
    {
        match self.find(name) {
            Some(definition) => self.zero_instance(definition, fuel),
            None => None,
        }
    }

    /// How deep record types may nest: as deep as there are definitions.
    fn depth(&self) -> (r: u128)
        ensures
            r == self@.depth(),
    {
        let n: usize = self.nested.len();
        n as u128 + 1
    }

    /// Builds the instance of the document's type that its value-populating
    /// constructor returns: every field holds the value of its expression.
    /// There is none if a field refers to a type without a definition, or if
    /// the definitions refer to each other in a circle.
    pub fn populated(&self) -> (r: Option<Datum>)
        ensures
            datum_option(r) == self@.populated(),
    {
        self.populated_instance(&self.root, self.depth())
    }

    /// Builds the instance of the document's type that holds zero values
    /// only: what the all-defaults constructor returns. There is none if a
    /// field refers to a type without a definition, or if the definitions
    /// refer to each other in a circle.
    pub fn zeroed(&self) -> (r: Option<Datum>)
        ensures
            datum_option(r) == self@.zeroed(),
    {
        self.zero_instance(&self.root, self.depth())
    }

    /// Whether `instance` equals the all-zero instance of the document's
    /// type.
    pub fn is_empty(&self, instance: &Datum) -> (r: bool)
        ensures
            r == self@.is_empty(instance@),
    {
        match self.zeroed() {
            Some(nothing) => instance.same(&nothing),
            None => false,
        }
    }
}

impl Clone for Datum {
    #[verifier::loop_isolation(false)]
    fn clone(&self) -> (r: Self)
        ensures
            r@ == self@,
        decreases self,
    {
        match self {
            Datum::Bool(b) => Datum::Bool(*b),
            Datum::Integer(i) => Datum::Integer(*i),
            Datum::Unsigned(u) => Datum::Unsigned(*u),
            Datum::Float(bits) => Datum::Float(*bits),
            Datum::Text(s) => Datum::Text(s.clone()),
            Datum::Absent => Datum::Absent,
            Datum::Present(inner) => Datum::Present(Box::new((**inner).clone())),
            Datum::List(items) => {
                let mut out: Vec<Datum> = Vec::new();
                let mut i: usize = 0;
                while i < items.len()
                    invariant
                        i <= items.len(),
                        out@.len() == i,
                        forall|j: int| #![trigger out@[j]] 0 <= j < i ==> out@[j]@ == items@[j]@,
                    decreases items.len() - i,
                {
                    let item = items[i].clone();
                    out.push(item);
                    i += 1;
                }
                proof {
                    lemma_datum_list_view(out);
                    lemma_datum_list_view(*items);
                    assert(datum_models(out@) =~= datum_models(items@));
                }
                Datum::List(out)
            },
            Datum::Record { name, fields } => {
                let mut out: Vec<(String, Datum)> = Vec::new();
                let mut i: usize = 0;
                while i < fields.len()
                    invariant
                        i <= fields.len(),
                        out@.len() == i,
                        forall|j: int|
                            #![trigger out@[j]]
                            0 <= j < i ==> out@[j].0@ == fields@[j].0@ && out@[j].1@
                                == fields@[j].1@,
                    decreases fields.len() - i,
                {
                    let value = fields[i].1.clone();
                    out.push((fields[i].0.clone(), value));
                    i += 1;
                }
                let name = name.clone();
                proof {
                    lemma_record_view(name, out);
                    lemma_record_view(name, *fields);
                    assert(field_data(out@) =~= field_data(fields@));
                }
                Datum::Record { name, fields: out }
            },
        }
    }
}

impl Datum {
    /// Compares two values as the generated types compare them.
    #[verifier::loop_isolation(false)]
    pub fn same(&self, other: &Datum) -> (r: bool)
        ensures
            r == same(self@, other@),
        decreases self,
    {
        match self {
            Datum::Bool(x) => match other {
                Datum::Bool(y) => *x == *y,
                _ => false,
            },
            Datum::Integer(x) => match other {
                Datum::Integer(y) => *x == *y,
                _ => false,
            },
            Datum::Unsigned(x) => match other {
                Datum::Unsigned(y) => *x == *y,
                _ => false,
            },
            Datum::Float(x) => match other {
                Datum::Float(y) => floats_equal(*x, *y),
                _ => false,
            },
            Datum::Text(x) => match other {
                Datum::Text(y) => *x == *y,
                _ => false,
            },
            Datum::Absent => match other {
                Datum::Absent => true,
                _ => false,
            },
            Datum::Present(x) => match other {
                Datum::Present(y) => x.same(y),
                _ => false,
            },
            Datum::List(xs) => match other {
                Datum::List(ys) => {
                    proof {
                        lemma_datum_list_view(*xs);
                        lemma_datum_list_view(*ys);
                    }
                    if xs.len() != ys.len() {
                        return false;
                    }
                    let mut i: usize = 0;
                    while i < xs.len()
                        invariant
                            i <= xs.len(),
                            forall|j: int|
                                #![trigger datum_models(xs@)[j]]
                                0 <= j < i ==> same(datum_models(xs@)[j], datum_models(ys@)[j]),
                        decreases xs.len() - i,
                    {
                        assert(datum_models(xs@)[i as int] == xs@[i as int]@);
                        assert(datum_models(ys@)[i as int] == ys@[i as int]@);
                        if !xs[i].same(&ys[i]) {
                            return false;
                        }
                        i += 1;
                    }
                    true
                },
                _ => false,
            },
            Datum::Record { name, fields } => match other {
                Datum::Record { name: other_name, fields: other_fields } => {
                    proof {
                        lemma_record_view(*name, *fields);
                        lemma_record_view(*other_name, *other_fields);
                    }
                    if *name != *other_name || fields.len() != other_fields.len() {
                        return false;
                    }
                    let mut i: usize = 0;
                    while i < fields.len()
                        invariant
                            i <= fields.len(),
                            forall|j: int|
                                #![trigger field_data(fields@)[j]]
                                0 <= j < i ==> field_data(fields@)[j].0 == field_data(
                                    other_fields@,
                                )[j].0 && same(
                                    field_data(fields@)[j].1,
                                    field_data(other_fields@)[j].1,
                                ),
                        decreases fields.len() - i,
                    {
                        assert(field_data(fields@)[i as int] == (
                            fields@[i as int].0@,
                            fields@[i as int].1@,
                        ));
                        assert(field_data(other_fields@)[i as int] == (
                            other_fields@[i as int].0@,
                            other_fields@[i as int].1@,
                        ));
                        if fields[i].0 != other_fields[i].0 || !fields[i].1.same(
                            &other_fields[i].1,
                        ) {
                            return false;
                        }
                        i += 1;
                    }
                    true
                },
                _ => false,
            },
        }
    }

    /// The value of the field called `name`, if this is a record that has
    /// one.
    #[verifier::loop_isolation(false)]
    pub fn field(&self, name: &str) -> (r: Option<&Datum>)
        ensures
            match self@.field(name@) {
                Some(datum) => r matches Some(found) && found@ == datum,
                None => r is None,
            },
    {
        match self {
            Datum::Record { name: own, fields } => {
                proof {
                    lemma_record_view(*own, *fields);
                }
                let wanted = String::from_str(name);
                let ghost all = field_data(fields@);
                let mut i: usize = 0;
                assert(all.skip(0) == all);
                while i < fields.len()
                    invariant
                        i <= fields.len(),
                        key_index(all, name@) == i + key_index(all.skip(i as int), name@),
                    decreases fields.len() - i,
                {
                    assert(all.skip(i as int)[0] == all[i as int]);
                    if fields[i].0 == wanted {
                        return Some(&fields[i].1);
                    }
                    assert(all.skip(i as int).drop_first() == all.skip(i + 1));
                    i += 1;
                }
                None
            },
            _ => None,
        }
    }
}

} // verus!
