//! What the generator produces: descriptions of record types.
//!
//! Every executable type here has a mathematical form, reached with `@`, in
//! which strings are sequences of characters and vectors are sequences. The
//! contracts of the generator are stated over those forms.

use vstd::prelude::*;

verus! {

/// The type of a generated field.
#[derive(Debug, PartialEq, Eq)]
pub enum TypeDescriptor {
    Bool,
    Integer64,
    UnsignedInteger64,
    Float64,
    Text,
    /// The element type of a list of which no element was seen.
    Any,
    List(Box<TypeDescriptor>),
    Optional(Box<TypeDescriptor>),
    /// A reference to a generated record type, by its name.
    NamedStruct(String),
}

/// The mathematical form of a [`TypeDescriptor`].
pub enum TypeModel {
    Bool,
    Integer64,
    UnsignedInteger64,
    Float64,
    Text,
    Any,
    List(Box<TypeModel>),
    Optional(Box<TypeModel>),
    NamedStruct(Seq<char>),
}

impl View for TypeDescriptor {
    type V = TypeModel;

    open spec fn view(&self) -> TypeModel {
        type_model(*self)
    }
}

/// The mathematical form of a type descriptor.
pub open spec fn type_model(ty: TypeDescriptor) -> TypeModel
    decreases ty,
{
    match ty {
        TypeDescriptor::Bool => TypeModel::Bool,
        TypeDescriptor::Integer64 => TypeModel::Integer64,
        TypeDescriptor::UnsignedInteger64 => TypeModel::UnsignedInteger64,
        TypeDescriptor::Float64 => TypeModel::Float64,
        TypeDescriptor::Text => TypeModel::Text,
        TypeDescriptor::Any => TypeModel::Any,
        TypeDescriptor::List(inner) => TypeModel::List(Box::new(type_model(*inner))),
        TypeDescriptor::Optional(inner) => TypeModel::Optional(Box::new(type_model(*inner))),
        TypeDescriptor::NamedStruct(name) => TypeModel::NamedStruct(name@),
    }
}

impl TypeDescriptor {
    /// Whether two descriptors describe the same type.
    pub fn same(&self, other: &TypeDescriptor) -> (r: bool)
        ensures
            r == (self@ == other@),
        decreases self,
    {
        match self {
            TypeDescriptor::Bool => match other {
                TypeDescriptor::Bool => true,
                _ => false,
            },
            TypeDescriptor::Integer64 => match other {
                TypeDescriptor::Integer64 => true,
                _ => false,
            },
            TypeDescriptor::UnsignedInteger64 => match other {
                TypeDescriptor::UnsignedInteger64 => true,
                _ => false,
            },
            TypeDescriptor::Float64 => match other {
                TypeDescriptor::Float64 => true,
                _ => false,
            },
            TypeDescriptor::Text => match other {
                TypeDescriptor::Text => true,
                _ => false,
            },
            TypeDescriptor::Any => match other {
                TypeDescriptor::Any => true,
                _ => false,
            },
            TypeDescriptor::List(a) => match other {
                TypeDescriptor::List(b) => a.same(b),
                _ => false,
            },
            TypeDescriptor::Optional(a) => match other {
                TypeDescriptor::Optional(b) => a.same(b),
                _ => false,
            },
            TypeDescriptor::NamedStruct(a) => match other {
                TypeDescriptor::NamedStruct(b) => *a == *b,
                _ => false,
            },
        }
    }
}

/// The expression that gives a generated field its initial value.
#[derive(Debug, PartialEq)]
pub enum DefaultValue {
    /// An optional field without a value.
    Absent,
    /// An optional field that holds the value of the inner expression.
    Present(Box<DefaultValue>),
    Bool(bool),
    Integer(i64),
    Unsigned(u64),
    /// A floating-point literal, held as its IEEE 754 bit pattern.
    Float(u64),
    Text(String),
    List(Vec<DefaultValue>),
    /// A call of the all-defaults constructor of the named record type.
    Construct(String),
}

/// The mathematical form of a [`DefaultValue`].
pub enum DefaultModel {
    Absent,
    Present(Box<DefaultModel>),
    Bool(bool),
    Integer(i64),
    Unsigned(u64),
    Float(u64),
    Text(Seq<char>),
    List(Seq<DefaultModel>),
    Construct(Seq<char>),
}

impl View for DefaultValue {
    type V = DefaultModel;

    open spec fn view(&self) -> DefaultModel {
        default_model(*self)
    }
}

/// The mathematical form of an initial-value expression.
pub open spec fn default_model(value: DefaultValue) -> DefaultModel
    decreases value, 0nat,
{
    match value {
        DefaultValue::Absent => DefaultModel::Absent,
        DefaultValue::Present(inner) => DefaultModel::Present(Box::new(default_model(*inner))),
        DefaultValue::Bool(b) => DefaultModel::Bool(b),
        DefaultValue::Integer(i) => DefaultModel::Integer(i),
        DefaultValue::Unsigned(u) => DefaultModel::Unsigned(u),
        DefaultValue::Float(bits) => DefaultModel::Float(bits),
        DefaultValue::Text(s) => DefaultModel::Text(s@),
        DefaultValue::List(items) => DefaultModel::List(default_models_of(items, items@.len())),
        DefaultValue::Construct(name) => DefaultModel::Construct(name@),
    }
}

/// The mathematical forms of the first `n` elements of a list expression.
pub open spec fn default_models_of(items: Vec<DefaultValue>, n: nat) -> Seq<DefaultModel>
    decreases items, n,
{
    if 0 < n <= items@.len() {
        default_models_of(items, (n - 1) as nat).push(default_model(items@[n - 1]))
    } else {
        Seq::empty()
    }
}

/// The mathematical form of the elements of a list expression.
pub open spec fn default_models(items: Seq<DefaultValue>) -> Seq<DefaultModel> {
    Seq::new(items.len(), |i: int| items[i]@)
}

proof fn lemma_default_models_of(items: Vec<DefaultValue>, n: nat)
    requires
        n <= items@.len(),
    ensures
        default_models_of(items, n) == default_models(items@).take(n as int),
    decreases n,
{
    if n > 0 {
        lemma_default_models_of(items, (n - 1) as nat);
    }
    assert(default_models_of(items, n) =~= default_models(items@).take(n as int));
}

/// A list expression is, mathematically, the sequence of its elements' forms.
pub proof fn lemma_list_view(items: Vec<DefaultValue>)
    ensures
        DefaultValue::List(items)@ == DefaultModel::List(default_models(items@)),
{
    lemma_default_models_of(items, items@.len());
    assert(default_models(items@).take(items@.len() as int) =~= default_models(items@));
}

/// Who may see a generated type and its fields.
#[derive(Debug, PartialEq, Eq)]
pub enum Visibility {
    /// Visible where it is declared, and no further.
    Inherited,
    Public,
    /// Visible within the given path, such as `crate` or `super`.
    Restricted(String),
}

/// The mathematical form of a [`Visibility`].
pub enum VisibilityModel {
    Inherited,
    Public,
    Restricted(Seq<char>),
}

impl View for Visibility {
    type V = VisibilityModel;

    open spec fn view(&self) -> VisibilityModel {
        match self {
            Visibility::Inherited => VisibilityModel::Inherited,
            Visibility::Public => VisibilityModel::Public,
            Visibility::Restricted(path) => VisibilityModel::Restricted(path@),
        }
    }
}

impl Clone for Visibility {
    fn clone(&self) -> (r: Self)
        ensures
            r@ == self@,
    {
        match self {
            Visibility::Inherited => Visibility::Inherited,
            Visibility::Public => Visibility::Public,
            Visibility::Restricted(path) => Visibility::Restricted(path.clone()),
        }
    }
}

/// One field of a generated record type.
#[derive(Debug, PartialEq)]
pub struct FieldDescriptor {
    /// The key under which the field was found.
    pub name: String,
    pub ty: TypeDescriptor,
    pub default: DefaultValue,
    /// Where the field comes from: the name of the owning type followed by
    /// the capitalised key. A record nested in this field is declared under
    /// this name.
    pub origin: String,
}

/// The mathematical form of a [`FieldDescriptor`].
pub struct FieldModel {
    pub name: Seq<char>,
    pub ty: TypeModel,
    pub default: DefaultModel,
    pub origin: Seq<char>,
}

impl View for FieldDescriptor {
    type V = FieldModel;

    open spec fn view(&self) -> FieldModel {
        FieldModel {
            name: self.name@,
            ty: self.ty@,
            default: self.default@,
            origin: self.origin@,
        }
    }
}

/// The mathematical form of a list of fields.
pub open spec fn field_models(fields: Seq<FieldDescriptor>) -> Seq<FieldModel> {
    Seq::new(fields.len(), |i: int| fields[i]@)
}

/// A generated record type.
#[derive(Debug, PartialEq)]
pub struct GeneratedStruct {
    pub name: String,
    pub fields: Vec<FieldDescriptor>,
    pub visibility: Visibility,
}

/// The mathematical form of a [`GeneratedStruct`].
pub struct StructModel {
    pub name: Seq<char>,
    pub fields: Seq<FieldModel>,
    pub visibility: VisibilityModel,
}

impl View for GeneratedStruct {
    type V = StructModel;

    open spec fn view(&self) -> StructModel {
        StructModel {
            name: self.name@,
            fields: field_models(self.fields@),
            visibility: self.visibility@,
        }
    }
}

/// The mathematical form of a list of record types.
pub open spec fn struct_models(structs: Seq<GeneratedStruct>) -> Seq<StructModel> {
    Seq::new(structs.len(), |i: int| structs[i]@)
}

/// All that is generated for one document: the record types of the objects
/// nested in it, each before the types nested in it in turn, and the record
/// type of the document itself.
#[derive(Debug, PartialEq)]
pub struct GeneratedModule {
    pub nested: Vec<GeneratedStruct>,
    pub root: GeneratedStruct,
}

/// The mathematical form of a [`GeneratedModule`].
pub struct ModuleModel {
    pub nested: Seq<StructModel>,
    pub root: StructModel,
}

impl View for GeneratedModule {
    type V = ModuleModel;

    open spec fn view(&self) -> ModuleModel {
        ModuleModel { nested: struct_models(self.nested@), root: self.root@ }
    }
}

impl ModuleModel {
    /// Every record type of the module, the document's own last.
    pub open spec fn structs(self) -> Seq<StructModel> {
        self.nested.push(self.root)
    }
}

/// Whether no two of the definitions have the same name.
pub open spec fn distinct_names(structs: Seq<StructModel>) -> bool {
    forall|i: int, j: int|
        #![trigger structs[i], structs[j]]
        0 <= i < j < structs.len() ==> structs[i].name != structs[j].name
}

impl GeneratedModule {
    /// The name of the record type at position `i`, the document's own type
    /// standing behind the nested ones.
    fn name_at(&self, i: usize) -> (r: &String)
        requires
            i <= self.nested.len(),
        ensures
            r@ == self@.structs()[i as int].name,
    {
        if i < self.nested.len() {
            &self.nested[i].name
        } else {
            &self.root.name
        }
    }

    /// Whether every record type of the module has a name of its own. Where
    /// two share a name, the definitions cannot be told apart by it.
    #[verifier::loop_isolation(false)]
    pub fn has_distinct_names(&self) -> (r: bool)
        ensures
            r == distinct_names(self@.structs()),
    {
        let ghost all = self@.structs();
        let n: usize = self.nested.len();
        let mut j: usize = 0;
        while j <= n
            invariant
                j <= n + 1,
                forall|a: int, b: int|
                    #![trigger all[a], all[b]]
                    0 <= a < b < j ==> all[a].name != all[b].name,
            decreases n + 1 - j,
        {
            let mut i: usize = 0;
            while i < j
                invariant
                    i <= j <= n,
                    forall|a: int|
                        #![trigger all[a]]
                        0 <= a < i ==> all[a].name != all[j as int].name,
                decreases j - i,
            {
                if *self.name_at(i) == *self.name_at(j) {
                    assert(all[i as int].name == all[j as int].name);
                    return false;
                }
                i += 1;
            }
            if j == n {
                return true;
            }
            j += 1;
        }
        true
    }
}

} // verus!
