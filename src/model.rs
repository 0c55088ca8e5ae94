use vstd::prelude::*;

verus! {

/// One value of a GraphQL enum.
#[derive(Debug, Clone)]
pub struct EnumValue {
    pub name: String,
    pub description: Option<String>,
    pub is_deprecated: bool,
    pub deprecation_reason: Option<String>,
}

/// The `kind` tag of an introspected type.
#[derive(Debug, Clone, Copy, PartialEq, Eq)]
pub enum TypeKind {
    Scalar,
    Object,
    Interface,
    Union,
    Enum,
    InputObject,
    List,
    NonNull,
}

/// A reference to a type: a named type, possibly wrapped in `List` and `NonNull`.
#[derive(Debug)]
pub enum TypeRef {
    Scalar { name: String },
    Object { name: String },
    Interface { name: String },
    Union { name: String },
    Enum { name: String },
    InputObject { name: String },
    NonNull { of_type: Box<TypeRef> },
    List { of_type: Box<TypeRef> },
}

/// A type definition of the schema.
#[derive(Debug)]
pub enum Type {
    Scalar { name: String, description: Option<String> },
    Object {
        name: String,
        description: Option<String>,
        fields: Vec<Field>,
        interfaces: Vec<TypeRef>,
    },
    Interface {
        name: String,
        description: Option<String>,
        fields: Vec<Field>,
        possible_types: Option<Vec<TypeRef>>,
    },
    Union { name: String, description: Option<String>, possible_types: Option<Vec<TypeRef>> },
    Enum { name: String, description: Option<String>, enum_values: Vec<EnumValue> },
    InputObject { name: String, description: Option<String>, input_fields: Vec<InputValue> },
    NonNull { of_type: TypeRef },
    List { of_type: TypeRef },
}

/// An argument of a field or directive, or a field of an input object.
#[derive(Debug)]
pub struct InputValue {
    pub name: String,
    pub description: Option<String>,
    pub of_type: TypeRef,
    pub default_value: Option<String>,
}

/// A field of an object or interface.
#[derive(Debug)]
pub struct Field {
    pub name: String,
    pub description: Option<String>,
    pub args: Vec<InputValue>,
    pub of_type: TypeRef,
    pub is_deprecated: bool,
    pub deprecation_reason: Option<String>,
}

/// Where a directive may appear.
#[derive(Debug, Clone, Copy, PartialEq, Eq)]
pub enum DirectiveLocation {
    Query,
    Mutation,
    Subscription,
    Field,
    FragmentDefinition,
    FragmentSpread,
    InlineFragment,
    Schema,
    Scalar,
    Object,
    FieldDefinition,
    ArgumentDefinition,
    Interface,
    Union,
    Enum,
    EnumValue,
    InputObject,
    InputFieldDefinition,
}

/// A directive declared by the schema.
#[derive(Debug)]
pub struct Directive {
    pub description: Option<String>,
    pub name: String,
    pub locations: Vec<DirectiveLocation>,
    pub args: Vec<InputValue>,
}

/// The name of a root operation type.
#[derive(Debug)]
pub struct RootType {
    pub name: String,
}

/// The introspected schema.
#[derive(Debug)]
pub struct Schema {
    pub types: Vec<Type>,
    pub query_type: RootType,
    pub mutation_type: Option<RootType>,
    pub subscription_type: Option<RootType>,
    pub directives: Vec<Directive>,
}

/// The `data` member of an introspection response.
#[derive(Debug)]
pub struct Data {
    pub schema: Schema,
}

/// A whole introspection response.
#[derive(Debug)]
pub struct IntrospectionResponse {
    pub data: Data,
}

/// The name of a named type; `None` for the wrappers.
pub open spec fn named_as(t: Type) -> Option<Seq<char>> {
    match t {
        Type::Scalar { name, .. } => Some(name@),
        Type::Object { name, .. } => Some(name@),
        Type::Interface { name, .. } => Some(name@),
        Type::Union { name, .. } => Some(name@),
        Type::Enum { name, .. } => Some(name@),
        Type::InputObject { name, .. } => Some(name@),
        Type::NonNull { .. } => None,
        Type::List { .. } => None,
    }
}

/// The named type at the bottom of a chain of wrappers.
pub open spec fn base_name(t: TypeRef) -> Seq<char>
    decreases t,
{
    match t {
        TypeRef::Scalar { name } => name@,
        TypeRef::Object { name } => name@,
        TypeRef::Interface { name } => name@,
        TypeRef::Union { name } => name@,
        TypeRef::Enum { name } => name@,
        TypeRef::InputObject { name } => name@,
        TypeRef::NonNull { of_type } => base_name(*of_type),
        TypeRef::List { of_type } => base_name(*of_type),
    }
}

/// Some type of `types` is named `n`.
pub open spec fn has_named(types: Seq<Type>, n: Seq<char>) -> bool {
    exists|i: int| 0 <= i < types.len() && named_as(#[trigger] types[i]) == Some(n)
}

/// `i` is the first index of `types` whose type is named `n`.
pub open spec fn first_named(types: Seq<Type>, n: Seq<char>, i: int) -> bool {
    &&& 0 <= i < types.len()
    &&& named_as(types[i]) == Some(n)
    &&& forall|j: int| 0 <= j < i ==> named_as(#[trigger] types[j]) != Some(n)
}

impl Type {
    /// The kind tag of this type.
    pub fn kind(&self) -> (r: TypeKind)
        ensures
            r == TypeKind::Scalar <==> self is Scalar,
            r == TypeKind::Object <==> self is Object,
            r == TypeKind::Interface <==> self is Interface,
            r == TypeKind::Union <==> self is Union,
            r == TypeKind::Enum <==> self is Enum,
            r == TypeKind::InputObject <==> self is InputObject,
            r == TypeKind::NonNull <==> self is NonNull,
            r == TypeKind::List <==> self is List,
    {
        match self {
            Type::Scalar { .. } => TypeKind::Scalar,
            Type::Object { .. } => TypeKind::Object,
            Type::Interface { .. } => TypeKind::Interface,
            Type::Union { .. } => TypeKind::Union,
            Type::Enum { .. } => TypeKind::Enum,
            Type::InputObject { .. } => TypeKind::InputObject,
            Type::NonNull { .. } => TypeKind::NonNull,
            Type::List { .. } => TypeKind::List,
        }
    }

    /// The name of a named type, `None` for a wrapper.
    pub fn name(&self) -> (r: Option<&String>)
        ensures
            match r {
                Some(s) => named_as(*self) == Some(s@),
                None => named_as(*self) is None,
            },
    {
        match self {
            Type::Scalar { name, .. } => Some(name),
            Type::Object { name, .. } => Some(name),
            Type::Interface { name, .. } => Some(name),
            Type::Union { name, .. } => Some(name),
            Type::Enum { name, .. } => Some(name),
            Type::InputObject { name, .. } => Some(name),
            Type::NonNull { .. } => None,
            Type::List { .. } => None,
        }
    }
}

/// A reference to a type definition: the named variants keep their name, the
/// wrappers keep what they wrap.
pub open spec fn ref_of(t: Type) -> TypeRef {
    match t {
        Type::Scalar { name, .. } => TypeRef::Scalar { name },
        Type::Object { name, .. } => TypeRef::Object { name },
        Type::Interface { name, .. } => TypeRef::Interface { name },
        Type::Union { name, .. } => TypeRef::Union { name },
        Type::Enum { name, .. } => TypeRef::Enum { name },
        Type::InputObject { name, .. } => TypeRef::InputObject { name },
        Type::NonNull { of_type } => TypeRef::NonNull { of_type: Box::new(of_type) },
        Type::List { of_type } => TypeRef::List { of_type: Box::new(of_type) },
    }
}

impl From<Type> for TypeRef {
    /// The reference that stands for a type definition.
    fn from(other: Type) -> (r: TypeRef) {
        match other {
            Type::Scalar { name, .. } => TypeRef::Scalar { name },
            Type::Object { name, .. } => TypeRef::Object { name },
            Type::Interface { name, .. } => TypeRef::Interface { name },
            Type::Union { name, .. } => TypeRef::Union { name },
            Type::Enum { name, .. } => TypeRef::Enum { name },
            Type::InputObject { name, .. } => TypeRef::InputObject { name },
            Type::NonNull { of_type } => TypeRef::NonNull { of_type: Box::new(of_type) },
            Type::List { of_type } => TypeRef::List { of_type: Box::new(of_type) },
        }
    }
}

impl vstd::std_specs::convert::FromSpecImpl<Type> for TypeRef {
    open spec fn obeys_from_spec() -> bool {
        true
    }

    open spec fn from_spec(v: Type) -> TypeRef {
        ref_of(v)
    }
}

impl TypeRef {
    /// The name of the named type at the bottom of the wrappers.
    pub fn base_name(&self) -> (r: &String)
        ensures
            r@ == base_name(*self),
        decreases self,
    {
        match self {
            TypeRef::Scalar { name } => name,
            TypeRef::Object { name } => name,
            TypeRef::Interface { name } => name,
            TypeRef::Union { name } => name,
            TypeRef::Enum { name } => name,
            TypeRef::InputObject { name } => name,
            TypeRef::NonNull { of_type } => of_type.base_name(),
            TypeRef::List { of_type } => of_type.base_name(),
        }
    }
}

impl Schema {
    /// The schema inside a response.
    pub fn of_response(response: IntrospectionResponse) -> (r: Schema)
        ensures
            r == response.data.schema,
    {
        response.data.schema
    }
}

/// Index of the first type named `name`, if any.
pub fn find_type(types: &Vec<Type>, name: &String) -> (r: Option<usize>)
    ensures
        match r {
            Some(i) => first_named(types@, name@, i as int),
            None => !has_named(types@, name@),
        },
{
    let mut i: usize = 0;
    while i < types.len()
        invariant
            i <= types@.len(),
            forall|j: int| 0 <= j < i ==> named_as(#[trigger] types@[j]) != Some(name@),
        decreases types.len() - i,
    {
        match types[i].name() {
            Some(n) => {
                if *n == *name {
                    return Some(i);
                }
            },
            None => {},
        }
        i += 1;
    }
    None
}

} // verus!
