//! Data model for contract schemas: the recursive type-descriptor grammar,
//! per-entrypoint function schemas, per-generation contract schemas, and the
//! versioned module schema, together with their mathematical views.
//!
//! All maps (contract name to contract schema, entrypoint name to schema,
//! numeric tag to tagged-enum variant) are held as vectors of entries sorted
//! strictly by key, so a decoded schema has a single canonical shape whatever
//! order the wire supplied the entries in.
use vstd::prelude::*;

verus! {

/// The integer width that encodes the length prefix of a variable-length
/// collection or string: the wire byte 0 selects a one-byte length, 1 a
/// two-byte length and 2 a four-byte length.
#[derive(Debug, Clone, Copy, PartialEq, Eq, Structural)]
pub enum SizeLength {
    U8,
    U16,
    U32,
}

/// The generation hint for a legacy (unversioned) schema byte stream.
#[derive(Debug, Clone, Copy, PartialEq, Eq, Structural)]
pub enum WasmVersion {
    V0,
    V1,
}

/// Everything that can go wrong while decoding a schema byte stream.
/// Offsets point at the position in the input where the failing read began.
#[derive(Debug, Clone, Copy, PartialEq, Eq, Structural)]
pub enum SchemaError {
    /// The stream ended before a field was fully read.
    UnexpectedEndOfInput { offset: usize },
    /// A type-descriptor discriminant byte that names no known variant.
    UnknownTypeTag { tag: u8, offset: usize },
    /// A presence flag byte other than 0 (absent) or 1 (present).
    InvalidPresenceFlag { flag: u8, offset: usize },
    /// A legacy stream was supplied without a generation hint.
    MissingVersionHint,
    /// Any other malformed content: an unknown generation tag, an unknown
    /// length-size class, an unknown field-shape discriminant, a name that is
    /// not valid UTF-8, or a duplicate map key.
    MalformedSchema { offset: usize },
}

/// A single schema type: the recursive grammar of contract parameter, return,
/// state and event descriptions. Names are held as their UTF-8 bytes.
#[derive(Debug, PartialEq, Eq)]
pub enum Type {
    Unit,
    Bool,
    U8,
    U16,
    U32,
    U64,
    U128,
    I8,
    I16,
    I32,
    I64,
    I128,
    Amount,
    AccountAddress,
    ContractAddress,
    Timestamp,
    Duration,
    Pair(Box<Type>, Box<Type>),
    List(SizeLength, Box<Type>),
    SetOf(SizeLength, Box<Type>),
    MapOf(SizeLength, Box<Type>, Box<Type>),
    Array(u32, Box<Type>),
    Struct(Fields),
    Enum(Vec<(Vec<u8>, Fields)>),
    Text(SizeLength),
    ContractName(SizeLength),
    ReceiveName(SizeLength),
    ULeb128(u8),
    ILeb128(u8),
    ByteList(SizeLength),
    ByteArray(u32),
    TaggedEnum(Vec<(u8, Vec<u8>, Fields)>),
}

/// The fields of a struct or of one enum variant: named, positional, or none.
#[derive(Debug, PartialEq, Eq)]
pub enum Fields {
    Named(Vec<(Vec<u8>, Type)>),
    Unnamed(Vec<Type>),
    Empty,
}

/// Per-entrypoint schema of the first function-shaped generation: an optional
/// parameter type and an optional return-value type.
#[derive(Debug, PartialEq, Eq)]
pub struct FunctionV1 {
    pub parameter: Option<Type>,
    pub return_value: Option<Type>,
}

/// Per-entrypoint schema of the later generations: an optional parameter,
/// an optional return value, and an optional error type.
#[derive(Debug, PartialEq, Eq)]
pub struct FunctionV2 {
    pub parameter: Option<Type>,
    pub return_value: Option<Type>,
    pub error: Option<Type>,
}

/// Generation-0 contract schema: optional init and state types, and the
/// receive entrypoints as a name-sorted map to flat parameter types.
#[derive(Debug, PartialEq, Eq)]
pub struct ContractV0 {
    pub init: Option<Type>,
    pub state: Option<Type>,
    pub receive: Vec<(Vec<u8>, Type)>,
}

/// Generation-1 contract schema.
#[derive(Debug, PartialEq, Eq)]
pub struct ContractV1 {
    pub init: Option<FunctionV1>,
    pub receive: Vec<(Vec<u8>, FunctionV1)>,
}

/// Generation-2 contract schema.
#[derive(Debug, PartialEq, Eq)]
pub struct ContractV2 {
    pub init: Option<FunctionV2>,
    pub receive: Vec<(Vec<u8>, FunctionV2)>,
}

/// Generation-3 contract schema: adds an optional event type.
#[derive(Debug, PartialEq, Eq)]
pub struct ContractV3 {
    pub init: Option<FunctionV2>,
    pub event: Option<Type>,
    pub receive: Vec<(Vec<u8>, FunctionV2)>,
}

/// A whole module schema: one of four generations, each mapping contract
/// names (sorted) to generation-matched contract schemas.
#[derive(Debug, PartialEq, Eq)]
pub enum VersionedModuleSchema {
    V0(Vec<(Vec<u8>, ContractV0)>),
    V1(Vec<(Vec<u8>, ContractV1)>),
    V2(Vec<(Vec<u8>, ContractV2)>),
    V3(Vec<(Vec<u8>, ContractV3)>),
}

/// Mathematical mirror of `Type`, with sequences in place of vectors.
pub enum TypeView {
    Unit,
    Bool,
    U8,
    U16,
    U32,
    U64,
    U128,
    I8,
    I16,
    I32,
    I64,
    I128,
    Amount,
    AccountAddress,
    ContractAddress,
    Timestamp,
    Duration,
    Pair(Box<TypeView>, Box<TypeView>),
    List(SizeLength, Box<TypeView>),
    SetOf(SizeLength, Box<TypeView>),
    MapOf(SizeLength, Box<TypeView>, Box<TypeView>),
    Array(u32, Box<TypeView>),
    Struct(FieldsView),
    Enum(Seq<(Seq<u8>, FieldsView)>),
    Text(SizeLength),
    ContractName(SizeLength),
    ReceiveName(SizeLength),
    ULeb128(u8),
    ILeb128(u8),
    ByteList(SizeLength),
    ByteArray(u32),
    TaggedEnum(Seq<(u8, Seq<u8>, FieldsView)>),
}

/// Mathematical mirror of `Fields`.
pub enum FieldsView {
    Named(Seq<(Seq<u8>, TypeView)>),
    Unnamed(Seq<TypeView>),
    Empty,
}

/// Mathematical mirror of `FunctionV1`.
pub struct FunctionV1View {
    pub parameter: Option<TypeView>,
    pub return_value: Option<TypeView>,
}

/// Mathematical mirror of `FunctionV2`.
pub struct FunctionV2View {
    pub parameter: Option<TypeView>,
    pub return_value: Option<TypeView>,
    pub error: Option<TypeView>,
}

/// Mathematical mirror of `ContractV0`.
pub struct ContractV0View {
    pub init: Option<TypeView>,
    pub state: Option<TypeView>,
    pub receive: Seq<(Seq<u8>, TypeView)>,
}

/// Mathematical mirror of `ContractV1`.
pub struct ContractV1View {
    pub init: Option<FunctionV1View>,
    pub receive: Seq<(Seq<u8>, FunctionV1View)>,
}

/// Mathematical mirror of `ContractV2`.
pub struct ContractV2View {
    pub init: Option<FunctionV2View>,
    pub receive: Seq<(Seq<u8>, FunctionV2View)>,
}

/// Mathematical mirror of `ContractV3`.
pub struct ContractV3View {
    pub init: Option<FunctionV2View>,
    pub event: Option<TypeView>,
    pub receive: Seq<(Seq<u8>, FunctionV2View)>,
}

/// Mathematical mirror of `VersionedModuleSchema`.
pub enum ModuleSchemaView {
    V0(Seq<(Seq<u8>, ContractV0View)>),
    V1(Seq<(Seq<u8>, ContractV1View)>),
    V2(Seq<(Seq<u8>, ContractV2View)>),
    V3(Seq<(Seq<u8>, ContractV3View)>),
}

/// The view of a `Type` value.
pub open spec fn type_view(t: Type) -> TypeView
    decreases t,
{
    match t {
        Type::Unit => TypeView::Unit,
        Type::Bool => TypeView::Bool,
        Type::U8 => TypeView::U8,
        Type::U16 => TypeView::U16,
        Type::U32 => TypeView::U32,
        Type::U64 => TypeView::U64,
        Type::U128 => TypeView::U128,
        Type::I8 => TypeView::I8,
        Type::I16 => TypeView::I16,
        Type::I32 => TypeView::I32,
        Type::I64 => TypeView::I64,
        Type::I128 => TypeView::I128,
        Type::Amount => TypeView::Amount,
        Type::AccountAddress => TypeView::AccountAddress,
        Type::ContractAddress => TypeView::ContractAddress,
        Type::Timestamp => TypeView::Timestamp,
        Type::Duration => TypeView::Duration,
        Type::Pair(a, b) => TypeView::Pair(
            Box::new(type_view(*a)),
            Box::new(type_view(*b)),
        ),
        Type::List(sl, e) => TypeView::List(sl, Box::new(type_view(*e))),
        Type::SetOf(sl, e) => TypeView::SetOf(sl, Box::new(type_view(*e))),
        Type::MapOf(sl, k, v) => TypeView::MapOf(
            sl,
            Box::new(type_view(*k)),
            Box::new(type_view(*v)),
        ),
        Type::Array(n, e) => TypeView::Array(n, Box::new(type_view(*e))),
        Type::Struct(f) => TypeView::Struct(fields_view(f)),
        Type::Enum(vs) => TypeView::Enum(enum_variants_view(vs@)),
        Type::Text(sl) => TypeView::Text(sl),
        Type::ContractName(sl) => TypeView::ContractName(sl),
        Type::ReceiveName(sl) => TypeView::ReceiveName(sl),
        Type::ULeb128(n) => TypeView::ULeb128(n),
        Type::ILeb128(n) => TypeView::ILeb128(n),
        Type::ByteList(sl) => TypeView::ByteList(sl),
        Type::ByteArray(n) => TypeView::ByteArray(n),
        Type::TaggedEnum(vs) => TypeView::TaggedEnum(tagged_variants_view(vs@)),
    }
}

/// The view of a `Fields` value.
pub open spec fn fields_view(f: Fields) -> FieldsView
    decreases f,
{
    match f {
        Fields::Named(fs) => FieldsView::Named(named_fields_view(fs@)),
        Fields::Unnamed(ts) => FieldsView::Unnamed(unnamed_fields_view(ts@)),
        Fields::Empty => FieldsView::Empty,
    }
}

/// Element-wise view of a named-field list.
pub open spec fn named_fields_view(s: Seq<(Vec<u8>, Type)>) -> Seq<(Seq<u8>, TypeView)>
    decreases s,
{
    if s.len() == 0 {
        Seq::empty()
    } else {
        named_fields_view(s.drop_last()).push((s.last().0@, type_view(s.last().1)))
    }
}

/// Element-wise view of a positional-field list.
pub open spec fn unnamed_fields_view(s: Seq<Type>) -> Seq<TypeView>
    decreases s,
{
    if s.len() == 0 {
        Seq::empty()
    } else {
        unnamed_fields_view(s.drop_last()).push(type_view(s.last()))
    }
}

/// Element-wise view of an enum-variant list.
pub open spec fn enum_variants_view(s: Seq<(Vec<u8>, Fields)>) -> Seq<(Seq<u8>, FieldsView)>
    decreases s,
{
    if s.len() == 0 {
        Seq::empty()
    } else {
        enum_variants_view(s.drop_last()).push((s.last().0@, fields_view(s.last().1)))
    }
}

/// Element-wise view of a tagged-enum variant list.
pub open spec fn tagged_variants_view(s: Seq<(u8, Vec<u8>, Fields)>) -> Seq<(u8, Seq<u8>, FieldsView)>
    decreases s,
{
    if s.len() == 0 {
        Seq::empty()
    } else {
        tagged_variants_view(s.drop_last()).push(
            (s.last().0, s.last().1@, fields_view(s.last().2)),
        )
    }
}

impl View for Type {
    type V = TypeView;

    open spec fn view(&self) -> TypeView {
        type_view(*self)
    }
}

impl View for Fields {
    type V = FieldsView;

    open spec fn view(&self) -> FieldsView {
        fields_view(*self)
    }
}

/// The view of an optional type.
pub open spec fn opt_type_view(o: Option<Type>) -> Option<TypeView> {
    match o {
        Option::None => Option::None,
        Option::Some(t) => Option::Some(type_view(t)),
    }
}

/// Element-wise view of a key-sorted entry vector.
pub open spec fn entries_view<T: View>(s: Seq<(Vec<u8>, T)>) -> Seq<(Seq<u8>, T::V)> {
    Seq::new(s.len(), |i: int| (s[i].0@, s[i].1@))
}

impl View for FunctionV1 {
    type V = FunctionV1View;

    open spec fn view(&self) -> FunctionV1View {
        FunctionV1View {
            parameter: opt_type_view(self.parameter),
            return_value: opt_type_view(self.return_value),
        }
    }
}

impl View for FunctionV2 {
    type V = FunctionV2View;

    open spec fn view(&self) -> FunctionV2View {
        FunctionV2View {
            parameter: opt_type_view(self.parameter),
            return_value: opt_type_view(self.return_value),
            error: opt_type_view(self.error),
        }
    }
}

impl View for ContractV0 {
    type V = ContractV0View;

    open spec fn view(&self) -> ContractV0View {
        ContractV0View {
            init: opt_type_view(self.init),
            state: opt_type_view(self.state),
            receive: entries_view(self.receive@),
        }
    }
}

impl View for ContractV1 {
    type V = ContractV1View;

    open spec fn view(&self) -> ContractV1View {
        ContractV1View {
            init: match self.init {
                Option::None => Option::None,
                Option::Some(f) => Option::Some(f@),
            },
            receive: entries_view(self.receive@),
        }
    }
}

impl View for ContractV2 {
    type V = ContractV2View;

    open spec fn view(&self) -> ContractV2View {
        ContractV2View {
            init: match self.init {
                Option::None => Option::None,
                Option::Some(f) => Option::Some(f@),
            },
            receive: entries_view(self.receive@),
        }
    }
}

impl View for ContractV3 {
    type V = ContractV3View;

    open spec fn view(&self) -> ContractV3View {
        ContractV3View {
            init: match self.init {
                Option::None => Option::None,
                Option::Some(f) => Option::Some(f@),
            },
            event: opt_type_view(self.event),
            receive: entries_view(self.receive@),
        }
    }
}

impl View for VersionedModuleSchema {
    type V = ModuleSchemaView;

    open spec fn view(&self) -> ModuleSchemaView {
        match self {
            VersionedModuleSchema::V0(cs) => ModuleSchemaView::V0(entries_view(cs@)),
            VersionedModuleSchema::V1(cs) => ModuleSchemaView::V1(entries_view(cs@)),
            VersionedModuleSchema::V2(cs) => ModuleSchemaView::V2(entries_view(cs@)),
            VersionedModuleSchema::V3(cs) => ModuleSchemaView::V3(entries_view(cs@)),
        }
    }
}

/// Strict lexicographic order on byte strings: `a` comes before `b`.
pub open spec fn lex_less(a: Seq<u8>, b: Seq<u8>) -> bool
    decreases a.len(),
{
    if b.len() == 0 {
        false
    } else if a.len() == 0 {
        true
    } else if a[0] < b[0] {
        true
    } else if a[0] > b[0] {
        false
    } else {
        lex_less(a.drop_first(), b.drop_first())
    }
}

} // verus!

