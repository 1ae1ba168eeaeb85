//! The type system: type values for everything that flows through a physical
//! plan.
//!
//! A [`FenlType`] is either a concrete columnar type ([`DataType`]), a type
//! variable, a collection type over type variables, one of the pseudo-types
//! (window descriptor, JSON-string marker), or the absorbing error marker.
//!
//! Every type carries a mathematical view (`DataTypeV`, `FenlTypeV`, ...)
//! in which strings are character sequences and vectors are sequences; all
//! contracts in this crate are stated over those views.

use vstd::prelude::*;

verus! {

broadcast use vstd::std_specs::vec::group_vec_axioms, vstd::seq::group_seq_axioms;

/// Unit of a timestamp or duration type.
#[derive(Clone, Copy, Debug, PartialEq, Eq, Hash, Structural)]
pub enum TimeUnit {
    Second,
    Millisecond,
    Microsecond,
    Nanosecond,
}

/// Unit of a calendar interval type.
#[derive(Clone, Copy, Debug, PartialEq, Eq, Hash, Structural)]
pub enum IntervalUnit {
    YearMonth,
    DayTime,
}

/// The collection kinds a polymorphic signature may range over.
#[derive(Clone, Copy, Debug, PartialEq, Eq, Hash, Structural)]
pub enum Collection {
    List,
    Mapping,
}

/// A named placeholder type; identity is by name.
#[derive(Clone, Debug, PartialEq, Eq, Hash)]
pub struct TypeVariable(pub String);

/// A named field of a struct type.
#[derive(Debug, PartialEq, Eq, Hash)]
pub struct Field {
    pub name: String,
    pub data_type: DataType,
}

/// A concrete columnar type.
#[derive(Debug, PartialEq, Eq, Hash)]
pub enum DataType {
    Null,
    Boolean,
    Int8,
    Int32,
    Int64,
    UInt8,
    UInt16,
    UInt32,
    UInt64,
    Float32,
    Float64,
    Utf8,
    LargeUtf8,
    Date32,
    Timestamp(TimeUnit),
    Duration(TimeUnit),
    Interval(IntervalUnit),
    Struct(Vec<Field>),
    List(Box<DataType>),
    Mapping(Box<DataType>, Box<DataType>),
}

/// Mathematical view of a [`Field`].
pub struct FieldV {
    pub name: Seq<char>,
    pub data_type: DataTypeV,
}

/// Mathematical view of a [`DataType`].
pub enum DataTypeV {
    Null,
    Boolean,
    Int8,
    Int32,
    Int64,
    UInt8,
    UInt16,
    UInt32,
    UInt64,
    Float32,
    Float64,
    Utf8,
    LargeUtf8,
    Date32,
    Timestamp(TimeUnit),
    Duration(TimeUnit),
    Interval(IntervalUnit),
    Struct(Seq<FieldV>),
    List(Box<DataTypeV>),
    Mapping(Box<DataTypeV>, Box<DataTypeV>),
}

pub open spec fn data_type_view(d: DataType) -> DataTypeV
    decreases d,
{
    match d {
        DataType::Null => DataTypeV::Null,
        DataType::Boolean => DataTypeV::Boolean,
        DataType::Int8 => DataTypeV::Int8,
        DataType::Int32 => DataTypeV::Int32,
        DataType::Int64 => DataTypeV::Int64,
        DataType::UInt8 => DataTypeV::UInt8,
        DataType::UInt16 => DataTypeV::UInt16,
        DataType::UInt32 => DataTypeV::UInt32,
        DataType::UInt64 => DataTypeV::UInt64,
        DataType::Float32 => DataTypeV::Float32,
        DataType::Float64 => DataTypeV::Float64,
        DataType::Utf8 => DataTypeV::Utf8,
        DataType::LargeUtf8 => DataTypeV::LargeUtf8,
        DataType::Date32 => DataTypeV::Date32,
        DataType::Timestamp(u) => DataTypeV::Timestamp(u),
        DataType::Duration(u) => DataTypeV::Duration(u),
        DataType::Interval(u) => DataTypeV::Interval(u),
        DataType::Struct(fields) => DataTypeV::Struct(fields_view(fields@)),
        DataType::List(item) => DataTypeV::List(Box::new(data_type_view(*item))),
        DataType::Mapping(k, v) => DataTypeV::Mapping(
            Box::new(data_type_view(*k)),
            Box::new(data_type_view(*v)),
        ),
    }
}

pub open spec fn field_view(f: Field) -> FieldV
    decreases f,
{
    FieldV { name: f.name@, data_type: data_type_view(f.data_type) }
}

pub open spec fn fields_view(fs: Seq<Field>) -> Seq<FieldV>
    decreases fs,
{
    if fs.len() == 0 {
        Seq::empty()
    } else {
        fields_view(fs.subrange(0, fs.len() - 1)).push(field_view(fs[fs.len() - 1]))
    }
}

/// `fields_view` maps `field_view` over the sequence, element by element.
pub proof fn lemma_fields_view(fs: Seq<Field>)
    ensures
        fields_view(fs).len() == fs.len(),
        forall|i: int| 0 <= i < fs.len() ==> fields_view(fs)[i] == field_view(fs[i]),
    decreases fs.len(),
{
    if fs.len() > 0 {
        lemma_fields_view(fs.subrange(0, fs.len() - 1));
    }
}

impl View for DataType {
    type V = DataTypeV;

    open spec fn view(&self) -> DataTypeV {
        data_type_view(*self)
    }
}

impl View for Field {
    type V = FieldV;

    open spec fn view(&self) -> FieldV {
        field_view(*self)
    }
}

impl View for TypeVariable {
    type V = Seq<char>;

    open spec fn view(&self) -> Seq<char> {
        self.0@
    }
}

/// The type of a value flowing through the plan.
#[derive(Debug, PartialEq, Eq, Hash)]
pub enum FenlType {
    /// A specific concrete columnar type.
    Concrete(DataType),
    /// A generic type with the given type variable.
    TypeRef(TypeVariable),
    /// A collection type parametrized by type variable(s), used before a
    /// polymorphic signature is instantiated; a map takes two variables, a
    /// list one.
    Collection(Collection, Vec<TypeVariable>),
    /// The type describing a windowing behavior.
    Window,
    /// The type of a string that will be interpreted as a JSON object.
    Json,
    /// The result type of an invalid expression.
    ///
    /// This indicates the error has already been reported, so no more error
    /// reports are needed; every type computation touching it yields it
    /// again without a new diagnostic.
    Error,
}

/// Mathematical view of a [`FenlType`].
pub enum FenlTypeV {
    Concrete(DataTypeV),
    TypeRef(Seq<char>),
    Collection(Collection, Seq<Seq<char>>),
    Window,
    Json,
    Error,
}

pub open spec fn fenl_type_view(t: FenlType) -> FenlTypeV {
    match t {
        FenlType::Concrete(d) => FenlTypeV::Concrete(data_type_view(d)),
        FenlType::TypeRef(v) => FenlTypeV::TypeRef(v.0@),
        FenlType::Collection(c, vars) => FenlTypeV::Collection(
            c,
            vars@.map_values(|v: TypeVariable| v.0@),
        ),
        FenlType::Window => FenlTypeV::Window,
        FenlType::Json => FenlTypeV::Json,
        FenlType::Error => FenlTypeV::Error,
    }
}

impl View for FenlType {
    type V = FenlTypeV;

    open spec fn view(&self) -> FenlTypeV {
        fenl_type_view(*self)
    }
}

impl FenlType {
    /// Whether this is the absorbing error marker.
    pub fn is_error(&self) -> (r: bool)
        ensures
            r == (self@ matches FenlTypeV::Error),
    {
        match self {
            FenlType::Error => true,
            _ => false,
        }
    }

    /// The concrete columnar type, if this type is concrete.
    pub fn arrow_type(&self) -> (r: Option<&DataType>)
        ensures
            match r {
                Some(d) => self@ == FenlTypeV::Concrete(d@),
                None => !(self@ matches FenlTypeV::Concrete(_)),
            },
    {
        match self {
            FenlType::Collection(_, _) => None,
            FenlType::TypeRef(_) => None,
            FenlType::Concrete(t) => Some(t),
            FenlType::Window => None,
            FenlType::Json => None,
            FenlType::Error => None,
        }
    }

    /// The fields of a concrete struct type, if this is one.
    pub fn record_fields(&self) -> (r: Option<&Vec<Field>>)
        ensures
            match r {
                Some(fields) => self@ == FenlTypeV::Concrete(
                    DataTypeV::Struct(fields_view(fields@)),
                ),
                None => forall|fs: Seq<FieldV>|
                    self@ != FenlTypeV::Concrete(DataTypeV::Struct(fs)),
            },
    {
        match self.arrow_type() {
            Some(data_type) => match data_type {
                DataType::Struct(fields) => Some(fields),
                _ => None,
            },
            None => None,
        }
    }

    /// The concrete columnar type, taken by value, if this type is concrete.
    pub fn take_arrow_type(self) -> (r: Option<DataType>)
        ensures
            match r {
                Some(d) => self@ == FenlTypeV::Concrete(d@),
                None => !(self@ matches FenlTypeV::Concrete(_)),
            },
    {
        match self {
            FenlType::Collection(_, _) => None,
            FenlType::TypeRef(_) => None,
            FenlType::Concrete(t) => Some(t),
            FenlType::Window => None,
            FenlType::Json => None,
            FenlType::Error => None,
        }
    }
}

/// A named predicate over concrete types, used only while instantiating a
/// polymorphic instruction to constrain which concrete type a type variable
/// may bind to.
#[derive(Clone, Copy, Debug, PartialEq, Eq, Hash, Structural, PartialOrd, Ord)]
pub enum TypeClass {
    /// Any type.
    Any,
    /// Any type that is a valid key.
    Key,
    /// Any numeric type.
    Number,
    /// Any signed numeric type.
    Signed,
    /// Any floating point numeric type.
    Float,
    /// Any time delta.
    TimeDelta,
    /// Any ordered type: numbers, timestamps and strings.
    Ordered,
    /// The error has already been reported; no more reports are needed.
    Error,
}

/// Concrete windowing behavior: how a window affects an aggregation.
#[derive(Clone, Copy, Debug, PartialEq, Eq, Hash, Structural, PartialOrd, Ord)]
pub enum WindowBehavior {
    Since,
    Sliding,
}

impl WindowBehavior {
    pub fn label(&self) -> (r: &'static str)
        ensures
            *self == WindowBehavior::Since ==> r@ == "since"@,
            *self == WindowBehavior::Sliding ==> r@ == "sliding"@,
    {
        match self {
            WindowBehavior::Since => "since",
            WindowBehavior::Sliding => "sliding",
        }
    }
}

} // verus!
