//! The records that a comparison produces, and the context it runs in.

use vstd::prelude::*;

verus! {

/// The kind of a document node.
#[derive(Debug, PartialEq, Eq, Clone, Copy, Structural)]
pub enum ValueType {
    Null,
    Boolean,
    Number,
    String,
    Array,
    Object,
}

impl ValueType {
    /// The name under which the kind appears in a type difference.
    pub open spec fn name(self) -> Seq<char> {
        match self {
            ValueType::Null => "null"@,
            ValueType::Boolean => "bool"@,
            ValueType::Number => "number"@,
            ValueType::String => "string"@,
            ValueType::Array => "array"@,
            ValueType::Object => "object"@,
        }
    }

    /// The kind's name as text.
    pub fn to_string(&self) -> (text: String)
        ensures
            text@ == self.name(),
    {
        match self {
            ValueType::Null => "null".to_owned(),
            ValueType::Boolean => "bool".to_owned(),
            ValueType::Number => "number".to_owned(),
            ValueType::String => "string".to_owned(),
            ValueType::Array => "array".to_owned(),
            ValueType::Object => "object".to_owned(),
        }
    }
}

/// Two different kinds never share a name.
pub proof fn lemma_names_differ(x: ValueType, y: ValueType)
    requires
        x != y,
    ensures
        x.name() != y.name(),
{
    reveal_strlit("null");
    reveal_strlit("bool");
    reveal_strlit("number");
    reveal_strlit("string");
    reveal_strlit("array");
    reveal_strlit("object");
    let a = x.name();
    let b = y.name();
    if a.len() == b.len() {
        // "number", "string" and "object" have six letters, "null" and "bool" four.
        assert(a[0] != b[0]);
    }
}

/// Which side holds, or misses, an array element.
#[derive(Debug, PartialEq, Eq, Clone, Copy, Structural)]
pub enum ArrayDiffDesc {
    AHas,
    AMisses,
    BHas,
    BMisses,
}

/// The label of one side of a comparison.
#[derive(Debug, Clone, PartialEq)]
pub struct WorkingFile {
    pub name: String,
}

impl WorkingFile {
    pub fn new(name: String) -> (file: WorkingFile)
        ensures
            file.name == name,
    {
        WorkingFile { name }
    }
}

/// How arrays are compared.
#[derive(Debug, Clone, Copy, PartialEq)]
pub struct Config {
    /// Compare arrays index by index rather than as collections of elements.
    pub array_same_order: bool,
}

impl Config {
    pub fn new(array_same_order: bool) -> (config: Config)
        ensures
            config.array_same_order == array_same_order,
    {
        Config { array_same_order }
    }
}

/// The model of a [`WorkingContext`]: the two labels and the array mode.
pub struct ContextView {
    pub file_a: Seq<char>,
    pub file_b: Seq<char>,
    pub array_same_order: bool,
}

/// The two sides' labels and the array mode of one comparison run.
#[derive(Debug, Clone, PartialEq)]
pub struct WorkingContext {
    pub file_a: WorkingFile,
    pub file_b: WorkingFile,
    pub config: Config,
}

impl View for WorkingContext {
    type V = ContextView;

    open spec fn view(&self) -> ContextView {
        ContextView {
            file_a: self.file_a.name@,
            file_b: self.file_b.name@,
            array_same_order: self.config.array_same_order,
        }
    }
}

impl WorkingContext {
    pub fn new(file_a: WorkingFile, file_b: WorkingFile, config: Config) -> (context:
        WorkingContext)
        ensures
            context.file_a == file_a,
            context.file_b == file_b,
            context.config == config,
    {
        WorkingContext { file_a, file_b, config }
    }

    /// The labels of side A and side B, in this order.
    pub fn get_file_names(&self) -> (names: (&str, &str))
        ensures
            names.0@ == self@.file_a,
            names.1@ == self@.file_b,
    {
        (self.file_a.name.as_str(), self.file_b.name.as_str())
    }
}

/// The model of a [`KeyDiff`].
pub struct KeyDiffView {
    pub key: Seq<char>,
    pub has: Seq<char>,
    pub misses: Seq<char>,
}

/// A key that one side holds and the other misses.
#[derive(Debug, Clone, PartialEq)]
pub struct KeyDiff {
    pub key: String,
    pub has: String,
    pub misses: String,
}

impl DeepView for KeyDiff {
    type V = KeyDiffView;

    open spec fn deep_view(&self) -> KeyDiffView {
        KeyDiffView { key: self.key@, has: self.has@, misses: self.misses@ }
    }
}

impl KeyDiff {
    pub fn new(key: String, has: String, misses: String) -> (diff: KeyDiff)
        ensures
            diff.key == key,
            diff.has == has,
            diff.misses == misses,
    {
        KeyDiff { key, has, misses }
    }
}

/// The model of a [`TypeDiff`].
pub struct TypeDiffView {
    pub key: Seq<char>,
    pub type1: Seq<char>,
    pub type2: Seq<char>,
}

/// A key whose two values are of different kinds.
#[derive(Debug, Clone, PartialEq)]
pub struct TypeDiff {
    pub key: String,
    pub type1: String,
    pub type2: String,
}

impl DeepView for TypeDiff {
    type V = TypeDiffView;

    open spec fn deep_view(&self) -> TypeDiffView {
        TypeDiffView { key: self.key@, type1: self.type1@, type2: self.type2@ }
    }
}

impl TypeDiff {
    pub fn new(key: String, type1: String, type2: String) -> (diff: TypeDiff)
        ensures
            diff.key == key,
            diff.type1 == type1,
            diff.type2 == type2,
    {
        TypeDiff { key, type1, type2 }
    }
}

/// The model of a [`ValueDiff`].
pub struct ValueDiffView {
    pub key: Seq<char>,
    pub value1: Seq<char>,
    pub value2: Seq<char>,
}

/// A key whose two values differ; each side is given as its canonical text.
#[derive(Debug, Clone, PartialEq)]
pub struct ValueDiff {
    pub key: String,
    pub value1: String,
    pub value2: String,
}

impl DeepView for ValueDiff {
    type V = ValueDiffView;

    open spec fn deep_view(&self) -> ValueDiffView {
        ValueDiffView { key: self.key@, value1: self.value1@, value2: self.value2@ }
    }
}

impl ValueDiff {
    pub fn new(key: String, value1: String, value2: String) -> (diff: ValueDiff)
        ensures
            diff.key == key,
            diff.value1 == value1,
            diff.value2 == value2,
    {
        ValueDiff { key, value1, value2 }
    }
}

/// The model of an [`ArrayDiff`].
pub struct ArrayDiffView {
    pub key: Seq<char>,
    pub descriptor: ArrayDiffDesc,
    pub value: Seq<char>,
}

/// An array element that one side holds and the other misses.
#[derive(Debug, Clone, PartialEq)]
pub struct ArrayDiff {
    pub key: String,
    pub descriptor: ArrayDiffDesc,
    pub value: String,
}

impl DeepView for ArrayDiff {
    type V = ArrayDiffView;

    open spec fn deep_view(&self) -> ArrayDiffView {
        ArrayDiffView { key: self.key@, descriptor: self.descriptor, value: self.value@ }
    }
}

impl ArrayDiff {
    pub fn new(key: String, descriptor: ArrayDiffDesc, value: String) -> (diff: ArrayDiff)
        ensures
            diff.key == key,
            diff.descriptor == descriptor,
            diff.value == value,
    {
        ArrayDiff { key, descriptor, value }
    }
}

/// The four kinds of difference found under one field.
pub type ComparisionResult = (Vec<KeyDiff>, Vec<TypeDiff>, Vec<ValueDiff>, Vec<ArrayDiff>);

/// The model of a [`ComparisionResult`].
pub struct Diffs {
    pub keys: Seq<KeyDiffView>,
    pub types: Seq<TypeDiffView>,
    pub values: Seq<ValueDiffView>,
    pub arrays: Seq<ArrayDiffView>,
}

impl Diffs {
    pub open spec fn empty() -> Diffs {
        Diffs { keys: Seq::empty(), types: Seq::empty(), values: Seq::empty(), arrays: Seq::empty() }
    }

    /// The differences of `self` followed, kind by kind, by those of `more`.
    pub open spec fn concat(self, more: Diffs) -> Diffs {
        Diffs {
            keys: self.keys + more.keys,
            types: self.types + more.types,
            values: self.values + more.values,
            arrays: self.arrays + more.arrays,
        }
    }

    pub open spec fn is_empty(self) -> bool {
        &&& self.keys.len() == 0
        &&& self.types.len() == 0
        &&& self.values.len() == 0
        &&& self.arrays.len() == 0
    }
}

/// The model of a comparison result.
pub open spec fn result_view(result: ComparisionResult) -> Diffs {
    Diffs {
        keys: result.0.deep_view(),
        types: result.1.deep_view(),
        values: result.2.deep_view(),
        arrays: result.3.deep_view(),
    }
}

} // verus!
