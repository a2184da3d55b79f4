use vstd::prelude::*;

verus! {

/// The tag that says which kind of value a slot carries.
#[derive(Clone, Copy, Debug, PartialEq, Eq, Structural)]
pub enum ValueType {
    Number,
    Text,
    Boolean,
    Embedding,
    Structure,
}

/// A value exchanged between nodes.
///
/// Numbers are kept as integers; an embedding is kept as the bit patterns of
/// its components, and a structure as the id the host gave the shape: this
/// library only moves them around.
#[derive(Clone, Debug, PartialEq)]
pub enum Value {
    Number(i64),
    Text(String),
    Boolean(bool),
    Embedding(Vec<u32>),
    Structure(u32),
}

/// The mathematical content of a `Value`.
pub enum ValueView {
    Number(i64),
    Text(Seq<char>),
    Boolean(bool),
    Embedding(Seq<u32>),
    Structure(u32),
}

impl View for Value {
    type V = ValueView;

    open spec fn view(&self) -> ValueView {
        match self {
            Value::Number(n) => ValueView::Number(*n),
            Value::Text(s) => ValueView::Text(s@),
            Value::Boolean(b) => ValueView::Boolean(*b),
            Value::Embedding(e) => ValueView::Embedding(e@),
            Value::Structure(id) => ValueView::Structure(*id),
        }
    }
}

impl ValueView {
    pub open spec fn ty(self) -> ValueType {
        match self {
            ValueView::Number(_) => ValueType::Number,
            ValueView::Text(_) => ValueType::Text,
            ValueView::Boolean(_) => ValueType::Boolean,
            ValueView::Embedding(_) => ValueType::Embedding,
            ValueView::Structure(_) => ValueType::Structure,
        }
    }
}

impl Value {

    /// The type tag of this value.
    pub fn ty(&self) -> (r: ValueType)
        ensures
            r == self@.ty(),
    {
        match self {
            Value::Number(_) => ValueType::Number,
            Value::Text(_) => ValueType::Text,
            Value::Boolean(_) => ValueType::Boolean,
            Value::Embedding(_) => ValueType::Embedding,
            Value::Structure(_) => ValueType::Structure,
        }
    }

    /// A copy of this value.
    pub fn duplicate(&self) -> (r: Value)
        ensures
            r@ == self@,
    {
        match self {
            Value::Number(n) => Value::Number(*n),
            Value::Text(s) => Value::Text(s.clone()),
            Value::Boolean(b) => Value::Boolean(*b),
            Value::Embedding(v) => {
                let c = v.clone();
                assert(c@ =~= v@);
                Value::Embedding(c)
            },
            Value::Structure(id) => Value::Structure(*id),
        }
    }
}

impl ValueType {
    /// The empty value of this type, which a fresh input slot holds.
    pub open spec fn empty_view(self) -> ValueView {
        match self {
            ValueType::Number => ValueView::Number(0),
            ValueType::Text => ValueView::Text(Seq::empty()),
            ValueType::Boolean => ValueView::Boolean(false),
            ValueType::Embedding => ValueView::Embedding(Seq::empty()),
            ValueType::Structure => ValueView::Structure(0),
        }
    }

    /// The empty value of this type.
    pub fn empty_value(self) -> (r: Value)
        ensures
            r@ == self.empty_view(),
    {
        match self {
            ValueType::Number => Value::Number(0),
            ValueType::Text => {
                let s = String::new();
                assert(s@ =~= Seq::<char>::empty());
                Value::Text(s)
            },
            ValueType::Boolean => Value::Boolean(false),
            ValueType::Embedding => {
                let e: Vec<u32> = Vec::new();
                assert(e@ =~= Seq::<u32>::empty());
                Value::Embedding(e)
            },
            ValueType::Structure => Value::Structure(0),
        }
    }
}

} // verus!
