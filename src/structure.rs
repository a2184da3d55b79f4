use vstd::prelude::*;

verus! {

/// The description of a value's shape that constrained generation follows.
#[derive(Debug)]
pub enum Structure {
    /// Exactly this text.
    Literal(String),
    /// Between `min_len` and `max_len` items, with a separator between them.
    Sequence { item: Box<Structure>, separator: Box<Structure>, min_len: u64, max_len: u64 },
    /// Any number; with `integer`, only whole ones.
    Num { integer: bool },
    /// Text of `min` to `max` characters.
    Str { min: u64, max: u64 },
    /// One of two shapes.
    Or(Box<Structure>, Box<Structure>),
    /// One shape, then another.
    Then(Box<Structure>, Box<Structure>),
}

/// The mathematical content of a `Structure`.
pub enum Shape {
    Literal(Seq<char>),
    Sequence(Box<Shape>, Box<Shape>, u64, u64),
    Num(bool),
    Str(u64, u64),
    Or(Box<Shape>, Box<Shape>),
    Then(Box<Shape>, Box<Shape>),
}

pub open spec fn shape_of(s: Structure) -> Shape
    decreases s,
{
    match s {
        Structure::Literal(t) => Shape::Literal(t@),
        Structure::Sequence { item, separator, min_len, max_len } => Shape::Sequence(
            Box::new(shape_of(*item)),
            Box::new(shape_of(*separator)),
            min_len,
            max_len,
        ),
        Structure::Num { integer } => Shape::Num(integer),
        Structure::Str { min, max } => Shape::Str(min, max),
        Structure::Or(a, b) => Shape::Or(Box::new(shape_of(*a)), Box::new(shape_of(*b))),
        Structure::Then(a, b) => Shape::Then(Box::new(shape_of(*a)), Box::new(shape_of(*b))),
    }
}

/// Whether two shape descriptions are the same, part for part.
pub fn structure_eq(a: &Structure, b: &Structure) -> (r: bool)
    ensures
        r == (shape_of(*a) == shape_of(*b)),
    decreases *a,
{
    match (a, b) {
        (Structure::Literal(x), Structure::Literal(y)) => x.eq(y),
        (
            Structure::Sequence { item: i1, separator: s1, min_len: lo1, max_len: hi1 },
            Structure::Sequence { item: i2, separator: s2, min_len: lo2, max_len: hi2 },
        ) => *lo1 == *lo2 && *hi1 == *hi2 && structure_eq(i1, i2) && structure_eq(s1, s2),
        (Structure::Num { integer: x }, Structure::Num { integer: y }) => *x == *y,
        (Structure::Str { min: lo1, max: hi1 }, Structure::Str { min: lo2, max: hi2 }) => *lo1 == *lo2 && *hi1 == *hi2,
        (Structure::Or(a1, b1), Structure::Or(a2, b2)) => structure_eq(a1, a2) && structure_eq(b1, b2),
        (Structure::Then(a1, b1), Structure::Then(a2, b2)) => structure_eq(a1, a2) && structure_eq(b1, b2),
        _ => false,
    }
}

impl PartialEq for Structure {
    fn eq(&self, other: &Structure) -> (r: bool) {
        structure_eq(self, other)
    }
}

impl vstd::std_specs::cmp::PartialEqSpecImpl for Structure {
    open spec fn obeys_eq_spec() -> bool {
        true
    }

    open spec fn eq_spec(&self, other: &Structure) -> bool {
        shape_of(*self) == shape_of(*other)
    }
}

/// A shape handle, built from smaller ones, equal to another when their
/// shapes are.
#[derive(Debug)]
pub struct Structured {
    pub structure: Structure,
}

impl PartialEq for Structured {
    fn eq(&self, other: &Structured) -> (r: bool) {
        structure_eq(&self.structure, &other.structure)
    }
}

impl vstd::std_specs::cmp::PartialEqSpecImpl for Structured {
    open spec fn obeys_eq_spec() -> bool {
        true
    }

    open spec fn eq_spec(&self, other: &Structured) -> bool {
        self@ == other@
    }
}

impl View for Structured {
    type V = Shape;

    open spec fn view(&self) -> Shape {
        shape_of(self.structure)
    }
}

/// The shape of a literal text.
pub open spec fn lit(t: Seq<char>) -> Shape {
    Shape::Literal(t)
}

/// One of two shapes.
pub open spec fn either(a: Shape, b: Shape) -> Shape {
    Shape::Or(Box::new(a), Box::new(b))
}

impl Structured {
    /// Exactly the text `text`.
    pub fn literal(text: &str) -> (r: Structured)
        ensures
            r@ == lit(text@),
    {
        Structured { structure: Structure::Literal(text.to_owned()) }
    }

    /// Between `min_len` and `max_len` repetitions of `item`, separated by
    /// `seperator`.
    pub fn sequence_of(item: Structured, seperator: Structured, min_len: u64, max_len: u64) -> (r: Structured)
        ensures
            r@ == Shape::Sequence(Box::new(item@), Box::new(seperator@), min_len, max_len),
    {
        Structured {
            structure: Structure::Sequence {
                item: Box::new(item.structure),
                separator: Box::new(seperator.structure),
                min_len,
                max_len,
            },
        }
    }

    /// Any number.
    pub fn float() -> (r: Structured)
        ensures
            r@ == Shape::Num(false),
    {
        Structured { structure: Structure::Num { integer: false } }
    }

    /// Any whole number.
    pub fn integer() -> (r: Structured)
        ensures
            r@ == Shape::Num(true),
    {
        Structured { structure: Structure::Num { integer: true } }
    }

    /// Any text.
    pub fn str() -> (r: Structured)
        ensures
            r@ == Shape::Str(0, u64::MAX),
    {
        Self::ranged_str(0, u64::MAX)
    }

    /// Text of `min_len` to `max_len` characters.
    pub fn ranged_str(min_len: u64, max_len: u64) -> (r: Structured)
        ensures
            r@ == Shape::Str(min_len, max_len),
    {
        Structured { structure: Structure::Str { min: min_len, max: max_len } }
    }

    /// The text `true` or the text `false`.
    pub fn boolean() -> (r: Structured)
        ensures
            r@ == either(lit("true"@), lit("false"@)),
    {
        Self::literal("true").or(Self::literal("false"))
    }

    /// The text `null`.
    pub fn null() -> (r: Structured)
        ensures
            r@ == lit("null"@),
    {
        Self::literal("null")
    }

    /// This shape, or `null`.
    pub fn or_not(self) -> (r: Structured)
        ensures
            r@ == either(self@, lit("null"@)),
    {
        self.or(Self::null())
    }

    /// This shape or `second`.
    pub fn or(self, second: Structured) -> (r: Structured)
        ensures
            r@ == either(self@, second@),
    {
        Structured { structure: Structure::Or(Box::new(self.structure), Box::new(second.structure)) }
    }

    /// This shape, then `then`.
    pub fn then(self, then: Structured) -> (r: Structured)
        ensures
            r@ == Shape::Then(Box::new(self@), Box::new(then@)),
    {
        Structured { structure: Structure::Then(Box::new(self.structure), Box::new(then.structure)) }
    }
}

/// The host's handle of an embedding database.
#[derive(Clone, Copy, Debug, PartialEq, Eq, Structural)]
pub struct EmbeddingDbId {
    pub id: u32,
}

/// The host's handle of a loaded model.
#[derive(Clone, Copy, Debug, PartialEq, Eq, Structural)]
pub struct ModelId {
    pub id: u32,
}

/// An embedding database held by the host, and whether dropping this
/// handle should release it.
pub struct VectorDatabase {
    id: EmbeddingDbId,
    drop: bool,
}

impl VectorDatabase {
    pub closed spec fn spec_id(&self) -> EmbeddingDbId {
        self.id
    }

    pub closed spec fn spec_owned(&self) -> bool {
        self.drop
    }

    /// A handle to an existing database that this handle does not own.
    pub fn from_id(id: EmbeddingDbId) -> (r: VectorDatabase)
        ensures
            r.spec_id() == id,
            !r.spec_owned(),
    {
        VectorDatabase { id, drop: false }
    }

    /// Gives up ownership and returns the database's id.
    pub fn leak(self) -> (r: EmbeddingDbId)
        ensures
            r == self.spec_id(),
    {
        self.id
    }

    /// The database's id.
    pub fn id(&self) -> (r: EmbeddingDbId)
        ensures
            r == self.spec_id(),
    {
        self.id
    }

    /// Whether releasing this handle should release the database.
    pub fn owned(&self) -> (r: bool)
        ensures
            r == self.spec_owned(),
    {
        self.drop
    }
}

/// A model loaded in the host.
#[derive(Clone, Copy, Debug, PartialEq, Eq, Structural)]
pub struct ModelInstance {
    pub id: ModelId,
}

} // verus!
