use floneum::structure::{EmbeddingDbId, Structured, VectorDatabase};

fn shape(s: &Structured) -> String {
    format!("{:?}", s.structure)
}

#[test]
fn boolean_is_true_or_false() {
    let b = Structured::boolean();
    let expected = Structured::literal("true").or(Structured::literal("false"));
    assert_eq!(b, expected);
    assert_ne!(b, Structured::literal("false").or(Structured::literal("true")));
    assert_eq!(shape(&b), "Or(Literal(\"true\"), Literal(\"false\"))");
}

#[test]
fn or_not_adds_null() {
    let s = Structured::integer().or_not();
    assert_eq!(shape(&s), "Or(Num { integer: true }, Literal(\"null\"))");
    assert_eq!(shape(&Structured::null()), "Literal(\"null\")");
    assert_eq!(s, Structured::integer().or(Structured::null()));
    assert_ne!(s, Structured::float().or_not());
}

#[test]
fn numbers_and_text() {
    assert_eq!(shape(&Structured::float()), "Num { integer: false }");
    assert_eq!(shape(&Structured::str()), format!("Str {{ min: 0, max: {} }}", u64::MAX));
    assert_eq!(shape(&Structured::ranged_str(2, 5)), "Str { min: 2, max: 5 }");
}

#[test]
fn sequence_and_then() {
    let s = Structured::sequence_of(Structured::integer(), Structured::literal(","), 1, 3)
        .then(Structured::literal("."));
    assert_eq!(
        shape(&s),
        "Then(Sequence { item: Num { integer: true }, separator: Literal(\",\"), min_len: 1, max_len: 3 }, Literal(\".\"))"
    );
}

#[test]
fn borrowed_database_is_not_owned() {
    let db = VectorDatabase::from_id(EmbeddingDbId { id: 7 });
    assert!(!db.owned());
    assert_eq!(db.id(), EmbeddingDbId { id: 7 });
    assert_eq!(db.leak(), EmbeddingDbId { id: 7 });
}
