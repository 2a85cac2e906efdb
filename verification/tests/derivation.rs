use proc_macro2::TokenStream;
use self_rust_tokenize::_private::{
    add_named_constructor_body, add_unit_constructor_body, add_unnamed_constructor_body,
};
use self_rust_tokenize::builder::{self, DeriveError};
use self_rust_tokenize::resolve::{
    forwarded_member, has_suppress, has_suppressed_field, marker, resolve, Marker,
};
use self_rust_tokenize::shape::{
    Attribute, ConfigError, ConstructorPath, Field, Member, Shape, Strategy,
};
use self_rust_tokenize::SelfRustTokenize;

fn in_source(source: &str) -> String {
    source.parse::<TokenStream>().unwrap().to_string()
}

fn trees(stream: TokenStream) -> Vec<String> {
    stream.into_iter().map(|tree| tree.to_string()).collect()
}

fn path(segments: &[&str], leading_colons: bool) -> ConstructorPath {
    ConstructorPath {
        segments: segments.iter().map(|segment| segment.to_string()).collect(),
        leading_colons,
    }
}

fn field(identity: Member, attributes: Vec<Attribute>) -> Field {
    Field { identity, declared_type: "u8".to_string(), attributes }
}

fn named(name: &str) -> Member {
    Member::Named(name.to_string())
}

fn record(names: &[&str]) -> Shape {
    Shape::Named {
        path: path(&["Record"], false),
        fields: names.iter().map(|name| field(named(name), Vec::new())).collect(),
    }
}

fn pair() -> Shape {
    Shape::Unnamed {
        path: path(&["Pair"], false),
        fields: vec![field(Member::Unnamed(0), Vec::new()), field(Member::Unnamed(1), Vec::new())],
    }
}

fn unit() -> Shape {
    Shape::Unit { path: path(&["X", "A"], false) }
}

#[test]
fn unit_constructor_is_its_path() {
    let mut stream = TokenStream::new();
    add_unit_constructor_body(&mut stream, &["X", "A"]);
    assert_eq!(stream.to_string(), "X :: A");
    assert_eq!(trees(stream), vec!["X", ":", ":", "A"]);
}

#[test]
fn path_of_one_segment_has_no_colons() {
    let mut stream = TokenStream::new();
    add_unit_constructor_body(&mut stream, &["Alone"]);
    assert_eq!(trees(stream), vec!["Alone"]);
}

#[test]
fn names_beyond_ascii_are_written() {
    let mut stream = TokenStream::new();
    add_named_constructor_body(
        &mut stream,
        &["\u{c9}t\u{e9}", "_"],
        vec![("\u{3b1}", 1u8.to_tokens()), ("_x1", 2u8.to_tokens())],
    );
    assert_eq!(
        trees(stream),
        vec!["\u{c9}t\u{e9}", ":", ":", "_", "{ \u{3b1} : 1u8 , _x1 : 2u8 , }"]
    );
}

#[test]
fn unnamed_constructor_ends_every_value_with_a_comma() {
    let mut stream = TokenStream::new();
    add_unnamed_constructor_body(&mut stream, &["X", "B"], vec![1u8.to_tokens()]);
    assert_eq!(stream.to_string(), in_source("X::B(1u8,)"));

    let mut stream = TokenStream::new();
    add_unnamed_constructor_body(
        &mut stream,
        &["P"],
        vec![2u8.to_tokens(), 1u8.to_tokens(), 3u8.to_tokens()],
    );
    assert_eq!(stream.to_string(), in_source("P(2u8, 1u8, 3u8,)"));
}

#[test]
fn unnamed_constructor_without_values() {
    let mut stream = TokenStream::new();
    add_unnamed_constructor_body(&mut stream, &["Empty"], Vec::new());
    assert_eq!(stream.to_string(), in_source("Empty()"));
}

#[test]
fn named_constructor_keeps_the_order_given() {
    let mut stream = TokenStream::new();
    add_named_constructor_body(
        &mut stream,
        &["X", "C"],
        vec![("m", false.to_tokens()), ("n", 45i32.to_tokens())],
    );
    assert_eq!(stream.to_string(), in_source("X::C { m: false, n: 45i32, }"));

    let mut swapped = TokenStream::new();
    add_named_constructor_body(
        &mut swapped,
        &["X", "C"],
        vec![("n", 45i32.to_tokens()), ("m", false.to_tokens())],
    );
    assert_eq!(swapped.to_string(), in_source("X::C { n: 45i32, m: false, }"));
}

#[test]
fn named_constructor_without_fields() {
    let mut stream = TokenStream::new();
    add_named_constructor_body(&mut stream, &["Empty"], Vec::new());
    assert_eq!(stream.to_string(), in_source("Empty {}"));
}

#[test]
fn constructor_follows_what_the_stream_holds() {
    let mut stream = 1u8.to_tokens();
    add_unit_constructor_body(&mut stream, &["X"]);
    add_unnamed_constructor_body(&mut stream, &["Y"], vec![2u8.to_tokens()]);
    assert_eq!(trees(stream), vec!["1u8", "X", "Y", "(2u8 ,)"]);
}

#[test]
fn value_of_several_tokens_is_spliced_in() {
    let mut stream = TokenStream::new();
    add_unnamed_constructor_body(
        &mut stream,
        &["W"],
        vec![(-1i8).to_tokens(), Box::new(2u8).to_tokens()],
    );
    assert_eq!(stream.to_string(), in_source("W(-1i8, Box::new(2u8),)"));
}

#[test]
fn attribute_names() {
    assert_eq!(marker("panic_on_self_tokenize"), Some(Marker::Suppress));
    assert_eq!(marker("self_tokenize_field"), Some(Marker::ForwardField));
    assert_eq!(marker("derive"), None);
    assert_eq!(marker(""), None);
    assert_eq!(marker("panic_on_self_tokenize "), None);
}

#[test]
fn no_marker_selects_the_default() {
    assert_eq!(resolve(&record(&["a", "b"]), &[]), Ok(Strategy::Default));
    assert_eq!(resolve(&unit(), &[]), Ok(Strategy::Default));
}

#[test]
fn suppress_wins_over_forwarding() {
    let markers = [Attribute::ForwardField(named("a")), Attribute::Suppress];
    assert_eq!(resolve(&record(&["a"]), &markers), Ok(Strategy::Suppress));
    let markers = [Attribute::Suppress, Attribute::ForwardField(named("a"))];
    assert_eq!(resolve(&record(&["a"]), &markers), Ok(Strategy::Suppress));
}

#[test]
fn suppress_wins_over_a_missing_member() {
    let markers = [Attribute::ForwardField(named("missing")), Attribute::Suppress];
    assert_eq!(resolve(&record(&["a"]), &markers), Ok(Strategy::Suppress));
}

#[test]
fn forwarding_to_a_field_by_name() {
    let markers = [Attribute::ForwardField(named("b"))];
    assert_eq!(
        resolve(&record(&["a", "b", "c"]), &markers),
        Ok(Strategy::ForwardField(named("b")))
    );
}

#[test]
fn forwarding_to_a_field_by_position() {
    let markers = [Attribute::ForwardField(Member::Unnamed(1))];
    assert_eq!(resolve(&pair(), &markers), Ok(Strategy::ForwardField(Member::Unnamed(1))));
}

#[test]
fn first_forward_marker_decides() {
    let markers = [Attribute::ForwardField(named("b")), Attribute::ForwardField(named("a"))];
    assert_eq!(
        resolve(&record(&["a", "b"]), &markers),
        Ok(Strategy::ForwardField(named("b")))
    );
    let markers = [Attribute::ForwardField(named("zz")), Attribute::ForwardField(named("a"))];
    assert_eq!(
        resolve(&record(&["a", "b"]), &markers),
        Err(ConfigError::MissingMember(named("zz")))
    );
}

#[test]
fn forwarding_to_a_missing_member_fails() {
    let markers = [Attribute::ForwardField(named("d"))];
    assert_eq!(
        resolve(&record(&["a", "b", "c"]), &markers),
        Err(ConfigError::MissingMember(named("d")))
    );
    let markers = [Attribute::ForwardField(Member::Unnamed(2))];
    assert_eq!(resolve(&pair(), &markers), Err(ConfigError::MissingMember(Member::Unnamed(2))));
}

#[test]
fn member_of_the_other_kind_is_missing() {
    let markers = [Attribute::ForwardField(Member::Unnamed(0))];
    assert_eq!(
        resolve(&record(&["a"]), &markers),
        Err(ConfigError::MissingMember(Member::Unnamed(0)))
    );
    let markers = [Attribute::ForwardField(named("a"))];
    assert_eq!(resolve(&pair(), &markers), Err(ConfigError::MissingMember(named("a"))));
    let markers = [Attribute::ForwardField(named("a"))];
    assert_eq!(resolve(&unit(), &markers), Err(ConfigError::MissingMember(named("a"))));
}

#[test]
fn suppressed_field_suppresses_the_default() {
    let shape = Shape::Named {
        path: path(&["Record"], false),
        fields: vec![
            field(named("a"), Vec::new()),
            field(named("b"), vec![Attribute::Suppress]),
        ],
    };
    assert_eq!(resolve(&shape, &[]), Ok(Strategy::Suppress));
}

#[test]
fn forwarding_passes_by_a_suppressed_field() {
    let shape = Shape::Named {
        path: path(&["Record"], false),
        fields: vec![
            field(named("a"), Vec::new()),
            field(named("b"), vec![Attribute::Suppress]),
        ],
    };
    assert_eq!(
        resolve(&shape, &[Attribute::ForwardField(named("a"))]),
        Ok(Strategy::ForwardField(named("a")))
    );
    assert_eq!(
        resolve(&shape, &[Attribute::ForwardField(named("b"))]),
        Ok(Strategy::Suppress)
    );
}

#[test]
fn forward_marker_on_a_field_selects_nothing() {
    let shape = Shape::Named {
        path: path(&["Record"], false),
        fields: vec![field(named("a"), vec![Attribute::ForwardField(named("a"))])],
    };
    assert_eq!(resolve(&shape, &[]), Ok(Strategy::Default));
}

#[test]
fn searching_the_markers() {
    assert!(!has_suppress(&[]));
    assert!(has_suppress(&[Attribute::ForwardField(named("a")), Attribute::Suppress]));
    assert!(!has_suppress(&[Attribute::ForwardField(named("a"))]));
    assert_eq!(forwarded_member(&[]), None);
    assert_eq!(forwarded_member(&[Attribute::Suppress]), None);
    assert_eq!(
        forwarded_member(&[
            Attribute::Suppress,
            Attribute::ForwardField(named("x")),
            Attribute::ForwardField(named("y")),
        ]),
        Some(&named("x"))
    );
    assert!(!has_suppressed_field(&[]));
    assert!(!has_suppressed_field(&[field(named("a"), Vec::new())]));
    assert!(has_suppressed_field(&[
        field(named("a"), Vec::new()),
        field(named("b"), vec![Attribute::Suppress]),
    ]));
}

#[test]
fn position_of_a_member() {
    let shape = record(&["a", "b", "a"]);
    assert_eq!(shape.position(&named("a")), Some(0));
    assert_eq!(shape.position(&named("b")), Some(1));
    assert_eq!(shape.position(&named("c")), None);
    assert_eq!(shape.position(&Member::Unnamed(0)), None);
    assert_eq!(pair().position(&Member::Unnamed(1)), Some(1));
    assert_eq!(pair().position(&Member::Unnamed(2)), None);
    assert_eq!(unit().position(&named("a")), None);
    assert_eq!(shape.fields().len(), 3);
    assert_eq!(unit().fields().len(), 0);
    assert_eq!(unit().path().segments, vec!["X".to_string(), "A".to_string()]);
    assert_eq!(named("a").duplicate(), named("a"));
    assert_eq!(Member::Unnamed(4).duplicate(), Member::Unnamed(4));
}

#[test]
fn default_writes_the_constructor() {
    let mut stream = TokenStream::new();
    assert_eq!(builder::derive(&unit(), &Strategy::Default, Vec::new(), &mut stream), Ok(()));
    assert_eq!(stream.to_string(), in_source("X::A"));

    let mut stream = TokenStream::new();
    let values = vec![1u8.to_tokens(), "two".to_tokens()];
    assert_eq!(builder::derive(&pair(), &Strategy::Default, values, &mut stream), Ok(()));
    assert_eq!(stream.to_string(), in_source("Pair(1u8, \"two\",)"));

    let mut stream = TokenStream::new();
    let values = vec![false.to_tokens(), 45i32.to_tokens()];
    assert_eq!(
        builder::derive(&record(&["m", "n"]), &Strategy::Default, values, &mut stream),
        Ok(())
    );
    assert_eq!(stream.to_string(), in_source("Record { m: false, n: 45i32, }"));
}

#[test]
fn path_from_the_root_namespace() {
    let shape = Shape::Unit { path: path(&["krate", "X"], true) };
    let mut stream = TokenStream::new();
    assert_eq!(builder::derive(&shape, &Strategy::Default, Vec::new(), &mut stream), Ok(()));
    assert_eq!(stream.to_string(), in_source("::krate::X"));

    let shape = Shape::Unnamed {
        path: path(&["krate", "Y"], true),
        fields: vec![field(Member::Unnamed(0), Vec::new())],
    };
    let mut stream = TokenStream::new();
    assert_eq!(
        builder::derive(&shape, &Strategy::Default, vec![1u8.to_tokens()], &mut stream),
        Ok(())
    );
    assert_eq!(stream.to_string(), in_source("::krate::Y(1u8,)"));
}

#[test]
fn forwarding_writes_one_field_and_nothing_else() {
    let shape = record(&["a", "b", "c"]);
    let strategy = Strategy::ForwardField(named("c"));
    let values = vec!["ignored".to_tokens(), 7u8.to_tokens(), 200u32.to_tokens()];
    let mut stream = TokenStream::new();
    assert_eq!(builder::derive(&shape, &strategy, values, &mut stream), Ok(()));
    assert_eq!(stream.to_string(), 200u32.to_tokens().to_string());
    assert_eq!(trees(stream), vec!["200u32"]);

    let others = vec![Vec::<u8>::new().to_tokens(), ().to_tokens(), 200u32.to_tokens()];
    let mut stream = TokenStream::new();
    assert_eq!(builder::derive(&shape, &strategy, others, &mut stream), Ok(()));
    assert_eq!(trees(stream), vec!["200u32"]);
}

#[test]
fn suppressed_value_has_no_tokens() {
    let mut stream = 1u8.to_tokens();
    assert_eq!(
        builder::derive(&unit(), &Strategy::Suppress, Vec::new(), &mut stream),
        Err(DeriveError::Suppressed)
    );
    assert_eq!(
        builder::derive(&pair(), &Strategy::Suppress, vec![1u8.to_tokens()], &mut stream),
        Err(DeriveError::Suppressed)
    );
    assert_eq!(
        builder::derive(
            &record(&["a"]),
            &Strategy::Suppress,
            vec![2u8.to_tokens()],
            &mut stream
        ),
        Err(DeriveError::Suppressed)
    );
    assert_eq!(stream.to_string(), "1u8");
}

#[test]
fn wrong_number_of_values() {
    let mut stream = TokenStream::new();
    assert_eq!(
        builder::derive(&pair(), &Strategy::Default, vec![1u8.to_tokens()], &mut stream),
        Err(DeriveError::FieldCount { expected: 2, found: 1 })
    );
    assert_eq!(
        builder::derive(&unit(), &Strategy::Default, vec![1u8.to_tokens()], &mut stream),
        Err(DeriveError::FieldCount { expected: 0, found: 1 })
    );
    assert_eq!(
        builder::derive(
            &record(&["a"]),
            &Strategy::ForwardField(named("a")),
            Vec::new(),
            &mut stream
        ),
        Err(DeriveError::FieldCount { expected: 1, found: 0 })
    );
    assert!(stream.is_empty());
}

#[test]
fn forwarding_to_a_field_that_is_not_there() {
    let mut stream = TokenStream::new();
    assert_eq!(
        builder::derive(
            &record(&["a"]),
            &Strategy::ForwardField(named("b")),
            vec![1u8.to_tokens()],
            &mut stream
        ),
        Err(DeriveError::MissingMember(named("b")))
    );
    assert!(stream.is_empty());
}

#[test]
fn names_that_cannot_be_written() {
    let mut stream = 1u8.to_tokens();
    let no_path = Shape::Unit { path: path(&[], false) };
    assert_eq!(
        builder::derive(&no_path, &Strategy::Default, Vec::new(), &mut stream),
        Err(DeriveError::InvalidName)
    );
    let bad_segment = Shape::Unit { path: path(&["X", "not an ident"], false) };
    assert_eq!(
        builder::derive(&bad_segment, &Strategy::Default, Vec::new(), &mut stream),
        Err(DeriveError::InvalidName)
    );
    assert_eq!(
        builder::derive(&record(&["a", "1b"]), &Strategy::Default,
            vec![1u8.to_tokens(), 2u8.to_tokens()], &mut stream),
        Err(DeriveError::InvalidName)
    );
    let positional_in_named = Shape::Named {
        path: path(&["Record"], false),
        fields: vec![field(Member::Unnamed(0), Vec::new())],
    };
    assert_eq!(
        builder::derive(&positional_in_named, &Strategy::Default, vec![1u8.to_tokens()],
            &mut stream),
        Err(DeriveError::InvalidName)
    );
    assert_eq!(stream.to_string(), "1u8");
}

#[test]
fn shapes_that_can_be_written() {
    assert!(unit().has_valid_names());
    assert!(pair().has_valid_names());
    assert!(record(&["a", "_b", "c3"]).has_valid_names());
    assert!(record(&[]).has_valid_names());
    assert!(!record(&["a", "3c"]).has_valid_names());
    assert!(!record(&["r#type"]).has_valid_names());
    assert!(!Shape::Unit { path: path(&[], false) }.has_valid_names());
    assert!(!Shape::Unit { path: path(&["A", ""], false) }.has_valid_names());
    let positional_in_named = Shape::Named {
        path: path(&["Record"], false),
        fields: vec![field(Member::Unnamed(0), Vec::new())],
    };
    assert!(!positional_in_named.has_valid_names());
    let named_in_positional = Shape::Unnamed {
        path: path(&["Pair"], false),
        fields: vec![field(named("not an ident"), Vec::new())],
    };
    assert!(named_in_positional.has_valid_names());
}

#[test]
fn forwarding_needs_no_valid_names() {
    let shape = Shape::Named {
        path: path(&["not an ident"], false),
        fields: vec![field(named("a"), Vec::new())],
    };
    let mut stream = TokenStream::new();
    assert_eq!(
        builder::derive(
            &shape,
            &Strategy::ForwardField(named("a")),
            vec![5u8.to_tokens()],
            &mut stream
        ),
        Ok(())
    );
    assert_eq!(stream.to_string(), "5u8");
}

#[test]
fn resolve_then_derive() {
    let shape = record(&["m", "n"]);
    let strategy = resolve(&shape, &[]).unwrap();
    let mut stream = TokenStream::new();
    let values = vec![true.to_tokens(), vec![1u8, 2].to_tokens()];
    assert_eq!(builder::derive(&shape, &strategy, values, &mut stream), Ok(()));
    assert_eq!(stream.to_string(), in_source("Record { m: true, n: vec![1u8, 2u8], }"));

    let strategy = resolve(&shape, &[Attribute::Suppress]).unwrap();
    let mut stream = TokenStream::new();
    let values = vec![true.to_tokens(), vec![1u8, 2].to_tokens()];
    assert_eq!(
        builder::derive(&shape, &strategy, values, &mut stream),
        Err(DeriveError::Suppressed)
    );
}
