use proc_macro2::TokenStream;
use self_rust_tokenize::_private::{
    add_named_constructor_body, add_unit_constructor_body, add_unnamed_constructor_body,
};
use self_rust_tokenize::builder;
use self_rust_tokenize::resolve::resolve;
use self_rust_tokenize::shape::{Attribute, ConstructorPath, Field, Member, Shape, Strategy};
use self_rust_tokenize::SelfRustTokenize;

fn source_tokens(source: &str) -> String {
    source.parse::<TokenStream>().unwrap().to_string()
}

fn named_field(name: &str, declared_type: &str) -> Field {
    Field {
        identity: Member::Named(name.to_string()),
        declared_type: declared_type.to_string(),
        attributes: Vec::new(),
    }
}

fn positional_field(index: usize, declared_type: &str) -> Field {
    Field {
        identity: Member::Unnamed(index),
        declared_type: declared_type.to_string(),
        attributes: Vec::new(),
    }
}

fn path_of(segments: &[&str]) -> ConstructorPath {
    ConstructorPath {
        segments: segments.iter().map(|segment| segment.to_string()).collect(),
        leading_colons: false,
    }
}

#[test]
fn variant() {
    enum X {
        A,
        B(String),
        C { m: bool, n: i32 },
    }

    impl SelfRustTokenize for X {
        fn append_to_token_stream(&self, token_stream: &mut TokenStream) {
            match self {
                X::A => add_unit_constructor_body(token_stream, &["X", "A"]),
                X::B(text) => {
                    add_unnamed_constructor_body(token_stream, &["X", "B"], vec![text.to_tokens()])
                }
                X::C { m, n } => add_named_constructor_body(
                    token_stream,
                    &["X", "C"],
                    vec![("m", m.to_tokens()), ("n", n.to_tokens())],
                ),
            }
        }
    }

    assert_eq!(X::A.to_tokens().to_string(), source_tokens("X::A"));
    assert_eq!(
        X::B("Hello World".into()).to_tokens().to_string(),
        source_tokens("X::B(String::from(\"Hello World\"),)")
    );
    assert_eq!(
        X::C { m: false, n: 45 }.to_tokens().to_string(),
        source_tokens("X::C { m: false, n: 45i32, }")
    );
}

#[test]
fn self_tokenize_field() {
    #![allow(unused)]

    struct Wrapper1<T, U> {
        ignored_field: String,
        another_ignored_field: u32,
        actual_field: T,
        another: std::marker::PhantomData<U>,
    }

    impl<T: SelfRustTokenize, U> SelfRustTokenize for Wrapper1<T, U> {
        fn append_to_token_stream(&self, token_stream: &mut TokenStream) {
            self.actual_field.append_to_token_stream(token_stream);
        }
    }

    struct DoesNotImplementSelfRustTokenize;

    let w1: Wrapper1<u32, DoesNotImplementSelfRustTokenize> = Wrapper1 {
        ignored_field: Default::default(),
        another_ignored_field: Default::default(),
        actual_field: 200,
        another: Default::default(),
    };

    assert_eq!(w1.to_tokens().to_string(), source_tokens("200u32"));

    let shape = Shape::Named {
        path: path_of(&["Wrapper1"]),
        fields: vec![
            named_field("ignored_field", "String"),
            named_field("another_ignored_field", "u32"),
            named_field("actual_field", "T"),
            named_field("another", "std::marker::PhantomData<U>"),
        ],
    };
    let marker = Attribute::ForwardField(Member::Named("actual_field".to_string()));
    let strategy = resolve(&shape, &[marker]).unwrap();
    assert_eq!(
        strategy,
        Strategy::ForwardField(Member::Named("actual_field".to_string()))
    );
    let values = vec![
        w1.ignored_field.to_tokens(),
        w1.another_ignored_field.to_tokens(),
        w1.actual_field.to_tokens(),
        w1.another.to_tokens(),
    ];
    let mut derived = TokenStream::new();
    assert_eq!(builder::derive(&shape, &strategy, values, &mut derived), Ok(()));
    assert_eq!(derived.to_string(), source_tokens("200u32"));

    enum Wrapper2<T> {
        VariantOne,
        VariantTwo(String),
        Variant(T),
    }

    impl<T: SelfRustTokenize> SelfRustTokenize for Wrapper2<T> {
        fn append_to_token_stream(&self, token_stream: &mut TokenStream) {
            match self {
                Wrapper2::VariantOne => {
                    add_unit_constructor_body(token_stream, &["Wrapper2", "VariantOne"])
                }
                Wrapper2::VariantTwo(text) => add_unnamed_constructor_body(
                    token_stream,
                    &["Wrapper2", "VariantTwo"],
                    vec![text.to_tokens()],
                ),
                Wrapper2::Variant(value) => value.append_to_token_stream(token_stream),
            }
        }
    }

    let w2 = Wrapper2::Variant(100u32);
    assert_eq!(w2.to_tokens().to_string(), source_tokens("100u32"));

    let shape = Shape::Unnamed {
        path: path_of(&["Wrapper2", "Variant"]),
        fields: vec![positional_field(0, "T")],
    };
    let strategy = resolve(&shape, &[Attribute::ForwardField(Member::Unnamed(0))]).unwrap();
    let mut derived = TokenStream::new();
    assert_eq!(
        builder::derive(&shape, &strategy, vec![100u32.to_tokens()], &mut derived),
        Ok(())
    );
    assert_eq!(derived.to_string(), source_tokens("100u32"));
}
