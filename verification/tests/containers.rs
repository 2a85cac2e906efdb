use proc_macro2::TokenStream;
use self_rust_tokenize::containers::SmallVecItems;
use self_rust_tokenize::SelfRustTokenize;
use std::marker::PhantomData;

fn as_written(source: &str) -> String {
    source.parse::<TokenStream>().unwrap().to_string()
}

fn top_level(stream: TokenStream) -> Vec<String> {
    stream.into_iter().map(|tree| tree.to_string()).collect()
}

#[test]
fn boxes_are_rebuilt_by_value() {
    assert_eq!(Box::new(2i32).to_tokens().to_string(), as_written("Box::new(2i32)"));
    assert_eq!(
        Box::new(Box::new(true)).to_tokens().to_string(),
        as_written("Box::new(Box::new(true))")
    );
}

#[test]
fn options() {
    assert_eq!(Some(3u8).to_tokens().to_string(), as_written("Some(3u8)"));
    assert_eq!(None::<u8>.to_tokens().to_string(), as_written("None"));
    assert_eq!(
        Some(Some("x")).to_tokens().to_string(),
        as_written("Some(Some(\"x\"))")
    );
}

#[test]
fn owned_strings() {
    assert_eq!(
        String::from("Hello World").to_tokens().to_string(),
        as_written("String::from(\"Hello World\")")
    );
    assert_eq!(String::new().to_tokens().to_string(), as_written("String::from(\"\")"));
}

#[test]
fn phantom_data_has_no_value() {
    let marker: PhantomData<u32> = PhantomData;
    assert_eq!(
        marker.to_tokens().to_string(),
        as_written("::std::marker::PhantomData::default()")
    );
}

#[test]
fn unit_is_an_empty_group() {
    assert_eq!(().to_tokens().to_string(), "()");
    assert_eq!(top_level(().to_tokens()), vec!["()".to_string()]);
}

#[test]
fn empty_lists() {
    let none: Vec<u8> = Vec::new();
    assert_eq!(none.to_tokens().to_string(), as_written("vec![]"));
    let array: [u8; 0] = [];
    assert_eq!(array.to_tokens().to_string(), as_written("[]"));
    let slice: &[u8] = &[];
    assert_eq!(slice.to_tokens().to_string(), as_written("&[]"));
    assert_eq!(
        SmallVecItems::<u8>(&[]).to_tokens().to_string(),
        as_written("::smallvec::smallvec![]")
    );
}

#[test]
fn list_of_one_has_no_comma() {
    assert_eq!(vec![1u8].to_tokens().to_string(), as_written("vec![1u8]"));
    assert_eq!([1u8].to_tokens().to_string(), as_written("[1u8]"));
}

#[test]
fn lists_keep_order_and_length() {
    let values = vec![3u8, 1, 2, 1];
    let tokens = values.to_tokens();
    let mut trees = tokens.into_iter();
    assert_eq!(trees.next().unwrap().to_string(), "vec");
    assert_eq!(trees.next().unwrap().to_string(), "!");
    let inner = match trees.next().unwrap() {
        proc_macro2::TokenTree::Group(group) => group.stream(),
        other => panic!("no group: {}", other),
    };
    assert!(trees.next().is_none());
    assert_eq!(
        top_level(inner),
        vec!["3u8", ",", "1u8", ",", "2u8", ",", "1u8"]
    );
}

#[test]
fn arrays_hold_exactly_their_size() {
    let array = [10u16, 20, 30];
    let inner = match array.to_tokens().into_iter().next().unwrap() {
        proc_macro2::TokenTree::Group(group) => group.stream(),
        other => panic!("no group: {}", other),
    };
    assert_eq!(top_level(inner), vec!["10u16", ",", "20u16", ",", "30u16"]);
}

#[test]
fn unsized_slice_is_borrowed() {
    let values = [1i8, -2];
    let slice: &[i8] = &values;
    assert_eq!(
        <[i8] as SelfRustTokenize>::to_tokens(slice).to_string(),
        as_written("&[1i8, -2i8]")
    );
}

#[test]
fn nested_lists() {
    let nested = vec![vec![1u8, 2], vec![], vec![3]];
    assert_eq!(
        nested.to_tokens().to_string(),
        as_written("vec![vec![1u8, 2u8], vec![], vec![3u8]]")
    );
}

#[test]
fn tuple_of_one_keeps_its_comma() {
    assert_eq!((1u8,).to_tokens().to_string(), as_written("(1u8,)"));
    let inner = match (1u8,).to_tokens().into_iter().next().unwrap() {
        proc_macro2::TokenTree::Group(group) => group.stream(),
        other => panic!("no group: {}", other),
    };
    assert_eq!(top_level(inner), vec!["1u8", ","]);
}

#[test]
fn tuples_of_every_size() {
    assert_eq!((1u8, 2u8).to_tokens().to_string(), as_written("(1u8, 2u8,)"));
    assert_eq!(
        (1u8, "a", true).to_tokens().to_string(),
        as_written("(1u8, \"a\", true,)")
    );
    assert_eq!(
        (1u8, 2u8, 3u8, 4u8).to_tokens().to_string(),
        as_written("(1u8, 2u8, 3u8, 4u8,)")
    );
    assert_eq!(
        (1u8, 2u8, 3u8, 4u8, 5u8).to_tokens().to_string(),
        as_written("(1u8, 2u8, 3u8, 4u8, 5u8,)")
    );
    assert_eq!(
        (1u8, 2u8, 3u8, 4u8, 5u8, 6u8).to_tokens().to_string(),
        as_written("(1u8, 2u8, 3u8, 4u8, 5u8, 6u8,)")
    );
    assert_eq!(
        (1u8, 2u8, 3u8, 4u8, 5u8, 6u8, 7u8).to_tokens().to_string(),
        as_written("(1u8, 2u8, 3u8, 4u8, 5u8, 6u8, 7u8,)")
    );
    assert_eq!(
        (1u8, 2u8, 3u8, 4u8, 5u8, 6u8, 7u8, 8u8).to_tokens().to_string(),
        as_written("(1u8, 2u8, 3u8, 4u8, 5u8, 6u8, 7u8, 8u8,)")
    );
    assert_eq!(
        (1u8, 2u8, 3u8, 4u8, 5u8, 6u8, 7u8, 8u8, 9u8).to_tokens().to_string(),
        as_written("(1u8, 2u8, 3u8, 4u8, 5u8, 6u8, 7u8, 8u8, 9u8,)")
    );
    assert_eq!(
        (1u8, 2u8, 3u8, 4u8, 5u8, 6u8, 7u8, 8u8, 9u8, 10u8).to_tokens().to_string(),
        as_written("(1u8, 2u8, 3u8, 4u8, 5u8, 6u8, 7u8, 8u8, 9u8, 10u8,)")
    );
    assert_eq!(
        (1u8, 2u8, 3u8, 4u8, 5u8, 6u8, 7u8, 8u8, 9u8, 10u8, 11u8).to_tokens().to_string(),
        as_written("(1u8, 2u8, 3u8, 4u8, 5u8, 6u8, 7u8, 8u8, 9u8, 10u8, 11u8,)")
    );
    assert_eq!(
        (1u8, 2u8, 3u8, 4u8, 5u8, 6u8, 7u8, 8u8, 9u8, 10u8, 11u8, 12u8)
            .to_tokens()
            .to_string(),
        as_written("(1u8, 2u8, 3u8, 4u8, 5u8, 6u8, 7u8, 8u8, 9u8, 10u8, 11u8, 12u8,)")
    );
}

#[test]
fn tuple_keeps_the_order_of_its_values() {
    let inner = match ("b", "a", "c").to_tokens().into_iter().next().unwrap() {
        proc_macro2::TokenTree::Group(group) => group.stream(),
        other => panic!("no group: {}", other),
    };
    assert_eq!(
        top_level(inner),
        vec!["\"b\"", ",", "\"a\"", ",", "\"c\"", ","]
    );
}

#[test]
fn shared_and_mutable_references() {
    assert_eq!(SelfRustTokenize::to_tokens(&(&true)).to_string(), as_written("&true"));
    let mut value = 9u8;
    assert_eq!(
        SelfRustTokenize::to_tokens(&(&mut value)).to_string(),
        as_written("&mut 9u8")
    );
    let boxed = Box::new(1u8);
    assert_eq!(
        SelfRustTokenize::to_tokens(&(&boxed)).to_string(),
        as_written("&Box::new(1u8)")
    );
    assert_eq!(top_level(SelfRustTokenize::to_tokens(&(&7u8))), vec!["&", "7u8"]);
}
