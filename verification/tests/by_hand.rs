use self_rust_tokenize::helpers::{proc_macro2, QuoteToTokens, TokenStream, TokenStreamExt};
use self_rust_tokenize::SelfRustTokenize;

struct Meters(u32);

impl SelfRustTokenize for Meters {
    fn append_to_token_stream(&self, token_stream: &mut TokenStream) {
        token_stream.append(proc_macro2::Ident::new("Meters", proc_macro2::Span::call_site()));
        let mut inner = TokenStream::new();
        QuoteToTokens::to_tokens(&self.0, &mut inner);
        token_stream.append(proc_macro2::Group::new(proc_macro2::Delimiter::Parenthesis, inner));
    }
}

fn in_source_form(source: &str) -> String {
    source.parse::<TokenStream>().unwrap().to_string()
}

#[test]
fn implementation_by_hand() {
    assert_eq!(
        SelfRustTokenize::to_tokens(&Meters(5)).to_string(),
        in_source_form("Meters(5u32)")
    );
}

#[test]
fn implementation_by_hand_inside_containers() {
    assert_eq!(
        SelfRustTokenize::to_tokens(&vec![Meters(1), Meters(2)]).to_string(),
        in_source_form("vec![Meters(1u32), Meters(2u32)]")
    );
    assert_eq!(
        SelfRustTokenize::to_tokens(&Some(Box::new(Meters(3)))).to_string(),
        in_source_form("Some(Box::new(Meters(3u32)))")
    );
    assert_eq!(
        SelfRustTokenize::to_tokens(&(Meters(4), 1u8)).to_string(),
        in_source_form("(Meters(4u32), 1u8,)")
    );
}
