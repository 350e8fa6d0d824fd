use rust_i18n_derive::{
    localized_derive, Annotation, Arm, Body, Declaration, Diagnostic, Implementation, Payload,
    Variant,
};

fn path_text(path: &syn::Path) -> String {
    let mut text = String::new();
    for (position, segment) in path.segments.iter().enumerate() {
        if position > 0 || path.leading_colon.is_some() {
            text.push_str("::");
        }
        text.push_str(&segment.ident.to_string());
    }
    text
}

fn annotation(attribute: &syn::Attribute) -> Annotation {
    let payload = match &attribute.meta {
        syn::Meta::Path(_) => Payload::Absent,
        syn::Meta::NameValue(_) => Payload::Assigned,
        syn::Meta::List(list) => Payload::Arguments(list.tokens.to_string()),
    };
    Annotation { name: path_text(attribute.path()), payload }
}

fn declaration(source: &str) -> Declaration {
    let input: syn::DeriveInput = syn::parse_str(source).unwrap();
    let body = match &input.data {
        syn::Data::Enum(data) => Body::Enum(
            data.variants
                .iter()
                .map(|variant| Variant {
                    name: variant.ident.to_string(),
                    annotations: variant.attrs.iter().map(annotation).collect(),
                })
                .collect(),
        ),
        syn::Data::Struct(_) => Body::Struct,
        syn::Data::Union(_) => Body::Union,
    };
    Declaration { name: input.ident.to_string(), body }
}

fn attributes(source: &str) -> Vec<syn::Attribute> {
    let input: syn::DeriveInput = syn::parse_str(source).unwrap();
    match input.data {
        syn::Data::Enum(data) => {
            data.variants.into_iter().flat_map(|variant| variant.attrs).collect()
        }
        _ => Vec::new(),
    }
}

fn arm(variant: &str, key: &str) -> Arm {
    Arm { variant: variant.to_string(), key: key.to_string() }
}

#[test]
fn source_of_a_tagged_enum() {
    let source = r#"
        #[derive(Localized)]
        enum Message {
            #[tag("msg.hello")]
            Hello,
            /// Said on the way out.
            #[tag("msg.bye")]
            Bye { at: u64 },
            #[allow(dead_code)]
            #[tag("msg.count")]
            Count(usize),
        }
    "#;
    assert_eq!(
        localized_derive(&declaration(source)),
        Ok(Implementation {
            name: "Message".to_string(),
            arms: vec![arm("Hello", "msg.hello"), arm("Bye", "msg.bye"), arm("Count", "msg.count")],
        })
    );
}

#[test]
fn source_of_a_struct() {
    let outcome = localized_derive(&declaration("struct Point { x: i32, y: i32 }"));
    assert_eq!(outcome, Err(vec![Diagnostic::wrong_kind()]));
}

#[test]
fn source_of_a_union() {
    let outcome = localized_derive(&declaration("union Bits { a: u32, b: f32 }"));
    assert_eq!(outcome, Err(vec![Diagnostic::wrong_kind()]));
}

#[test]
fn source_with_every_kind_of_problem() {
    let source = r#"
        enum Message {
            #[tag("ok")]
            Fine,
            Bare,
            #[tag(123)]
            Number,
            #[tag]
            Word,
            #[tag = "assigned"]
            Assigned,
            #[doc = "not a tag"]
            #[tag("a", "b")]
            Two,
            #[tag()]
            Nothing,
            #[i18n::tag("elsewhere")]
            Elsewhere,
        }
    "#;
    let malformed = |variant: usize, annotation: usize, message: &str| {
        Diagnostic::MalformedAnnotation { variant, annotation, message: message.to_string() }
    };
    assert_eq!(
        localized_derive(&declaration(source)),
        Err(vec![
            Diagnostic::missing_annotation(1, "Bare"),
            malformed(2, 0, "expected string literal"),
            malformed(3, 0, "expected attribute arguments in parentheses: #[tag(...)]"),
            malformed(4, 0, "expected parentheses: #[tag(...)]"),
            malformed(5, 1, "unexpected token"),
            malformed(6, 0, "unexpected end of input, expected string literal"),
            Diagnostic::missing_annotation(7, "Elsewhere"),
        ])
    );
}

#[test]
fn is_tag_agrees_with_the_parsed_path() {
    let source = r#"
        enum Names {
            #[tag("a")] #[Tag("a")] #[tags("a")] #[i18n::tag("a")] #[::tag("a")] #[r#tag("a")]
            #[doc = "tag"] #[tag] #[tag = "a"] #[tag["a"]] #[tag{"a"}]
            Only,
        }
    "#;
    let attributes = attributes(source);
    assert_eq!(attributes.len(), 11);
    for attribute in &attributes {
        assert_eq!(
            annotation(attribute).is_tag(),
            attribute.path().is_ident("tag"),
            "path: {}",
            path_text(attribute.path())
        );
    }
}

#[test]
fn reading_agrees_with_parsing_the_arguments_in_place() {
    let source = r##"
        enum Forms {
            #[tag("plain.key")]
            #[tag("with \"escapes\"\t\u{e9}\\")]
            #[tag(r#"raw "key""#)]
            #[tag("suffixed"key)]
            #[tag["bracketed"]]
            #[tag{"braced"}]
            #[tag("line \
                   continued")]
            #[tag(123)]
            #[tag(1.5)]
            #[tag(b"bytes")]
            #[tag('c')]
            #[tag(true)]
            #[tag(key)]
            #[tag(-1)]
            #[tag(("nested"))]
            #[tag("a", "b")]
            #[tag("a" "b")]
            #[tag("trailing",)]
            #[tag()]
            #[tag]
            #[tag = "assigned"]
            #[tag = 5]
            #[other::path]
            #[::leading = 1]
            #[tag(concat!("a", "b"))]
            #[tag(key = "value")]
            Only,
        }
    "##;
    let attributes = attributes(source);
    assert_eq!(attributes.len(), 26);
    for attribute in &attributes {
        let expected = match attribute.parse_args::<syn::LitStr>() {
            Ok(literal) => Ok(literal.value()),
            Err(error) => Err(error.to_string()),
        };
        assert_eq!(annotation(attribute).read(), expected);
    }
}
