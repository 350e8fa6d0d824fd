use rust_i18n_derive::{
    localized_derive, Annotation, Body, Declaration, Localized, Payload, Variant,
};
use std::borrow::Cow;

enum Message {
    A,
    B,
}

fn translate(key: &'static str) -> Cow<'static, str> {
    match key {
        "a.key" => Cow::Borrowed("Hello"),
        "b.key" => Cow::Owned(format!("{} {}", "Good", "bye")),
        _ => Cow::Borrowed(key),
    }
}

impl Localized for Message {
    fn key(&self) -> &'static str {
        match self {
            Self::A => "a.key",
            Self::B => "b.key",
        }
    }

    fn localize(&self) -> Cow<'static, str> {
        translate(self.key())
    }
}

fn declared() -> Declaration {
    let tagged = |name: &str, tokens: &str| Variant {
        name: name.to_string(),
        annotations: vec![Annotation {
            name: "tag".to_string(),
            payload: Payload::Arguments(tokens.to_string()),
        }],
    };
    Declaration {
        name: "Message".to_string(),
        body: Body::Enum(vec![tagged("A", "\"a.key\""), tagged("B", "\"b.key\"")]),
    }
}

#[test]
fn an_implementation_written_from_the_arms_returns_their_keys() {
    let implementation = localized_derive(&declared()).unwrap();
    assert_eq!(implementation.name, "Message");
    assert_eq!(implementation.arms[0].variant, "A");
    assert_eq!(implementation.arms[1].variant, "B");
    assert_eq!(Some(Message::A.key()), implementation.key(0));
    assert_eq!(Some(Message::B.key()), implementation.key(1));
    assert_eq!(Message::A.key(), "a.key");
    assert_eq!(Message::B.key(), "b.key");
}

#[test]
fn localize_returns_what_the_translator_returns_for_the_key() {
    assert_eq!(Message::A.localize(), translate("a.key"));
    assert_eq!(Message::A.localize(), "Hello");
    assert!(matches!(Message::A.localize(), Cow::Borrowed(_)));
    assert_eq!(Message::B.localize(), "Good bye");
    assert!(matches!(Message::B.localize(), Cow::Owned(_)));
}

#[test]
fn the_interface_treats_all_annotated_enums_alike() {
    fn shown(items: &[&dyn Localized]) -> Vec<String> {
        items.iter().map(|item| format!("{}={}", item.key(), item.localize())).collect()
    }
    assert_eq!(shown(&[&Message::A, &Message::B]), vec!["a.key=Hello", "b.key=Good bye"]);
}
