use rust_i18n_derive::{collect, settle, Annotation, Arm, Diagnostic, Implementation, Payload, Variant};

fn arm(variant: &str, key: &str) -> Arm {
    Arm { variant: variant.to_string(), key: key.to_string() }
}

#[test]
fn only_the_single_identifier_is_the_tag() {
    let named = |name: &str| Annotation { name: name.to_string(), payload: Payload::Absent };
    assert!(named("tag").is_tag());
    assert!(!named("Tag").is_tag());
    assert!(!named("tags").is_tag());
    assert!(!named("ta").is_tag());
    assert!(!named("").is_tag());
    assert!(!named("::tag").is_tag());
    assert!(!named("i18n::tag").is_tag());
    assert!(!named("r#tag").is_tag());
}

#[test]
fn tag_position_is_that_of_the_first_tag() {
    let named = |name: &str| Annotation { name: name.to_string(), payload: Payload::Absent };
    let variant = |names: &[&str]| Variant {
        name: "V".to_string(),
        annotations: names.iter().map(|name| named(name)).collect(),
    };
    assert_eq!(variant(&[]).tag_position(), None);
    assert_eq!(variant(&["doc", "allow"]).tag_position(), None);
    assert_eq!(variant(&["tag"]).tag_position(), Some(0));
    assert_eq!(variant(&["doc", "tag", "tag"]).tag_position(), Some(1));
    assert_eq!(variant(&["doc", "allow", "cfg", "tag"]).tag_position(), Some(3));
}

#[test]
fn reading_gives_the_value_or_the_message() {
    let with = |payload: Payload| Annotation { name: "tag".to_string(), payload };
    assert_eq!(with(Payload::Arguments("\"a.key\"".to_string())).read(), Ok("a.key".to_string()));
    assert_eq!(
        with(Payload::Arguments("42".to_string())).read(),
        Err("expected string literal".to_string())
    );
    assert_eq!(
        with(Payload::Absent).read(),
        Err("expected attribute arguments in parentheses: #[tag(...)]".to_string())
    );
    assert_eq!(
        with(Payload::Assigned).read(),
        Err("expected parentheses: #[tag(...)]".to_string())
    );
}

#[test]
fn reading_failures_show_the_name_of_the_annotation() {
    let bare = Annotation { name: "i18n::tag".to_string(), payload: Payload::Absent };
    assert_eq!(
        bare.read(),
        Err("expected attribute arguments in parentheses: #[i18n::tag(...)]".to_string())
    );
    let assigned = Annotation { name: "key".to_string(), payload: Payload::Assigned };
    assert_eq!(assigned.read(), Err("expected parentheses: #[key(...)]".to_string()));
}

#[test]
fn settle_makes_an_arm_of_a_key() {
    assert_eq!(settle("Hello", 3, 1, Ok("msg.hello".to_string())), Ok(arm("Hello", "msg.hello")));
}

#[test]
fn settle_places_a_failure_at_the_annotation() {
    assert_eq!(
        settle("Hello", 3, 1, Err("expected string literal".to_string())),
        Err(Diagnostic::MalformedAnnotation {
            variant: 3,
            annotation: 1,
            message: "expected string literal".to_string(),
        })
    );
}

#[test]
fn examine_reports_a_missing_tag_at_the_variant() {
    let variant = Variant { name: "Bye".to_string(), annotations: vec![] };
    assert_eq!(
        variant.examine(5),
        Err(Diagnostic::MissingAnnotation {
            variant: 5,
            message: "Missing #[tag(\"...\")] for variant `Bye`".to_string(),
        })
    );
}

#[test]
fn examine_reads_the_tag() {
    let variant = Variant {
        name: "Bye".to_string(),
        annotations: vec![
            Annotation { name: "doc".to_string(), payload: Payload::Assigned },
            Annotation { name: "tag".to_string(), payload: Payload::Arguments("\"msg.bye\"".to_string()) },
        ],
    };
    assert_eq!(variant.examine(0), Ok(arm("Bye", "msg.bye")));
}

#[test]
fn collect_keeps_every_arm_when_nothing_is_wrong() {
    let verdicts = vec![Ok(arm("A", "a")), Ok(arm("B", "b")), Ok(arm("C", "c"))];
    assert_eq!(
        collect("E".to_string(), verdicts),
        Ok(Implementation {
            name: "E".to_string(),
            arms: vec![arm("A", "a"), arm("B", "b"), arm("C", "c")],
        })
    );
}

#[test]
fn collect_of_nothing_is_an_empty_implementation() {
    assert_eq!(
        collect("E".to_string(), vec![]),
        Ok(Implementation { name: "E".to_string(), arms: vec![] })
    );
}

#[test]
fn collect_returns_all_diagnostics_and_no_arm() {
    let first = Diagnostic::missing_annotation(0, "A");
    let second = Diagnostic::MalformedAnnotation {
        variant: 2,
        annotation: 0,
        message: "unexpected token".to_string(),
    };
    let verdicts =
        vec![Err(first.clone()), Ok(arm("B", "b")), Err(second.clone()), Ok(arm("D", "d"))];
    assert_eq!(collect("E".to_string(), verdicts), Err(vec![first, second]));
}

#[test]
fn diagnostics_carry_their_messages() {
    assert_eq!(Diagnostic::wrong_kind().message(), "Localized can only be derived for enums");
    assert_eq!(
        Diagnostic::missing_annotation(4, "Late").message(),
        "Missing #[tag(\"...\")] for variant `Late`"
    );
    assert_eq!(
        Diagnostic::missing_annotation(4, "Late"),
        Diagnostic::MissingAnnotation {
            variant: 4,
            message: "Missing #[tag(\"...\")] for variant `Late`".to_string(),
        }
    );
    let malformed = Diagnostic::MalformedAnnotation {
        variant: 1,
        annotation: 2,
        message: "expected string literal".to_string(),
    };
    assert_eq!(malformed.message(), "expected string literal");
}
