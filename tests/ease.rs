use hyprzoom::{chars_of, parse_ease, resolve_ease, Ease, EaseError, EaseFamily, EaseMode};

fn ease(family: EaseFamily, mode: EaseMode) -> Ease {
    Ease { family, mode }
}

fn text(v: &[char]) -> String {
    v.iter().collect()
}

#[test]
fn descriptor_plain() {
    assert_eq!(
        parse_ease("quad:in").unwrap(),
        ease(EaseFamily::Quad, EaseMode::In)
    );
    assert_eq!(
        parse_ease("quad:out").unwrap(),
        ease(EaseFamily::Quad, EaseMode::Out)
    );
    assert_eq!(
        parse_ease("lin:inout").unwrap(),
        ease(EaseFamily::Linear, EaseMode::InOut)
    );
}

#[test]
fn descriptor_case_and_space_ignored() {
    assert_eq!(
        parse_ease("  QUAD:IN \n").unwrap(),
        ease(EaseFamily::Quad, EaseMode::In)
    );
    assert_eq!(
        parse_ease("Elastic:In_Out").unwrap(),
        ease(EaseFamily::Elastic, EaseMode::InOut)
    );
}

#[test]
fn descriptor_synonyms() {
    let cases = [
        ("back", EaseFamily::Back),
        ("ela", EaseFamily::Elastic),
        ("elastic", EaseFamily::Elastic),
        ("bounce", EaseFamily::Bounce),
        ("lin", EaseFamily::Linear),
        ("linear", EaseFamily::Linear),
        ("quad", EaseFamily::Quad),
        ("quadratic", EaseFamily::Quad),
        ("cube", EaseFamily::Cubic),
        ("cubic", EaseFamily::Cubic),
        ("quart", EaseFamily::Quart),
        ("quartic", EaseFamily::Quart),
        ("quint", EaseFamily::Quint),
        ("quintic", EaseFamily::Quint),
        ("exp", EaseFamily::Expo),
        ("expo", EaseFamily::Expo),
        ("exponential", EaseFamily::Expo),
        ("sin", EaseFamily::Sine),
        ("sine", EaseFamily::Sine),
        ("circ", EaseFamily::Circ),
        ("circle", EaseFamily::Circ),
        ("circular", EaseFamily::Circ),
    ];
    let quals = [
        ("i", EaseMode::In),
        ("in", EaseMode::In),
        ("o", EaseMode::Out),
        ("out", EaseMode::Out),
        ("io", EaseMode::InOut),
        ("inout", EaseMode::InOut),
        ("in_out", EaseMode::InOut),
    ];
    for (name, family) in cases {
        for (q, mode) in quals {
            let d = format!("{}:{}", name, q);
            assert_eq!(resolve_ease(&d).unwrap(), ease(family, mode), "{}", d);
        }
    }
}

#[test]
fn descriptor_missing_separator() {
    match parse_ease(" Quad ") {
        Err(EaseError::MissingSeparator(t)) => assert_eq!(text(&t), "quad"),
        other => panic!("unexpected: {:?}", other),
    }
}

#[test]
fn descriptor_unknown_family() {
    match parse_ease("smooth:in") {
        Err(EaseError::UnknownFamily(t)) => assert_eq!(text(&t), "smooth"),
        other => panic!("unexpected: {:?}", other),
    }
    // the family is looked at before the qualifier
    match parse_ease("smooth:sideways") {
        Err(EaseError::UnknownFamily(t)) => assert_eq!(text(&t), "smooth"),
        other => panic!("unexpected: {:?}", other),
    }
}

#[test]
fn descriptor_unknown_qualifier() {
    match parse_ease("quad:sideways") {
        Err(EaseError::UnknownQualifier(t)) => assert_eq!(text(&t), "sideways"),
        other => panic!("unexpected: {:?}", other),
    }
    // only the first colon separates
    match parse_ease("quad:in:out") {
        Err(EaseError::UnknownQualifier(t)) => assert_eq!(text(&t), "in:out"),
        other => panic!("unexpected: {:?}", other),
    }
    match parse_ease("quad:") {
        Err(EaseError::UnknownQualifier(t)) => assert_eq!(text(&t), ""),
        other => panic!("unexpected: {:?}", other),
    }
}

#[test]
fn resolve_does_not_normalize() {
    match resolve_ease("QUAD:IN") {
        Err(EaseError::UnknownFamily(t)) => assert_eq!(text(&t), "QUAD"),
        other => panic!("unexpected: {:?}", other),
    }
}

#[test]
fn chars_of_text() {
    assert_eq!(chars_of("zoé:1"), vec!['z', 'o', 'é', ':', '1']);
    assert_eq!(chars_of(""), Vec::<char>::new());
}
