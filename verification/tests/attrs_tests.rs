use premortem::attrs::parse::{
    derive_validate, expr_to_string, field_validation, parse_range_expr, parse_range_strings,
    parse_struct_validate_attr, parse_usize_expr, parse_validate_attr, parse_validator, Attr,
    AttrExpr, DeriveShape, FieldsShape, ItemSyntax, UnaryOp, ValidateItem, ValidatorContent,
};
use premortem::attrs::plan::{
    override_errors, plan_field, validator_check, CheckPlan, FieldPlan, IP_PATTERN,
};
use premortem::attrs::{
    check_typo_suggestion, is_validator_name, validate_validator_combination, FieldValidation,
    MessageOverride, ValidatorAttr,
};
use premortem::error::{ConfigError, ConfigErrors};

fn lit(n: &str) -> AttrExpr {
    AttrExpr::Int { digits: n.to_string(), text: n.to_string() }
}

fn range(a: Option<AttrExpr>, b: Option<AttrExpr>, inclusive: bool) -> AttrExpr {
    AttrExpr::Range { start: a.map(Box::new), end: b.map(Box::new), inclusive }
}

fn item(name: &str, content: Option<ValidatorContent>) -> ValidateItem {
    ValidateItem::Validator { name: name.to_string(), content }
}

#[test]
fn test_is_validator_name() {
    assert!(is_validator_name("non_empty"));
    assert!(is_validator_name("range"));
    assert!(is_validator_name("nested"));
    assert!(!is_validator_name("foobar"));
}

#[test]
fn validator_names_are_reported() {
    assert_eq!(ValidatorAttr::NonZero.name(), "non_zero");
    assert_eq!(ValidatorAttr::Each(Box::new(ValidatorAttr::Email)).name(), "each");
    assert!(ValidatorAttr::Skip.is_skip());
    assert!(!ValidatorAttr::Skip.is_nested());
    assert!(ValidatorAttr::Nested.is_nested());
}

#[test]
fn skip_stands_alone() {
    let r = validate_validator_combination(&[ValidatorAttr::Skip, ValidatorAttr::NonEmpty]);
    assert_eq!(r, Err("'skip' validator cannot be combined with other validators".to_string()));
    assert_eq!(validate_validator_combination(&[ValidatorAttr::Skip]), Ok(()));
}

#[test]
fn nested_names_the_first_incompatible_validator() {
    let r = validate_validator_combination(&[
        ValidatorAttr::Custom("f".to_string()),
        ValidatorAttr::Nested,
        ValidatorAttr::MinLength(3),
        ValidatorAttr::Email,
    ]);
    assert_eq!(
        r,
        Err("'nested' validator cannot be combined with 'min_length' validator".to_string())
    );
    let ok = validate_validator_combination(&[
        ValidatorAttr::Nested,
        ValidatorAttr::Custom("f".to_string()),
    ]);
    assert_eq!(ok, Ok(()));
}

#[test]
fn typo_suggestions() {
    assert_eq!(
        check_typo_suggestion("rang"),
        Some("unknown validator 'rang'; did you mean 'range'?".to_string())
    );
    assert_eq!(
        check_typo_suggestion("min_len"),
        Some("unknown validator 'min_len'; did you mean 'min_length'?".to_string())
    );
    assert_eq!(check_typo_suggestion("frobnicate"), None);
}

#[test]
fn usize_literals() {
    assert_eq!(parse_usize_expr(&lit("42")), Ok(42));
    assert_eq!(
        parse_usize_expr(&AttrExpr::Str("x".to_string())),
        Err("expected integer literal".to_string())
    );
    assert_eq!(
        parse_usize_expr(&lit("99999999999999999999999")),
        Err("number too large to fit in target type".to_string())
    );
}

#[test]
fn usize_ranges() {
    assert_eq!(parse_range_expr(&range(Some(lit("3")), Some(lit("100")), true)), Ok((3, 100)));
    assert_eq!(parse_range_expr(&range(Some(lit("3")), Some(lit("100")), false)), Ok((3, 99)));
    assert_eq!(parse_range_expr(&range(None, Some(lit("0")), false)), Ok((0, 0)));
    assert_eq!(
        parse_range_expr(&range(Some(lit("3")), None, true)),
        Err("range must have an end value".to_string())
    );
    assert_eq!(
        parse_range_expr(&lit("3")),
        Err("expected range expression like 1..=100".to_string())
    );
}

#[test]
fn numeric_ranges_as_text() {
    let neg = AttrExpr::Unary(UnaryOp::Neg, Box::new(lit("5")));
    assert_eq!(expr_to_string(&neg), Ok("-5".to_string()));
    assert_eq!(
        parse_range_strings(&range(Some(neg), Some(lit("10")), true)),
        Ok(("-5".to_string(), "10".to_string()))
    );
    assert_eq!(
        parse_range_strings(&range(None, Some(AttrExpr::Float("2.5".to_string())), true)),
        Ok(("0".to_string(), "2.5".to_string()))
    );
    assert_eq!(
        parse_range_strings(&range(Some(lit("1")), Some(lit("10")), false)),
        Err("range validator requires inclusive range (..=), not half-open (..)".to_string())
    );
    let not = AttrExpr::Unary(UnaryOp::Not, Box::new(lit("1")));
    assert_eq!(expr_to_string(&not), Err("unsupported unary operator".to_string()));
}

#[test]
fn validators_from_names() {
    let len = Some(ValidatorContent::SingleArg(range(Some(lit("3")), Some(lit("10")), true)));
    match parse_validator("length", &len) {
        Ok(ValidatorAttr::Length(3, 10)) => {}
        other => panic!("unexpected {:?}", other),
    }
    assert_eq!(
        parse_validator("email", &Some(ValidatorContent::NameValue("x".to_string()))).unwrap_err(),
        "email takes no arguments"
    );
    assert_eq!(
        parse_validator("min_length", &None).unwrap_err(),
        "min_length requires a single integer argument"
    );
    assert_eq!(parse_validator("nonzero", &None).unwrap_err(), "unknown validator 'nonzero'; did you mean 'non_zero'?");
    assert_eq!(parse_validator("bogus", &None).unwrap_err(), "unknown validator 'bogus'");
    let each = Some(ValidatorContent::NestedValidator(
        "min_length".to_string(),
        Some(Box::new(ValidatorContent::SingleArg(lit("2")))),
    ));
    match parse_validator("each", &each) {
        Ok(ValidatorAttr::Each(inner)) => match *inner {
            ValidatorAttr::MinLength(2) => {}
            other => panic!("unexpected {:?}", other),
        },
        other => panic!("unexpected {:?}", other),
    }
    assert_eq!(
        parse_validator("each", &None).unwrap_err(),
        "each requires a validator argument like each(non_empty)"
    );
}

#[test]
fn items_from_syntax() {
    match ValidateItem::parse(ItemSyntax::Assign("message".to_string(), "m".to_string())) {
        Ok(ValidateItem::Message(m)) => assert_eq!(m, "m"),
        other => panic!("unexpected {:?}", other),
    }
    assert_eq!(
        ValidateItem::parse(ItemSyntax::Assign("foo".to_string(), "x".to_string())).unwrap_err(),
        "unexpected = syntax for 'foo'"
    );
    match ValidateItem::parse(ItemSyntax::CallIdent("each".to_string(), "non_empty".to_string(), None)) {
        Ok(ValidateItem::Validator { content: Some(ValidatorContent::NestedValidator(n, None)), .. }) => {
            assert_eq!(n, "non_empty")
        }
        other => panic!("unexpected {:?}", other),
    }
    match ValidateItem::parse(ItemSyntax::CallIdent("each".to_string(), "foo".to_string(), None)) {
        Ok(ValidateItem::Validator { content: Some(ValidatorContent::SingleArg(AttrExpr::Other)), .. }) => {}
        other => panic!("unexpected {:?}", other),
    }
}

#[test]
fn when_guards_the_validators_after_it() {
    let items = vec![
        item("non_empty", None),
        ValidateItem::When("self.enabled".to_string()),
        item("email", None),
        ValidateItem::Message("bad".to_string()),
    ];
    let (vs, msg) = parse_validate_attr(&items).unwrap();
    assert_eq!(vs.len(), 2);
    assert!(matches!(vs[0], ValidatorAttr::NonEmpty));
    match &vs[1] {
        ValidatorAttr::When(c, inner) => {
            assert_eq!(c, "self.enabled");
            assert!(matches!(**inner, ValidatorAttr::Email));
        }
        other => panic!("unexpected {:?}", other),
    }
    assert_eq!(msg.0, Some("bad".to_string()));
}

#[test]
fn struct_level_attributes() {
    let ok = parse_struct_validate_attr(&[item(
        "custom",
        Some(ValidatorContent::NameValue("check".to_string())),
    )])
    .unwrap();
    assert_eq!(ok.custom_fn, Some("check".to_string()));
    assert_eq!(
        parse_struct_validate_attr(&[item("range", None)]).unwrap_err(),
        "unknown struct-level validator 'range'; only 'custom' is supported"
    );
    assert_eq!(
        parse_struct_validate_attr(&[ValidateItem::Message("m".to_string())]).unwrap_err(),
        "message is not supported at struct level"
    );
}

#[test]
fn fields_and_derive_shapes() {
    let attrs = vec![
        Attr::Sensitive,
        Attr::Validate(vec![item("non_empty", None)]),
        Attr::Other,
        Attr::Validate(vec![ValidateItem::Message("required".to_string()), item("email", None)]),
    ];
    let fv = field_validation(&attrs).unwrap();
    assert!(fv.sensitive);
    assert_eq!(fv.validators.len(), 2);
    assert_eq!(fv.message.0, Some("required".to_string()));

    let bad = vec![Attr::Validate(vec![item("skip", None), item("email", None)])];
    assert_eq!(
        field_validation(&bad).unwrap_err(),
        "'skip' validator cannot be combined with other validators"
    );

    assert_eq!(
        derive_validate(&DeriveShape::Enum).unwrap_err(),
        "Validate can only be derived for structs, not enums"
    );
    let tuple = DeriveShape::Struct { attrs: vec![], fields: FieldsShape::Unnamed };
    assert_eq!(
        derive_validate(&tuple).unwrap_err(),
        "Validate does not support tuple structs; use named fields"
    );
    let shape = DeriveShape::Struct {
        attrs: vec![Attr::Validate(vec![item(
            "custom",
            Some(ValidatorContent::NameValue("cross".to_string())),
        )])],
        fields: FieldsShape::Named(vec![
            ("host".to_string(), vec![Attr::Validate(vec![item("non_empty", None)])]),
            ("port".to_string(), vec![]),
        ]),
    };
    let (sv, fields) = derive_validate(&shape).unwrap();
    assert_eq!(sv.custom_fn, Some("cross".to_string()));
    assert_eq!(fields.len(), 2);
    assert_eq!(fields[0].0, "host");
    assert_eq!(fields[1].1.validators.len(), 0);
}

#[test]
fn checks_of_a_field() {
    let fv = FieldValidation {
        validators: vec![
            ValidatorAttr::When("self.on".to_string(), Box::new(ValidatorAttr::Uuid)),
            ValidatorAttr::Ip,
            ValidatorAttr::Each(Box::new(ValidatorAttr::Email)),
        ],
        message: MessageOverride(None),
        sensitive: true,
    };
    match plan_field(&fv, false) {
        Some(FieldPlan::Checks(cs)) => {
            assert_eq!(cs.len(), 3);
            assert_eq!(cs[0].condition, None);
            match &cs[0].check {
                CheckPlan::Run { validator: ValidatorAttr::Pattern(p), message, sensitive } => {
                    assert_eq!(p, IP_PATTERN);
                    assert_eq!(message.as_deref(), Some("value is not a valid IP address"));
                    assert!(*sensitive);
                }
                other => panic!("unexpected {:?}", other),
            }
            match &cs[1].check {
                CheckPlan::Run { validator: ValidatorAttr::Each(inner), .. } => {
                    assert!(matches!(**inner, ValidatorAttr::Email))
                }
                other => panic!("unexpected {:?}", other),
            }
            assert_eq!(cs[2].condition, Some("self.on".to_string()));
        }
        other => panic!("unexpected {:?}", other),
    }
    let nested = FieldValidation {
        validators: vec![ValidatorAttr::Nested],
        message: MessageOverride(None),
        sensitive: false,
    };
    assert!(matches!(plan_field(&nested, true), Some(FieldPlan::Nested { optional: true })));
    let custom = validator_check(&ValidatorAttr::Custom("f".to_string()), &MessageOverride(None), false);
    assert!(matches!(custom, CheckPlan::Call(ref f) if f == "f"));
}

#[test]
fn message_override_and_redaction() {
    let errors = ConfigErrors::single(ConfigError::ValidationError {
        path: "password".to_string(),
        source_location: None,
        value: Some("hunter2".to_string()),
        message: "too short".to_string(),
    });
    let out = override_errors(errors, &MessageOverride(Some("bad password".to_string())), true);
    match &out.as_slice()[0] {
        ConfigError::ValidationError { value, message, .. } => {
            assert_eq!(*value, None);
            assert_eq!(message, "bad password");
        }
        other => panic!("unexpected {:?}", other),
    }
}

#[test]
fn names_tell_kinds_apart_and_only_when_is_not_a_validator_name() {
    let all = vec![
        ValidatorAttr::NonEmpty,
        ValidatorAttr::MinLength(1),
        ValidatorAttr::MaxLength(2),
        ValidatorAttr::Length(1, 2),
        ValidatorAttr::Pattern("x".to_string()),
        ValidatorAttr::Email,
        ValidatorAttr::Url,
        ValidatorAttr::Ip,
        ValidatorAttr::Uuid,
        ValidatorAttr::Range("1".to_string(), "2".to_string()),
        ValidatorAttr::Positive,
        ValidatorAttr::Negative,
        ValidatorAttr::NonZero,
        ValidatorAttr::FileExists,
        ValidatorAttr::DirExists,
        ValidatorAttr::ParentExists,
        ValidatorAttr::Extension("toml".to_string()),
        ValidatorAttr::Nested,
        ValidatorAttr::Each(Box::new(ValidatorAttr::Url)),
        ValidatorAttr::Skip,
        ValidatorAttr::Custom("f".to_string()),
        ValidatorAttr::When("c".to_string(), Box::new(ValidatorAttr::Email)),
    ];
    let mut names: Vec<&str> = all.iter().map(|v| v.name()).collect();
    for v in &all {
        assert_eq!(is_validator_name(v.name()), !matches!(v, ValidatorAttr::When(_, _)));
    }
    names.sort();
    names.dedup();
    assert_eq!(names.len(), all.len());
}
