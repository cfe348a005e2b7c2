use consty::{derive_display, derive_into, derive_try_from, Annotation, ConstInit, Declaration, Fields, NamedConst, Shape, VariantDecl};

fn punctuation() -> Declaration {
    let variant = |name: &str, value: &str| VariantDecl {
        name: name.to_string(),
        fields: Fields::Unit,
        annotations: vec![Annotation::new("const_val", value)],
    };
    Declaration {
        name: "Punctuation".to_string(),
        shape: Shape::Enum,
        generic_params: 0,
        has_where_clause: false,
        annotations: vec![Annotation::new("const_ty", "char")],
        variants: vec![
            variant("Plus", "'+'"),
            variant("Minus", "'-'"),
            variant("Star", "'*'"),
            variant("Equals", "'='"),
        ],
    }
}

fn char_values(cs: &[NamedConst]) -> Vec<char> {
    cs.iter()
        .map(|c| match &c.init {
            ConstInit::Expr(text) => match syn::parse_str::<syn::LitChar>(text) {
                Ok(l) => l.value(),
                Err(_) => panic!("not a char literal"),
            },
            ConstInit::Cast { .. } => panic!("expected an explicit constant"),
        })
        .collect()
}

#[test]
fn try_from_sanity_check() {
    let code = derive_try_from(&punctuation()).unwrap();
    let vals = char_values(&code.constants);
    assert_eq!(code.run(&vals, '+'), Ok("Plus".to_string()));
    assert_eq!(code.run(&vals, '-'), Ok("Minus".to_string()));
    assert_eq!(code.run(&vals, '*'), Ok("Star".to_string()));
    assert_eq!(code.run(&vals, '='), Ok("Equals".to_string()));
    assert_eq!(code.run(&vals, '!'), Err('!'));
}

#[test]
fn into_sanity_check() {
    let code = derive_into(&punctuation()).unwrap();
    let vals = char_values(&code.constants);
    assert_eq!(code.run(&vals, &"Plus".to_string()), Some(&'+'));
    assert_eq!(code.run(&vals, &"Minus".to_string()), Some(&'-'));
    assert_eq!(code.run(&vals, &"Star".to_string()), Some(&'*'));
    assert_eq!(code.run(&vals, &"Equals".to_string()), Some(&'='));
}

#[test]
fn display_sanity_check() {
    let d = punctuation();
    let render = derive_display(&d).unwrap();
    let fwd = derive_into(&d).unwrap();
    let texts: Vec<String> = char_values(&fwd.constants).iter().map(|c| c.to_string()).collect();
    let show = |v: &str| render.run(&fwd, &texts, &v.to_string()).unwrap();
    assert_eq!(&show("Plus"), "+");
    assert_eq!(&show("Minus"), "-");
    assert_eq!(&show("Star"), "*");
    assert_eq!(&show("Equals"), "=");
}
