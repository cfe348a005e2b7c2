use consty::{
    derive_display, derive_into, derive_try_from, Annotation, ConstInit, Declaration, Fields,
    ForwardCode, NamedConst, Shape, VariantDecl,
};

fn enum_decl(name: &str, ty: &str, variants: &[(&str, &str)]) -> Declaration {
    Declaration {
        name: name.to_string(),
        shape: Shape::Enum,
        generic_params: 0,
        has_where_clause: false,
        annotations: vec![
            Annotation::new("derive", "Clone, Copy, Debug, Eq, PartialEq"),
            Annotation::new("const_ty", ty),
        ],
        variants: variants
            .iter()
            .map(|(n, v)| VariantDecl {
                name: n.to_string(),
                fields: Fields::Unit,
                annotations: vec![Annotation::new("const_val", v)],
            })
            .collect(),
    }
}

fn expr_of(c: &NamedConst) -> syn::Expr {
    match &c.init {
        ConstInit::Expr(text) => syn::parse_str(text).unwrap(),
        ConstInit::Cast { .. } => panic!("expected an explicit constant"),
    }
}

fn lit_of(c: &NamedConst) -> syn::Lit {
    match expr_of(c) {
        syn::Expr::Lit(l) => l.lit,
        _ => panic!("not a literal"),
    }
}

fn ints(e: &syn::Expr) -> Vec<i64> {
    match e {
        syn::Expr::Lit(l) => match &l.lit {
            syn::Lit::Int(i) => vec![i.base10_parse::<i64>().unwrap()],
            _ => panic!("not an integer"),
        },
        syn::Expr::Unary(u) => ints(&u.expr).into_iter().map(|x| -x).collect(),
        syn::Expr::Paren(p) => ints(&p.expr),
        syn::Expr::Array(a) => a.elems.iter().flat_map(ints).collect(),
        syn::Expr::Tuple(t) => t.elems.iter().flat_map(ints).collect(),
        syn::Expr::Repeat(r) => {
            let n = ints(&r.len)[0] as usize;
            let one = ints(&r.expr);
            (0..n).flat_map(|_| one.clone()).collect()
        }
        _ => panic!("unsupported constant"),
    }
}

fn char_values(cs: &[NamedConst]) -> Vec<char> {
    cs.iter()
        .map(|c| match lit_of(c) {
            syn::Lit::Char(ch) => ch.value(),
            _ => panic!("not a char"),
        })
        .collect()
}

fn u32_values(cs: &[NamedConst]) -> Vec<u32> {
    cs.iter()
        .map(|c| match lit_of(c) {
            syn::Lit::Int(i) => i.base10_parse::<u32>().unwrap(),
            _ => panic!("not an integer"),
        })
        .collect()
}

fn str_values(cs: &[NamedConst]) -> Vec<String> {
    cs.iter()
        .map(|c| match lit_of(c) {
            syn::Lit::Str(s) => s.value(),
            _ => panic!("not a string"),
        })
        .collect()
}

fn array_values(cs: &[NamedConst]) -> Vec<[u8; 3]> {
    cs.iter()
        .map(|c| {
            let v = ints(&expr_of(c));
            [v[0] as u8, v[1] as u8, v[2] as u8]
        })
        .collect()
}

fn tuple_values(cs: &[NamedConst]) -> Vec<(i32, i32)> {
    cs.iter()
        .map(|c| {
            let v = ints(&expr_of(c));
            (v[0] as i32, v[1] as i32)
        })
        .collect()
}

fn forward<'a, V>(code: &ForwardCode, vals: &'a Vec<V>, variant: &str) -> &'a V {
    code.run(vals, &variant.to_string()).unwrap()
}

fn display(d: &Declaration, texts_of: impl Fn(&[NamedConst]) -> Vec<String>, variant: &str) -> String {
    let render = derive_display(d).unwrap();
    let fwd = derive_into(d).unwrap();
    let texts = texts_of(&fwd.constants);
    render.run(&fwd, &texts, &variant.to_string()).unwrap()
}

/* --- char --- */

fn punctuation() -> Declaration {
    enum_decl(
        "Punctuation",
        "char",
        &[("Plus", "'+'"), ("Minus", "'-'"), ("Star", "'*'"), ("Equals", "'='")],
    )
}

#[test]
fn char_try_from() {
    let code = derive_try_from(&punctuation()).unwrap();
    let vals = char_values(&code.constants);
    assert_eq!(code.run(&vals, '+'), Ok("Plus".to_string()));
    assert_eq!(code.run(&vals, '-'), Ok("Minus".to_string()));
    assert_eq!(code.run(&vals, '*'), Ok("Star".to_string()));
    assert_eq!(code.run(&vals, '='), Ok("Equals".to_string()));
    assert_eq!(code.run(&vals, '!'), Err('!'));
}

#[test]
fn char_into() {
    let code = derive_into(&punctuation()).unwrap();
    let vals = char_values(&code.constants);
    assert_eq!(*forward(&code, &vals, "Plus"), '+');
    assert_eq!(*forward(&code, &vals, "Minus"), '-');
    assert_eq!(*forward(&code, &vals, "Star"), '*');
    assert_eq!(*forward(&code, &vals, "Equals"), '=');
}

#[test]
fn char_display() {
    let texts = |cs: &[NamedConst]| char_values(cs).iter().map(|c| c.to_string()).collect();
    assert_eq!(&display(&punctuation(), texts, "Plus"), "+");
    assert_eq!(&display(&punctuation(), texts, "Minus"), "-");
    assert_eq!(&display(&punctuation(), texts, "Star"), "*");
    assert_eq!(&display(&punctuation(), texts, "Equals"), "=");
}

/* --- u32 --- */

fn status_code() -> Declaration {
    enum_decl(
        "StatusCode",
        "u32",
        &[("Success", "200"), ("BadRequest", "400"), ("NotFound", "404"), ("ServerError", "500")],
    )
}

#[test]
fn u32_const_ty_try_from() {
    let code = derive_try_from(&status_code()).unwrap();
    let vals = u32_values(&code.constants);
    assert_eq!(code.run(&vals, 200), Ok("Success".to_string()));
    assert_eq!(code.run(&vals, 400), Ok("BadRequest".to_string()));
    assert_eq!(code.run(&vals, 404), Ok("NotFound".to_string()));
    assert_eq!(code.run(&vals, 500), Ok("ServerError".to_string()));
    assert_eq!(code.run(&vals, 999), Err(999));
}

#[test]
fn u32_const_ty_into() {
    let code = derive_into(&status_code()).unwrap();
    let vals = u32_values(&code.constants);
    assert_eq!(*forward(&code, &vals, "Success"), 200);
    assert_eq!(*forward(&code, &vals, "BadRequest"), 400);
    assert_eq!(*forward(&code, &vals, "NotFound"), 404);
    assert_eq!(*forward(&code, &vals, "ServerError"), 500);
}

#[test]
fn u32_const_ty_display() {
    let texts = |cs: &[NamedConst]| u32_values(cs).iter().map(|c| c.to_string()).collect();
    assert_eq!(&display(&status_code(), texts, "Success"), "200");
    assert_eq!(&display(&status_code(), texts, "BadRequest"), "400");
    assert_eq!(&display(&status_code(), texts, "NotFound"), "404");
    assert_eq!(&display(&status_code(), texts, "ServerError"), "500");
}

/* --- strings --- */

fn keyword() -> Declaration {
    enum_decl(
        "Keyword",
        "&'static str",
        &[("If", "\"if\""), ("Else", "\"else\""), ("For", "\"for\""), ("While", "\"while\"")],
    )
}

#[test]
fn str_try_from() {
    let code = derive_try_from(&keyword()).unwrap();
    let owned = str_values(&code.constants);
    let vals: Vec<&str> = owned.iter().map(|s| s.as_str()).collect();
    assert_eq!(code.run(&vals, "if"), Ok("If".to_string()));
    assert_eq!(code.run(&vals, "else"), Ok("Else".to_string()));
    assert_eq!(code.run(&vals, "for"), Ok("For".to_string()));
    assert_eq!(code.run(&vals, "while"), Ok("While".to_string()));
    assert_eq!(code.run(&vals, "bad"), Err("bad"));
}

#[test]
fn str_non_static_try_from() {
    let code = derive_try_from(&keyword()).unwrap();
    let owned = str_values(&code.constants);
    let vals: Vec<&str> = owned.iter().map(|s| s.as_str()).collect();
    let if_kw = "if".to_string();
    assert_eq!(code.run(&vals, &if_kw[..]), Ok("If".to_string()));
}

#[test]
fn str_into() {
    let code = derive_into(&keyword()).unwrap();
    let vals = str_values(&code.constants);
    assert_eq!(forward(&code, &vals, "If"), "if");
    assert_eq!(forward(&code, &vals, "Else"), "else");
    assert_eq!(forward(&code, &vals, "For"), "for");
    assert_eq!(forward(&code, &vals, "While"), "while");
}

#[test]
fn str_display() {
    assert_eq!(&display(&keyword(), str_values, "If"), "if");
    assert_eq!(&display(&keyword(), str_values, "Else"), "else");
    assert_eq!(&display(&keyword(), str_values, "For"), "for");
    assert_eq!(&display(&keyword(), str_values, "While"), "while");
}

/* --- arrays --- */

fn color() -> Declaration {
    enum_decl(
        "Color",
        "[u8; 3]",
        &[
            ("Black", "[0; 3]"),
            ("Red", "[150, 0, 0]"),
            ("Green", "[0, 150, 0]"),
            ("Blue", "[0, 0, 150]"),
            ("White", "[255; 3]"),
        ],
    )
}

#[test]
fn array_try_from() {
    let code = derive_try_from(&color()).unwrap();
    let vals = array_values(&code.constants);
    assert_eq!(code.run(&vals, [0, 0, 0]), Ok("Black".to_string()));
    assert_eq!(code.run(&vals, [150, 0, 0]), Ok("Red".to_string()));
    assert_eq!(code.run(&vals, [0, 150, 0]), Ok("Green".to_string()));
    assert_eq!(code.run(&vals, [0, 0, 150]), Ok("Blue".to_string()));
    assert_eq!(code.run(&vals, [255; 3]), Ok("White".to_string()));
    assert_eq!(code.run(&vals, [200, 140, 120]), Err([200, 140, 120]));
}

#[test]
fn array_into() {
    let code = derive_into(&color()).unwrap();
    let vals = array_values(&code.constants);
    assert_eq!(*forward(&code, &vals, "Black"), [0; 3]);
    assert_eq!(*forward(&code, &vals, "Red"), [150, 0, 0]);
    assert_eq!(*forward(&code, &vals, "Green"), [0, 150, 0]);
    assert_eq!(*forward(&code, &vals, "Blue"), [0, 0, 150]);
    assert_eq!(*forward(&code, &vals, "White"), [255; 3]);
}

/* --- tuples --- */

fn point() -> Declaration {
    enum_decl(
        "Point",
        "(i32, i32)",
        &[
            ("Origin", "(0, 0)"),
            ("Quad1", "(1, 1)"),
            ("Quad2", "(-1, 1)"),
            ("Quad3", "(-1, -1)"),
            ("Quad4", "(1, -1)"),
        ],
    )
}

#[test]
fn tuple_try_from() {
    let code = derive_try_from(&point()).unwrap();
    let vals = tuple_values(&code.constants);
    assert_eq!(code.run(&vals, (0, 0)), Ok("Origin".to_string()));
    assert_eq!(code.run(&vals, (1, 1)), Ok("Quad1".to_string()));
    assert_eq!(code.run(&vals, (-1, 1)), Ok("Quad2".to_string()));
    assert_eq!(code.run(&vals, (-1, -1)), Ok("Quad3".to_string()));
    assert_eq!(code.run(&vals, (1, -1)), Ok("Quad4".to_string()));
    assert_eq!(code.run(&vals, (7, 4)), Err((7, 4)));
}

#[test]
fn tuple_into() {
    let code = derive_into(&point()).unwrap();
    let vals = tuple_values(&code.constants);
    assert_eq!(*forward(&code, &vals, "Origin"), (0, 0));
    assert_eq!(*forward(&code, &vals, "Quad1"), (1, 1));
    assert_eq!(*forward(&code, &vals, "Quad2"), (-1, 1));
    assert_eq!(*forward(&code, &vals, "Quad3"), (-1, -1));
    assert_eq!(*forward(&code, &vals, "Quad4"), (1, -1));
}
