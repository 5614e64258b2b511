use hackfn::{
    closure_params, deref_header, fn_target, forwarded_args, hackfn, parse_declaration, render, Delim, ErrorKind, ParseError, Place, ReceiverIssue, Tok};
use proc_macro2::{Delimiter, Spacing, TokenStream, TokenTree};

fn convert(ts: TokenStream, out: &mut Vec<Tok>) {
    for tt in ts {
        match tt {
            TokenTree::Ident(i) => out.push(Tok::Ident(i.to_string())),
            TokenTree::Punct(p) => out.push(Tok::Punct(p.as_char(), p.spacing() == Spacing::Joint)),
            TokenTree::Literal(l) => out.push(Tok::Literal(l.to_string())),
            TokenTree::Group(g) => {
                let mut inner = Vec::new();
                convert(g.stream(), &mut inner);
                let d = match g.delimiter() {
                    Delimiter::Parenthesis => Delim::Paren,
                    Delimiter::Brace => Delim::Brace,
                    Delimiter::Bracket => Delim::Bracket,
                    Delimiter::None => {
                        out.extend(inner);
                        continue;
                    }
                };
                out.push(Tok::Group(d, inner));
            }
        }
    }
}

fn toks(src: &str) -> Vec<Tok> {
    let mut out = Vec::new();
    convert(src.parse().unwrap(), &mut out);
    out
}

fn text(v: &Vec<Tok>) -> String {
    let chars = render(v, 0, v.len());
    let s: String = chars.into_iter().collect();
    s.parse::<TokenStream>().unwrap().to_string()
}

fn norm(src: &str) -> String {
    src.parse::<TokenStream>().unwrap().to_string()
}


fn err(src: &str) -> ParseError {
    parse_declaration(&toks(src)).unwrap_err()
}

fn receiver_err(args: &str) -> ParseError {
    let e = err(&format!("impl S {{ fn f({}) {{}} }}", args));
    assert!(e.is_receiver_error());
    assert_eq!(e.place, Place::Arguments(2, 2));
    e
}

#[test]
fn constant_method_without_parameters() {
    let input = toks("impl K { pub fn get(&self) -> i32 { 7 } }");
    let d = parse_declaration(&input).unwrap();
    assert_eq!(text(&fn_target(&d)), norm("dyn ::std::ops::Fn() -> i32"));
    assert!(closure_params(&d).is_empty());
    assert!(forwarded_args(&d).is_empty());
    let e = hackfn(&Vec::new(), &input).unwrap();
    assert!(text(&e.deref_impl).contains(&norm("move | | -> i32 { Self::get(unsafe { & *__this.as_ptr() }) }")));
    assert_eq!(
        text(&e.forwarding_impl),
        norm("impl K { pub fn get(&self) -> i32 { 7 } }")
    );
}

#[test]
fn arguments_keep_their_order() {
    let input = toks("impl S { fn f(&self, c: u32, a: u8, b: Vec<(u16, u8)>) -> u64 { 0 } }");
    let e = parse_declaration(&input).unwrap();
    assert_eq!(text(&forwarded_args(&e)), norm(", c, a, b"));
    assert_eq!(text(&closure_params(&e)), norm("c: u32, a: u8, b: Vec<(u16, u8)>"));
    assert_eq!(text(&fn_target(&e)), norm("dyn ::std::ops::Fn(u32, u8, Vec<(u16, u8)>) -> u64"));
}

#[test]
fn generic_argument_types_keep_their_commas() {
    let d = parse_declaration(&toks(
        "impl S { fn f(&self, m: HashMap<K, V>, g: impl Fn(u8) -> u8) {} }",
    ))
    .unwrap();
    assert_eq!(d.params.len(), 2);
    assert_eq!(text(&d.params[0].ty), norm("HashMap<K, V>"));
    assert_eq!(text(&d.params[1].ty), norm("impl Fn(u8) -> u8"));
}

#[test]
fn mutable_receiver_is_rejected() {
    let e = receiver_err("&mut self, x: u32");
    assert_eq!(e.kind, ErrorKind::Receiver(ReceiverIssue::Mutable));
    assert_eq!(e.index, 1);
}

#[test]
fn owning_receivers_are_rejected() {
    assert_eq!(receiver_err("self").kind, ErrorKind::Receiver(ReceiverIssue::Owning));
    assert_eq!(receiver_err("mut self").kind, ErrorKind::Receiver(ReceiverIssue::Owning));
}

#[test]
fn missing_receiver_is_rejected() {
    assert_eq!(receiver_err("x: u32").kind, ErrorKind::Receiver(ReceiverIssue::Missing));
    assert_eq!(receiver_err("").kind, ErrorKind::Receiver(ReceiverIssue::Missing));
}

#[test]
fn other_receiver_forms_are_rejected() {
    assert_eq!(receiver_err("&'a self").kind, ErrorKind::Receiver(ReceiverIssue::Other));
    assert_eq!(receiver_err("self: &Self").kind, ErrorKind::Receiver(ReceiverIssue::Other));
}

#[test]
fn trailing_comma_is_accepted() {
    let with = parse_declaration(&toks("impl S { fn f(&self, x: u32, y: u8,) {} }")).unwrap();
    let without = parse_declaration(&toks("impl S { fn f(&self, x: u32, y: u8) {} }")).unwrap();
    assert_eq!(with.params.len(), 2);
    assert_eq!(with.params[1].name, without.params[1].name);
    assert_eq!(text(&with.params[1].ty), text(&without.params[1].ty));
    let only = parse_declaration(&toks("impl S { fn f(&self,) {} }")).unwrap();
    assert!(only.params.is_empty());
}

#[test]
fn expanding_twice_gives_the_same_parts() {
    let input = toks("impl S { fn f(&self, x: u32) -> u32 { x } }");
    let a = hackfn(&Vec::new(), &input).unwrap();
    let b = hackfn(&Vec::new(), &input).unwrap();
    assert_eq!(text(&a.forwarding_impl), text(&b.forwarding_impl));
    assert_eq!(text(&a.deref_impl), text(&b.deref_impl));
}

#[test]
fn attributes_and_visibility_are_kept() {
    let input = toks("#[doc = \"x\"] impl S { #[inline] pub(crate) fn f(&self) {} }");
    let e = hackfn(&Vec::new(), &input).unwrap();
    assert_eq!(
        text(&e.forwarding_impl),
        norm("#[doc = \"x\"] impl S { #[inline] pub(crate) fn f(&self) {} }")
    );
    let d = parse_declaration(&input).unwrap();
    assert_eq!(text(&deref_header(&d)), norm("#[doc = \"x\"] impl ::std::ops::Deref for S"));
}

#[test]
fn attribute_arguments_are_rejected() {
    let e = hackfn(&toks("x"), &toks("impl S { fn f(&self) {} }")).unwrap_err();
    assert_eq!(e.kind, ErrorKind::UnexpectedAttributeArguments);
    assert!(!e.is_receiver_error());
}

#[test]
fn grammar_errors() {
    let cases: Vec<(&str, ErrorKind, Place, usize)> = vec![
        ("struct S;", ErrorKind::ExpectedImpl, Place::Outer, 0),
        ("# x impl S { fn f(&self) {} }", ErrorKind::MalformedAttribute, Place::Outer, 1),
        ("#[1] impl S { fn f(&self) {} }", ErrorKind::MalformedAttribute, Place::Outer, 0),
        ("impl<T S { fn f(&self) {} }", ErrorKind::MalformedGenerics, Place::Outer, 1),
        ("impl<3> S { fn f(&self) {} }", ErrorKind::MalformedGenerics, Place::Outer, 1),
        ("impl { fn f(&self) {} }", ErrorKind::MalformedSelfType, Place::Outer, 1),
        ("impl 3 { fn f(&self) {} }", ErrorKind::MalformedSelfType, Place::Outer, 1),
        ("impl S", ErrorKind::ExpectedImplBody, Place::Outer, 2),
        ("impl S where T: X", ErrorKind::ExpectedImplBody, Place::Outer, 6),
        ("impl S where 1 { fn f(&self) {} }", ErrorKind::MalformedWhereClause, Place::Outer, 2),
        ("impl S { fn f(&self) {} } x", ErrorKind::UnexpectedToken, Place::Outer, 3),
        ("impl S { const X: u8 = 1; }", ErrorKind::ExpectedFn, Place::ImplBlock(2), 7),
        ("impl S { pub const fn f(&self) {} }", ErrorKind::MalformedVisibility, Place::ImplBlock(2), 0),
        ("impl S { fn self(&self) {} }", ErrorKind::ExpectedMethodName, Place::ImplBlock(2), 1),
        ("impl S { fn f<T>(&self) {} }", ErrorKind::ExpectedArguments, Place::ImplBlock(2), 2),
        ("impl S { fn f(&self) -> {} }", ErrorKind::MalformedReturnType, Place::ImplBlock(2), 5),
        ("impl S { fn f(&self) -> 3 {} }", ErrorKind::MalformedReturnType, Place::ImplBlock(2), 5),
        ("impl S { fn f(&self); }", ErrorKind::ExpectedMethodBody, Place::ImplBlock(2), 3),
        ("impl S { fn f(&self) {} fn g(&self) {} }", ErrorKind::UnexpectedToken, Place::ImplBlock(2), 4),
        ("impl S { fn f(&self x: u8) {} }", ErrorKind::ExpectedComma, Place::Arguments(2, 2), 2),
        ("impl S { fn f(&self, mut x: u8) {} }", ErrorKind::MalformedArgumentName, Place::Arguments(2, 2), 3),
        ("impl S { fn f(&self, x u8) {} }", ErrorKind::ExpectedColon, Place::Arguments(2, 2), 4),
        ("impl S { fn f(&self, x:) {} }", ErrorKind::MalformedArgumentType, Place::Arguments(2, 2), 5),
        ("impl S { fn f(&self, x: 3) {} }", ErrorKind::MalformedArgumentType, Place::Arguments(2, 2), 5),
    ];
    for (src, kind, place, index) in cases {
        let e = err(src);
        assert_eq!((e.kind, e.place, e.index), (kind, place, index), "{}", src);
        assert!(!e.is_receiver_error());
    }
}

#[test]
fn brace_type_macros_are_part_of_the_type() {
    let d = parse_declaration(&toks("impl m!{} { fn f(&self) -> n!{} { 1 } }")).unwrap();
    assert_eq!(text(&d.self_ty), norm("m!{}"));
    assert_eq!(text(d.ret_ty.as_ref().unwrap()), norm("n!{}"));
    assert_eq!(text(&d.body), norm("1"));
    let d = parse_declaration(&toks("impl<T> S<T> where m!{}: Copy { fn f(&self, x: p::q!{}) {} }")).unwrap();
    assert_eq!(text(&d.where_clause), norm("where m!{}: Copy"));
    assert_eq!(text(&d.params[0].ty), norm("p::q!{}"));
}

#[test]
fn never_type_is_followed_by_the_body() {
    let d = parse_declaration(&toks("impl S { fn f(&self) -> ! { loop {} } }")).unwrap();
    assert_eq!(text(d.ret_ty.as_ref().unwrap()), norm("!"));
    assert_eq!(text(&d.body), norm("loop {}"));
}

#[test]
fn fragments_are_judged_by_one_lexer() {
    let input = vec![
        Tok::Ident("impl".to_string()),
        Tok::Ident("m".to_string()),
        Tok::Punct('!', false),
        Tok::Literal("(/*ERROR*/)".to_string()),
        Tok::Group(Delim::Brace, toks("fn f(&self) {}")),
    ];
    let e = parse_declaration(&input).unwrap_err();
    assert_eq!((e.kind, e.place, e.index), (ErrorKind::MalformedSelfType, Place::Outer, 1));
}

#[test]
fn never_type_can_be_the_self_type() {
    let d = parse_declaration(&toks("impl ! { fn f(&self) {} }")).unwrap();
    assert_eq!(text(&d.self_ty), norm("!"));
    let d = parse_declaration(&toks("impl S { fn f(&self) -> r#m!{} { 2 } }")).unwrap();
    assert_eq!(text(d.ret_ty.as_ref().unwrap()), norm("r#m!{}"));
}
