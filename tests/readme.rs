use hackfn::{
    closure_params, deref_header, fn_target, forwarded_args, hackfn, parse_declaration, render,
    return_part, Delim, Tok,
};
use proc_macro2::{Delimiter, Spacing, TokenStream, TokenTree};

fn convert(ts: TokenStream, out: &mut Vec<Tok>) {
    for tt in ts {
        match tt {
            TokenTree::Ident(i) => out.push(Tok::Ident(i.to_string())),
            TokenTree::Punct(p) => out.push(Tok::Punct(p.as_char(), p.spacing() == Spacing::Joint)),
            TokenTree::Literal(l) => out.push(Tok::Literal(l.to_string())),
            TokenTree::Group(g) => {
                let mut inner = Vec::new();
                convert(g.stream(), &mut inner);
                let d = match g.delimiter() {
                    Delimiter::Parenthesis => Delim::Paren,
                    Delimiter::Brace => Delim::Brace,
                    Delimiter::Bracket => Delim::Bracket,
                    Delimiter::None => {
                        out.extend(inner);
                        continue;
                    }
                };
                out.push(Tok::Group(d, inner));
            }
        }
    }
}

fn toks(src: &str) -> Vec<Tok> {
    let mut out = Vec::new();
    convert(src.parse().unwrap(), &mut out);
    out
}

fn text(v: &Vec<Tok>) -> String {
    let chars = render(v, 0, v.len());
    let s: String = chars.into_iter().collect();
    s.parse::<TokenStream>().unwrap().to_string()
}

fn norm(src: &str) -> String {
    src.parse::<TokenStream>().unwrap().to_string()
}

#[test]
fn readme_main() {
    let input = toks("impl Plus { fn call(&self, other: u32) -> u32 { self.0 + other } }");
    let e = hackfn(&Vec::new(), &input).unwrap();
    assert_eq!(
        text(&e.forwarding_impl),
        norm("impl Plus { fn call(&self, other: u32) -> u32 { self.0 + other } }")
    );
    assert_eq!(
        text(&e.deref_impl),
        norm(
            "impl ::std::ops::Deref for Plus {
                type Target = dyn ::std::ops::Fn(u32) -> u32;
                #[allow(clippy::forget_non_drop, clippy::transmute_ptr_to_ptr)]
                fn deref(&self) -> &Self::Target {
                    let __this = ::std::mem::MaybeUninit:: < Self > ::uninit();
                    let __closure = move |other: u32| -> u32 {
                        Self::call(unsafe { & *__this.as_ptr() }, other)
                    };
                    let __layout_of_closure = ::std::alloc::Layout::for_value(&__closure);
                    fn __second< '__a, __T>(__first: &__T, __second: & '__a __T) -> & '__a __T {
                        __second
                    }
                    let __ret = __second(&__closure, unsafe { & *(self as *const Self as *const _) });
                    ::std::mem::forget(__closure);
                    assert_eq!(__layout_of_closure, ::std::alloc::Layout::new:: < Self > ());
                    unsafe { ::std::mem::transmute(__ret as &dyn ::std::ops::Fn(u32) -> u32) }
                }
            }"
        )
    );
    let d = parse_declaration(&input).unwrap();
    assert_eq!(text(&deref_header(&d)), norm("impl ::std::ops::Deref for Plus"));
    assert_eq!(text(&fn_target(&d)), norm("dyn ::std::ops::Fn(u32) -> u32"));
    assert_eq!(text(&closure_params(&d)), norm("other: u32"));
    assert_eq!(text(&forwarded_args(&d)), norm(", other"));
    assert_eq!(text(&return_part(&d)), norm("-> u32"));
    assert_eq!(d.method, "call");
    assert_eq!(d.params.len(), 1);
    assert_eq!(d.params[0].name, "other");
    assert_eq!(text(&d.body), norm("self.0 + other"));
}

#[test]
fn readme_main_accumulate_pairs() {
    let input = toks(
        "impl<T> AccumulatePairs<T> where T: Copy + Add<Output = T> {
            fn call(&self, first: T, second: T) {
                self.first.set(self.first.get() + first);
                self.second.set(self.second.get() + second);
            }
        }",
    );
    let d = parse_declaration(&input).unwrap();
    assert_eq!(text(&d.generics), norm("<T>"));
    assert_eq!(text(&d.self_ty), norm("AccumulatePairs<T>"));
    assert_eq!(text(&d.where_clause), norm("where T: Copy + Add<Output = T>"));
    assert!(d.ret_ty.is_none());
    let e = hackfn(&Vec::new(), &input).unwrap();
    assert_eq!(
        text(&deref_header(&d)),
        norm("impl<T> ::std::ops::Deref for AccumulatePairs<T> where T: Copy + Add<Output = T>")
    );
    assert_eq!(text(&fn_target(&d)), norm("dyn ::std::ops::Fn(T, T)"));
    assert_eq!(text(&closure_params(&d)), norm("first: T, second: T"));
    assert_eq!(text(&forwarded_args(&d)), norm(", first, second"));
    assert!(return_part(&d).is_empty());
    assert_eq!(
        text(&e.deref_impl),
        norm(
            "impl<T> ::std::ops::Deref for AccumulatePairs<T> where T: Copy + Add<Output = T> {
                type Target = dyn ::std::ops::Fn(T, T);
                #[allow(clippy::forget_non_drop, clippy::transmute_ptr_to_ptr)]
                fn deref(&self) -> &Self::Target {
                    let __this = ::std::mem::MaybeUninit:: < Self > ::uninit();
                    let __closure = move |first: T, second: T| {
                        Self::call(unsafe { & *__this.as_ptr() }, first, second)
                    };
                    let __layout_of_closure = ::std::alloc::Layout::for_value(&__closure);
                    fn __second< '__a, __T>(__first: &__T, __second: & '__a __T) -> & '__a __T {
                        __second
                    }
                    let __ret = __second(&__closure, unsafe { & *(self as *const Self as *const _) });
                    ::std::mem::forget(__closure);
                    assert_eq!(__layout_of_closure, ::std::alloc::Layout::new:: < Self > ());
                    unsafe { ::std::mem::transmute(__ret as &dyn ::std::ops::Fn(T, T)) }
                }
            }"
        )
    );
    assert_eq!(
        text(&e.forwarding_impl),
        norm(
            "impl<T> AccumulatePairs<T> where T: Copy + Add<Output = T> {
                fn call(&self, first: T, second: T) {
                    self.first.set(self.first.get() + first);
                    self.second.set(self.second.get() + second);
                }
            }"
        )
    );
}
