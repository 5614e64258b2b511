//! What the attribute expands to: the method itself, in an impl block of its
//! own, and the parts of a `Deref` impl whose target is the callable type.
use vstd::prelude::*;
use crate::parse::{
    params_view, parse_attribute_args, parse_declaration, parse_spec, perr, result_view, DeclV,
    Declaration, ErrorKind, Param, ParamV, ParseError, Place,
};
use crate::token::{copy_range, lemma_view_all, lemma_view_all_ext, view_all, Delim, Tok, TokV};

verus! {

pub open spec fn word(w: Seq<char>) -> TokV {
    TokV::Ident(w)
}

pub open spec fn colons() -> Seq<TokV> {
    seq![TokV::Punct(':', true), TokV::Punct(':', false)]
}

/// The path `::std::ops::<last>`.
pub open spec fn std_ops(last: Seq<char>) -> Seq<TokV> {
    colons() + seq![word("std"@)] + colons() + seq![word("ops"@)] + colons() + seq![word(last)]
}

/// `-> Type` where the method returns a value; nothing where it does not.
pub open spec fn ret_part(r: Option<Seq<TokV>>) -> Seq<TokV> {
    match r {
        Some(t) => seq![TokV::Punct('-', true), TokV::Punct('>', false)] + t,
        None => Seq::empty(),
    }
}

/// `, name: Type` for each parameter, in order.
pub open spec fn params_sig(ps: Seq<ParamV>) -> Seq<TokV>
    decreases ps.len(),
{
    if ps.len() == 0 {
        Seq::empty()
    } else {
        params_sig(ps.drop_last()) + seq![
            TokV::Punct(',', false),
            word(ps.last().name),
            TokV::Punct(':', false),
        ] + ps.last().ty
    }
}

/// The items, with a comma between each two.
pub open spec fn joined(items: Seq<Seq<TokV>>) -> Seq<TokV>
    decreases items.len(),
{
    if items.len() == 0 {
        Seq::empty()
    } else if items.len() == 1 {
        items[0]
    } else {
        joined(items.drop_last()) + seq![TokV::Punct(',', false)] + items.last()
    }
}

/// One item of a parameter list: `name: Type` with the name, `Type` without.
pub open spec fn param_item(p: ParamV, with_names: bool) -> Seq<TokV> {
    if with_names {
        seq![word(p.name), TokV::Punct(':', false)] + p.ty
    } else {
        p.ty
    }
}

pub open spec fn items_of(ps: Seq<ParamV>, with_names: bool) -> Seq<Seq<TokV>> {
    Seq::new(ps.len(), |i: int| param_item(ps[i], with_names))
}

/// The method, unchanged, in an impl block with the input's attributes,
/// generics, type and where-clause.
pub open spec fn forwarding_impl_spec(d: DeclV) -> Seq<TokV> {
    d.outer_attrs + seq![word("impl"@)] + d.generics + d.self_ty + d.where_clause + seq![
        TokV::Group(
            Delim::Brace,
            d.fn_attrs + d.vis + seq![
                word("fn"@),
                word(d.method),
                TokV::Group(
                    Delim::Paren,
                    seq![TokV::Punct('&', false), word("self"@)] + params_sig(d.params),
                ),
            ] + ret_part(d.ret_ty) + seq![TokV::Group(Delim::Brace, d.body)],
        ),
    ]
}

/// The head of the `Deref` impl, up to its body:
/// `impl<..> ::std::ops::Deref for Type where ..`.
pub open spec fn deref_header_spec(d: DeclV) -> Seq<TokV> {
    d.outer_attrs + seq![word("impl"@)] + d.generics + std_ops("Deref"@) + seq![word("for"@)]
        + d.self_ty + d.where_clause
}

/// The callable type that `deref` hands out:
/// `dyn ::std::ops::Fn(Type, ..) -> Ret`.
pub open spec fn fn_target_spec(d: DeclV) -> Seq<TokV> {
    seq![word("dyn"@)] + std_ops("Fn"@) + seq![
        TokV::Group(Delim::Paren, joined(items_of(d.params, false))),
    ] + ret_part(d.ret_ty)
}

/// The closure's parameter list: `name: Type, ..`.
pub open spec fn closure_params_spec(d: DeclV) -> Seq<TokV> {
    joined(items_of(d.params, true))
}

/// The arguments that the closure hands on to the method: `, name` for each
/// parameter, in order.
pub open spec fn forwarded_args_spec(ps: Seq<ParamV>) -> Seq<TokV>
    decreases ps.len(),
{
    if ps.len() == 0 {
        Seq::empty()
    } else {
        forwarded_args_spec(ps.drop_last()) + seq![TokV::Punct(',', false), word(ps.last().name)]
    }
}

pub open spec fn pa(c: char) -> TokV {
    TokV::Punct(c, false)
}

pub open spec fn pj(c: char) -> TokV {
    TokV::Punct(c, true)
}

/// The path `::std::<module>::<last>`.
pub open spec fn std_path(module: Seq<char>, last: Seq<char>) -> Seq<TokV> {
    colons() + seq![word("std"@)] + colons() + seq![word(module)] + colons() + seq![word(last)]
}

/// `type Target = dyn ::std::ops::Fn(..) -> ..;`
pub open spec fn target_item_spec(d: DeclV) -> Seq<TokV> {
    seq![word("type"@), word("Target"@), pa('=')] + fn_target_spec(d) + seq![pa(';')]
}

/// `#[allow(clippy::forget_non_drop, clippy::transmute_ptr_to_ptr)]`
pub open spec fn allow_attr_spec() -> Seq<TokV> {
    seq![
        pa('#'),
        TokV::Group(
            Delim::Bracket,
            seq![
                word("allow"@),
                TokV::Group(
                    Delim::Paren,
                    seq![
                        word("clippy"@),
                        pj(':'),
                        pa(':'),
                        word("forget_non_drop"@),
                        pa(','),
                        word("clippy"@),
                        pj(':'),
                        pa(':'),
                        word("transmute_ptr_to_ptr"@),
                    ],
                ),
            ],
        ),
    ]
}

/// `fn deref(&self) -> &Self::Target`
pub open spec fn deref_sig_spec() -> Seq<TokV> {
    seq![
        word("fn"@),
        word("deref"@),
        TokV::Group(Delim::Paren, seq![pa('&'), word("self"@)]),
        pj('-'),
        pa('>'),
        pa('&'),
        word("Self"@),
        pj(':'),
        pa(':'),
        word("Target"@),
    ]
}

/// `let __this = ::std::mem::MaybeUninit::<Self>::uninit();`: storage of the
/// type's shape that is never written.
pub open spec fn let_this_spec() -> Seq<TokV> {
    seq![word("let"@), word("__this"@), pa('=')] + std_path("mem"@, "MaybeUninit"@) + seq![
        pj(':'),
        pa(':'),
        pa('<'),
        word("Self"@),
        pa('>'),
        pj(':'),
        pa(':'),
        word("uninit"@),
        TokV::Group(Delim::Paren, Seq::empty()),
        pa(';'),
    ]
}

/// The closure's body: `Self::method(unsafe { &*__this.as_ptr() }, args..)`.
pub open spec fn closure_call_spec(d: DeclV) -> Seq<TokV> {
    seq![
        word("Self"@),
        pj(':'),
        pa(':'),
        word(d.method),
        TokV::Group(
            Delim::Paren,
            seq![
                word("unsafe"@),
                TokV::Group(
                    Delim::Brace,
                    seq![
                        pa('&'),
                        pa('*'),
                        word("__this"@),
                        pa('.'),
                        word("as_ptr"@),
                        TokV::Group(Delim::Paren, Seq::empty()),
                    ],
                ),
            ] + forwarded_args_spec(d.params),
        ),
    ]
}

/// `let __closure = move |params| -> Ret { call };`
pub open spec fn let_closure_spec(d: DeclV) -> Seq<TokV> {
    seq![word("let"@), word("__closure"@), pa('='), word("move"@), pa('|')] + closure_params_spec(
        d,
    ) + seq![pa('|')] + ret_part(d.ret_ty) + seq![
        TokV::Group(Delim::Brace, closure_call_spec(d)),
        pa(';'),
    ]
}

/// `let __layout_of_closure = ::std::alloc::Layout::for_value(&__closure);`
pub open spec fn let_layout_spec() -> Seq<TokV> {
    seq![word("let"@), word("__layout_of_closure"@), pa('=')] + std_path("alloc"@, "Layout"@)
        + seq![
        pj(':'),
        pa(':'),
        word("for_value"@),
        TokV::Group(Delim::Paren, seq![pa('&'), word("__closure"@)]),
        pa(';'),
    ]
}

/// `fn __second<'__a, __T>(__first: &__T, __second: &'__a __T) -> &'__a __T { __second }`:
/// hands back its second argument with the lifetime of that argument.
pub open spec fn second_fn_spec() -> Seq<TokV> {
    seq![
        word("fn"@),
        word("__second"@),
        pa('<'),
        pj('\''),
        word("__a"@),
        pa(','),
        word("__T"@),
        pa('>'),
        TokV::Group(
            Delim::Paren,
            seq![
                word("__first"@),
                pa(':'),
                pa('&'),
                word("__T"@),
                pa(','),
                word("__second"@),
                pa(':'),
                pa('&'),
                pj('\''),
                word("__a"@),
                word("__T"@),
            ],
        ),
        pj('-'),
        pa('>'),
        pa('&'),
        pj('\''),
        word("__a"@),
        word("__T"@),
        TokV::Group(Delim::Brace, seq![word("__second"@)]),
    ]
}

/// `let __ret = __second(&__closure, unsafe { &*(self as *const Self as *const _) });`
pub open spec fn let_ret_spec() -> Seq<TokV> {
    seq![
        word("let"@),
        word("__ret"@),
        pa('='),
        word("__second"@),
        TokV::Group(
            Delim::Paren,
            seq![
                pa('&'),
                word("__closure"@),
                pa(','),
                word("unsafe"@),
                TokV::Group(
                    Delim::Brace,
                    seq![
                        pa('&'),
                        pa('*'),
                        TokV::Group(
                            Delim::Paren,
                            seq![
                                word("self"@),
                                word("as"@),
                                pa('*'),
                                word("const"@),
                                word("Self"@),
                                word("as"@),
                                pa('*'),
                                word("const"@),
                                word("_"@),
                            ],
                        ),
                    ],
                ),
            ],
        ),
        pa(';'),
    ]
}

/// `::std::mem::forget(__closure);`: the placeholder is leaked, never dropped.
pub open spec fn forget_spec() -> Seq<TokV> {
    std_path("mem"@, "forget"@) + seq![
        TokV::Group(Delim::Paren, seq![word("__closure"@)]),
        pa(';'),
    ]
}

/// `assert_eq!(__layout_of_closure, ::std::alloc::Layout::new::<Self>());`:
/// the program stops where the closure's layout differs from the type's.
pub open spec fn layout_check_spec() -> Seq<TokV> {
    seq![
        word("assert_eq"@),
        pa('!'),
        TokV::Group(
            Delim::Paren,
            seq![word("__layout_of_closure"@), pa(',')] + std_path("alloc"@, "Layout"@) + seq![
                pj(':'),
                pa(':'),
                word("new"@),
                pj(':'),
                pa(':'),
                pa('<'),
                word("Self"@),
                pa('>'),
                TokV::Group(Delim::Paren, Seq::empty()),
            ],
        ),
        pa(';'),
    ]
}

/// `unsafe { ::std::mem::transmute(__ret as &dyn ::std::ops::Fn(..) -> ..) }`
pub open spec fn transmute_spec(d: DeclV) -> Seq<TokV> {
    seq![
        word("unsafe"@),
        TokV::Group(
            Delim::Brace,
            std_path("mem"@, "transmute"@) + seq![
                TokV::Group(
                    Delim::Paren,
                    seq![word("__ret"@), word("as"@), pa('&')] + fn_target_spec(d),
                ),
            ],
        ),
    ]
}

/// The statements of `deref`.
pub open spec fn deref_body_spec(d: DeclV) -> Seq<TokV> {
    let_this_spec() + let_closure_spec(d) + let_layout_spec() + second_fn_spec() + let_ret_spec()
        + forget_spec() + layout_check_spec() + transmute_spec(d)
}

/// The `Deref` impl whose target is the callable type. It rests on a closure
/// that captures a value of the type by move having the same layout as the
/// type, which it checks each time `deref` runs.
pub open spec fn deref_impl_spec(d: DeclV) -> Seq<TokV> {
    deref_header_spec(d) + seq![
        TokV::Group(
            Delim::Brace,
            target_item_spec(d) + allow_attr_spec() + deref_sig_spec() + seq![
                TokV::Group(Delim::Brace, deref_body_spec(d)),
            ],
        ),
    ]
}

// ---- laws ----

/// The closure hands the parameters on in their declared order: after the
/// receiver come `, name` for the first parameter, then the second, and so on;
/// its own parameter list and the callable type list them in the same order.
pub proof fn lemma_arguments_in_declared_order(ps: Seq<ParamV>)
    ensures
        forwarded_args_spec(ps).len() == 2 * ps.len(),
        forall|i: int|
            0 <= i < ps.len() ==> forwarded_args_spec(ps)[2 * i] == TokV::Punct(',', false)
                && forwarded_args_spec(ps)[2 * i + 1] == word(#[trigger] ps[i].name),
        forall|i: int|
            0 <= i < ps.len() ==> #[trigger] items_of(ps, true)[i] == seq![
                word(ps[i].name),
                TokV::Punct(':', false),
            ] + ps[i].ty && items_of(ps, false)[i] == ps[i].ty,
    decreases ps.len(),
{
    if ps.len() > 0 {
        let q = ps.drop_last();
        lemma_arguments_in_declared_order(q);
        assert forall|i: int| 0 <= i < ps.len() implies forwarded_args_spec(ps)[2 * i] == TokV::Punct(
            ',',
            false,
        ) && forwarded_args_spec(ps)[2 * i + 1] == word(#[trigger] ps[i].name) by {
            if i < q.len() {
                assert(q[i] == ps[i]);
            }
        }
    }
}

/// Without parameters the closure takes no arguments and hands on none, and the
/// callable type is `dyn ::std::ops::Fn()` with the method's return type.
pub proof fn lemma_no_parameters(d: DeclV)
    requires
        d.params.len() == 0,
    ensures
        closure_params_spec(d) == Seq::<TokV>::empty(),
        forwarded_args_spec(d.params) == Seq::<TokV>::empty(),
        fn_target_spec(d) == seq![word("dyn"@)] + std_ops("Fn"@) + seq![
            TokV::Group(Delim::Paren, Seq::empty()),
        ] + ret_part(d.ret_ty),
{
    assert(items_of(d.params, true).len() == 0);
    assert(items_of(d.params, false).len() == 0);
}

// ---- building token lists ----

fn word_tok(w: &str) -> (r: Tok)
    ensures
        r.view() == word(w@),
{
    Tok::Ident(w.to_owned())
}

fn push_tok(out: &mut Vec<Tok>, t: Tok)
    ensures
        view_all(final(out)@) == view_all(old(out)@).push(t.view()),
{
    let ghost before = view_all(out@);
    proof {
        lemma_view_all(out@);
    }
    out.push(t);
    proof {
        lemma_view_all(out@);
        lemma_view_all_ext(out@, before.push(out@.last().view()));
    }
}

fn push_copies(out: &mut Vec<Tok>, src: &Vec<Tok>)
    ensures
        view_all(final(out)@) == view_all(old(out)@) + view_all(src@),
{
    let c = copy_range(src, 0, src.len());
    let ghost before = view_all(out@);
    proof {
        lemma_view_all(out@);
        lemma_view_all(src@);
        lemma_view_all(c@);
        assert(view_all(src@).subrange(0, src@.len() as int) =~= view_all(src@));
    }
    let mut c = c;
    out.append(&mut c);
    proof {
        lemma_view_all(out@);
        lemma_view_all_ext(out@, before + view_all(src@));
    }
}

fn push_colons(out: &mut Vec<Tok>)
    ensures
        view_all(final(out)@) == view_all(old(out)@) + colons(),
{
    let ghost before = view_all(out@);
    push_tok(out, Tok::Punct(':', true));
    push_tok(out, Tok::Punct(':', false));
    assert(view_all(out@) =~= before + colons());
}

fn push_std_ops(out: &mut Vec<Tok>, last: &str)
    ensures
        view_all(final(out)@) == view_all(old(out)@) + std_ops(last@),
{
    let ghost before = view_all(out@);
    push_colons(out);
    push_tok(out, word_tok("std"));
    push_colons(out);
    push_tok(out, word_tok("ops"));
    push_colons(out);
    push_tok(out, word_tok(last));
    assert(view_all(out@) =~= before + std_ops(last@));
}

fn push_ret(out: &mut Vec<Tok>, r: &Option<Vec<Tok>>)
    ensures
        view_all(final(out)@) == view_all(old(out)@) + ret_part(
            match r {
                Some(t) => Some(view_all(t@)),
                None => None,
            },
        ),
{
    let ghost before = view_all(out@);
    match r {
        Some(t) => {
            push_tok(out, Tok::Punct('-', true));
            push_tok(out, Tok::Punct('>', false));
            push_copies(out, t);
            assert(view_all(out@) =~= before + (seq![TokV::Punct('-', true), TokV::Punct('>', false)] + view_all(t@)));
        },
        None => {
            assert(view_all(out@) =~= before + Seq::<TokV>::empty());
        },
    }
}

fn push_params_sig(out: &mut Vec<Tok>, ps: &Vec<Param>)
    ensures
        view_all(final(out)@) == view_all(old(out)@) + params_sig(params_view(ps@)),
{
    let ghost before = view_all(out@);
    let ghost pv = params_view(ps@);
    let mut i: usize = 0;
    assert(pv.take(0) =~= Seq::<ParamV>::empty());
    assert(view_all(out@) =~= before + params_sig(pv.take(0)));
    while i < ps.len()
        invariant
            i <= ps@.len(),
            pv == params_view(ps@),
            view_all(out@) == before + params_sig(pv.take(i as int)),
        decreases ps@.len() - i,
    {
        let ghost mid = view_all(out@);
        push_tok(out, Tok::Punct(',', false));
        push_tok(out, Tok::Ident(ps[i].name.clone()));
        push_tok(out, Tok::Punct(':', false));
        push_copies(out, &ps[i].ty);
        assert(pv.take(i + 1).drop_last() =~= pv.take(i as int));
        assert(view_all(out@) =~= mid + (seq![
            TokV::Punct(',', false),
            word(pv[i as int].name),
            TokV::Punct(':', false),
        ] + pv[i as int].ty));
        i = i + 1;
    }
    assert(pv.take(ps@.len() as int) =~= pv);
}

fn push_forwarded_args(out: &mut Vec<Tok>, ps: &Vec<Param>)
    ensures
        view_all(final(out)@) == view_all(old(out)@) + forwarded_args_spec(params_view(ps@)),
{
    let ghost before = view_all(out@);
    let ghost pv = params_view(ps@);
    let mut i: usize = 0;
    assert(pv.take(0) =~= Seq::<ParamV>::empty());
    assert(view_all(out@) =~= before + forwarded_args_spec(pv.take(0)));
    while i < ps.len()
        invariant
            i <= ps@.len(),
            pv == params_view(ps@),
            view_all(out@) == before + forwarded_args_spec(pv.take(i as int)),
        decreases ps@.len() - i,
    {
        let ghost mid = view_all(out@);
        push_tok(out, Tok::Punct(',', false));
        push_tok(out, Tok::Ident(ps[i].name.clone()));
        assert(pv.take(i + 1).drop_last() =~= pv.take(i as int));
        assert(view_all(out@) =~= mid + seq![TokV::Punct(',', false), word(pv[i as int].name)]);
        i = i + 1;
    }
    assert(pv.take(ps@.len() as int) =~= pv);
}

/// The parameter types, or the closure's `name: Type` pairs, joined by commas.
fn push_joined(out: &mut Vec<Tok>, ps: &Vec<Param>, with_names: bool)
    ensures
        view_all(final(out)@) == view_all(old(out)@) + joined(items_of(params_view(ps@), with_names)),
{
    let ghost before = view_all(out@);
    let ghost items = items_of(params_view(ps@), with_names);
    let mut i: usize = 0;
    assert(items.take(0) =~= Seq::<Seq<TokV>>::empty());
    assert(view_all(out@) =~= before + joined(items.take(0)));
    while i < ps.len()
        invariant
            i <= ps@.len(),
            items.len() == ps@.len(),
            items == items_of(params_view(ps@), with_names),
            view_all(out@) == before + joined(items.take(i as int)),
        decreases ps@.len() - i,
    {
        let ghost mid = view_all(out@);
        if i > 0 {
            push_tok(out, Tok::Punct(',', false));
        }
        let ghost mid2 = view_all(out@);
        if with_names {
            push_tok(out, Tok::Ident(ps[i].name.clone()));
            push_tok(out, Tok::Punct(':', false));
        }
        push_copies(out, &ps[i].ty);
        assert(items.take(i + 1).drop_last() =~= items.take(i as int));
        assert(view_all(out@) =~= mid2 + items[i as int]);
        if i > 0 {
            assert(view_all(out@) =~= mid + seq![TokV::Punct(',', false)] + items[i as int]);
        } else {
            assert(items.take(1) =~= seq![items[0]]);
        }
        i = i + 1;
    }
    assert(items.take(ps@.len() as int) =~= items);
}


fn pw(out: &mut Vec<Tok>, w: &str)
    ensures
        view_all(final(out)@) == view_all(old(out)@).push(word(w@)),
{
    push_tok(out, word_tok(w));
}

fn pp(out: &mut Vec<Tok>, c: char, joint: bool)
    ensures
        view_all(final(out)@) == view_all(old(out)@).push(TokV::Punct(c, joint)),
{
    push_tok(out, Tok::Punct(c, joint));
}

fn pg(out: &mut Vec<Tok>, d: Delim, inner: Vec<Tok>)
    ensures
        view_all(final(out)@) == view_all(old(out)@).push(TokV::Group(d, view_all(inner@))),
{
    let ghost v = view_all(inner@);
    let t = Tok::Group(d, inner);
    assert(t.view() == TokV::Group(d, v));
    push_tok(out, t);
}

fn pstd(out: &mut Vec<Tok>, module: &str, last: &str)
    ensures
        view_all(final(out)@) == view_all(old(out)@) + std_path(module@, last@),
{
    let ghost before = view_all(out@);
    push_colons(out);
    pw(out, "std");
    push_colons(out);
    pw(out, module);
    push_colons(out);
    pw(out, last);
    assert(view_all(out@) =~= before + std_path(module@, last@));
}

fn target_item(out: &mut Vec<Tok>, d: &Declaration)
    ensures
        view_all(final(out)@) == view_all(old(out)@) + target_item_spec(d.view()),
{
    let ghost before = view_all(out@);
    let ghost dv = d.view();
    pw(out, "type");
    pw(out, "Target");
    pp(out, '=', false);
    let t = fn_target(d);
    push_copies(out, &t);
    pp(out, ';', false);
    assert(view_all(out@) =~= before + target_item_spec(dv));
}

fn allow_attr(out: &mut Vec<Tok>)
    ensures
        view_all(final(out)@) == view_all(old(out)@) + allow_attr_spec(),
{
    let ghost before = view_all(out@);
    pp(out, '#', false);
    let mut g0: Vec<Tok> = Vec::new();
    proof {
        lemma_view_all(g0@);
    }
    pw(&mut g0, "allow");
    let mut g1: Vec<Tok> = Vec::new();
    proof {
        lemma_view_all(g1@);
    }
    pw(&mut g1, "clippy");
    pp(&mut g1, ':', true);
    pp(&mut g1, ':', false);
    pw(&mut g1, "forget_non_drop");
    pp(&mut g1, ',', false);
    pw(&mut g1, "clippy");
    pp(&mut g1, ':', true);
    pp(&mut g1, ':', false);
    pw(&mut g1, "transmute_ptr_to_ptr");
    assert(view_all(g1@) =~= seq![word("clippy"@), pj(':'), pa(':'), word("forget_non_drop"@), pa(','), word("clippy"@), pj(':'), pa(':'), word("transmute_ptr_to_ptr"@)]);
    pg(&mut g0, Delim::Paren, g1);
    assert(view_all(g0@) =~= seq![word("allow"@), TokV::Group(Delim::Paren, seq![word("clippy"@), pj(':'), pa(':'), word("forget_non_drop"@), pa(','), word("clippy"@), pj(':'), pa(':'), word("transmute_ptr_to_ptr"@)])]);
    pg(out, Delim::Bracket, g0);
    assert(view_all(out@) =~= before + allow_attr_spec());
}

fn deref_sig(out: &mut Vec<Tok>)
    ensures
        view_all(final(out)@) == view_all(old(out)@) + deref_sig_spec(),
{
    let ghost before = view_all(out@);
    pw(out, "fn");
    pw(out, "deref");
    let mut g2: Vec<Tok> = Vec::new();
    proof {
        lemma_view_all(g2@);
    }
    pp(&mut g2, '&', false);
    pw(&mut g2, "self");
    assert(view_all(g2@) =~= seq![pa('&'), word("self"@)]);
    pg(out, Delim::Paren, g2);
    pp(out, '-', true);
    pp(out, '>', false);
    pp(out, '&', false);
    pw(out, "Self");
    pp(out, ':', true);
    pp(out, ':', false);
    pw(out, "Target");
    assert(view_all(out@) =~= before + deref_sig_spec());
}

fn let_this(out: &mut Vec<Tok>)
    ensures
        view_all(final(out)@) == view_all(old(out)@) + let_this_spec(),
{
    let ghost before = view_all(out@);
    pw(out, "let");
    pw(out, "__this");
    pp(out, '=', false);
    pstd(out, "mem", "MaybeUninit");
    pp(out, ':', true);
    pp(out, ':', false);
    pp(out, '<', false);
    pw(out, "Self");
    pp(out, '>', false);
    pp(out, ':', true);
    pp(out, ':', false);
    pw(out, "uninit");
    let mut g3: Vec<Tok> = Vec::new();
    proof {
        lemma_view_all(g3@);
    }
    assert(view_all(g3@) =~= Seq::<TokV>::empty());
    pg(out, Delim::Paren, g3);
    pp(out, ';', false);
    assert(view_all(out@) =~= before + let_this_spec());
}

fn closure_call(out: &mut Vec<Tok>, d: &Declaration)
    ensures
        view_all(final(out)@) == view_all(old(out)@) + closure_call_spec(d.view()),
{
    let ghost before = view_all(out@);
    let ghost dv = d.view();
    pw(out, "Self");
    pp(out, ':', true);
    pp(out, ':', false);
    push_tok(out, Tok::Ident(d.method.clone()));
    let mut g4: Vec<Tok> = Vec::new();
    proof {
        lemma_view_all(g4@);
    }
    pw(&mut g4, "unsafe");
    let mut g5: Vec<Tok> = Vec::new();
    proof {
        lemma_view_all(g5@);
    }
    pp(&mut g5, '&', false);
    pp(&mut g5, '*', false);
    pw(&mut g5, "__this");
    pp(&mut g5, '.', false);
    pw(&mut g5, "as_ptr");
    let mut g6: Vec<Tok> = Vec::new();
    proof {
        lemma_view_all(g6@);
    }
    assert(view_all(g6@) =~= Seq::<TokV>::empty());
    pg(&mut g5, Delim::Paren, g6);
    assert(view_all(g5@) =~= seq![pa('&'), pa('*'), word("__this"@), pa('.'), word("as_ptr"@), TokV::Group(Delim::Paren, Seq::<TokV>::empty())]);
    pg(&mut g4, Delim::Brace, g5);
    push_forwarded_args(&mut g4, &d.params);
    assert(view_all(g4@) =~= seq![word("unsafe"@), TokV::Group(Delim::Brace, seq![pa('&'), pa('*'), word("__this"@), pa('.'), word("as_ptr"@), TokV::Group(Delim::Paren, Seq::<TokV>::empty())])] + forwarded_args_spec(dv.params));
    pg(out, Delim::Paren, g4);
    assert(view_all(out@) =~= before + closure_call_spec(dv));
}

fn let_closure(out: &mut Vec<Tok>, d: &Declaration)
    ensures
        view_all(final(out)@) == view_all(old(out)@) + let_closure_spec(d.view()),
{
    let ghost before = view_all(out@);
    let ghost dv = d.view();
    pw(out, "let");
    pw(out, "__closure");
    pp(out, '=', false);
    pw(out, "move");
    pp(out, '|', false);
    let t = closure_params(d);
    push_copies(out, &t);
    pp(out, '|', false);
    push_ret(out, &d.ret_ty);
    let mut g7: Vec<Tok> = Vec::new();
    proof {
        lemma_view_all(g7@);
    }
    closure_call(&mut g7, d);
    assert(view_all(g7@) =~= closure_call_spec(dv));
    pg(out, Delim::Brace, g7);
    pp(out, ';', false);
    assert(view_all(out@) =~= before + let_closure_spec(dv));
}

fn let_layout(out: &mut Vec<Tok>)
    ensures
        view_all(final(out)@) == view_all(old(out)@) + let_layout_spec(),
{
    let ghost before = view_all(out@);
    pw(out, "let");
    pw(out, "__layout_of_closure");
    pp(out, '=', false);
    pstd(out, "alloc", "Layout");
    pp(out, ':', true);
    pp(out, ':', false);
    pw(out, "for_value");
    let mut g8: Vec<Tok> = Vec::new();
    proof {
        lemma_view_all(g8@);
    }
    pp(&mut g8, '&', false);
    pw(&mut g8, "__closure");
    assert(view_all(g8@) =~= seq![pa('&'), word("__closure"@)]);
    pg(out, Delim::Paren, g8);
    pp(out, ';', false);
    assert(view_all(out@) =~= before + let_layout_spec());
}

fn second_fn(out: &mut Vec<Tok>)
    ensures
        view_all(final(out)@) == view_all(old(out)@) + second_fn_spec(),
{
    let ghost before = view_all(out@);
    pw(out, "fn");
    pw(out, "__second");
    pp(out, '<', false);
    pp(out, '\'', true);
    pw(out, "__a");
    pp(out, ',', false);
    pw(out, "__T");
    pp(out, '>', false);
    let mut g9: Vec<Tok> = Vec::new();
    proof {
        lemma_view_all(g9@);
    }
    pw(&mut g9, "__first");
    pp(&mut g9, ':', false);
    pp(&mut g9, '&', false);
    pw(&mut g9, "__T");
    pp(&mut g9, ',', false);
    pw(&mut g9, "__second");
    pp(&mut g9, ':', false);
    pp(&mut g9, '&', false);
    pp(&mut g9, '\'', true);
    pw(&mut g9, "__a");
    pw(&mut g9, "__T");
    assert(view_all(g9@) =~= seq![word("__first"@), pa(':'), pa('&'), word("__T"@), pa(','), word("__second"@), pa(':'), pa('&'), pj('\''), word("__a"@), word("__T"@)]);
    pg(out, Delim::Paren, g9);
    pp(out, '-', true);
    pp(out, '>', false);
    pp(out, '&', false);
    pp(out, '\'', true);
    pw(out, "__a");
    pw(out, "__T");
    let mut g10: Vec<Tok> = Vec::new();
    proof {
        lemma_view_all(g10@);
    }
    pw(&mut g10, "__second");
    assert(view_all(g10@) =~= seq![word("__second"@)]);
    pg(out, Delim::Brace, g10);
    assert(view_all(out@) =~= before + second_fn_spec());
}

fn let_ret(out: &mut Vec<Tok>)
    ensures
        view_all(final(out)@) == view_all(old(out)@) + let_ret_spec(),
{
    let ghost before = view_all(out@);
    pw(out, "let");
    pw(out, "__ret");
    pp(out, '=', false);
    pw(out, "__second");
    let mut g11: Vec<Tok> = Vec::new();
    proof {
        lemma_view_all(g11@);
    }
    pp(&mut g11, '&', false);
    pw(&mut g11, "__closure");
    pp(&mut g11, ',', false);
    pw(&mut g11, "unsafe");
    let mut g12: Vec<Tok> = Vec::new();
    proof {
        lemma_view_all(g12@);
    }
    pp(&mut g12, '&', false);
    pp(&mut g12, '*', false);
    let mut g13: Vec<Tok> = Vec::new();
    proof {
        lemma_view_all(g13@);
    }
    pw(&mut g13, "self");
    pw(&mut g13, "as");
    pp(&mut g13, '*', false);
    pw(&mut g13, "const");
    pw(&mut g13, "Self");
    pw(&mut g13, "as");
    pp(&mut g13, '*', false);
    pw(&mut g13, "const");
    pw(&mut g13, "_");
    assert(view_all(g13@) =~= seq![word("self"@), word("as"@), pa('*'), word("const"@), word("Self"@), word("as"@), pa('*'), word("const"@), word("_"@)]);
    pg(&mut g12, Delim::Paren, g13);
    assert(view_all(g12@) =~= seq![pa('&'), pa('*'), TokV::Group(Delim::Paren, seq![word("self"@), word("as"@), pa('*'), word("const"@), word("Self"@), word("as"@), pa('*'), word("const"@), word("_"@)])]);
    pg(&mut g11, Delim::Brace, g12);
    assert(view_all(g11@) =~= seq![pa('&'), word("__closure"@), pa(','), word("unsafe"@), TokV::Group(Delim::Brace, seq![pa('&'), pa('*'), TokV::Group(Delim::Paren, seq![word("self"@), word("as"@), pa('*'), word("const"@), word("Self"@), word("as"@), pa('*'), word("const"@), word("_"@)])])]);
    pg(out, Delim::Paren, g11);
    pp(out, ';', false);
    assert(view_all(out@) =~= before + let_ret_spec());
}

fn forget_placeholder(out: &mut Vec<Tok>)
    ensures
        view_all(final(out)@) == view_all(old(out)@) + forget_spec(),
{
    let ghost before = view_all(out@);
    pstd(out, "mem", "forget");
    let mut g14: Vec<Tok> = Vec::new();
    proof {
        lemma_view_all(g14@);
    }
    pw(&mut g14, "__closure");
    assert(view_all(g14@) =~= seq![word("__closure"@)]);
    pg(out, Delim::Paren, g14);
    pp(out, ';', false);
    assert(view_all(out@) =~= before + forget_spec());
}

fn layout_check(out: &mut Vec<Tok>)
    ensures
        view_all(final(out)@) == view_all(old(out)@) + layout_check_spec(),
{
    let ghost before = view_all(out@);
    pw(out, "assert_eq");
    pp(out, '!', false);
    let mut g15: Vec<Tok> = Vec::new();
    proof {
        lemma_view_all(g15@);
    }
    pw(&mut g15, "__layout_of_closure");
    pp(&mut g15, ',', false);
    pstd(&mut g15, "alloc", "Layout");
    pp(&mut g15, ':', true);
    pp(&mut g15, ':', false);
    pw(&mut g15, "new");
    pp(&mut g15, ':', true);
    pp(&mut g15, ':', false);
    pp(&mut g15, '<', false);
    pw(&mut g15, "Self");
    pp(&mut g15, '>', false);
    let mut g16: Vec<Tok> = Vec::new();
    proof {
        lemma_view_all(g16@);
    }
    assert(view_all(g16@) =~= Seq::<TokV>::empty());
    pg(&mut g15, Delim::Paren, g16);
    assert(view_all(g15@) =~= seq![word("__layout_of_closure"@), pa(',')] + std_path("alloc"@, "Layout"@) + seq![pj(':'), pa(':'), word("new"@), pj(':'), pa(':'), pa('<'), word("Self"@), pa('>'), TokV::Group(Delim::Paren, Seq::<TokV>::empty())]);
    pg(out, Delim::Paren, g15);
    pp(out, ';', false);
    assert(view_all(out@) =~= before + layout_check_spec());
}

fn transmute_view(out: &mut Vec<Tok>, d: &Declaration)
    ensures
        view_all(final(out)@) == view_all(old(out)@) + transmute_spec(d.view()),
{
    let ghost before = view_all(out@);
    let ghost dv = d.view();
    pw(out, "unsafe");
    let mut g17: Vec<Tok> = Vec::new();
    proof {
        lemma_view_all(g17@);
    }
    pstd(&mut g17, "mem", "transmute");
    let mut g18: Vec<Tok> = Vec::new();
    proof {
        lemma_view_all(g18@);
    }
    pw(&mut g18, "__ret");
    pw(&mut g18, "as");
    pp(&mut g18, '&', false);
    let t = fn_target(d);
    push_copies(&mut g18, &t);
    assert(view_all(g18@) =~= seq![word("__ret"@), word("as"@), pa('&')] + fn_target_spec(dv));
    pg(&mut g17, Delim::Paren, g18);
    assert(view_all(g17@) =~= std_path("mem"@, "transmute"@) + seq![TokV::Group(Delim::Paren, seq![word("__ret"@), word("as"@), pa('&')] + fn_target_spec(dv))]);
    pg(out, Delim::Brace, g17);
    assert(view_all(out@) =~= before + transmute_spec(dv));
}

fn deref_body(out: &mut Vec<Tok>, d: &Declaration)
    ensures
        view_all(final(out)@) == view_all(old(out)@) + deref_body_spec(d.view()),
{
    let ghost before = view_all(out@);
    let ghost dv = d.view();
    let_this(out);
    let_closure(out, d);
    let_layout(out);
    second_fn(out);
    let_ret(out);
    forget_placeholder(out);
    layout_check(out);
    transmute_view(out, d);
    assert(view_all(out@) =~= before + deref_body_spec(dv));
}

/// The `Deref` impl that gives the type its callable view.
pub fn deref_impl(d: &Declaration) -> (r: Vec<Tok>)
    ensures
        view_all(r@) == deref_impl_spec(d.view()),
{
    let ghost dv = d.view();
    let mut body: Vec<Tok> = Vec::new();
    proof {
        lemma_view_all(body@);
    }
    deref_body(&mut body, d);
    assert(view_all(body@) =~= deref_body_spec(dv));
    let mut items: Vec<Tok> = Vec::new();
    proof {
        lemma_view_all(items@);
    }
    target_item(&mut items, d);
    allow_attr(&mut items);
    deref_sig(&mut items);
    pg(&mut items, Delim::Brace, body);
    assert(view_all(items@) =~= target_item_spec(dv) + allow_attr_spec() + deref_sig_spec() + seq![
        TokV::Group(Delim::Brace, deref_body_spec(dv)),
    ]);
    let mut out = deref_header(d);
    pg(&mut out, Delim::Brace, items);
    assert(view_all(out@) =~= deref_impl_spec(dv));
    out
}

/// The method itself, unchanged, in an impl block of its own.
pub fn forwarding_impl(d: &Declaration) -> (r: Vec<Tok>)
    ensures
        view_all(r@) == forwarding_impl_spec(d.view()),
{
    let ghost dv = d.view();
    let mut sig: Vec<Tok> = Vec::new();
    proof {
        lemma_view_all(sig@);
    }
    push_tok(&mut sig, Tok::Punct('&', false));
    push_tok(&mut sig, word_tok("self"));
    push_params_sig(&mut sig, &d.params);
    assert(view_all(sig@) =~= seq![TokV::Punct('&', false), word("self"@)] + params_sig(dv.params));
    let mut method: Vec<Tok> = Vec::new();
    proof {
        lemma_view_all(method@);
    }
    push_copies(&mut method, &d.fn_attrs);
    push_copies(&mut method, &d.vis);
    assert(view_all(method@) =~= dv.fn_attrs + dv.vis);
    push_tok(&mut method, word_tok("fn"));
    let name = d.method.clone();
    assert(name@ == dv.method);
    push_tok(&mut method, Tok::Ident(name));
    let ghost sig_v = view_all(sig@);
    let sig = Tok::Group(Delim::Paren, sig);
    assert(sig.view() == TokV::Group(Delim::Paren, sig_v));
    push_tok(&mut method, sig);
    let ghost head = view_all(method@);
    assert(head =~= dv.fn_attrs + dv.vis + seq![
        word("fn"@),
        word(dv.method),
        TokV::Group(
            Delim::Paren,
            seq![TokV::Punct('&', false), word("self"@)] + params_sig(dv.params),
        ),
    ]);
    push_ret(&mut method, &d.ret_ty);
    assert(view_all(method@) == head + ret_part(dv.ret_ty));
    let body = copy_range(&d.body, 0, d.body.len());
    proof {
        lemma_view_all(d.body@);
        assert(view_all(d.body@).subrange(0, d.body@.len() as int) =~= view_all(d.body@));
    }
    let body = Tok::Group(Delim::Brace, body);
    assert(body.view() == TokV::Group(Delim::Brace, dv.body));
    push_tok(&mut method, body);
    let ghost method_v = view_all(method@);
    assert(method_v =~= dv.fn_attrs + dv.vis + seq![
        word("fn"@),
        word(dv.method),
        TokV::Group(
            Delim::Paren,
            seq![TokV::Punct('&', false), word("self"@)] + params_sig(dv.params),
        ),
    ] + ret_part(dv.ret_ty) + seq![TokV::Group(Delim::Brace, dv.body)]);
    let method = Tok::Group(Delim::Brace, method);
    assert(method.view() == TokV::Group(Delim::Brace, method_v));
    let mut out: Vec<Tok> = Vec::new();
    proof {
        lemma_view_all(out@);
    }
    push_copies(&mut out, &d.outer_attrs);
    push_tok(&mut out, word_tok("impl"));
    push_copies(&mut out, &d.generics);
    push_copies(&mut out, &d.self_ty);
    push_copies(&mut out, &d.where_clause);
    push_tok(&mut out, method);
    assert(view_all(out@) =~= forwarding_impl_spec(dv));
    out
}

/// The head of the `Deref` impl that gives the type its callable view.
pub fn deref_header(d: &Declaration) -> (r: Vec<Tok>)
    ensures
        view_all(r@) == deref_header_spec(d.view()),
{
    let mut out: Vec<Tok> = Vec::new();
    proof {
        lemma_view_all(out@);
    }
    push_copies(&mut out, &d.outer_attrs);
    push_tok(&mut out, word_tok("impl"));
    push_copies(&mut out, &d.generics);
    push_std_ops(&mut out, "Deref");
    push_tok(&mut out, word_tok("for"));
    push_copies(&mut out, &d.self_ty);
    push_copies(&mut out, &d.where_clause);
    assert(view_all(out@) =~= deref_header_spec(d.view()));
    out
}

/// The callable type: `dyn ::std::ops::Fn(Type, ..) -> Ret`.
pub fn fn_target(d: &Declaration) -> (r: Vec<Tok>)
    ensures
        view_all(r@) == fn_target_spec(d.view()),
{
    let mut types: Vec<Tok> = Vec::new();
    proof {
        lemma_view_all(types@);
    }
    push_joined(&mut types, &d.params, false);
    let mut out: Vec<Tok> = Vec::new();
    proof {
        lemma_view_all(out@);
    }
    push_tok(&mut out, word_tok("dyn"));
    push_std_ops(&mut out, "Fn");
    let ghost types_v = view_all(types@);
    let types = Tok::Group(Delim::Paren, types);
    assert(types.view() == TokV::Group(Delim::Paren, types_v));
    push_tok(&mut out, types);
    push_ret(&mut out, &d.ret_ty);
    assert(view_all(out@) =~= fn_target_spec(d.view()));
    out
}

/// The closure's parameters: `name: Type, ..`.
pub fn closure_params(d: &Declaration) -> (r: Vec<Tok>)
    ensures
        view_all(r@) == closure_params_spec(d.view()),
{
    let mut out: Vec<Tok> = Vec::new();
    proof {
        lemma_view_all(out@);
    }
    push_joined(&mut out, &d.params, true);
    assert(view_all(out@) =~= closure_params_spec(d.view()));
    out
}

/// What the closure hands on after the receiver: `, name` for each parameter.
pub fn forwarded_args(d: &Declaration) -> (r: Vec<Tok>)
    ensures
        view_all(r@) == forwarded_args_spec(d.view().params),
{
    let mut out: Vec<Tok> = Vec::new();
    proof {
        lemma_view_all(out@);
    }
    push_forwarded_args(&mut out, &d.params);
    assert(view_all(out@) =~= forwarded_args_spec(d.view().params));
    out
}

/// The return arrow and type, or nothing.
pub fn return_part(d: &Declaration) -> (r: Vec<Tok>)
    ensures
        view_all(r@) == ret_part(d.view().ret_ty),
{
    let mut out: Vec<Tok> = Vec::new();
    proof {
        lemma_view_all(out@);
    }
    push_ret(&mut out, &d.ret_ty);
    assert(view_all(out@) =~= ret_part(d.view().ret_ty));
    out
}

/// The generated code for one declaration: the method in an impl block of
/// its own, and the `Deref` impl that makes a value of the type callable.
#[derive(Debug)]
pub struct Expansion {
    pub forwarding_impl: Vec<Tok>,
    pub deref_impl: Vec<Tok>,
}

/// Whether `e` holds the two items generated from `d`.
pub open spec fn expands(e: Expansion, d: DeclV) -> bool {
    &&& view_all(e.forwarding_impl@) == forwarding_impl_spec(d)
    &&& view_all(e.deref_impl@) == deref_impl_spec(d)
}

/// Generates both items from a parsed declaration; this cannot fail.
pub fn expand(d: &Declaration) -> (r: Expansion)
    ensures
        expands(r, d.view()),
{
    Expansion { forwarding_impl: forwarding_impl(d), deref_impl: deref_impl(d) }
}

/// The whole transformation: the attribute's own arguments must be empty, and
/// the input must parse; the result is then the expansion of what was parsed.
pub fn hackfn(args: &Vec<Tok>, input: &Vec<Tok>) -> (r: Result<Expansion, ParseError>)
    ensures
        args@.len() != 0 ==> r == Err::<Expansion, ParseError>(
            perr(ErrorKind::UnexpectedAttributeArguments, Place::Outer, 0),
        ),
        args@.len() == 0 ==> (r is Ok <==> parse_spec(view_all(input@)) is Ok),
        args@.len() == 0 && r is Err ==> parse_spec(view_all(input@)) == Err::<DeclV, ParseError>(
            r->Err_0,
        ),
        r is Ok ==> expands(r->Ok_0, parse_spec(view_all(input@))->Ok_0),
{
    match parse_attribute_args(args) {
        Err(e) => {
            return Err(e);
        },
        Ok(()) => {},
    }
    match parse_declaration(input) {
        Err(e) => Err(e),
        Ok(d) => Ok(expand(&d)),
    }
}

} // verus!
