//! The grammar of the attribute's input:
//!
//! ```text
//! Decl  := OuterAttrs 'impl' Generics Type WhereClause? '{' Method '}'
//! Method:= OuterAttrs Vis 'fn' Ident '(' '&' 'self' (',' Param)* ','? ')' ('->' Type)? '{' Body '}'
//! Param := Ident ':' Type
//! ```
//!
//! The extent of each embedded fragment (a type, generics, a where-clause) is
//! found from the tokens at its own level; whether the fragment is well formed
//! is left to `syn`.
use vstd::prelude::*;
use crate::syntax::{
    is_generics, is_ident, is_outer_attrs, is_type, is_visibility, is_where_clause, syn_generics,
    syn_ident, syn_outer_attrs, syn_type, syn_visibility, syn_where_clause,
};
use crate::token::{copy_range, lemma_view_all, render, string_is, text, view_all, Delim, Tok, TokV};

verus! {

/// Why a receiver is not `&self`.
#[derive(PartialEq, Eq, Structural, Clone, Copy, Debug)]
pub enum ReceiverIssue {
    /// The argument list does not start with a receiver.
    Missing,
    /// `&mut self`.
    Mutable,
    /// `self` or `mut self`: the method would consume the value.
    Owning,
    /// Any other form (`&'a self`, `self: &Self`).
    Other,
}

/// What the parser expected and did not find.
#[derive(PartialEq, Eq, Structural, Clone, Copy, Debug)]
pub enum ErrorKind {
    UnexpectedAttributeArguments,
    MalformedAttribute,
    ExpectedImpl,
    MalformedGenerics,
    MalformedSelfType,
    MalformedWhereClause,
    ExpectedImplBody,
    MalformedVisibility,
    ExpectedFn,
    ExpectedMethodName,
    ExpectedArguments,
    Receiver(ReceiverIssue),
    ExpectedComma,
    MalformedArgumentName,
    ExpectedColon,
    MalformedArgumentType,
    MalformedReturnType,
    ExpectedMethodBody,
    UnexpectedToken,
}

/// The token list an error position refers to.
#[derive(PartialEq, Eq, Structural, Clone, Copy, Debug)]
pub enum Place {
    /// The input itself.
    Outer,
    /// The contents of the `impl` block, which is the input's tree at this index.
    ImplBlock(usize),
    /// The method's argument list: the impl block's index in the input, and the
    /// argument group's index in the impl block.
    Arguments(usize, usize),
}

/// A rejected input: what was wrong, and the index of the offending tree in the
/// list that `place` names (the list's length where it ended too early).
#[derive(PartialEq, Eq, Structural, Clone, Copy, Debug)]
pub struct ParseError {
    pub kind: ErrorKind,
    pub place: Place,
    pub index: usize,
}

impl ParseError {
    /// Whether the error is about the shape of the receiver.
    pub open spec fn is_receiver_shape(&self) -> bool {
        self.kind is Receiver
    }

    /// Whether the error is about the receiver; the rest are grammar errors.
    pub fn is_receiver_error(&self) -> (r: bool)
        ensures
            r == self.is_receiver_shape(),
    {
        match self.kind {
            ErrorKind::Receiver(_) => true,
            _ => false,
        }
    }
}

pub open spec fn perr(kind: ErrorKind, place: Place, index: int) -> ParseError {
    ParseError { kind, place, index: index as usize }
}

/// One parameter of the method.
#[derive(Debug)]
pub struct Param {
    pub name: String,
    pub ty: Vec<Tok>,
}

pub struct ParamV {
    pub name: Seq<char>,
    pub ty: Seq<TokV>,
}

impl Param {
    pub open spec fn view(&self) -> ParamV {
        ParamV { name: self.name@, ty: view_all(self.ty@) }
    }
}

pub open spec fn params_view(ps: Seq<Param>) -> Seq<ParamV> {
    Seq::new(ps.len(), |i: int| ps[i].view())
}

/// The parsed input: each part holds the input's own trees.
#[derive(Debug)]
pub struct Declaration {
    pub outer_attrs: Vec<Tok>,
    pub generics: Vec<Tok>,
    pub self_ty: Vec<Tok>,
    pub where_clause: Vec<Tok>,
    pub fn_attrs: Vec<Tok>,
    pub vis: Vec<Tok>,
    pub method: String,
    pub params: Vec<Param>,
    pub ret_ty: Option<Vec<Tok>>,
    pub body: Vec<Tok>,
}

pub struct DeclV {
    pub outer_attrs: Seq<TokV>,
    pub generics: Seq<TokV>,
    pub self_ty: Seq<TokV>,
    pub where_clause: Seq<TokV>,
    pub fn_attrs: Seq<TokV>,
    pub vis: Seq<TokV>,
    pub method: Seq<char>,
    pub params: Seq<ParamV>,
    pub ret_ty: Option<Seq<TokV>>,
    pub body: Seq<TokV>,
}

impl Declaration {
    pub open spec fn view(&self) -> DeclV {
        DeclV {
            outer_attrs: view_all(self.outer_attrs@),
            generics: view_all(self.generics@),
            self_ty: view_all(self.self_ty@),
            where_clause: view_all(self.where_clause@),
            fn_attrs: view_all(self.fn_attrs@),
            vis: view_all(self.vis@),
            method: self.method@,
            params: params_view(self.params@),
            ret_ty: match self.ret_ty {
                Some(t) => Some(view_all(t@)),
                None => None,
            },
            body: view_all(self.body@),
        }
    }
}

pub open spec fn result_view(r: Result<Declaration, ParseError>) -> Result<DeclV, ParseError> {
    match r {
        Ok(d) => Ok(d.view()),
        Err(e) => Err(e),
    }
}

// ---- tokens at one level ----

pub open spec fn is_punct(t: TokV, c: char) -> bool {
    match t {
        TokV::Punct(c2, _) => c2 == c,
        _ => false,
    }
}

pub open spec fn is_word(t: TokV, w: Seq<char>) -> bool {
    match t {
        TokV::Ident(s) => s == w,
        _ => false,
    }
}

pub open spec fn ident_text(t: TokV) -> Seq<char> {
    match t {
        TokV::Ident(s) => s,
        _ => Seq::empty(),
    }
}

pub open spec fn is_group(t: TokV, d: Delim) -> bool {
    match t {
        TokV::Group(d2, _) => d2 == d,
        _ => false,
    }
}

pub open spec fn inner_of(t: TokV) -> Seq<TokV> {
    match t {
        TokV::Group(_, s) => s,
        _ => Seq::empty(),
    }
}

/// How a `<` or `>` at index `i` changes the angle-bracket depth; the `>` of
/// an arrow `->` does not count.
pub open spec fn angle_delta(s: Seq<TokV>, i: int) -> int {
    if is_punct(s[i], '<') {
        1
    } else if is_punct(s[i], '>') && !(i > 0 && s[i - 1] == TokV::Punct('-', true)) {
        -1
    } else {
        0
    }
}

/// Where a fragment ends.
#[derive(PartialEq, Eq, Structural, Clone, Copy)]
pub enum Stop {
    /// At `where` or a brace group: the end of the type that an impl is for.
    WhereOrBrace,
    /// At a brace group: the end of a where-clause or a return type.
    Brace,
    /// At `,`: the end of a parameter's type.
    Comma,
    /// At `fn`: the end of a visibility.
    Fn,
}

pub open spec fn is_stop(t: TokV, k: Stop) -> bool {
    match k {
        Stop::WhereOrBrace => is_word(t, "where"@) || is_group(t, Delim::Brace),
        Stop::Brace => is_group(t, Delim::Brace),
        Stop::Comma => is_punct(t, ','),
        Stop::Fn => is_word(t, "fn"@),
    }
}

/// Whether the tree at `j` is the body of a macro invocation `name!{..}`,
/// which is part of a type (a type macro), not the end of it. The name is an
/// identifier that is not a keyword: after `-> !` or `impl !` a brace group
/// is a body, since `!` there is the never type.
pub open spec fn macro_body_at(s: Seq<TokV>, j: int) -> bool {
    &&& j >= 2
    &&& is_punct(s[j - 1], '!')
    &&& s[j - 2] is Ident
    &&& syn_ident(text(s.subrange(j - 2, j - 1)))
}

/// Whether a fragment scanned for a stop of kind `k` ends at `j`, with `depth`
/// angle brackets open. A comma that ends the whole list ends the type before
/// it at any depth.
pub open spec fn stops_at(s: Seq<TokV>, j: int, depth: int, k: Stop) -> bool {
    is_stop(s[j], k) && match k {
        Stop::Comma => depth == 0 || j + 1 == s.len(),
        Stop::WhereOrBrace => depth == 0 && !(is_group(s[j], Delim::Brace) && macro_body_at(s, j)),
        Stop::Brace => depth == 0 && !macro_body_at(s, j),
        Stop::Fn => depth == 0,
    }
}

/// The first index from `j` on where a fragment scanned for a stop of kind `k`
/// ends (with `depth` angle brackets open before `j`); the length if none does.
pub open spec fn scan(s: Seq<TokV>, j: int, depth: int, k: Stop) -> int
    decreases s.len() - j,
{
    if j < 0 || j >= s.len() {
        s.len() as int
    } else if stops_at(s, j, depth, k) {
        j
    } else {
        scan(s, j + 1, depth + angle_delta(s, j), k)
    }
}

/// The index of the `>` that closes the angle brackets open at `j` (with
/// `depth` open ones before `j`); the length if none does.
pub open spec fn close_angle(s: Seq<TokV>, j: int, depth: int) -> int
    decreases s.len() - j,
{
    if j < 0 || j >= s.len() {
        s.len() as int
    } else if depth + angle_delta(s, j) == 0 {
        j
    } else {
        close_angle(s, j + 1, depth + angle_delta(s, j))
    }
}

/// The index after the outer attributes (`#` and a bracket group, repeated)
/// that start at `i`, or the index of a `#` not followed by brackets.
pub open spec fn skip_attrs(s: Seq<TokV>, i: int) -> Result<int, int>
    decreases s.len() - i,
{
    if i < 0 || i >= s.len() || !is_punct(s[i], '#') {
        Ok(i)
    } else if i + 1 < s.len() && is_group(s[i + 1], Delim::Bracket) {
        skip_attrs(s, i + 2)
    } else {
        Err(i + 1)
    }
}

pub proof fn lemma_scan(s: Seq<TokV>, j: int, depth: int, k: Stop)
    requires
        0 <= j <= s.len(),
    ensures
        j <= scan(s, j, depth, k) <= s.len(),
        scan(s, j, depth, k) < s.len() ==> is_stop(s[scan(s, j, depth, k)], k),
    decreases s.len() - j,
{
    if j < s.len() && !stops_at(s, j, depth, k) {
        lemma_scan(s, j + 1, depth + angle_delta(s, j), k);
    }
}

pub proof fn lemma_close_angle(s: Seq<TokV>, j: int, depth: int)
    requires
        0 <= j <= s.len(),
    ensures
        j <= close_angle(s, j, depth) <= s.len(),
    decreases s.len() - j,
{
    if j < s.len() && depth + angle_delta(s, j) != 0 {
        lemma_close_angle(s, j + 1, depth + angle_delta(s, j));
    }
}

pub proof fn lemma_skip_attrs(s: Seq<TokV>, i: int)
    requires
        0 <= i <= s.len(),
    ensures
        skip_attrs(s, i) is Ok ==> i <= skip_attrs(s, i)->Ok_0 <= s.len(),
        skip_attrs(s, i) is Err ==> i < skip_attrs(s, i)->Err_0 <= s.len(),
    decreases s.len() - i,
{
    if i < s.len() && is_punct(s[i], '#') && i + 1 < s.len() && is_group(s[i + 1], Delim::Bracket) {
        lemma_skip_attrs(s, i + 2);
    }
}

// ---- laws ----

/// An argument list that does not begin with `&self` is rejected, and the
/// error is about the receiver: this covers `&mut self`, `self`, `mut self` and
/// a list without a receiver.
pub proof fn lemma_receiver_must_be_ref_self(s: Seq<TokV>)
    requires
        !(s.len() >= 2 && is_punct(s[0], '&') && is_word(s[1], "self"@)),
    ensures
        arguments(s) is Err,
        arguments(s)->Err_0.0 is Receiver,
{
}

proof fn lemma_scan_extend(s: Seq<TokV>, c: TokV, j: int, d: int)
    requires
        0 <= j <= s.len(),
        is_punct(c, ','),
        s.len() > 0 && !is_punct(s.last(), ','),
    ensures
        scan(s.push(c), j, d, Stop::Comma) == scan(s, j, d, Stop::Comma),
    decreases s.len() - j,
{
    let t = s.push(c);
    if j < s.len() {
        assert(t[j] == s[j]);
        if j > 0 {
            assert(t[j - 1] == s[j - 1]);
        }
        assert(angle_delta(t, j) == angle_delta(s, j));
        assert(stops_at(t, j, d, Stop::Comma) == stops_at(s, j, d, Stop::Comma));
        if !stops_at(s, j, d, Stop::Comma) {
            lemma_scan_extend(s, c, j + 1, d + angle_delta(s, j));
        }
    } else {
        assert(t[j] == c);
    }
}

proof fn lemma_params_trailing_comma(s: Seq<TokV>, c: TokV, p: int)
    requires
        2 <= p <= s.len(),
        is_punct(c, ','),
        !is_punct(s.last(), ','),
        params_from(s, p) is Ok,
    ensures
        params_from(s.push(c), p) == params_from(s, p),
    decreases s.len() - p,
{
    let t = s.push(c);
    if p < s.len() {
        assert(t[p] == s[p]);
        assert(p + 1 < s.len());
        assert(t[p + 1] == s[p + 1]);
        assert(t[p + 2] == s[p + 2]);
        assert(t.subrange(p + 1, p + 2) =~= s.subrange(p + 1, p + 2));
        let e = scan(s, p + 3, 0, Stop::Comma);
        lemma_scan(s, p + 3, 0, Stop::Comma);
        lemma_scan_extend(s, c, p + 3, 0);
        assert(t.subrange(p + 3, e) =~= s.subrange(p + 3, e));
        lemma_params_trailing_comma(s, c, e);
    } else {
        assert(t[p] == c);
    }
}

/// A comma after the last parameter changes nothing.
pub proof fn lemma_trailing_comma(s: Seq<TokV>, joint: bool)
    requires
        arguments(s) is Ok,
        !is_punct(s.last(), ','),
    ensures
        arguments(s.push(TokV::Punct(',', joint))) == arguments(s),
{
    let t = s.push(TokV::Punct(',', joint));
    assert(t[0] == s[0] && t[1] == s[1]);
    lemma_params_trailing_comma(s, TokV::Punct(',', joint), 2);
}

/// The method as it stands in the impl block, with `args` as its argument list
/// and `arrow` before its return type.
pub open spec fn method_layout(d: DeclV, args: Seq<TokV>, arrow: Seq<TokV>) -> Seq<TokV> {
    d.fn_attrs + d.vis + seq![
        TokV::Ident("fn"@),
        TokV::Ident(d.method),
        TokV::Group(Delim::Paren, args),
    ] + match d.ret_ty {
        Some(t) => arrow + t,
        None => Seq::empty(),
    } + seq![TokV::Group(Delim::Brace, d.body)]
}

/// The whole input as its parts laid end to end.
pub open spec fn decl_layout(d: DeclV, args: Seq<TokV>, arrow: Seq<TokV>) -> Seq<TokV> {
    d.outer_attrs + seq![TokV::Ident("impl"@)] + d.generics + d.self_ty + d.where_clause + seq![
        TokV::Group(Delim::Brace, method_layout(d, args, arrow)),
    ]
}

/// A parsed input is exactly its parts laid end to end: nothing is dropped,
/// moved or added, and the argument list it held begins with `&self` and
/// reads as the parameters. So no input whose receiver is anything else is
/// accepted.
pub proof fn lemma_parts_reassemble(s: Seq<TokV>)
    requires
        parse_spec(s) is Ok,
    ensures
        exists|args: Seq<TokV>, joint: bool|
            arguments(args) == Ok::<Seq<ParamV>, (ErrorKind, int)>(parse_spec(s)->Ok_0.params)
                && args.len() >= 2 && is_punct(args[0], '&') && is_word(args[1], "self"@)
                && s == decl_layout(
                parse_spec(s)->Ok_0,
                args,
                seq![TokV::Punct('-', true), TokV::Punct('>', joint)],
            ),
{
    let d = parse_spec(s)->Ok_0;
    lemma_skip_attrs(s, 0);
    let a = skip_attrs(s, 0)->Ok_0;
    let g0 = a + 1;
    let g1 = generics_end(s, g0);
    if g0 < s.len() && is_punct(s[g0], '<') {
        lemma_close_angle(s, g0, 0);
    }
    lemma_scan(s, g1, 0, Stop::WhereOrBrace);
    let t1 = scan(s, g1, 0, Stop::WhereOrBrace);
    lemma_scan(s, t1, 0, Stop::Brace);
    let w1 = if t1 < s.len() && is_word(s[t1], "where"@) {
        scan(s, t1, 0, Stop::Brace)
    } else {
        t1
    };
    let m = inner_of(s[w1]);
    lemma_skip_attrs(m, 0);
    let ma = skip_attrs(m, 0)->Ok_0;
    lemma_scan(m, ma, 0, Stop::Fn);
    let f = scan(m, ma, 0, Stop::Fn);
    let args = inner_of(m[f + 2]);
    if !(args.len() >= 2 && is_punct(args[0], '&') && is_word(args[1], "self"@)) {
        lemma_receiver_must_be_ref_self(args);
    }
    let has_ret = arrow_at(m, f + 3);
    let joint = if has_ret {
        m[f + 4]->Punct_1
    } else {
        false
    };
    let arrow = seq![TokV::Punct('-', true), TokV::Punct('>', joint)];
    let b = if has_ret {
        scan(m, f + 5, 0, Stop::Brace)
    } else {
        f + 3
    };
    if has_ret {
        lemma_scan(m, f + 5, 0, Stop::Brace);
        assert(m.subrange(f + 3, b) =~= arrow + m.subrange(f + 5, b));
    } else {
        assert(m.subrange(f + 3, b) =~= Seq::<TokV>::empty());
    }
    assert(m =~= m.subrange(0, ma) + m.subrange(ma, f) + seq![m[f], m[f + 1], m[f + 2]]
        + m.subrange(f + 3, b) + seq![m[b]]);
    assert(m =~= method_layout(d, args, arrow));
    assert(s =~= s.subrange(0, a) + seq![s[a]] + s.subrange(g0, g1) + s.subrange(g1, t1)
        + s.subrange(t1, w1) + seq![s[w1]]);
    assert(s =~= decl_layout(d, args, arrow));
}

/// `, name: Type` for each parameter, in order.
pub open spec fn params_layout(ps: Seq<ParamV>) -> Seq<TokV>
    decreases ps.len(),
{
    if ps.len() == 0 {
        Seq::empty()
    } else {
        seq![TokV::Punct(',', false), TokV::Ident(ps[0].name), TokV::Punct(':', false)] + ps[0].ty
            + params_layout(ps.drop_first())
    }
}

/// A parameter as the grammar has it: its name is an identifier, its type is
/// a type, and a comma after the type ends it exactly (no comma stands in it
/// outside brackets, and its angle brackets are closed).
pub open spec fn param_fits(p: ParamV) -> bool {
    &&& syn_ident(text(seq![TokV::Ident(p.name)]))
    &&& p.ty.len() > 0
    &&& syn_type(text(p.ty))
    &&& scan(p.ty + seq![TokV::Punct(',', false), TokV::Punct(',', false)], 0, 0, Stop::Comma)
        == p.ty.len()
}

proof fn lemma_type_extent_from(s: Seq<TokV>, o: int, u: Seq<TokV>, n: int, j: int, d: int)
    requires
        1 <= o,
        0 <= j <= n,
        o + n <= s.len(),
        u.len() == n + 2,
        is_punct(u[n], ','),
        is_punct(u[n + 1], ','),
        forall|i: int| 0 <= i < n ==> s[o + i] == #[trigger] u[i],
        s[o - 1] != TokV::Punct('-', true),
        o + n < s.len() ==> is_punct(s[o + n], ','),
        scan(u, j, d, Stop::Comma) == n,
    ensures
        scan(s, o + j, d, Stop::Comma) == o + n,
    decreases n - j,
{
    if j < n {
        assert(s[o + j] == u[j]);
        if j > 0 {
            assert(s[o + j - 1] == u[j - 1]);
        }
        assert(angle_delta(s, o + j) == angle_delta(u, j));
        assert(!stops_at(u, j, d, Stop::Comma));
        if j + 1 == n && o + n == s.len() && is_punct(u[j], ',') {
            assert(d != 0);
            assert(angle_delta(u, j) == 0);
            assert(scan(u, j, d, Stop::Comma) == scan(u, j + 1, d, Stop::Comma));
            lemma_scan(u, n + 1, d, Stop::Comma);
            assert(stops_at(u, n, d, Stop::Comma));
        }
        assert(!stops_at(s, o + j, d, Stop::Comma));
        lemma_type_extent_from(s, o, u, n, j + 1, d + angle_delta(u, j));
    } else if o + n < s.len() {
        lemma_scan(u, n + 1, d + angle_delta(u, n), Stop::Comma);
        assert(stops_at(u, n, d, Stop::Comma));
    }
}

/// The argument list written in the grammar: `&self`, then `, name: Type`
/// for each parameter, then perhaps one more comma.
pub open spec fn arguments_layout(ps: Seq<ParamV>, trailing: bool) -> Seq<TokV> {
    seq![TokV::Punct('&', false), TokV::Ident("self"@)] + params_layout(ps) + if trailing {
        seq![TokV::Punct(',', false)]
    } else {
        Seq::empty()
    }
}

/// Every argument list written in the grammar is accepted and yields exactly
/// its parameters, in order, with or without a trailing comma.
pub proof fn lemma_arguments_accepted(ps: Seq<ParamV>, trailing: bool)
    requires
        forall|i: int| 0 <= i < ps.len() ==> param_fits(#[trigger] ps[i]),
    ensures
        arguments(arguments_layout(ps, trailing)) == Ok::<Seq<ParamV>, (ErrorKind, int)>(ps),
{
    let pre = seq![TokV::Punct('&', false), TokV::Ident("self"@)];
    let trail = if trailing {
        seq![TokV::Punct(',', false)]
    } else {
        Seq::<TokV>::empty()
    };
    let s = arguments_layout(ps, trailing);
    lemma_params_accepted(pre, ps, trail);
    assert(s[0] == TokV::Punct('&', false));
    assert(s[1] == TokV::Ident("self"@));
}

proof fn lemma_params_accepted(pre: Seq<TokV>, ps: Seq<ParamV>, trail: Seq<TokV>)
    requires
        trail == Seq::<TokV>::empty() || trail == seq![TokV::Punct(',', false)],
        forall|i: int| 0 <= i < ps.len() ==> param_fits(#[trigger] ps[i]),
    ensures
        params_from(pre + params_layout(ps) + trail, pre.len() as int) == Ok::<
            Seq<ParamV>,
            (ErrorKind, int),
        >(ps),
    decreases ps.len(),
{
    let s = pre + params_layout(ps) + trail;
    let p = pre.len() as int;
    if ps.len() == 0 {
        assert(ps =~= Seq::<ParamV>::empty());
        assert(s =~= pre + trail);
        if trail.len() > 0 {
            assert(s[p] == TokV::Punct(',', false));
        }
    } else {
        let q = ps[0];
        assert(param_fits(q));
        let rest = ps.drop_first();
        let pre2 = pre + seq![TokV::Punct(',', false), TokV::Ident(q.name), TokV::Punct(':', false)]
            + q.ty;
        assert(s =~= pre2 + params_layout(rest) + trail);
        assert(s[p] == TokV::Punct(',', false));
        assert(s[p + 1] == TokV::Ident(q.name));
        assert(s[p + 2] == TokV::Punct(':', false));
        assert(s.subrange(p + 1, p + 2) =~= seq![TokV::Ident(q.name)]);
        let n = q.ty.len() as int;
        let u = q.ty + seq![TokV::Punct(',', false), TokV::Punct(',', false)];
        assert forall|i: int| 0 <= i < n implies s[p + 3 + i] == #[trigger] u[i] by {
            assert(s[p + 3 + i] == pre2[p + 3 + i]);
        }
        if p + 3 + n < s.len() {
            if rest.len() > 0 {
                assert(s[p + 3 + n] == params_layout(rest)[0]);
            } else {
                assert(s[p + 3 + n] == trail[0]);
            }
        }
        lemma_type_extent_from(s, p + 3, u, n, 0, 0);
        assert(s.subrange(p + 3, p + 3 + n) =~= q.ty);
        assert forall|i: int| 0 <= i < rest.len() implies param_fits(#[trigger] rest[i]) by {
            assert(rest[i] == ps[i + 1]);
        }
        lemma_params_accepted(pre2, rest, trail);
        assert(scan(s, p + 3, 0, Stop::Comma) == p + 3 + n);
        assert(params_from(s, p + 3 + n) == Ok::<Seq<ParamV>, (ErrorKind, int)>(rest));
        assert(seq![ParamV { name: ident_text(s[p + 1]), ty: s.subrange(p + 3, p + 3 + n) }] + rest
            =~= ps);
    }
}

/// Outer attributes as the grammar has them: `#` and a bracket group, repeated.
pub open spec fn attr_pairs(a: Seq<TokV>) -> bool {
    &&& a.len() % 2 == 0
    &&& forall|i: int|
        0 <= i < a.len() && i % 2 == 0 ==> is_punct(#[trigger] a[i], '#') && is_group(
            a[i + 1],
            Delim::Bracket,
        )
}

proof fn lemma_skip_attr_pairs(s: Seq<TokV>, a: Seq<TokV>, i: int)
    requires
        attr_pairs(a),
        a.len() < s.len(),
        s.subrange(0, a.len() as int) == a,
        !is_punct(s[a.len() as int], '#'),
        0 <= i <= a.len(),
        i % 2 == 0,
    ensures
        skip_attrs(s, i) == Ok::<int, int>(a.len() as int),
    decreases a.len() - i,
{
    if i < a.len() {
        assert(s[i] == a[i]);
        assert(s[i + 1] == a[i + 1]);
        lemma_skip_attr_pairs(s, a, i + 2);
    }
}

/// `->` with the given spacing of its `>`.
pub open spec fn arrow(joint: bool) -> Seq<TokV> {
    seq![TokV::Punct('-', true), TokV::Punct('>', joint)]
}

/// Where the grammar's parts of `decl_layout(d, args, arrow(joint))` hold what
/// the grammar asks of them. Each `syn` fragment is accepted by `syn`, and
/// ends where the next part begins: the self type right before `where` or the
/// impl block, the where-clause and the return type right before a brace
/// group, the visibility right before `fn`, and the generics at the `>` that
/// closes their `<`.
pub open spec fn grammar_fits(d: DeclV, args: Seq<TokV>, joint: bool) -> bool {
    let s = decl_layout(d, args, arrow(joint));
    let m = method_layout(d, args, arrow(joint));
    let a = d.outer_attrs.len() as int;
    let g0 = a + 1;
    let g1 = g0 + d.generics.len();
    let t1 = g1 + d.self_ty.len();
    let w1 = t1 + d.where_clause.len();
    let ma = d.fn_attrs.len() as int;
    let f = ma + d.vis.len();
    let b = match d.ret_ty {
        Some(t) => f + 5 + t.len(),
        None => f + 3,
    };
    &&& attr_pairs(d.outer_attrs)
    &&& syn_outer_attrs(text(d.outer_attrs))
    &&& attr_pairs(d.fn_attrs)
    &&& syn_outer_attrs(text(d.fn_attrs))
    &&& !is_punct(m[ma], '#')
    &&& if d.generics.len() == 0 {
        !is_punct(s[g0], '<')
    } else {
        is_punct(s[g0], '<') && close_angle(s, g0, 0) == g1 - 1
    }
    &&& syn_generics(text(d.generics))
    &&& d.self_ty.len() > 0
    &&& syn_type(text(d.self_ty))
    &&& scan(s, g1, 0, Stop::WhereOrBrace) == t1
    &&& d.where_clause.len() == 0 || (is_word(d.where_clause[0], "where"@) && syn_where_clause(
        text(d.where_clause),
    ) && scan(s, t1, 0, Stop::Brace) == w1)
    &&& syn_visibility(text(d.vis))
    &&& scan(m, ma, 0, Stop::Fn) == f
    &&& syn_ident(text(seq![TokV::Ident(d.method)]))
    &&& arguments(args) == Ok::<Seq<ParamV>, (ErrorKind, int)>(d.params)
    &&& match d.ret_ty {
        Some(t) => t.len() > 0 && syn_type(text(t)) && scan(m, f + 5, 0, Stop::Brace) == b,
        None => !arrow_at(m, f + 3),
    }
}

/// Every input written in the grammar is accepted and yields exactly its
/// parts: the converse of `lemma_parts_reassemble`.
pub proof fn lemma_grammar_accepted(d: DeclV, args: Seq<TokV>, joint: bool)
    requires
        grammar_fits(d, args, joint),
    ensures
        parse_spec(decl_layout(d, args, arrow(joint))) == Ok::<DeclV, ParseError>(d),
{
    let s = decl_layout(d, args, arrow(joint));
    let m = method_layout(d, args, arrow(joint));
    let a = d.outer_attrs.len() as int;
    let g0 = a + 1;
    let g1 = g0 + d.generics.len();
    let t1 = g1 + d.self_ty.len();
    let w1 = t1 + d.where_clause.len();
    let ma = d.fn_attrs.len() as int;
    let f = ma + d.vis.len();
    let b = match d.ret_ty {
        Some(t) => f + 5 + t.len(),
        None => f + 3,
    };
    assert(s.len() == w1 + 1);
    assert(s.subrange(0, a) =~= d.outer_attrs);
    assert(s[a] == TokV::Ident("impl"@));
    lemma_skip_attr_pairs(s, d.outer_attrs, 0);
    assert(s.subrange(g0, g1) =~= d.generics);
    assert(generics_end(s, g0) == g1);
    assert(s.subrange(g1, t1) =~= d.self_ty);
    assert(s.subrange(t1, w1) =~= d.where_clause);
    assert(s[w1] == TokV::Group(Delim::Brace, m));
    if d.where_clause.len() > 0 {
        assert(s[t1] == d.where_clause[0]);
    } else {
        lemma_scan(s, g1, 0, Stop::WhereOrBrace);
        assert(!is_word(s[t1], "where"@));
    }
    // the method
    assert(m.subrange(0, ma) =~= d.fn_attrs);
    lemma_skip_attr_pairs(m, d.fn_attrs, 0);
    assert(m.subrange(ma, f) =~= d.vis);
    assert(m[f] == TokV::Ident("fn"@));
    assert(m[f + 1] == TokV::Ident(d.method));
    assert(m.subrange(f + 1, f + 2) =~= seq![TokV::Ident(d.method)]);
    assert(m[f + 2] == TokV::Group(Delim::Paren, args));
    match d.ret_ty {
        Some(t) => {
            assert(m[f + 3] == TokV::Punct('-', true));
            assert(m[f + 4] == TokV::Punct('>', joint));
            assert(m.subrange(f + 5, b) =~= t);
        },
        None => {},
    }
    assert(m.len() == b + 1);
    assert(m[b] == TokV::Group(Delim::Brace, d.body));
    let mv = MethodV {
        fn_attrs: d.fn_attrs,
        vis: d.vis,
        method: d.method,
        params: d.params,
        ret_ty: d.ret_ty,
        body: d.body,
    };
    assert(method_spec(m, w1) == Ok::<MethodV, ParseError>(mv));
}

proof fn lemma_skip_attrs_pairs(s: Seq<TokV>, i: int)
    requires
        0 <= i <= s.len(),
        skip_attrs(s, i) is Ok,
    ensures
        i <= skip_attrs(s, i)->Ok_0 <= s.len(),
        attr_pairs(s.subrange(i, skip_attrs(s, i)->Ok_0)),
        skip_attrs(s, i)->Ok_0 < s.len() ==> !is_punct(s[skip_attrs(s, i)->Ok_0], '#'),
    decreases s.len() - i,
{
    if i < s.len() && is_punct(s[i], '#') {
        lemma_skip_attrs_pairs(s, i + 2);
        let r = skip_attrs(s, i)->Ok_0;
        let x = s.subrange(i, r);
        let y = s.subrange(i + 2, r);
        assert forall|k: int| 0 <= k < x.len() && k % 2 == 0 implies is_punct(#[trigger] x[k], '#')
            && is_group(x[k + 1], Delim::Bracket) by {
            if k >= 2 {
                assert(x[k] == y[k - 2]);
                assert(x[k + 1] == y[k - 1]);
            }
        }
    } else {
        assert(s.subrange(i, i).len() == 0);
    }
}

/// Every accepted input is written in the grammar: its parts, laid end to
/// end, are the input, and they meet `grammar_fits`. With
/// `lemma_grammar_accepted`, `grammar_fits` is exactly the set of inputs that
/// parse, each to its own parts.
pub proof fn lemma_accepted_fits(s: Seq<TokV>)
    requires
        parse_spec(s) is Ok,
    ensures
        exists|args: Seq<TokV>, joint: bool|
            grammar_fits(parse_spec(s)->Ok_0, args, joint) && s == decl_layout(
                parse_spec(s)->Ok_0,
                args,
                arrow(joint),
            ),
{
    let d = parse_spec(s)->Ok_0;
    lemma_parts_reassemble(s);
    let (args, joint) = choose|args: Seq<TokV>, joint: bool|
        arguments(args) == Ok::<Seq<ParamV>, (ErrorKind, int)>(d.params) && args.len() >= 2
            && is_punct(args[0], '&') && is_word(args[1], "self"@) && s == decl_layout(
            d,
            args,
            seq![TokV::Punct('-', true), TokV::Punct('>', joint)],
        );
    assert(arrow(joint) == seq![TokV::Punct('-', true), TokV::Punct('>', joint)]);
    lemma_skip_attrs_pairs(s, 0);
    lemma_skip_attrs(s, 0);
    let a = skip_attrs(s, 0)->Ok_0;
    let m = method_layout(d, args, arrow(joint));
    assert(a == d.outer_attrs.len());
    let g0 = a + 1;
    let g1 = generics_end(s, g0);
    if g0 < s.len() && is_punct(s[g0], '<') {
        lemma_close_angle(s, g0, 0);
    }
    lemma_scan(s, g1, 0, Stop::WhereOrBrace);
    let t1 = scan(s, g1, 0, Stop::WhereOrBrace);
    lemma_scan(s, t1, 0, Stop::Brace);
    let w1 = if t1 < s.len() && is_word(s[t1], "where"@) {
        scan(s, t1, 0, Stop::Brace)
    } else {
        t1
    };
    assert(inner_of(s[w1]) == m);
    lemma_skip_attrs_pairs(m, 0);
    lemma_skip_attrs(m, 0);
    let ma = skip_attrs(m, 0)->Ok_0;
    lemma_scan(m, ma, 0, Stop::Fn);
    let f = scan(m, ma, 0, Stop::Fn);
    if arrow_at(m, f + 3) {
        lemma_scan(m, f + 5, 0, Stop::Brace);
    }
    assert(d.outer_attrs == s.subrange(0, a));
    assert(d.generics == s.subrange(g0, g1));
    assert(d.self_ty == s.subrange(g1, t1));
    assert(d.where_clause == s.subrange(t1, w1));
    assert(d.fn_attrs == m.subrange(0, ma));
    assert(d.vis == m.subrange(ma, f));
    assert(g1 == g0 + d.generics.len());
    assert(t1 == g1 + d.self_ty.len());
    assert(w1 == t1 + d.where_clause.len());
    assert(f == ma + d.vis.len());
    assert(attr_pairs(d.outer_attrs));
    assert(attr_pairs(d.fn_attrs));
    assert(!is_punct(m[ma], '#'));
    assert(syn_generics(text(d.generics)));
    assert(scan(s, g1, 0, Stop::WhereOrBrace) == t1);
    assert(d.where_clause.len() == 0 || (is_word(d.where_clause[0], "where"@) && syn_where_clause(
        text(d.where_clause),
    ) && scan(s, t1, 0, Stop::Brace) == w1));
    assert(scan(m, ma, 0, Stop::Fn) == f);
    assert(m[f + 1] is Ident && syn_ident(text(m.subrange(f + 1, f + 2))));
    assert(d.method == ident_text(m[f + 1]));
    assert(m.subrange(f + 1, f + 2) =~= seq![TokV::Ident(d.method)]);
    assert(match d.ret_ty {
        Some(t) => t.len() > 0 && syn_type(text(t)) && scan(m, f + 5, 0, Stop::Brace) == (
        f + 5 + t.len()),
        None => !arrow_at(m, f + 3),
    });
    assert(grammar_fits(d, args, joint));
}

// ---- reading tokens ----

fn punct_is(t: &Tok, c: char) -> (r: bool)
    ensures
        r == is_punct(t.view(), c),
{
    match t {
        Tok::Punct(c2, _) => *c2 == c,
        _ => false,
    }
}

fn word_is(t: &Tok, w: &str) -> (r: bool)
    ensures
        r == is_word(t.view(), w@),
{
    match t {
        Tok::Ident(s) => string_is(s, w),
        _ => false,
    }
}

fn group_in(t: &Tok, d: Delim) -> (r: Option<&Vec<Tok>>)
    ensures
        r is Some == is_group(t.view(), d),
        r is Some ==> view_all(r->Some_0@) == inner_of(t.view()),
{
    match t {
        Tok::Group(d2, v) => {
            if *d2 == d {
                Some(v)
            } else {
                None
            }
        },
        _ => None,
    }
}

fn stop_at(t: &Tok, k: Stop) -> (r: bool)
    ensures
        r == is_stop(t.view(), k),
{
    match k {
        Stop::WhereOrBrace => word_is(t, "where") || group_in(t, Delim::Brace).is_some(),
        Stop::Brace => group_in(t, Delim::Brace).is_some(),
        Stop::Comma => punct_is(t, ','),
        Stop::Fn => word_is(t, "fn"),
    }
}

fn macro_body_here(v: &Vec<Tok>, j: usize) -> (r: bool)
    requires
        j < v@.len(),
    ensures
        r == macro_body_at(view_all(v@), j as int),
{
    proof {
        lemma_view_all(v@);
    }
    j >= 2 && punct_is(&v[j - 1], '!') && match &v[j - 2] {
        Tok::Ident(_) => is_ident(&render(v, j - 2, j - 1)),
        _ => false,
    }
}

fn stops_here(v: &Vec<Tok>, j: usize, depth: i128, k: Stop) -> (r: bool)
    requires
        j < v@.len(),
    ensures
        r == stops_at(view_all(v@), j as int, depth as int, k),
{
    proof {
        lemma_view_all(v@);
    }
    if !stop_at(&v[j], k) {
        return false;
    }
    match k {
        Stop::Comma => depth == 0 || j == v.len() - 1,
        Stop::WhereOrBrace => depth == 0 && !(group_in(&v[j], Delim::Brace).is_some()
            && macro_body_here(v, j)),
        Stop::Brace => depth == 0 && !macro_body_here(v, j),
        Stop::Fn => depth == 0,
    }
}

fn angle_delta_at(v: &Vec<Tok>, i: usize) -> (r: i8)
    requires
        i < v@.len(),
    ensures
        r == angle_delta(view_all(v@), i as int),
{
    proof {
        lemma_view_all(v@);
    }
    if punct_is(&v[i], '<') {
        1
    } else if punct_is(&v[i], '>') {
        let arrow = i > 0 && match &v[i - 1] {
            Tok::Punct(c, j) => *c == '-' && *j,
            _ => false,
        };
        if arrow {
            0
        } else {
            -1
        }
    } else {
        0
    }
}

fn scan_from(v: &Vec<Tok>, j0: usize, k: Stop) -> (r: usize)
    requires
        j0 <= v@.len(),
    ensures
        r == scan(view_all(v@), j0 as int, 0, k),
        j0 <= r <= v@.len(),
{
    let ghost s = view_all(v@);
    proof {
        lemma_view_all(v@);
        lemma_scan(s, j0 as int, 0, k);
    }
    let mut j: usize = j0;
    let mut depth: i128 = 0;
    while j < v.len()
        invariant
            j0 <= j <= v@.len(),
            s == view_all(v@),
            s.len() == v@.len(),
            forall|i: int| 0 <= i < v@.len() ==> #[trigger] s[i] == v@[i].view(),
            -(j - j0) <= depth <= j - j0,
            scan(s, j as int, depth as int, k) == scan(s, j0 as int, 0, k),
        decreases v@.len() - j,
    {
        if stops_here(v, j, depth, k) {
            return j;
        }
        let d = angle_delta_at(v, j);
        depth = depth + d as i128;
        j = j + 1;
    }
    j
}

fn close_angle_from(v: &Vec<Tok>, j0: usize) -> (r: usize)
    requires
        j0 <= v@.len(),
    ensures
        r == close_angle(view_all(v@), j0 as int, 0),
        j0 <= r <= v@.len(),
{
    let ghost s = view_all(v@);
    proof {
        lemma_view_all(v@);
        lemma_close_angle(s, j0 as int, 0);
    }
    let mut j: usize = j0;
    let mut depth: i128 = 0;
    while j < v.len()
        invariant
            j0 <= j <= v@.len(),
            s == view_all(v@),
            s.len() == v@.len(),
            -(j - j0) <= depth <= j - j0,
            close_angle(s, j as int, depth as int) == close_angle(s, j0 as int, 0),
        decreases v@.len() - j,
    {
        let d = angle_delta_at(v, j);
        if depth + d as i128 == 0 {
            return j;
        }
        depth = depth + d as i128;
        j = j + 1;
    }
    j
}

fn skip_attrs_from(v: &Vec<Tok>, i0: usize) -> (r: Result<usize, usize>)
    requires
        i0 <= v@.len(),
    ensures
        match r {
            Ok(i) => skip_attrs(view_all(v@), i0 as int) == Ok::<int, int>(i as int),
            Err(i) => skip_attrs(view_all(v@), i0 as int) == Err::<int, int>(i as int),
        },
{
    let ghost s = view_all(v@);
    proof {
        lemma_view_all(v@);
    }
    let mut i: usize = i0;
    while i < v.len() && punct_is(&v[i], '#')
        invariant
            i0 <= i <= v@.len(),
            s == view_all(v@),
            s.len() == v@.len(),
            forall|k: int| 0 <= k < v@.len() ==> #[trigger] s[k] == v@[k].view(),
            skip_attrs(s, i as int) == skip_attrs(s, i0 as int),
        decreases v@.len() - i,
    {
        if i + 1 < v.len() && group_in(&v[i + 1], Delim::Bracket).is_some() {
            i = i + 2;
        } else {
            return Err(i + 1);
        }
    }
    Ok(i)
}

// ---- the grammar ----

/// The parameters after the receiver, from index `p` of the argument list:
/// `, name: Type` repeated, with an optional trailing comma.
pub open spec fn params_from(s: Seq<TokV>, p: int) -> Result<Seq<ParamV>, (ErrorKind, int)>
    decreases s.len() - p,
    via params_from_decreases
{
    if p < 0 || p >= s.len() {
        Ok(Seq::empty())
    } else if !is_punct(s[p], ',') {
        Err((ErrorKind::ExpectedComma, p))
    } else if p + 1 == s.len() {
        Ok(Seq::empty())
    } else if !(s[p + 1] is Ident && syn_ident(text(s.subrange(p + 1, p + 2)))) {
        Err((ErrorKind::MalformedArgumentName, p + 1))
    } else if !(p + 2 < s.len() && is_punct(s[p + 2], ':')) {
        Err((ErrorKind::ExpectedColon, p + 2))
    } else {
        let e = scan(s, p + 3, 0, Stop::Comma);
        if e <= p + 3 || !syn_type(text(s.subrange(p + 3, e))) {
            Err((ErrorKind::MalformedArgumentType, p + 3))
        } else {
            match params_from(s, e) {
                Ok(rest) => Ok(
                    seq![ParamV { name: ident_text(s[p + 1]), ty: s.subrange(p + 3, e) }] + rest,
                ),
                Err(x) => Err(x),
            }
        }
    }
}

#[via_fn]
proof fn params_from_decreases(s: Seq<TokV>, p: int) {
    if 0 <= p < s.len() && p + 3 <= s.len() {
        lemma_scan(s, p + 3, 0, Stop::Comma);
    }
}

/// The argument list: the receiver `&self`, then the parameters.
pub open spec fn arguments(s: Seq<TokV>) -> Result<Seq<ParamV>, (ErrorKind, int)> {
    if s.len() == 0 {
        Err((ErrorKind::Receiver(ReceiverIssue::Missing), 0))
    } else if is_punct(s[0], '&') {
        if s.len() >= 2 && is_word(s[1], "self"@) {
            params_from(s, 2)
        } else if s.len() >= 2 && is_word(s[1], "mut"@) {
            Err((ErrorKind::Receiver(ReceiverIssue::Mutable), 1))
        } else {
            Err((ErrorKind::Receiver(ReceiverIssue::Other), 1))
        }
    } else if is_word(s[0], "self"@) {
        if s.len() >= 2 && is_punct(s[1], ':') {
            Err((ErrorKind::Receiver(ReceiverIssue::Other), 0))
        } else {
            Err((ErrorKind::Receiver(ReceiverIssue::Owning), 0))
        }
    } else if is_word(s[0], "mut"@) {
        Err((ErrorKind::Receiver(ReceiverIssue::Owning), 0))
    } else {
        Err((ErrorKind::Receiver(ReceiverIssue::Missing), 0))
    }
}

/// The parts of the method inside the impl block.
pub struct MethodV {
    pub fn_attrs: Seq<TokV>,
    pub vis: Seq<TokV>,
    pub method: Seq<char>,
    pub params: Seq<ParamV>,
    pub ret_ty: Option<Seq<TokV>>,
    pub body: Seq<TokV>,
}

/// Whether an arrow `->` stands at `i`.
pub open spec fn arrow_at(s: Seq<TokV>, i: int) -> bool {
    0 <= i && i + 1 < s.len() && s[i] == TokV::Punct('-', true) && is_punct(s[i + 1], '>')
}

/// The contents of the impl block, which stands at index `g` of the input.
pub open spec fn method_spec(s: Seq<TokV>, g: int) -> Result<MethodV, ParseError> {
    let place = Place::ImplBlock(g as usize);
    match skip_attrs(s, 0) {
        Err(i) => Err(perr(ErrorKind::MalformedAttribute, place, i)),
        Ok(a) => {
            let f = scan(s, a, 0, Stop::Fn);
            if !syn_outer_attrs(text(s.subrange(0, a))) {
                Err(perr(ErrorKind::MalformedAttribute, place, 0))
            } else if f == s.len() {
                Err(perr(ErrorKind::ExpectedFn, place, f))
            } else if !syn_visibility(text(s.subrange(a, f))) {
                Err(perr(ErrorKind::MalformedVisibility, place, a))
            } else if !(f + 1 < s.len() && s[f + 1] is Ident && syn_ident(
                text(s.subrange(f + 1, f + 2)),
            )) {
                Err(perr(ErrorKind::ExpectedMethodName, place, f + 1))
            } else if !(f + 2 < s.len() && is_group(s[f + 2], Delim::Paren)) {
                Err(perr(ErrorKind::ExpectedArguments, place, f + 2))
            } else {
                match arguments(inner_of(s[f + 2])) {
                    Err((k, i)) => Err(perr(k, Place::Arguments(g as usize, (f + 2) as usize), i)),
                    Ok(params) => {
                        let has_ret = arrow_at(s, f + 3);
                        let b = if has_ret {
                            scan(s, f + 5, 0, Stop::Brace)
                        } else {
                            f + 3
                        };
                        if has_ret && (b <= f + 5 || !syn_type(text(s.subrange(f + 5, b)))) {
                            Err(perr(ErrorKind::MalformedReturnType, place, f + 5))
                        } else if !(b < s.len() && is_group(s[b], Delim::Brace)) {
                            Err(perr(ErrorKind::ExpectedMethodBody, place, b))
                        } else if b + 1 < s.len() {
                            Err(perr(ErrorKind::UnexpectedToken, place, b + 1))
                        } else {
                            Ok(
                                MethodV {
                                    fn_attrs: s.subrange(0, a),
                                    vis: s.subrange(a, f),
                                    method: ident_text(s[f + 1]),
                                    params,
                                    ret_ty: if has_ret {
                                        Some(s.subrange(f + 5, b))
                                    } else {
                                        None
                                    },
                                    body: inner_of(s[b]),
                                },
                            )
                        }
                    },
                }
            }
        },
    }
}

/// The end of the generic parameter list that starts at `g0`: after the
/// closing `>` where a `<` stands at `g0`; `g0` itself where none does.
pub open spec fn generics_end(s: Seq<TokV>, g0: int) -> int {
    if g0 < s.len() && is_punct(s[g0], '<') {
        close_angle(s, g0, 0) + 1
    } else {
        g0
    }
}

/// The parse of a whole input.
pub open spec fn parse_spec(s: Seq<TokV>) -> Result<DeclV, ParseError> {
    let place = Place::Outer;
    match skip_attrs(s, 0) {
        Err(i) => Err(perr(ErrorKind::MalformedAttribute, place, i)),
        Ok(a) => {
            let g0 = a + 1;
            let g1 = generics_end(s, g0);
            let t1 = scan(s, g1, 0, Stop::WhereOrBrace);
            let w1 = if t1 < s.len() && is_word(s[t1], "where"@) {
                scan(s, t1, 0, Stop::Brace)
            } else {
                t1
            };
            if !syn_outer_attrs(text(s.subrange(0, a))) {
                Err(perr(ErrorKind::MalformedAttribute, place, 0))
            } else if !(a < s.len() && is_word(s[a], "impl"@)) {
                Err(perr(ErrorKind::ExpectedImpl, place, a))
            } else if g1 > s.len() || !syn_generics(text(s.subrange(g0, g1))) {
                Err(perr(ErrorKind::MalformedGenerics, place, g0))
            } else if t1 == s.len() {
                Err(perr(ErrorKind::ExpectedImplBody, place, t1))
            } else if t1 == g1 || !syn_type(text(s.subrange(g1, t1))) {
                Err(perr(ErrorKind::MalformedSelfType, place, g1))
            } else if w1 == s.len() {
                Err(perr(ErrorKind::ExpectedImplBody, place, w1))
            } else if w1 > t1 && !syn_where_clause(text(s.subrange(t1, w1))) {
                Err(perr(ErrorKind::MalformedWhereClause, place, t1))
            } else {
                match method_spec(inner_of(s[w1]), w1) {
                    Err(e) => Err(e),
                    Ok(m) => if w1 + 1 < s.len() {
                        Err(perr(ErrorKind::UnexpectedToken, place, w1 + 1))
                    } else {
                        Ok(
                            DeclV {
                                outer_attrs: s.subrange(0, a),
                                generics: s.subrange(g0, g1),
                                self_ty: s.subrange(g1, t1),
                                where_clause: s.subrange(t1, w1),
                                fn_attrs: m.fn_attrs,
                                vis: m.vis,
                                method: m.method,
                                params: m.params,
                                ret_ty: m.ret_ty,
                                body: m.body,
                            },
                        )
                    },
                }
            }
        },
    }
}

/// Checks that the attribute itself is written without arguments.
pub fn parse_attribute_args(v: &Vec<Tok>) -> (r: Result<(), ParseError>)
    ensures
        r is Ok <==> v@.len() == 0,
        r is Err ==> r == Err::<(), ParseError>(
            perr(ErrorKind::UnexpectedAttributeArguments, Place::Outer, 0),
        ),
{
    if v.len() == 0 {
        Ok(())
    } else {
        Err(ParseError { kind: ErrorKind::UnexpectedAttributeArguments, place: Place::Outer, index: 0 })
    }
}

// ---- the parser ----

pub open spec fn params_result_view(r: Result<Vec<Param>, (ErrorKind, usize)>) -> Result<
    Seq<ParamV>,
    (ErrorKind, int),
> {
    match r {
        Ok(ps) => Ok(params_view(ps@)),
        Err((k, i)) => Err((k, i as int)),
    }
}

pub open spec fn prepend(a: Seq<ParamV>, r: Result<Seq<ParamV>, (ErrorKind, int)>) -> Result<
    Seq<ParamV>,
    (ErrorKind, int),
> {
    match r {
        Ok(x) => Ok(a + x),
        Err(e) => Err(e),
    }
}

fn parse_params(v: &Vec<Tok>, first: usize) -> (r: Result<Vec<Param>, (ErrorKind, usize)>)
    requires
        first <= v@.len(),
    ensures
        params_result_view(r) == params_from(view_all(v@), first as int),
{
    let ghost s = view_all(v@);
    proof {
        lemma_view_all(v@);
    }
    let mut acc: Vec<Param> = Vec::new();
    let mut p: usize = first;
    proof {
        assert(params_view(acc@) =~= Seq::<ParamV>::empty());
        match params_from(s, p as int) {
            Ok(x) => assert(Seq::<ParamV>::empty() + x =~= x),
            Err(_) => {},
        }
    }
    while p < v.len()
        invariant
            first <= p <= v@.len(),
            s == view_all(v@),
            s.len() == v@.len(),
            forall|k: int| 0 <= k < v@.len() ==> #[trigger] s[k] == v@[k].view(),
            params_from(s, first as int) == prepend(params_view(acc@), params_from(s, p as int)),
        decreases v@.len() - p,
    {
        if !punct_is(&v[p], ',') {
            return Err((ErrorKind::ExpectedComma, p));
        }
        if p + 1 == v.len() {
            proof {
                assert(params_view(acc@) + Seq::<ParamV>::empty() =~= params_view(acc@));
            }
            return Ok(acc);
        }
        let name = match &v[p + 1] {
            Tok::Ident(x) => {
                let t = render(v, p + 1, p + 2);
                if is_ident(&t) {
                    Some(x.clone())
                } else {
                    None
                }
            },
            _ => None,
        };
        if name.is_none() {
            return Err((ErrorKind::MalformedArgumentName, p + 1));
        }
        if !(p + 2 < v.len() && punct_is(&v[p + 2], ':')) {
            return Err((ErrorKind::ExpectedColon, p + 2));
        }
        let e = scan_from(v, p + 3, Stop::Comma);
        if e <= p + 3 || !is_type(&render(v, p + 3, e)) {
            return Err((ErrorKind::MalformedArgumentType, p + 3));
        }
        let ty = copy_range(v, p + 3, e);
        let ghost old_acc = params_view(acc@);
        let param = Param { name: name.unwrap(), ty };
        let ghost pv = param.view();
        assert(pv == ParamV { name: ident_text(s[p + 1]), ty: s.subrange(p + 3, e as int) });
        acc.push(param);
        proof {
            assert(params_view(acc@) =~= old_acc.push(pv));
            match params_from(s, e as int) {
                Ok(x) => assert(old_acc + (seq![pv] + x) =~= old_acc.push(pv) + x),
                Err(_) => {},
            }
        }
        p = e;
    }
    proof {
        assert(params_view(acc@) + Seq::<ParamV>::empty() =~= params_view(acc@));
    }
    Ok(acc)
}

/// Reads the argument list of the method: the receiver, which must be `&self`,
/// then the parameters. An error's index refers to `v`.
pub fn parse_arguments(v: &Vec<Tok>) -> (r: Result<Vec<Param>, (ErrorKind, usize)>)
    ensures
        params_result_view(r) == arguments(view_all(v@)),
{
    proof {
        lemma_view_all(v@);
    }
    if v.len() == 0 {
        return Err((ErrorKind::Receiver(ReceiverIssue::Missing), 0));
    }
    if punct_is(&v[0], '&') {
        if v.len() >= 2 && word_is(&v[1], "self") {
            parse_params(v, 2)
        } else if v.len() >= 2 && word_is(&v[1], "mut") {
            Err((ErrorKind::Receiver(ReceiverIssue::Mutable), 1))
        } else {
            Err((ErrorKind::Receiver(ReceiverIssue::Other), 1))
        }
    } else if word_is(&v[0], "self") {
        if v.len() >= 2 && punct_is(&v[1], ':') {
            Err((ErrorKind::Receiver(ReceiverIssue::Other), 0))
        } else {
            Err((ErrorKind::Receiver(ReceiverIssue::Owning), 0))
        }
    } else if word_is(&v[0], "mut") {
        Err((ErrorKind::Receiver(ReceiverIssue::Owning), 0))
    } else {
        Err((ErrorKind::Receiver(ReceiverIssue::Missing), 0))
    }
}

struct Method {
    fn_attrs: Vec<Tok>,
    vis: Vec<Tok>,
    method: String,
    params: Vec<Param>,
    ret_ty: Option<Vec<Tok>>,
    body: Vec<Tok>,
}

impl Method {
    spec fn view(&self) -> MethodV {
        MethodV {
            fn_attrs: view_all(self.fn_attrs@),
            vis: view_all(self.vis@),
            method: self.method@,
            params: params_view(self.params@),
            ret_ty: match self.ret_ty {
                Some(t) => Some(view_all(t@)),
                None => None,
            },
            body: view_all(self.body@),
        }
    }
}

fn parse_method(v: &Vec<Tok>, g: usize) -> (r: Result<Method, ParseError>)
    ensures
        match r {
            Ok(m) => method_spec(view_all(v@), g as int) == Ok::<MethodV, ParseError>(m.view()),
            Err(e) => method_spec(view_all(v@), g as int) == Err::<MethodV, ParseError>(e),
        },
{
    let ghost s = view_all(v@);
    proof {
        lemma_view_all(v@);
    }
    let place = Place::ImplBlock(g);
    let a = match skip_attrs_from(v, 0) {
        Err(i) => {
            return Err(ParseError { kind: ErrorKind::MalformedAttribute, place, index: i });
        },
        Ok(a) => a,
    };
    proof {
        lemma_skip_attrs(s, 0);
    }
    let f = scan_from(v, a, Stop::Fn);
    if !is_outer_attrs(&render(v, 0, a)) {
        return Err(ParseError { kind: ErrorKind::MalformedAttribute, place, index: 0 });
    }
    if f == v.len() {
        return Err(ParseError { kind: ErrorKind::ExpectedFn, place, index: f });
    }
    if !is_visibility(&render(v, a, f)) {
        return Err(ParseError { kind: ErrorKind::MalformedVisibility, place, index: a });
    }
    let name = if f + 1 < v.len() {
        match &v[f + 1] {
            Tok::Ident(x) => {
                if is_ident(&render(v, f + 1, f + 2)) {
                    Some(x.clone())
                } else {
                    None
                }
            },
            _ => None,
        }
    } else {
        None
    };
    if name.is_none() {
        return Err(ParseError { kind: ErrorKind::ExpectedMethodName, place, index: f + 1 });
    }
    let args = if f + 2 < v.len() {
        group_in(&v[f + 2], Delim::Paren)
    } else {
        None
    };
    let args = match args {
        None => {
            return Err(ParseError { kind: ErrorKind::ExpectedArguments, place, index: f + 2 });
        },
        Some(x) => x,
    };
    let params = match parse_arguments(args) {
        Err((k, i)) => {
            return Err(ParseError { kind: k, place: Place::Arguments(g, f + 2), index: i });
        },
        Ok(ps) => ps,
    };
    let has_ret = v.len() - f > 4 && match &v[f + 3] {
        Tok::Punct(c, j) => *c == '-' && *j,
        _ => false,
    } && punct_is(&v[f + 4], '>');
    let b = if has_ret {
        scan_from(v, f + 5, Stop::Brace)
    } else {
        f + 3
    };
    if has_ret && (b <= f + 5 || !is_type(&render(v, f + 5, b))) {
        return Err(ParseError { kind: ErrorKind::MalformedReturnType, place, index: f + 5 });
    }
    let body = if b < v.len() {
        group_in(&v[b], Delim::Brace)
    } else {
        None
    };
    let bg = match body {
        None => {
            return Err(ParseError { kind: ErrorKind::ExpectedMethodBody, place, index: b });
        },
        Some(x) => x,
    };
    if b + 1 < v.len() {
        return Err(ParseError { kind: ErrorKind::UnexpectedToken, place, index: b + 1 });
    }
    let ret_ty = if has_ret {
        Some(copy_range(v, f + 5, b))
    } else {
        None
    };
    let body = copy_range(bg, 0, bg.len());
    let m = Method {
        fn_attrs: copy_range(v, 0, a),
        vis: copy_range(v, a, f),
        method: name.unwrap(),
        params,
        ret_ty,
        body,
    };
    proof {
        lemma_view_all(bg@);
        assert(view_all(bg@).subrange(0, bg@.len() as int) =~= view_all(bg@));
    }
    Ok(m)
}

/// Parses the input of the attribute: an `impl` block that holds one method
/// whose receiver is `&self`. The result holds the input's parts; an error
/// says what was wrong and where.
pub fn parse_declaration(v: &Vec<Tok>) -> (r: Result<Declaration, ParseError>)
    ensures
        result_view(r) == parse_spec(view_all(v@)),
{
    let ghost s = view_all(v@);
    proof {
        lemma_view_all(v@);
    }
    let place = Place::Outer;
    let a = match skip_attrs_from(v, 0) {
        Err(i) => {
            return Err(ParseError { kind: ErrorKind::MalformedAttribute, place, index: i });
        },
        Ok(a) => a,
    };
    proof {
        lemma_skip_attrs(s, 0);
    }
    if !is_outer_attrs(&render(v, 0, a)) {
        return Err(ParseError { kind: ErrorKind::MalformedAttribute, place, index: 0 });
    }
    if !(a < v.len() && word_is(&v[a], "impl")) {
        return Err(ParseError { kind: ErrorKind::ExpectedImpl, place, index: a });
    }
    let g0 = a + 1;
    let g1 = if g0 < v.len() && punct_is(&v[g0], '<') {
        let c = close_angle_from(v, g0);
        if c == v.len() {
            return Err(ParseError { kind: ErrorKind::MalformedGenerics, place, index: g0 });
        }
        c + 1
    } else {
        g0
    };
    if !is_generics(&render(v, g0, g1)) {
        return Err(ParseError { kind: ErrorKind::MalformedGenerics, place, index: g0 });
    }
    let t1 = scan_from(v, g1, Stop::WhereOrBrace);
    if t1 == v.len() {
        return Err(ParseError { kind: ErrorKind::ExpectedImplBody, place, index: t1 });
    }
    if t1 == g1 || !is_type(&render(v, g1, t1)) {
        return Err(ParseError { kind: ErrorKind::MalformedSelfType, place, index: g1 });
    }
    let w1 = if word_is(&v[t1], "where") {
        scan_from(v, t1, Stop::Brace)
    } else {
        t1
    };
    if w1 == v.len() {
        return Err(ParseError { kind: ErrorKind::ExpectedImplBody, place, index: w1 });
    }
    if w1 > t1 && !is_where_clause(&render(v, t1, w1)) {
        return Err(ParseError { kind: ErrorKind::MalformedWhereClause, place, index: t1 });
    }
    proof {
        lemma_scan(s, g1 as int, 0, Stop::WhereOrBrace);
        lemma_scan(s, t1 as int, 0, Stop::Brace);
    }
    let inner = match group_in(&v[w1], Delim::Brace) {
        Some(x) => x,
        None => {
            return Err(ParseError { kind: ErrorKind::ExpectedImplBody, place, index: w1 });
        },
    };
    let m = match parse_method(inner, w1) {
        Err(e) => {
            return Err(e);
        },
        Ok(m) => m,
    };
    if w1 + 1 < v.len() {
        return Err(ParseError { kind: ErrorKind::UnexpectedToken, place, index: w1 + 1 });
    }
    Ok(
        Declaration {
            outer_attrs: copy_range(v, 0, a),
            generics: copy_range(v, g0, g1),
            self_ty: copy_range(v, g1, t1),
            where_clause: copy_range(v, t1, w1),
            fn_attrs: m.fn_attrs,
            vis: m.vis,
            method: m.method,
            params: m.params,
            ret_ty: m.ret_ty,
            body: m.body,
        },
    )
}

} // verus!
