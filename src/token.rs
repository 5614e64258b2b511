//! A token tree, as a procedural macro receives it, with a mathematical view.
use vstd::prelude::*;
use vstd::string::*;

verus! {

/// The delimiter of a group.
#[derive(PartialEq, Eq, Structural, Clone, Copy, Debug)]
pub enum Delim {
    Paren,
    Brace,
    Bracket,
}

/// One token tree: a group holds the trees between its delimiters.
#[derive(Debug)]
pub enum Tok {
    Ident(String),
    /// A punctuation character; `true` when it is joined to the next one (`->`, `::`).
    Punct(char, bool),
    Literal(String),
    Group(Delim, Vec<Tok>),
}

/// The mathematical value of a token tree.
pub enum TokV {
    Ident(Seq<char>),
    Punct(char, bool),
    Literal(Seq<char>),
    Group(Delim, Seq<TokV>),
}

impl Tok {
    pub open spec fn view(&self) -> TokV
        decreases self, 0nat,
    {
        match self {
            Tok::Ident(s) => TokV::Ident(s@),
            Tok::Punct(c, j) => TokV::Punct(*c, *j),
            Tok::Literal(s) => TokV::Literal(s@),
            Tok::Group(d, v) => TokV::Group(*d, toks_view(v@, v@.len() as int)),
        }
    }
}

/// The views of the first `n` trees of `s`.
pub open spec fn toks_view(s: Seq<Tok>, n: int) -> Seq<TokV>
    decreases s, n,
{
    if n <= 0 || n > s.len() {
        Seq::empty()
    } else {
        toks_view(s, n - 1).push(s[n - 1].view())
    }
}

/// The view of a whole sequence of trees.
pub open spec fn view_all(s: Seq<Tok>) -> Seq<TokV> {
    toks_view(s, s.len() as int)
}

pub proof fn lemma_toks_view(s: Seq<Tok>, n: int)
    requires
        0 <= n <= s.len(),
    ensures
        toks_view(s, n).len() == n,
        forall|i: int| 0 <= i < n ==> #[trigger] toks_view(s, n)[i] == s[i].view(),
    decreases n,
{
    if n > 0 {
        lemma_toks_view(s, n - 1);
    }
}

/// Two sequences of trees with equal views elementwise have equal views.
pub proof fn lemma_view_all_ext(a: Seq<Tok>, b: Seq<TokV>)
    requires
        a.len() == b.len(),
        forall|i: int| 0 <= i < a.len() ==> #[trigger] a[i].view() == b[i],
    ensures
        view_all(a) == b,
{
    lemma_toks_view(a, a.len() as int);
    assert(view_all(a) =~= b);
}

pub proof fn lemma_view_all(a: Seq<Tok>)
    ensures
        view_all(a).len() == a.len(),
        forall|i: int| 0 <= i < a.len() ==> #[trigger] view_all(a)[i] == a[i].view(),
{
    lemma_toks_view(a, a.len() as int);
}

/// A deep copy of a tree.
pub fn copy_tok(t: &Tok) -> (r: Tok)
    ensures
        r.view() == t.view(),
    decreases t,
{
    match t {
        Tok::Ident(s) => Tok::Ident(s.clone()),
        Tok::Punct(c, j) => Tok::Punct(*c, *j),
        Tok::Literal(s) => Tok::Literal(s.clone()),
        Tok::Group(d, v) => {
            let w = copy_range(v, 0, v.len());
            proof {
                lemma_view_all(v@);
                assert(view_all(v@).subrange(0, v@.len() as int) =~= view_all(v@));
            }
            Tok::Group(*d, w)
        },
    }
}

/// Copies of the trees `v[a..b]`.
pub fn copy_range(v: &Vec<Tok>, a: usize, b: usize) -> (r: Vec<Tok>)
    requires
        a <= b <= v@.len(),
    ensures
        view_all(r@) == view_all(v@).subrange(a as int, b as int),
    decreases v, 0nat,
{
    let mut r: Vec<Tok> = Vec::new();
    let mut i: usize = a;
    proof {
        lemma_view_all(v@);
    }
    while i < b
        invariant
            a <= i <= b <= v@.len(),
            r@.len() == i - a,
            forall|k: int| 0 <= k < r@.len() ==> #[trigger] r@[k].view() == v@[a + k].view(),
            forall|k: int| 0 <= k < v@.len() ==> #[trigger] view_all(v@)[k] == v@[k].view(),
            view_all(v@).len() == v@.len(),
        decreases b - i,
    {
        assert(decreases_to!(v => v@[i as int]));
        let t = copy_tok(&v[i]);
        r.push(t);
        i = i + 1;
    }
    proof {
        lemma_view_all_ext(r@, view_all(v@).subrange(a as int, b as int));
    }
    r
}

pub open spec fn open_char(d: Delim) -> char {
    match d {
        Delim::Paren => '(',
        Delim::Brace => '{',
        Delim::Bracket => '[',
    }
}

pub open spec fn close_char(d: Delim) -> char {
    match d {
        Delim::Paren => ')',
        Delim::Brace => '}',
        Delim::Bracket => ']',
    }
}

/// Source text of one tree: words and literals end in a space, a joined
/// punctuation character does not.
pub open spec fn tok_text(t: TokV) -> Seq<char>
    decreases t, 0nat,
{
    match t {
        TokV::Ident(s) => s.push(' '),
        TokV::Literal(s) => s.push(' '),
        TokV::Punct(c, j) => if j {
            seq![c]
        } else {
            seq![c, ' ']
        },
        TokV::Group(d, inner) => seq![open_char(d)] + seq_text(inner, inner.len() as int) + seq![
            close_char(d),
            ' ',
        ],
    }
}

/// Source text of the first `n` trees of `s`.
pub open spec fn seq_text(s: Seq<TokV>, n: int) -> Seq<char>
    decreases s, n,
{
    if n <= 0 || n > s.len() {
        Seq::empty()
    } else {
        seq_text(s, n - 1) + tok_text(s[n - 1])
    }
}

/// Source text of a sequence of trees.
pub open spec fn text(s: Seq<TokV>) -> Seq<char> {
    seq_text(s, s.len() as int)
}

fn push_chars(s: &String, out: &mut Vec<char>)
    ensures
        final(out)@ == old(out)@ + s@,
{
    let a = s.as_str();
    let n = a.unicode_len();
    let mut i: usize = 0;
    while i < n
        invariant
            n == s@.len(),
            a@ == s@,
            i <= n,
            out@ == old(out)@ + s@.subrange(0, i as int),
        decreases n - i,
    {
        out.push(a.get_char(i));
        i = i + 1;
        assert(out@ =~= old(out)@ + s@.subrange(0, i as int));
    }
    assert(s@.subrange(0, n as int) =~= s@);
}

fn push_text(t: &Tok, out: &mut Vec<char>)
    ensures
        final(out)@ == old(out)@ + tok_text(t.view()),
    decreases t, 1nat,
{
    match t {
        Tok::Ident(s) => {
            push_chars(s, out);
            out.push(' ');
            assert(out@ =~= old(out)@ + tok_text(t.view()));
        },
        Tok::Literal(s) => {
            push_chars(s, out);
            out.push(' ');
            assert(out@ =~= old(out)@ + tok_text(t.view()));
        },
        Tok::Punct(c, j) => {
            out.push(*c);
            if !*j {
                out.push(' ');
            }
            assert(out@ =~= old(out)@ + tok_text(t.view()));
        },
        Tok::Group(d, v) => {
            let oc = match d {
                Delim::Paren => '(',
                Delim::Brace => '{',
                Delim::Bracket => '[',
            };
            let cc = match d {
                Delim::Paren => ')',
                Delim::Brace => '}',
                Delim::Bracket => ']',
            };
            out.push(oc);
            push_texts(v, 0, v.len(), out);
            proof {
                lemma_view_all(v@);
                assert(view_all(v@).subrange(0, v@.len() as int) =~= view_all(v@));
            }
            out.push(cc);
            out.push(' ');
            assert(out@ =~= old(out)@ + tok_text(t.view()));
        },
    }
}

fn push_texts(v: &Vec<Tok>, a: usize, b: usize, out: &mut Vec<char>)
    requires
        a <= b <= v@.len(),
    ensures
        final(out)@ == old(out)@ + text(view_all(v@).subrange(a as int, b as int)),
    decreases v, 0nat,
{
    let ghost sub = view_all(v@).subrange(a as int, b as int);
    proof {
        lemma_view_all(v@);
    }
    let mut i: usize = a;
    while i < b
        invariant
            a <= i <= b <= v@.len(),
            sub == view_all(v@).subrange(a as int, b as int),
            view_all(v@).len() == v@.len(),
            forall|k: int| 0 <= k < v@.len() ==> #[trigger] view_all(v@)[k] == v@[k].view(),
            out@ == old(out)@ + seq_text(sub, i - a),
        decreases b - i,
    {
        assert(decreases_to!(v => v@[i as int]));
        push_text(&v[i], out);
        assert(sub[i - a] == v@[i as int].view());
        assert(seq_text(sub, i - a + 1) == seq_text(sub, i - a) + tok_text(sub[i - a]));
        i = i + 1;
        assert(out@ =~= old(out)@ + seq_text(sub, i - a));
    }
}

/// The source text of the trees `v[a..b]`, as a parser reads it back.
pub fn render(v: &Vec<Tok>, a: usize, b: usize) -> (r: Vec<char>)
    requires
        a <= b <= v@.len(),
    ensures
        r@ == text(view_all(v@).subrange(a as int, b as int)),
{
    let mut out: Vec<char> = Vec::new();
    push_texts(v, a, b, &mut out);
    assert(out@ =~= text(view_all(v@).subrange(a as int, b as int)));
    out
}

/// Whether `s` holds exactly the characters of `w`.
pub fn string_is(s: &String, w: &str) -> (r: bool)
    ensures
        r == (s@ == w@),
{
    let a = s.as_str();
    let n = a.unicode_len();
    let m = w.unicode_len();
    if n != m {
        return false;
    }
    let mut i: usize = 0;
    while i < n
        invariant
            n == s@.len(),
            m == w@.len(),
            n == m,
            i <= n,
            a@ == s@,
            forall|k: int| 0 <= k < i ==> s@[k] == w@[k],
        decreases n - i,
    {
        if a.get_char(i) != w.get_char(i) {
            return false;
        }
        i = i + 1;
    }
    assert(s@ =~= w@);
    true
}

} // verus!
