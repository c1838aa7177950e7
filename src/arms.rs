//! Pattern-match arms for enum variants, as token sequences.
use vstd::prelude::*;
use vstd::string::*;
use crate::syntax::{Field, Fields, Ident, Variant};

verus! {

/// The bracket that encloses a group.
#[derive(Clone, Copy, Debug, PartialEq, Eq)]
pub enum Delimiter {
    Parenthesis,
    Brace,
}

/// One token of generated code. Groups are written as an opening and a
/// closing token around their contents.
#[derive(Clone, Debug, PartialEq, Eq)]
pub enum Token {
    /// An identifier, with the source location of what it names, or `None`
    /// for the place of the expansion.
    Ident(String, Option<usize>),
    /// A punctuation character; `true` when joined to the next one (`::`, `=>`).
    Punct(char, bool),
    Open(Delimiter),
    Close(Delimiter),
    /// Where the caller's code is placed, verbatim.
    Body,
}

/// The plain view of a `Token`: identifiers by their characters.
pub enum TokenView {
    Ident(Seq<char>, Option<usize>),
    Punct(char, bool),
    Open(Delimiter),
    Close(Delimiter),
    Body,
}

impl View for Token {
    type V = TokenView;

    open spec fn view(&self) -> TokenView {
        match self {
            Token::Ident(s, sp) => TokenView::Ident(s@, *sp),
            Token::Punct(c, j) => TokenView::Punct(*c, *j),
            Token::Open(d) => TokenView::Open(*d),
            Token::Close(d) => TokenView::Close(*d),
            Token::Body => TokenView::Body,
        }
    }
}

/// The tokens, each by its view.
pub open spec fn tokens_view(ts: Seq<Token>) -> Seq<TokenView> {
    ts.map_values(|t: Token| t@)
}

/// The decimal digits of `n`, most significant first.
pub open spec fn decimal(n: nat) -> Seq<char>
    decreases n,
{
    let d = seq!['0', '1', '2', '3', '4', '5', '6', '7', '8', '9'][(n % 10) as int];
    if n < 10 {
        seq![d]
    } else {
        decimal(n / 10).push(d)
    }
}

/// The name bound to the positional field at position `i`: `v0`, `v1`, ...
pub open spec fn binding_name(i: nat) -> Seq<char> {
    seq!['v'] + decimal(i)
}

/// `,`
pub open spec fn comma() -> TokenView {
    TokenView::Punct(',', false)
}

/// `Enum::Variant`
pub open spec fn variant_path(enum_name: Ident, variant: Variant) -> Seq<TokenView> {
    seq![
        TokenView::Ident(enum_name.name@, Some(enum_name.span)),
        TokenView::Punct(':', true),
        TokenView::Punct(':', false),
        TokenView::Ident(variant.ident.name@, Some(variant.ident.span)),
    ]
}

/// `=> { <prelude> <body> },`
pub open spec fn arm_body(prelude: Seq<TokenView>) -> Seq<TokenView> {
    seq![TokenView::Punct('=', true), TokenView::Punct('>', false), TokenView::Open(Delimiter::Brace)]
        + prelude + seq![TokenView::Body, TokenView::Close(Delimiter::Brace), comma()]
}

/// `name1, name2, ...`: each named field under its own name, at its location.
pub open spec fn named_bindings(fs: Seq<Field>) -> Seq<TokenView>
    decreases fs.len(),
{
    if fs.len() == 0 {
        seq![]
    } else {
        let last = TokenView::Ident(fs.last().ident.unwrap()@, Some(fs.last().span));
        if fs.len() == 1 {
            seq![last]
        } else {
            named_bindings(fs.drop_last()) + seq![comma(), last]
        }
    }
}

/// `v0, v1, ..., `: one binding per positional field, each followed by a comma.
pub open spec fn positional_bindings(fs: Seq<Field>) -> Seq<TokenView>
    decreases fs.len(),
{
    if fs.len() == 0 {
        seq![]
    } else {
        positional_bindings(fs.drop_last()) + seq![
            TokenView::Ident(binding_name((fs.len() - 1) as nat), Some(fs.last().span)),
            comma(),
        ]
    }
}

/// The match arm for `variant` of the enum `enum_name`.
pub open spec fn arm_tokens(enum_name: Ident, variant: Variant) -> Seq<TokenView> {
    let path = variant_path(enum_name, variant);
    match variant.fields {
        Fields::Named(fs) => path + seq![TokenView::Open(Delimiter::Brace)] + named_bindings(fs@)
            + seq![TokenView::Close(Delimiter::Brace)] + arm_body(seq![]),
        Fields::Unnamed(fs) => {
            let binds = positional_bindings(fs@);
            let aggregate = seq![
                TokenView::Ident("let"@, None),
                TokenView::Ident("variant"@, None),
                TokenView::Punct('=', false),
                TokenView::Open(Delimiter::Parenthesis),
            ] + binds + seq![TokenView::Close(Delimiter::Parenthesis), TokenView::Punct(';', false)];
            path + seq![TokenView::Open(Delimiter::Parenthesis)] + binds + seq![
                TokenView::Close(Delimiter::Parenthesis),
            ] + arm_body(aggregate)
        },
        Fields::Unit => path + arm_body(seq![]),
    }
}

fn push_token(out: &mut Vec<Token>, t: Token)
    ensures
        tokens_view(final(out)@) == tokens_view(old(out)@).push(t@),
{
    out.push(t);
    assert(tokens_view(out@) == tokens_view(old(out)@).push(t@));
}

/// Appends the decimal digits of `n` to `out`.
fn push_decimal(out: &mut String, n: usize)
    ensures
        final(out)@ == old(out)@ + decimal(n as nat),
    decreases n,
{
    if n >= 10 {
        push_decimal(out, n / 10);
    }
    let digits = "0123456789";
    proof {
        reveal_strlit("0123456789");
    }
    let d = n % 10;
    let digit = digits.substring_char(d, d + 1);
    out.append(digit);
    proof {
        assert(digit@ =~= seq![seq!['0', '1', '2', '3', '4', '5', '6', '7', '8', '9'][(n % 10) as int]]);
        assert(out@ =~= old(out)@ + decimal(n as nat));
    }
}

/// The name bound to the positional field at position `i`.
fn positional_name(i: usize) -> (r: String)
    ensures
        r@ == binding_name(i as nat),
{
    let mut name = "v".to_owned();
    proof {
        reveal_strlit("v");
    }
    push_decimal(&mut name, i);
    name
}

fn push_ident(out: &mut Vec<Token>, id: &Ident)
    ensures
        tokens_view(final(out)@) == tokens_view(old(out)@).push(TokenView::Ident(id.name@, Some(id.span))),
{
    push_token(out, Token::Ident(id.name.clone(), Some(id.span)));
}

fn push_arrow(out: &mut Vec<Token>)
    ensures
        tokens_view(final(out)@) == tokens_view(old(out)@) + seq![
            TokenView::Punct('=', true),
            TokenView::Punct('>', false),
            TokenView::Open(Delimiter::Brace),
        ],
{
    push_token(out, Token::Punct('=', true));
    push_token(out, Token::Punct('>', false));
    push_token(out, Token::Open(Delimiter::Brace));
}

fn push_positional_bindings(out: &mut Vec<Token>, fs: &Vec<Field>)
    ensures
        tokens_view(final(out)@) == tokens_view(old(out)@) + positional_bindings(fs@),
{
    let n = fs.len();
    let mut i: usize = 0;
    while i < n
        invariant
            n == fs@.len(),
            0 <= i <= n,
            tokens_view(out@) == tokens_view(old(out)@) + positional_bindings(fs@.take(i as int)),
        decreases n - i,
    {
        let ghost prev = tokens_view(out@);
        let name = positional_name(i);
        push_token(out, Token::Ident(name, Some(fs[i].span)));
        push_token(out, Token::Punct(',', false));
        proof {
            assert(fs@.take(i + 1).drop_last() == fs@.take(i as int));
            assert(prev.push(TokenView::Ident(binding_name(i as nat), Some(fs@[i as int].span))).push(comma())
                == tokens_view(old(out)@) + positional_bindings(fs@.take(i + 1)));
        }
        i += 1;
    }
    assert(fs@.take(n as int) == fs@);
}

fn push_named_bindings(out: &mut Vec<Token>, fs: &Vec<Field>)
    requires
        forall|i: int| 0 <= i < fs@.len() ==> (#[trigger] fs@[i]).ident.is_some(),
    ensures
        tokens_view(final(out)@) == tokens_view(old(out)@) + named_bindings(fs@),
{
    let n = fs.len();
    let mut i: usize = 0;
    while i < n
        invariant
            n == fs@.len(),
            0 <= i <= n,
            forall|i: int| 0 <= i < fs@.len() ==> (#[trigger] fs@[i]).ident.is_some(),
            tokens_view(out@) == tokens_view(old(out)@) + named_bindings(fs@.take(i as int)),
        decreases n - i,
    {
        let ghost prev = tokens_view(out@);
        if i > 0 {
            push_token(out, Token::Punct(',', false));
        }
        let f = &fs[i];
        let name = match &f.ident {
            Some(id) => id.clone(),
            None => String::new(),
        };
        push_token(out, Token::Ident(name, Some(f.span)));
        proof {
            assert(fs@.take(i + 1).drop_last() == fs@.take(i as int));
            let last = TokenView::Ident(f.ident.unwrap()@, Some(f.span));
            if i == 0 {
                assert(prev.push(last) == tokens_view(old(out)@) + named_bindings(fs@.take(i + 1)));
            } else {
                assert(prev.push(comma()).push(last) == tokens_view(old(out)@) + named_bindings(
                    fs@.take(i + 1),
                ));
            }
        }
        i += 1;
    }
    assert(fs@.take(n as int) == fs@);
}

/// The match arm for one variant of the enum `enum_name`, binding every field:
/// named fields under their own names (`E::V { a, b } => { .. },`), positional
/// fields as `v0`, `v1`, ... with the tuple of them bound to `variant` before
/// the caller's code (`E::V(v0, v1,) => { let variant = (v0, v1,); .. },`),
/// and no bindings for a variant without fields (`E::V => { .. },`). The
/// caller's code stands where the `Body` token is.
pub fn normalized_variant_match_cause(enum_name: &Ident, variant: &Variant) -> (r: Vec<Token>)
    requires
        variant.fields.wf(),
    ensures
        tokens_view(r@) == arm_tokens(*enum_name, *variant),
{
    let mut out: Vec<Token> = Vec::new();
    push_ident(&mut out, enum_name);
    push_token(&mut out, Token::Punct(':', true));
    push_token(&mut out, Token::Punct(':', false));
    push_ident(&mut out, &variant.ident);
    let ghost path = tokens_view(out@);
    assert(path == variant_path(*enum_name, *variant));
    match &variant.fields {
        Fields::Named(fs) => {
            push_token(&mut out, Token::Open(Delimiter::Brace));
            push_named_bindings(&mut out, fs);
            push_token(&mut out, Token::Close(Delimiter::Brace));
            push_arrow(&mut out);
        },
        Fields::Unnamed(fs) => {
            push_token(&mut out, Token::Open(Delimiter::Parenthesis));
            push_positional_bindings(&mut out, fs);
            push_token(&mut out, Token::Close(Delimiter::Parenthesis));
            push_arrow(&mut out);
            push_token(&mut out, Token::Ident("let".to_owned(), None));
            push_token(&mut out, Token::Ident("variant".to_owned(), None));
            push_token(&mut out, Token::Punct('=', false));
            push_token(&mut out, Token::Open(Delimiter::Parenthesis));
            push_positional_bindings(&mut out, fs);
            push_token(&mut out, Token::Close(Delimiter::Parenthesis));
            push_token(&mut out, Token::Punct(';', false));
        },
        Fields::Unit => {
            push_arrow(&mut out);
        },
    }
    push_token(&mut out, Token::Body);
    push_token(&mut out, Token::Close(Delimiter::Brace));
    push_token(&mut out, Token::Punct(',', false));
    assert(tokens_view(out@) == arm_tokens(*enum_name, *variant));
    out
}

/// The arm is a function of the enum name and the variant alone: two
/// syntheses for the same input give the same tokens, names included.
pub proof fn lemma_arm_repeatable(enum_name: Ident, variant: Variant, r1: Seq<Token>, r2: Seq<Token>)
    requires
        tokens_view(r1) == arm_tokens(enum_name, variant),
        tokens_view(r2) == arm_tokens(enum_name, variant),
    ensures
        tokens_view(r1) == tokens_view(r2),
        forall|i: int| 0 <= i < r1.len() ==> (#[trigger] r1[i])@ == r2[i]@,
{
    assert forall|i: int| 0 <= i < r1.len() implies (#[trigger] r1[i])@ == r2[i]@ by {
        assert(tokens_view(r1).len() == r1.len());
        assert(tokens_view(r2).len() == r2.len());
        assert(tokens_view(r1)[i] == r1[i]@);
        assert(tokens_view(r2)[i] == r2[i]@);
    }
}

} // verus!
