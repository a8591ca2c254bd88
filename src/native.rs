//! The host compiler's view of a program, as plain values: resolved types,
//! definitions with their attributes, and expressions. The host fills these
//! in; elevation and queries read them.

use vstd::prelude::*;

use crate::fact::{attributes_view, Attribute, AttributeModel};
use crate::location::{join, DefPath, HirId};

verus! {

broadcast use vstd::std_specs::vec::axiom_vec_index_decreases;

/// A token of an attribute's delimited arguments.
#[derive(Debug)]
pub enum TokenTree {
    Literal(String),
    Ident(String),
    Eq,
    Comma,
    Colon,
    Semi,
    /// Any other punctuation, which is left out of the text.
    Other,
    /// A delimited group; its delimiters are left out of the text.
    Delimited(Vec<TokenTree>),
}

/// The arguments of an attribute.
#[derive(Debug)]
pub enum AttrArgs {
    Empty,
    /// `#[name = value]`: the value as written.
    Eq(String),
    Delimited(Vec<TokenTree>),
}

/// An attribute as the host records it.
#[derive(Debug)]
pub enum NativeAttr {
    Normal { name: String, args: AttrArgs },
    /// One line of documentation.
    DocComment(String),
}

/// The text of one token.
pub open spec fn token_text(t: TokenTree) -> Seq<char>
    decreases t,
{
    match t {
        TokenTree::Literal(s) => s@,
        TokenTree::Ident(s) => s@,
        TokenTree::Eq => seq!['='],
        TokenTree::Comma => seq![','],
        TokenTree::Colon => seq![':'],
        TokenTree::Semi => seq![';'],
        TokenTree::Other => Seq::empty(),
        TokenTree::Delimited(v) => tokens_text_upto(v, v.len() as int),
    }
}

/// The text of the first `n` tokens of `v`, written one after another.
pub open spec fn tokens_text_upto(v: Vec<TokenTree>, n: int) -> Seq<char>
    decreases v, n,
{
    if n <= 0 || n > v.len() {
        Seq::empty()
    } else {
        tokens_text_upto(v, n - 1) + token_text(v[n - 1])
    }
}

/// The text of a token stream: each token's text, with nothing between.
pub fn pretty_print_delimited_token_stream(toks: &Vec<TokenTree>) -> (r: String)
    ensures
        r@ == tokens_text_upto(*toks, toks@.len() as int),
    decreases toks,
{
    let mut out = String::new();
    let mut i: usize = 0;
    while i < toks.len()
        invariant
            i <= toks@.len(),
            out@ == tokens_text_upto(*toks, i as int),
        decreases toks@.len() - i,
    {
        proof {
            reveal_strlit("=");
            reveal_strlit(",");
            reveal_strlit(":");
            reveal_strlit(";");
        }
        match &toks[i] {
            TokenTree::Literal(s) => out.append(s.as_str()),
            TokenTree::Ident(s) => out.append(s.as_str()),
            TokenTree::Eq => out.append("="),
            TokenTree::Comma => out.append(","),
            TokenTree::Colon => out.append(":"),
            TokenTree::Semi => out.append(";"),
            TokenTree::Other => {},
            TokenTree::Delimited(inner) => {
                let t = pretty_print_delimited_token_stream(inner);
                out.append(t.as_str());
            },
        }
        proof {
            assert(tokens_text_upto(*toks, i + 1) == tokens_text_upto(*toks, i as int) + token_text(toks@[i as int]));
            assert(out@ =~= tokens_text_upto(*toks, i + 1));
        }
        i = i + 1;
    }
    out
}

/// The argument text of an attribute: empty, the value after `=`, or the
/// text of its delimited tokens.
pub open spec fn args_text(a: AttrArgs) -> Seq<char> {
    match a {
        AttrArgs::Empty => Seq::empty(),
        AttrArgs::Eq(s) => s@,
        AttrArgs::Delimited(v) => tokens_text_upto(v, v.len() as int),
    }
}

/// The fact-model attributes of a definition: one for each attribute that is
/// not documentation, in order.
pub open spec fn attributes_of(attrs: Seq<NativeAttr>) -> Seq<AttributeModel>
    decreases attrs.len(),
{
    if attrs.len() == 0 {
        Seq::empty()
    } else {
        let rest = attributes_of(attrs.drop_last());
        match attrs.last() {
            NativeAttr::Normal { name, args } => rest.push(
                AttributeModel { name: name@, value_str: Some(args_text(args)) },
            ),
            NativeAttr::DocComment(_) => rest,
        }
    }
}

/// The attributes of a definition, documentation left out.
pub fn attributes_for_did(attrs: &Vec<NativeAttr>) -> (r: Vec<Attribute>)
    ensures
        attributes_view(r@) == attributes_of(attrs@),
{
    let mut out: Vec<Attribute> = Vec::new();
    let mut i: usize = 0;
    while i < attrs.len()
        invariant
            i <= attrs@.len(),
            attributes_view(out@) == attributes_of(attrs@.subrange(0, i as int)),
        decreases attrs@.len() - i,
    {
        proof {
            let s = attrs@.subrange(0, i as int + 1);
            assert(s.drop_last() =~= attrs@.subrange(0, i as int));
        }
        match &attrs[i] {
            NativeAttr::Normal { name, args } => {
                let value = match args {
                    AttrArgs::Empty => String::new(),
                    AttrArgs::Eq(s) => s.clone(),
                    AttrArgs::Delimited(v) => pretty_print_delimited_token_stream(v),
                };
                let ghost before = out@;
                out.push(Attribute { name: name.clone(), value_str: Some(value) });
                proof {
                    assert(attributes_view(out@) =~= attributes_view(before).push(
                        AttributeModel { name: name@, value_str: Some(args_text(*args)) }));
                }
            },
            NativeAttr::DocComment(_) => {},
        }
        i = i + 1;
    }
    proof {
        assert(attrs@.subrange(0, i as int) =~= attrs@);
    }
    out
}

/// The documentation lines among a definition's attributes, in order.
pub open spec fn doc_lines(attrs: Seq<NativeAttr>) -> Seq<Seq<char>>
    decreases attrs.len(),
{
    if attrs.len() == 0 {
        Seq::empty()
    } else {
        let rest = doc_lines(attrs.drop_last());
        match attrs.last() {
            NativeAttr::DocComment(s) => rest.push(s@),
            NativeAttr::Normal { .. } => rest,
        }
    }
}

/// The documentation of a definition: its documentation lines joined by line
/// breaks, or none when that text is empty.
pub open spec fn doc_comment_of(attrs: Seq<NativeAttr>) -> Option<Seq<char>> {
    let d = join(doc_lines(attrs), seq!['\n']);
    if attrs.len() == 0 || d.len() == 0 {
        None
    } else {
        Some(d)
    }
}

/// The documentation of a definition.
pub fn doc_comment_for_did(attrs: &Vec<NativeAttr>) -> (r: Option<String>)
    ensures
        match r {
            Some(s) => doc_comment_of(attrs@) == Some(s@),
            None => doc_comment_of(attrs@) is None,
        },
{
    if attrs.len() == 0 {
        return None;
    }
    proof {
        reveal_strlit("\n");
    }
    let mut out = String::new();
    let mut lines: usize = 0;
    let mut i: usize = 0;
    while i < attrs.len()
        invariant
            i <= attrs@.len(),
            lines == doc_lines(attrs@.subrange(0, i as int)).len(),
            lines <= i,
            out@ == join(doc_lines(attrs@.subrange(0, i as int)), seq!['\n']),
            "\n"@ == seq!['\n'],
        decreases attrs@.len() - i,
    {
        proof {
            let s = attrs@.subrange(0, i as int + 1);
            assert(s.drop_last() =~= attrs@.subrange(0, i as int));
        }
        match &attrs[i] {
            NativeAttr::DocComment(d) => {
                let ghost prev = doc_lines(attrs@.subrange(0, i as int));
                let ghost next = doc_lines(attrs@.subrange(0, i as int + 1));
                if lines > 0 {
                    out.append("\n");
                }
                out.append(d.as_str());
                lines = lines + 1;
                proof {
                    assert(next == prev.push(d@));
                    assert(next.drop_last() =~= prev);
                    if prev.len() == 0 {
                        assert(out@ =~= next[0]);
                    }
                }
            },
            NativeAttr::Normal { .. } => {},
        }
        i = i + 1;
    }
    proof {
        assert(attrs@.subrange(0, i as int) =~= attrs@);
    }
    if out.unicode_len() == 0 {
        None
    } else {
        Some(out)
    }
}

/// A signed integer width.
#[derive(Clone, Copy, Debug, PartialEq, Eq, Structural)]
pub enum IntTy {
    I8,
    I16,
    I32,
    I64,
    I128,
    Isize,
}

/// An unsigned integer width.
#[derive(Clone, Copy, Debug, PartialEq, Eq, Structural)]
pub enum UintTy {
    U8,
    U16,
    U32,
    U64,
    U128,
    Usize,
}

/// A floating-point width.
#[derive(Clone, Copy, Debug, PartialEq, Eq, Structural)]
pub enum FloatTy {
    F32,
    F64,
}

/// A type as the host resolves it, with generics substituted.
#[derive(Debug)]
pub enum NativeType {
    Bool,
    Int(IntTy),
    Uint(UintTy),
    Float(FloatTy),
    Str,
    /// A reference or other transparent indirection.
    Ref(Box<NativeType>),
    Tuple(Vec<NativeType>),
    /// A struct, enum or union: `id` is the index, in the type table, of this
    /// declaration together with these generic arguments; `args` are the
    /// generic arguments themselves.
    Adt { id: usize, args: Vec<NativeType> },
    /// A closure: its parameter types and return type.
    Closure { inputs: Vec<NativeType>, output: Box<NativeType> },
    /// A function item, with its signature.
    FnDef(Box<NativeFnDef>),
    /// An opaque type, with the type it stands for.
    Opaque(Box<NativeType>),
    /// The state machine of an asynchronous body, with its output type.
    Coroutine { output: Box<NativeType> },
    /// Anything else (pointers, slices, arrays, trait objects, ...).
    Other,
}

/// A field of a struct or of an enum variant.
#[derive(Debug)]
pub struct NativeField {
    /// The field's name; a tuple field is named by its position.
    pub name: String,
    pub ty: NativeType,
    pub attrs: Vec<NativeAttr>,
}

/// A variant of an enum.
#[derive(Debug)]
pub struct NativeVariant {
    pub name: String,
    pub fields: Vec<NativeField>,
    pub attrs: Vec<NativeAttr>,
}

/// The shape of a struct, enum or union.
#[derive(Debug)]
pub enum AdtKind {
    Struct(Vec<NativeField>),
    Enum(Vec<NativeVariant>),
    Union,
}

/// One declaration together with one list of generic arguments.
#[derive(Debug)]
pub struct AdtInstance {
    pub def_path: DefPath,
    pub kind: AdtKind,
    pub attrs: Vec<NativeAttr>,
}

/// A function definition.
#[derive(Debug)]
pub struct NativeFnDef {
    pub def_path: DefPath,
    pub inputs: Vec<NativeType>,
    /// The declared output; for an asynchronous function, the future.
    pub output: NativeType,
    pub is_async: bool,
    pub attrs: Vec<NativeAttr>,
}

/// What the host knows of the program's types.
#[derive(Debug)]
pub struct TypeTable {
    pub adts: Vec<AdtInstance>,
}

/// An expression as the host resolves it.
#[derive(Debug)]
pub enum NativeExpr {
    /// A string literal.
    StrLit(String),
    /// `receiver.method(args)`, with the resolved method, if the host
    /// resolved one.
    MethodCall { target: Option<DefPath>, receiver: Box<NativeExpr>, args: Vec<NativeExpr>, hir_id: HirId },
    /// `callee(args)`, with the resolved callee, if the host resolved one.
    Call { callee: Option<DefPath>, args: Vec<NativeExpr>, hir_id: HirId },
    /// A closure literal: its parameter and return types, and its body.
    Closure { inputs: Vec<NativeType>, output: Box<NativeType>, body: Box<NativeExpr> },
    /// Any other expression: its static type and its sub-expressions.
    Other { ty: NativeType, children: Vec<NativeExpr> },
}

/// A function declaration.
#[derive(Debug)]
pub struct NativeFnItem {
    pub def_path: DefPath,
    pub inputs: Vec<NativeType>,
    /// The declared return type; none when the signature declares none.
    pub output: Option<NativeType>,
    pub is_async: bool,
    pub attrs: Vec<NativeAttr>,
    /// Whether the declaration has generic parameters (lifetimes included).
    pub has_generics: bool,
    pub has_body: bool,
    /// The owner of the function's body.
    pub body_id: HirId,
}

/// An item inside an impl block.
#[derive(Debug)]
pub enum NativeImplItem {
    Const,
    Type,
    Fn(NativeFnItem),
}

/// A declaration of the program.
#[derive(Debug)]
pub enum NativeItem {
    Fn(NativeFnItem),
    /// An impl block: the trait it implements, if any, the type it is for, and
    /// its items.
    Impl { of_trait: Option<DefPath>, self_ty: NativeType, items: Vec<NativeImplItem> },
    Other,
}

/// The program as the host hands it over once type-checking is done: its
/// types, every declaration (nested ones included), and the bodies of its
/// items.
#[derive(Debug)]
pub struct Program {
    pub types: TypeTable,
    pub items: Vec<NativeItem>,
    pub bodies: Vec<NativeExpr>,
}

} // verus!
