//! The type resolver: turns type-specifier tokens into interned IR type
//! handles, and qualifier tokens into an accumulated `TypeQualifiers`.

use vstd::prelude::*;

use crate::ast::{
    inserted, quals_initial, LayoutQualifiers, QualifierEntry, QualifierKey, QualifierValue,
    StorageQualifier, TypeQualifiers,
};
use crate::error::{Error, ErrorKind, SemanticErrorKind};
use crate::ir::{
    AddressSpace, ArraySize, Constant, ConstantHandle, ConstantInner, Interpolation, Precision,
    Sampling, ScalarValue, StorageAccess, StructLayout, StructMember, Type, TypeHandle, TypeInner,
    STORAGE_ACCESS_ALL,
};
use crate::module::{constant_index, intern_index, interned_constants, interned_types};
use crate::parser::{type_find, Parser, ParsingContext, TypeNameEntry};
use crate::span::Span;
use crate::token::{ExpectedToken, Token, TokenValue};

verus! {

/// Tokens that open (or continue) a qualifier list.
pub open spec fn is_type_qualifier_token(v: TokenValue) -> bool {
    match v {
        TokenValue::Interpolation(_) => true,
        TokenValue::Sampling(_) => true,
        TokenValue::PrecisionQualifier(_) => true,
        TokenValue::Const => true,
        TokenValue::In => true,
        TokenValue::Out => true,
        TokenValue::Uniform => true,
        TokenValue::Shared => true,
        TokenValue::Buffer => true,
        TokenValue::Restrict => true,
        TokenValue::StorageAccess(_) => true,
        TokenValue::Layout => true,
        _ => false,
    }
}

/// Tokens that open a type specifier, given the current type-name table.
pub open spec fn starts_type_name(v: TokenValue, lookup: Seq<TypeNameEntry>) -> bool {
    match v {
        TokenValue::TypeName(_) => true,
        TokenValue::Void => true,
        TokenValue::Struct => true,
        TokenValue::Identifier(name) => type_find(lookup, name@) is Some,
        _ => false,
    }
}

/// The interned constant an array length is kept as.
pub open spec fn uint_const(v: u64) -> Constant {
    Constant {
        name: None,
        inner: ConstantInner::Scalar { width: 4, value: ScalarValue::Uint(v) },
    }
}

/// The array type wrapped around `base`, its stride the base type's size.
pub open spec fn array_type(types: Seq<Type>, base: TypeHandle, size: ArraySize) -> Type {
    Type {
        name: None,
        inner: TypeInner::Array {
            base,
            size,
            stride: types[base.index as int].inner.spec_size(),
        },
    }
}

/// Prefix preservation composes across two arena-growing steps.
pub proof fn lemma_prefix_trans<T>(a: Seq<T>, b: Seq<T>, c: Seq<T>)
    requires
        a.len() <= b.len() <= c.len(),
        b.take(a.len() as int) == a,
        c.take(b.len() as int) == b,
    ensures
        c.take(a.len() as int) == a,
{
    assert forall|i: int| 0 <= i < a.len() implies c.take(a.len() as int)[i] == a[i] by {
        assert(c.take(b.len() as int)[i] == b[i]);
        assert(b.take(a.len() as int)[i] == a[i]);
    }
    assert(c.take(a.len() as int) =~= a);
}

/// A type-find hit through a well-formed table is a valid handle.
pub proof fn lemma_type_find_valid(s: Seq<TypeNameEntry>, name: Seq<char>, n: int)
    requires
        forall|i: int| 0 <= i < s.len() ==> #[trigger] s[i].handle.index < n,
        type_find(s, name) is Some,
    ensures
        type_find(s, name)->Some_0.index < n,
    decreases s.len(),
{
    if s.len() > 0 && !(s.last().name@ == name) {
        assert forall|i: int| 0 <= i < s.drop_last().len() implies #[trigger] s.drop_last()[i].handle.index
            < n by {
            assert(s.drop_last()[i] == s[i]);
        }
        lemma_type_find_valid(s.drop_last(), name, n);
    }
}


/// The array specifier at the head of `ts` is absent or well formed.
pub open spec fn array_suffix_ok(ts: Seq<Token>) -> bool {
    ||| !(ts.len() > 0 && ts[0].value is LeftBracket)
    ||| (ts.len() > 1 && ts[0].value is LeftBracket && ts[1].value is RightBracket)
    ||| (ts.len() > 2 && ts[0].value is LeftBracket && ts[1].value is UintConstant
        && ts[2].value is RightBracket)
}

/// How many tokens a well-formed array specifier at the head of `ts` takes.
pub open spec fn array_consumed(ts: Seq<Token>) -> int {
    if !(ts.len() > 0 && ts[0].value is LeftBracket) {
        0
    } else if ts.len() > 1 && ts[0].value is LeftBracket && ts[1].value is RightBracket {
        2
    } else {
        3
    }
}

/// What a well-formed array specifier at the head of `ts` parses to, with
/// array lengths interned into `constants`.
pub open spec fn array_size_of(ts: Seq<Token>, constants: Seq<Constant>) -> Option<
    (ArraySize, Span),
> {
    if !(ts.len() > 0 && ts[0].value is LeftBracket) {
        None
    } else if ts.len() > 1 && ts[0].value is LeftBracket && ts[1].value is RightBracket {
        Some((ArraySize::Dynamic, ts[0].meta.spec_subsume(ts[1].meta)))
    } else {
        Some(
            (
                ArraySize::Constant(
                    ConstantHandle {
                        index: constant_index(
                            constants,
                            uint_const(ts[1].value->UintConstant_0),
                        ) as usize,
                    },
                ),
                ts[0].meta.spec_subsume(ts[2].meta),
            ),
        )
    }
}

/// The constants arena after a well-formed array specifier at the head of
/// `ts` was parsed.
pub open spec fn array_constants(ts: Seq<Token>, constants: Seq<Constant>) -> Seq<Constant> {
    if ts.len() > 2 && ts[0].value is LeftBracket && ts[1].value is UintConstant
        && ts[2].value is RightBracket {
        interned_constants(constants, uint_const(ts[1].value->UintConstant_0))
    } else {
        constants
    }
}

/// The span of a full type specifier: the head token's span, grown by the
/// array specifier's if there was one.
pub open spec fn type_span(head_meta: Span, arr: Option<(ArraySize, Span)>) -> Span {
    match arr {
        Some((_, arr_meta)) => arr_meta.spec_subsume(head_meta),
        None => head_meta,
    }
}

/// The interned type of a named struct declaration: the declared name and
/// the parsed members (member names compared by their characters) with the
/// accumulated span.
pub open spec fn struct_matches(
    t: Type,
    name: Seq<char>,
    members: Seq<StructMember>,
    span: u32,
) -> bool {
    &&& (t.name matches Some(n) && n@ == name)
    &&& (t.inner matches TypeInner::Struct { members: stored, span: stored_span }
        && crate::ir::members_eq(stored@, members) && stored_span == span)
}

/// Token values accepted at the head of a type specifier.
pub open spec fn type_head_ok(v: TokenValue) -> bool {
    v is Void || v is Struct || v is TypeName || v is Identifier
}

impl Parser {
    /// Every handle in the type-name table points into the types arena.
    pub open spec fn wf(&self) -> bool {
        forall|i: int|
            0 <= i < self.lookup_type@.len() ==> #[trigger] self.lookup_type@[i].handle.index
                < self.module.types@.len()
    }

    /// Only the diagnostics list may change.
    pub open spec fn same_except_errors(pre: Parser, post: Parser) -> bool {
        &&& post.module.types@ == pre.module.types@
        &&& post.module.constants@ == pre.module.constants@
        &&& post.module.global_variables@ == pre.module.global_variables@
        &&& post.lookup_type@ == pre.lookup_type@
        &&& post.global_variables@ == pre.global_variables@
        &&& post.entry_args@ == pre.entry_args@
        &&& post.stage == pre.stage
    }

    /// Arenas only grow and the other parser state stands.
    pub open spec fn same_except_types(pre: Parser, post: Parser) -> bool {
        &&& post.module.constants@ == pre.module.constants@
        &&& post.module.global_variables@ == pre.module.global_variables@
        &&& post.lookup_type@ == pre.lookup_type@
        &&& post.global_variables@ == pre.global_variables@
        &&& post.entry_args@ == pre.entry_args@
        &&& post.errors@ == pre.errors@
        &&& post.stage == pre.stage
    }

    /// Wraps `base` in an interned array type when an array specifier was
    /// parsed; without one, hands `base` back.
    pub fn maybe_array(&mut self, base: TypeHandle, array_specifier: Option<(ArraySize, Span)>)
        -> (r: TypeHandle)
        requires
            old(self).wf(),
            base.index < old(self).module.types@.len(),
        ensures
            final(self).wf(),
            Parser::same_except_types(*old(self), *final(self)),
            old(self).module.types@.len() <= final(self).module.types@.len(),
            final(self).module.types@.take(old(self).module.types@.len() as int) == old(
                self,
            ).module.types@,
            r.index < final(self).module.types@.len(),
            array_specifier is None ==> *final(self) == *old(self) && r == base,
            array_specifier matches Some((size, _)) ==> {
                &&& final(self).module.types@ == interned_types(
                    old(self).module.types@,
                    array_type(old(self).module.types@, base, size),
                )
                &&& r.index == intern_index(
                    old(self).module.types@,
                    array_type(old(self).module.types@, base, size),
                )
            },
    {
        match array_specifier {
            Some((size, _)) => {
                let stride = self.module.types[base.index].inner.size();
                self.module.insert_type(
                    Type { name: None, inner: TypeInner::Array { base, size, stride } },
                )
            },
            None => base,
        }
    }
}

impl ParsingContext {
    /// Parses an optional array specifier: nothing, `[]` (dynamic size), or
    /// `[n]`, whose length is interned as an unsigned scalar constant so
    /// later stages can share or specialize it; the same length resolved
    /// twice shares one constant, which keeps type interning idempotent for
    /// sized arrays.
    pub fn parse_array_specifier(&mut self, parser: &mut Parser) -> (r: Result<
        Option<(ArraySize, Span)>,
        Error,
    >)
        ensures
            final(parser).module.types@ == old(parser).module.types@,
            final(parser).module.global_variables@ == old(parser).module.global_variables@,
            final(parser).lookup_type@ == old(parser).lookup_type@,
            final(parser).global_variables@ == old(parser).global_variables@,
            final(parser).entry_args@ == old(parser).entry_args@,
            final(parser).errors@ == old(parser).errors@,
            final(parser).stage == old(parser).stage,
            ({
                let ts = old(self).tokens@;
                let cs = old(parser).module.constants@;
                &&& (!(ts.len() > 0 && ts[0].value is LeftBracket) ==> r == Ok::<
                    Option<(ArraySize, Span)>,
                    Error,
                >(None) && final(self).tokens@ == ts && final(parser).module.constants@ == cs)
                &&& (ts.len() > 1 && ts[0].value is LeftBracket && ts[1].value is RightBracket
                    ==> r == Ok::<Option<(ArraySize, Span)>, Error>(
                    Some((ArraySize::Dynamic, ts[0].meta.spec_subsume(ts[1].meta))),
                ) && final(self).tokens@ == ts.skip(2) && final(parser).module.constants@ == cs)
                &&& (ts.len() > 2 && ts[0].value is LeftBracket && ts[1].value is UintConstant
                    && ts[2].value is RightBracket ==> r == Ok::<Option<(ArraySize, Span)>, Error>(
                    Some(
                        (
                            ArraySize::Constant(
                                ConstantHandle {
                                    index: constant_index(
                                        cs,
                                        uint_const(ts[1].value->UintConstant_0),
                                    ) as usize,
                                },
                            ),
                            ts[0].meta.spec_subsume(ts[2].meta),
                        ),
                    ),
                ) && final(self).tokens@ == ts.skip(3) && final(parser).module.constants@
                    == interned_constants(cs, uint_const(ts[1].value->UintConstant_0)))
                &&& (ts.len() == 1 && ts[0].value is LeftBracket ==> r == Err::<
                    Option<(ArraySize, Span)>,
                    Error,
                >(Error { kind: ErrorKind::EndOfFile, meta: Span::spec_undefined() })
                    && final(parser).module.constants@ == cs)
                &&& (ts.len() > 1 && ts[0].value is LeftBracket && !(ts[1].value is RightBracket)
                    && !(ts[1].value is UintConstant) ==> r == Err::<Option<(ArraySize, Span)>, Error>(
                    Error {
                        kind: ErrorKind::InvalidToken(ts[1].value, ExpectedToken::UintConstant),
                        meta: ts[1].meta,
                    },
                ) && final(parser).module.constants@ == cs)
                &&& (ts.len() == 2 && ts[0].value is LeftBracket && ts[1].value is UintConstant
                    ==> r == Err::<Option<(ArraySize, Span)>, Error>(
                    Error { kind: ErrorKind::EndOfFile, meta: Span::spec_undefined() },
                ) && final(parser).module.constants@ == interned_constants(
                    cs,
                    uint_const(ts[1].value->UintConstant_0),
                ))
                &&& (ts.len() > 2 && ts[0].value is LeftBracket && ts[1].value is UintConstant
                    && !(ts[2].value is RightBracket) ==> r == Err::<Option<(ArraySize, Span)>, Error>(
                    Error {
                        kind: ErrorKind::InvalidToken(
                            ts[2].value,
                            ExpectedToken::Token(TokenValue::RightBracket),
                        ),
                        meta: ts[2].meta,
                    },
                ) && final(parser).module.constants@ == interned_constants(
                    cs,
                    uint_const(ts[1].value->UintConstant_0),
                ))
                &&& final(self).tokens@.len() <= ts.len()
                &&& (ts.len() > 0 && ts[0].value is LeftBracket ==> final(self).tokens@.len()
                    < ts.len())
            }),
    {
        let ghost ts = self.tokens@;
        if let Some(open_token) = self.bump_if(TokenValue::LeftBracket) {
            let mut meta = open_token.meta;
            proof {
                assert(self.tokens@ =~= ts.skip(1));
            }
            if let Some(close_token) = self.bump_if(TokenValue::RightBracket) {
                proof {
                    assert(self.tokens@ =~= ts.skip(2));
                }
                meta.subsume(close_token.meta);
                return Ok(Some((ArraySize::Dynamic, meta)));
            }
            let (value, _span) = match self.parse_uint_constant() {
                Ok(ok) => ok,
                Err(e) => {
                    return Err(e);
                },
            };
            proof {
                assert(self.tokens@ =~= ts.skip(2));
            }
            let constant = parser.module.fetch_or_append_constant(
                Constant {
                    name: None,
                    inner: ConstantInner::Scalar { width: 4, value: ScalarValue::Uint(value) },
                },
            );
            let end_token = match self.expect(TokenValue::RightBracket) {
                Ok(token) => token,
                Err(e) => {
                    return Err(e);
                },
            };
            proof {
                assert(self.tokens@ =~= ts.skip(3));
            }
            meta.subsume(end_token.meta);
            Ok(Some((ArraySize::Constant(constant), meta)))
        } else {
            Ok(None)
        }
    }

    /// Whether the next token opens a qualifier list.
    pub fn peek_type_qualifier(&self, parser: &Parser) -> (r: bool)
        ensures
            r == (self.tokens@.len() > 0 && is_type_qualifier_token(self.tokens@[0].value)),
    {
        let _ = parser;
        if self.tokens.len() == 0 {
            return false;
        }
        match &self.tokens[0].value {
            TokenValue::Interpolation(_)
            | TokenValue::Sampling(_)
            | TokenValue::PrecisionQualifier(_)
            | TokenValue::Const
            | TokenValue::In
            | TokenValue::Out
            | TokenValue::Uniform
            | TokenValue::Shared
            | TokenValue::Buffer
            | TokenValue::Restrict
            | TokenValue::StorageAccess(_)
            | TokenValue::Layout => true,
            _ => false,
        }
    }

    /// Whether the next token opens a type specifier.
    pub fn peek_type_name(&self, parser: &Parser) -> (r: bool)
        ensures
            r == (self.tokens@.len() > 0 && starts_type_name(
                self.tokens@[0].value,
                parser.lookup_type@,
            )),
    {
        if self.tokens.len() == 0 {
            return false;
        }
        match &self.tokens[0].value {
            TokenValue::TypeName(_) | TokenValue::Void => true,
            TokenValue::Struct => true,
            TokenValue::Identifier(ident) => parser.lookup_type_get(ident.as_str()).is_some(),
            _ => false,
        }
    }
}


impl ParsingContext {
    /// Resolves one full type specifier to an interned type handle: `void`
    /// (no handle), a built-in type name, a named `struct` declaration whose
    /// name is registered in the type-name table, or an identifier already in
    /// that table; then an optional array specifier is wrapped around the
    /// base. Any other head token, or an identifier that is not a type name,
    /// is a fatal error.
    pub fn parse_type(&mut self, parser: &mut Parser) -> (r: Result<
        (Option<TypeHandle>, Span),
        Error,
    >)
        requires
            old(parser).wf(),
        ensures
            final(parser).wf(),
            final(parser).entry_args@ == old(parser).entry_args@,
            final(parser).global_variables@ == old(parser).global_variables@,
            final(parser).errors@ == old(parser).errors@,
            final(parser).stage == old(parser).stage,
            final(parser).module.global_variables@ == old(parser).module.global_variables@,
            old(parser).module.types@.len() <= final(parser).module.types@.len(),
            old(parser).module.types@.len() <= final(parser).module.types@.len(),
            final(parser).module.types@.take(old(parser).module.types@.len() as int) == old(
                parser,
            ).module.types@,
            r is Ok && r->Ok_0.0 is Some ==> r->Ok_0.0->Some_0.index
                < final(parser).module.types@.len(),
            ({
                let ts = old(self).tokens@;
                let types0 = old(parser).module.types@;
                let cs0 = old(parser).module.constants@;
                let lookup0 = old(parser).lookup_type@;
                &&& (ts.len() == 0 ==> r == Err::<(Option<TypeHandle>, Span), Error>(
                    Error { kind: ErrorKind::EndOfFile, meta: Span::spec_undefined() },
                ) && *final(parser) == *old(parser) && final(self).tokens@ == ts)
                &&& (ts.len() > 0 && !type_head_ok(ts[0].value) ==> r == Err::<
                    (Option<TypeHandle>, Span),
                    Error,
                >(
                    Error {
                        kind: ErrorKind::InvalidToken(ts[0].value, ExpectedToken::TypeSpecifier),
                        meta: ts[0].meta,
                    },
                ) && *final(parser) == *old(parser) && final(self).tokens@ == ts.skip(1))
                &&& (ts.len() > 0 && ts[0].value is Identifier && type_find(
                    lookup0,
                    ts[0].value->Identifier_0@,
                ) is None ==> (r matches Err(e) && e.meta == ts[0].meta && (
                e.kind matches ErrorKind::UnknownType(n) && n@ == ts[0].value->Identifier_0@))
                    && *final(parser) == *old(parser) && final(self).tokens@ == ts.skip(1))
                &&& (ts.len() > 0 && ts[0].value is Void && array_suffix_ok(ts.skip(1)) ==> r
                    == Ok::<(Option<TypeHandle>, Span), Error>(
                    (None, type_span(ts[0].meta, array_size_of(ts.skip(1), cs0))),
                ) && final(self).tokens@ == ts.skip(1 + array_consumed(ts.skip(1)))
                    && final(parser).module.types@ == types0
                    && final(parser).module.constants@ == array_constants(
                    ts.skip(1),
                    cs0,
                ) && final(parser).lookup_type@ == lookup0)
                &&& (ts.len() > 0 && ts[0].value is TypeName && array_suffix_ok(ts.skip(1)) ==> ({
                    let tyv = ts[0].value->TypeName_0;
                    let types1 = interned_types(types0, tyv);
                    let base = TypeHandle { index: intern_index(types0, tyv) as usize };
                    let arr = array_size_of(ts.skip(1), cs0);
                    &&& final(self).tokens@ == ts.skip(1 + array_consumed(ts.skip(1)))
                    &&& final(parser).module.constants@ == array_constants(ts.skip(1), cs0)
                    &&& final(parser).lookup_type@ == lookup0
                    &&& (arr is None ==> final(parser).module.types@ == types1 && r == Ok::<
                        (Option<TypeHandle>, Span),
                        Error,
                    >((Some(base), ts[0].meta)))
                    &&& (arr matches Some((size, _)) ==> final(parser).module.types@
                        == interned_types(types1, array_type(types1, base, size)) && r == Ok::<
                        (Option<TypeHandle>, Span),
                        Error,
                    >(
                        (
                            Some(
                                TypeHandle {
                                    index: intern_index(
                                        types1,
                                        array_type(types1, base, size),
                                    ) as usize,
                                },
                            ),
                            type_span(ts[0].meta, arr),
                        ),
                    ))
                }))
                &&& (ts.len() > 0 && ts[0].value is Identifier && type_find(
                    lookup0,
                    ts[0].value->Identifier_0@,
                ) is Some && array_suffix_ok(ts.skip(1)) ==> ({
                    let base = type_find(lookup0, ts[0].value->Identifier_0@)->Some_0;
                    let arr = array_size_of(ts.skip(1), cs0);
                    &&& final(self).tokens@ == ts.skip(1 + array_consumed(ts.skip(1)))
                    &&& final(parser).module.constants@ == array_constants(ts.skip(1), cs0)
                    &&& final(parser).lookup_type@ == lookup0
                    &&& (arr is None ==> final(parser).module.types@ == types0 && r == Ok::<
                        (Option<TypeHandle>, Span),
                        Error,
                    >((Some(base), ts[0].meta)))
                    &&& (arr matches Some((size, _)) ==> final(parser).module.types@
                        == interned_types(types0, array_type(types0, base, size)) && r == Ok::<
                        (Option<TypeHandle>, Span),
                        Error,
                    >(
                        (
                            Some(
                                TypeHandle {
                                    index: intern_index(
                                        types0,
                                        array_type(types0, base, size),
                                    ) as usize,
                                },
                            ),
                            type_span(ts[0].meta, arr),
                        ),
                    ))
                }))
                &&& (ts.len() > 0 && (ts[0].value is Void || ts[0].value is TypeName)
                    && !array_suffix_ok(ts.skip(1)) ==> r is Err)
                &&& (ts.len() > 0 && ts[0].value is Struct ==> (r matches Ok(ok) ==> ({
                    &&& ok.0 is Some
                    &&& final(parser).lookup_type@.len() == lookup0.len() + 1
                    &&& final(parser).lookup_type@.drop_last() == lookup0
                    &&& ts.len() > 1 && ts[1].value is Identifier
                    &&& final(parser).lookup_type@.last().name@ == ts[1].value->Identifier_0@
                })))
                &&& (ts.len() > 2 && ts[0].value is Struct && ts[1].value is Identifier
                    && ts[2].value is LeftBrace ==> ({
                    let body = member_list_spec(
                        ts.skip(3),
                        lookup0,
                        types0,
                        cs0,
                        Seq::<StructMember>::empty(),
                        0,
                    );
                    &&& (!body.ok ==> r is Err)
                    &&& (body.ok && body.tokens.len() > 0 && body.tokens[0].value is RightBrace
                        && !(body.tokens.len() > 1 && body.tokens[1].value is LeftBracket) ==> ({
                        &&& r is Ok && r->Ok_0.0 is Some
                        &&& ({
                            let h = r->Ok_0.0->Some_0;
                            &&& h.index < final(parser).module.types@.len()
                            &&& struct_matches(
                                final(parser).module.types@[h.index as int],
                                ts[1].value->Identifier_0@,
                                body.members,
                                body.span,
                            )
                            &&& final(parser).lookup_type@.last().handle == h
                        })
                        &&& final(self).tokens@ == body.tokens.skip(1)
                        &&& final(parser).module.constants@ == body.constants
                    }))
                }))
            }),
    {
        let ghost ts = self.tokens@;
        let token = match self.bump() {
            Ok(token) => token,
            Err(e) => {
                return Err(e);
            },
        };
        proof {
            assert(self.tokens@ =~= ts.skip(1));
        }
        let token_meta = token.meta;
        let handle: Option<TypeHandle> = match token.value {
            TokenValue::Void => None,
            TokenValue::TypeName(ty) => Some(parser.module.insert_type(ty)),
            TokenValue::Struct => {
                let (ty_name, _name_meta) = match self.expect_ident() {
                    Ok(ok) => ok,
                    Err(e) => {
                        return Err(e);
                    },
                };
                match self.expect(TokenValue::LeftBrace) {
                    Ok(_) => (),
                    Err(e) => {
                        return Err(e);
                    },
                };
                proof {
                    assert(self.tokens@ =~= ts.skip(3));
                }
                let mut members: Vec<StructMember> = Vec::new();
                proof {
                    assert(members@ =~= Seq::<StructMember>::empty());
                }
                let span = match self.parse_struct_declaration_list(parser, &mut members) {
                    Ok(span) => span,
                    Err(e) => {
                        return Err(e);
                    },
                };
                match self.expect(TokenValue::RightBrace) {
                    Ok(_) => (),
                    Err(e) => {
                        return Err(e);
                    },
                };
                let registered_name = ty_name.clone();
                let ty = parser.module.insert_type(
                    Type { name: Some(ty_name), inner: TypeInner::Struct { members, span } },
                );
                parser.lookup_type_insert(registered_name, ty);
                Some(ty)
            },
            TokenValue::Identifier(ident) => match parser.lookup_type_get(ident.as_str()) {
                Some(ty) => {
                    proof {
                        lemma_type_find_valid(
                            parser.lookup_type@,
                            ident@,
                            parser.module.types@.len() as int,
                        );
                    }
                    Some(ty)
                },
                None => {
                    return Err(
                        Error { kind: ErrorKind::UnknownType(ident), meta: token_meta },
                    );
                },
            },
            other => {
                return Err(
                    Error {
                        kind: ErrorKind::InvalidToken(other, ExpectedToken::TypeSpecifier),
                        meta: token_meta,
                    },
                );
            },
        };
        let array_specifier = match self.parse_array_specifier(parser) {
            Ok(arr) => arr,
            Err(e) => {
                return Err(e);
            },
        };
        let handle = match handle {
            Some(base) => Some(parser.maybe_array(base, array_specifier)),
            None => None,
        };
        let mut meta = match array_specifier {
            Some((_, arr_meta)) => arr_meta,
            None => token_meta,
        };
        meta.subsume(token_meta);
        Ok((handle, meta))
    }

    /// Resolves a type specifier that must name a concrete type: a `void`
    /// specifier is a fatal semantic error.
    pub fn parse_type_non_void(&mut self, parser: &mut Parser) -> (r: Result<
        (TypeHandle, Span),
        Error,
    >)
        requires
            old(parser).wf(),
        ensures
            final(parser).wf(),
            final(parser).entry_args@ == old(parser).entry_args@,
            final(parser).global_variables@ == old(parser).global_variables@,
            final(parser).errors@ == old(parser).errors@,
            final(parser).stage == old(parser).stage,
            final(parser).module.global_variables@ == old(parser).module.global_variables@,
            old(parser).module.types@.len() <= final(parser).module.types@.len(),
            final(parser).module.types@.take(old(parser).module.types@.len() as int) == old(
                parser,
            ).module.types@,
            r matches Ok(ok) ==> ok.0.index < final(parser).module.types@.len(),
            ({
                let ts = old(self).tokens@;
                &&& (ts.len() > 0 && ts[0].value is Void && array_suffix_ok(ts.skip(1)) ==> (
                r matches Err(e) && e.kind == ErrorKind::SemanticError(SemanticErrorKind::VoidType)
                    && e.meta == type_span(
                    ts[0].meta,
                    array_size_of(ts.skip(1), old(parser).module.constants@),
                )))
                &&& (ts.len() > 0 && ts[0].value is TypeName && array_suffix_ok(ts.skip(1)) ==> ({
                    let tyv = ts[0].value->TypeName_0;
                    let types0 = old(parser).module.types@;
                    let types1 = interned_types(types0, tyv);
                    let base = TypeHandle { index: intern_index(types0, tyv) as usize };
                    let arr = array_size_of(ts.skip(1), old(parser).module.constants@);
                    &&& (arr is None ==> r == Ok::<(TypeHandle, Span), Error>(
                        (base, ts[0].meta),
                    ) && final(parser).module.types@ == types1)
                    &&& (arr matches Some((size, _)) ==> r == Ok::<(TypeHandle, Span), Error>(
                        (
                            TypeHandle {
                                index: intern_index(
                                    types1,
                                    array_type(types1, base, size),
                                ) as usize,
                            },
                            type_span(ts[0].meta, arr),
                        ),
                    ))
                }))
                &&& (ts.len() == 0 ==> r == Err::<(TypeHandle, Span), Error>(
                    Error { kind: ErrorKind::EndOfFile, meta: Span::spec_undefined() },
                ))
            }),
    {
        let (maybe_ty, meta) = match self.parse_type(parser) {
            Ok(ok) => ok,
            Err(e) => {
                return Err(e);
            },
        };
        match maybe_ty {
            Some(ty) => Ok((ty, meta)),
            None => Err(
                Error {
                    kind: ErrorKind::SemanticError(SemanticErrorKind::VoidType),
                    meta,
                },
            ),
        }
    }

    /// Resolves a struct member's type: a built-in type name or a registered
    /// type identifier, optionally array-wrapped. `void` members are a fatal
    /// semantic error and embedded structure definitions are not supported.
    fn parse_member_type(&mut self, parser: &mut Parser) -> (r: Result<(TypeHandle, Span), Error>)
        requires
            old(parser).wf(),
        ensures
            final(parser).wf(),
            final(parser).entry_args@ == old(parser).entry_args@,
            final(parser).global_variables@ == old(parser).global_variables@,
            final(parser).errors@ == old(parser).errors@,
            final(parser).stage == old(parser).stage,
            final(parser).module.global_variables@ == old(parser).module.global_variables@,
            final(parser).lookup_type@ == old(parser).lookup_type@,
            old(parser).module.types@.len() <= final(parser).module.types@.len(),
            final(parser).module.types@.take(old(parser).module.types@.len() as int) == old(
                parser,
            ).module.types@,
            r matches Ok(ok) ==> ok.0.index < final(parser).module.types@.len(),
            final(self).tokens@.len() <= old(self).tokens@.len(),
            old(self).tokens@.len() > 0 ==> final(self).tokens@.len() < old(self).tokens@.len(),
            old(self).tokens@.len() == 0 ==> r is Err,
            ({
                let o = member_type_spec(
                    old(self).tokens@,
                    old(parser).lookup_type@,
                    old(parser).module.types@,
                    old(parser).module.constants@,
                );
                &&& (o.ok ==> r is Ok && r->Ok_0.0 == o.handle && final(self).tokens@ == o.tokens
                    && final(parser).module.types@ == o.types && final(parser).module.constants@
                    == o.constants)
                &&& (!o.ok ==> r is Err)
            }),
    {
        let ghost ts = self.tokens@;
        let token = match self.bump() {
            Ok(token) => token,
            Err(e) => {
                return Err(e);
            },
        };
        let token_meta = token.meta;
        let base = match token.value {
            TokenValue::TypeName(ty) => parser.module.insert_type(ty),
            TokenValue::Identifier(ident) => match parser.lookup_type_get(ident.as_str()) {
                Some(ty) => {
                    proof {
                        lemma_type_find_valid(
                            parser.lookup_type@,
                            ident@,
                            parser.module.types@.len() as int,
                        );
                    }
                    ty
                },
                None => {
                    return Err(
                        Error { kind: ErrorKind::UnknownType(ident), meta: token_meta },
                    );
                },
            },
            TokenValue::Void => {
                return Err(
                    Error {
                        kind: ErrorKind::SemanticError(SemanticErrorKind::VoidType),
                        meta: token_meta,
                    },
                );
            },
            other => {
                return Err(
                    Error {
                        kind: ErrorKind::InvalidToken(other, ExpectedToken::TypeName),
                        meta: token_meta,
                    },
                );
            },
        };
        let array_specifier = match self.parse_array_specifier(parser) {
            Ok(arr) => arr,
            Err(e) => {
                return Err(e);
            },
        };
        let handle = parser.maybe_array(base, array_specifier);
        let mut meta = match array_specifier {
            Some((_, arr_meta)) => arr_meta,
            None => token_meta,
        };
        meta.subsume(token_meta);
        Ok((handle, meta))
    }

    /// Parses the member declarations of a struct body: `type name [n]? ;`
    /// repeated until a token that opens no type specifier. Returns the byte
    /// span of the struct, the sum of the member types' sizes (saturating).
    pub fn parse_struct_declaration_list(
        &mut self,
        parser: &mut Parser,
        members: &mut Vec<StructMember>,
    ) -> (r: Result<u32, Error>)
        requires
            old(parser).wf(),
        ensures
            final(parser).wf(),
            final(parser).entry_args@ == old(parser).entry_args@,
            final(parser).global_variables@ == old(parser).global_variables@,
            final(parser).errors@ == old(parser).errors@,
            final(parser).stage == old(parser).stage,
            final(parser).module.global_variables@ == old(parser).module.global_variables@,
            final(parser).lookup_type@ == old(parser).lookup_type@,
            old(parser).module.types@.len() <= final(parser).module.types@.len(),
            final(parser).module.types@.take(old(parser).module.types@.len() as int) == old(
                parser,
            ).module.types@,
            final(members)@.len() >= old(members)@.len(),
            final(members)@.take(old(members)@.len() as int) == old(members)@,
            forall|i: int|
                old(members)@.len() <= i < final(members)@.len()
                    ==> #[trigger] final(members)@[i].ty.index
                    < final(parser).module.types@.len(),
            r is Ok ==> !(final(self).tokens@.len() > 0 && starts_type_name(
                final(self).tokens@[0].value,
                final(parser).lookup_type@,
            )),
            ({
                let o = member_list_spec(
                    old(self).tokens@,
                    old(parser).lookup_type@,
                    old(parser).module.types@,
                    old(parser).module.constants@,
                    old(members)@,
                    0,
                );
                &&& (o.ok ==> r == Ok::<u32, Error>(o.span) && final(members)@ == o.members
                    && final(self).tokens@ == o.tokens && final(parser).module.types@ == o.types
                    && final(parser).module.constants@ == o.constants)
                &&& (!o.ok ==> r is Err)
            }),
    {
        let ghost ts0 = self.tokens@;
        let ghost types0 = parser.module.types@;
        let ghost cs0 = parser.module.constants@;
        let ghost members0 = members@;
        let mut span: u32 = 0;
        proof {
            assert(parser.module.types@.take(parser.module.types@.len() as int) =~= parser
                .module
                .types@);
            assert(members@.take(members@.len() as int) =~= members@);
        }
        loop
            invariant
                ts0 == old(self).tokens@,
                types0 == old(parser).module.types@,
                cs0 == old(parser).module.constants@,
                members0 == old(members)@,
                member_list_spec(ts0, old(parser).lookup_type@, types0, cs0, members0, 0)
                    == member_list_spec(
                    self.tokens@,
                    parser.lookup_type@,
                    parser.module.types@,
                    parser.module.constants@,
                    members@,
                    span,
                ),
                parser.wf(),
                parser.entry_args@ == old(parser).entry_args@,
                parser.global_variables@ == old(parser).global_variables@,
                parser.errors@ == old(parser).errors@,
                parser.stage == old(parser).stage,
                parser.module.global_variables@ == old(parser).module.global_variables@,
                parser.lookup_type@ == old(parser).lookup_type@,
                old(parser).module.types@.len() <= parser.module.types@.len(),
                parser.module.types@.take(old(parser).module.types@.len() as int) == old(
                    parser,
                ).module.types@,
                members@.len() >= old(members)@.len(),
                members@.take(old(members)@.len() as int) == old(members)@,
                forall|i: int|
                    old(members)@.len() <= i < members@.len() ==> #[trigger] members@[i].ty.index
                        < parser.module.types@.len(),
            decreases self.tokens@.len(),
        {
            let ghost toks_head = self.tokens@;
            let ghost types_head = parser.module.types@;
            let ghost cs_head = parser.module.constants@;
            let ghost members_head = members@;
            let ghost span_head = span;
            if !self.peek_type_name(parser) {
                return Ok(span);
            }
            let (ty, _ty_meta) = match self.parse_member_type(parser) {
                Ok(ok) => ok,
                Err(e) => {
                    proof {
                        lemma_prefix_trans(
                            old(parser).module.types@,
                            types_head,
                            parser.module.types@,
                        );
                    }
                    return Err(e);
                },
            };
            proof {
                lemma_prefix_trans(
                    old(parser).module.types@,
                    types_head,
                    parser.module.types@,
                );
            }
            let ghost mt = member_type_spec(toks_head, parser.lookup_type@, types_head, cs_head);
            let ghost types_mid = parser.module.types@;
            let ghost cs_mid = parser.module.constants@;
            let (name, _name_meta) = match self.expect_ident() {
                Ok(ok) => ok,
                Err(e) => {
                    return Err(e);
                },
            };
            let ghost after_ident = self.tokens@;
            let array_specifier = match self.parse_array_specifier(parser) {
                Ok(arr) => arr,
                Err(e) => {
                    return Err(e);
                },
            };
            let ty = parser.maybe_array(ty, array_specifier);
            proof {
                if array_specifier is Some {
                    assert(parser.module.types@.take(types_mid.len() as int) =~= types_mid);
                }
                lemma_prefix_trans(old(parser).module.types@, types_mid, parser.module.types@);
                assert(mt.tokens.skip(1) =~= after_ident);
                assert(member_array_wrap(after_ident, mt.handle, types_mid, cs_mid)
                    == (MemberTypeOutcome {
                    ok: true,
                    handle: ty,
                    tokens: self.tokens@,
                    types: parser.module.types@,
                    constants: parser.module.constants@,
                }));
            }
            match self.expect(TokenValue::Semicolon) {
                Ok(_) => (),
                Err(e) => {
                    return Err(e);
                },
            };
            let size = parser.module.types[ty.index].inner.size();
            span = if span <= u32::MAX - size {
                span + size
            } else {
                u32::MAX
            };
            members.push(StructMember { name: Some(name), ty });
            proof {
                assert(parser.module.types@.take(old(parser).module.types@.len() as int) =~= old(
                    parser,
                ).module.types@);
                assert(members@.take(old(members)@.len() as int) =~= old(members)@);
                assert(member_list_spec(
                    toks_head,
                    parser.lookup_type@,
                    types_head,
                    cs_head,
                    members_head,
                    span_head,
                ) == member_list_spec(
                    self.tokens@,
                    parser.lookup_type@,
                    parser.module.types@,
                    parser.module.constants@,
                    members@,
                    span,
                ));
            }
        }
    }
}




/// State of the member-type parse: whether it can succeed, the resolved
/// (array-wrapped) handle, the tokens left, and the arenas.
pub struct MemberTypeOutcome {
    pub ok: bool,
    pub handle: TypeHandle,
    pub tokens: Seq<Token>,
    pub types: Seq<Type>,
    pub constants: Seq<Constant>,
}

/// Wrapping a base handle in the array specifier at the head of `ts`:
/// nothing to do, or an interned length constant and an interned array type.
pub open spec fn member_array_wrap(
    ts: Seq<Token>,
    base: TypeHandle,
    types: Seq<Type>,
    constants: Seq<Constant>,
) -> MemberTypeOutcome {
    if !array_suffix_ok(ts) {
        MemberTypeOutcome { ok: false, handle: base, tokens: ts, types, constants }
    } else {
        match array_size_of(ts, constants) {
            None => MemberTypeOutcome { ok: true, handle: base, tokens: ts, types, constants },
            Some((size, _)) => MemberTypeOutcome {
                ok: true,
                handle: TypeHandle {
                    index: intern_index(types, array_type(types, base, size)) as usize,
                },
                tokens: ts.skip(array_consumed(ts)),
                types: interned_types(types, array_type(types, base, size)),
                constants: array_constants(ts, constants),
            },
        }
    }
}

/// What a struct member's type specifier resolves to: a built-in type name
/// or a registered identifier, optionally array-wrapped. `void` and embedded
/// struct definitions are not member types.
pub open spec fn member_type_spec(
    ts: Seq<Token>,
    lookup: Seq<TypeNameEntry>,
    types: Seq<Type>,
    constants: Seq<Constant>,
) -> MemberTypeOutcome {
    if ts.len() > 0 && ts[0].value is TypeName {
        let tyv = ts[0].value->TypeName_0;
        member_array_wrap(
            ts.skip(1),
            TypeHandle { index: intern_index(types, tyv) as usize },
            interned_types(types, tyv),
            constants,
        )
    } else if ts.len() > 0 && ts[0].value is Identifier && type_find(
        lookup,
        ts[0].value->Identifier_0@,
    ) is Some {
        member_array_wrap(
            ts.skip(1),
            type_find(lookup, ts[0].value->Identifier_0@)->Some_0,
            types,
            constants,
        )
    } else {
        MemberTypeOutcome {
            ok: false,
            handle: TypeHandle { index: 0 },
            tokens: ts,
            types,
            constants,
        }
    }
}

/// State of the member-declaration-list parse, threaded by
/// `member_list_spec`: the members declared so far, the saturating span sum,
/// the tokens left and the arenas.
pub struct MemberListOutcome {
    pub ok: bool,
    pub tokens: Seq<Token>,
    pub members: Seq<StructMember>,
    pub span: u32,
    pub types: Seq<Type>,
    pub constants: Seq<Constant>,
}

/// The member declarations of a struct body: `type name [n]? ;` repeated
/// while a token that opens a type specifier is next. `ok` is false exactly
/// where a member declaration is malformed.
pub open spec fn member_list_spec(
    ts: Seq<Token>,
    lookup: Seq<TypeNameEntry>,
    types: Seq<Type>,
    constants: Seq<Constant>,
    members: Seq<StructMember>,
    span: u32,
) -> MemberListOutcome
    decreases ts.len(),
{
    if !(ts.len() > 0 && starts_type_name(ts[0].value, lookup)) {
        MemberListOutcome { ok: true, tokens: ts, members, span, types, constants }
    } else {
        let mt = member_type_spec(ts, lookup, types, constants);
        let failed = MemberListOutcome {
            ok: false,
            tokens: ts,
            members,
            span,
            types,
            constants,
        };
        if !mt.ok || !(mt.tokens.len() > 0 && mt.tokens[0].value is Identifier) {
            failed
        } else {
            let name = mt.tokens[0].value->Identifier_0;
            let after_ident = mt.tokens.skip(1);
            let wrapped = member_array_wrap(after_ident, mt.handle, mt.types, mt.constants);
            if !wrapped.ok || !(wrapped.tokens.len() > 0 && wrapped.tokens[0].value is Semicolon) {
                failed
            } else if wrapped.tokens.len() >= ts.len() {
                // A member consumes at least its base, name and semicolon, so
                // this arm is unreachable; it keeps the recursion well founded.
                failed
            } else {
                let size = wrapped.types[wrapped.handle.index as int].inner.spec_size();
                let grown: u32 = if span <= u32::MAX - size {
                    (span + size) as u32
                } else {
                    u32::MAX
                };
                member_list_spec(
                    wrapped.tokens.skip(1),
                    lookup,
                    wrapped.types,
                    wrapped.constants,
                    members.push(StructMember { name: Some(name), ty: wrapped.handle }),
                    grown,
                )
            }
        }
    }
}

/// State of the layout-id-list parse, threaded by `layout_list_spec`:
/// whether it can succeed, the tokens left, the accumulated layout pairs,
/// the diagnostics, and the closing parenthesis span.
pub struct LayoutIdsOutcome {
    pub ok: bool,
    pub tokens: Seq<Token>,
    pub entries: Seq<QualifierEntry>,
    pub errors: Seq<Error>,
    pub close_meta: Span,
}

/// What one layout qualifier id does, mirroring
/// `parse_layout_qualifier_id`'s contract case by case.
pub open spec fn layout_id_spec(
    ts: Seq<Token>,
    entries: Seq<QualifierEntry>,
    errors: Seq<Error>,
) -> LayoutIdsOutcome {
    if ts.len() == 0 {
        LayoutIdsOutcome {
            ok: false,
            tokens: ts,
            entries,
            errors,
            close_meta: Span::spec_undefined(),
        }
    } else if !(ts[0].value is Identifier) {
        LayoutIdsOutcome {
            ok: true,
            tokens: ts.skip(1),
            entries,
            errors: errors.push(
                Error {
                    kind: ErrorKind::InvalidToken(ts[0].value, ExpectedToken::Identifier),
                    meta: ts[0].meta,
                },
            ),
            close_meta: Span::spec_undefined(),
        }
    } else {
        let name = ts[0].value->Identifier_0;
        if name@ == "std140"@ {
            LayoutIdsOutcome {
                ok: true,
                tokens: ts.skip(1),
                entries: inserted(
                    entries,
                    QualifierEntry {
                        key: QualifierKey::Layout,
                        value: QualifierValue::Layout(StructLayout::Std140),
                        span: ts[0].meta,
                    },
                ),
                errors,
                close_meta: Span::spec_undefined(),
            }
        } else if name@ == "std430"@ {
            LayoutIdsOutcome {
                ok: true,
                tokens: ts.skip(1),
                entries: inserted(
                    entries,
                    QualifierEntry {
                        key: QualifierKey::Layout,
                        value: QualifierValue::Layout(StructLayout::Std430),
                        span: ts[0].meta,
                    },
                ),
                errors,
                close_meta: Span::spec_undefined(),
            }
        } else if !(ts.len() > 1 && ts[1].value is Assign) {
            LayoutIdsOutcome {
                ok: true,
                tokens: ts.skip(1),
                entries: inserted(
                    entries,
                    QualifierEntry {
                        key: QualifierKey::String(name),
                        value: QualifierValue::NoValue,
                        span: ts[0].meta,
                    },
                ),
                errors,
                close_meta: Span::spec_undefined(),
            }
        } else if ts.len() > 2 && ts[2].value is UintConstant {
            LayoutIdsOutcome {
                ok: true,
                tokens: ts.skip(3),
                entries: inserted(
                    entries,
                    QualifierEntry {
                        key: QualifierKey::String(name),
                        value: QualifierValue::Uint(ts[2].value->UintConstant_0),
                        span: ts[0].meta.spec_subsume(ts[2].meta),
                    },
                ),
                errors,
                close_meta: Span::spec_undefined(),
            }
        } else if ts.len() == 2 {
            LayoutIdsOutcome {
                ok: true,
                tokens: ts.skip(2),
                entries: inserted(
                    entries,
                    QualifierEntry {
                        key: QualifierKey::String(name),
                        value: QualifierValue::Uint(0),
                        span: ts[0].meta,
                    },
                ),
                errors: errors.push(
                    Error { kind: ErrorKind::EndOfFile, meta: Span::spec_undefined() },
                ),
                close_meta: Span::spec_undefined(),
            }
        } else {
            LayoutIdsOutcome {
                ok: true,
                tokens: ts.skip(3),
                entries: inserted(
                    entries,
                    QualifierEntry {
                        key: QualifierKey::String(name),
                        value: QualifierValue::Uint(0),
                        span: ts[0].meta,
                    },
                ),
                errors: errors.push(
                    Error {
                        kind: ErrorKind::InvalidToken(ts[2].value, ExpectedToken::UintConstant),
                        meta: ts[2].meta,
                    },
                ),
                close_meta: Span::spec_undefined(),
            }
        }
    }
}

/// The whole id list after the opening parenthesis: ids separated by commas
/// up to the closing parenthesis. `ok` is false exactly where the parse is
/// fatal: the stream ends inside the list, or neither comma nor closing
/// parenthesis follows an id.
pub open spec fn layout_list_spec(
    ts: Seq<Token>,
    entries: Seq<QualifierEntry>,
    errors: Seq<Error>,
) -> LayoutIdsOutcome
    decreases ts.len(),
{
    let id = layout_id_spec(ts, entries, errors);
    if !id.ok {
        LayoutIdsOutcome {
            ok: false,
            tokens: id.tokens,
            entries: id.entries,
            errors: id.errors,
            close_meta: Span::spec_undefined(),
        }
    } else if id.tokens.len() > 0 && id.tokens[0].value is Comma {
        layout_list_spec(id.tokens.skip(1), id.entries, id.errors)
    } else if id.tokens.len() > 0 && id.tokens[0].value is RightParen {
        LayoutIdsOutcome {
            ok: true,
            tokens: id.tokens.skip(1),
            entries: id.entries,
            errors: id.errors,
            close_meta: id.tokens[0].meta,
        }
    } else {
        LayoutIdsOutcome {
            ok: false,
            tokens: id.tokens,
            entries: id.entries,
            errors: id.errors,
            close_meta: Span::spec_undefined(),
        }
    }
}


/// State of a whole qualifier run: the accumulated qualifier fields, the
/// layout pairs, the diagnostics and the tokens left. `ok` is false exactly
/// where a layout list in the run is fatally malformed.
pub struct QualifierRunOutcome {
    pub ok: bool,
    pub tokens: Seq<Token>,
    pub storage: (StorageQualifier, Span),
    pub interpolation: Option<(Interpolation, Span)>,
    pub sampling: Option<(Sampling, Span)>,
    pub precision: Option<(Precision, Span)>,
    pub storage_access: Option<(StorageAccess, Span)>,
    pub span: Span,
    pub entries: Seq<QualifierEntry>,
    pub errors: Seq<Error>,
}

/// The whole qualifier run as a left fold: single-token qualifiers fold per
/// `fold_quals`/`fold_error`, a `layout` keyword contributes its id list per
/// `layout_list_spec`, and the run stops at the first non-qualifier token.
pub open spec fn quals_run_spec(
    ts: Seq<Token>,
    q: TypeQualifiers,
    entries: Seq<QualifierEntry>,
    errors: Seq<Error>,
) -> QualifierRunOutcome
    decreases ts.len(),
    via quals_run_spec_decreases
{
    if !(ts.len() > 0 && is_type_qualifier_token(ts[0].value)) {
        QualifierRunOutcome {
            ok: true,
            tokens: ts,
            storage: q.storage,
            interpolation: q.interpolation,
            sampling: q.sampling,
            precision: q.precision,
            storage_access: q.storage_access,
            span: q.span,
            entries,
            errors,
        }
    } else if ts[0].value is Layout {
        let failed = QualifierRunOutcome {
            ok: false,
            tokens: ts,
            storage: q.storage,
            interpolation: q.interpolation,
            sampling: q.sampling,
            precision: q.precision,
            storage_access: q.storage_access,
            span: q.span,
            entries,
            errors,
        };
        if !(ts.len() > 1 && ts[1].value is LeftParen) {
            failed
        } else {
            let list = layout_list_spec(ts.skip(2), entries, errors);
            if !list.ok {
                failed
            } else {
                quals_run_spec(
                    list.tokens,
                    TypeQualifiers { span: q.span.spec_subsume(list.close_meta), ..q },
                    list.entries,
                    list.errors,
                )
            }
        }
    } else {
        let grown = fold_quals(q, ts[0].value, ts[0].meta);
        let reported = match fold_error(q, ts[0].value, ts[0].meta) {
            Some(e) => errors.push(e),
            None => errors,
        };
        quals_run_spec(ts.skip(1), grown, entries, reported)
    }
}

#[via_fn]
proof fn quals_run_spec_decreases(
    ts: Seq<Token>,
    q: TypeQualifiers,
    entries: Seq<QualifierEntry>,
    errors: Seq<Error>,
) {
    if ts.len() > 0 && is_type_qualifier_token(ts[0].value) && ts[0].value is Layout && ts.len()
        > 1 && ts[1].value is LeftParen {
        lemma_layout_list_consumes(ts.skip(2), entries, errors);
    }
}

/// The id list never hands back more tokens than it was given.
proof fn lemma_layout_list_consumes(ts: Seq<Token>, entries: Seq<QualifierEntry>, errors: Seq<Error>)
    ensures
        layout_list_spec(ts, entries, errors).tokens.len() <= ts.len(),
    decreases ts.len(),
{
    let id = layout_id_spec(ts, entries, errors);
    if id.ok && id.tokens.len() > 0 && id.tokens[0].value is Comma {
        lemma_layout_list_consumes(id.tokens.skip(1), id.entries, id.errors);
    }
}

/// Single-token qualifiers: everything `peek_type_qualifier` accepts except
/// `layout`, which opens a parenthesized list of its own.
pub open spec fn is_single_qualifier_token(v: TokenValue) -> bool {
    is_type_qualifier_token(v) && !(v is Layout)
}

/// The storage qualifier one storage keyword denotes.
pub open spec fn spec_storage_of(v: TokenValue) -> StorageQualifier {
    match v {
        TokenValue::Const => StorageQualifier::Const,
        TokenValue::In => StorageQualifier::Input,
        TokenValue::Out => StorageQualifier::Output,
        TokenValue::Uniform => StorageQualifier::AddressSpace(AddressSpace::Uniform),
        TokenValue::Shared => StorageQualifier::AddressSpace(AddressSpace::WorkGroup),
        _ => StorageQualifier::AddressSpace(
            AddressSpace::Storage { access: STORAGE_ACCESS_ALL },
        ),
    }
}

pub open spec fn is_storage_token(v: TokenValue) -> bool {
    v is Const || v is In || v is Out || v is Uniform || v is Shared || v is Buffer
}

/// Folding one single-token qualifier into the accumulator: the token's value
/// overwrites the stored one (last wins); memory-access flags merge by
/// bitwise or; `restrict` only grows the span.
pub open spec fn fold_quals(q: TypeQualifiers, v: TokenValue, meta: Span) -> TypeQualifiers {
    let grown = TypeQualifiers { span: q.span.spec_subsume(meta), ..q };
    match v {
        TokenValue::Interpolation(i) => TypeQualifiers {
            interpolation: Some((i, meta)),
            ..grown
        },
        TokenValue::Sampling(sampling) => TypeQualifiers {
            sampling: Some((sampling, meta)),
            ..grown
        },
        TokenValue::PrecisionQualifier(p) => TypeQualifiers {
            precision: Some((p, meta)),
            ..grown
        },
        TokenValue::StorageAccess(access) => {
            let cur = match q.storage_access {
                Some(pair) => pair,
                None => (0u32, Span::spec_undefined()),
            };
            TypeQualifiers {
                storage_access: Some(((cur.0 | access) as u32, cur.1.spec_subsume(meta))),
                ..grown
            }
        },
        TokenValue::Restrict => grown,
        _ => {
            if is_storage_token(v) {
                TypeQualifiers { storage: (spec_storage_of(v), meta), ..grown }
            } else {
                q
            }
        },
    }
}

/// The diagnostic that folding one qualifier token reports: a second
/// qualifier of an already-set category, or an already-present memory flag.
pub open spec fn fold_error(q: TypeQualifiers, v: TokenValue, meta: Span) -> Option<Error> {
    match v {
        TokenValue::Interpolation(_) => if q.interpolation is Some {
            Some(
                Error {
                    kind: ErrorKind::SemanticError(
                        SemanticErrorKind::ExtraInterpolationQualifier,
                    ),
                    meta,
                },
            )
        } else {
            None
        },
        TokenValue::Sampling(_) => if q.sampling is Some {
            Some(
                Error {
                    kind: ErrorKind::SemanticError(SemanticErrorKind::ExtraSamplingQualifier),
                    meta,
                },
            )
        } else {
            None
        },
        TokenValue::PrecisionQualifier(_) => if q.precision is Some {
            Some(
                Error {
                    kind: ErrorKind::SemanticError(SemanticErrorKind::ExtraPrecisionQualifier),
                    meta,
                },
            )
        } else {
            None
        },
        TokenValue::StorageAccess(access) => {
            let cur = match q.storage_access {
                Some(pair) => pair.0,
                None => 0u32,
            };
            if cur & access == access {
                Some(
                    Error {
                        kind: ErrorKind::SemanticError(
                            SemanticErrorKind::RepeatedMemoryQualifier,
                        ),
                        meta,
                    },
                )
            } else {
                None
            }
        },
        TokenValue::Restrict => None,
        _ => {
            if is_storage_token(v) && q.storage.0 != StorageQualifier::AddressSpace(
                AddressSpace::Function,
            ) {
                Some(
                    Error {
                        kind: ErrorKind::SemanticError(SemanticErrorKind::ExtraStorageQualifier),
                        meta,
                    },
                )
            } else {
                None
            }
        },
    }
}

/// Folds one single-token qualifier into the accumulator, reporting a second
/// qualifier of the same category as a recoverable diagnostic while the new
/// value still overwrites the stored one.
pub fn fold_type_qualifier(
    qualifiers: &mut TypeQualifiers,
    errors: &mut Vec<Error>,
    value: &TokenValue,
    meta: Span,
)
    requires
        old(qualifiers).wf(),
        is_single_qualifier_token(*value),
    ensures
        final(qualifiers).wf(),
        *final(qualifiers) == fold_quals(*old(qualifiers), *value, meta),
        fold_error(*old(qualifiers), *value, meta) matches Some(e) ==> final(errors)@ == old(
            errors,
        )@.push(e),
        fold_error(*old(qualifiers), *value, meta) is None ==> final(errors)@ == old(errors)@,
{
    qualifiers.span.subsume(meta);
    match value {
        TokenValue::Interpolation(i) => {
            if qualifiers.interpolation.is_some() {
                errors.push(
                    Error {
                        kind: ErrorKind::SemanticError(
                            SemanticErrorKind::ExtraInterpolationQualifier,
                        ),
                        meta,
                    },
                );
            }
            qualifiers.interpolation = Some((*i, meta));
        },
        TokenValue::Sampling(sampling) => {
            if qualifiers.sampling.is_some() {
                errors.push(
                    Error {
                        kind: ErrorKind::SemanticError(SemanticErrorKind::ExtraSamplingQualifier),
                        meta,
                    },
                );
            }
            qualifiers.sampling = Some((*sampling, meta));
        },
        TokenValue::PrecisionQualifier(p) => {
            if qualifiers.precision.is_some() {
                errors.push(
                    Error {
                        kind: ErrorKind::SemanticError(SemanticErrorKind::ExtraPrecisionQualifier),
                        meta,
                    },
                );
            }
            qualifiers.precision = Some((*p, meta));
        },
        TokenValue::StorageAccess(access) => {
            let (cur, cur_span) = match qualifiers.storage_access {
                Some(pair) => pair,
                None => (0u32, Span::undefined()),
            };
            if cur & *access == *access {
                errors.push(
                    Error {
                        kind: ErrorKind::SemanticError(SemanticErrorKind::RepeatedMemoryQualifier),
                        meta,
                    },
                );
            }
            let mut merged_span = cur_span;
            merged_span.subsume(meta);
            qualifiers.storage_access = Some((cur | *access, merged_span));
        },
        TokenValue::Restrict => (),
        other => {
            let storage = match other {
                TokenValue::Const => StorageQualifier::Const,
                TokenValue::In => StorageQualifier::Input,
                TokenValue::Out => StorageQualifier::Output,
                TokenValue::Uniform => StorageQualifier::AddressSpace(AddressSpace::Uniform),
                TokenValue::Shared => StorageQualifier::AddressSpace(AddressSpace::WorkGroup),
                _ => StorageQualifier::AddressSpace(
                    AddressSpace::Storage { access: STORAGE_ACCESS_ALL },
                ),
            };
            if qualifiers.storage.0 != StorageQualifier::AddressSpace(AddressSpace::Function) {
                errors.push(
                    Error {
                        kind: ErrorKind::SemanticError(SemanticErrorKind::ExtraStorageQualifier),
                        meta,
                    },
                );
            }
            qualifiers.storage = (storage, meta);
        },
    }
}

impl ParsingContext {
    /// Parses one layout qualifier id: `std140`/`std430` (the structured
    /// layout key), a bare identifier (a valueless flag), or
    /// `identifier = n`. A malformed id is reported as a recoverable
    /// diagnostic and recorded with a zero value so the list parse goes on.
    #[verifier::rlimit(30)]
    pub fn parse_layout_qualifier_id(
        &mut self,
        parser: &mut Parser,
        qualifiers: &mut LayoutQualifiers,
    ) -> (r: Result<(), Error>)
        requires
            old(parser).wf(),
            old(qualifiers).wf(),
        ensures
            final(parser).wf(),
            final(qualifiers).wf(),
            Parser::same_except_errors(*old(parser), *final(parser)),
            final(parser).errors@.len() >= old(parser).errors@.len(),
            final(parser).errors@.take(old(parser).errors@.len() as int) == old(parser).errors@,
            final(self).tokens@.len() <= old(self).tokens@.len(),
            old(self).tokens@.len() > 0 ==> final(self).tokens@.len() < old(self).tokens@.len(),
            ({
                let ts = old(self).tokens@;
                let qs = old(qualifiers).entries@;
                let errs = old(parser).errors@;
                &&& (ts.len() == 0 ==> r == Err::<(), Error>(
                    Error { kind: ErrorKind::EndOfFile, meta: Span::spec_undefined() },
                ) && *final(qualifiers) == *old(qualifiers) && final(parser).errors@ == errs)
                &&& (ts.len() > 0 && !(ts[0].value is Identifier) ==> r == Ok::<(), Error>(())
                    && *final(qualifiers) == *old(qualifiers) && final(self).tokens@ == ts.skip(1)
                    && final(parser).errors@ == errs.push(
                    Error {
                        kind: ErrorKind::InvalidToken(ts[0].value, ExpectedToken::Identifier),
                        meta: ts[0].meta,
                    },
                ))
                &&& (ts.len() > 0 && ts[0].value is Identifier ==> ({
                    let name = ts[0].value->Identifier_0;
                    &&& (name@ == "std140"@ ==> r == Ok::<(), Error>(()) && final(self).tokens@ == ts.skip(1) && final(parser).errors@ == errs && final(qualifiers).entries@ == inserted(
                        qs,
                        QualifierEntry {
                            key: QualifierKey::Layout,
                            value: QualifierValue::Layout(StructLayout::Std140),
                            span: ts[0].meta,
                        },
                    ))
                    &&& (name@ == "std430"@ ==> r == Ok::<(), Error>(()) && final(self).tokens@ == ts.skip(1) && final(parser).errors@ == errs && final(qualifiers).entries@ == inserted(
                        qs,
                        QualifierEntry {
                            key: QualifierKey::Layout,
                            value: QualifierValue::Layout(StructLayout::Std430),
                            span: ts[0].meta,
                        },
                    ))
                    &&& (name@ != "std140"@ && name@ != "std430"@ ==> ({
                        &&& (!(ts.len() > 1 && ts[1].value is Assign) ==> r == Ok::<(), Error>(())
                            && final(self).tokens@ == ts.skip(1) && final(parser).errors@ == errs
                            && final(qualifiers).entries@ == inserted(
                            qs,
                            QualifierEntry {
                                key: QualifierKey::String(name),
                                value: QualifierValue::NoValue,
                                span: ts[0].meta,
                            },
                        ))
                        &&& (ts.len() > 2 && ts[1].value is Assign && ts[2].value is UintConstant
                            ==> r == Ok::<(), Error>(()) && final(self).tokens@ == ts.skip(3)
                            && final(parser).errors@ == errs && final(qualifiers).entries@
                            == inserted(
                            qs,
                            QualifierEntry {
                                key: QualifierKey::String(name),
                                value: QualifierValue::Uint(ts[2].value->UintConstant_0),
                                span: ts[0].meta.spec_subsume(ts[2].meta),
                            },
                        ))
                        &&& (ts.len() == 2 && ts[1].value is Assign ==> r == Ok::<(), Error>(())
                            && final(self).tokens@ == ts.skip(2) && final(parser).errors@
                            == errs.push(
                            Error { kind: ErrorKind::EndOfFile, meta: Span::spec_undefined() },
                        ) && final(qualifiers).entries@ == inserted(
                            qs,
                            QualifierEntry {
                                key: QualifierKey::String(name),
                                value: QualifierValue::Uint(0),
                                span: ts[0].meta,
                            },
                        ))
                        &&& (ts.len() > 2 && ts[1].value is Assign && !(
                        ts[2].value is UintConstant) ==> r == Ok::<(), Error>(()) && final(self).tokens@ == ts.skip(3) && final(qualifiers).entries@ == inserted(
                            qs,
                            QualifierEntry {
                                key: QualifierKey::String(name),
                                value: QualifierValue::Uint(0),
                                span: ts[0].meta,
                            },
                        ) && final(parser).errors@ == errs.push(
                            Error {
                                kind: ErrorKind::InvalidToken(
                                    ts[2].value,
                                    ExpectedToken::UintConstant,
                                ),
                                meta: ts[2].meta,
                            },
                        ))
                    }))
                }))
            }),
    {
        let ghost ts = self.tokens@;
        proof {
            reveal_strlit("std140");
            reveal_strlit("std430");
            assert("std140"@[3] == '1' && "std430"@[3] == '4');
            assert("std140"@ != "std430"@);
        }
        let token = match self.bump() {
            Ok(token) => token,
            Err(e) => {
                return Err(e);
            },
        };
        proof {
            assert(self.tokens@ =~= ts.skip(1));
        }
        let mut meta = token.meta;
        let result = match token.value {
            TokenValue::Identifier(name) => {
                if crate::context::str_eq(name.as_str(), "std140") {
                    qualifiers.insert(
                        QualifierKey::Layout,
                        QualifierValue::Layout(StructLayout::Std140),
                        meta,
                    );
                } else if crate::context::str_eq(name.as_str(), "std430") {
                    qualifiers.insert(
                        QualifierKey::Layout,
                        QualifierValue::Layout(StructLayout::Std430),
                        meta,
                    );
                } else {
                    let value = if self.bump_if(TokenValue::Assign).is_some() {
                        proof {
                            assert(self.tokens@ =~= ts.skip(2));
                        }
                        let parsed = match self.parse_uint_constant() {
                            Ok((v, end_meta)) => {
                                proof {
                                    assert(self.tokens@ =~= ts.skip(3));
                                }
                                meta.subsume(end_meta);
                                v
                            },
                            Err(e) => {
                                proof {
                                    if ts.len() > 2 {
                                        assert(self.tokens@ =~= ts.skip(3));
                                    } else {
                                        assert(self.tokens@ =~= ts.skip(2));
                                    }
                                }
                                parser.errors.push(e);
                                let fallback = Span::undefined();
                                meta.subsume(fallback);
                                0
                            },
                        };
                        QualifierValue::Uint(parsed)
                    } else {
                        QualifierValue::NoValue
                    };
                    qualifiers.insert(QualifierKey::String(name), value, meta);
                }
                Ok(())
            },
            other => {
                parser.errors.push(
                    Error {
                        kind: ErrorKind::InvalidToken(other, ExpectedToken::Identifier),
                        meta,
                    },
                );
                Ok(())
            },
        };
        proof {
            assert(parser.wf()) by {
                assert forall|i: int|
                    0 <= i < parser.lookup_type@.len() implies #[trigger] parser.lookup_type@[i].handle.index
                    < parser.module.types@.len() by {
                    assert(parser.lookup_type@[i] == old(parser).lookup_type@[i]);
                    assert(old(parser).lookup_type@[i].handle.index < old(
                        parser,
                    ).module.types@.len());
                }
            }
        }
        result
    }

    /// Parses `layout ( id , id ... )` after the `layout` keyword, folding
    /// every id into the accumulator's layout pairs and growing its span to
    /// the closing parenthesis.
    pub fn parse_layout_qualifier_id_list(
        &mut self,
        parser: &mut Parser,
        qualifiers: &mut TypeQualifiers,
    ) -> (r: Result<(), Error>)
        requires
            old(parser).wf(),
            old(qualifiers).wf(),
        ensures
            final(parser).wf(),
            final(qualifiers).wf(),
            Parser::same_except_errors(*old(parser), *final(parser)),
            final(parser).errors@.len() >= old(parser).errors@.len(),
            final(parser).errors@.take(old(parser).errors@.len() as int) == old(parser).errors@,
            final(self).tokens@.len() <= old(self).tokens@.len(),
            final(qualifiers).storage == old(qualifiers).storage,
            final(qualifiers).interpolation == old(qualifiers).interpolation,
            final(qualifiers).sampling == old(qualifiers).sampling,
            final(qualifiers).precision == old(qualifiers).precision,
            final(qualifiers).storage_access == old(qualifiers).storage_access,
            r is Ok ==> final(self).tokens@.len() + 2 <= old(self).tokens@.len(),
            !(old(self).tokens@.len() > 0 && old(self).tokens@[0].value is LeftParen) ==> r is Err
                && *final(qualifiers) == *old(qualifiers),
            old(self).tokens@.len() > 0 && old(self).tokens@[0].value is LeftParen ==> ({
                let outcome = layout_list_spec(
                    old(self).tokens@.skip(1),
                    old(qualifiers).layout_qualifiers.entries@,
                    old(parser).errors@,
                );
                &&& (outcome.ok ==> r == Ok::<(), Error>(()) && final(self).tokens@
                    == outcome.tokens && final(qualifiers).layout_qualifiers.entries@
                    == outcome.entries && final(parser).errors@ == outcome.errors && final(qualifiers).span
                    == old(qualifiers).span.spec_subsume(outcome.close_meta))
                &&& (!outcome.ok ==> r is Err)
            }),
    {
        let ghost ts = self.tokens@;
        let ghost entries0 = qualifiers.layout_qualifiers.entries@;
        let ghost errs0 = parser.errors@;
        match self.expect(TokenValue::LeftParen) {
            Ok(_) => (),
            Err(e) => {
                return Err(e);
            },
        };
        proof {
            assert(self.tokens@ =~= ts.skip(1));
        }
        loop
            invariant_except_break
                layout_list_spec(ts.skip(1), entries0, errs0) == layout_list_spec(
                    self.tokens@,
                    qualifiers.layout_qualifiers.entries@,
                    parser.errors@,
                ),
            invariant
                ts == old(self).tokens@,
                entries0 == old(qualifiers).layout_qualifiers.entries@,
                errs0 == old(parser).errors@,
                ts.len() > 0 && ts[0].value is LeftParen,
                parser.wf(),
                qualifiers.wf(),
                Parser::same_except_errors(*old(parser), *parser),
                parser.errors@.len() >= old(parser).errors@.len(),
                parser.errors@.take(old(parser).errors@.len() as int) == old(parser).errors@,
                self.tokens@.len() + 1 <= ts.len(),
                qualifiers.storage == old(qualifiers).storage,
                qualifiers.interpolation == old(qualifiers).interpolation,
                qualifiers.sampling == old(qualifiers).sampling,
                qualifiers.precision == old(qualifiers).precision,
                qualifiers.storage_access == old(qualifiers).storage_access,
                qualifiers.span == old(qualifiers).span,
            ensures
                ({
                    let done = layout_list_spec(ts.skip(1), entries0, errs0);
                    &&& (self.tokens@.len() > 0 && self.tokens@[0].value is RightParen ==> done
                        == (LayoutIdsOutcome {
                        ok: true,
                        tokens: self.tokens@.skip(1),
                        entries: qualifiers.layout_qualifiers.entries@,
                        errors: parser.errors@,
                        close_meta: self.tokens@[0].meta,
                    }))
                    &&& (!(self.tokens@.len() > 0 && self.tokens@[0].value is RightParen)
                        ==> !done.ok)
                }),
            decreases self.tokens@.len(),
        {
            let ghost toks_head = self.tokens@;
            let ghost ents_head = qualifiers.layout_qualifiers.entries@;
            let ghost errs_head = parser.errors@;
            match self.parse_layout_qualifier_id(parser, &mut qualifiers.layout_qualifiers) {
                Ok(_) => (),
                Err(e) => {
                    proof {
                        assert(!layout_id_spec(toks_head, ents_head, errs_head).ok);
                        assert(!layout_list_spec(ts.skip(1), entries0, errs0).ok);
                    }
                    return Err(e);
                },
            };
            proof {
                lemma_errors_chain(old(parser).errors@, errs_head, parser.errors@);
                assert(layout_id_spec(toks_head, ents_head, errs_head) == (LayoutIdsOutcome {
                    ok: true,
                    tokens: self.tokens@,
                    entries: qualifiers.layout_qualifiers.entries@,
                    errors: parser.errors@,
                    close_meta: Span::spec_undefined(),
                }));
            }
            if self.bump_if(TokenValue::Comma).is_some() {
                proof {
                    let id = layout_id_spec(toks_head, ents_head, errs_head);
                    assert(self.tokens@ =~= id.tokens.skip(1));
                }
                continue ;
            }
            break ;
        }
        let ghost toks_tail = self.tokens@;
        let close = match self.expect(TokenValue::RightParen) {
            Ok(token) => token,
            Err(e) => {
                return Err(e);
            },
        };
        proof {
            assert(self.tokens@ =~= toks_tail.skip(1));
        }
        qualifiers.span.subsume(close.meta);
        Ok(())
    }
}

/// Only-appended diagnostics compose.
pub proof fn lemma_errors_chain(a: Seq<Error>, b: Seq<Error>, c: Seq<Error>)
    requires
        a.len() <= b.len() <= c.len(),
        b.take(a.len() as int) == a,
        c.take(b.len() as int) == b,
    ensures
        c.take(a.len() as int) == a,
{
    lemma_prefix_trans(a, b, c);
}


impl ParsingContext {
    /// Accumulates every qualifier token before the type specifier into one
    /// `TypeQualifiers` value, stopping at the first non-qualifier token: the
    /// whole run is the left fold `quals_run_spec` over the consumed tokens.
    /// Single-token qualifiers fold per `fold_quals`/`fold_error`; a `layout`
    /// keyword opens a parenthesized id list that can contribute several
    /// layout pairs. Duplicate qualifiers are recoverable diagnostics: the
    /// value seen last stays.
    pub fn parse_type_qualifiers(&mut self, parser: &mut Parser) -> (r: Result<
        TypeQualifiers,
        Error,
    >)
        requires
            old(parser).wf(),
        ensures
            final(parser).wf(),
            Parser::same_except_errors(*old(parser), *final(parser)),
            final(parser).errors@.len() >= old(parser).errors@.len(),
            final(parser).errors@.take(old(parser).errors@.len() as int) == old(parser).errors@,
            final(self).tokens@.len() <= old(self).tokens@.len(),
            r matches Ok(q) ==> q.wf(),
            r is Ok ==> !(final(self).tokens@.len() > 0 && is_type_qualifier_token(
                final(self).tokens@[0].value,
            )),
            r matches Ok(out) ==> (exists|q0: TypeQualifiers|
                {
                    &&& #[trigger] quals_initial(q0)
                    &&& ({
                        let o = quals_run_spec(
                            old(self).tokens@,
                            q0,
                            Seq::<QualifierEntry>::empty(),
                            old(parser).errors@,
                        );
                        &&& o.ok
                        &&& out.storage == o.storage
                        &&& out.interpolation == o.interpolation
                        &&& out.sampling == o.sampling
                        &&& out.precision == o.precision
                        &&& out.storage_access == o.storage_access
                        &&& out.span == o.span
                        &&& out.layout_qualifiers.entries@ == o.entries
                        &&& final(self).tokens@ == o.tokens
                        &&& final(parser).errors@ == o.errors
                    })
                }),
            r is Err ==> (exists|q0: TypeQualifiers|
                {
                    &&& #[trigger] quals_initial(q0)
                    &&& !quals_run_spec(
                        old(self).tokens@,
                        q0,
                        Seq::<QualifierEntry>::empty(),
                        old(parser).errors@,
                    ).ok
                }),
    {
        let mut qualifiers = TypeQualifiers::new();
        let ghost q0 = qualifiers;
        let ghost mut gq = qualifiers;
        proof {
            assert(qualifiers.layout_qualifiers.entries@ =~= Seq::<QualifierEntry>::empty());
        }
        while self.peek_type_qualifier(parser)
            invariant
                parser.wf(),
                qualifiers.wf(),
                Parser::same_except_errors(*old(parser), *parser),
                parser.errors@.len() >= old(parser).errors@.len(),
                parser.errors@.take(old(parser).errors@.len() as int) == old(parser).errors@,
                self.tokens@.len() <= old(self).tokens@.len(),
                quals_initial(q0),
                qualifiers.storage == gq.storage,
                qualifiers.interpolation == gq.interpolation,
                qualifiers.sampling == gq.sampling,
                qualifiers.precision == gq.precision,
                qualifiers.storage_access == gq.storage_access,
                qualifiers.span == gq.span,
                quals_run_spec(
                    old(self).tokens@,
                    q0,
                    Seq::<QualifierEntry>::empty(),
                    old(parser).errors@,
                ) == quals_run_spec(
                    self.tokens@,
                    gq,
                    qualifiers.layout_qualifiers.entries@,
                    parser.errors@,
                ),
            decreases self.tokens@.len(),
        {
            let ghost tokens_head = self.tokens@;
            let ghost entries_head = qualifiers.layout_qualifiers.entries@;
            let ghost errs_head = parser.errors@;
            let token = match self.bump() {
                Ok(token) => token,
                Err(e) => {
                    return Err(e);
                },
            };
            proof {
                assert(self.tokens@ =~= tokens_head.skip(1));
            }
            if matches!(token.value, TokenValue::Layout) {
                let ghost toks_after_layout = self.tokens@;
                match self.parse_layout_qualifier_id_list(parser, &mut qualifiers) {
                    Ok(_) => (),
                    Err(e) => {
                        proof {
                            if toks_after_layout.len() > 0 && toks_after_layout[0].value is LeftParen {
                                assert(toks_after_layout.skip(1) =~= tokens_head.skip(2));
                                assert(!layout_list_spec(
                                    tokens_head.skip(2),
                                    entries_head,
                                    errs_head,
                                ).ok);
                            }
                            assert(!quals_run_spec(tokens_head, gq, entries_head, errs_head).ok);
                        }
                        return Err(e);
                    },
                };
                proof {
                    let list = layout_list_spec(tokens_head.skip(2), entries_head, errs_head);
                    assert(toks_after_layout.skip(1) =~= tokens_head.skip(2));
                    gq = TypeQualifiers { span: gq.span.spec_subsume(list.close_meta), ..gq };
                }
                continue ;
            }
            let ghost errs_mid = parser.errors@;
            fold_type_qualifier(&mut qualifiers, &mut parser.errors, &token.value, token.meta);
            proof {
                assert(parser.errors@.take(errs_mid.len() as int) =~= errs_mid);
                lemma_errors_chain(old(parser).errors@, errs_mid, parser.errors@);
                gq = fold_quals(gq, token.value, token.meta);
            }
        }
        Ok(qualifiers)
    }
}

} // verus!
