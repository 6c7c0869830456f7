//! Parser-wide state (the module under construction, lookup tables, the
//! diagnostics list) and the pull-based token cursor.

use vstd::prelude::*;

use crate::ast::{EntryArg, GlobalLookup};
use crate::error::{Error, ErrorKind};
use crate::ir::{ShaderStage, TypeHandle};
use crate::module::Module;
use crate::span::Span;
use crate::token::{token_value_eq, values_equal, ExpectedToken, Token, TokenValue};

verus! {

/// One row of the type-name table.
#[derive(Clone, PartialEq, Eq, Debug)]
pub struct TypeNameEntry {
    pub name: String,
    pub handle: TypeHandle,
}

/// The handle registered under `name`, latest registration first.
pub open spec fn type_find(s: Seq<TypeNameEntry>, name: Seq<char>) -> Option<TypeHandle>
    decreases s.len(),
{
    if s.len() == 0 {
        None
    } else if s.last().name@ == name {
        Some(s.last().handle)
    } else {
        type_find(s.drop_last(), name)
    }
}

/// One row of the flat global-name table.
#[derive(Clone, PartialEq, Eq, Debug)]
pub struct GlobalEntry {
    pub name: String,
    pub lookup: GlobalLookup,
}

/// Parser-wide compilation state, shared by every component.
pub struct Parser {
    /// The IR module under construction.
    pub module: Module,
    /// Maps declared type names to their interned handles.
    pub lookup_type: Vec<TypeNameEntry>,
    /// Flat list of global lookups, in registration order.
    pub global_variables: Vec<GlobalEntry>,
    /// The stage-interface slots, in materialization order.
    pub entry_args: Vec<EntryArg>,
    /// Recoverable diagnostics, in the order reported.
    pub errors: Vec<Error>,
    /// The active shader stage.
    pub stage: ShaderStage,
}

impl Parser {
    pub fn new(stage: ShaderStage) -> (r: Parser)
        ensures
            r.module.types@ == Seq::<crate::ir::Type>::empty(),
            r.module.constants@ == Seq::<crate::ir::Constant>::empty(),
            r.module.global_variables@ == Seq::<crate::ir::GlobalVariable>::empty(),
            r.lookup_type@ == Seq::<TypeNameEntry>::empty(),
            r.global_variables@ == Seq::<GlobalEntry>::empty(),
            r.entry_args@ == Seq::<EntryArg>::empty(),
            r.errors@ == Seq::<Error>::empty(),
            r.stage == stage,
    {
        Parser {
            module: Module::new(),
            lookup_type: Vec::new(),
            global_variables: Vec::new(),
            entry_args: Vec::new(),
            errors: Vec::new(),
            stage,
        }
    }

    /// The handle a type name currently resolves to.
    pub fn lookup_type_get(&self, name: &str) -> (r: Option<TypeHandle>)
        ensures
            r == type_find(self.lookup_type@, name@),
    {
        let n: usize = self.lookup_type.len();
        assert(self.lookup_type@.take(n as int) =~= self.lookup_type@);
        let mut i: usize = n;
        while i > 0
            invariant
                i <= n,
                n == self.lookup_type@.len(),
                type_find(self.lookup_type@, name@) == type_find(
                    self.lookup_type@.take(i as int),
                    name@,
                ),
            decreases i,
        {
            i -= 1;
            let entry = &self.lookup_type[i];
            if crate::context::str_eq(entry.name.as_str(), name) {
                assert(self.lookup_type@.take(i as int + 1).last() == self.lookup_type@[i as int]);
                return Some(entry.handle);
            }
            assert(self.lookup_type@.take(i as int + 1).drop_last() =~= self.lookup_type@.take(
                i as int,
            ));
        }
        assert(self.lookup_type@.take(0) =~= Seq::<TypeNameEntry>::empty());
        None
    }

    /// Registers (or re-registers) a type name.
    pub fn lookup_type_insert(&mut self, name: String, handle: TypeHandle)
        ensures
            final(self).lookup_type@ == old(self).lookup_type@.push(
                TypeNameEntry { name, handle },
            ),
            final(self).module == old(self).module,
            final(self).global_variables@ == old(self).global_variables@,
            final(self).entry_args@ == old(self).entry_args@,
            final(self).errors@ == old(self).errors@,
            final(self).stage == old(self).stage,
    {
        self.lookup_type.push(TypeNameEntry { name, handle });
    }
}

/// The pull-based cursor over the remaining tokens of the compilation unit.
pub struct ParsingContext {
    /// The tokens not yet consumed, next one first.
    pub tokens: Vec<Token>,
}

impl ParsingContext {
    pub fn new(tokens: Vec<Token>) -> (r: ParsingContext)
        ensures
            r.tokens == tokens,
    {
        ParsingContext { tokens }
    }

    /// Consumes the next token; at the end of the stream, fails.
    pub fn bump(&mut self) -> (r: Result<Token, Error>)
        ensures
            old(self).tokens@.len() > 0 ==> r == Ok::<Token, Error>(old(self).tokens@[0])
                && final(self).tokens@ == old(self).tokens@.remove(0),
            old(self).tokens@.len() == 0 ==> final(self).tokens@ == old(self).tokens@ && r
                == Err::<Token, Error>(
                Error { kind: ErrorKind::EndOfFile, meta: Span::spec_undefined() },
            ),
    {
        if self.tokens.len() > 0 {
            Ok(self.tokens.remove(0))
        } else {
            Err(Error { kind: ErrorKind::EndOfFile, meta: Span::undefined() })
        }
    }

    /// Consumes the next token only if it matches `value`.
    pub fn bump_if(&mut self, value: TokenValue) -> (r: Option<Token>)
        ensures
            old(self).tokens@.len() > 0 && token_value_eq(old(self).tokens@[0].value, value) ==> r
                == Some(old(self).tokens@[0]) && final(self).tokens@ == old(self).tokens@.remove(0),
            !(old(self).tokens@.len() > 0 && token_value_eq(old(self).tokens@[0].value, value))
                ==> r is None && final(self).tokens@ == old(self).tokens@,
    {
        if self.tokens.len() > 0 && values_equal(&self.tokens[0].value, &value) {
            Some(self.tokens.remove(0))
        } else {
            None
        }
    }

    /// Consumes the next token, which must match `value`; any other token is
    /// a fatal invalid-token error naming `value` as the one expectation.
    pub fn expect(&mut self, value: TokenValue) -> (r: Result<Token, Error>)
        ensures
            old(self).tokens@.len() == 0 ==> final(self).tokens@ == old(self).tokens@ && r
                == Err::<Token, Error>(
                Error { kind: ErrorKind::EndOfFile, meta: Span::spec_undefined() },
            ),
            old(self).tokens@.len() > 0 ==> final(self).tokens@ == old(self).tokens@.remove(0),
            old(self).tokens@.len() > 0 && token_value_eq(old(self).tokens@[0].value, value) ==> r
                == Ok::<Token, Error>(old(self).tokens@[0]),
            old(self).tokens@.len() > 0 && !token_value_eq(old(self).tokens@[0].value, value)
                ==> r == Err::<Token, Error>(
                Error {
                    kind: ErrorKind::InvalidToken(
                        old(self).tokens@[0].value,
                        ExpectedToken::Token(value),
                    ),
                    meta: old(self).tokens@[0].meta,
                },
            ),
    {
        let token = match self.bump() {
            Ok(token) => token,
            Err(e) => {
                return Err(e);
            },
        };
        if values_equal(&token.value, &value) {
            Ok(token)
        } else {
            Err(
                Error {
                    kind: ErrorKind::InvalidToken(token.value, ExpectedToken::Token(value)),
                    meta: token.meta,
                },
            )
        }
    }

    /// Consumes the next token, which must be an identifier, and returns its
    /// text and span.
    pub fn expect_ident(&mut self) -> (r: Result<(String, Span), Error>)
        ensures
            old(self).tokens@.len() == 0 ==> final(self).tokens@ == old(self).tokens@ && r
                == Err::<(String, Span), Error>(
                Error { kind: ErrorKind::EndOfFile, meta: Span::spec_undefined() },
            ),
            old(self).tokens@.len() > 0 ==> final(self).tokens@ == old(self).tokens@.remove(0),
            old(self).tokens@.len() > 0 ==> {
                let token = old(self).tokens@[0];
                &&& (token.value matches TokenValue::Identifier(name) ==> r == Ok::<
                    (String, Span),
                    Error,
                >((name, token.meta)))
                &&& (!(token.value is Identifier) ==> r == Err::<(String, Span), Error>(
                    Error {
                        kind: ErrorKind::InvalidToken(token.value, ExpectedToken::Identifier),
                        meta: token.meta,
                    },
                ))
            },
    {
        let token = match self.bump() {
            Ok(token) => token,
            Err(e) => {
                return Err(e);
            },
        };
        match token.value {
            TokenValue::Identifier(name) => Ok((name, token.meta)),
            other => Err(
                Error {
                    kind: ErrorKind::InvalidToken(other, ExpectedToken::Identifier),
                    meta: token.meta,
                },
            ),
        }
    }

    /// Consumes the next token, which must be an unsigned-integer constant
    /// (constant expressions reach this layer already folded to one token).
    pub fn parse_uint_constant(&mut self) -> (r: Result<(u64, Span), Error>)
        ensures
            old(self).tokens@.len() == 0 ==> final(self).tokens@ == old(self).tokens@ && r
                == Err::<(u64, Span), Error>(
                Error { kind: ErrorKind::EndOfFile, meta: Span::spec_undefined() },
            ),
            old(self).tokens@.len() > 0 ==> final(self).tokens@ == old(self).tokens@.remove(0),
            old(self).tokens@.len() > 0 ==> {
                let token = old(self).tokens@[0];
                &&& (token.value matches TokenValue::UintConstant(v) ==> r == Ok::<
                    (u64, Span),
                    Error,
                >((v, token.meta)))
                &&& (!(token.value is UintConstant) ==> r == Err::<(u64, Span), Error>(
                    Error {
                        kind: ErrorKind::InvalidToken(token.value, ExpectedToken::UintConstant),
                        meta: token.meta,
                    },
                ))
            },
    {
        let token = match self.bump() {
            Ok(token) => token,
            Err(e) => {
                return Err(e);
            },
        };
        match token.value {
            TokenValue::UintConstant(v) => Ok((v, token.meta)),
            other => Err(
                Error {
                    kind: ErrorKind::InvalidToken(other, ExpectedToken::UintConstant),
                    meta: token.meta,
                },
            ),
        }
    }
}

} // verus!
