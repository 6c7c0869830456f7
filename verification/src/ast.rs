//! Declaration qualifiers and the lookup records that bind source names to
//! IR entries.

use vstd::prelude::*;

use crate::error::{Error, ErrorKind, SemanticErrorKind};
use crate::ir::{
    AddressSpace, ConstantHandle, ExpressionHandle, GlobalHandle, Interpolation, Precision,
    Sampling, StorageAccess, StructLayout, TypeHandle,
};
use crate::span::Span;

verus! {

/// The storage qualifier of a declaration. The default is
/// `AddressSpace(Function)`; the accumulator uses that sentinel to detect a
/// second storage qualifier on one declaration.
#[derive(Clone, Copy, PartialEq, Eq, Structural, Debug)]
pub enum StorageQualifier {
    Const,
    Input,
    Output,
    AddressSpace(AddressSpace),
}

/// Key of a layout qualifier: the structured struct-layout key, or an
/// arbitrary identifier.
#[derive(Clone, PartialEq, Eq, Debug)]
pub enum QualifierKey {
    Layout,
    String(String),
}

/// Value of a layout qualifier.
#[derive(Clone, Copy, PartialEq, Eq, Structural, Debug)]
pub enum QualifierValue {
    NoValue,
    Uint(u64),
    Layout(StructLayout),
}

#[derive(Clone, PartialEq, Eq, Debug)]
pub struct QualifierEntry {
    pub key: QualifierKey,
    pub value: QualifierValue,
    pub span: Span,
}

/// Key equality: the structured key matches itself; string keys match by
/// their characters.
pub open spec fn key_eq(a: QualifierKey, b: QualifierKey) -> bool {
    match (a, b) {
        (QualifierKey::Layout, QualifierKey::Layout) => true,
        (QualifierKey::String(x), QualifierKey::String(y)) => x@ == y@,
        _ => false,
    }
}

/// `k` is the string key spelled `name`.
pub open spec fn skey_eq(k: QualifierKey, name: Seq<char>) -> bool {
    k matches QualifierKey::String(x) && x@ == name
}

pub open spec fn has_key(s: Seq<QualifierEntry>, k: QualifierKey) -> bool {
    exists|i: int| 0 <= i < s.len() && key_eq(s[i].key, k)
}

/// `i` is the position of the (unique) entry whose key matches `k`.
pub open spec fn key_at(s: Seq<QualifierEntry>, k: QualifierKey, i: int) -> bool {
    &&& 0 <= i < s.len()
    &&& key_eq(s[i].key, k)
    &&& forall|j: int| 0 <= j < i ==> !key_eq(s[j].key, k)
}

pub open spec fn has_skey(s: Seq<QualifierEntry>, name: Seq<char>) -> bool {
    exists|i: int| 0 <= i < s.len() && skey_eq(s[i].key, name)
}

/// `i` is the position of the (unique) entry under the string key `name`.
pub open spec fn skey_at(s: Seq<QualifierEntry>, name: Seq<char>, i: int) -> bool {
    &&& 0 <= i < s.len()
    &&& skey_eq(s[i].key, name)
    &&& forall|j: int| 0 <= j < i ==> !skey_eq(s[j].key, name)
}

/// At most one index is the match of a key.
pub proof fn lemma_key_at_unique(s: Seq<QualifierEntry>, k: QualifierKey, i: int, j: int)
    requires
        key_at(s, k, i),
        key_at(s, k, j),
    ensures
        i == j,
{
    if i < j {
        assert(!key_eq(s[i].key, k));
    }
    if j < i {
        assert(!key_eq(s[j].key, k));
    }
}

/// The entry sequence after `insert`: replace the matched entry, else append.
pub open spec fn inserted(s: Seq<QualifierEntry>, e: QualifierEntry) -> Seq<QualifierEntry> {
    if has_key(s, e.key) {
        s.update(choose|i: int| key_at(s, e.key, i), e)
    } else {
        s.push(e)
    }
}

fn keys_equal(a: &QualifierKey, b: &QualifierKey) -> (r: bool)
    ensures
        r == key_eq(*a, *b),
{
    match (a, b) {
        (QualifierKey::Layout, QualifierKey::Layout) => true,
        (QualifierKey::String(x), QualifierKey::String(y)) => <String as PartialEq>::eq(x, y),
        _ => false,
    }
}

/// The layout key/value pairs of one declaration: at most one entry per key,
/// later insertions of a key overwrite the earlier value.
#[derive(Clone, PartialEq, Eq, Debug)]
pub struct LayoutQualifiers {
    pub entries: Vec<QualifierEntry>,
}

impl LayoutQualifiers {
    /// Keys are pairwise distinct.
    pub open spec fn wf(&self) -> bool {
        forall|i: int, j: int|
            0 <= i < j < self.entries@.len() ==> !key_eq(
                self.entries@[i].key,
                self.entries@[j].key,
            )
    }

    pub fn new() -> (r: LayoutQualifiers)
        ensures
            r.entries@ == Seq::<QualifierEntry>::empty(),
            r.wf(),
    {
        LayoutQualifiers { entries: Vec::new() }
    }

    /// Records a key/value pair; a pair already present under the same key is
    /// overwritten (the last value provided wins).
    pub fn insert(&mut self, key: QualifierKey, value: QualifierValue, span: Span)
        requires
            old(self).wf(),
        ensures
            final(self).wf(),
            final(self).entries@ == inserted(
                old(self).entries@,
                QualifierEntry { key, value, span },
            ),
            has_key(old(self).entries@, key) ==> exists|i: int|
                key_at(old(self).entries@, key, i) && final(self).entries@ == old(
                    self,
                ).entries@.update(i, QualifierEntry { key, value, span }),
            !has_key(old(self).entries@, key) ==> final(self).entries@ == old(
                self,
            ).entries@.push(QualifierEntry { key, value, span }),
    {
        let n: usize = self.entries.len();
        let mut i: usize = 0;
        while i < n
            invariant
                old(self).wf(),
                *self == *old(self),
                n == self.entries.len(),
                i <= n,
                forall|j: int| 0 <= j < i ==> !key_eq(self.entries@[j].key, key),
            decreases n - i,
        {
            if keys_equal(&self.entries[i].key, &key) {
                assert(key_at(self.entries@, key, i as int));
                proof {
                    let k = choose|k: int| key_at(self.entries@, key, k);
                    lemma_key_at_unique(self.entries@, key, i as int, k);
                }
                self.entries.set(i, QualifierEntry { key, value, span });
                assert forall|a: int, b: int|
                    0 <= a < b < self.entries@.len() implies !key_eq(
                    self.entries@[a].key,
                    self.entries@[b].key,
                ) by {
                    if a != i && b != i {
                        assert(!key_eq(old(self).entries@[a].key, old(self).entries@[b].key));
                    }
                }
                return ;
            }
            i += 1;
        }
        self.entries.push(QualifierEntry { key, value, span });
        assert forall|a: int, b: int|
            0 <= a < b < self.entries@.len() implies !key_eq(
            self.entries@[a].key,
            self.entries@[b].key,
        ) by {
            if b < self.entries@.len() - 1 {
                assert(!key_eq(old(self).entries@[a].key, old(self).entries@[b].key));
            }
        }
    }

    /// Removes and returns the pair stored under `key`, if any.
    pub fn take(&mut self, key: &QualifierKey) -> (r: Option<(QualifierValue, Span)>)
        requires
            old(self).wf(),
        ensures
            final(self).wf(),
            !has_key(old(self).entries@, *key) ==> *final(self) == *old(self) && r is None,
            has_key(old(self).entries@, *key) ==> exists|i: int|
                {
                    &&& key_at(old(self).entries@, *key, i)
                    &&& r == Some((old(self).entries@[i].value, old(self).entries@[i].span))
                    &&& final(self).entries@ == old(self).entries@.remove(i)
                },
    {
        let n: usize = self.entries.len();
        let mut i: usize = 0;
        while i < n
            invariant
                old(self).wf(),
                *self == *old(self),
                n == self.entries.len(),
                i <= n,
                forall|j: int| 0 <= j < i ==> !key_eq(self.entries@[j].key, *key),
            decreases n - i,
        {
            if keys_equal(&self.entries[i].key, key) {
                assert(key_at(self.entries@, *key, i as int));
                let entry = self.entries.remove(i);
                assert forall|a: int, b: int|
                    0 <= a < b < self.entries@.len() implies !key_eq(
                    self.entries@[a].key,
                    self.entries@[b].key,
                ) by {
                    let oa: int = if a < i { a } else { a + 1 };
                    let ob: int = if b < i { b } else { b + 1 };
                    assert(!key_eq(old(self).entries@[oa].key, old(self).entries@[ob].key));
                }
                return Some((entry.value, entry.span));
            }
            i += 1;
        }
        None
    }

    pub fn len(&self) -> (r: usize)
        ensures
            r == self.entries@.len(),
    {
        self.entries.len()
    }
}

/// The qualifiers accumulated over one declaration.
pub struct TypeQualifiers {
    pub storage: (StorageQualifier, Span),
    pub interpolation: Option<(Interpolation, Span)>,
    pub sampling: Option<(Sampling, Span)>,
    pub precision: Option<(Precision, Span)>,
    pub storage_access: Option<(StorageAccess, Span)>,
    pub layout_qualifiers: LayoutQualifiers,
    pub span: Span,
}

/// The diagnostic pushed for one unused layout entry.
pub open spec fn unused_error(e: QualifierEntry) -> Error {
    Error { kind: ErrorKind::SemanticError(SemanticErrorKind::UnusedQualifier), meta: e.span }
}

/// The state of a `TypeQualifiers` before any qualifier token was folded in.
pub open spec fn quals_initial(q: TypeQualifiers) -> bool {
    &&& q.storage == (
        StorageQualifier::AddressSpace(AddressSpace::Function),
        Span::spec_undefined(),
    )
    &&& q.interpolation is None
    &&& q.sampling is None
    &&& q.precision is None
    &&& q.storage_access is None
    &&& q.layout_qualifiers.entries@ == Seq::<QualifierEntry>::empty()
    &&& q.span == Span::spec_undefined()
}

impl TypeQualifiers {
    /// The state before any qualifier token has been folded in.
    pub fn new() -> (r: TypeQualifiers)
        ensures
            quals_initial(r),
            r.wf(),
    {
        TypeQualifiers {
            storage: (StorageQualifier::AddressSpace(AddressSpace::Function), Span::undefined()),
            interpolation: None,
            sampling: None,
            precision: None,
            storage_access: None,
            layout_qualifiers: LayoutQualifiers::new(),
            span: Span::undefined(),
        }
    }

    pub open spec fn wf(&self) -> bool {
        self.layout_qualifiers.wf()
    }

    /// All fields but the layout pairs are unchanged.
    pub open spec fn same_but_layout(pre: TypeQualifiers, post: TypeQualifiers) -> bool {
        &&& post.storage == pre.storage
        &&& post.interpolation == pre.interpolation
        &&& post.sampling == pre.sampling
        &&& post.precision == pre.precision
        &&& post.storage_access == pre.storage_access
        &&& post.span == pre.span
    }

    /// Claims the layout value stored under the string key `name`, which must
    /// be an unsigned integer. A pair with a value of another shape is
    /// reported (`QualifierExpectsUint`) and dropped. The claimed pair is
    /// removed either way, so it no longer counts as unused.
    pub fn uint_layout_qualifier(&mut self, name: &str, errors: &mut Vec<Error>) -> (r: Option<
        u64,
    >)
        requires
            old(self).wf(),
        ensures
            final(self).wf(),
            TypeQualifiers::same_but_layout(*old(self), *final(self)),
            !has_skey(old(self).layout_qualifiers.entries@, name@) ==> *final(self) == *old(self)
                && r is None && final(errors)@ == old(errors)@,
            has_skey(old(self).layout_qualifiers.entries@, name@) ==> exists|i: int|
                {
                    let entry = old(self).layout_qualifiers.entries@[i];
                    &&& #[trigger] skey_at(old(self).layout_qualifiers.entries@, name@, i)
                    &&& final(self).layout_qualifiers.entries@ == old(
                        self,
                    ).layout_qualifiers.entries@.remove(i)
                    &&& (entry.value matches QualifierValue::Uint(v) ==> r == Some(v)
                        && final(errors)@ == old(errors)@)
                    &&& (!(entry.value is Uint) ==> r is None
                        && final(errors)@ == old(errors)@.push(
                        Error {
                            kind: ErrorKind::SemanticError(SemanticErrorKind::QualifierExpectsUint),
                            meta: entry.span,
                        },
                    ))
                },
            r == claimed_uint(old(self).layout_qualifiers.entries@, name@),
            final(self).layout_qualifiers.entries@ == remove_skey(
                old(self).layout_qualifiers.entries@,
                name@,
            ),
            final(errors)@ == old(errors)@ + uint_claim_errors(
                old(self).layout_qualifiers.entries@,
                name@,
            ),
            forall|other: Seq<char>|
                other != name@ ==> #[trigger] claimed_uint(
                    final(self).layout_qualifiers.entries@,
                    other,
                ) == claimed_uint(old(self).layout_qualifiers.entries@, other),
            forall|other: Seq<char>|
                other != name@ ==> #[trigger] claimed_flag(
                    final(self).layout_qualifiers.entries@,
                    other,
                ) == claimed_flag(old(self).layout_qualifiers.entries@, other),
    {
        let key = QualifierKey::String(name.to_owned());
        let ghost entries0 = self.layout_qualifiers.entries@;
        proof {
            lemma_skey_bridge(entries0, key, name@);
            if !has_key(entries0, key) {
                lemma_no_skey(entries0, name@);
            }
        }
        let taken = self.layout_qualifiers.take(&key);
        proof {
            if has_key(entries0, key) {
                let i = choose|i: int|
                    {
                        &&& key_at(entries0, key, i)
                        &&& taken == Some((entries0[i].value, entries0[i].span))
                        &&& self.layout_qualifiers.entries@ == entries0.remove(i)
                    };
                assert(skey_at(entries0, name@, i));
                lemma_claimed_uint_at(entries0, name@, i);
                lemma_first_skey(entries0, name@, i);
                assert forall|other: Seq<char>| other != name@ implies #[trigger] claimed_uint(
                    self.layout_qualifiers.entries@,
                    other,
                ) == claimed_uint(entries0, other) by {
                    assert(!skey_eq(entries0[i].key, other));
                    lemma_claimed_uint_remove(entries0, other, i);
                }
                assert forall|other: Seq<char>| other != name@ implies #[trigger] claimed_flag(
                    self.layout_qualifiers.entries@,
                    other,
                ) == claimed_flag(entries0, other) by {
                    assert(!skey_eq(entries0[i].key, other));
                    lemma_claimed_uint_remove(entries0, other, i);
                }
            } else {
                lemma_claimed_uint_absent(entries0, name@);
            }
        }
        match taken {
            Some((QualifierValue::Uint(v), _)) => Some(v),
            Some((_, span)) => {
                errors.push(
                    Error {
                        kind: ErrorKind::SemanticError(SemanticErrorKind::QualifierExpectsUint),
                        meta: span,
                    },
                );
                None
            },
            None => None,
        }
    }

    /// Claims the valueless layout flag stored under the string key `name`;
    /// returns whether it was present with no value. A pair carrying a value
    /// is reported (`QualifierTakesNoValue`) and dropped. The claimed pair is
    /// removed either way, so it no longer counts as unused.
    pub fn none_layout_qualifier(&mut self, name: &str, errors: &mut Vec<Error>) -> (r: bool)
        requires
            old(self).wf(),
        ensures
            final(self).wf(),
            TypeQualifiers::same_but_layout(*old(self), *final(self)),
            !has_skey(old(self).layout_qualifiers.entries@, name@) ==> *final(self) == *old(self)
                && r == false && final(errors)@ == old(errors)@,
            has_skey(old(self).layout_qualifiers.entries@, name@) ==> exists|i: int|
                {
                    let entry = old(self).layout_qualifiers.entries@[i];
                    &&& #[trigger] skey_at(old(self).layout_qualifiers.entries@, name@, i)
                    &&& final(self).layout_qualifiers.entries@ == old(
                        self,
                    ).layout_qualifiers.entries@.remove(i)
                    &&& (entry.value is NoValue ==> r == true && final(errors)@ == old(errors)@)
                    &&& (!(entry.value is NoValue) ==> r == false
                        && final(errors)@ == old(errors)@.push(
                        Error {
                            kind: ErrorKind::SemanticError(
                                SemanticErrorKind::QualifierTakesNoValue,
                            ),
                            meta: entry.span,
                        },
                    ))
                },
            r == claimed_flag(old(self).layout_qualifiers.entries@, name@),
            final(self).layout_qualifiers.entries@ == remove_skey(
                old(self).layout_qualifiers.entries@,
                name@,
            ),
            final(errors)@ == old(errors)@ + flag_claim_errors(
                old(self).layout_qualifiers.entries@,
                name@,
            ),
            forall|other: Seq<char>|
                other != name@ ==> #[trigger] claimed_uint(
                    final(self).layout_qualifiers.entries@,
                    other,
                ) == claimed_uint(old(self).layout_qualifiers.entries@, other),
            forall|other: Seq<char>|
                other != name@ ==> #[trigger] claimed_flag(
                    final(self).layout_qualifiers.entries@,
                    other,
                ) == claimed_flag(old(self).layout_qualifiers.entries@, other),
    {
        let key = QualifierKey::String(name.to_owned());
        let ghost entries0 = self.layout_qualifiers.entries@;
        proof {
            lemma_skey_bridge(entries0, key, name@);
            if !has_key(entries0, key) {
                lemma_no_skey(entries0, name@);
            }
        }
        let taken = self.layout_qualifiers.take(&key);
        proof {
            if has_key(entries0, key) {
                let i = choose|i: int|
                    {
                        &&& key_at(entries0, key, i)
                        &&& taken == Some((entries0[i].value, entries0[i].span))
                        &&& self.layout_qualifiers.entries@ == entries0.remove(i)
                    };
                assert(skey_at(entries0, name@, i));
                lemma_claimed_uint_at(entries0, name@, i);
                lemma_first_skey(entries0, name@, i);
                assert forall|other: Seq<char>| other != name@ implies #[trigger] claimed_uint(
                    self.layout_qualifiers.entries@,
                    other,
                ) == claimed_uint(entries0, other) by {
                    assert(!skey_eq(entries0[i].key, other));
                    lemma_claimed_uint_remove(entries0, other, i);
                }
                assert forall|other: Seq<char>| other != name@ implies #[trigger] claimed_flag(
                    self.layout_qualifiers.entries@,
                    other,
                ) == claimed_flag(entries0, other) by {
                    assert(!skey_eq(entries0[i].key, other));
                    lemma_claimed_uint_remove(entries0, other, i);
                }
            } else {
                lemma_claimed_uint_absent(entries0, name@);
            }
        }
        match taken {
            Some((QualifierValue::NoValue, _)) => true,
            Some((_, span)) => {
                errors.push(
                    Error {
                        kind: ErrorKind::SemanticError(SemanticErrorKind::QualifierTakesNoValue),
                        meta: span,
                    },
                );
                false
            },
            None => false,
        }
    }

    /// Reports every layout pair that no consumer of the declaration claimed.
    pub fn unused_errors(&self, errors: &mut Vec<Error>)
        ensures
            final(errors)@ == old(errors)@ + self.layout_qualifiers.entries@.map_values(
                |e: QualifierEntry| unused_error(e),
            ),
    {
        let n: usize = self.layout_qualifiers.entries.len();
        let mut i: usize = 0;
        while i < n
            invariant
                n == self.layout_qualifiers.entries@.len(),
                i <= n,
                errors@ == old(errors)@ + self.layout_qualifiers.entries@.subrange(
                    0,
                    i as int,
                ).map_values(|e: QualifierEntry| unused_error(e)),
            decreases n - i,
        {
            let span = self.layout_qualifiers.entries[i].span;
            errors.push(
                Error {
                    kind: ErrorKind::SemanticError(SemanticErrorKind::UnusedQualifier),
                    meta: span,
                },
            );
            proof {
                assert(self.layout_qualifiers.entries@.subrange(0, i as int + 1) =~= self
                    .layout_qualifiers
                    .entries@
                    .subrange(0, i as int)
                    .push(self.layout_qualifiers.entries@[i as int]));
                assert(errors@ =~= old(errors)@ + self.layout_qualifiers.entries@.subrange(
                    0,
                    i as int + 1,
                ).map_values(|e: QualifierEntry| unused_error(e)));
            }
            i += 1;
        }
        proof {
            assert(self.layout_qualifiers.entries@.subrange(0, n as int) =~= self
                .layout_qualifiers
                .entries@);
        }
    }
}

/// For a key that is the string `name`, matching by `key_eq` and matching by
/// `skey_eq` agree, entry by entry and existentially.
proof fn lemma_skey_bridge(s: Seq<QualifierEntry>, key: QualifierKey, name: Seq<char>)
    requires
        skey_eq(key, name),
    ensures
        forall|j: int| 0 <= j < s.len() ==> (#[trigger] key_eq(s[j].key, key)) == skey_eq(
            s[j].key,
            name,
        ),
        has_key(s, key) == has_skey(s, name),
        forall|i: int| #[trigger] key_at(s, key, i) <==> skey_at(s, name, i),
{
    assert forall|j: int| 0 <= j < s.len() implies (#[trigger] key_eq(s[j].key, key)) == skey_eq(
        s[j].key,
        name,
    ) by {}
    if has_key(s, key) {
        let i = choose|i: int| 0 <= i < s.len() && key_eq(s[i].key, key);
        assert(skey_eq(s[i].key, name));
        assert(has_skey(s, name));
    }
    if has_skey(s, name) {
        let i = choose|i: int| 0 <= i < s.len() && skey_eq(s[i].key, name);
        assert(key_eq(s[i].key, key));
        assert(has_key(s, key));
    }
    assert forall|i: int| #[trigger] key_at(s, key, i) <==> skey_at(s, name, i) by {
        if key_at(s, key, i) {
            assert(skey_eq(s[i].key, name));
            assert forall|j: int| 0 <= j < i implies !skey_eq(s[j].key, name) by {
                assert(!key_eq(s[j].key, key));
            }
        }
        if skey_at(s, name, i) {
            assert(key_eq(s[i].key, key));
            assert forall|j: int| 0 <= j < i implies !key_eq(s[j].key, key) by {
                assert(!skey_eq(s[j].key, name));
            }
        }
    }
}


/// The unsigned value stored under the string key `name`: `None` when the key
/// is absent or its value has another shape.
pub open spec fn claimed_uint(s: Seq<QualifierEntry>, name: Seq<char>) -> Option<u64>
    decreases s.len(),
{
    if s.len() == 0 {
        None
    } else if skey_eq(s[0].key, name) {
        match s[0].value {
            QualifierValue::Uint(v) => Some(v),
            _ => None,
        }
    } else {
        claimed_uint(s.drop_first(), name)
    }
}

/// Whether the string key `name` is present as a valueless flag.
pub open spec fn claimed_flag(s: Seq<QualifierEntry>, name: Seq<char>) -> bool
    decreases s.len(),
{
    if s.len() == 0 {
        false
    } else if skey_eq(s[0].key, name) {
        s[0].value is NoValue
    } else {
        claimed_flag(s.drop_first(), name)
    }
}

pub proof fn lemma_claimed_uint_at(s: Seq<QualifierEntry>, name: Seq<char>, i: int)
    requires
        skey_at(s, name, i),
    ensures
        claimed_uint(s, name) == (match s[i].value {
            QualifierValue::Uint(v) => Some(v),
            _ => None::<u64>,
        }),
        claimed_flag(s, name) == (s[i].value is NoValue),
    decreases i,
{
    if i == 0 {
    } else {
        assert(!skey_eq(s[0].key, name));
        assert(skey_at(s.drop_first(), name, i - 1)) by {
            assert(s.drop_first()[i - 1] == s[i]);
            assert forall|j: int| 0 <= j < i - 1 implies !skey_eq(
                s.drop_first()[j].key,
                name,
            ) by {
                assert(s.drop_first()[j] == s[j + 1]);
            }
        }
        lemma_claimed_uint_at(s.drop_first(), name, i - 1);
        assert(s.drop_first()[i - 1] == s[i]);
    }
}

pub proof fn lemma_claimed_uint_absent(s: Seq<QualifierEntry>, name: Seq<char>)
    requires
        !has_skey(s, name),
    ensures
        claimed_uint(s, name) is None,
        !claimed_flag(s, name),
    decreases s.len(),
{
    if s.len() > 0 {
        assert(!skey_eq(s[0].key, name));
        assert(!has_skey(s.drop_first(), name)) by {
            if has_skey(s.drop_first(), name) {
                let i = choose|i: int|
                    0 <= i < s.drop_first().len() && skey_eq(s.drop_first()[i].key, name);
                assert(s.drop_first()[i] == s[i + 1]);
                assert(skey_eq(s[i + 1].key, name));
            }
        }
        lemma_claimed_uint_absent(s.drop_first(), name);
    }
}

/// Removing an entry under another key leaves a claimed value as it was.
pub proof fn lemma_claimed_uint_remove(s: Seq<QualifierEntry>, name: Seq<char>, i: int)
    requires
        0 <= i < s.len(),
        !skey_eq(s[i].key, name),
    ensures
        claimed_uint(s.remove(i), name) == claimed_uint(s, name),
        claimed_flag(s.remove(i), name) == claimed_flag(s, name),
    decreases s.len(),
{
    if i == 0 {
        assert(s.remove(0) =~= s.drop_first());
    } else {
        assert(s.remove(i)[0] == s[0]);
        if skey_eq(s[0].key, name) {
        } else {
            assert(s.remove(i).drop_first() =~= s.drop_first().remove(i - 1));
            assert(s.drop_first()[i - 1] == s[i]);
            lemma_claimed_uint_remove(s.drop_first(), name, i - 1);
        }
    }
}


/// The first entry under the string key `name`, if any.
pub open spec fn claimed_entry(s: Seq<QualifierEntry>, name: Seq<char>) -> Option<QualifierEntry>
    decreases s.len(),
{
    if s.len() == 0 {
        None
    } else if skey_eq(s[0].key, name) {
        Some(s[0])
    } else {
        claimed_entry(s.drop_first(), name)
    }
}

/// The entry sequence with the first entry under `name` removed; unchanged
/// when the key is absent.
pub open spec fn remove_skey(s: Seq<QualifierEntry>, name: Seq<char>) -> Seq<QualifierEntry>
    decreases s.len(),
{
    if s.len() == 0 {
        s
    } else if skey_eq(s[0].key, name) {
        s.drop_first()
    } else {
        seq![s[0]] + remove_skey(s.drop_first(), name)
    }
}

/// The diagnostics claiming an unsigned layout value reports: one shape
/// error when the key is present with a value of another shape.
pub open spec fn uint_claim_errors(s: Seq<QualifierEntry>, name: Seq<char>) -> Seq<Error> {
    match claimed_entry(s, name) {
        Some(e) => if e.value is Uint {
            Seq::empty()
        } else {
            seq![
                Error {
                    kind: ErrorKind::SemanticError(SemanticErrorKind::QualifierExpectsUint),
                    meta: e.span,
                },
            ]
        },
        None => Seq::empty(),
    }
}

/// The diagnostics claiming a valueless layout flag reports: one shape error
/// when the key is present carrying a value.
pub open spec fn flag_claim_errors(s: Seq<QualifierEntry>, name: Seq<char>) -> Seq<Error> {
    match claimed_entry(s, name) {
        Some(e) => if e.value is NoValue {
            Seq::empty()
        } else {
            seq![
                Error {
                    kind: ErrorKind::SemanticError(SemanticErrorKind::QualifierTakesNoValue),
                    meta: e.span,
                },
            ]
        },
        None => Seq::empty(),
    }
}

/// The first match under `name` determines the claimed entry and the removal.
pub proof fn lemma_first_skey(s: Seq<QualifierEntry>, name: Seq<char>, i: int)
    requires
        skey_at(s, name, i),
    ensures
        claimed_entry(s, name) == Some(s[i]),
        remove_skey(s, name) == s.remove(i),
    decreases i,
{
    if i == 0 {
        assert(s.drop_first() =~= s.remove(0));
    } else {
        assert(!skey_eq(s[0].key, name));
        assert(skey_at(s.drop_first(), name, i - 1)) by {
            assert(s.drop_first()[i - 1] == s[i]);
            assert forall|j: int| 0 <= j < i - 1 implies !skey_eq(
                s.drop_first()[j].key,
                name,
            ) by {
                assert(s.drop_first()[j] == s[j + 1]);
            }
        }
        lemma_first_skey(s.drop_first(), name, i - 1);
        assert(s.drop_first()[i - 1] == s[i]);
        assert(seq![s[0]] + s.drop_first().remove(i - 1) =~= s.remove(i));
    }
}

/// Without a match under `name`, a claim changes nothing.
pub proof fn lemma_no_skey(s: Seq<QualifierEntry>, name: Seq<char>)
    requires
        !has_skey(s, name),
    ensures
        claimed_entry(s, name) is None,
        remove_skey(s, name) == s,
    decreases s.len(),
{
    if s.len() > 0 {
        assert(!skey_eq(s[0].key, name));
        assert(!has_skey(s.drop_first(), name)) by {
            if has_skey(s.drop_first(), name) {
                let i = choose|i: int|
                    0 <= i < s.drop_first().len() && skey_eq(s.drop_first()[i].key, name);
                assert(s.drop_first()[i] == s[i + 1]);
                assert(skey_eq(s[i + 1].key, name));
            }
        }
        lemma_no_skey(s.drop_first(), name);
        assert(seq![s[0]] + s.drop_first() =~= s);
    }
}

/// What a global name resolves to.
#[derive(Clone, Copy, PartialEq, Eq, Debug)]
pub enum GlobalLookupKind {
    Variable(GlobalHandle),
    Constant(ConstantHandle, TypeHandle),
}

/// Binds a source name to an IR entry for the rest of the compilation unit.
#[derive(Clone, Copy, PartialEq, Eq, Debug)]
pub struct GlobalLookup {
    pub kind: GlobalLookupKind,
    /// Index into the entry-argument list, set only for stage-interface
    /// globals.
    pub entry_arg: Option<usize>,
    pub mutable: bool,
}

/// One stage-interface slot.
#[derive(Clone, PartialEq, Eq, Debug)]
pub struct EntryArg {
    pub name: Option<String>,
    pub binding: crate::ir::Binding,
    pub handle: GlobalHandle,
    pub storage: StorageQualifier,
}

/// What variable resolution hands to expression construction.
#[derive(Clone, Copy, PartialEq, Eq, Debug)]
pub struct VariableReference {
    /// The expression referring to the variable.
    pub expr: ExpressionHandle,
    /// Whether the value must be loaded before use.
    pub load: bool,
    pub mutable: bool,
    /// The backing constant, for constant lookups.
    pub constant: Option<(ConstantHandle, TypeHandle)>,
    /// Index into the entry-argument list, for stage-interface globals.
    pub entry_arg: Option<usize>,
}

/// A declaration ready to be materialized: resolved type, accumulated
/// qualifiers, optional name and initializer.
pub struct VarDeclaration {
    pub qualifiers: TypeQualifiers,
    pub ty: TypeHandle,
    pub name: Option<String>,
    pub init: Option<ConstantHandle>,
    pub meta: Span,
}

/// Identity of a built global declaration: a global variable, or — for
/// `const` declarations — the initializer constant itself.
#[derive(Clone, Copy, PartialEq, Eq, Debug)]
pub enum GlobalOrConstant {
    Global(GlobalHandle),
    Constant(ConstantHandle),
}

} // verus!
