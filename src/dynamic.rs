//! The dynamic value: a tagged union holding one runtime value.

use crate::decimal::Dec;
use vstd::prelude::*;

verus! {

/// Whether a value may be written through.
#[derive(Debug, Clone, Copy, PartialEq, Eq, Structural)]
pub enum AccessMode {
    ReadWrite,
    ReadOnly,
}

/// An opaque value supplied by the host: the engine knows only its type
/// identity, its type name and a handle.
#[derive(Debug, Clone)]
pub struct HostValue {
    pub type_code: u64,
    pub tag: String,
    pub handle: u64,
}

/// The payload of a [`Dynamic`].
#[derive(Debug)]
pub enum Union {
    Unit,
    Bool(bool),
    Int(i64),
    /// A fixed-point decimal.
    Decimal(Dec),
    Char(char),
    Str(String),
    Array(Vec<Dynamic>),
    Blob(Vec<u8>),
    /// String-keyed entries in insertion order.
    Object(Vec<(String, Dynamic)>),
    /// A function pointer: the name of the function it is bound to.
    FnPtr(String),
    /// A half-open integer interval `start..end`.
    Range(i64, i64),
    /// A closed integer interval `start..=end`.
    RangeInclusive(i64, i64),
    /// An opaque time reference.
    TimeStamp(u64),
    Variant(HostValue),
}

/// A runtime value together with its access mode.
#[derive(Debug)]
pub struct Dynamic {
    pub value: Union,
    pub access: AccessMode,
}

/// The mathematical value that a [`Dynamic`] holds.
pub enum Val {
    Unit,
    Bool(bool),
    Int(i64),
    Decimal(Dec),
    Char(char),
    Str(Seq<char>),
    Array(Seq<Val>),
    Blob(Seq<u8>),
    Object(Seq<(Seq<char>, Val)>),
    FnPtr(Seq<char>),
    Range(i64, i64),
    RangeInclusive(i64, i64),
    TimeStamp(u64),
    Variant(u64, Seq<char>, u64),
}

/// The type identity of a value.
#[derive(Debug, Clone, Copy, PartialEq, Eq, Structural)]
pub enum TypeKind {
    Unit,
    Bool,
    Int,
    Decimal,
    Char,
    Str,
    Array,
    Blob,
    Object,
    FnPtr,
    Range,
    RangeInclusive,
    TimeStamp,
    /// A host type, by its type code.
    Variant(u64),
}

/// The type identity of a mathematical value.
pub open spec fn type_of(v: Val) -> TypeKind {
    match v {
        Val::Unit => TypeKind::Unit,
        Val::Bool(_) => TypeKind::Bool,
        Val::Int(_) => TypeKind::Int,
        Val::Decimal(_) => TypeKind::Decimal,
        Val::Char(_) => TypeKind::Char,
        Val::Str(_) => TypeKind::Str,
        Val::Array(_) => TypeKind::Array,
        Val::Blob(_) => TypeKind::Blob,
        Val::Object(_) => TypeKind::Object,
        Val::FnPtr(_) => TypeKind::FnPtr,
        Val::Range(..) => TypeKind::Range,
        Val::RangeInclusive(..) => TypeKind::RangeInclusive,
        Val::TimeStamp(_) => TypeKind::TimeStamp,
        Val::Variant(code, ..) => TypeKind::Variant(code),
    }
}

/// The name of a type, as shown in error messages and signatures.
pub open spec fn name_of_type(v: Val) -> Seq<char> {
    match v {
        Val::Unit => "()"@,
        Val::Bool(_) => "bool"@,
        Val::Int(_) => "i64"@,
        Val::Decimal(_) => "decimal"@,
        Val::Char(_) => "char"@,
        Val::Str(_) => "string"@,
        Val::Array(_) => "array"@,
        Val::Blob(_) => "blob"@,
        Val::Object(_) => "map"@,
        Val::FnPtr(_) => "Fn"@,
        Val::Range(..) => "range"@,
        Val::RangeInclusive(..) => "range="@,
        Val::TimeStamp(_) => "timestamp"@,
        Val::Variant(_, name, _) => name,
    }
}

/// The values of a sequence of dynamic values.
pub open spec fn vals_of(s: Seq<Dynamic>) -> Seq<Val>
    decreases s,
{
    if s.len() == 0 {
        Seq::empty()
    } else {
        vals_of(s.drop_last()).push(s.last().view())
    }
}

/// The entries of a sequence of map entries.
pub open spec fn entries_of(s: Seq<(String, Dynamic)>) -> Seq<(Seq<char>, Val)>
    decreases s,
{
    if s.len() == 0 {
        Seq::empty()
    } else {
        entries_of(s.drop_last()).push((s.last().0@, s.last().1.view()))
    }
}

pub proof fn lemma_vals_of(s: Seq<Dynamic>)
    ensures
        vals_of(s).len() == s.len(),
        forall|i: int| 0 <= i < s.len() ==> #[trigger] vals_of(s)[i] == s[i].view(),
    decreases s.len(),
{
    if s.len() > 0 {
        lemma_vals_of(s.drop_last());
    }
}

pub proof fn lemma_vals_of_push(a: Seq<Dynamic>, d: Dynamic)
    ensures
        vals_of(a.push(d)) == vals_of(a).push(d@),
{
    assert(a.push(d).drop_last() =~= a);
}

pub proof fn lemma_entries_of(s: Seq<(String, Dynamic)>)
    ensures
        entries_of(s).len() == s.len(),
        forall|i: int|
            0 <= i < s.len() ==> #[trigger] entries_of(s)[i] == (s[i].0@, s[i].1.view()),
    decreases s.len(),
{
    if s.len() > 0 {
        lemma_entries_of(s.drop_last());
    }
}

impl Dynamic {
    /// The mathematical value held.
    pub open spec fn view(&self) -> Val
        decreases self,
    {
        match &self.value {
            Union::Unit => Val::Unit,
            Union::Bool(b) => Val::Bool(*b),
            Union::Int(i) => Val::Int(*i),
            Union::Decimal(d) => Val::Decimal(*d),
            Union::Char(c) => Val::Char(*c),
            Union::Str(s) => Val::Str(s@),
            Union::Array(a) => Val::Array(vals_of(a@)),
            Union::Blob(b) => Val::Blob(b@),
            Union::Object(m) => Val::Object(entries_of(m@)),
            Union::FnPtr(f) => Val::FnPtr(f@),
            Union::Range(a, b) => Val::Range(*a, *b),
            Union::RangeInclusive(a, b) => Val::RangeInclusive(*a, *b),
            Union::TimeStamp(t) => Val::TimeStamp(*t),
            Union::Variant(h) => Val::Variant(h.type_code, h.tag@, h.handle),
        }
    }

    /// A read-write value.
    pub fn from_union(value: Union) -> (r: Dynamic)
        ensures
            r.value == value,
            r.access == AccessMode::ReadWrite,
    {
        Dynamic { value, access: AccessMode::ReadWrite }
    }

    /// The unit value.
    pub fn unit() -> (r: Dynamic)
        ensures
            r@ == Val::Unit,
            r.access == AccessMode::ReadWrite,
    {
        Dynamic::from_union(Union::Unit)
    }

    pub fn from_bool(b: bool) -> (r: Dynamic)
        ensures
            r@ == Val::Bool(b),
            r.access == AccessMode::ReadWrite,
    {
        Dynamic::from_union(Union::Bool(b))
    }

    pub fn from_int(i: i64) -> (r: Dynamic)
        ensures
            r@ == Val::Int(i),
            r.access == AccessMode::ReadWrite,
    {
        Dynamic::from_union(Union::Int(i))
    }

    pub fn from_char(c: char) -> (r: Dynamic)
        ensures
            r@ == Val::Char(c),
            r.access == AccessMode::ReadWrite,
    {
        Dynamic::from_union(Union::Char(c))
    }

    pub fn from_string(s: String) -> (r: Dynamic)
        ensures
            r@ == Val::Str(s@),
            r.access == AccessMode::ReadWrite,
    {
        Dynamic::from_union(Union::Str(s))
    }

    pub fn from_blob(b: Vec<u8>) -> (r: Dynamic)
        ensures
            r@ == Val::Blob(b@),
            r.access == AccessMode::ReadWrite,
    {
        Dynamic::from_union(Union::Blob(b))
    }

    pub fn from_array(a: Vec<Dynamic>) -> (r: Dynamic)
        ensures
            r@ == Val::Array(vals_of(a@)),
            r.access == AccessMode::ReadWrite,
    {
        Dynamic::from_union(Union::Array(a))
    }

    /// The type identity of this value.
    pub fn type_id(&self) -> (r: TypeKind)
        ensures
            r == type_of(self@),
    {
        match &self.value {
            Union::Unit => TypeKind::Unit,
            Union::Bool(_) => TypeKind::Bool,
            Union::Int(_) => TypeKind::Int,
            Union::Decimal(_) => TypeKind::Decimal,
            Union::Char(_) => TypeKind::Char,
            Union::Str(_) => TypeKind::Str,
            Union::Array(_) => TypeKind::Array,
            Union::Blob(_) => TypeKind::Blob,
            Union::Object(_) => TypeKind::Object,
            Union::FnPtr(_) => TypeKind::FnPtr,
            Union::Range(..) => TypeKind::Range,
            Union::RangeInclusive(..) => TypeKind::RangeInclusive,
            Union::TimeStamp(_) => TypeKind::TimeStamp,
            Union::Variant(h) => TypeKind::Variant(h.type_code),
        }
    }

    /// The name of this value's type.
    pub fn name_of_type_str(&self) -> (r: String)
        ensures
            r@ == name_of_type(self@),
    {
        match &self.value {
            Union::Unit => String::from_str("()"),
            Union::Bool(_) => String::from_str("bool"),
            Union::Int(_) => String::from_str("i64"),
            Union::Decimal(_) => String::from_str("decimal"),
            Union::Char(_) => String::from_str("char"),
            Union::Str(_) => String::from_str("string"),
            Union::Array(_) => String::from_str("array"),
            Union::Blob(_) => String::from_str("blob"),
            Union::Object(_) => String::from_str("map"),
            Union::FnPtr(_) => String::from_str("Fn"),
            Union::Range(..) => String::from_str("range"),
            Union::RangeInclusive(..) => String::from_str("range="),
            Union::TimeStamp(_) => String::from_str("timestamp"),
            Union::Variant(h) => h.tag.clone(),
        }
    }

    /// Is this value unit?
    pub fn is_unit(&self) -> (r: bool)
        ensures
            r == (self@ == Val::Unit),
    {
        match &self.value {
            Union::Unit => true,
            _ => false,
        }
    }

    /// Is this value read-only?
    pub fn is_read_only(&self) -> (r: bool)
        ensures
            r == (self.access == AccessMode::ReadOnly),
    {
        match self.access {
            AccessMode::ReadOnly => true,
            AccessMode::ReadWrite => false,
        }
    }

    /// Set the access mode. Marking is one-way: a read-only value stays
    /// read-only.
    pub fn set_access_mode(&mut self, mode: AccessMode)
        ensures
            final(self)@ == old(self)@,
            final(self).access == if old(self).access == AccessMode::ReadOnly {
                AccessMode::ReadOnly
            } else {
                mode
            },
    {
        if self.access != AccessMode::ReadOnly {
            self.access = mode;
        }
    }

    /// The integer held, or the name of the type held.
    pub fn as_int(&self) -> (r: Result<i64, String>)
        ensures
            match self@ {
                Val::Int(i) => r == Ok::<i64, String>(i),
                _ => r is Err && r->Err_0@ == name_of_type(self@),
            },
    {
        match &self.value {
            Union::Int(i) => Ok(*i),
            _ => Err(self.name_of_type_str()),
        }
    }

    /// The boolean held, or the name of the type held.
    pub fn as_bool(&self) -> (r: Result<bool, String>)
        ensures
            match self@ {
                Val::Bool(b) => r == Ok::<bool, String>(b),
                _ => r is Err && r->Err_0@ == name_of_type(self@),
            },
    {
        match &self.value {
            Union::Bool(b) => Ok(*b),
            _ => Err(self.name_of_type_str()),
        }
    }

    /// The character held, or the name of the type held.
    pub fn as_char(&self) -> (r: Result<char, String>)
        ensures
            match self@ {
                Val::Char(c) => r == Ok::<char, String>(c),
                _ => r is Err && r->Err_0@ == name_of_type(self@),
            },
    {
        match &self.value {
            Union::Char(c) => Ok(*c),
            _ => Err(self.name_of_type_str()),
        }
    }

    /// The string held, or the name of the type held.
    pub fn into_immutable_string(self) -> (r: Result<String, String>)
        ensures
            match self@ {
                Val::Str(s) => r is Ok && r->Ok_0@ == s,
                _ => r is Err && r->Err_0@ == name_of_type(self@),
            },
    {
        let name = self.name_of_type_str();
        match self.value {
            Union::Str(s) => Ok(s),
            _ => Err(name),
        }
    }

    /// A copy of this value, with the same access mode.
    pub fn clone_value(&self) -> (r: Dynamic)
        ensures
            r@ == self@,
            r.access == self.access,
        decreases self,
    {
        let value = match &self.value {
            Union::Unit => Union::Unit,
            Union::Bool(b) => Union::Bool(*b),
            Union::Int(i) => Union::Int(*i),
            Union::Decimal(d) => Union::Decimal(*d),
            Union::Char(c) => Union::Char(*c),
            Union::Str(s) => Union::Str(s.clone()),
            Union::Array(a) => {
                let mut out: Vec<Dynamic> = Vec::new();
                let mut i: usize = 0;
                while i < a.len()
                    invariant
                        i <= a.len(),
                        self.value == Union::Array(*a),
                        vals_of(out@) == vals_of(a@.subrange(0, i as int)),
                    decreases a.len() - i,
                {
                    proof {
                        vstd::std_specs::vec::axiom_vec_index_decreases(*a, i as int);
                        assert(decreases_to!(*self => self.value));
                        assert(decreases_to!(self.value => self.value->Array_0));
                        assert(decreases_to!(*a => a[i as int]));
                    }
                    let x = a[i].clone_value();
                    proof {
                        assert(a@.subrange(0, i + 1).drop_last() =~= a@.subrange(0, i as int));
                    }
                    let ghost before = out@;
                    out.push(x);
                    proof {
                        assert(out@.drop_last() =~= before);
                    }
                    i = i + 1;
                }
                proof {
                    assert(a@.subrange(0, a@.len() as int) =~= a@);
                }
                Union::Array(out)
            },
            Union::Blob(b) => Union::Blob(b.clone()),
            Union::Object(m) => {
                let mut out: Vec<(String, Dynamic)> = Vec::new();
                let mut i: usize = 0;
                while i < m.len()
                    invariant
                        i <= m.len(),
                        self.value == Union::Object(*m),
                        entries_of(out@) == entries_of(m@.subrange(0, i as int)),
                    decreases m.len() - i,
                {
                    proof {
                        vstd::std_specs::vec::axiom_vec_index_decreases(*m, i as int);
                        assert(decreases_to!(*self => self.value));
                        assert(decreases_to!(self.value => self.value->Object_0));
                        assert(decreases_to!(*m => m[i as int]));
                        assert(decreases_to!(m[i as int] => m[i as int].1));
                    }
                    let k = m[i].0.clone();
                    let x = m[i].1.clone_value();
                    proof {
                        assert(m@.subrange(0, i + 1).drop_last() =~= m@.subrange(0, i as int));
                    }
                    let ghost before = out@;
                    out.push((k, x));
                    proof {
                        assert(out@.drop_last() =~= before);
                    }
                    i = i + 1;
                }
                proof {
                    assert(m@.subrange(0, m@.len() as int) =~= m@);
                }
                Union::Object(out)
            },
            Union::FnPtr(f) => Union::FnPtr(f.clone()),
            Union::Range(a, b) => Union::Range(*a, *b),
            Union::RangeInclusive(a, b) => Union::RangeInclusive(*a, *b),
            Union::TimeStamp(t) => Union::TimeStamp(*t),
            Union::Variant(h) => Union::Variant(
                HostValue { type_code: h.type_code, tag: h.tag.clone(), handle: h.handle },
            ),
        };
        Dynamic { value, access: self.access }
    }

    /// An owned copy that holds no shared cell. Values of this engine never
    /// hold one, so this is the value itself.
    pub fn flatten(self) -> (r: Dynamic)
        ensures
            r@ == self@,
            r.access == self.access,
    {
        self
    }
}

/// The keys of an object map's entries.
pub open spec fn keys_of(m: Seq<(Seq<char>, Val)>) -> Seq<Seq<char>> {
    Seq::new(m.len(), |i: int| m[i].0)
}

/// The entries after putting `v` under `k`: the entry with that key, if
/// there is one, takes the new value in place; otherwise the entry is
/// appended, keeping insertion order.
pub open spec fn object_put(m: Seq<(Seq<char>, Val)>, k: Seq<char>, v: Val) -> Seq<(Seq<char>, Val)> {
    match crate::scope::last_index_of(keys_of(m), k) {
        Some(i) => m.update(i, (k, v)),
        None => m.push((k, v)),
    }
}

/// Put `v` under `key` in the entries of an object map.
pub fn object_insert(m: &mut Vec<(String, Dynamic)>, key: String, v: Dynamic)
    ensures
        entries_of(final(m)@) == object_put(entries_of(old(m)@), key@, v@),
{
    let ghost es = entries_of(m@);
    proof {
        lemma_entries_of(m@);
        crate::scope::lemma_last_index_of(keys_of(es), key@);
    }
    let mut i = m.len();
    while i > 0
        invariant
            i <= m@.len(),
            *m == *old(m),
            es == entries_of(m@),
            es.len() == m@.len(),
            forall|j: int| 0 <= j < m@.len() ==> #[trigger] es[j] == (m@[j].0@, m@[j].1@),
            forall|j: int| i <= j < m@.len() ==> m@[j].0@ != key@,
        decreases i,
    {
        if m[i - 1].0.eq(&key) {
            let ghost before = m@;
            m.set(i - 1, (key, v));
            proof {
                lemma_entries_of(m@);
                assert(crate::scope::last_index_of(keys_of(es), key@) == Some((i - 1) as int)) by {
                    crate::scope::lemma_last_index_of(keys_of(es), key@);
                    assert(keys_of(es)[i - 1] == key@);
                    assert forall|j: int| i - 1 < j < es.len() implies keys_of(es)[j] != key@ by {}
                    match crate::scope::last_index_of(keys_of(es), key@) {
                        Some(x) => {
                            assert(x >= i - 1);
                        },
                        None => {},
                    }
                }
                assert(entries_of(m@) =~= es.update(i - 1, (key@, v@)));
            }
            return;
        }
        i = i - 1;
    }
    let ghost before = m@;
    m.push((key, v));
    proof {
        assert(m@.drop_last() =~= before);
        assert(crate::scope::last_index_of(keys_of(es), key@) is None) by {
            crate::scope::lemma_last_index_of(keys_of(es), key@);
        }
    }
}

} // verus!
