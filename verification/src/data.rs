//! Literal values: as they stand in a token, as the parser borrows them, and as the
//! executor owns them.
use vstd::prelude::*;

verus! {

/// The mathematical value of a literal
pub enum Value {
    Str(Seq<u8>),
    Bool(bool),
    UnsignedInt(u64),
    SignedInt(i64),
    Bin(Seq<u8>),
    Null,
}

/// The values of a run of things that each have a value
pub open spec fn each<T: View>(s: Seq<T>) -> Seq<T::V> {
    Seq::new(s.len(), |i: int| s[i]@)
}

/// Compares two byte strings
pub fn bytes_eq(a: &[u8], b: &[u8]) -> (r: bool)
    ensures
        r == (a@ == b@),
{
    if a.len() != b.len() {
        return false;
    }
    let mut i: usize = 0;
    while i < a.len()
        invariant
            i <= a@.len(),
            a@.len() == b@.len(),
            a@.subrange(0, i as int) == b@.subrange(0, i as int),
        decreases a@.len() - i,
    {
        if a[i] != b[i] {
            return false;
        }
        assert(a@.subrange(0, i + 1) =~= a@.subrange(0, i as int).push(a@[i as int]));
        assert(b@.subrange(0, i + 1) =~= b@.subrange(0, i as int).push(b@[i as int]));
        i += 1;
    }
    assert(a@ =~= a@.subrange(0, i as int));
    assert(b@ =~= b@.subrange(0, i as int));
    true
}

/// A literal as it stands in a token: it owns its bytes
#[derive(Debug)]
pub enum Lit {
    Str(Vec<u8>),
    Bool(bool),
    UnsignedInt(u64),
    SignedInt(i64),
    Bin(Vec<u8>),
    Null,
}

impl View for Lit {
    type V = Value;

    open spec fn view(&self) -> Value {
        match self {
            Lit::Str(s) => Value::Str(s@),
            Lit::Bool(b) => Value::Bool(*b),
            Lit::UnsignedInt(u) => Value::UnsignedInt(*u),
            Lit::SignedInt(i) => Value::SignedInt(*i),
            Lit::Bin(b) => Value::Bin(b@),
            Lit::Null => Value::Null,
        }
    }
}

/// A literal as the parser hands it on: it borrows its bytes
#[derive(Debug, Clone, Copy)]
pub enum LitIR<'a> {
    Str(&'a [u8]),
    Bool(bool),
    UnsignedInt(u64),
    SignedInt(i64),
    Bin(&'a [u8]),
    Null,
}

impl<'a> View for LitIR<'a> {
    type V = Value;

    open spec fn view(&self) -> Value {
        match self {
            LitIR::Str(s) => Value::Str(s@),
            LitIR::Bool(b) => Value::Bool(*b),
            LitIR::UnsignedInt(u) => Value::UnsignedInt(*u),
            LitIR::SignedInt(i) => Value::SignedInt(*i),
            LitIR::Bin(b) => Value::Bin(b@),
            LitIR::Null => Value::Null,
        }
    }
}

/// A value as the executor owns it
#[derive(Debug, PartialEq)]
pub enum Datacell {
    Str(Vec<u8>),
    Bool(bool),
    UnsignedInt(u64),
    SignedInt(i64),
    Bin(Vec<u8>),
    Null,
}

impl View for Datacell {
    type V = Value;

    open spec fn view(&self) -> Value {
        match self {
            Datacell::Str(s) => Value::Str(s@),
            Datacell::Bool(b) => Value::Bool(*b),
            Datacell::UnsignedInt(u) => Value::UnsignedInt(*u),
            Datacell::SignedInt(i) => Value::SignedInt(*i),
            Datacell::Bin(b) => Value::Bin(b@),
            Datacell::Null => Value::Null,
        }
    }
}

impl Lit {
    /// Borrows the literal
    pub fn as_ir<'a>(&'a self) -> (r: LitIR<'a>)
        ensures
            r@ == self@,
    {
        match self {
            Lit::Str(s) => LitIR::Str(s.as_slice()),
            Lit::Bool(b) => LitIR::Bool(*b),
            Lit::UnsignedInt(u) => LitIR::UnsignedInt(*u),
            Lit::SignedInt(i) => LitIR::SignedInt(*i),
            Lit::Bin(b) => LitIR::Bin(b.as_slice()),
            Lit::Null => LitIR::Null,
        }
    }

    /// An owned copy of the literal
    pub fn to_owned(&self) -> (r: Lit)
        ensures
            r@ == self@,
    {
        match self {
            Lit::Str(s) => Lit::Str(vstd::slice::slice_to_vec(s.as_slice())),
            Lit::Bool(b) => Lit::Bool(*b),
            Lit::UnsignedInt(u) => Lit::UnsignedInt(*u),
            Lit::SignedInt(i) => Lit::SignedInt(*i),
            Lit::Bin(b) => Lit::Bin(vstd::slice::slice_to_vec(b.as_slice())),
            Lit::Null => Lit::Null,
        }
    }
}

/// Two literals are equal if they have the same value
impl PartialEq for Lit {
    fn eq(&self, other: &Lit) -> (r: bool) {
        match (self, other) {
            (Lit::Str(a), Lit::Str(b)) => bytes_eq(a.as_slice(), b.as_slice()),
            (Lit::Bool(a), Lit::Bool(b)) => *a == *b,
            (Lit::UnsignedInt(a), Lit::UnsignedInt(b)) => *a == *b,
            (Lit::SignedInt(a), Lit::SignedInt(b)) => *a == *b,
            (Lit::Bin(a), Lit::Bin(b)) => bytes_eq(a.as_slice(), b.as_slice()),
            (Lit::Null, Lit::Null) => true,
            _ => false,
        }
    }
}

impl vstd::std_specs::cmp::PartialEqSpecImpl for Lit {
    open spec fn obeys_eq_spec() -> bool {
        true
    }

    open spec fn eq_spec(&self, other: &Lit) -> bool {
        self@ == other@
    }
}

impl<'a> LitIR<'a> {
    /// An owned copy of the value
    pub fn to_data(&self) -> (r: Datacell)
        ensures
            r@ == self@,
    {
        match self {
            LitIR::Str(s) => Datacell::Str(vstd::slice::slice_to_vec(s)),
            LitIR::Bool(b) => Datacell::Bool(*b),
            LitIR::UnsignedInt(u) => Datacell::UnsignedInt(*u),
            LitIR::SignedInt(i) => Datacell::SignedInt(*i),
            LitIR::Bin(b) => Datacell::Bin(vstd::slice::slice_to_vec(b)),
            LitIR::Null => Datacell::Null,
        }
    }
}

impl Datacell {
    /// The null value
    pub fn null() -> (r: Datacell)
        ensures
            r@ == Value::Null,
    {
        Datacell::Null
    }
}

/// The conversions into a [`Datacell`] keep the value. They are described by the value of
/// what they return: two cells of one value need not be the same cell.
impl<'a> From<LitIR<'a>> for Datacell {
    fn from(v: LitIR<'a>) -> (r: Datacell)
        ensures
            r@ == v@,
    {
        v.to_data()
    }
}

impl<'a> vstd::std_specs::convert::FromSpecImpl<LitIR<'a>> for Datacell {
    open spec fn obeys_from_spec() -> bool {
        false
    }

    open spec fn from_spec(v: LitIR<'a>) -> Datacell {
        Datacell::Null
    }
}

impl From<Lit> for Datacell {
    fn from(v: Lit) -> (r: Datacell)
        ensures
            r@ == v@,
    {
        match v {
            Lit::Str(s) => Datacell::Str(s),
            Lit::Bool(b) => Datacell::Bool(b),
            Lit::UnsignedInt(u) => Datacell::UnsignedInt(u),
            Lit::SignedInt(i) => Datacell::SignedInt(i),
            Lit::Bin(b) => Datacell::Bin(b),
            Lit::Null => Datacell::Null,
        }
    }
}

impl vstd::std_specs::convert::FromSpecImpl<Lit> for Datacell {
    open spec fn obeys_from_spec() -> bool {
        false
    }

    open spec fn from_spec(v: Lit) -> Datacell {
        Datacell::Null
    }
}

/// An entry of a dictionary: a value, or a dictionary in turn
#[derive(Debug, PartialEq)]
pub enum DictEntryGeneric {
    Data(Datacell),
    Dict(DictGeneric),
}

/// A dictionary: its entries by name, in the order in which they were given
pub type DictGeneric = Vec<(Vec<u8>, DictEntryGeneric)>;

/// The absent value
#[derive(Debug, Clone, Copy)]
pub struct Null;

/// What can stand where a value of type `T` or none is expected
pub trait NullableData<T>: Sized {
    /// Whether `r` is a value that `self` stands for
    spec fn yields(self, r: T) -> bool;

    fn data(self) -> (r: T)
        ensures
            self.yields(r),
    ;
}

impl<T> NullableData<Datacell> for T where T: Into<Datacell> {
    /// Whatever the conversion into a [`Datacell`] may return
    open spec fn yields(self, r: Datacell) -> bool {
        call_ensures(<T as Into<Datacell>>::into, (self,), r)
    }

    fn data(self) -> Datacell {
        self.into()
    }
}

impl NullableData<Datacell> for Null {
    open spec fn yields(self, r: Datacell) -> bool {
        r@ == Value::Null
    }

    fn data(self) -> Datacell {
        Datacell::null()
    }
}

/// The value that `v` stands for
pub fn nullable_datatype<N: NullableData<Datacell>>(v: N) -> (r: Datacell)
    ensures
        v.yields(r),
{
    v.data()
}

/// What can stand where an entry of a dictionary or none is expected
pub trait NullableDictEntry: Sized {
    /// Whether `r` is the entry that `self` stands for
    spec fn yields_entry(self, r: DictEntryGeneric) -> bool;

    fn data(self) -> (r: DictEntryGeneric)
        ensures
            self.yields_entry(r),
    ;
}

impl NullableDictEntry for Null {
    open spec fn yields_entry(self, r: DictEntryGeneric) -> bool {
        r matches DictEntryGeneric::Data(d) && d@ == Value::Null
    }

    fn data(self) -> DictEntryGeneric {
        DictEntryGeneric::Data(Datacell::null())
    }
}

impl NullableDictEntry for Lit {
    open spec fn yields_entry(self, r: DictEntryGeneric) -> bool {
        r matches DictEntryGeneric::Data(d) && d@ == self@
    }

    fn data(self) -> DictEntryGeneric {
        DictEntryGeneric::Data(self.as_ir().to_data())
    }
}

impl NullableDictEntry for DictGeneric {
    open spec fn yields_entry(self, r: DictEntryGeneric) -> bool {
        r == DictEntryGeneric::Dict(self)
    }

    fn data(self) -> DictEntryGeneric {
        DictEntryGeneric::Dict(self)
    }
}

} // verus!
