use skyd::data::{bytes_eq, nullable_datatype, Datacell, DictEntryGeneric, DictGeneric, Lit};
use skyd::data::{LitIR, Null, NullableData, NullableDictEntry};

#[test]
fn bytes_compare() {
    assert!(bytes_eq(b"", b""));
    assert!(bytes_eq(b"abc", b"abc"));
    assert!(!bytes_eq(b"abc", b"abd"));
    assert!(!bytes_eq(b"abc", b"ab"));
    assert!(!bytes_eq(b"", b"a"));
}

#[test]
fn literal_equality() {
    assert_eq!(Lit::Str(b"a".to_vec()), Lit::Str(b"a".to_vec()));
    assert_ne!(Lit::Str(b"a".to_vec()), Lit::Str(b"b".to_vec()));
    assert_ne!(Lit::Str(b"a".to_vec()), Lit::Bin(b"a".to_vec()));
    assert_eq!(Lit::Bin(vec![]), Lit::Bin(vec![]));
    assert_eq!(Lit::UnsignedInt(1), Lit::UnsignedInt(1));
    assert_ne!(Lit::UnsignedInt(1), Lit::SignedInt(1));
    assert_ne!(Lit::SignedInt(1), Lit::SignedInt(-1));
    assert_ne!(Lit::Bool(true), Lit::Bool(false));
    assert_eq!(Lit::Null, Lit::Null);
    assert_ne!(Lit::Null, Lit::Bool(false));
}

#[test]
fn literal_conversions() {
    let all = [
        (Lit::Str(b"s".to_vec()), Datacell::Str(b"s".to_vec())),
        (Lit::Bin(vec![0, 1]), Datacell::Bin(vec![0, 1])),
        (Lit::UnsignedInt(u64::MAX), Datacell::UnsignedInt(u64::MAX)),
        (Lit::SignedInt(i64::MIN), Datacell::SignedInt(i64::MIN)),
        (Lit::Bool(true), Datacell::Bool(true)),
        (Lit::Null, Datacell::Null),
    ];
    for (lit, cell) in all {
        assert_eq!(lit.to_owned(), lit);
        assert_eq!(lit.as_ir().to_data(), cell);
        assert_eq!(Datacell::from(lit.as_ir()), cell);
        assert_eq!(nullable_datatype(lit.as_ir()), cell);
        assert_eq!(NullableData::<Datacell>::data(lit.to_owned()), cell);
        assert_eq!(
            NullableDictEntry::data(lit.to_owned()),
            DictEntryGeneric::Data(lit_cell(&cell))
        );
        assert_eq!(Datacell::from(lit), lit_cell(&cell));
    }
    assert_eq!(Datacell::from(LitIR::Str(b"x")), Datacell::Str(b"x".to_vec()));
    assert_eq!(nullable_datatype(LitIR::Bin(b"x")), Datacell::Bin(b"x".to_vec()));
}

/// A copy of the cell, made by hand
fn lit_cell(cell: &Datacell) -> Datacell {
    match cell {
        Datacell::Str(s) => Datacell::Str(s.clone()),
        Datacell::Bin(b) => Datacell::Bin(b.clone()),
        Datacell::UnsignedInt(u) => Datacell::UnsignedInt(*u),
        Datacell::SignedInt(i) => Datacell::SignedInt(*i),
        Datacell::Bool(b) => Datacell::Bool(*b),
        Datacell::Null => Datacell::Null,
    }
}

#[test]
fn null_stands_for_the_null_value() {
    assert_eq!(Datacell::null(), Datacell::Null);
    assert_eq!(nullable_datatype(Null), Datacell::Null);
    assert_eq!(NullableData::<Datacell>::data(Null), Datacell::Null);
    assert_eq!(NullableDictEntry::data(Null), DictEntryGeneric::Data(Datacell::Null));
}

#[test]
fn dictionary_stands_for_itself() {
    let dict: DictGeneric = vec![
        (b"a".to_vec(), DictEntryGeneric::Data(Datacell::Bool(true))),
        (b"b".to_vec(), DictEntryGeneric::Dict(vec![])),
    ];
    let same: DictGeneric = vec![
        (b"a".to_vec(), DictEntryGeneric::Data(Datacell::Bool(true))),
        (b"b".to_vec(), DictEntryGeneric::Dict(vec![])),
    ];
    assert_eq!(NullableDictEntry::data(dict), DictEntryGeneric::Dict(same));
}
