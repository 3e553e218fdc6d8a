use declaration_engine::language::promote_purity;
use declaration_engine::language::Purity;
use declaration_engine::language::VariableMutability;

#[test]
fn a_function_may_call_what_declares_no_more_than_it_does() {
    let all = [Purity::Pure, Purity::Reads, Purity::Writes, Purity::ReadsWrites];
    let allowed = [
        [true, false, false, false],
        [true, true, false, false],
        [true, false, true, false],
        [true, true, true, true],
    ];
    for (i, caller) in all.iter().enumerate() {
        for (j, callee) in all.iter().enumerate() {
            assert_eq!(caller.can_call(*callee), allowed[i][j], "{:?} calls {:?}", caller, callee);
        }
    }
}

#[test]
fn promoting_joins_reading_and_writing() {
    assert_eq!(promote_purity(Purity::Reads, Purity::Writes), Purity::ReadsWrites);
    assert_eq!(promote_purity(Purity::Writes, Purity::Reads), Purity::ReadsWrites);
    assert_eq!(promote_purity(Purity::ReadsWrites, Purity::Pure), Purity::ReadsWrites);
    assert_eq!(promote_purity(Purity::ReadsWrites, Purity::Reads), Purity::ReadsWrites);
    assert_eq!(promote_purity(Purity::Pure, Purity::Reads), Purity::Reads);
    assert_eq!(promote_purity(Purity::Pure, Purity::Writes), Purity::Writes);
    assert_eq!(promote_purity(Purity::Pure, Purity::ReadsWrites), Purity::ReadsWrites);
    assert_eq!(promote_purity(Purity::Reads, Purity::ReadsWrites), Purity::ReadsWrites);
    assert_eq!(promote_purity(Purity::Reads, Purity::Pure), Purity::Pure);
}

#[test]
fn the_promoted_purity_may_make_the_call() {
    let all = [Purity::Pure, Purity::Reads, Purity::Writes, Purity::ReadsWrites];
    for caller in all {
        for callee in all {
            if !caller.can_call(callee) {
                let promoted = promote_purity(caller, callee);
                assert!(promoted.can_call(callee));
                assert!(promoted.can_call(caller));
            }
        }
    }
}

#[test]
fn a_purity_is_written_as_its_attribute() {
    assert_eq!(Purity::Pure.to_attribute_syntax(), "");
    assert_eq!(Purity::Reads.to_attribute_syntax(), "read");
    assert_eq!(Purity::Writes.to_attribute_syntax(), "write");
    assert_eq!(Purity::ReadsWrites.to_attribute_syntax(), "read, write");
}

#[test]
fn a_parameter_is_mutable_by_reference_or_by_mut() {
    assert_eq!(VariableMutability::new_from_ref_mut(true, true), VariableMutability::RefMutable);
    assert_eq!(VariableMutability::new_from_ref_mut(true, false), VariableMutability::RefMutable);
    assert_eq!(VariableMutability::new_from_ref_mut(false, true), VariableMutability::Mutable);
    assert_eq!(VariableMutability::new_from_ref_mut(false, false), VariableMutability::Immutable);
}

#[test]
fn only_mut_and_ref_mut_are_mutable() {
    assert!(VariableMutability::Mutable.is_mutable());
    assert!(VariableMutability::RefMutable.is_mutable());
    assert!(!VariableMutability::Immutable.is_mutable());
    assert!(!VariableMutability::ExportedConst.is_mutable());
    assert!(!VariableMutability::Mutable.is_immutable());
    assert!(!VariableMutability::RefMutable.is_immutable());
    assert!(VariableMutability::Immutable.is_immutable());
    assert!(VariableMutability::ExportedConst.is_immutable());
}
