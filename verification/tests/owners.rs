use pyqir::owner::{check_link, is_all_same, require_same, ContextError, LinkError, Owner, OwnerError};

#[test]
fn one_owner_merges_to_itself() {
    assert_eq!(Owner::merge(&vec![Owner::Context(1)]), Ok(Owner::Context(1)));
    let m = Owner::Module { module: 7, context: 1 };
    assert_eq!(Owner::merge(&vec![m]), Ok(m));
}

#[test]
fn contexts_merge_when_equal() {
    assert_eq!(
        Owner::merge(&vec![Owner::Context(1), Owner::Context(1), Owner::Context(1)]),
        Ok(Owner::Context(1))
    );
    assert_eq!(
        Owner::merge(&vec![Owner::Context(1), Owner::Context(2)]),
        Err(OwnerError::Mismatch)
    );
}

#[test]
fn a_module_wins_over_its_context() {
    let m = Owner::Module { module: 7, context: 1 };
    assert_eq!(Owner::merge(&vec![Owner::Context(1), m, Owner::Context(1)]), Ok(m));
    assert_eq!(Owner::merge(&vec![m, Owner::Context(1)]), Ok(m));
    assert_eq!(Owner::merge(&vec![m, Owner::Context(2)]), Err(OwnerError::Mismatch));
}

#[test]
fn two_modules_do_not_merge() {
    let m1 = Owner::Module { module: 7, context: 1 };
    let m2 = Owner::Module { module: 8, context: 1 };
    assert_eq!(Owner::merge(&vec![m1, m1]), Ok(m1));
    assert_eq!(Owner::merge(&vec![m1, m2]), Err(OwnerError::Mismatch));
    assert_eq!(
        OwnerError::Mismatch.message(),
        "Some values are from different contexts or modules."
    );
}

#[test]
fn the_context_of_an_owner() {
    assert_eq!(Owner::Context(3).context(), 3);
    assert_eq!(Owner::Module { module: 9, context: 4 }.context(), 4);
}

#[test]
fn all_same_compares_neighbours() {
    assert!(is_all_same(&vec![]));
    assert!(is_all_same(&vec![5]));
    assert!(is_all_same(&vec![5, 5, 5]));
    assert!(!is_all_same(&vec![5, 5, 6]));
    assert_eq!(require_same(&vec![2, 2]), Ok(()));
    assert_eq!(require_same(&vec![2, 3]), Err(ContextError::Different));
}

#[test]
fn modules_link_within_one_context() {
    assert_eq!(check_link(3, 3), Ok(()));
    assert_eq!(check_link(3, 4), Err(LinkError::DifferentContexts));
    assert_eq!(
        LinkError::DifferentContexts.message(),
        "Cannot link modules from different contexts. Modules are untouched."
    );
}
