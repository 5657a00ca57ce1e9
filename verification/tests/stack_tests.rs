use xvm::path::Path;
use xvm::stack::Stack;
use xvm::store::ValueStore;
use xvm::values::Value;

#[test]
fn test_variable_exists() {
    let mut stack = Stack::new();
    stack.begin_scope();
    stack.register_variable(0, Path::Owned(Value::U64(42))).unwrap();

    assert!(stack.has_variable(&0));
    assert!(!stack.has_variable(&1));

    stack.end_scope().unwrap();

    assert!(!stack.has_variable(&0));
}

#[test]
fn shadowing_finds_last_binding() {
    let mut stack = Stack::new();
    stack.begin_scope();
    stack.register_variable(7, Path::Owned(Value::U64(1))).unwrap();
    stack.begin_scope();
    stack.register_variable(7, Path::Owned(Value::U64(2))).unwrap();
    let store = ValueStore::new();
    match stack.get_variable(7).unwrap() {
        Path::Owned(Value::U64(n)) => assert_eq!(*n, 2),
        _ => panic!("expected the inner binding"),
    }
    stack.end_scope().unwrap();
    match stack.get_variable(7).unwrap() {
        Path::Owned(Value::U64(n)) => assert_eq!(*n, 1),
        _ => panic!("expected the outer binding"),
    }
    let _ = store;
}

#[test]
fn promoted_binding_aliases_the_store() {
    let mut stack = Stack::new();
    let mut store = ValueStore::new();
    stack.begin_scope();
    stack.register_variable(3, Path::Owned(Value::U64(5))).unwrap();
    // the first handle moves the value into a cell
    let first = stack.get_variable_path(&mut store, 3).unwrap();
    let second = stack.get_variable_path(&mut store, 3).unwrap();
    match (&first, &second) {
        (Path::Wrapper(c1, p1), Path::Wrapper(c2, p2)) => {
            assert_eq!(c1, c2);
            assert_eq!(p1.len(), 0);
            assert_eq!(p2.len(), 0);
        },
        _ => panic!("expected two wrapper handles"),
    }
    // a write through one handle is seen through the other
    let mut w = first;
    w.write(&mut store, Value::U64(11)).unwrap();
    match second.as_ref(&store).unwrap() {
        Value::U64(n) => assert_eq!(*n, 11),
        _ => panic!("expected the written number"),
    }
}

#[test]
fn missing_variable_is_reported() {
    let mut stack = Stack::new();
    stack.begin_scope();
    let mut store = ValueStore::new();
    assert!(stack.get_variable_path(&mut store, 9).is_err());
    assert!(stack.end_scope().is_ok());
    assert!(stack.end_scope().is_err());
}

#[test]
fn sub_element_writes_are_seen_through_a_rebinding() {
    let mut stack = Stack::new();
    let mut store = ValueStore::new();
    stack.begin_scope();
    let array = Value::Array(vec![Value::U64(1), Value::U64(2), Value::U64(3)]);
    stack.register_variable(0, Path::Owned(array)).unwrap();
    // bind a second name to the first variable's storage
    let alias = stack.get_variable_path(&mut store, 0).unwrap();
    stack.register_variable(1, alias).unwrap();
    // write through an element handle of the second name
    let b = stack.get_variable_path(&mut store, 1).unwrap();
    let mut place = b.get_sub_variable(0, &store).unwrap();
    place.write(&mut store, Value::U64(9)).unwrap();
    // read through the first name
    let a = stack.get_variable_path(&mut store, 0).unwrap();
    let elem = a.get_sub_variable(0, &store).unwrap();
    match elem.as_ref(&store).unwrap() {
        Value::U64(n) => assert_eq!(*n, 9),
        _ => panic!("expected the written element"),
    }
}
