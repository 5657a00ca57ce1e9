use xvm::environment::{Environment, EnvironmentError, IdMapper};

#[test]
fn the_mapper_assigns_sequential_identifiers_once() {
    let mut mapper = IdMapper::new();
    assert_eq!(mapper.register(String::from("Point")).unwrap(), 0);
    assert_eq!(mapper.register(String::from("Line")).unwrap(), 1);
    assert!(matches!(
        mapper.register(String::from("Point")),
        Err(EnvironmentError::StructNameAlreadyUsed)
    ));
    assert_eq!(mapper.get(&String::from("Point")).unwrap(), 0);
    assert_eq!(mapper.get(&String::from("Line")).unwrap(), 1);
    assert!(matches!(
        mapper.get(&String::from("Circle")),
        Err(EnvironmentError::MappingNotFound)
    ));
    assert!(mapper.has_variable(&String::from("Line")));
    assert!(!mapper.has_variable(&String::from("Circle")));
}

#[test]
fn the_standard_natives_are_registered() {
    let mut env = Environment::new();
    xvm::xstd::register(&mut env);
    assert_eq!(env.get_functions().len(), 6);
    let names: Vec<&str> = env.get_functions().iter().map(|f| f.name.as_str()).collect();
    assert_eq!(names, vec!["is_none", "is_some", "unwrap", "unwrap_or", "len", "len"]);
    assert_eq!(env.get_structures().len(), 0);
}
