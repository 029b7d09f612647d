use rspack_resolver::package_json::ModuleType;

#[test]
fn module_types_read_from_the_type_field() {
    assert_eq!(ModuleType::from(Some("module")), ModuleType::Module);
    assert_eq!(ModuleType::from(Some("commonjs")), ModuleType::CommonJs);
    assert_eq!(ModuleType::from(Some("other")), ModuleType::CommonJs);
    assert_eq!(ModuleType::from(None), ModuleType::CommonJs);
    assert_eq!(ModuleType::default(), ModuleType::CommonJs);
}

#[test]
fn module_types_parse_strictly_and_round_trip() {
    assert_eq!(ModuleType::try_from("module"), Ok(ModuleType::Module));
    assert_eq!(ModuleType::try_from("commonjs"), Ok(ModuleType::CommonJs));
    assert_eq!(ModuleType::try_from("esm"), Err("Invalid module type"));
    for m in [ModuleType::Module, ModuleType::CommonJs] {
        assert_eq!(ModuleType::try_from(m.as_str()), Ok(m));
        assert_eq!(m.to_string(), m.as_str());
    }
}
