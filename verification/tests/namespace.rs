use lam::bridge::{capabilities, namespace_name, version, Capability};
use lam::{evaluate, EvaluationBuilder};

#[test]
fn capability_names() {
    assert_eq!("_VERSION", Capability::Version.name());
    assert_eq!("read", Capability::Read.name());
    assert_eq!("read_codepoint_unit", Capability::ReadUnits.name());
    assert_eq!("get", Capability::Fetch.name());
    assert_eq!("set", Capability::Store.name());
}

#[test]
fn only_the_unit_read_has_a_second_name() {
    assert_eq!(Some("read_unicode"), Capability::ReadUnits.other_name());
    assert_eq!(None, Capability::Version.other_name());
    assert_eq!(None, Capability::Read.other_name());
    assert_eq!(None, Capability::Fetch.other_name());
    assert_eq!(None, Capability::Store.other_name());
}

#[test]
fn namespace_has_one_entry_for_each_name() {
    let mut names: Vec<String> = Vec::new();
    for capability in capabilities() {
        names.push(capability.name().to_string());
        if let Some(other) = capability.other_name() {
            names.push(other.to_string());
        }
    }
    names.sort();
    let script = "local m = require('@lam'); local names = {} \
        for k in pairs(m) do table.insert(names, k) end \
        table.sort(names) return table.concat(names, ',')";
    let mut e = EvaluationBuilder::new(Vec::new(), script).build();
    assert_eq!(names.join(","), evaluate(&mut e).unwrap().result);
}

#[test]
fn namespace_is_found_under_the_import_name_only() {
    assert_eq!("@lam", namespace_name());
    let mut e = EvaluationBuilder::new(Vec::new(), "return type(require('@lam'))").build();
    assert_eq!("table", evaluate(&mut e).unwrap().result);
    let mut e = EvaluationBuilder::new(Vec::new(), "return type(read) .. type(get)").build();
    assert_eq!("nilnil", evaluate(&mut e).unwrap().result);
}

#[test]
fn version_entry() {
    assert_eq!("0.1.0", version());
    let mut e = EvaluationBuilder::new(Vec::new(), "return require('@lam')._VERSION").build();
    assert_eq!(version(), evaluate(&mut e).unwrap().result);
}
