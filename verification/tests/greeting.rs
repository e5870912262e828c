use contracts::greeting::hello_world;

#[test]
fn hello_world_contract_scenario() {
    assert_eq!(hello_world(), "Hello, World!");
}
