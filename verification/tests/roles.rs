use exonum_node::helpers::ValidatorId;
use exonum_node::node::NodeRole;

#[test]
fn role_of_validator() {
    let role = NodeRole::new(Some(ValidatorId(3)));
    assert!(role.is_validator());
    assert!(!role.is_auditor());
    assert_eq!(role, NodeRole::Validator(ValidatorId(3)));
}

#[test]
fn role_of_auditor() {
    let role = NodeRole::new(None);
    assert!(role.is_auditor());
    assert!(!role.is_validator());
    assert_eq!(NodeRole::default(), NodeRole::Auditor);
}
