use ledger::{kind_of_name, TxKind};

#[test]
fn known_type_strings_map_to_their_kinds() {
    assert_eq!(kind_of_name(&"deposit".to_owned()), TxKind::Deposit);
    assert_eq!(kind_of_name(&"withdrawal".to_owned()), TxKind::Withdrawal);
    assert_eq!(kind_of_name(&"dispute".to_owned()), TxKind::Dispute);
    assert_eq!(kind_of_name(&"resolve".to_owned()), TxKind::Resolve);
    assert_eq!(kind_of_name(&"chargeback".to_owned()), TxKind::Chargeback);
}

#[test]
fn unknown_or_miscased_type_strings_are_unrecognized() {
    assert_eq!(kind_of_name(&"Deposit".to_owned()), TxKind::Unrecognized);
    assert_eq!(kind_of_name(&"deposit ".to_owned()), TxKind::Unrecognized);
    assert_eq!(kind_of_name(&"transfer".to_owned()), TxKind::Unrecognized);
    assert_eq!(kind_of_name(&"".to_owned()), TxKind::Unrecognized);
}
