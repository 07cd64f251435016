use sipster::net::preferred_address;

#[test]
fn ipv4_is_preferred_and_the_first_wins_otherwise() {
    assert_eq!(preferred_address(&[false, true, true]), Some(1));
    assert_eq!(preferred_address(&[false, false]), Some(0));
    assert_eq!(preferred_address(&[]), None);
}
