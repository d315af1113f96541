use station_locator::roles::UserRole;

#[test]
fn role_names() {
    let roles = UserRole::new();
    assert_eq!(roles.admin, "admin");
    assert_eq!(roles.station, "station");
    assert_eq!(roles.user, "user");
}
