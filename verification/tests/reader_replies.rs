use ambient_context::reader::{
    first_helper_candidate, helper_from_which, next_helper_candidate, permission_from_code,
    permission_status, request_permission, sibling_helper_path, HelperCandidate, Permission,
};

#[test]
fn permission_codes() {
    assert_eq!(permission_from_code(1), Permission::Granted);
    assert_eq!(permission_from_code(0), Permission::NotGranted);
    assert_eq!(permission_from_code(-1), Permission::NotGranted);
    assert_eq!(permission_from_code(2), Permission::NotGranted);
}

#[test]
fn permission_from_helper_reply() {
    assert_eq!(permission_status(Ok("1".to_string())), Permission::Granted);
    assert_eq!(permission_status(Ok("+1".to_string())), Permission::Granted);
    assert_eq!(permission_status(Ok("0".to_string())), Permission::NotGranted);
    assert_eq!(permission_status(Ok("yes".to_string())), Permission::NotGranted);
    assert_eq!(
        permission_status(Err("helper not found".to_string())),
        Permission::NotGranted
    );
    assert_eq!(request_permission(Ok("1".to_string())), Permission::Granted);
    assert_eq!(request_permission(Err(String::new())), Permission::NotGranted);
}

#[test]
fn helper_lookup_results() {
    assert_eq!(
        helper_from_which(true, "/usr/local/bin/ambient-context-ax\n"),
        Some("/usr/local/bin/ambient-context-ax".to_string())
    );
    assert_eq!(helper_from_which(true, "  \n"), None);
    assert_eq!(helper_from_which(false, "/usr/bin/x"), None);
    assert_eq!(
        sibling_helper_path("/opt/bin"),
        "/opt/bin/ambient-context-ax"
    );
}

#[test]
fn helper_search_order() {
    assert_eq!(first_helper_candidate(true), HelperCandidate::Configured);
    assert_eq!(first_helper_candidate(false), HelperCandidate::BesideExecutable);
    assert_eq!(
        next_helper_candidate(HelperCandidate::Configured),
        Some(HelperCandidate::BesideExecutable)
    );
    assert_eq!(
        next_helper_candidate(HelperCandidate::BesideExecutable),
        Some(HelperCandidate::OnPath)
    );
    assert_eq!(next_helper_candidate(HelperCandidate::OnPath), None);
}
