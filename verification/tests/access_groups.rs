use torc::access_groups::{
    default_role, error_response_message, new_group, new_membership, new_workflow_association,
    AccessGroupRoute,
};

#[test]
fn memberships_default_to_member() {
    assert_eq!(default_role(), "member");
}

#[test]
fn new_records_have_no_id_yet() {
    let g = new_group("analysts", Some("the data team"));
    assert_eq!(g.id, None);
    assert_eq!(g.name, "analysts");
    assert_eq!(g.description.as_deref(), Some("the data team"));
    assert_eq!(g.created_at, None);
    let g = new_group("ops", None);
    assert_eq!(g.description, None);

    let m = new_membership("alice", 4, "admin");
    assert_eq!(m.id, None);
    assert_eq!(m.user_name, "alice");
    assert_eq!(m.group_id, 4);
    assert_eq!(m.role, "admin");

    let a = new_workflow_association(12, 4);
    assert_eq!((a.workflow_id, a.group_id, a.created_at), (12, 4, None));
}

#[test]
fn error_answers_have_messages() {
    assert_eq!(error_response_message(404, "404 Not Found", "no group 9"), "Not found: no group 9");
    assert_eq!(error_response_message(409, "409 Conflict", "exists"), "Conflict: exists");
    assert_eq!(
        error_response_message(401, "401 Unauthorized", "x"),
        "Unauthorized: Please check your credentials"
    );
    assert_eq!(error_response_message(403, "403 Forbidden", "x"), "Forbidden: Access denied");
    assert_eq!(
        error_response_message(500, "500 Internal Server Error", "db down"),
        "Error (500 Internal Server Error): db down"
    );
}

#[test]
fn routes_have_paths() {
    assert_eq!(AccessGroupRoute::Groups.path(), "/access_groups");
    assert_eq!(AccessGroupRoute::Group { id: 3 }.path(), "/access_groups/3");
    assert_eq!(
        AccessGroupRoute::GroupPage { offset: 0, limit: 100 }.path(),
        "/access_groups?offset=0&limit=100"
    );
    assert_eq!(AccessGroupRoute::Members { group_id: 3 }.path(), "/access_groups/3/members");
    assert_eq!(
        AccessGroupRoute::Member { group_id: 3, user_name: "bob".to_string() }.path(),
        "/access_groups/3/members/bob"
    );
    assert_eq!(
        AccessGroupRoute::MemberPage { group_id: 3, offset: 20, limit: 10 }.path(),
        "/access_groups/3/members?offset=20&limit=10"
    );
    assert_eq!(
        AccessGroupRoute::UserGroupPage { user_name: "bob".to_string(), offset: 0, limit: 5 }.path(),
        "/users/bob/groups?offset=0&limit=5"
    );
    assert_eq!(
        AccessGroupRoute::WorkflowGroup { workflow_id: 8, group_id: 3 }.path(),
        "/workflows/8/access_groups/3"
    );
    assert_eq!(AccessGroupRoute::WorkflowGroups { workflow_id: 8 }.path(), "/workflows/8/access_groups");
    assert_eq!(AccessGroupRoute::Group { id: -1 }.path(), "/access_groups/-1");
}
