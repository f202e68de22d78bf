//! Access groups: the records the server keeps for team-based access
//! control, the routes under which it serves them, and the messages for the
//! errors it answers with.

use vstd::prelude::*;
use crate::text::{append_str, i64_to_string, decimal_int, opt_str_chars, opt_chars, string_from};

verus! {

/// An access group.
pub struct AccessGroupModel {
    pub id: Option<i64>,
    pub name: String,
    pub description: Option<String>,
    pub created_at: Option<String>,
}

/// A user's membership in an access group, with the user's role there.
pub struct UserGroupMembershipModel {
    pub id: Option<i64>,
    pub user_name: String,
    pub group_id: i64,
    pub role: String,
    pub created_at: Option<String>,
}

/// A grant of a group's access to a workflow.
pub struct WorkflowAccessGroupModel {
    pub workflow_id: i64,
    pub group_id: i64,
    pub created_at: Option<String>,
}

/// One page of access groups.
pub struct ListAccessGroupsResponse {
    pub items: Vec<AccessGroupModel>,
    pub offset: i64,
    pub limit: i64,
    pub total_count: i64,
    pub has_more: bool,
}

/// One page of group memberships.
pub struct ListUserGroupMembershipsResponse {
    pub items: Vec<UserGroupMembershipModel>,
    pub offset: i64,
    pub limit: i64,
    pub total_count: i64,
    pub has_more: bool,
}

/// The role a membership has when none is given: `member`.
pub fn default_role() -> (r: String)
    ensures
        r@ == "member"@,
{
    string_from("member")
}

/// The group that a create request sends: no id and no creation time yet.
pub fn new_group(name: &str, description: Option<&str>) -> (g: AccessGroupModel)
    ensures
        g.id is None,
        g.name@ == name@,
        opt_chars(g.description) == opt_str_chars(description),
        g.created_at is None,
{
    let description = match description {
        Some(d) => Some(string_from(d)),
        None => None,
    };
    AccessGroupModel { id: None, name: string_from(name), description, created_at: None }
}

/// The membership that an add-user request sends.
pub fn new_membership(user_name: &str, group_id: i64, role: &str) -> (m: UserGroupMembershipModel)
    ensures
        m.id is None,
        m.user_name@ == user_name@,
        m.group_id == group_id,
        m.role@ == role@,
        m.created_at is None,
{
    UserGroupMembershipModel {
        id: None,
        user_name: string_from(user_name),
        group_id,
        role: string_from(role),
        created_at: None,
    }
}

/// The association that an add-workflow request sends.
pub fn new_workflow_association(workflow_id: i64, group_id: i64) -> (a: WorkflowAccessGroupModel)
    ensures
        a.workflow_id == workflow_id,
        a.group_id == group_id,
        a.created_at is None,
{
    WorkflowAccessGroupModel { workflow_id, group_id, created_at: None }
}

/// The message for an error answer with HTTP status `status`; `status_text` is
/// the status as the HTTP client prints it (code and reason) and `body` is the
/// answer's body.
pub open spec fn error_message_of(status: u16, status_text: Seq<char>, body: Seq<char>) -> Seq<char> {
    if status == 404 {
        "Not found: "@ + body
    } else if status == 409 {
        "Conflict: "@ + body
    } else if status == 401 {
        "Unauthorized: Please check your credentials"@
    } else if status == 403 {
        "Forbidden: Access denied"@
    } else {
        "Error ("@ + status_text + "): "@ + body
    }
}

/// The message shown for an error answer of the server.
pub fn error_response_message(status: u16, status_text: &str, body: &str) -> (r: String)
    ensures
        r@ == error_message_of(status, status_text@, body@),
{
    let mut s = String::new();
    if status == 404 {
        append_str(&mut s, "Not found: ");
        append_str(&mut s, body);
    } else if status == 409 {
        append_str(&mut s, "Conflict: ");
        append_str(&mut s, body);
    } else if status == 401 {
        append_str(&mut s, "Unauthorized: Please check your credentials");
    } else if status == 403 {
        append_str(&mut s, "Forbidden: Access denied");
    } else {
        append_str(&mut s, "Error (");
        append_str(&mut s, status_text);
        append_str(&mut s, "): ");
        append_str(&mut s, body);
    }
    s
}

/// A resource of the access-group part of the server's API.
pub enum AccessGroupRoute {
    /// All groups (where new groups are posted).
    Groups,
    /// One group.
    Group { id: i64 },
    /// A page of all groups.
    GroupPage { offset: i64, limit: i64 },
    /// The members of a group (where new members are posted).
    Members { group_id: i64 },
    /// One member of a group.
    Member { group_id: i64, user_name: String },
    /// A page of the members of a group.
    MemberPage { group_id: i64, offset: i64, limit: i64 },
    /// A page of the groups a user belongs to.
    UserGroupPage { user_name: String, offset: i64, limit: i64 },
    /// One group's access to a workflow.
    WorkflowGroup { workflow_id: i64, group_id: i64 },
    /// The groups that have access to a workflow.
    WorkflowGroups { workflow_id: i64 },
}

/// `?offset={offset}&limit={limit}`
pub open spec fn page_query(offset: i64, limit: i64) -> Seq<char> {
    "?offset="@ + decimal_int(offset as int) + "&limit="@ + decimal_int(limit as int)
}

/// The path of a route, relative to the server's base path.
pub open spec fn route_path(r: AccessGroupRoute) -> Seq<char> {
    match r {
        AccessGroupRoute::Groups => "/access_groups"@,
        AccessGroupRoute::Group { id } => "/access_groups/"@ + decimal_int(id as int),
        AccessGroupRoute::GroupPage { offset, limit } => "/access_groups"@ + page_query(offset, limit),
        AccessGroupRoute::Members { group_id } => "/access_groups/"@ + decimal_int(group_id as int)
            + "/members"@,
        AccessGroupRoute::Member { group_id, user_name } => "/access_groups/"@ + decimal_int(
            group_id as int,
        ) + "/members/"@ + user_name@,
        AccessGroupRoute::MemberPage { group_id, offset, limit } => "/access_groups/"@
            + decimal_int(group_id as int) + "/members"@ + page_query(offset, limit),
        AccessGroupRoute::UserGroupPage { user_name, offset, limit } => "/users/"@ + user_name@
            + "/groups"@ + page_query(offset, limit),
        AccessGroupRoute::WorkflowGroup { workflow_id, group_id } => "/workflows/"@ + decimal_int(
            workflow_id as int,
        ) + "/access_groups/"@ + decimal_int(group_id as int),
        AccessGroupRoute::WorkflowGroups { workflow_id } => "/workflows/"@ + decimal_int(
            workflow_id as int,
        ) + "/access_groups"@,
    }
}

fn append_i64(s: &mut String, n: i64)
    ensures
        final(s)@ == old(s)@ + decimal_int(n as int),
{
    let t = i64_to_string(n);
    append_str(s, t.as_str());
}

fn append_page_query(s: &mut String, offset: i64, limit: i64)
    ensures
        final(s)@ == old(s)@ + page_query(offset, limit),
{
    append_str(s, "?offset=");
    append_i64(s, offset);
    append_str(s, "&limit=");
    append_i64(s, limit);
}

impl AccessGroupRoute {
    /// The path of this route, relative to the server's base path.
    pub fn path(&self) -> (p: String)
        ensures
            p@ == route_path(*self),
    {
        let mut s = String::new();
        match self {
            AccessGroupRoute::Groups => {
                append_str(&mut s, "/access_groups");
            },
            AccessGroupRoute::Group { id } => {
                append_str(&mut s, "/access_groups/");
                append_i64(&mut s, *id);
            },
            AccessGroupRoute::GroupPage { offset, limit } => {
                append_str(&mut s, "/access_groups");
                append_page_query(&mut s, *offset, *limit);
            },
            AccessGroupRoute::Members { group_id } => {
                append_str(&mut s, "/access_groups/");
                append_i64(&mut s, *group_id);
                append_str(&mut s, "/members");
            },
            AccessGroupRoute::Member { group_id, user_name } => {
                append_str(&mut s, "/access_groups/");
                append_i64(&mut s, *group_id);
                append_str(&mut s, "/members/");
                append_str(&mut s, user_name.as_str());
            },
            AccessGroupRoute::MemberPage { group_id, offset, limit } => {
                append_str(&mut s, "/access_groups/");
                append_i64(&mut s, *group_id);
                append_str(&mut s, "/members");
                append_page_query(&mut s, *offset, *limit);
            },
            AccessGroupRoute::UserGroupPage { user_name, offset, limit } => {
                append_str(&mut s, "/users/");
                append_str(&mut s, user_name.as_str());
                append_str(&mut s, "/groups");
                append_page_query(&mut s, *offset, *limit);
            },
            AccessGroupRoute::WorkflowGroup { workflow_id, group_id } => {
                append_str(&mut s, "/workflows/");
                append_i64(&mut s, *workflow_id);
                append_str(&mut s, "/access_groups/");
                append_i64(&mut s, *group_id);
            },
            AccessGroupRoute::WorkflowGroups { workflow_id } => {
                append_str(&mut s, "/workflows/");
                append_i64(&mut s, *workflow_id);
                append_str(&mut s, "/access_groups");
            },
        }
        s
    }
}

} // verus!
