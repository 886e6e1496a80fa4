//! Projects and their members, as far as the library decides about them.

use vstd::prelude::*;
use crate::error::{AppError, ErrorCode};
use crate::time::Timestamp;
use crate::text::{chars_of, is_lower_hex, is_lower_hex_char, text_view};

verus! {

/// A request to create a project.
#[derive(Debug)]
pub struct ProjectCreateRequest {
    pub name: String,
    pub description: Option<String>,
}

/// A request to change a project; what it does not name stays.
#[derive(Debug)]
pub struct ProjectUpdateRequest {
    pub name: Option<String>,
    pub description: Option<String>,
}

/// A request to make a user a member of a project.
#[derive(Debug)]
pub struct ProjectInviteRequest {
    pub user_id: i32,
    pub role: String,
}

/// What a member may do in a project.
#[derive(Debug, Clone, Copy, PartialEq, Eq, Structural)]
pub enum Role {
    Owner,
    Admin,
    Member,
    Viewer,
}

/// A project as it is stored.
pub struct ProjectRow {
    pub id: i32,
    pub name: String,
    pub description: Option<String>,
    pub api_key: String,
    pub created_at: Timestamp,
    pub updated_at: Option<Timestamp>,
    pub deleted_at: Option<Timestamp>,
    pub deleted_by: Option<i64>,
}

/// The mathematical content of a `ProjectRow`.
pub struct ProjectRowView {
    pub id: i32,
    pub name: Seq<char>,
    pub description: Option<Seq<char>>,
    pub api_key: Seq<char>,
    pub created_at: Timestamp,
    pub updated_at: Option<Timestamp>,
    pub deleted_at: Option<Timestamp>,
    pub deleted_by: Option<i64>,
}

impl View for ProjectRow {
    type V = ProjectRowView;

    open spec fn view(&self) -> ProjectRowView {
        ProjectRowView {
            id: self.id,
            name: self.name@,
            description: text_view(self.description),
            api_key: self.api_key@,
            created_at: self.created_at,
            updated_at: self.updated_at,
            deleted_at: self.deleted_at,
            deleted_by: self.deleted_by,
        }
    }
}

/// A text without its hyphens.
pub open spec fn without_hyphens(s: Seq<char>) -> Seq<char>
    decreases s.len(),
{
    if s.len() == 0 {
        Seq::empty()
    } else if s.last() == '-' {
        without_hyphens(s.drop_last())
    } else {
        without_hyphens(s.drop_last()).push(s.last())
    }
}

/// The key of a project that is made from the text of a UUID: `proj_` and the text
/// without its hyphens.
pub open spec fn api_key_of(uuid_text: Seq<char>) -> Seq<char> {
    "proj_"@ + without_hyphens(uuid_text)
}

/// Whether a text has the shape of a UUID in its hyphenated form: 36 characters, of
/// which those at 8, 13, 18 and 23 are hyphens and the others lower-case hex digits.
pub open spec fn is_uuid_text(text: Seq<char>) -> bool {
    &&& text.len() == 36
    &&& forall|i: int|
        0 <= i < 36 ==> if i == 8 || i == 13 || i == 18 || i == 23 {
            #[trigger] text[i] == '-'
        } else {
            is_lower_hex_char(text[i])
        }
}

/// The 32 hex digits of a UUID text, without the hyphens between its groups.
pub open spec fn uuid_digits(text: Seq<char>) -> Seq<char> {
    text.subrange(0, 8) + text.subrange(9, 13) + text.subrange(14, 18) + text.subrange(19, 23)
        + text.subrange(24, 36)
}

/// Taking the hyphens out of two texts in a row is taking them out of each.
pub proof fn without_hyphens_of_two(a: Seq<char>, b: Seq<char>)
    ensures
        without_hyphens(a + b) == without_hyphens(a) + without_hyphens(b),
    decreases b.len(),
{
    if b.len() == 0 {
        assert(a + b =~= a);
        assert(without_hyphens(a) + without_hyphens(b) =~= without_hyphens(a));
    } else {
        let whole = a + b;
        assert(whole.drop_last() =~= a + b.drop_last());
        assert(whole.last() == b.last());
        without_hyphens_of_two(a, b.drop_last());
        assert(without_hyphens(whole) =~= without_hyphens(a) + without_hyphens(b));
    }
}

/// A text of hex digits holds no hyphen to take out.
pub proof fn hex_digits_hold_no_hyphen(s: Seq<char>)
    requires
        is_lower_hex(s),
    ensures
        without_hyphens(s) == s,
    decreases s.len(),
{
    if s.len() > 0 {
        let rest = s.drop_last();
        assert forall|i: int| 0 <= i < rest.len() implies is_lower_hex_char(#[trigger] rest[i]) by {
            assert(rest[i] == s[i]);
        }
        hex_digits_hold_no_hyphen(rest);
        assert(is_lower_hex_char(s[s.len() - 1]));
        assert(without_hyphens(s) =~= s);
    } else {
        assert(without_hyphens(s) =~= s);
    }
}

/// The key that is made from a UUID text is `proj_` and the 32 hex digits of the UUID.
pub proof fn uuid_key_is_its_digits(text: Seq<char>)
    requires
        is_uuid_text(text),
    ensures
        api_key_of(text) == "proj_"@ + uuid_digits(text),
        uuid_digits(text).len() == 32,
        is_lower_hex(uuid_digits(text)),
{
    let hyphen = seq!['-'];
    let g1 = text.subrange(0, 8);
    let g2 = text.subrange(9, 13);
    let g3 = text.subrange(14, 18);
    let g4 = text.subrange(19, 23);
    let g5 = text.subrange(24, 36);
    assert(text[8] == '-' && text[13] == '-' && text[18] == '-' && text[23] == '-');
    assert(text =~= g1 + hyphen + g2 + hyphen + g3 + hyphen + g4 + hyphen + g5);
    assert(is_lower_hex(g1)) by {
        assert forall|i: int| 0 <= i < g1.len() implies is_lower_hex_char(#[trigger] g1[i]) by {
            assert(g1[i] == text[i]);
        }
    }
    assert(is_lower_hex(g2)) by {
        assert forall|i: int| 0 <= i < g2.len() implies is_lower_hex_char(#[trigger] g2[i]) by {
            assert(g2[i] == text[i + 9]);
        }
    }
    assert(is_lower_hex(g3)) by {
        assert forall|i: int| 0 <= i < g3.len() implies is_lower_hex_char(#[trigger] g3[i]) by {
            assert(g3[i] == text[i + 14]);
        }
    }
    assert(is_lower_hex(g4)) by {
        assert forall|i: int| 0 <= i < g4.len() implies is_lower_hex_char(#[trigger] g4[i]) by {
            assert(g4[i] == text[i + 19]);
        }
    }
    assert(is_lower_hex(g5)) by {
        assert forall|i: int| 0 <= i < g5.len() implies is_lower_hex_char(#[trigger] g5[i]) by {
            assert(g5[i] == text[i + 24]);
        }
    }
    hex_digits_hold_no_hyphen(g1);
    hex_digits_hold_no_hyphen(g2);
    hex_digits_hold_no_hyphen(g3);
    hex_digits_hold_no_hyphen(g4);
    hex_digits_hold_no_hyphen(g5);
    assert(without_hyphens(hyphen) =~= Seq::<char>::empty()) by {
        let none = Seq::<char>::empty();
        assert(hyphen.len() == 1 && hyphen.last() == '-');
        assert(hyphen.drop_last() =~= none);
        assert(without_hyphens(none) =~= none);
        assert(without_hyphens(hyphen) == without_hyphens(hyphen.drop_last()));
    }
    without_hyphens_of_two(g1 + hyphen + g2 + hyphen + g3 + hyphen + g4 + hyphen, g5);
    without_hyphens_of_two(g1 + hyphen + g2 + hyphen + g3 + hyphen + g4, hyphen);
    without_hyphens_of_two(g1 + hyphen + g2 + hyphen + g3 + hyphen, g4);
    without_hyphens_of_two(g1 + hyphen + g2 + hyphen + g3, hyphen);
    without_hyphens_of_two(g1 + hyphen + g2 + hyphen, g3);
    without_hyphens_of_two(g1 + hyphen + g2, hyphen);
    without_hyphens_of_two(g1 + hyphen, g2);
    without_hyphens_of_two(g1, hyphen);
    assert(without_hyphens(text) =~= uuid_digits(text));
    assert forall|i: int| 0 <= i < uuid_digits(text).len() implies is_lower_hex_char(
        #[trigger] uuid_digits(text)[i],
    ) by {
        let d = uuid_digits(text);
        if i < 8 {
            assert(d[i] == g1[i]);
        } else if i < 12 {
            assert(d[i] == g2[i - 8]);
        } else if i < 16 {
            assert(d[i] == g3[i - 12]);
        } else if i < 20 {
            assert(d[i] == g4[i - 16]);
        } else {
            assert(d[i] == g5[i - 20]);
        }
    }
}

/// The text of a fresh random UUID: `uuid::Uuid::new_v4` rendered by `to_string`, which
/// writes the hyphenated form in lower case. Which UUID it is, is open.
#[verifier::external_body]
fn new_uuid_text() -> (text: String)
    ensures
        is_uuid_text(text@),
{
    uuid::Uuid::new_v4().to_string()
}

/// The key of a project that is made from the text of a UUID.
pub fn api_key_from_uuid(uuid_text: &str) -> (key: String)
    ensures
        key@ == api_key_of(uuid_text@),
{
    let chars = chars_of(uuid_text);
    let mut key = "proj_".to_owned();
    let mut i: usize = 0;
    while i < chars.len()
        invariant
            i <= chars.len(),
            key@ == "proj_"@ + without_hyphens(chars@.take(i as int)),
        decreases chars.len() - i,
    {
        proof {
            let next = chars@.take(i + 1);
            assert(next.drop_last() =~= chars@.take(i as int));
            assert(next.last() == chars@[i as int]);
        }
        if chars[i] != '-' {
            key.push(chars[i]);
            proof {
                assert(key@ =~= "proj_"@ + without_hyphens(chars@.take(i + 1)));
            }
        }
        i += 1;
    }
    proof {
        assert(chars@.take(chars@.len() as int) =~= chars@);
    }
    key
}

/// A fresh key for a project: `proj_` and the 32 hex digits of a random UUID.
pub fn generate_api_key() -> (key: String)
    ensures
        exists|uuid_text: Seq<char>|
            is_uuid_text(uuid_text) && key@ == #[trigger] api_key_of(uuid_text) && key@ == "proj_"@
                + uuid_digits(uuid_text),
        key@.len() == 37,
        key@.subrange(0, 5) == "proj_"@,
        is_lower_hex(key@.subrange(5, 37)),
{
    let text = new_uuid_text();
    let key = api_key_from_uuid(text.as_str());
    proof {
        uuid_key_is_its_digits(text@);
        reveal_strlit("proj_");
        assert(key@.subrange(0, 5) =~= "proj_"@);
        assert(key@.subrange(5, 37) =~= uuid_digits(text@));
    }
    key
}

impl ProjectRow {
    /// The project that `request` creates, under the identifier `id` and the key
    /// `api_key`, at `now`.
    pub fn from_request(request: ProjectCreateRequest, id: i32, api_key: String, now: Timestamp) -> (row:
        Self)
        ensures
            row@ == (ProjectRowView {
                id,
                name: request.name@,
                description: text_view(request.description),
                api_key: api_key@,
                created_at: now,
                updated_at: None,
                deleted_at: None,
                deleted_by: None,
            }),
    {
        ProjectRow {
            id,
            name: request.name,
            description: request.description,
            api_key,
            created_at: now,
            updated_at: None,
            deleted_at: None,
            deleted_by: None,
        }
    }

    /// Changes the project as `request` asks, at `now`: the name and the description
    /// that it names replace the old ones.
    pub fn apply_update(&mut self, request: &ProjectUpdateRequest, now: Timestamp)
        ensures
            final(self)@ == (ProjectRowView {
                name: match request.name {
                    Some(name) => name@,
                    None => old(self).name@,
                },
                description: match request.description {
                    Some(text) => Some(text@),
                    None => text_view(old(self).description),
                },
                updated_at: Some(now),
                ..old(self)@
            }),
    {
        if let Some(name) = &request.name {
            self.name = name.clone();
        }
        if let Some(text) = &request.description {
            self.description = Some(text.clone());
        }
        self.updated_at = Some(now);
    }

    /// Whether the project is marked as deleted.
    pub fn is_deleted(&self) -> (b: bool)
        ensures
            b == (self.deleted_at is Some),
    {
        self.deleted_at.is_some()
    }

    /// Marks the project as deleted by `deleted_by` at `now`.
    pub fn soft_delete(&mut self, deleted_by: i64, now: Timestamp)
        ensures
            final(self)@ == (ProjectRowView {
                deleted_at: Some(now),
                deleted_by: Some(deleted_by),
                ..old(self)@
            }),
    {
        self.deleted_at = Some(now);
        self.deleted_by = Some(deleted_by);
    }

    /// Takes the mark of deletion from the project.
    pub fn restore(&mut self)
        ensures
            final(self)@ == (ProjectRowView { deleted_at: None, deleted_by: None, ..old(self)@ }),
    {
        self.deleted_at = None;
        self.deleted_by = None;
    }
}

/// The position of the first project of a list that is not marked as deleted.
pub open spec fn first_live(projects: Seq<ProjectRow>) -> Option<int>
    decreases projects.len(),
{
    if projects.len() == 0 {
        None
    } else if projects[0].deleted_at is None {
        Some(0)
    } else {
        match first_live(projects.drop_first()) {
            Some(i) => Some(i + 1),
            None => None,
        }
    }
}

/// The first project of a list that is not marked as deleted.
pub fn first_live_project(projects: &Vec<ProjectRow>) -> (r: Option<usize>)
    ensures
        match r {
            Some(i) => first_live(projects@) == Some(i as int) && i < projects@.len(),
            None => first_live(projects@) is None,
        },
{
    let mut i: usize = 0;
    proof {
        assert(projects@.skip(0) =~= projects@);
    }
    while i < projects.len()
        invariant
            i <= projects.len(),
            first_live(projects@) == match first_live(projects@.skip(i as int)) {
                Some(k) => Some(k + i),
                None => None,
            },
        decreases projects.len() - i,
    {
        proof {
            let rest = projects@.skip(i as int);
            assert(rest[0] == projects@[i as int]);
            assert(rest.drop_first() =~= projects@.skip(i + 1));
        }
        if !projects[i].is_deleted() {
            return Some(i);
        }
        i += 1;
    }
    None
}

/// The membership of a user in a project.
#[derive(Debug, Clone, Copy, PartialEq, Eq, Structural)]
pub struct ProjectMember {
    pub user_id: i32,
    pub project_id: i32,
    pub role: Role,
    pub joined_at: Timestamp,
}

/// Whether `user_id` is a member of `project_id` among `members`.
pub open spec fn is_member(members: Seq<ProjectMember>, project_id: i32, user_id: i32) -> bool {
    exists|i: int|
        0 <= i < members.len() && (#[trigger] members[i]).project_id == project_id
            && members[i].user_id == user_id
}

/// Whether `user_id` is an owner of `project_id` among `members`.
pub open spec fn is_owner(members: Seq<ProjectMember>, project_id: i32, user_id: i32) -> bool {
    exists|i: int|
        0 <= i < members.len() && (#[trigger] members[i]).project_id == project_id
            && members[i].user_id == user_id && members[i].role == Role::Owner
}

/// Lets a member of the project pass; anyone else lacks the permission.
pub fn check_project_member(members: &Vec<ProjectMember>, project_id: i32, user_id: i32) -> (r:
    Result<(), AppError>)
    ensures
        r == if is_member(members@, project_id, user_id) {
            Ok::<(), AppError>(())
        } else {
            Err(AppError::Forbidden(ErrorCode::NotEnoughPermission))
        },
{
    let mut i: usize = 0;
    while i < members.len()
        invariant
            i <= members.len(),
            forall|j: int|
                0 <= j < i ==> !((#[trigger] members@[j]).project_id == project_id
                    && members@[j].user_id == user_id),
        decreases members.len() - i,
    {
        if members[i].project_id == project_id && members[i].user_id == user_id {
            return Ok(());
        }
        i += 1;
    }
    Err(AppError::Forbidden(ErrorCode::NotEnoughPermission))
}

/// Lets an owner of the project pass; anyone else lacks the permission.
pub fn check_project_owner(members: &Vec<ProjectMember>, project_id: i32, user_id: i32) -> (r:
    Result<(), AppError>)
    ensures
        r == if is_owner(members@, project_id, user_id) {
            Ok::<(), AppError>(())
        } else {
            Err(AppError::Forbidden(ErrorCode::NotEnoughPermission))
        },
{
    let mut i: usize = 0;
    while i < members.len()
        invariant
            i <= members.len(),
            forall|j: int|
                0 <= j < i ==> !((#[trigger] members@[j]).project_id == project_id
                    && members@[j].user_id == user_id && members@[j].role == Role::Owner),
        decreases members.len() - i,
    {
        let member = &members[i];
        if member.project_id == project_id && member.user_id == user_id && matches!(
            member.role,
            Role::Owner
        ) {
            return Ok(());
        }
        i += 1;
    }
    Err(AppError::Forbidden(ErrorCode::NotEnoughPermission))
}

/// Lets events of the project be given to nobody or to a member of the project; anyone
/// else is an invalid assignee.
pub fn check_assignee(members: &Vec<ProjectMember>, project_id: i32, assigned_to: Option<i32>) -> (r:
    Result<(), AppError>)
    ensures
        r == match assigned_to {
            Some(user_id) => if is_member(members@, project_id, user_id) {
                Ok::<(), AppError>(())
            } else {
                Err(AppError::BadRequest(ErrorCode::InvalidAssignee))
            },
            None => Ok(()),
        },
{
    match assigned_to {
        Some(user_id) => match check_project_member(members, project_id, user_id) {
            Ok(()) => Ok(()),
            Err(_) => Err(AppError::BadRequest(ErrorCode::InvalidAssignee)),
        },
        None => Ok(()),
    }
}

} // verus!
