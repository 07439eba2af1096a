//! Role-based access: what a user's role lets them do.

use crate::text::{cat3, join, joined, list_has, same, starts_with, views};
use vstd::prelude::*;

verus! {

/// A permission of a role: an action on a module.
#[derive(Debug)]
pub struct Permission {
    pub module_id: String,
    pub action: String,
}

/// An active user, their role and what the role may do.
#[derive(Debug)]
pub struct Access {
    pub user_id: String,
    pub role: String,
    /// The built-in Owner role of a business.
    pub is_system: bool,
    /// Roles that the Owner has given administrative rights.
    pub can_administer: bool,
    /// Roles that the Owner lets see reports.
    pub can_view_reports: bool,
    pub permissions: Vec<Permission>,
}

/// Why an action is refused.
#[derive(Debug)]
pub enum AccessError {
    /// There is no such active user.
    UnknownUser,
    /// The role has no such permission.
    Denied { user_id: String, action: String, module_id: String },
    /// Only the Owner may do this.
    NotOwner { role: String },
    /// Only some roles may do this.
    NotInRoles { allowed: String, role: String },
    /// Only the Owner and administrators may do this.
    NotAdmin { role: String },
}

/// Why an action is refused.
pub enum AccessErrorView {
    UnknownUser,
    Denied(Seq<char>, Seq<char>, Seq<char>),
    NotOwner(Seq<char>),
    NotInRoles(Seq<char>, Seq<char>),
    NotAdmin(Seq<char>),
}

impl View for AccessError {
    type V = AccessErrorView;

    open spec fn view(&self) -> AccessErrorView {
        match *self {
            AccessError::UnknownUser => AccessErrorView::UnknownUser,
            AccessError::Denied { user_id, action, module_id } => AccessErrorView::Denied(
                user_id@,
                action@,
                module_id@,
            ),
            AccessError::NotOwner { role } => AccessErrorView::NotOwner(role@),
            AccessError::NotInRoles { allowed, role } => AccessErrorView::NotInRoles(allowed@, role@),
            AccessError::NotAdmin { role } => AccessErrorView::NotAdmin(role@),
        }
    }
}

/// What a refusal by a missing permission begins with.
pub open spec fn denied_prefix() -> Seq<char> {
    "permission denied"@
}

impl AccessErrorView {
    /// The sentence for a refusal.
    pub open spec fn message(self) -> Seq<char> {
        match self {
            AccessErrorView::UnknownUser => "user not found or inactive"@,
            AccessErrorView::Denied(user, action, module) => denied_prefix() + ": user "@ + user + " cannot '"@ + action
                + "' on module '"@ + module + "'"@,
            AccessErrorView::NotOwner(role) => "this action is restricted to the business Owner (your role: "@ + role
                + ")"@,
            AccessErrorView::NotInRoles(allowed, role) => "this action requires one of these roles: "@ + allowed
                + " (your role: "@ + role + ")"@,
            AccessErrorView::NotAdmin(role) => "this action requires admin-tier access, which your role ('"@ + role
                + "') doesn't have"@,
        }
    }
}

impl AccessError {
    /// The sentence for a refusal.
    pub fn message(&self) -> (s: String)
        ensures
            s@ == self@.message(),
    {
        match self {
            AccessError::UnknownUser => "user not found or inactive".to_owned(),
            AccessError::Denied { user_id, action, module_id } => {
                let mut s = "permission denied".to_owned();
                s.append(": user ");
                s.append(user_id.as_str());
                s.append(" cannot '");
                s.append(action.as_str());
                s.append("' on module '");
                s.append(module_id.as_str());
                s.append("'");
                s
            },
            AccessError::NotOwner { role } => cat3(
                "this action is restricted to the business Owner (your role: ",
                role.as_str(),
                ")",
            ),
            AccessError::NotInRoles { allowed, role } => {
                let mut s = "this action requires one of these roles: ".to_owned();
                s.append(allowed.as_str());
                s.append(" (your role: ");
                s.append(role.as_str());
                s.append(")");
                s
            },
            AccessError::NotAdmin { role } => cat3(
                "this action requires admin-tier access, which your role ('",
                role.as_str(),
                "') doesn't have",
            ),
        }
    }
}

/// Whether some permission of the list is that action on that module.
pub open spec fn granted(permissions: Seq<Permission>, module_id: Seq<char>, action: Seq<char>) -> bool {
    exists|i: int|
        0 <= i < permissions.len() && (#[trigger] permissions[i]).module_id@ == module_id && permissions[i].action@
            == action
}

/// Whether the role may do the action on the module.
pub fn is_allowed(access: &Access, module_id: &str, action: &str) -> (b: bool)
    ensures
        b == granted(access.permissions@, module_id@, action@),
{
    let mut i: usize = 0;
    while i < access.permissions.len()
        invariant
            i <= access.permissions@.len(),
            forall|k: int|
                0 <= k < i ==> !((#[trigger] access.permissions@[k]).module_id@ == module_id@
                    && access.permissions@[k].action@ == action@),
        decreases access.permissions@.len() - i,
    {
        if same(access.permissions[i].module_id.as_str(), module_id) && same(
            access.permissions[i].action.as_str(),
            action,
        ) {
            return true;
        }
        i = i + 1;
    }
    false
}

/// Why a user may not do the action on the module; `None` where they may.
/// `access` is `None` where there is no such active user.
pub open spec fn refusal(access: Option<&Access>, module_id: Seq<char>, action: Seq<char>) -> Option<AccessErrorView> {
    match access {
        None => Some(AccessErrorView::UnknownUser),
        Some(a) => if granted(a.permissions@, module_id, action) {
            None
        } else {
            Some(AccessErrorView::Denied(a.user_id@, action, module_id))
        },
    }
}

/// Requires a permission of the user's role.
pub fn require(access: Option<&Access>, module_id: &str, action: &str) -> (r: Result<(), AccessError>)
    ensures
        match r {
            Ok(()) => refusal(access, module_id@, action@) is None,
            Err(e) => refusal(access, module_id@, action@) == Some(e@),
        },
{
    match access {
        None => Err(AccessError::UnknownUser),
        Some(a) => if is_allowed(a, module_id, action) {
            Ok(())
        } else {
            Err(
                AccessError::Denied {
                    user_id: a.user_id.clone(),
                    action: action.to_owned(),
                    module_id: module_id.to_owned(),
                },
            )
        },
    }
}

/// Why only the Owner may; `None` for the Owner.
pub open spec fn owner_refusal(access: Option<&Access>) -> Option<AccessErrorView> {
    match access {
        None => Some(AccessErrorView::UnknownUser),
        Some(a) => if a.role@ == "Owner"@ {
            None
        } else {
            Some(AccessErrorView::NotOwner(a.role@))
        },
    }
}

/// Why only administrators may; `None` for whoever is one.
pub open spec fn admin_refusal(access: Option<&Access>) -> Option<AccessErrorView> {
    match access {
        None => Some(AccessErrorView::UnknownUser),
        Some(a) => if a.is_system || a.can_administer {
            None
        } else {
            Some(AccessErrorView::NotAdmin(a.role@))
        },
    }
}

/// A permission lets its role do its own action on its own module, and nothing
/// else; a role may do all that any of its permissions lets it do. No permission
/// at all lets nobody do anything.
pub proof fn law_a_permission_is_for_its_action_on_its_module(
    p: Permission,
    before: Seq<Permission>,
    module_id: Seq<char>,
    action: Seq<char>,
)
    ensures
        granted(before.push(p), module_id, action) <==> granted(before, module_id, action) || (p.module_id@
            == module_id && p.action@ == action),
        !granted(Seq::empty(), module_id, action),
{
    let all = before.push(p);
    if p.module_id@ == module_id && p.action@ == action {
        assert(all[before.len() as int] == p);
    }
    if granted(before, module_id, action) {
        let i = choose|i: int|
            0 <= i < before.len() && (#[trigger] before[i]).module_id@ == module_id && before[i].action@ == action;
        assert(all[i] == before[i]);
    }
}

/// Who may do what: a user does what the role permits, whatever the role is
/// called; what is the Owner's alone only the Owner does; what takes
/// administrative rights the built-in role and roles with that right do; reports
/// the built-in role and roles with that right see. Who is not an active user
/// may do nothing.
pub proof fn law_who_may_do_what(access: &Access, module_id: Seq<char>, action: Seq<char>)
    ensures
        refusal(None, module_id, action) is Some && owner_refusal(None) is Some && admin_refusal(None) is Some,
        refusal(Some(access), module_id, action) is None <==> granted(access.permissions@, module_id, action),
        owner_refusal(Some(access)) is None <==> access.role@ == "Owner"@,
        admin_refusal(Some(access)) is Some <==> !access.is_system && !access.can_administer,
        !sees_reports(*access) <==> !access.is_system && !access.can_view_reports,
{
}

/// Requires the role to be exactly the Owner's.
pub fn require_owner(access: Option<&Access>) -> (r: Result<(), AccessError>)
    ensures
        r is Ok <==> owner_refusal(access) is None,
        r matches Err(e) ==> owner_refusal(access) == Some(e@),
        match r {
            Ok(()) => access is Some && access->0.role@ == "Owner"@,
            Err(e) => if access is None {
                e@ == AccessErrorView::UnknownUser
            } else {
                access->0.role@ != "Owner"@ && e@ == AccessErrorView::NotOwner(access->0.role@)
            },
        },
{
    match access {
        None => Err(AccessError::UnknownUser),
        Some(a) => if same(a.role.as_str(), "Owner") {
            Ok(())
        } else {
            Err(AccessError::NotOwner { role: a.role.clone() })
        },
    }
}

/// Requires the role to be one of `allowed`.
pub fn require_role(access: Option<&Access>, allowed: &Vec<String>) -> (r: Result<(), AccessError>)
    ensures
        match r {
            Ok(()) => access is Some && views(allowed@).contains(access->0.role@),
            Err(e) => if access is None {
                e@ == AccessErrorView::UnknownUser
            } else {
                &&& !views(allowed@).contains(access->0.role@)
                &&& e@ == AccessErrorView::NotInRoles(joined(views(allowed@), ", "@), access->0.role@)
            },
        },
{
    match access {
        None => Err(AccessError::UnknownUser),
        Some(a) => if list_has(allowed, a.role.as_str()) {
            Ok(())
        } else {
            Err(AccessError::NotInRoles { allowed: join(allowed, ", "), role: a.role.clone() })
        },
    }
}

/// Requires the built-in Owner role or a role that may administer, whatever
/// that role is called.
pub fn require_admin_tier(access: Option<&Access>) -> (r: Result<(), AccessError>)
    ensures
        r is Ok <==> admin_refusal(access) is None,
        r matches Err(e) ==> admin_refusal(access) == Some(e@),
        match r {
            Ok(()) => access is Some && (access->0.is_system || access->0.can_administer),
            Err(e) => if access is None {
                e@ == AccessErrorView::UnknownUser
            } else {
                &&& !access->0.is_system && !access->0.can_administer
                &&& e@ == AccessErrorView::NotAdmin(access->0.role@)
            },
        },
{
    match access {
        None => Err(AccessError::UnknownUser),
        Some(a) => if a.is_system || a.can_administer {
            Ok(())
        } else {
            Err(AccessError::NotAdmin { role: a.role.clone() })
        },
    }
}

/// Whether a user may see reports: the Owner may, and whoever has a role that
/// was given the right. It is a right of its own, apart from reading a module.
pub open spec fn sees_reports(access: Access) -> bool {
    access.is_system || access.can_view_reports
}

/// Whether a user may see reports.
pub fn may_see_reports(access: &Access) -> (b: bool)
    ensures
        b == sees_reports(*access),
{
    access.is_system || access.can_view_reports
}

/// Whether a role that a module seeds gets administrative rights.
pub fn seeded_role_administers(role: &str) -> (b: bool)
    ensures
        b == (role@ == "Manager"@),
{
    same(role, "Manager")
}

/// A role to be seeded: its name, whether it may administer, and what it may
/// do on the module.
#[derive(Debug)]
pub struct SeededRole {
    pub name: String,
    pub can_administer: bool,
    pub permissions: Vec<Permission>,
}

/// Whether the permissions are those actions on that module, in order.
pub open spec fn permits(permissions: Seq<Permission>, module_id: Seq<char>, actions: Seq<Seq<char>>) -> bool {
    &&& permissions.len() == actions.len()
    &&& forall|i: int|
        0 <= i < actions.len() ==> (#[trigger] permissions[i]).module_id@ == module_id && permissions[i].action@
            == actions[i]
}

/// A role that a module brings may do what the module lists for it on that module,
/// and nothing else.
pub proof fn law_seeded_roles_may_do_what_is_listed(
    permissions: Seq<Permission>,
    module_id: Seq<char>,
    actions: Seq<Seq<char>>,
    module: Seq<char>,
    action: Seq<char>,
)
    requires
        permits(permissions, module_id, actions),
    ensures
        granted(permissions, module, action) <==> module == module_id && actions.contains(action),
{
    if module == module_id && actions.contains(action) {
        let i = choose|i: int| 0 <= i < actions.len() && actions[i] == action;
        assert(permissions[i].action@ == action);
    }
}

fn permissions_for(module_id: &str, actions: &Vec<String>) -> (list: Vec<Permission>)
    ensures
        permits(list@, module_id@, views(actions@)),
{
    let mut list: Vec<Permission> = Vec::new();
    let mut i: usize = 0;
    while i < actions.len()
        invariant
            i <= actions@.len(),
            list@.len() == i,
            forall|k: int|
                0 <= k < i ==> (#[trigger] list@[k]).module_id@ == module_id@ && list@[k].action@ == actions@[k]@,
        decreases actions@.len() - i,
    {
        list.push(Permission { module_id: module_id.to_owned(), action: actions[i].clone() });
        i = i + 1;
    }
    list
}

/// The roles that a module brings when it is first enabled. What a business
/// already has of them stays as it is; only what is missing is added.
pub fn seed_default_roles(module: &crate::module::ModuleDef) -> (list: Vec<SeededRole>)
    ensures
        list@.len() == module.default_roles@.len(),
        forall|i: int|
            0 <= i < list@.len() ==> {
                &&& (#[trigger] list@[i]).name@ == module.default_roles@[i].role@
                &&& list@[i].can_administer == (list@[i].name@ == "Manager"@)
                &&& permits(list@[i].permissions@, module.id@, views(module.default_roles@[i].actions@))
            },
{
    let mut list: Vec<SeededRole> = Vec::new();
    let mut i: usize = 0;
    while i < module.default_roles.len()
        invariant
            i <= module.default_roles@.len(),
            list@.len() == i,
            forall|k: int|
                0 <= k < i ==> {
                    &&& (#[trigger] list@[k]).name@ == module.default_roles@[k].role@
                    &&& list@[k].can_administer == (list@[k].name@ == "Manager"@)
                    &&& permits(list@[k].permissions@, module.id@, views(module.default_roles@[k].actions@))
                },
        decreases module.default_roles@.len() - i,
    {
        let role = &module.default_roles[i];
        list.push(
            SeededRole {
                name: role.role.clone(),
                can_administer: seeded_role_administers(role.role.as_str()),
                permissions: permissions_for(module.id.as_str(), &role.actions),
            },
        );
        i = i + 1;
    }
    list
}

/// The response status of an error: 403 where the sentence is that of a
/// missing permission, 400 else.
pub fn error_status(message: &str) -> (status: u16)
    ensures
        status == if crate::text::begins(message@, denied_prefix()) {
            403
        } else {
            400int
        },
{
    if starts_with(message, "permission denied") {
        403
    } else {
        400
    }
}

/// A refusal by a missing permission is always answered with 403: its sentence
/// begins as `error_status` expects.
pub proof fn law_denied_is_forbidden(user: Seq<char>, action: Seq<char>, module: Seq<char>)
    ensures
        crate::text::begins(AccessErrorView::Denied(user, action, module).message(), denied_prefix()),
{
    let m = AccessErrorView::Denied(user, action, module).message();
    assert(m.take(denied_prefix().len() as int) =~= denied_prefix());
}

/// The sentence for a missing permission names who may not do what on which module,
/// and that for a role which role it is and which would do.
pub proof fn law_sentences_name_what_is_missing(
    user: Seq<char>,
    action: Seq<char>,
    module: Seq<char>,
    allowed: Seq<char>,
    role: Seq<char>,
)
    ensures
        AccessErrorView::Denied(user, action, module).message() == "permission denied"@ + ": user "@ + user
            + " cannot '"@ + action + "' on module '"@ + module + "'"@,
        AccessErrorView::NotInRoles(allowed, role).message() == "this action requires one of these roles: "@ + allowed
            + " (your role: "@ + role + ")"@,
{
}

} // verus!
