use vstd::prelude::*;
use crate::group::Group;
use crate::notification::Notification;
use crate::user::User;

verus! {

/// The screen the application shows.
#[derive(Clone)]
pub enum Screen {
    Login,
    Register,
    MainApp(User),
    CreateGroup(i32),
    MyGroups(i32),
    AddExp(i32, i32),
    MyDebtsOrCredits(i32, bool),
    MyNotifications(i32),
}

/// What the application does for the screen it shows.
pub enum Action {
    MainApp(User),
    Login,
    Register,
    CreateGroup(i32),
    MyGroups(i32),
    AddExp(i32, i32),
    MyDebtsOrCredits(i32, bool),
    MyNotifications(i32),
}

/// What the login form holds.
pub struct LoginState {
    pub login_email: String,
    pub login_password: String,
}

impl Default for LoginState {
    fn default() -> (r: Self)
        ensures
            r.login_email@.len() == 0,
            r.login_password@.len() == 0,
    {
        LoginState { login_email: String::new(), login_password: String::new() }
    }
}

/// What the registration form holds.
pub struct RegistrationState {
    pub reg_username: String,
    pub reg_email: String,
    pub reg_password: String,
}

impl Default for RegistrationState {
    fn default() -> (r: Self)
        ensures
            r.reg_username@.len() == 0,
            r.reg_email@.len() == 0,
            r.reg_password@.len() == 0,
    {
        RegistrationState { reg_username: String::new(), reg_email: String::new(), reg_password: String::new() }
    }
}

/// What the group screens hold: the group being created, a user search and
/// its results, the users picked as members, and the user's groups.
pub struct GroupState {
    pub group_name: String,
    pub search_query: String,
    pub search_results: Vec<User>,
    pub selected_users: Vec<i32>,
    pub group_loading: bool,
    pub my_groups: Vec<Group>,
}

impl Default for GroupState {
    fn default() -> (r: Self)
        ensures
            r.group_name@.len() == 0,
            r.search_query@.len() == 0,
            r.search_results@.len() == 0,
            r.selected_users@.len() == 0,
            !r.group_loading,
            r.my_groups@.len() == 0,
    {
        GroupState {
            group_name: String::new(),
            search_query: String::new(),
            search_results: Vec::new(),
            selected_users: Vec::new(),
            group_loading: false,
            my_groups: Vec::new(),
        }
    }
}

/// What the notifications screen holds.
pub struct NotificationState {
    pub notifications: Vec<Notification>,
    pub notification_loading: bool,
}

impl Default for NotificationState {
    fn default() -> (r: Self)
        ensures
            r.notifications@.len() == 0,
            !r.notification_loading,
    {
        NotificationState { notifications: Vec::new(), notification_loading: false }
    }
}

impl User {
    /// A copy of the user with the same fields.
    pub fn duplicate(&self) -> (r: User)
        ensures
            r.id == self.id,
            r.username@ == self.username@,
            r.email@ == self.email@,
            r.loyal_payer == self.loyal_payer,
    {
        User::from_loyal_payer(self.id, self.username.clone(), self.email.clone(), self.loyal_payer)
    }
}

pub open spec fn same_user(a: User, b: User) -> bool {
    a.id == b.id && a.username@ == b.username@ && a.email@ == b.email@ && a.loyal_payer == b.loyal_payer
}

/// The action for the screen shown, with the screen's arguments.
pub open spec fn action_matches(s: Screen, a: Action) -> bool {
    match (s, a) {
        (Screen::Login, Action::Login) => true,
        (Screen::Register, Action::Register) => true,
        (Screen::MainApp(u), Action::MainApp(v)) => same_user(u, v),
        (Screen::CreateGroup(x), Action::CreateGroup(y)) => x == y,
        (Screen::MyGroups(x), Action::MyGroups(y)) => x == y,
        (Screen::AddExp(x, g), Action::AddExp(y, h)) => x == y && g == h,
        (Screen::MyDebtsOrCredits(x, d), Action::MyDebtsOrCredits(y, e)) => x == y && d == e,
        (Screen::MyNotifications(x), Action::MyNotifications(y)) => x == y,
        _ => false,
    }
}

/// What to do for the screen shown.
pub fn action_for(screen: &Screen) -> (r: Action)
    ensures
        action_matches(*screen, r),
{
    match screen {
        Screen::MainApp(user) => Action::MainApp(user.duplicate()),
        Screen::Login => Action::Login,
        Screen::Register => Action::Register,
        Screen::CreateGroup(user_id) => Action::CreateGroup(*user_id),
        Screen::MyGroups(user_id) => Action::MyGroups(*user_id),
        Screen::AddExp(user_id, group_id) => Action::AddExp(*user_id, *group_id),
        Screen::MyDebtsOrCredits(user_id, is_debt) => Action::MyDebtsOrCredits(*user_id, *is_debt),
        Screen::MyNotifications(user_id) => Action::MyNotifications(*user_id),
    }
}

/// The ids without any occurrence of `id`, in order.
pub open spec fn without_id(s: Seq<i32>, id: i32) -> Seq<i32>
    decreases s.len(),
{
    if s.len() == 0 {
        s
    } else if s.last() == id {
        without_id(s.drop_last(), id)
    } else {
        without_id(s.drop_last(), id).push(s.last())
    }
}

/// The picked members after `id` is ticked (`checked`) or unticked: ticking
/// adds it once, unticking removes it.
pub open spec fn picked(s: Seq<i32>, id: i32, checked: bool) -> Seq<i32> {
    if checked {
        if s.contains(id) { s } else { s.push(id) }
    } else {
        without_id(s, id)
    }
}

/// Ticks or unticks `id` among the users picked as members of a new group.
pub fn set_picked(selected: &mut Vec<i32>, id: i32, checked: bool)
    ensures
        final(selected)@ == picked(old(selected)@, id, checked),
{
    if checked {
        let mut i: usize = 0;
        while i < selected.len()
            invariant
                0 <= i <= selected@.len(),
                selected@ == old(selected)@,
                checked,
                forall|j: int| 0 <= j < i ==> selected@[j] != id,
            decreases selected@.len() - i,
        {
            if selected[i] == id {
                assert(selected@[i as int] == id);
                assert(old(selected)@.contains(id));
                return;
            }
            i = i + 1;
        }
        assert(!old(selected)@.contains(id));
        selected.push(id);
    } else {
        let mut kept: Vec<i32> = Vec::new();
        let mut i: usize = 0;
        while i < selected.len()
            invariant
                0 <= i <= selected@.len(),
                selected@ == old(selected)@,
                !checked,
                kept@ == without_id(selected@.take(i as int), id),
            decreases selected@.len() - i,
        {
            assert(selected@.take(i as int + 1).drop_last() =~= selected@.take(i as int));
            if selected[i] != id {
                kept.push(selected[i]);
            }
            i = i + 1;
        }
        assert(selected@.take(i as int) =~= selected@);
        *selected = kept;
    }
}

} // verus!
