//! Accounts, and the rule that tells the active from the inactive.

use crate::date::{parsed_day_number, Date};
use vstd::prelude::*;

verus! {

/// An account as the instance reports it. The date of its last post is
/// `None` where it never posted or the date is not known.
#[derive(Clone, Debug)]
pub struct User {
    pub id: String,
    pub username: String,
    pub acct: String,
    pub url: String,
    pub bot: bool,
    pub last_status_at: Option<Date>,
}

/// An account as plain values: its texts, and the day number of its last
/// post.
pub struct UserView {
    pub id: Seq<char>,
    pub username: Seq<char>,
    pub acct: Seq<char>,
    pub url: Seq<char>,
    pub bot: bool,
    pub last_status_at: Option<int>,
}

impl View for User {
    type V = UserView;

    open spec fn view(&self) -> UserView {
        UserView {
            id: self.id@,
            username: self.username@,
            acct: self.acct@,
            url: self.url@,
            bot: self.bot,
            last_status_at: self.last_status_at.deep_view(),
        }
    }
}

impl DeepView for User {
    type V = UserView;

    open spec fn deep_view(&self) -> UserView {
        self@
    }
}

/// The day on which an account must have posted, or later, to count as
/// active: `days` days before `today`.
pub open spec fn limit(days: int, today: int) -> int {
    today - days
}

/// Whether an account is active on the day `today` with a threshold of
/// `days` days: its last post is known and not before the limit. A post on
/// the day of the limit itself counts.
pub open spec fn active_on(user: UserView, days: int, today: int) -> bool {
    match user.last_status_at {
        Some(last) => last >= limit(days, today),
        None => false,
    }
}

/// The date that the text of a last post gives: `None` where there is no
/// text, and where the text spells no date.
pub open spec fn last_status_date(text: Option<Seq<char>>) -> Option<int> {
    match text {
        Some(t) => parsed_day_number(t, "%Y-%m-%d"@),
        None => None,
    }
}

impl User {
    /// The account with the given fields, the date of its last post read
    /// from `last_status_at` as year, month and day. A text that spells no
    /// date leaves the date unknown.
    pub fn new(
        id: String,
        username: String,
        acct: String,
        url: String,
        bot: bool,
        last_status_at: Option<&str>,
    ) -> (user: User)
        ensures
            user@ == (UserView {
                id: id@,
                username: username@,
                acct: acct@,
                url: url@,
                bot,
                last_status_at: last_status_date(last_status_at.deep_view()),
            }),
    {
        let date = match last_status_at {
            Some(text) => Date::parse(text),
            None => None,
        };
        User { id, username, acct, url, bot, last_status_at: date }
    }

    /// Whether the account is active on the day `today` with a threshold of
    /// `days` days. An account without a known last post is never active;
    /// another one is inactive exactly where its last post is before the
    /// limit.
    pub fn is_active(&self, days: i32, today: Date) -> (active: bool)
        requires
            days >= 1,
        ensures
            active == active_on(self@, days as int, today@),
            self@.last_status_at is None ==> !active,
            self@.last_status_at matches Some(last) ==> (!active <==> last < today@ - days),
    {
        match self.last_status_at {
            Some(last) => {
                let limit: i64 = today.num_days_from_ce() as i64 - days as i64;
                last.num_days_from_ce() as i64 >= limit
            },
            None => false,
        }
    }
}

/// The inactive among `users`, in their order.
pub fn inactive_users(users: &Vec<User>, days: i32, today: Date) -> (found: Vec<&User>)
    requires
        days >= 1,
    ensures
        found.deep_view() == users.deep_view().filter(
            |u: UserView| !active_on(u, days as int, today@),
        ),
{
    let ghost idle = |u: UserView| !active_on(u, days as int, today@);
    let mut found: Vec<&User> = Vec::new();
    let mut i: usize = 0;
    proof {
        reveal(Seq::filter);
        assert(users.deep_view().take(0).filter(idle) == Seq::<UserView>::empty());
    }
    while i < users.len()
        invariant
            i <= users@.len(),
            days >= 1,
            idle == |u: UserView| !active_on(u, days as int, today@),
            found.deep_view() == users.deep_view().take(i as int).filter(idle),
        decreases users@.len() - i,
    {
        let ghost before = found.deep_view();
        let ghost upto = users.deep_view().take(i + 1);
        proof {
            reveal(Seq::filter);
            assert(upto.drop_last() == users.deep_view().take(i as int));
            assert(upto.last() == users[i as int]@);
        }
        if !users[i].is_active(days, today) {
            found.push(&users[i]);
            assert(found.deep_view() == before.push(users[i as int]@));
        }
        i += 1;
    }
    assert(users.deep_view().take(i as int) == users.deep_view());
    found
}

} // verus!
