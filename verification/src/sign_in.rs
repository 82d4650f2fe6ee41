//! How a client signs in: what is asked in turn, and when a token is given out.
use vstd::prelude::*;

use crate::guid::Guid;
use crate::service_error::{ErrorView, ServiceError};
use crate::session_manager::{
    all_of_server, at_session_limit, authentication_contact, contacted, freshly_minted, given,
    key_place, law_contact_keeps_the_server, lemma_key_place, lookup_after, mint_device, missing,
    next_lookup, parse_user_id, session_key_of, stands_for, text_or_blank, user_id_in, user_of_device,
    AuthenticationRequest, Contact, DeviceRow, HermitSessionManager, LookupStage, LookupView,
    SessionUser, Sessions, UserLookup,
};
use crate::time::Timestamp;

verus! {

/// How far a client has come.
#[derive(Debug, Clone, Copy, PartialEq, Eq, Structural)]
pub enum SignInStage {
    /// The user is looked for.
    Searching(LookupStage),
    /// It is asked whether the user may use the device.
    AskingForDevice,
    /// The user's earlier rows for the device are looked up.
    ListingDevices,
    /// Those rows are signed out.
    SigningOut,
    /// The new row is stored.
    Creating,
    /// The session is opened.
    Opening,
    /// Nothing is left to do.
    Over,
}

/// A client that signs in.
#[derive(Debug, Clone)]
pub struct SignIn {
    pub request: AuthenticationRequest,
    pub enforce_password: bool,
    /// What the client tells of itself.
    pub contact: Contact,
    pub stage: SignInStage,
    /// The user who was found.
    pub user: Option<SessionUser>,
    /// Whether a password was checked and fits.
    pub checked: bool,
    /// Whether the user may sign in on this device, now.
    pub admitted: bool,
    /// The token of the stored row.
    pub token: Option<String>,
}

/// What the server learned.
#[derive(Debug, Clone)]
pub enum SignInEvent {
    Begin,
    /// The answer to a question for the user.
    Answer(Option<SessionUser>),
    /// Whether the user may use the device.
    MayUseDevice(bool),
    /// The user's rows for the device.
    Devices(Vec<DeviceRow>),
    SignedOut,
    /// The row, as it was stored.
    Created(DeviceRow),
    Opened,
}

/// What the server is to do next.
#[derive(Debug)]
pub enum SignInAction {
    /// Look for the user.
    Ask(UserLookup),
    /// Ask whether the user may use the device.
    AskForDevice { user_id: Guid, device_id: String },
    /// Look up the user's rows for the device.
    ListDevices { user_id: Guid, device_id: String },
    /// Sign these rows out.
    SignOut(Vec<DeviceRow>),
    /// Store this row.
    Create(DeviceRow),
    /// Record the contact as the user's, on the device.
    Open { user_id: Guid, device_id: String },
    /// The client is signed in and gets this token.
    Finish(String),
    /// The client is refused.
    Refuse(ServiceError),
    /// The event does not belong here; nothing changes.
    Ignore,
}

/// The stage that asking a question leads to.
pub open spec fn stage_of(l: LookupView) -> LookupStage {
    match l {
        LookupView::ById(_) => LookupStage::AskedById,
        LookupView::ByName(_) => LookupStage::AskedByName,
        LookupView::ByPassword { .. } => LookupStage::CheckedPassword,
        LookupView::Finished => LookupStage::CheckedPassword,
    }
}

/// The error where no user was found.
pub open spec fn no_such_user() -> ErrorView {
    ErrorView::Unauthorized("invalid username or password entered"@)
}

/// The error where a user may not sign in.
pub open spec fn not_admitted(may_use_device: bool) -> ErrorView {
    if !may_use_device {
        ErrorView::Unauthorized("user is not allowed access from this device"@)
    } else {
        ErrorView::Unauthorized("user is at their maximum number of sessions"@)
    }
}

/// Whether a contact holds what a request tells.
pub open spec fn tells(c: Contact, request: AuthenticationRequest) -> bool {
    &&& given(request.app) && c.app_name@ == request.app->0@
    &&& given(request.device_id) && c.device_id@ == request.device_id->0@
    &&& given(request.device_name) && c.device_name@ == request.device_name->0@
    &&& given(request.app_version) && c.app_version@ == request.app_version->0@
    &&& c.remote_endpoint@ == text_or_blank(request.remote_endpoint)
}

/// The user's identifier; the nil one where there is no user.
pub open spec fn found_id(user: Option<SessionUser>) -> Guid {
    match user {
        Some(u) => user_id_in(u.id@),
        None => (Guid { value: 0 }),
    }
}

impl SignIn {
    /// What was shown before a stage is reached: past the search there is a user,
    /// whose password was checked where that is enforced; past the question for the
    /// device, the user is admitted.
    pub open spec fn wf(&self) -> bool {
        &&& !(self.stage is Searching) && self.stage != SignInStage::Over ==> {
            &&& self.user is Some
            &&& self.enforce_password ==> self.checked
        }
        &&& self.stage == SignInStage::ListingDevices || self.stage == SignInStage::SigningOut
            || self.stage == SignInStage::Creating || self.stage == SignInStage::Opening
            ==> self.admitted
        &&& self.stage == SignInStage::Opening ==> self.token is Some
    }

    /// Whether all but the progress is as in `before`.
    pub open spec fn same_client(&self, before: SignIn) -> bool {
        &&& self.request == before.request
        &&& self.enforce_password == before.enforce_password
        &&& self.contact == before.contact
    }

    /// Whether the search goes on from `from`, with the user found so far: the next
    /// question is asked, or the search is over and its result counts.
    pub open spec fn searched(&self, from: LookupStage, action: SignInAction) -> bool {
        let l = lookup_after(self.request, self.enforce_password, from, self.user is Some);
        if l is Finished {
            if self.user is Some {
                &&& self.stage == SignInStage::AskingForDevice
                &&& action matches SignInAction::AskForDevice { user_id, device_id }
                &&& user_id == found_id(self.user)
                &&& device_id@ == self.contact.device_id@
            } else {
                &&& self.stage == SignInStage::Over
                &&& action matches SignInAction::Refuse(e) && e@ == no_such_user()
            }
        } else {
            &&& self.stage == SignInStage::Searching(stage_of(l))
            &&& action matches SignInAction::Ask(q) && q@ == l
        }
    }

    /// Whether `self` and `action` follow from `before` by `event`.
    pub open spec fn follows(
        &self,
        before: SignIn,
        event: SignInEvent,
        sessions: Sessions,
        now: Timestamp,
        action: SignInAction,
    ) -> bool {
        &&& self.same_client(before)
        &&& match (before.stage, event) {
            (SignInStage::Searching(LookupStage::Begun), SignInEvent::Begin) => {
                &&& self.searched(LookupStage::Begun, action)
                &&& self.user == before.user
                &&& self.checked == before.checked
                &&& self.admitted == before.admitted
                &&& self.token == before.token
            },
            (SignInStage::Searching(from), SignInEvent::Answer(user)) => if from
                == LookupStage::Begun {
                self.unmoved(before, action)
            } else {
                &&& self.searched(from, action)
                &&& self.user == user
                &&& self.checked == (before.checked || (from == LookupStage::CheckedPassword
                    && user is Some))
                &&& self.admitted == before.admitted
                &&& self.token == before.token
            },
            (SignInStage::AskingForDevice, SignInEvent::MayUseDevice(may_use)) => {
                let refused = before.user is None || !may_use || at_session_limit(
                    sessions,
                    before.user->0,
                );
                &&& self.user == before.user
                &&& self.checked == before.checked
                &&& self.admitted == !refused
                &&& self.token == before.token
                &&& if refused {
                    &&& self.stage == SignInStage::Over
                    &&& action matches SignInAction::Refuse(e) && e@ == if before.user is None {
                        no_such_user()
                    } else {
                        not_admitted(may_use)
                    }
                } else {
                    &&& self.stage == SignInStage::ListingDevices
                    &&& action matches SignInAction::ListDevices { user_id, device_id }
                    &&& user_id == found_id(before.user)
                    &&& device_id@ == before.contact.device_id@
                }
            },
            (SignInStage::ListingDevices, SignInEvent::Devices(rows)) => {
                &&& self.stage == SignInStage::SigningOut
                &&& action == SignInAction::SignOut(rows)
                &&& self.user == before.user
                &&& self.checked == before.checked
                &&& self.admitted == before.admitted
                &&& self.token == before.token
            },
            (SignInStage::SigningOut, SignInEvent::SignedOut) => {
                &&& match before.user {
                    Some(user) => {
                        &&& self.stage == SignInStage::Creating
                        &&& action matches SignInAction::Create(row) && freshly_minted(
                            row,
                            before.contact,
                            user,
                            now,
                        )
                    },
                    None => {
                        &&& self.stage == SignInStage::Over
                        &&& action matches SignInAction::Refuse(e) && e@ == no_such_user()
                    },
                }
                &&& self.user == before.user
                &&& self.checked == before.checked
                &&& self.admitted == before.admitted
                &&& self.token == before.token
            },
            (SignInStage::Creating, SignInEvent::Created(row)) => {
                &&& self.stage == SignInStage::Opening
                &&& action matches SignInAction::Open { user_id, device_id }
                &&& user_id == found_id(before.user)
                &&& device_id@ == before.contact.device_id@
                &&& self.token matches Some(t) && t@ == row.access_token@
                &&& self.user == before.user
                &&& self.checked == before.checked
                &&& self.admitted == before.admitted
            },
            (SignInStage::Opening, SignInEvent::Opened) => {
                &&& self.stage == SignInStage::Over
                &&& action matches SignInAction::Finish(t) && t@ == text_or_blank(before.token)
                &&& self.user == before.user
                &&& self.checked == before.checked
                &&& self.admitted == before.admitted
            },
            _ => self.unmoved(before, action),
        }
    }

    /// Whether nothing has changed.
    pub open spec fn unmoved(&self, before: SignIn, action: SignInAction) -> bool {
        *self == before && action is Ignore
    }

    /// A client begins to sign in. What it must tell of itself has to be there; the
    /// first that is missing is named.
    pub fn new(request: AuthenticationRequest, enforce_password: bool) -> (r: Result<
        Self,
        ServiceError,
    >)
        ensures
            match r {
                Ok(s) => {
                    &&& s.wf()
                    &&& tells(s.contact, request)
                    &&& s.request == request
                    &&& s.enforce_password == enforce_password
                    &&& s.stage == SignInStage::Searching(LookupStage::Begun)
                    &&& s.user is None
                    &&& !s.checked
                    &&& !s.admitted
                    &&& s.token is None
                },
                Err(e) => if !given(request.app) {
                    e@ == missing("app"@)
                } else if !given(request.device_id) {
                    e@ == missing("deviceId"@)
                } else if !given(request.device_name) {
                    e@ == missing("deviceName"@)
                } else {
                    !given(request.app_version) && e@ == missing("appVersion"@)
                },
            },
    {
        match authentication_contact(&request) {
            Ok(contact) => Ok(
                SignIn {
                    request,
                    enforce_password,
                    contact,
                    stage: SignInStage::Searching(LookupStage::Begun),
                    user: None,
                    checked: false,
                    admitted: false,
                    token: None,
                },
            ),
            Err(e) => Err(e),
        }
    }

    fn found(&self) -> (r: Guid)
        ensures
            r == found_id(self.user),
    {
        match &self.user {
            Some(u) => parse_user_id(u.id.as_str()),
            None => Guid::nil(),
        }
    }

    fn search(&mut self, from: LookupStage) -> (r: SignInAction)
        ensures
            final(self).searched(from, r),
            final(self).same_client(*old(self)),
            final(self).user == old(self).user,
            final(self).checked == old(self).checked,
            final(self).admitted == old(self).admitted,
            final(self).token == old(self).token,
    {
        let question: UserLookup = next_lookup(
            &self.request,
            self.enforce_password,
            from,
            self.user.is_some(),
        );
        let reached: LookupStage = match &question {
            UserLookup::ById(_) => LookupStage::AskedById,
            UserLookup::ByName(_) => LookupStage::AskedByName,
            UserLookup::ByPassword { .. } => LookupStage::CheckedPassword,
            UserLookup::Finished => {
                if self.user.is_some() {
                    self.stage = SignInStage::AskingForDevice;
                    return SignInAction::AskForDevice {
                        user_id: self.found(),
                        device_id: self.contact.device_id.clone(),
                    };
                }
                return self.refuse();
            },
        };
        self.stage = SignInStage::Searching(reached);
        SignInAction::Ask(question)
    }

    fn refuse(&mut self) -> (r: SignInAction)
        ensures
            r matches SignInAction::Refuse(e) && e@ == no_such_user(),
            *final(self) == (SignIn { stage: SignInStage::Over, ..*old(self) }),
    {
        self.stage = SignInStage::Over;
        SignInAction::Refuse(
            ServiceError::Unauthorized("invalid username or password entered".to_owned()),
        )
    }

    fn weigh_device(&mut self, may_use: bool, sessions: &HermitSessionManager, now: Timestamp) -> (r:
        SignInAction)
        requires
            old(self).stage == SignInStage::AskingForDevice,
        ensures
            final(self).follows(
                *old(self),
                SignInEvent::MayUseDevice(may_use),
                sessions@,
                now,
                r,
            ),
    {
        let verdict: Option<Result<(), ServiceError>> = match &self.user {
            Some(user) => Some(sessions.check_admission(user, may_use)),
            None => None,
        };
        match verdict {
            Some(Ok(_)) => {
                self.stage = SignInStage::ListingDevices;
                self.admitted = true;
                SignInAction::ListDevices {
                    user_id: self.found(),
                    device_id: self.contact.device_id.clone(),
                }
            },
            Some(Err(e)) => {
                self.stage = SignInStage::Over;
                self.admitted = false;
                SignInAction::Refuse(e)
            },
            None => {
                self.admitted = false;
                self.refuse()
            },
        }
    }

    /// What is to be done after an event. The sessions are those that are open at
    /// the time.
    pub fn step(&mut self, event: SignInEvent, sessions: &HermitSessionManager, now: Timestamp) -> (r:
        SignInAction)
        requires
            old(self).wf(),
        ensures
            final(self).wf(),
            final(self).follows(*old(self), event, sessions@, now, r),
    {
        match (self.stage, event) {
            (SignInStage::Searching(LookupStage::Begun), SignInEvent::Begin) => self.search(
                LookupStage::Begun,
            ),
            (SignInStage::Searching(from), SignInEvent::Answer(user)) => {
                match from {
                    LookupStage::Begun => SignInAction::Ignore,
                    LookupStage::CheckedPassword => {
                        self.checked = self.checked || user.is_some();
                        self.user = user;
                        self.search(from)
                    },
                    _ => {
                        self.user = user;
                        self.search(from)
                    },
                }
            },
            (SignInStage::AskingForDevice, SignInEvent::MayUseDevice(may_use)) => self.weigh_device(
                may_use,
                sessions,
                now,
            ),
            (SignInStage::ListingDevices, SignInEvent::Devices(rows)) => {
                self.stage = SignInStage::SigningOut;
                SignInAction::SignOut(rows)
            },
            (SignInStage::SigningOut, SignInEvent::SignedOut) => {
                let row: Option<DeviceRow> = match &self.user {
                    Some(user) => Some(mint_device(&self.contact, user, now)),
                    None => None,
                };
                match row {
                    Some(row) => {
                        self.stage = SignInStage::Creating;
                        SignInAction::Create(row)
                    },
                    None => self.refuse(),
                }
            },
            (SignInStage::Creating, SignInEvent::Created(row)) => {
                self.stage = SignInStage::Opening;
                self.token = Some(row.access_token);
                SignInAction::Open {
                    user_id: self.found(),
                    device_id: self.contact.device_id.clone(),
                }
            },
            (SignInStage::Opening, SignInEvent::Opened) => {
                self.stage = SignInStage::Over;
                match &self.token {
                    Some(t) => SignInAction::Finish(t.clone()),
                    None => SignInAction::Finish(String::new()),
                }
            },
            _ => SignInAction::Ignore,
        }
    }
}

/// A row with a token is stored, and a token is given out, only for a user who was
/// found, whose password was checked where that is enforced, and who is admitted.
pub proof fn law_token_needs_admission(
    before: SignIn,
    event: SignInEvent,
    sessions: Sessions,
    now: Timestamp,
    action: SignInAction,
    after: SignIn,
)
    requires
        before.wf(),
        after.follows(before, event, sessions, now, action),
    ensures
        action is Create || action is Open || action is Finish ==> {
            &&& before.user is Some
            &&& before.enforce_password ==> before.checked
            &&& before.admitted
        },
{
}

/// A password counts as checked only by an answer to the question for it that names
/// a user, and a user is admitted only on a device that they may use and below
/// their number of sessions.
pub proof fn law_admission_is_earned(
    before: SignIn,
    event: SignInEvent,
    sessions: Sessions,
    now: Timestamp,
    action: SignInAction,
    after: SignIn,
)
    requires
        before.wf(),
        after.follows(before, event, sessions, now, action),
    ensures
        after.checked && !before.checked ==> before.stage == SignInStage::Searching(
            LookupStage::CheckedPassword,
        ) && event == SignInEvent::Answer(after.user) && after.user is Some,
        after.admitted && !before.admitted ==> event == SignInEvent::MayUseDevice(true)
            && before.user is Some && !at_session_limit(sessions, before.user->0),
{
}

/// The token that a client gets is that of its stored row.
pub proof fn law_token_is_of_the_stored_row(
    creating: SignIn,
    row: DeviceRow,
    opening: SignIn,
    opens: SignInAction,
    over: SignIn,
    finish: SignInAction,
    sessions: Sessions,
    opened: Sessions,
    now: Timestamp,
    later: Timestamp,
)
    requires
        creating.stage == SignInStage::Creating,
        opening.follows(creating, SignInEvent::Created(row), sessions, now, opens),
        over.follows(opening, SignInEvent::Opened, opened, later, finish),
    ensures
        opens is Open,
        finish matches SignInAction::Finish(token) && token@ == row.access_token@,
{
}

/// The token of a row that was just minted is not empty.
pub proof fn law_token_is_not_empty(
    row: DeviceRow,
    c: Contact,
    user: SessionUser,
    now: Timestamp,
)
    requires
        freshly_minted(row, c, user, now),
    ensures
        row.access_token@.len() > 0,
{
    let token = choose|token: Guid|
        token.value != 0 && #[trigger] row.is_minted(c, user, token, now);
    assert(row.is_minted(c, user, token, now));
}

/// The row of a client that has signed in names the user, and a contact that this
/// row stands for comes to the session that the sign-in opened, and leaves it the
/// user's. That session tells the id of the server.
pub proof fn law_token_comes_to_the_users_session(
    s: Sessions,
    c: Contact,
    user: SessionUser,
    row: DeviceRow,
    again: Contact,
    found: SessionUser,
    device_id: Seq<char>,
    remote_endpoint: Seq<char>,
    session_id: Seq<char>,
    other_id: Seq<char>,
    server_id: Seq<char>,
    custom: Option<String>,
    now: Timestamp,
    later: Timestamp,
)
    requires
        freshly_minted(row, c, user, now),
        stands_for(again, row, device_id, remote_endpoint),
        device_id.len() == 0 || device_id == c.device_id@,
        user_of_device(row) == Some(user_id_in(found.id@)),
        all_of_server(s, server_id),
    ensures
        ({
            let signed_in = contacted(s, c, session_id, server_id, Some(user), custom, now);
            let seen = contacted(signed_in, again, other_id, server_id, Some(found), custom, later);
            let i = key_place(signed_in, session_key_of(c));
            &&& user_id_in(found.id@) == user_id_in(user.id@)
            &&& seen.len() == signed_in.len()
            &&& 0 <= i < signed_in.len()
            &&& signed_in[i].user_id == user_id_in(user.id@)
            &&& seen[i].user_id == user_id_in(user.id@)
            &&& seen[i].id == signed_in[i].id
            &&& signed_in[i].server_id == Some(server_id)
            &&& seen[i].server_id == Some(server_id)
        }),
{
    let token = choose|token: Guid|
        token.value != 0 && #[trigger] row.is_minted(c, user, token, now);
    assert(row.is_minted(c, user, token, now));
    let key = session_key_of(c);
    assert(session_key_of(again) == key);
    let signed_in = contacted(s, c, session_id, server_id, Some(user), custom, now);
    lemma_key_place(s, key);
    lemma_key_place(signed_in, key);
    let at = key_place(s, key);
    assert(signed_in[at].key == key);
    let i = key_place(signed_in, key);
    if i != at {
        if i < at {
            assert(s[i].key != key);
        } else {
            assert(signed_in[at].key != key);
        }
    }
    law_contact_keeps_the_server(s, c, session_id, server_id, Some(user), custom, now);
    law_contact_keeps_the_server(
        signed_in,
        again,
        other_id,
        server_id,
        Some(found),
        custom,
        later,
    );
}

/// How many events lie at most between a stage and the end.
pub open spec fn remaining(s: SignInStage) -> int {
    match s {
        SignInStage::Searching(LookupStage::Begun) => 9,
        SignInStage::Searching(LookupStage::AskedById) => 8,
        SignInStage::Searching(LookupStage::AskedByName) => 7,
        SignInStage::Searching(LookupStage::CheckedPassword) => 6,
        SignInStage::AskingForDevice => 5,
        SignInStage::ListingDevices => 4,
        SignInStage::SigningOut => 3,
        SignInStage::Creating => 2,
        SignInStage::Opening => 1,
        SignInStage::Over => 0,
    }
}

/// An event that is not ignored brings a client nearer to the end.
pub proof fn law_sign_in_ends(
    before: SignIn,
    event: SignInEvent,
    sessions: Sessions,
    now: Timestamp,
    action: SignInAction,
    after: SignIn,
)
    requires
        before.wf(),
        after.follows(before, event, sessions, now, action),
        !(action is Ignore),
    ensures
        0 <= remaining(after.stage) < remaining(before.stage),
{
}

} // verus!
