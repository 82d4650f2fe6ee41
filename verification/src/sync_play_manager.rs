//! Group playback: all groups, and who is in which.
use vstd::prelude::*;

use crate::guid::{guid_text, hyphenated_text, new_guid, Guid};
use crate::json::{sorted_envelope, sorted_envelope_text};
use crate::play_queue::{all_identified, entries_for, QueueView, SyncPlayQueueItem};
use crate::service_error::{ErrorView, ServiceError};
use crate::sort::{is_order, law_sorted, sort_by, sorted};
use crate::sync_play_group::{
    has_member, highest_ping, items_brought, joined_members, law_requests_keep_members, new_member,
    other_members, outbounds, Group, GroupInfo, GroupMember, GroupStateType, GroupView, InfoView,
    MemberView, Outbound, OutboundView, PlaybackRequest, SyncPlaySession, Target,
};
use crate::table::{lemma_table_entry, Table};
use crate::text::{concat, same_text, texts, trim, trimmed};
use crate::time::Timestamp;

verus! {

/// All groups, which session is in which, and how many sessions of each user
/// take part.
#[derive(Debug)]
pub struct HermitSyncPlayManager {
    pub groups: Table<Guid, Group>,
    pub session_to_group: Table<String, Guid>,
    pub active_users: Table<Guid, u32>,
}

/// What a registry stands for.
pub struct RegistryView {
    pub groups: Map<Guid, GroupView>,
    pub sessions: Map<Seq<char>, Guid>,
    pub users: Map<Guid, u32>,
}

/// What a table of groups stands for.
pub open spec fn group_views(m: Map<Guid, Group>) -> Map<Guid, GroupView> {
    Map::new(|k: Guid| m.contains_key(k), |k: Guid| m[k]@)
}

impl View for HermitSyncPlayManager {
    type V = RegistryView;

    open spec fn view(&self) -> RegistryView {
        RegistryView {
            groups: group_views(self.groups@),
            sessions: self.session_to_group@,
            users: self.active_users@,
        }
    }
}

/// Whether no two members have the same session.
pub open spec fn distinct_members(members: Seq<MemberView>) -> bool {
    forall|i: int, j: int|
        0 <= i < j < members.len() ==> (#[trigger] members[i]).session_id != (
        #[trigger] members[j]).session_id
}

/// A user's count lowered by one; the last one leaves no entry.
pub open spec fn lowered(users: Map<Guid, u32>, user: Guid) -> Map<Guid, u32> {
    if users.contains_key(user) {
        if users[user] <= 1 {
            users.remove(user)
        } else {
            users.insert(user, (users[user] - 1) as u32)
        }
    } else {
        users
    }
}

/// A user's count; zero without an entry.
pub open spec fn count_of(users: Map<Guid, u32>, user: Guid) -> int {
    if users.contains_key(user) {
        users[user] as int
    } else {
        0
    }
}

/// A user's count raised by one.
pub open spec fn raised(users: Map<Guid, u32>, user: Guid) -> Map<Guid, u32> {
    users.insert(user, (count_of(users, user) + 1) as u32)
}

impl RegistryView {
    /// The sessions that the registry knows are exactly the members of its
    /// groups: each in one group, and no group without a member.
    pub open spec fn consistent(self) -> bool {
        &&& forall|g: Guid| #[trigger]
            self.groups.contains_key(g) ==> {
                &&& self.groups[g].id == g
                &&& self.groups[g].members.len() > 0
                &&& distinct_members(self.groups[g].members)
            }
        &&& forall|s: Seq<char>| #[trigger]
            self.sessions.contains_key(s) ==> self.groups.contains_key(self.sessions[s])
                && has_member(self.groups[self.sessions[s]].members, s)
        &&& forall|g: Guid, i: int|
            self.groups.contains_key(g) && 0 <= i < self.groups[g].members.len()
                ==> self.sessions.contains_key(
                (#[trigger] self.groups[g].members[i]).session_id,
            ) && self.sessions[self.groups[g].members[i].session_id] == g
    }

    /// The groups after a session has left the group `g`. A group without
    /// members is dropped.
    pub open spec fn groups_without(
        self,
        g: Guid,
        session_id: Seq<char>,
        at: Option<Timestamp>,
    ) -> Map<Guid, GroupView> {
        if self.groups.contains_key(g) {
            let rest = other_members(self.groups[g].members, session_id);
            if rest.len() == 0 {
                self.groups.remove(g)
            } else {
                self.groups.insert(
                    g,
                    GroupView {
                        members: rest,
                        last_updated: match at {
                            Some(t) => t,
                            None => self.groups[g].last_updated,
                        },
                        ..self.groups[g]
                    },
                )
            }
        } else {
            self.groups
        }
    }

    /// The registry after a session has left whatever group it was in. Where a
    /// time is given, the group it left notes it.
    pub open spec fn left(self, session: SyncPlaySession, at: Option<Timestamp>) -> RegistryView {
        let s = session.session_id@;
        if self.sessions.contains_key(s) {
            RegistryView {
                groups: self.groups_without(self.sessions[s], s, at),
                sessions: self.sessions.remove(s),
                users: lowered(self.users, session.user_id),
            }
        } else {
            self
        }
    }

    /// The registry after a session has left its group and entered the group
    /// `g`, which becomes `group`.
    pub open spec fn entered(
        self,
        session: SyncPlaySession,
        g: Guid,
        group: GroupView,
    ) -> RegistryView {
        let l = self.left(session, None);
        RegistryView {
            groups: l.groups.insert(g, group),
            sessions: l.sessions.insert(session.session_id@, g),
            users: raised(l.users, session.user_id),
        }
    }

    /// Whether one more session of the user can be counted, once the session has
    /// left its group.
    pub open spec fn can_enter(self, session: SyncPlaySession) -> bool {
        count_of(self.left(session, None).users, session.user_id) < u32::MAX
    }

    /// Whether the session is the only member of the group `g`.
    pub open spec fn alone_in(self, session_id: Seq<char>, g: Guid) -> bool {
        self.sessions.contains_key(session_id) && self.sessions[session_id] == g && other_members(
            self.groups[g].members,
            session_id,
        ).len() == 0
    }

    /// The group that a new group's founder finds itself in.
    pub open spec fn founded(
        session: SyncPlaySession,
        g: Guid,
        name: Seq<char>,
        now: Timestamp,
    ) -> GroupView {
        GroupView {
            id: g,
            name: trimmed(name),
            state: GroupStateType::Idle,
            members: seq![new_member(session)],
            queue: QueueView::empty(),
            position_ticks: 0,
            last_activity: now,
            last_updated: now,
        }
    }

    /// The group `g` after the session, which has left any other, has joined it.
    pub open spec fn with_joined(
        self,
        session: SyncPlaySession,
        g: Guid,
        now: Timestamp,
    ) -> GroupView {
        let group = self.left(session, None).groups[g];
        GroupView {
            members: joined_members(group.members, session),
            last_updated: now,
            ..group
        }
    }
}

/// What members are told about their group.
#[derive(Debug)]
pub enum Notice {
    GroupJoined { group_id: Guid, info: GroupInfo },
    UserJoined { group_id: Guid, user_name: String },
    GroupLeft { group_id: Guid },
    UserLeft { group_id: Guid, user_name: String },
    GroupDoesNotExist { group_id: Guid },
    NotInGroup,
}

/// What a notice stands for.
pub enum NoticeView {
    GroupJoined { group_id: Guid, info: InfoView },
    UserJoined { group_id: Guid, user_name: Seq<char> },
    GroupLeft { group_id: Guid },
    UserLeft { group_id: Guid, user_name: Seq<char> },
    GroupDoesNotExist { group_id: Guid },
    NotInGroup,
}

impl View for Notice {
    type V = NoticeView;

    open spec fn view(&self) -> NoticeView {
        match *self {
            Notice::GroupJoined { group_id, info } => NoticeView::GroupJoined {
                group_id,
                info: info@,
            },
            Notice::UserJoined { group_id, user_name } => NoticeView::UserJoined {
                group_id,
                user_name: user_name@,
            },
            Notice::GroupLeft { group_id } => NoticeView::GroupLeft { group_id },
            Notice::UserLeft { group_id, user_name } => NoticeView::UserLeft {
                group_id,
                user_name: user_name@,
            },
            Notice::GroupDoesNotExist { group_id } => NoticeView::GroupDoesNotExist { group_id },
            Notice::NotInGroup => NoticeView::NotInGroup,
        }
    }
}

/// A notice, and the sessions that it goes to.
#[derive(Debug)]
pub struct Announcement {
    pub notice: Notice,
    pub to: Vec<String>,
}

/// What an announcement stands for.
pub struct AnnouncementView {
    pub notice: NoticeView,
    pub to: Seq<Seq<char>>,
}

impl View for Announcement {
    type V = AnnouncementView;

    open spec fn view(&self) -> AnnouncementView {
        AnnouncementView { notice: self.notice@, to: texts(self.to@) }
    }
}

/// What a list of announcements stands for.
pub open spec fn announcements(v: Seq<Announcement>) -> Seq<AnnouncementView> {
    Seq::new(v.len(), |i: int| v[i]@)
}

/// The sessions of the members.
pub open spec fn sessions_of(members: Seq<MemberView>) -> Seq<Seq<char>> {
    Seq::new(members.len(), |i: int| members[i].session_id)
}

/// One delivery: the message with this number goes to this session.
#[derive(Debug)]
pub struct Delivery {
    pub message: usize,
    pub session_id: String,
}

/// What a delivery stands for.
pub open spec fn delivery_views(v: Seq<Delivery>) -> Seq<(int, Seq<char>)> {
    Seq::new(v.len(), |i: int| (v[i].message as int, v[i].session_id@))
}

/// Whether a message with this target goes to this member.
pub open spec fn is_addressed(target: Target, member: MemberView, from: Seq<char>) -> bool {
    match target {
        Target::AllGroup => true,
        Target::CurrentSession => member.session_id == from,
        Target::AllReady => !member.is_buffering,
    }
}

/// The deliveries of message `n` to those of the members that it is addressed
/// to.
pub open spec fn deliveries_of(
    n: int,
    target: Target,
    members: Seq<MemberView>,
    from: Seq<char>,
) -> Seq<(int, Seq<char>)>
    decreases members.len(),
{
    if members.len() == 0 {
        Seq::empty()
    } else {
        let head = deliveries_of(n, target, members.drop_last(), from);
        if is_addressed(target, members.last(), from) {
            head.push((n, members.last().session_id))
        } else {
            head
        }
    }
}

/// The deliveries of all messages, in order.
pub open spec fn all_deliveries(
    out: Seq<OutboundView>,
    members: Seq<MemberView>,
    from: Seq<char>,
) -> Seq<(int, Seq<char>)>
    decreases out.len(),
{
    if out.len() == 0 {
        Seq::empty()
    } else {
        all_deliveries(out.drop_last(), members, from) + deliveries_of(
            out.len() - 1,
            out.last().target,
            members,
            from,
        )
    }
}

/// What a request of a member does to that member, before it does anything to
/// the group.
pub open spec fn touched_member(m: MemberView, request: PlaybackRequest) -> MemberView {
    match request {
        PlaybackRequest::Ping { ping } => MemberView {
            ping_ms: if ping < 0 {
                0
            } else {
                ping as int
            },
            ..m
        },
        PlaybackRequest::IgnoreWait { ignore_wait } => MemberView { ignore_wait, ..m },
        PlaybackRequest::Buffer { .. } => MemberView { is_buffering: true, ..m },
        PlaybackRequest::Ready { .. } => MemberView { is_buffering: false, ..m },
        _ => m,
    }
}

/// Whether member `i` is the first with the given session.
pub open spec fn is_first_member(members: Seq<MemberView>, i: int, s: Seq<char>) -> bool {
    members[i].session_id == s && forall|j: int|
        0 <= j < i ==> (#[trigger] members[j]).session_id != s
}

/// The group with the requesting member changed.
pub open spec fn touched(g: GroupView, s: Seq<char>, request: PlaybackRequest) -> GroupView {
    GroupView {
        members: Seq::new(
            g.members.len(),
            |i: int|
                if is_first_member(g.members, i, s) {
                    touched_member(g.members[i], request)
                } else {
                    g.members[i]
                },
        ),
        ..g
    }
}

proof fn lemma_same_pings(a: Seq<MemberView>, b: Seq<MemberView>)
    requires
        a.len() == b.len(),
        forall|i: int| 0 <= i < a.len() ==> (#[trigger] a[i]).ping_ms == b[i].ping_ms,
    ensures
        highest_ping(a) == highest_ping(b),
    decreases a.len(),
{
    if a.len() > 1 {
        lemma_same_pings(a.drop_last(), b.drop_last());
        assert(a.last().ping_ms == b.last().ping_ms);
    } else if a.len() == 1 {
        assert(a[0].ping_ms == b[0].ping_ms);
    }
}

proof fn lemma_touching_keeps_manageable(
    g: GroupView,
    s: Seq<char>,
    request: PlaybackRequest,
    now: Timestamp,
)
    ensures
        touched(g, s, request).manageable(request, now) == g.manageable(request, now),
{
    if !(request is Ping) {
        lemma_same_pings(g.members, touched(g, s, request).members);
    }
}

/// What comes of a playback request.
#[derive(Debug)]
pub enum RequestOutcome {
    /// The session is in no group; it is told so.
    NotInGroup,
    /// The group's messages, and who gets which.
    Handled { messages: Vec<Outbound>, deliveries: Vec<Delivery> },
}

impl RegistryView {
    /// The group of a session, with the requesting member changed.
    pub open spec fn requested(self, s: Seq<char>, request: PlaybackRequest) -> GroupView {
        touched(self.groups[self.sessions[s]], s, request)
    }

    /// Whether a request stays within what the machine's numbers and the
    /// calendar can hold.
    pub open spec fn manageable(
        self,
        s: Seq<char>,
        request: PlaybackRequest,
        now: Timestamp,
    ) -> bool {
        self.sessions.contains_key(s) ==> self.requested(s, request).manageable(request, now)
    }

    /// The registry after a request that brings the given queue entries.
    pub open spec fn handled(
        self,
        s: Seq<char>,
        request: PlaybackRequest,
        fresh: Seq<SyncPlayQueueItem>,
        now: Timestamp,
    ) -> RegistryView {
        if self.sessions.contains_key(s) {
            RegistryView {
                groups: self.groups.insert(
                    self.sessions[s],
                    self.requested(s, request).after(request, fresh, now),
                ),
                ..self
            }
        } else {
            self
        }
    }
}

// ---------------------------------------------------------------------------
// Laws
// ---------------------------------------------------------------------------
proof fn lemma_other_members(members: Seq<MemberView>, s: Seq<char>)
    ensures
        !has_member(other_members(members, s), s),
        forall|i: int|
            0 <= i < members.len() && (#[trigger] members[i]).session_id != s ==> has_member(
                other_members(members, s),
                members[i].session_id,
            ),
        forall|i: int|
            0 <= i < other_members(members, s).len() ==> has_member(
                members,
                (#[trigger] other_members(members, s)[i]).session_id,
            ) && other_members(members, s)[i].session_id != s,
        distinct_members(members) ==> distinct_members(other_members(members, s)),
    decreases members.len(),
{
    let o = other_members(members, s);
    if members.len() > 0 {
        let t = members.drop_last();
        let ot = other_members(t, s);
        lemma_other_members(t, s);
        assert forall|i: int|
            0 <= i < members.len() && (#[trigger] members[i]).session_id != s implies has_member(
            o,
            members[i].session_id,
        ) by {
            if i < t.len() {
                assert(t[i] == members[i]);
                let k = choose|k: int|
                    0 <= k < ot.len() && (#[trigger] ot[k]).session_id == members[i].session_id;
                assert(o[k] == ot[k]);
            } else {
                assert(o[o.len() - 1] == members[i]);
            }
        }
        assert forall|i: int| 0 <= i < o.len() implies has_member(
            members,
            (#[trigger] o[i]).session_id,
        ) && o[i].session_id != s by {
            if i < ot.len() {
                assert(o[i] == ot[i]);
                let k = choose|k: int|
                    0 <= k < t.len() && (#[trigger] t[k]).session_id == ot[i].session_id;
                assert(members[k] == t[k]);
            } else {
                assert(members[members.len() - 1] == o[i]);
            }
        }
        if distinct_members(members) {
            assert forall|i: int, j: int| 0 <= i < j < t.len() implies (
            #[trigger] t[i]).session_id != (#[trigger] t[j]).session_id by {
                assert(members[i] == t[i] && members[j] == t[j]);
            }
            assert forall|i: int, j: int| 0 <= i < j < o.len() implies (
            #[trigger] o[i]).session_id != (#[trigger] o[j]).session_id by {
                if j < ot.len() {
                    assert(o[i] == ot[i] && o[j] == ot[j]);
                } else {
                    assert(o[i] == ot[i]);
                    let k = choose|k: int|
                        0 <= k < t.len() && (#[trigger] t[k]).session_id == ot[i].session_id;
                    assert(members[k].session_id != members[members.len() - 1].session_id);
                }
            }
        }
    }
}

/// Leaving keeps the registry consistent, and the session is in no group
/// afterwards.
pub proof fn law_leaving_is_consistent(
    v: RegistryView,
    session: SyncPlaySession,
    at: Option<Timestamp>,
)
    requires
        v.consistent(),
    ensures
        v.left(session, at).consistent(),
        !v.left(session, at).sessions.contains_key(session.session_id@),
{
    let s = session.session_id@;
    let l = v.left(session, at);
    if v.sessions.contains_key(s) {
        let g = v.sessions[s];
        lemma_other_members(v.groups[g].members, s);
        let rest = other_members(v.groups[g].members, s);
        assert forall|q: Seq<char>| #[trigger] l.sessions.contains_key(q) implies l.groups.contains_key(
            l.sessions[q],
        ) && has_member(l.groups[l.sessions[q]].members, q) by {
            assert(v.sessions.contains_key(q));
            if v.sessions[q] == g {
                let k = choose|k: int|
                    0 <= k < v.groups[g].members.len() && (
                    #[trigger] v.groups[g].members[k]).session_id == q;
                assert(has_member(rest, v.groups[g].members[k].session_id));
            }
        }
        assert forall|h: Guid, i: int|
            l.groups.contains_key(h) && 0 <= i < l.groups[h].members.len() implies l.sessions.contains_key(
        (#[trigger] l.groups[h].members[i]).session_id) && l.sessions[l.groups[h].members[i].session_id]
            == h by {
            if h == g {
                let q = l.groups[h].members[i].session_id;
                assert(rest[i].session_id == q);
                let k = choose|k: int|
                    0 <= k < v.groups[g].members.len() && (
                    #[trigger] v.groups[g].members[k]).session_id == q;
                assert(v.sessions.contains_key(v.groups[g].members[k].session_id));
            } else {
                assert(l.groups[h] == v.groups[h]);
                let q = v.groups[h].members[i].session_id;
                assert(v.sessions.contains_key(q) && v.sessions[q] == h);
            }
        }
    }
}

/// Entering a group keeps the registry consistent: the session is then a member
/// of that group and of no other.
pub proof fn law_entering_is_consistent(
    v: RegistryView,
    session: SyncPlaySession,
    g: Guid,
    group: GroupView,
)
    requires
        v.consistent(),
        group.id == g,
        group.members == (if v.left(session, None).groups.contains_key(g) {
            joined_members(v.left(session, None).groups[g].members, session)
        } else {
            seq![new_member(session)]
        }),
    ensures
        v.entered(session, g, group).consistent(),
        v.entered(session, g, group).sessions[session.session_id@] == g,
{
    law_leaving_is_consistent(v, session, None);
    let s = session.session_id@;
    let l = v.left(session, None);
    let e = v.entered(session, g, group);
    let base = if l.groups.contains_key(g) {
        l.groups[g].members
    } else {
        Seq::empty()
    };
    assert(!has_member(base, s)) by {
        if has_member(base, s) {
            let k = choose|k: int| 0 <= k < base.len() && (#[trigger] base[k]).session_id == s;
            assert(l.sessions.contains_key(l.groups[g].members[k].session_id));
        }
    }
    assert(group.members =~= base.push(new_member(session)));
    assert(group.members[base.len() as int].session_id == s);
    assert(distinct_members(group.members)) by {
        assert forall|i: int, j: int| 0 <= i < j < group.members.len() implies (
        #[trigger] group.members[i]).session_id != (#[trigger] group.members[j]).session_id by {
            assert(group.members[i] == base[i]);
            if j < base.len() {
                assert(group.members[j] == base[j]);
            }
        }
    }
    assert forall|q: Seq<char>| #[trigger] e.sessions.contains_key(q) implies e.groups.contains_key(
        e.sessions[q],
    ) && has_member(e.groups[e.sessions[q]].members, q) by {
        if q != s {
            assert(l.sessions.contains_key(q));
            if l.sessions[q] == g {
                let k = choose|k: int| 0 <= k < base.len() && (#[trigger] base[k]).session_id == q;
                assert(group.members[k] == base[k]);
            }
        }
    }
    assert forall|h: Guid, i: int|
        e.groups.contains_key(h) && 0 <= i < e.groups[h].members.len() implies e.sessions.contains_key(
        (#[trigger] e.groups[h].members[i]).session_id,
    ) && e.sessions[e.groups[h].members[i].session_id] == h by {
        if h == g {
            if i < base.len() {
                assert(group.members[i] == base[i]);
                let q = l.groups[g].members[i].session_id;
                assert(l.sessions.contains_key(q));
            }
        } else {
            assert(e.groups[h] == l.groups[h]);
            let q = l.groups[h].members[i].session_id;
            assert(l.sessions.contains_key(q));
        }
    }
}

/// A playback request keeps the registry consistent.
pub proof fn law_handling_is_consistent(
    v: RegistryView,
    s: Seq<char>,
    request: PlaybackRequest,
    fresh: Seq<SyncPlayQueueItem>,
    now: Timestamp,
)
    requires
        v.consistent(),
    ensures
        v.handled(s, request, fresh, now).consistent(),
{
    let h = v.handled(s, request, fresh, now);
    if v.sessions.contains_key(s) {
        let g = v.sessions[s];
        let before = v.groups[g].members;
        let after = h.groups[g].members;
        law_requests_keep_members(v.requested(s, request), request, fresh, now);
        assert(after.len() == before.len());
        assert forall|i: int| 0 <= i < after.len() implies (#[trigger] after[i]).session_id
            == before[i].session_id by {
            assert(v.requested(s, request).members[i].session_id == before[i].session_id);
        }
        assert(distinct_members(after)) by {
            assert forall|i: int, j: int| 0 <= i < j < after.len() implies (
            #[trigger] after[i]).session_id != (#[trigger] after[j]).session_id by {
                assert(before[i].session_id != before[j].session_id);
            }
        }
        assert forall|q: Seq<char>| #[trigger] h.sessions.contains_key(q) implies h.groups.contains_key(
            h.sessions[q],
        ) && has_member(h.groups[h.sessions[q]].members, q) by {
            assert(v.sessions.contains_key(q));
            if v.sessions[q] == g {
                let k = choose|k: int| 0 <= k < before.len() && (#[trigger] before[k]).session_id == q;
                assert(after[k].session_id == q);
            }
        }
        assert forall|f: Guid, i: int|
            h.groups.contains_key(f) && 0 <= i < h.groups[f].members.len() implies h.sessions.contains_key(
        (#[trigger] h.groups[f].members[i]).session_id) && h.sessions[h.groups[f].members[i].session_id]
            == f by {
            if f == g {
                assert(v.sessions.contains_key(before[i].session_id));
            } else {
                assert(h.groups[f] == v.groups[f]);
                assert(v.sessions.contains_key(v.groups[f].members[i].session_id));
            }
        }
    }
}

proof fn lemma_group_views_insert(m: Map<Guid, Group>, k: Guid, g: Group)
    ensures
        group_views(m.insert(k, g)) == group_views(m).insert(k, g@),
{
    assert(group_views(m.insert(k, g)) =~= group_views(m).insert(k, g@));
}

proof fn lemma_group_views_remove(m: Map<Guid, Group>, k: Guid)
    ensures
        group_views(m.remove(k)) == group_views(m).remove(k),
{
    assert(group_views(m.remove(k)) =~= group_views(m).remove(k));
}

// ---------------------------------------------------------------------------
// The registry's operations
// ---------------------------------------------------------------------------
impl HermitSyncPlayManager {
    /// The tables hold each key once, every queue is valid, and the registry is
    /// consistent.
    pub open spec fn wf(&self) -> bool {
        &&& self.groups.wf()
        &&& self.session_to_group.wf()
        &&& self.active_users.wf()
        &&& forall|g: Guid| #[trigger]
            self.groups@.contains_key(g) ==> self.groups@[g].wf()
        &&& self@.consistent()
    }

    /// A registry without groups.
    pub fn new() -> (r: Self)
        ensures
            r.wf(),
            r@.groups == Map::<Guid, GroupView>::empty(),
            r@.sessions == Map::<Seq<char>, Guid>::empty(),
            r@.users == Map::<Guid, u32>::empty(),
    {
        let r: HermitSyncPlayManager = HermitSyncPlayManager {
            groups: Table::new(),
            session_to_group: Table::new(),
            active_users: Table::new(),
        };
        assert(r@.groups =~= Map::<Guid, GroupView>::empty());
        r
    }

    fn decrement_user(&mut self, user_id: Guid)
        requires
            old(self).active_users.wf(),
        ensures
            final(self).active_users.wf(),
            final(self)@.users == lowered(old(self)@.users, user_id),
            final(self).groups == old(self).groups,
            final(self).session_to_group == old(self).session_to_group,
    {
        let count: Option<u32> = self.active_users.remove(&user_id);
        if let Some(n) = count {
            if n > 1 {
                self.active_users.insert(user_id, n - 1);
                assert(self.active_users@ =~= lowered(old(self)@.users, user_id));
            }
        }
    }

    fn increment_user(&mut self, user_id: Guid)
        requires
            old(self).active_users.wf(),
            count_of(old(self)@.users, user_id) < u32::MAX,
        ensures
            final(self).active_users.wf(),
            final(self)@.users == raised(old(self)@.users, user_id),
            final(self).groups == old(self).groups,
            final(self).session_to_group == old(self).session_to_group,
    {
        let count: u32 = match self.active_users.get(&user_id) {
            Some(n) => *n,
            None => 0,
        };
        self.active_users.insert(user_id, count + 1);
    }

    /// Takes a session out of whatever group it is in; the members that are left
    /// in that group, and its id. Where a time is given, the group notes it.
    fn leave(&mut self, session: &SyncPlaySession, at: Option<Timestamp>) -> (r: Option<
        (Guid, Vec<String>),
    >)
        requires
            old(self).wf(),
        ensures
            final(self).wf(),
            final(self)@ == old(self)@.left(*session, at),
            match r {
                Some((g, others)) => old(self)@.sessions.contains_key(session.session_id@) && g
                    == old(self)@.sessions[session.session_id@] && texts(others@) == sessions_of(
                    other_members(old(self)@.groups[g].members, session.session_id@),
                ),
                None => !old(self)@.sessions.contains_key(session.session_id@),
            },
    {
        let ghost v = self@;
        proof {
            law_leaving_is_consistent(v, *session, at);
        }
        match self.session_to_group.remove(&session.session_id) {
            None => None,
            Some(group_id) => {
                assert(v.groups.contains_key(group_id));
                let mut others: Vec<String> = Vec::new();
                let ghost tables = self.groups@;
                let taken: Option<Group> = self.groups.remove(&group_id);
                if let Some(mut group) = taken {
                    group.remove_member(session.session_id.as_str());
                    if let Some(t) = at {
                        group.last_updated = t;
                    }
                    others = member_sessions(&group);
                    if !group.is_empty() {
                        let ghost g1 = group;
                        self.groups.insert(group_id, group);
                        proof {
                            lemma_group_views_insert(tables.remove(group_id), group_id, g1);
                            lemma_group_views_remove(tables, group_id);
                            assert(self@.groups =~= v.groups_without(
                                group_id,
                                session.session_id@,
                                at,
                            ));
                        }
                    } else {
                        proof {
                            lemma_group_views_remove(tables, group_id);
                        }
                    }
                }
                self.decrement_user(session.user_id);
                assert(self@.groups =~= v.left(*session, at).groups);
                Some((group_id, others))
            },
        }
    }

    /// Founds a group with the session as its only member. Its id is random;
    /// apart from that the outcome is fixed (see `create_group`).
    pub fn new_group(&mut self, session: &SyncPlaySession, group_name: &str, now: Timestamp) -> (r: (
        GroupInfo,
        Vec<Announcement>,
    ))
        requires
            old(self).wf(),
            old(self)@.can_enter(*session),
        ensures
            r.0.group_id.value != 0,
            ({
                let g = r.0.group_id;
                let group = RegistryView::founded(*session, g, group_name@, now);
                &&& final(self)@ == old(self)@.entered(*session, g, group)
                &&& r.0@ == group.info()
                &&& announcements(r.1@) == seq![
                    AnnouncementView {
                        notice: NoticeView::GroupJoined { group_id: g, info: group.info() },
                        to: seq![session.session_id@],
                    },
                ]
                &&& !old(self)@.left(*session, None).groups.contains_key(g) ==> final(self).wf()
            }),
    {
        self.create_group(session, group_name, new_guid(), now)
    }

    /// Founds a group with the given id and with the session as its only member,
    /// after the session has left any other group.
    pub fn create_group(
        &mut self,
        session: &SyncPlaySession,
        group_name: &str,
        group_id: Guid,
        now: Timestamp,
    ) -> (r: (GroupInfo, Vec<Announcement>))
        requires
            old(self).wf(),
            old(self)@.can_enter(*session),
        ensures
            ({
                let group = RegistryView::founded(*session, group_id, group_name@, now);
                &&& final(self)@ == old(self)@.entered(*session, group_id, group)
                &&& r.0.group_id == group_id
                &&& r.0@ == group.info()
                &&& announcements(r.1@) == seq![
                    AnnouncementView {
                        notice: NoticeView::GroupJoined { group_id, info: group.info() },
                        to: seq![session.session_id@],
                    },
                ]
                &&& !old(self)@.left(*session, None).groups.contains_key(group_id) ==> final(self).wf()
            }),
    {
        let ghost v = self@;
        let _left = self.leave(session, None);
        let ghost l = *self;
        let mut group: Group = Group::new(group_id, trim(group_name), now);
        assert(!has_member(group@.members, session.session_id@));
        group.add_member(session);
        let ghost founded = RegistryView::founded(*session, group_id, group_name@, now);
        assert(group@.members =~= seq![new_member(*session)]);
        let ghost g1 = group;
        let info: GroupInfo = group.info();
        let told: GroupInfo = group.info();
        self.groups.insert(group_id, group);
        self.session_to_group.insert(session.session_id.clone(), group_id);
        self.increment_user(session.user_id);
        proof {
            lemma_group_views_insert(l.groups@, group_id, g1);
            if !l@.groups.contains_key(group_id) {
                law_entering_is_consistent(v, *session, group_id, founded);
            }
        }
        let to: Vec<String> = vec![session.session_id.clone()];
        assert(texts(to@) =~= seq![session.session_id@]);
        let news: Vec<Announcement> = vec![
            Announcement { notice: Notice::GroupJoined { group_id, info: told }, to },
        ];
        assert(announcements(news@) =~= seq![
            AnnouncementView {
                notice: NoticeView::GroupJoined { group_id, info: founded.info() },
                to: seq![session.session_id@],
            },
        ]);
        (info, news)
    }

    /// Whether one more session of the user can be counted, once the session has
    /// left its group.
    pub fn can_enter(&self, session: &SyncPlaySession) -> (r: bool)
        requires
            self.wf(),
        ensures
            r == self@.can_enter(*session),
    {
        let count: u32 = match self.active_users.get(&session.user_id) {
            Some(n) => *n,
            None => 0,
        };
        count < u32::MAX || self.session_to_group.contains(&session.session_id)
    }

    /// Whether the session is the only member of a group.
    pub fn is_alone_in(&self, session: &SyncPlaySession, group_id: Guid) -> (r: bool)
        requires
            self.wf(),
        ensures
            r == self@.alone_in(session.session_id@, group_id),
    {
        match self.session_to_group.get(&session.session_id) {
            Some(g) => match self.groups.get(g) {
                Some(group) => {
                    let others: Vec<String> = other_sessions(group, session.session_id.as_str());
                    assert(texts(others@).len() == others@.len());
                    g.value == group_id.value && others.len() == 0
                },
                None => {
                    assert(self@.groups.contains_key(*g));
                    false
                },
            },
            None => false,
        }
    }

    /// Has a session join a group, after it has left any other. A session that
    /// asks for a group that does not exist is told so.
    pub fn join_group(&mut self, session: &SyncPlaySession, group_id: Guid, now: Timestamp) -> (r:
        Vec<Announcement>)
        requires
            old(self).wf(),
            !old(self)@.alone_in(session.session_id@, group_id),
            old(self)@.groups.contains_key(group_id) ==> old(self)@.can_enter(*session),
        ensures
            final(self).wf(),
            !old(self)@.groups.contains_key(group_id) ==> final(self)@ == old(self)@
                && announcements(r@) == seq![
                AnnouncementView {
                    notice: NoticeView::GroupDoesNotExist { group_id },
                    to: seq![session.session_id@],
                },
            ],
            old(self)@.groups.contains_key(group_id) ==> ({
                let group = old(self)@.with_joined(*session, group_id, now);
                &&& final(self)@ == old(self)@.entered(*session, group_id, group)
                &&& announcements(r@) == seq![
                    AnnouncementView {
                        notice: NoticeView::GroupJoined { group_id, info: group.info() },
                        to: seq![session.session_id@],
                    },
                    AnnouncementView {
                        notice: NoticeView::UserJoined {
                            group_id,
                            user_name: session.user_name@,
                        },
                        to: sessions_of(other_members(group.members, session.session_id@)),
                    },
                ]
            }),
    {
        let ghost v = self@;
        let to: Vec<String> = vec![session.session_id.clone()];
        assert(texts(to@) =~= seq![session.session_id@]);
        if !self.groups.contains(&group_id) {
            let news: Vec<Announcement> = vec![
                Announcement { notice: Notice::GroupDoesNotExist { group_id }, to },
            ];
            assert(announcements(news@) =~= seq![
                AnnouncementView {
                    notice: NoticeView::GroupDoesNotExist { group_id },
                    to: seq![session.session_id@],
                },
            ]);
            return news;
        }
        let _left = self.leave(session, None);
        let ghost l = *self;
        assert(l@.groups.contains_key(group_id));
        match self.groups.remove(&group_id) {
            Some(mut group) => {
                assert(group@ == l@.groups[group_id]);
                group.add_member(session);
                group.last_updated = now;
                let info: GroupInfo = group.info();
                let others: Vec<String> = other_sessions(&group, session.session_id.as_str());
                let ghost g1 = group;
                assert(g1@ == v.with_joined(*session, group_id, now));
                self.groups.insert(group_id, group);
                self.session_to_group.insert(session.session_id.clone(), group_id);
                self.increment_user(session.user_id);
                proof {
                    lemma_group_views_insert(l.groups@.remove(group_id), group_id, g1);
                    lemma_group_views_remove(l.groups@, group_id);
                    assert(self@.groups =~= v.entered(*session, group_id, g1@).groups);
                    law_entering_is_consistent(v, *session, group_id, g1@);
                }
                let news: Vec<Announcement> = vec![
                    Announcement { notice: Notice::GroupJoined { group_id, info }, to },
                    Announcement {
                        notice: Notice::UserJoined {
                            group_id,
                            user_name: session.user_name.clone(),
                        },
                        to: others,
                    },
                ];
                assert(announcements(news@) =~= seq![
                    AnnouncementView {
                        notice: NoticeView::GroupJoined { group_id, info: g1@.info() },
                        to: seq![session.session_id@],
                    },
                    AnnouncementView {
                        notice: NoticeView::UserJoined {
                            group_id,
                            user_name: session.user_name@,
                        },
                        to: sessions_of(other_members(g1@.members, session.session_id@)),
                    },
                ]);
                news
            },
            None => Vec::new(),
        }
    }

    /// Has a session leave its group. A session that is in none is told so.
    pub fn leave_group(&mut self, session: &SyncPlaySession, now: Timestamp) -> (r: Vec<
        Announcement,
    >)
        requires
            old(self).wf(),
        ensures
            final(self).wf(),
            final(self)@ == old(self)@.left(*session, Some(now)),
            announcements(r@) == if old(self)@.sessions.contains_key(session.session_id@) {
                let g = old(self)@.sessions[session.session_id@];
                seq![
                    AnnouncementView {
                        notice: NoticeView::GroupLeft { group_id: g },
                        to: seq![session.session_id@],
                    },
                    AnnouncementView {
                        notice: NoticeView::UserLeft {
                            group_id: g,
                            user_name: session.user_name@,
                        },
                        to: sessions_of(
                            other_members(old(self)@.groups[g].members, session.session_id@),
                        ),
                    },
                ]
            } else {
                seq![
                    AnnouncementView {
                        notice: NoticeView::NotInGroup,
                        to: seq![session.session_id@],
                    },
                ]
            },
    {
        let ghost v = self@;
        let to: Vec<String> = vec![session.session_id.clone()];
        assert(texts(to@) =~= seq![session.session_id@]);
        match self.leave(session, Some(now)) {
            Some((group_id, others)) => {
                let news: Vec<Announcement> = vec![
                    Announcement { notice: Notice::GroupLeft { group_id }, to },
                    Announcement {
                        notice: Notice::UserLeft {
                            group_id,
                            user_name: session.user_name.clone(),
                        },
                        to: others,
                    },
                ];
                assert(announcements(news@) =~= seq![
                    AnnouncementView {
                        notice: NoticeView::GroupLeft { group_id },
                        to: seq![session.session_id@],
                    },
                    AnnouncementView {
                        notice: NoticeView::UserLeft {
                            group_id,
                            user_name: session.user_name@,
                        },
                        to: sessions_of(
                            other_members(v.groups[group_id].members, session.session_id@),
                        ),
                    },
                ]);
                news
            },
            None => {
                let news: Vec<Announcement> = vec![
                    Announcement { notice: Notice::NotInGroup, to },
                ];
                assert(announcements(news@) =~= seq![
                    AnnouncementView {
                        notice: NoticeView::NotInGroup,
                        to: seq![session.session_id@],
                    },
                ]);
                news
            },
        }
    }

    /// What others see of a group.
    pub fn get_group(&self, group_id: Guid) -> (r: Result<GroupInfo, ServiceError>)
        requires
            self.wf(),
        ensures
            match r {
                Ok(info) => self@.groups.contains_key(group_id) && info@
                    == self@.groups[group_id].info(),
                Err(e) => !self@.groups.contains_key(group_id) && e@ == ErrorView::NotFound(
                    "sync-play group "@ + hyphenated_text(group_id.value),
                ),
            },
    {
        match self.groups.get(&group_id) {
            Some(group) => Ok(group.info()),
            None => Err(
                ServiceError::NotFound(
                    concat("sync-play group ", guid_text(group_id).as_str()),
                ),
            ),
        }
    }

    /// Whether a session of the user takes part in group playback.
    pub fn is_user_active(&self, user_id: Guid) -> (r: bool)
        requires
            self.wf(),
        ensures
            r == (count_of(self@.users, user_id) > 0),
    {
        match self.active_users.get(&user_id) {
            Some(n) => *n > 0,
            None => false,
        }
    }

    /// What others see of all groups, by ascending id.
    pub fn list_groups(&self) -> (r: Vec<GroupInfo>)
        requires
            self.wf(),
        ensures
            forall|i: int, j: int|
                0 <= i < j < r@.len() ==> (#[trigger] r@[i]).group_id.value < (
                #[trigger] r@[j]).group_id.value,
            forall|i: int|
                0 <= i < r@.len() ==> self@.groups.contains_key((#[trigger] r@[i]).group_id)
                    && r@[i]@ == self@.groups[r@[i].group_id].info(),
            forall|g: Guid| #[trigger]
                self@.groups.contains_key(g) ==> exists|i: int|
                    0 <= i < r@.len() && (#[trigger] r@[i]).group_id == g,
    {
        let mut infos: Vec<GroupInfo> = Vec::new();
        let mut i: usize = 0;
        while i < self.groups.entries.len()
            invariant
                self.wf(),
                i <= self.groups.entries.len(),
                infos@.len() == i,
                forall|j: int|
                    0 <= j < i ==> (#[trigger] infos@[j])@ == self.groups.entries@[j].1@.info(),
            decreases self.groups.entries.len() - i,
        {
            infos.push(self.groups.entries[i].1.info());
            i += 1;
        }
        let ghost all = infos@;
        let ghost less = |a: GroupInfo, b: GroupInfo| a.group_id.value < b.group_id.value;
        let before = |a: &GroupInfo, b: &GroupInfo| -> (c: bool)
            ensures
                c == (a.group_id.value < b.group_id.value),
            { a.group_id.value < b.group_id.value };
        let r: Vec<GroupInfo> = sort_by(infos, before, Ghost(less));
        proof {
            assert forall|j: int| 0 <= j < all.len() implies self@.groups.contains_key(
                (#[trigger] all[j]).group_id,
            ) && all[j]@ == self@.groups[all[j].group_id].info() && all[j].group_id
                == self.groups.entries@[j].0 by {
                lemma_table_entry(self.groups, j);
                let g = self.groups.entries@[j].0;
                assert(self.groups@.contains_key(g));
                assert(self@.groups[g] == self.groups.entries@[j].1@);
                assert(all[j]@ == self.groups.entries@[j].1@.info());
                assert(all[j]@.group_id == all[j].group_id);
            }
            lemma_listing(all, r@, less);
            assert forall|g: Guid| #[trigger] self@.groups.contains_key(g) implies exists|i: int|
                0 <= i < r@.len() && (#[trigger] r@[i]).group_id == g by {
                assert(self.groups.has(g));
                let j = choose|j: int| self.groups.at(j, g);
                assert(all[j].group_id == g);
                assert(r@.contains(all[j]));
            }
            assert forall|i: int| 0 <= i < r@.len() implies self@.groups.contains_key(
                (#[trigger] r@[i]).group_id,
            ) && r@[i]@ == self@.groups[r@[i].group_id].info() by {
                assert(all.contains(r@[i]));
            }
        }
        r
    }

    /// Whether a request stays within what the machine's numbers and the calendar
    /// can hold.
    pub fn can_handle_request(
        &self,
        session: &SyncPlaySession,
        request: &PlaybackRequest,
        now: Timestamp,
    ) -> (r: bool)
        requires
            self.wf(),
        ensures
            r == self@.manageable(session.session_id@, *request, now),
    {
        match self.session_to_group.get(&session.session_id) {
            Some(group_id) => match self.groups.get(group_id) {
                Some(group) => {
                    proof {
                        lemma_touching_keeps_manageable(
                            group@,
                            session.session_id@,
                            *request,
                            now,
                        );
                    }
                    group.can_handle(request, now)
                },
                None => {
                    assert(self@.groups.contains_key(*group_id));
                    false
                },
            },
            None => true,
        }
    }

    /// Handles a member's playback request. New queue entries get random ids;
    /// apart from those, the outcome is fixed by `handled` and the group's
    /// `replies`.
    pub fn handle_request(
        &mut self,
        session: &SyncPlaySession,
        request: &PlaybackRequest,
        now: Timestamp,
    ) -> (r: RequestOutcome)
        requires
            old(self).wf(),
            old(self)@.manageable(session.session_id@, *request, now),
        ensures
            final(self).wf(),
            match r {
                RequestOutcome::NotInGroup => !old(self)@.sessions.contains_key(
                    session.session_id@,
                ) && final(self)@ == old(self)@,
                RequestOutcome::Handled { messages, deliveries } => {
                    &&& old(self)@.sessions.contains_key(session.session_id@)
                    &&& exists|fresh: Seq<SyncPlayQueueItem>|
                        #[trigger] entries_for(fresh, items_brought(*request)) && all_identified(
                            fresh,
                        ) && final(self)@ == old(self)@.handled(
                            session.session_id@,
                            *request,
                            fresh,
                            now,
                        ) && outbounds(messages@) == old(self)@.requested(
                            session.session_id@,
                            *request,
                        ).replies(*request, fresh, now)
                    &&& delivery_views(deliveries@) == all_deliveries(
                        outbounds(messages@),
                        final(self)@.groups[old(self)@.sessions[session.session_id@]].members,
                        session.session_id@,
                    )
                },
            },
    {
        let ghost v = self@;
        let ghost s = session.session_id@;
        let group_id: Guid = match self.session_to_group.get(&session.session_id) {
            Some(g) => *g,
            None => {
                return RequestOutcome::NotInGroup;
            },
        };
        assert(v.groups.contains_key(group_id));
        let ghost tables = self.groups@;
        match self.groups.remove(&group_id) {
            Some(mut group) => {
                assert(group.wf());
                touch_member(&mut group, session.session_id.as_str(), request);
                assert(group@ == v.requested(s, *request));
                let messages: Vec<Outbound> = group.handle(request, now);
                let deliveries: Vec<Delivery> = plan_deliveries(
                    &group,
                    session.session_id.as_str(),
                    messages.as_slice(),
                );
                let ghost g1 = group;
                self.groups.insert(group_id, group);
                proof {
                    let fresh = choose|fresh: Seq<SyncPlayQueueItem>|
                        #[trigger] entries_for(fresh, items_brought(*request)) && all_identified(
                            fresh,
                        ) && g1@ == v.requested(s, *request).after(*request, fresh, now) && outbounds(
                            messages@,
                        ) == v.requested(s, *request).replies(*request, fresh, now);
                    lemma_group_views_insert(tables.remove(group_id), group_id, g1);
                    lemma_group_views_remove(tables, group_id);
                    assert(self@.groups =~= v.handled(s, *request, fresh, now).groups);
                    law_handling_is_consistent(v, s, *request, fresh, now);
                    assert(self@ == v.handled(s, *request, fresh, now));
                }
                RequestOutcome::Handled { messages, deliveries }
            },
            None => RequestOutcome::NotInGroup,
        }
    }
}

/// A message to a member with the given id.
pub open spec fn message_with(message_type: Seq<char>, id: Guid, data: Seq<char>) -> Seq<char> {
    sorted_envelope(message_type, hyphenated_text(id.value), data)
}

/// A message to a member, with its payload given in JSON. Its id is random, and
/// written with hyphens; apart from that the message is fixed.
pub fn sync_play_message(message_type: &str, data: &str) -> (r: String)
    ensures
        exists|id: Guid|
            id.value != 0 && r@ == #[trigger] message_with(message_type@, id, data@),
{
    let id: Guid = new_guid();
    let r: String = sorted_envelope_text(message_type, guid_text(id).as_str(), data);
    assert(r@ == message_with(message_type@, id, data@));
    r
}

proof fn lemma_listing(
    all: Seq<GroupInfo>,
    r: Seq<GroupInfo>,
    less: spec_fn(GroupInfo, GroupInfo) -> bool,
)
    requires
        less == (|a: GroupInfo, b: GroupInfo| a.group_id.value < b.group_id.value),
        r == sorted(all, less),
        forall|i: int, j: int|
            0 <= i < j < all.len() ==> (#[trigger] all[i]).group_id != (#[trigger] all[j]).group_id,
    ensures
        forall|x: GroupInfo| #![trigger all.contains(x)] #![trigger r.contains(x)] all.contains(x) <==> r.contains(x),
        forall|i: int, j: int|
            0 <= i < j < r.len() ==> (#[trigger] r[i]).group_id.value < (
            #[trigger] r[j]).group_id.value,
{
    broadcast use vstd::seq_lib::group_to_multiset_ensures;

    law_sorted(all, less);
    assert(is_order(less));
    assert(all.no_duplicates()) by {
        assert forall|i: int, j: int| 0 <= i < all.len() && 0 <= j < all.len() && i != j implies all[i]
            != all[j] by {
            if i < j {
                assert(all[i].group_id != all[j].group_id);
            } else {
                assert(all[j].group_id != all[i].group_id);
            }
        }
    }
    assert forall|x: GroupInfo| all.contains(x) <==> r.contains(x) by {
        assert(all.contains(x) <==> all.to_multiset().count(x) > 0);
        assert(r.contains(x) <==> r.to_multiset().count(x) > 0);
    }
    all.lemma_multiset_has_no_duplicates();
    r.lemma_multiset_has_no_duplicates_conv();
    assert forall|i: int, j: int| 0 <= i < j < r.len() implies (#[trigger] r[i]).group_id.value < (
    #[trigger] r[j]).group_id.value by {
        assert(!less(r[j], r[i]));
        if r[i].group_id.value == r[j].group_id.value {
            assert(all.contains(r[i]) && all.contains(r[j]));
            let a = choose|a: int| 0 <= a < all.len() && all[a] == r[i];
            let b = choose|b: int| 0 <= b < all.len() && all[b] == r[j];
            assert(all[a].group_id == all[b].group_id);
            assert(a == b);
            assert(r[i] == r[j]);
        }
    }
}

fn member_sessions(group: &Group) -> (r: Vec<String>)
    ensures
        texts(r@) == sessions_of(group@.members),
{
    let mut out: Vec<String> = Vec::new();
    let mut i: usize = 0;
    while i < group.members.len()
        invariant
            i <= group.members.len(),
            out@.len() == i,
            forall|j: int| 0 <= j < i ==> (#[trigger] out@[j])@ == group.members@[j].session_id@,
        decreases group.members.len() - i,
    {
        out.push(group.members[i].session_id.clone());
        i += 1;
    }
    assert(texts(out@) =~= sessions_of(group@.members));
    out
}

fn other_sessions(group: &Group, session_id: &str) -> (r: Vec<String>)
    ensures
        texts(r@) == sessions_of(other_members(group@.members, session_id@)),
{
    let ghost all = group@.members;
    let mut out: Vec<String> = Vec::new();
    let mut i: usize = 0;
    assert(texts(out@) =~= sessions_of(other_members(all.take(0), session_id@)));
    while i < group.members.len()
        invariant
            i <= group.members.len(),
            all == group@.members,
            texts(out@) == sessions_of(other_members(all.take(i as int), session_id@)),
        decreases group.members.len() - i,
    {
        let ghost before = other_members(all.take(i as int), session_id@);
        let ghost sent = texts(out@);
        assert(all.take(i + 1).drop_last() =~= all.take(i as int));
        assert(all.take(i + 1).last() == group.members@[i as int]@);
        if !same_text(group.members[i].session_id.as_str(), session_id) {
            out.push(group.members[i].session_id.clone());
            assert(texts(out@) =~= sent.push(group.members@[i as int].session_id@));
            assert(sessions_of(before.push(group.members@[i as int]@)) =~= sessions_of(before).push(
                group.members@[i as int].session_id@,
            ));
        }
        i += 1;
    }
    assert(all.take(all.len() as int) =~= all);
    out
}

fn touch_member(group: &mut Group, session_id: &str, request: &PlaybackRequest)
    ensures
        final(group)@ == touched(old(group)@, session_id@, *request),
        final(group).queue == old(group).queue,
{
    let ghost start = *group;
    let mut i: usize = 0;
    while i < group.members.len() && !same_text(group.members[i].session_id.as_str(), session_id)
        invariant
            i <= group.members@.len(),
            *group == start,
            forall|j: int| 0 <= j < i ==> (#[trigger] start@.members[j]).session_id != session_id@,
        decreases group.members.len() - i,
    {
        assert(start@.members[i as int].session_id == group.members@[i as int].session_id@);
        i += 1;
    }
    if i < group.members.len() {
        assert(is_first_member(start@.members, i as int, session_id@));
        match request {
            PlaybackRequest::Ping { ping } => {
                group.members[i].ping_ms = if *ping < 0 {
                    0
                } else {
                    *ping
                };
            },
            PlaybackRequest::IgnoreWait { ignore_wait } => {
                group.members[i].ignore_wait = *ignore_wait;
            },
            PlaybackRequest::Buffer { .. } => {
                group.members[i].is_buffering = true;
            },
            PlaybackRequest::Ready { .. } => {
                group.members[i].is_buffering = false;
            },
            _ => {},
        }
    }
    proof {
        let t = touched(start@, session_id@, *request);
        assert forall|j: int| 0 <= j < start@.members.len() implies group@.members[j]
            == #[trigger] t.members[j] by {
            if j == i {
                assert(is_first_member(start@.members, j, session_id@));
            } else if j > i {
                assert(start@.members[i as int].session_id == session_id@);
                assert(!is_first_member(start@.members, j, session_id@));
            } else {
                assert(!is_first_member(start@.members, j, session_id@));
            }
        }
        assert(group@.members =~= t.members);
    }
}

/// Who gets which of the group's messages.
fn plan_deliveries(group: &Group, from_session: &str, outbound: &[Outbound]) -> (r: Vec<Delivery>)
    ensures
        delivery_views(r@) == all_deliveries(
            outbounds(outbound@),
            group@.members,
            from_session@,
        ),
{
    let ghost out = outbounds(outbound@);
    let ghost members = group@.members;
    let mut r: Vec<Delivery> = Vec::new();
    let mut n: usize = 0;
    assert(delivery_views(r@) =~= all_deliveries(out.take(0), members, from_session@));
    while n < outbound.len()
        invariant
            n <= outbound.len(),
            out == outbounds(outbound@),
            members == group@.members,
            delivery_views(r@) == all_deliveries(out.take(n as int), members, from_session@),
        decreases outbound.len() - n,
    {
        let ghost head = delivery_views(r@);
        assert(out.take(n + 1).drop_last() =~= out.take(n as int));
        assert(out.take(n + 1).last() == outbound@[n as int]@);
        let target: Target = outbound[n].target;
        let mut i: usize = 0;
        assert(head + deliveries_of(n as int, target, members.take(0), from_session@) =~= head);
        while i < group.members.len()
            invariant
                i <= group.members.len(),
                n < outbound@.len(),
                members == group@.members,
                delivery_views(r@) == head + deliveries_of(
                    n as int,
                    target,
                    members.take(i as int),
                    from_session@,
                ),
            decreases group.members.len() - i,
        {
            let ghost before = delivery_views(r@);
            let m: &GroupMember = &group.members[i];
            assert(members.take(i + 1).drop_last() =~= members.take(i as int));
            assert(members.take(i + 1).last() == m@);
            let wanted: bool = match target {
                Target::AllGroup => true,
                Target::CurrentSession => same_text(m.session_id.as_str(), from_session),
                Target::AllReady => !m.is_buffering,
            };
            if wanted {
                r.push(Delivery { message: n, session_id: m.session_id.clone() });
                assert(delivery_views(r@) =~= before.push((n as int, m.session_id@)));
                assert(before.push((n as int, m.session_id@)) =~= head + deliveries_of(
                    n as int,
                    target,
                    members.take(i as int),
                    from_session@,
                ).push((n as int, m.session_id@)));
            }
            i += 1;
        }
        assert(members.take(members.len() as int) =~= members);
        n += 1;
    }
    assert(out.take(out.len() as int) =~= out);
    r
}

/// A message to the group goes to each of its members; one to the session that asked goes to it
/// alone; and one to those that are ready goes to each member that is not buffering.
pub proof fn law_messages_go_to_those_they_are_for(
    n: int,
    members: Seq<MemberView>,
    from: Seq<char>,
    to: Seq<char>,
)
    ensures
        deliveries_of(n, Target::AllGroup, members, from).contains((n, to)) <==> exists|i: int|
            0 <= i < members.len() && (#[trigger] members[i]).session_id == to,
        deliveries_of(n, Target::CurrentSession, members, from).contains((n, to)) <==> to == from
            && exists|i: int| 0 <= i < members.len() && (#[trigger] members[i]).session_id == to,
        deliveries_of(n, Target::AllReady, members, from).contains((n, to)) <==> exists|i: int|
            0 <= i < members.len() && (#[trigger] members[i]).session_id == to
                && !members[i].is_buffering,
{
    lemma_deliveries_of(n, Target::AllGroup, members, from, to);
    lemma_deliveries_of(n, Target::CurrentSession, members, from, to);
    lemma_deliveries_of(n, Target::AllReady, members, from, to);
}

proof fn lemma_deliveries_of(
    n: int,
    target: Target,
    members: Seq<MemberView>,
    from: Seq<char>,
    to: Seq<char>,
)
    ensures
        deliveries_of(n, target, members, from).contains((n, to)) <==> exists|i: int|
            0 <= i < members.len() && (#[trigger] members[i]).session_id == to && is_addressed(
                target,
                members[i],
                from,
            ),
    decreases members.len(),
{
    if members.len() > 0 {
        let rest = members.drop_last();
        let k = rest.len() as int;
        lemma_deliveries_of(n, target, rest, from, to);
        let head = deliveries_of(n, target, rest, from);
        let all = deliveries_of(n, target, members, from);
        assert(members[k] == members.last());
        assert forall|i: int| 0 <= i < k implies #[trigger] members[i] == rest[i] by {}
        if is_addressed(target, members.last(), from) {
            assert(all =~= head.push((n, members.last().session_id)));
            assert(all[head.len() as int] == (n, members.last().session_id));
        }
        if head.contains((n, to)) {
            let j = choose|j: int| 0 <= j < head.len() && head[j] == (n, to);
            assert(all[j] == (n, to));
            let i = choose|i: int|
                0 <= i < rest.len() && (#[trigger] rest[i]).session_id == to && is_addressed(
                    target,
                    rest[i],
                    from,
                );
            assert(members[i].session_id == to);
        }
        if all.contains((n, to)) {
            let j = choose|j: int| 0 <= j < all.len() && all[j] == (n, to);
            if j < head.len() {
                assert(head[j] == (n, to));
            }
        }
        if exists|i: int|
            0 <= i < members.len() && (#[trigger] members[i]).session_id == to && is_addressed(
                target,
                members[i],
                from,
            ) {
            let i = choose|i: int|
                0 <= i < members.len() && (#[trigger] members[i]).session_id == to && is_addressed(
                    target,
                    members[i],
                    from,
                );
            if i < k {
                assert(rest[i].session_id == to);
            }
        }
    }
}

/// A member that buffers says so until it is ready, and what it says of its ping or of waiting
/// is kept of it; its session and its user stay.
pub proof fn law_members_are_as_they_say(m: MemberView, request: PlaybackRequest)
    ensures
        touched_member(m, request).session_id == m.session_id,
        request is Buffer ==> touched_member(m, request).is_buffering,
        request is Ready ==> !touched_member(m, request).is_buffering,
        !(request is Buffer) && !(request is Ready) ==> touched_member(m, request).is_buffering
            == m.is_buffering,
        request matches PlaybackRequest::Ping { ping } ==> (ping >= 0 ==> touched_member(
            m,
            request,
        ).ping_ms == ping) && (ping < 0 ==> touched_member(m, request).ping_ms == 0),
        !(request is Ping) ==> touched_member(m, request).ping_ms == m.ping_ms,
        request matches PlaybackRequest::IgnoreWait { ignore_wait } ==> touched_member(
            m,
            request,
        ).ignore_wait == ignore_wait,
        !(request is IgnoreWait) ==> touched_member(m, request).ignore_wait == m.ignore_wait,
{
}

} // verus!
