//! A group that watches together: its members, its queue and its state.
//!
//! A playback request changes the group and yields messages to its members. The
//! server plays nothing itself: members synchronize on the point in time at which
//! a command is to be carried out, which lies a latency cushion ahead.
use vstd::prelude::*;

use crate::guid::Guid;
use crate::play_queue::{
    all_identified, clamped, entries_for, fresh_entries, index_of_entry,
    law_moving_keeps_the_entries, law_playing_entry_is_kept, law_removed_entries_are_gone, least,
    lemma_index_of_entry, lemma_without_identified, GroupQueueMode, GroupRepeatMode,
    GroupShuffleMode, PlayQueue, QueueView, SyncPlayQueueItem,
};
use crate::sort::{inserted, sort_by, sorted, text_before, text_less};
use crate::text::{same_text, texts};
use crate::time::{Timestamp, EARLIEST_NANOS, LATEST_NANOS};

verus! {

/// Ticks of a hundred nanoseconds in a millisecond.
pub const TICKS_PER_MS: i64 = 10_000;

/// Nanoseconds in a millisecond.
pub const NANOS_PER_MS: i128 = 1_000_000;

/// The least latency cushion, in milliseconds, and the ping of a new member.
pub const DEFAULT_PING_MS: i64 = 500;

/// The state of a group.
#[derive(Clone, Copy, Debug, PartialEq, Eq, Structural)]
pub enum GroupStateType {
    Idle,
    Waiting,
    Paused,
    Playing,
}

/// Why the play queue changed.
#[derive(Clone, Copy, Debug, PartialEq, Eq, Structural)]
pub enum PlayQueueUpdateReason {
    NewPlaylist,
    SetCurrentItem,
    RemoveItems,
    MoveItem,
    Queue,
    QueueNext,
    NextItem,
    PreviousItem,
    RepeatMode,
    ShuffleMode,
}

/// Which request changed the state.
#[derive(Clone, Copy, Debug, PartialEq, Eq, Structural)]
pub enum PlaybackRequestType {
    Unpause,
    Pause,
    Seek,
    Buffer,
    Ready,
}

/// What a command asks of a player.
#[derive(Clone, Copy, Debug, PartialEq, Eq, Structural)]
pub enum SendCommandType {
    Unpause,
    Pause,
    Stop,
    Seek,
}

/// What a member asks of its group.
#[derive(Debug)]
pub enum PlaybackRequest {
    Play { playing_queue: Vec<Guid>, playing_item_position: i32, start_position_ticks: i64 },
    SetPlaylistItem { playlist_item_id: Guid },
    RemoveFromPlaylist {
        playlist_item_ids: Vec<Guid>,
        clear_playlist: bool,
        clear_playing_item: bool,
    },
    MovePlaylistItem { playlist_item_id: Guid, new_index: i32 },
    Queue { item_ids: Vec<Guid>, mode: GroupQueueMode },
    Unpause,
    Pause,
    Stop,
    Seek { position_ticks: i64 },
    Buffer { when: Timestamp, position_ticks: i64, is_playing: bool, playlist_item_id: Guid },
    Ready { when: Timestamp, position_ticks: i64, is_playing: bool, playlist_item_id: Guid },
    NextItem { playlist_item_id: Guid },
    PreviousItem { playlist_item_id: Guid },
    SetRepeatMode { mode: GroupRepeatMode },
    SetShuffleMode { mode: GroupShuffleMode },
    Ping { ping: i64 },
    IgnoreWait { ignore_wait: bool },
}

/// A command to players.
#[derive(Clone, Copy, Debug, PartialEq, Eq, Structural)]
pub struct SendCommand {
    pub group_id: Guid,
    pub playlist_item_id: Guid,
    /// When the command is to be carried out.
    pub when: Timestamp,
    pub position_ticks: i64,
    pub command: SendCommandType,
    pub emitted_at: Timestamp,
}

/// A change of the play queue.
#[derive(Debug)]
pub struct PlayQueueUpdate {
    pub group_id: Guid,
    pub reason: PlayQueueUpdateReason,
    pub last_update: Timestamp,
    pub playlist: Vec<SyncPlayQueueItem>,
    pub playing_item_index: i32,
    pub start_position_ticks: i64,
    pub is_playing: bool,
    pub shuffle_mode: GroupShuffleMode,
    pub repeat_mode: GroupRepeatMode,
}

/// What a group tells its members.
#[derive(Debug)]
pub enum GroupMessage {
    Command(SendCommand),
    StateUpdate { group_id: Guid, state: GroupStateType, reason: PlaybackRequestType },
    PlayQueue(PlayQueueUpdate),
}

/// What a message stands for.
pub enum MessageView {
    Command(SendCommand),
    StateUpdate { group_id: Guid, state: GroupStateType, reason: PlaybackRequestType },
    PlayQueue {
        group_id: Guid,
        reason: PlayQueueUpdateReason,
        last_update: Timestamp,
        queue: QueueView,
        start_position_ticks: int,
        is_playing: bool,
    },
}

impl View for GroupMessage {
    type V = MessageView;

    open spec fn view(&self) -> MessageView {
        match *self {
            GroupMessage::Command(c) => MessageView::Command(c),
            GroupMessage::StateUpdate { group_id, state, reason } => MessageView::StateUpdate {
                group_id,
                state,
                reason,
            },
            GroupMessage::PlayQueue(u) => MessageView::PlayQueue {
                group_id: u.group_id,
                reason: u.reason,
                last_update: u.last_update,
                queue: QueueView {
                    items: u.playlist@,
                    playing_index: u.playing_item_index as int,
                    shuffle: u.shuffle_mode,
                    repeat: u.repeat_mode,
                },
                start_position_ticks: u.start_position_ticks as int,
                is_playing: u.is_playing,
            },
        }
    }
}

/// To whom a message goes.
#[derive(Clone, Copy, Debug, PartialEq, Eq, Structural)]
pub enum Target {
    /// Every member.
    AllGroup,
    /// Only the member that made the request.
    CurrentSession,
    /// Only members that are not buffering.
    AllReady,
}

/// A message and to whom it goes.
#[derive(Debug)]
pub struct Outbound {
    pub target: Target,
    pub body: GroupMessage,
}

/// What an addressed message stands for.
pub struct OutboundView {
    pub target: Target,
    pub body: MessageView,
}

impl View for Outbound {
    type V = OutboundView;

    open spec fn view(&self) -> OutboundView {
        OutboundView { target: self.target, body: self.body@ }
    }
}

/// What a list of addressed messages stands for.
pub open spec fn outbounds(v: Seq<Outbound>) -> Seq<OutboundView> {
    Seq::new(v.len(), |i: int| v[i]@)
}

/// A message to every member.
pub open spec fn to_all(body: MessageView) -> OutboundView {
    OutboundView { target: Target::AllGroup, body }
}

impl Outbound {
    /// A message to every member.
    pub fn all(body: GroupMessage) -> (r: Self)
        ensures
            r@ == to_all(body@),
    {
        Outbound { target: Target::AllGroup, body }
    }

    /// A message to the given target.
    pub fn to(target: Target, body: GroupMessage) -> (r: Self)
        ensures
            r@ == (OutboundView { target, body: body@ }),
    {
        Outbound { target, body }
    }
}

/// A session that takes part in group playback.
#[derive(Debug, Clone)]
pub struct SyncPlaySession {
    pub session_id: String,
    pub user_id: Guid,
    pub user_name: String,
}

/// A member of a group.
#[derive(Debug)]
pub struct GroupMember {
    pub session_id: String,
    pub user_name: String,
    pub ping_ms: i64,
    pub is_buffering: bool,
    pub ignore_wait: bool,
}

/// What a member stands for.
pub struct MemberView {
    pub session_id: Seq<char>,
    pub user_name: Seq<char>,
    pub ping_ms: int,
    pub is_buffering: bool,
    pub ignore_wait: bool,
}

impl View for GroupMember {
    type V = MemberView;

    open spec fn view(&self) -> MemberView {
        MemberView {
            session_id: self.session_id@,
            user_name: self.user_name@,
            ping_ms: self.ping_ms as int,
            is_buffering: self.is_buffering,
            ignore_wait: self.ignore_wait,
        }
    }
}

/// What a list of members stands for.
pub open spec fn member_views(v: Seq<GroupMember>) -> Seq<MemberView> {
    Seq::new(v.len(), |i: int| v[i]@)
}

/// A group.
#[derive(Debug)]
pub struct Group {
    pub id: Guid,
    pub name: String,
    pub state: GroupStateType,
    pub members: Vec<GroupMember>,
    pub queue: PlayQueue,
    pub position_ticks: i64,
    pub last_activity: Timestamp,
    pub last_updated: Timestamp,
}

/// What a group stands for.
pub struct GroupView {
    pub id: Guid,
    pub name: Seq<char>,
    pub state: GroupStateType,
    pub members: Seq<MemberView>,
    pub queue: QueueView,
    pub position_ticks: int,
    pub last_activity: Timestamp,
    pub last_updated: Timestamp,
}

impl View for Group {
    type V = GroupView;

    open spec fn view(&self) -> GroupView {
        GroupView {
            id: self.id,
            name: self.name@,
            state: self.state,
            members: member_views(self.members@),
            queue: self.queue@,
            position_ticks: self.position_ticks as int,
            last_activity: self.last_activity,
            last_updated: self.last_updated,
        }
    }
}

/// What others see of a group.
#[derive(Debug)]
pub struct GroupInfo {
    pub group_id: Guid,
    pub group_name: String,
    pub state: GroupStateType,
    pub participants: Vec<String>,
    pub last_updated_at: Timestamp,
}

/// What the public description of a group stands for.
pub struct InfoView {
    pub group_id: Guid,
    pub group_name: Seq<char>,
    pub state: GroupStateType,
    pub participants: Seq<Seq<char>>,
    pub last_updated_at: Timestamp,
}

impl View for GroupInfo {
    type V = InfoView;

    open spec fn view(&self) -> InfoView {
        InfoView {
            group_id: self.group_id,
            group_name: self.group_name@,
            state: self.state,
            participants: texts(self.participants@),
            last_updated_at: self.last_updated_at,
        }
    }
}

// ---------------------------------------------------------------------------
// What a request does
// ---------------------------------------------------------------------------
/// The largest ping among the members; zero where there are none.
pub open spec fn highest_ping(members: Seq<MemberView>) -> int
    decreases members.len(),
{
    if members.len() == 0 {
        0
    } else if members.len() == 1 {
        members[0].ping_ms
    } else {
        let head = highest_ping(members.drop_last());
        if members.last().ping_ms > head {
            members.last().ping_ms
        } else {
            head
        }
    }
}

/// The user names of the members.
pub open spec fn names_of(members: Seq<MemberView>) -> Seq<Seq<char>> {
    Seq::new(members.len(), |i: int| members[i].user_name)
}

/// A list without repetitions of the element before.
pub open spec fn deduped(s: Seq<Seq<char>>) -> Seq<Seq<char>>
    decreases s.len(),
{
    if s.len() == 0 {
        Seq::empty()
    } else if s.len() > 1 && s[s.len() - 2] == s.last() {
        deduped(s.drop_last())
    } else {
        deduped(s.drop_last()).push(s.last())
    }
}

/// The order of texts, as a predicate.
pub open spec fn by_text() -> spec_fn(Seq<char>, Seq<char>) -> bool {
    |a: Seq<char>, b: Seq<char>| text_less(a, b)
}

/// Whether some member has the given session.
pub open spec fn has_member(members: Seq<MemberView>, session_id: Seq<char>) -> bool {
    exists|i: int| 0 <= i < members.len() && (#[trigger] members[i]).session_id == session_id
}

/// The members whose session is another.
pub open spec fn other_members(members: Seq<MemberView>, session_id: Seq<char>) -> Seq<MemberView>
    decreases members.len(),
{
    if members.len() == 0 {
        Seq::empty()
    } else if members.last().session_id == session_id {
        other_members(members.drop_last(), session_id)
    } else {
        other_members(members.drop_last(), session_id).push(members.last())
    }
}

/// Every member with the buffering flag set to `buffering`.
pub open spec fn all_buffering(members: Seq<MemberView>, buffering: bool) -> Seq<MemberView> {
    Seq::new(
        members.len(),
        |i: int| MemberView { is_buffering: buffering, ..members[i] },
    )
}

/// `n`, or zero where `n` is negative.
pub open spec fn at_least_zero(n: int) -> int {
    if n < 0 {
        0
    } else {
        n
    }
}

impl GroupView {
    /// The description that others see. Participants are sorted, and each name
    /// occurs once.
    pub open spec fn info(self) -> InfoView {
        InfoView {
            group_id: self.id,
            group_name: self.name,
            state: self.state,
            participants: deduped(sorted(names_of(self.members), by_text())),
            last_updated_at: self.last_updated,
        }
    }

    /// The latency cushion, in milliseconds: twice the highest ping, and no less
    /// than the default.
    pub open spec fn cushion(self) -> int {
        if 2 * highest_ping(self.members) > DEFAULT_PING_MS {
            2 * highest_ping(self.members)
        } else {
            DEFAULT_PING_MS as int
        }
    }

    /// When a command that is given at `now` is to be carried out.
    pub open spec fn scheduled(self, now: Timestamp) -> Timestamp {
        Timestamp { nanos: (now.nanos + self.cushion() * NANOS_PER_MS) as i128 }
    }

    /// Whether that point in time can be reckoned with.
    pub open spec fn can_schedule(self, now: Timestamp) -> bool {
        &&& 2 * highest_ping(self.members) <= i64::MAX
        &&& now.in_calendar()
        &&& now.nanos + self.cushion() * NANOS_PER_MS <= LATEST_NANOS
    }

    /// The ticks played since the last activity, while the group is playing.
    pub open spec fn elapsed_ticks(self, now: Timestamp) -> int {
        if self.state == GroupStateType::Playing && now.nanos > self.last_activity.nanos {
            ((now.nanos - self.last_activity.nanos) / (NANOS_PER_MS as int)) * TICKS_PER_MS
        } else {
            0
        }
    }

    /// The command that this group gives.
    pub open spec fn command(
        self,
        command: SendCommandType,
        when: Timestamp,
        now: Timestamp,
    ) -> MessageView {
        MessageView::Command(
            SendCommand {
                group_id: self.id,
                playlist_item_id: self.queue.playing_id(),
                when,
                position_ticks: self.position_ticks as i64,
                command,
                emitted_at: now,
            },
        )
    }

    /// The news of this group's state.
    pub open spec fn state_news(self, reason: PlaybackRequestType) -> MessageView {
        MessageView::StateUpdate { group_id: self.id, state: self.state, reason }
    }

    /// The news of this group's queue.
    pub open spec fn queue_news(self, reason: PlayQueueUpdateReason, now: Timestamp) -> MessageView {
        MessageView::PlayQueue {
            group_id: self.id,
            reason,
            last_update: now,
            queue: self.queue,
            start_position_ticks: self.position_ticks,
            is_playing: self.state == GroupStateType::Playing,
        }
    }

    /// The group, playing from when the cushion has passed.
    pub open spec fn resumed(self, now: Timestamp) -> GroupView {
        GroupView {
            state: GroupStateType::Playing,
            last_activity: self.scheduled(now),
            ..self
        }
    }

    /// What a request makes of the group. `fresh` are the new queue entries, for
    /// requests that bring some.
    pub open spec fn after(
        self,
        request: PlaybackRequest,
        fresh: Seq<SyncPlayQueueItem>,
        now: Timestamp,
    ) -> GroupView {
        let g = GroupView { last_updated: now, ..self };
        match request {
            PlaybackRequest::Play { playing_queue, playing_item_position, start_position_ticks } => {
                let h = GroupView {
                    queue: g.queue.replaced(fresh, playing_item_position as int),
                    position_ticks: at_least_zero(start_position_ticks as int),
                    ..g
                };
                GroupView { members: all_buffering(g.members, false), ..h.resumed(now) }
            },
            PlaybackRequest::SetPlaylistItem { playlist_item_id } => if g.queue.has_entry(
                playlist_item_id,
            ) {
                GroupView {
                    queue: g.queue.playing_at(playlist_item_id),
                    position_ticks: 0,
                    ..g
                }.resumed(now)
            } else {
                g
            },
            PlaybackRequest::RemoveFromPlaylist {
                playlist_item_ids,
                clear_playlist,
                clear_playing_item,
            } => if clear_playlist {
                GroupView {
                    queue: QueueView::empty(),
                    state: GroupStateType::Idle,
                    position_ticks: 0,
                    ..g
                }
            } else {
                GroupView { queue: g.queue.reduced(playlist_item_ids@), ..g }
            },
            PlaybackRequest::MovePlaylistItem { playlist_item_id, new_index } => GroupView {
                queue: g.queue.rearranged(playlist_item_id, new_index as int),
                ..g
            },
            PlaybackRequest::Queue { item_ids, mode } => GroupView {
                queue: g.queue.extended(fresh, mode),
                ..g
            },
            PlaybackRequest::Unpause => if g.state == GroupStateType::Idle {
                g
            } else {
                g.resumed(now)
            },
            PlaybackRequest::Pause => if g.state == GroupStateType::Idle {
                g
            } else {
                GroupView {
                    position_ticks: g.position_ticks + g.elapsed_ticks(now),
                    state: GroupStateType::Paused,
                    last_activity: now,
                    ..g
                }
            },
            PlaybackRequest::Stop => GroupView { state: GroupStateType::Idle, ..g },
            PlaybackRequest::Seek { position_ticks } => GroupView {
                position_ticks: at_least_zero(position_ticks as int),
                state: GroupStateType::Waiting,
                last_activity: now,
                members: all_buffering(g.members, true),
                ..g
            },
            PlaybackRequest::Buffer { when, position_ticks, is_playing, playlist_item_id } =>
            GroupView { state: GroupStateType::Waiting, ..g },
            PlaybackRequest::Ready { when, position_ticks, is_playing, playlist_item_id } => {
                let h = GroupView { members: all_buffering(g.members, false), ..g };
                if g.state == GroupStateType::Waiting {
                    h.resumed(now)
                } else {
                    h
                }
            },
            PlaybackRequest::NextItem { playlist_item_id } => if g.queue.has_next() {
                GroupView {
                    queue: g.queue.advanced(),
                    position_ticks: 0,
                    last_activity: g.scheduled(now),
                    ..g
                }
            } else {
                g
            },
            PlaybackRequest::PreviousItem { playlist_item_id } => if g.queue.playing_index > 0 {
                GroupView {
                    queue: g.queue.stepped_back(),
                    position_ticks: 0,
                    last_activity: g.scheduled(now),
                    ..g
                }
            } else {
                g
            },
            PlaybackRequest::SetRepeatMode { mode } => GroupView {
                queue: QueueView { repeat: mode, ..g.queue },
                ..g
            },
            PlaybackRequest::SetShuffleMode { mode } => GroupView {
                queue: QueueView { shuffle: mode, ..g.queue },
                ..g
            },
            PlaybackRequest::Ping { ping } => g,
            PlaybackRequest::IgnoreWait { ignore_wait } => g,
        }
    }

    /// The messages that a request yields. `self` is the group before it.
    pub open spec fn replies(
        self,
        request: PlaybackRequest,
        fresh: Seq<SyncPlayQueueItem>,
        now: Timestamp,
    ) -> Seq<OutboundView> {
        let a = self.after(request, fresh, now);
        match request {
            PlaybackRequest::Play { playing_queue, playing_item_position, start_position_ticks } =>
            seq![
                to_all(a.queue_news(PlayQueueUpdateReason::NewPlaylist, now)),
                to_all(a.command(SendCommandType::Unpause, a.last_activity, now)),
            ],
            PlaybackRequest::SetPlaylistItem { playlist_item_id } => if self.queue.has_entry(
                playlist_item_id,
            ) {
                seq![
                    to_all(a.queue_news(PlayQueueUpdateReason::SetCurrentItem, now)),
                    to_all(a.command(SendCommandType::Unpause, a.last_activity, now)),
                ]
            } else {
                seq![]
            },
            PlaybackRequest::RemoveFromPlaylist {
                playlist_item_ids,
                clear_playlist,
                clear_playing_item,
            } => if clear_playlist {
                seq![
                    to_all(a.queue_news(PlayQueueUpdateReason::RemoveItems, now)),
                    to_all(a.command(SendCommandType::Stop, now, now)),
                ]
            } else {
                seq![to_all(a.queue_news(PlayQueueUpdateReason::RemoveItems, now))]
            },
            PlaybackRequest::MovePlaylistItem { playlist_item_id, new_index } => seq![
                to_all(a.queue_news(PlayQueueUpdateReason::MoveItem, now)),
            ],
            PlaybackRequest::Queue { item_ids, mode } => seq![
                to_all(
                    a.queue_news(
                        match mode {
                            GroupQueueMode::Queue => PlayQueueUpdateReason::Queue,
                            GroupQueueMode::QueueNext => PlayQueueUpdateReason::QueueNext,
                        },
                        now,
                    ),
                ),
            ],
            PlaybackRequest::Unpause => if self.state == GroupStateType::Idle {
                seq![]
            } else {
                seq![
                    to_all(a.command(SendCommandType::Unpause, a.last_activity, now)),
                    to_all(a.state_news(PlaybackRequestType::Unpause)),
                ]
            },
            PlaybackRequest::Pause => if self.state == GroupStateType::Idle {
                seq![]
            } else {
                seq![
                    to_all(a.command(SendCommandType::Pause, now, now)),
                    to_all(a.state_news(PlaybackRequestType::Pause)),
                ]
            },
            PlaybackRequest::Stop => seq![to_all(a.command(SendCommandType::Stop, now, now))],
            PlaybackRequest::Seek { position_ticks } => seq![
                to_all(a.command(SendCommandType::Seek, now, now)),
                to_all(a.state_news(PlaybackRequestType::Seek)),
            ],
            PlaybackRequest::Buffer { when, position_ticks, is_playing, playlist_item_id } => seq![
                OutboundView {
                    target: Target::AllReady,
                    body: a.command(SendCommandType::Pause, now, now),
                },
                to_all(a.state_news(PlaybackRequestType::Buffer)),
            ],
            PlaybackRequest::Ready { when, position_ticks, is_playing, playlist_item_id } => {
                if self.state == GroupStateType::Waiting {
                    seq![
                        to_all(a.command(SendCommandType::Unpause, a.last_activity, now)),
                        to_all(a.state_news(PlaybackRequestType::Ready)),
                    ]
                } else if self.state == GroupStateType::Playing {
                    seq![
                        OutboundView {
                            target: Target::CurrentSession,
                            body: a.command(SendCommandType::Unpause, a.scheduled(now), now),
                        },
                    ]
                } else {
                    seq![]
                }
            },
            PlaybackRequest::NextItem { playlist_item_id } => if self.queue.has_next() {
                seq![to_all(a.queue_news(PlayQueueUpdateReason::NextItem, now))]
            } else {
                seq![]
            },
            PlaybackRequest::PreviousItem { playlist_item_id } => if self.queue.playing_index > 0 {
                seq![to_all(a.queue_news(PlayQueueUpdateReason::PreviousItem, now))]
            } else {
                seq![]
            },
            PlaybackRequest::SetRepeatMode { mode } => seq![
                to_all(a.queue_news(PlayQueueUpdateReason::RepeatMode, now)),
            ],
            PlaybackRequest::SetShuffleMode { mode } => seq![
                to_all(a.queue_news(PlayQueueUpdateReason::ShuffleMode, now)),
            ],
            PlaybackRequest::Ping { ping } => seq![],
            PlaybackRequest::IgnoreWait { ignore_wait } => seq![],
        }
    }

    /// Whether a request has a command scheduled.
    pub open spec fn schedules(self, request: PlaybackRequest) -> bool {
        match request {
            PlaybackRequest::Play { .. } => true,
            PlaybackRequest::SetPlaylistItem { playlist_item_id } => self.queue.has_entry(
                playlist_item_id,
            ),
            PlaybackRequest::Unpause => self.state != GroupStateType::Idle,
            PlaybackRequest::Ready { .. } => self.state == GroupStateType::Waiting || self.state
                == GroupStateType::Playing,
            PlaybackRequest::NextItem { .. } => self.queue.has_next(),
            PlaybackRequest::PreviousItem { .. } => self.queue.playing_index > 0,
            _ => false,
        }
    }

    /// Whether a request stays within what the machine's numbers and the
    /// calendar can hold.
    pub open spec fn manageable(self, request: PlaybackRequest, now: Timestamp) -> bool {
        &&& self.schedules(request) ==> self.can_schedule(now)
        &&& match request {
            PlaybackRequest::Pause => now.in_calendar() && self.last_activity.in_calendar()
                && self.position_ticks + self.elapsed_ticks(now) <= i64::MAX,
            PlaybackRequest::Queue { item_ids, mode } => self.queue.items.len() + item_ids@.len()
                <= usize::MAX && (mode == GroupQueueMode::QueueNext ==> self.queue.playing_index
                < i32::MAX),
            _ => true,
        }
    }
}

/// The items for which a request brings new queue entries.
pub open spec fn items_brought(request: PlaybackRequest) -> Seq<Guid> {
    match request {
        PlaybackRequest::Play { playing_queue, playing_item_position, start_position_ticks } => {
            playing_queue@
        },
        PlaybackRequest::Queue { item_ids, mode } => item_ids@,
        _ => Seq::empty(),
    }
}

// ---------------------------------------------------------------------------
// Laws
// ---------------------------------------------------------------------------
/// Pausing or resuming an idle group does nothing but note the time.
pub proof fn law_idle_group_ignores_pause(g: GroupView, fresh: Seq<SyncPlayQueueItem>, now: Timestamp)
    requires
        g.state == GroupStateType::Idle,
    ensures
        g.after(PlaybackRequest::Pause, fresh, now) == (GroupView { last_updated: now, ..g }),
        g.after(PlaybackRequest::Unpause, fresh, now) == (GroupView { last_updated: now, ..g }),
        g.replies(PlaybackRequest::Pause, fresh, now).len() == 0,
        g.replies(PlaybackRequest::Unpause, fresh, now).len() == 0,
{
}

/// No request changes who the members are, what their pings are, or the group's
/// id and name.
pub proof fn law_requests_keep_members(
    g: GroupView,
    request: PlaybackRequest,
    fresh: Seq<SyncPlayQueueItem>,
    now: Timestamp,
)
    ensures
        g.after(request, fresh, now).id == g.id,
        g.after(request, fresh, now).name == g.name,
        g.after(request, fresh, now).members.len() == g.members.len(),
        forall|i: int|
            0 <= i < g.members.len() ==> {
                let m = #[trigger] g.after(request, fresh, now).members[i];
                m.session_id == g.members[i].session_id && m.user_name == g.members[i].user_name
                    && m.ping_ms == g.members[i].ping_ms && m.ignore_wait
                    == g.members[i].ignore_wait
            },
        g.after(request, fresh, now).last_updated == now,
{
}

/// A queue that plays at one of its entries still does so after every request.
pub proof fn law_requests_keep_queue_valid(
    g: GroupView,
    request: PlaybackRequest,
    fresh: Seq<SyncPlayQueueItem>,
    now: Timestamp,
)
    requires
        g.queue.wf(),
    ensures
        g.after(request, fresh, now).queue.wf(),
{
    match request {
        PlaybackRequest::SetPlaylistItem { playlist_item_id } => {
            lemma_index_of_entry(g.queue.items, playlist_item_id);
        },
        PlaybackRequest::MovePlaylistItem { playlist_item_id, new_index } => {
            lemma_index_of_entry(g.queue.items, playlist_item_id);
        },
        _ => {},
    }
}

/// No request takes the position to a point before the beginning.
pub proof fn law_position_is_never_negative(
    g: GroupView,
    request: PlaybackRequest,
    fresh: Seq<SyncPlayQueueItem>,
    now: Timestamp,
)
    requires
        g.position_ticks >= 0,
    ensures
        g.after(request, fresh, now).position_ticks >= 0,
{
}

/// Entries that have ids stay so: a queue all of whose entries are identified is
/// still such a queue after every request that brings none but such entries.
pub proof fn law_requests_keep_entries_identified(
    g: GroupView,
    request: PlaybackRequest,
    fresh: Seq<SyncPlayQueueItem>,
    now: Timestamp,
)
    requires
        g.queue.wf(),
        all_identified(g.queue.items),
        all_identified(fresh),
    ensures
        all_identified(g.after(request, fresh, now).queue.items),
{
    let items = g.queue.items;
    let after = g.after(request, fresh, now).queue.items;
    match request {
        PlaybackRequest::MovePlaylistItem { playlist_item_id, new_index } => {
            lemma_index_of_entry(items, playlist_item_id);
            let from = index_of_entry(items, playlist_item_id);
            if from >= 0 {
                let left = items.remove(from);
                assert forall|i: int| 0 <= i < left.len() implies (
                #[trigger] left[i]).playlist_item_id.value != 0 by {
                    assert(left[i] == items[if i < from { i } else { i + 1 }]);
                }
                let to = clamped(new_index as int, items.len() - 1);
                assert forall|i: int| 0 <= i < after.len() implies (
                #[trigger] after[i]).playlist_item_id.value != 0 by {
                    assert(items[from].playlist_item_id.value != 0);
                    if i < to {
                        assert(after[i] == left[i]);
                    } else if i > to {
                        assert(after[i] == left[i - 1]);
                    }
                }
            }
        },
        PlaybackRequest::RemoveFromPlaylist { playlist_item_ids, .. } => {
            lemma_without_identified(items, playlist_item_ids@);
        },
        PlaybackRequest::Queue { mode, .. } => {
            let at = match mode {
                GroupQueueMode::Queue => items.len() as int,
                GroupQueueMode::QueueNext => least(g.queue.playing_index + 1, items.len() as int),
            };
            assert forall|i: int| 0 <= i < after.len() implies (
            #[trigger] after[i]).playlist_item_id.value != 0 by {
                if i < at {
                    assert(after[i] == items[i]);
                } else if i < at + fresh.len() {
                    assert(after[i] == fresh[i - at]);
                } else {
                    assert(after[i] == items[i - fresh.len()]);
                }
            }
        },
        _ => {},
    }
}

proof fn lemma_buffering_keeps_pings(members: Seq<MemberView>, buffering: bool)
    ensures
        highest_ping(all_buffering(members, buffering)) == highest_ping(members),
    decreases members.len(),
{
    if members.len() > 1 {
        lemma_buffering_keeps_pings(members.drop_last(), buffering);
        assert(all_buffering(members, buffering).drop_last() =~= all_buffering(
            members.drop_last(),
            buffering,
        ));
    }
}

/// A group that seeks waits, and plays when a member is ready: from the point
/// sought, with nobody buffering, at the time that leaves the cushion. All
/// members are sent the command for that time, and then the new state.
pub proof fn law_seek_then_ready(
    g: GroupView,
    position: i64,
    ready: PlaybackRequest,
    fresh: Seq<SyncPlayQueueItem>,
    sought: Timestamp,
    now: Timestamp,
)
    requires
        ready is Ready,
        g.can_schedule(now),
    ensures
        ({
            let waiting = g.after(PlaybackRequest::Seek { position_ticks: position }, fresh, sought);
            let playing = waiting.after(ready, fresh, now);
            &&& playing.state == GroupStateType::Playing
            &&& playing.members == all_buffering(g.members, false)
            &&& playing.position_ticks == at_least_zero(position as int)
            &&& playing.last_activity.nanos == now.nanos + g.cushion() * NANOS_PER_MS
            &&& waiting.replies(ready, fresh, now) == seq![
                to_all(
                    playing.command(SendCommandType::Unpause, playing.last_activity, now),
                ),
                to_all(playing.state_news(PlaybackRequestType::Ready)),
            ]
        }),
{
    let waiting = g.after(PlaybackRequest::Seek { position_ticks: position }, fresh, sought);
    lemma_buffering_keeps_pings(g.members, true);
    lemma_buffering_keeps_pings(waiting.members, false);
    assert(all_buffering(waiting.members, false) =~= all_buffering(g.members, false));
}

/// Whether a message is a command of a kind, at a position, for the playing entry and
/// a point in time.
pub open spec fn is_command(
    o: OutboundView,
    target: Target,
    kind: SendCommandType,
    position: int,
    entry: Guid,
    when: int,
) -> bool {
    &&& o.target == target
    &&& o.body matches MessageView::Command(c)
    &&& c.command == kind
    &&& c.position_ticks == position
    &&& c.playlist_item_id == entry
    &&& c.when.nanos == when
}

/// Whether a message tells all members of the queue `queue`, of where it starts and
/// whether it plays.
pub open spec fn is_queue_news(
    o: OutboundView,
    reason: PlayQueueUpdateReason,
    queue: QueueView,
    start: int,
    playing: bool,
) -> bool {
    &&& o.target == Target::AllGroup
    &&& o.body matches MessageView::PlayQueue { reason: why, queue: told, start_position_ticks, is_playing, .. }
    &&& why == reason
    &&& told == queue
    &&& start_position_ticks == start
    &&& is_playing == playing
}

/// Whether a message tells all members of the group's state.
pub open spec fn is_state_news(o: OutboundView, state: GroupStateType, reason: PlaybackRequestType) -> bool {
    &&& o.target == Target::AllGroup
    &&& o.body matches MessageView::StateUpdate { state: told, reason: why, .. }
    &&& told == state
    &&& why == reason
}

/// Whether every member buffers, or none does.
pub open spec fn all_are_buffering(members: Seq<MemberView>, buffering: bool) -> bool {
    forall|i: int| 0 <= i < members.len() ==> (#[trigger] members[i]).is_buffering == buffering
}

/// Playing a list starts it where it was asked to: the group stands at the position
/// asked for, or at the beginning if that lies before it, and plays the entry asked
/// for of the new list. All members are told of the list and of the position, and to
/// play from there once the cushion has passed.
pub proof fn law_play_starts_where_asked(
    g: GroupView,
    playing_queue: Vec<Guid>,
    place: i32,
    start: i64,
    fresh: Seq<SyncPlayQueueItem>,
    now: Timestamp,
)
    requires
        g.can_schedule(now),
        fresh.len() <= i32::MAX,
    ensures
        ({
            let request = PlaybackRequest::Play {
                playing_queue,
                playing_item_position: place,
                start_position_ticks: start,
            };
            let a = g.after(request, fresh, now);
            let r = g.replies(request, fresh, now);
            let from = if start >= 0 {
                start as int
            } else {
                0
            };
            let when = now.nanos + g.cushion() * NANOS_PER_MS;
            &&& a.position_ticks == from
            &&& a.state == GroupStateType::Playing
            &&& a.queue.items == fresh
            &&& a.last_activity.nanos == when
            &&& all_are_buffering(a.members, false)
            &&& 0 <= place < fresh.len() ==> a.queue.playing_id()
                == fresh[place as int].playlist_item_id
            &&& place < 0 && fresh.len() > 0 ==> a.queue.playing_id() == fresh[0].playlist_item_id
            &&& place >= fresh.len() > 0 ==> a.queue.playing_id() == fresh.last().playlist_item_id
            &&& a.queue.repeat == g.queue.repeat && a.queue.shuffle == g.queue.shuffle
            &&& r.len() == 2
            &&& is_queue_news(r[0], PlayQueueUpdateReason::NewPlaylist, a.queue, from, true)
            &&& is_command(
                r[1],
                Target::AllGroup,
                SendCommandType::Unpause,
                from,
                a.queue.playing_id(),
                when,
            )
        }),
{
}

/// Seeking goes where it was asked to, or to the beginning if that lies before it:
/// everyone is told to go there, and the group waits for its members.
pub proof fn law_seek_goes_where_asked(
    g: GroupView,
    position: i64,
    fresh: Seq<SyncPlayQueueItem>,
    now: Timestamp,
)
    ensures
        ({
            let request = PlaybackRequest::Seek { position_ticks: position };
            let a = g.after(request, fresh, now);
            let r = g.replies(request, fresh, now);
            let to = if position >= 0 {
                position as int
            } else {
                0
            };
            &&& a.position_ticks == to
            &&& a.state == GroupStateType::Waiting
            &&& a.queue == g.queue
            &&& all_are_buffering(a.members, true)
            &&& r.len() == 2
            &&& is_command(
                r[0],
                Target::AllGroup,
                SendCommandType::Seek,
                to,
                g.queue.playing_id(),
                now.nanos as int,
            )
            &&& is_state_news(r[1], GroupStateType::Waiting, PlaybackRequestType::Seek)
        }),
{
}

/// A group that is paused has moved on by the whole milliseconds for which it played:
/// ten thousand ticks each. All members are told to pause there.
pub proof fn law_pause_counts_what_was_played(
    g: GroupView,
    played_ms: int,
    rest: int,
    fresh: Seq<SyncPlayQueueItem>,
    now: Timestamp,
)
    requires
        g.state == GroupStateType::Playing,
        played_ms >= 0,
        0 <= rest < 1_000_000,
        now.nanos == g.last_activity.nanos + played_ms * 1_000_000 + rest,
        0 <= g.position_ticks,
        g.position_ticks + played_ms * 10_000 <= i64::MAX,
    ensures
        ({
            let a = g.after(PlaybackRequest::Pause, fresh, now);
            let r = g.replies(PlaybackRequest::Pause, fresh, now);
            &&& a.position_ticks == g.position_ticks + played_ms * 10_000
            &&& a.state == GroupStateType::Paused
            &&& a.queue == g.queue
            &&& r.len() == 2
            &&& is_command(
                r[0],
                Target::AllGroup,
                SendCommandType::Pause,
                a.position_ticks,
                g.queue.playing_id(),
                now.nanos as int,
            )
            &&& is_state_news(r[1], GroupStateType::Paused, PlaybackRequestType::Pause)
        }),
{
    let d = now.nanos - g.last_activity.nanos;
    assert(d / 1_000_000 == played_ms) by (nonlinear_arith)
        requires
            d == played_ms * 1_000_000 + rest,
            0 <= rest < 1_000_000,
    ;
}

/// A group that is let play on plays from where it stands, once the cushion has
/// passed; what it plays before it is paused again counts from then.
pub proof fn law_unpause_goes_on_from_here(
    g: GroupView,
    played_ms: int,
    fresh: Seq<SyncPlayQueueItem>,
    now: Timestamp,
    later: Timestamp,
)
    requires
        g.state != GroupStateType::Idle,
        g.can_schedule(now),
        played_ms >= 0,
        later.nanos == now.nanos + g.cushion() * NANOS_PER_MS + played_ms * 1_000_000,
        0 <= g.position_ticks,
        g.position_ticks + played_ms * 10_000 <= i64::MAX,
    ensures
        ({
            let a = g.after(PlaybackRequest::Unpause, fresh, now);
            let r = g.replies(PlaybackRequest::Unpause, fresh, now);
            &&& a.state == GroupStateType::Playing
            &&& a.position_ticks == g.position_ticks
            &&& a.queue == g.queue
            &&& a.members == g.members
            &&& r.len() == 2
            &&& is_command(
                r[0],
                Target::AllGroup,
                SendCommandType::Unpause,
                g.position_ticks,
                g.queue.playing_id(),
                now.nanos + g.cushion() * NANOS_PER_MS,
            )
            &&& is_state_news(r[1], GroupStateType::Playing, PlaybackRequestType::Unpause)
            &&& a.after(PlaybackRequest::Pause, fresh, later).position_ticks == g.position_ticks
                + played_ms * 10_000
        }),
{
    let a = g.after(PlaybackRequest::Unpause, fresh, now);
    law_pause_counts_what_was_played(a, played_ms, 0, fresh, later);
}

/// A group that is told to play another of its entries plays that one from its
/// beginning; an entry that it does not have changes nothing.
pub proof fn law_chosen_entry_plays_from_its_beginning(
    g: GroupView,
    id: Guid,
    fresh: Seq<SyncPlayQueueItem>,
    now: Timestamp,
)
    requires
        g.can_schedule(now),
        g.queue.items.len() <= i32::MAX,
    ensures
        ({
            let request = PlaybackRequest::SetPlaylistItem { playlist_item_id: id };
            let a = g.after(request, fresh, now);
            let r = g.replies(request, fresh, now);
            let known = exists|i: int|
                0 <= i < g.queue.items.len() && (#[trigger] g.queue.items[i]).playlist_item_id
                    == id;
            let when = now.nanos + g.cushion() * NANOS_PER_MS;
            &&& a.queue.items == g.queue.items
            &&& known ==> {
                &&& a.queue.playing_id() == id
                &&& a.position_ticks == 0
                &&& a.state == GroupStateType::Playing
                &&& a.last_activity.nanos == when
                &&& r.len() == 2
                &&& is_queue_news(r[0], PlayQueueUpdateReason::SetCurrentItem, a.queue, 0, true)
                &&& is_command(r[1], Target::AllGroup, SendCommandType::Unpause, 0, id, when)
            }
            &&& !known ==> {
                &&& a == (GroupView { last_updated: now, ..g })
                &&& r.len() == 0
            }
        }),
{
    lemma_index_of_entry(g.queue.items, id);
}

/// Going to the next entry plays the one behind the playing one, and going back the
/// one before it, from its beginning; where there is none, nothing changes and nobody
/// is told.
pub proof fn law_steps_go_to_the_neighbours(
    g: GroupView,
    id: Guid,
    fresh: Seq<SyncPlayQueueItem>,
    now: Timestamp,
)
    requires
        g.queue.wf(),
        g.can_schedule(now),
        g.queue.items.len() <= i32::MAX,
    ensures
        ({
            let i = g.queue.playing_index;
            let items = g.queue.items;
            let next = PlaybackRequest::NextItem { playlist_item_id: id };
            let back = PlaybackRequest::PreviousItem { playlist_item_id: id };
            let a = g.after(next, fresh, now);
            let b = g.after(back, fresh, now);
            let told = g.replies(next, fresh, now);
            let heard = g.replies(back, fresh, now);
            &&& a.queue.items == items && b.queue.items == items
            &&& a.state == g.state && b.state == g.state
            &&& i + 1 < items.len() ==> {
                &&& a.queue.playing_id() == items[i + 1].playlist_item_id
                &&& a.position_ticks == 0
                &&& told.len() == 1
                &&& is_queue_news(
                    told[0],
                    PlayQueueUpdateReason::NextItem,
                    a.queue,
                    0,
                    g.state == GroupStateType::Playing,
                )
            }
            &&& i + 1 >= items.len() ==> a == (GroupView { last_updated: now, ..g }) && told.len()
                == 0
            &&& i > 0 ==> {
                &&& b.queue.playing_id() == items[i - 1].playlist_item_id
                &&& b.position_ticks == 0
                &&& heard.len() == 1
                &&& is_queue_news(
                    heard[0],
                    PlayQueueUpdateReason::PreviousItem,
                    b.queue,
                    0,
                    g.state == GroupStateType::Playing,
                )
            }
            &&& i == 0 ==> b == (GroupView { last_updated: now, ..g }) && heard.len() == 0
        }),
{
}

/// Stopping leaves the group idle where it stands, and everyone is told to stop.
/// Taking everything off the list empties it and stops as well, at the beginning.
pub proof fn law_stop_and_clear(
    g: GroupView,
    ids: Vec<Guid>,
    clear_playing_item: bool,
    fresh: Seq<SyncPlayQueueItem>,
    now: Timestamp,
)
    requires
        0 <= g.position_ticks <= i64::MAX,
    ensures
        ({
            let clear = PlaybackRequest::RemoveFromPlaylist {
                playlist_item_ids: ids,
                clear_playlist: true,
                clear_playing_item,
            };
            let a = g.after(PlaybackRequest::Stop, fresh, now);
            let r = g.replies(PlaybackRequest::Stop, fresh, now);
            let b = g.after(clear, fresh, now);
            let s = g.replies(clear, fresh, now);
            &&& a.state == GroupStateType::Idle
            &&& a.position_ticks == g.position_ticks
            &&& a.queue == g.queue
            &&& r.len() == 1
            &&& is_command(
                r[0],
                Target::AllGroup,
                SendCommandType::Stop,
                g.position_ticks,
                g.queue.playing_id(),
                now.nanos as int,
            )
            &&& b.state == GroupStateType::Idle
            &&& b.position_ticks == 0
            &&& b.queue.items.len() == 0
            &&& s.len() == 2
            &&& is_queue_news(s[0], PlayQueueUpdateReason::RemoveItems, b.queue, 0, false)
            &&& is_command(
                s[1],
                Target::AllGroup,
                SendCommandType::Stop,
                0,
                Guid { value: 0 },
                now.nanos as int,
            )
        }),
{
}

/// A member that buffers makes the group wait: those that are ready are told to pause
/// where the group stands, and all are told that it waits.
pub proof fn law_buffering_makes_the_group_wait(
    g: GroupView,
    request: PlaybackRequest,
    fresh: Seq<SyncPlayQueueItem>,
    now: Timestamp,
)
    requires
        request is Buffer,
        0 <= g.position_ticks <= i64::MAX,
    ensures
        ({
            let a = g.after(request, fresh, now);
            let r = g.replies(request, fresh, now);
            &&& a.state == GroupStateType::Waiting
            &&& a.position_ticks == g.position_ticks
            &&& a.queue == g.queue
            &&& a.members == g.members
            &&& r.len() == 2
            &&& is_command(
                r[0],
                Target::AllReady,
                SendCommandType::Pause,
                g.position_ticks,
                g.queue.playing_id(),
                now.nanos as int,
            )
            &&& is_state_news(r[1], GroupStateType::Waiting, PlaybackRequestType::Buffer)
        }),
{
}

/// A member that is ready ends the waiting: everyone plays from where the group
/// stands. In a group that plays already, that member alone is told to play; in one
/// that is idle or paused, nobody is told anything.
pub proof fn law_ready_ends_the_waiting(
    g: GroupView,
    request: PlaybackRequest,
    fresh: Seq<SyncPlayQueueItem>,
    now: Timestamp,
)
    requires
        request is Ready,
        g.can_schedule(now),
        0 <= g.position_ticks <= i64::MAX,
    ensures
        ({
            let a = g.after(request, fresh, now);
            let r = g.replies(request, fresh, now);
            let when = now.nanos + g.cushion() * NANOS_PER_MS;
            &&& a.position_ticks == g.position_ticks
            &&& a.queue == g.queue
            &&& all_are_buffering(a.members, false)
            &&& g.state == GroupStateType::Waiting ==> {
                &&& a.state == GroupStateType::Playing
                &&& a.last_activity.nanos == when
                &&& r.len() == 2
                &&& is_command(
                    r[0],
                    Target::AllGroup,
                    SendCommandType::Unpause,
                    g.position_ticks,
                    g.queue.playing_id(),
                    when,
                )
                &&& is_state_news(r[1], GroupStateType::Playing, PlaybackRequestType::Ready)
            }
            &&& g.state != GroupStateType::Waiting ==> a.state == g.state && a.last_activity
                == g.last_activity
            &&& g.state == GroupStateType::Playing ==> r.len() == 1 && is_command(
                r[0],
                Target::CurrentSession,
                SendCommandType::Unpause,
                g.position_ticks,
                g.queue.playing_id(),
                when,
            )
            &&& g.state == GroupStateType::Idle || g.state == GroupStateType::Paused ==> r.len()
                == 0
        }),
{
    lemma_buffering_keeps_pings(g.members, false);
    let h = GroupView { members: all_buffering(g.members, false), last_updated: now, ..g };
    assert(h.cushion() == g.cushion());
}

/// Items that are queued come last, or right behind the playing entry; the others keep
/// their order, and what plays stays what plays, where it is.
pub proof fn law_queued_items_follow(
    g: GroupView,
    item_ids: Vec<Guid>,
    mode: GroupQueueMode,
    fresh: Seq<SyncPlayQueueItem>,
    now: Timestamp,
)
    requires
        g.queue.wf(),
    ensures
        ({
            let request = PlaybackRequest::Queue { item_ids, mode };
            let a = g.after(request, fresh, now);
            let r = g.replies(request, fresh, now);
            let items = g.queue.items;
            let i = g.queue.playing_index;
            &&& mode == GroupQueueMode::Queue ==> a.queue.items == items + fresh
            &&& mode == GroupQueueMode::QueueNext && items.len() > 0 ==> a.queue.items
                == items.take(i + 1) + fresh + items.skip(i + 1)
            &&& mode == GroupQueueMode::QueueNext && items.len() == 0 ==> a.queue.items == fresh
            &&& items.len() > 0 ==> a.queue.playing_id() == g.queue.playing_id()
            &&& a.position_ticks == g.position_ticks
            &&& a.state == g.state
            &&& r.len() == 1
            &&& is_queue_news(
                r[0],
                if mode == GroupQueueMode::Queue {
                    PlayQueueUpdateReason::Queue
                } else {
                    PlayQueueUpdateReason::QueueNext
                },
                a.queue,
                g.position_ticks,
                g.state == GroupStateType::Playing,
            )
        }),
{
    let request = PlaybackRequest::Queue { item_ids, mode };
    let a = g.after(request, fresh, now);
    let items = g.queue.items;
    if mode == GroupQueueMode::Queue {
        assert(a.queue.items =~= items + fresh);
    } else if items.len() == 0 {
        assert(a.queue.items =~= fresh);
    }
}

/// Taking entries off the list, moving one, and setting how it repeats or shuffles
/// leaves the group where it stands and tells everyone of the list.
pub proof fn law_list_changes_are_told(
    g: GroupView,
    ids: Vec<Guid>,
    id: Guid,
    place: i32,
    repeat: GroupRepeatMode,
    shuffle: GroupShuffleMode,
    fresh: Seq<SyncPlayQueueItem>,
    now: Timestamp,
)
    requires
        g.queue.wf(),
        g.queue.items.len() <= i32::MAX,
    ensures
        ({
            let remove = PlaybackRequest::RemoveFromPlaylist {
                playlist_item_ids: ids,
                clear_playlist: false,
                clear_playing_item: false,
            };
            let shift = PlaybackRequest::MovePlaylistItem { playlist_item_id: id, new_index: place };
            let again = PlaybackRequest::SetRepeatMode { mode: repeat };
            let mixed = PlaybackRequest::SetShuffleMode { mode: shuffle };
            let playing = g.state == GroupStateType::Playing;
            &&& forall|q: PlaybackRequest|
                q == remove || q == shift || q == again || q == mixed ==> {
                    &&& (#[trigger] g.after(q, fresh, now)).position_ticks == g.position_ticks
                    &&& g.after(q, fresh, now).state == g.state
                    &&& g.after(q, fresh, now).members == g.members
                    &&& g.replies(q, fresh, now).len() == 1
                }
            &&& is_queue_news(
                g.replies(remove, fresh, now)[0],
                PlayQueueUpdateReason::RemoveItems,
                g.after(remove, fresh, now).queue,
                g.position_ticks,
                playing,
            )
            &&& is_queue_news(
                g.replies(shift, fresh, now)[0],
                PlayQueueUpdateReason::MoveItem,
                g.after(shift, fresh, now).queue,
                g.position_ticks,
                playing,
            )
            &&& is_queue_news(
                g.replies(again, fresh, now)[0],
                PlayQueueUpdateReason::RepeatMode,
                QueueView { repeat, ..g.queue },
                g.position_ticks,
                playing,
            )
            &&& is_queue_news(
                g.replies(mixed, fresh, now)[0],
                PlayQueueUpdateReason::ShuffleMode,
                QueueView { shuffle, ..g.queue },
                g.position_ticks,
                playing,
            )
            &&& g.after(again, fresh, now).queue == (QueueView { repeat, ..g.queue })
            &&& g.after(mixed, fresh, now).queue == (QueueView { shuffle, ..g.queue })
            &&& forall|i: int|
                0 <= i < g.after(remove, fresh, now).queue.items.len() ==> !ids@.contains(
                    (#[trigger] g.after(remove, fresh, now).queue.items[i]).playlist_item_id,
                )
            &&& forall|i: int|
                0 <= i < g.queue.items.len() && !ids@.contains(
                    (#[trigger] g.queue.items[i]).playlist_item_id,
                ) ==> g.after(remove, fresh, now).queue.items.contains(g.queue.items[i])
            &&& g.after(shift, fresh, now).queue.items.to_multiset() == g.queue.items.to_multiset()
            &&& g.queue.items.len() > 0 ==> g.after(shift, fresh, now).queue.playing_id()
                == g.queue.playing_id()
            &&& g.queue.items.len() > 0 && !ids@.contains(g.queue.playing_id()) ==> g.after(
                remove,
                fresh,
                now,
            ).queue.playing_id() == g.queue.playing_id()
        }),
{
    law_removed_entries_are_gone(g.queue, ids@);
    law_moving_keeps_the_entries(g.queue, id, place as int);
    if g.queue.items.len() > 0 {
        law_playing_entry_is_kept(g.queue, ids@, id, place as int);
    }
}

/// An entry that is moved stands where it was asked to, or at the end where the list is
/// shorter; the others keep their order.
pub proof fn law_moved_entry_stands_there(
    g: GroupView,
    from: int,
    place: i32,
    fresh: Seq<SyncPlayQueueItem>,
    now: Timestamp,
)
    requires
        0 <= from < g.queue.items.len(),
        forall|i: int|
            0 <= i < from ==> (#[trigger] g.queue.items[i]).playlist_item_id
                != g.queue.items[from].playlist_item_id,
    ensures
        ({
            let items = g.queue.items;
            let request = PlaybackRequest::MovePlaylistItem {
                playlist_item_id: items[from].playlist_item_id,
                new_index: place,
            };
            let a = g.after(request, fresh, now).queue.items;
            let to = if place < 0 {
                0
            } else if place < items.len() {
                place as int
            } else {
                items.len() - 1
            };
            &&& a.len() == items.len()
            &&& a[to] == items[from]
            &&& a.remove(to) == items.remove(from)
        }),
{
    let items = g.queue.items;
    let id = items[from].playlist_item_id;
    lemma_index_of_entry(items, id);
    lemma_first_entry(items, id, from);
    let to = if place < 0 {
        0
    } else if place < items.len() {
        place as int
    } else {
        items.len() - 1
    };
    let a = items.remove(from).insert(to, items[from]);
    assert(a.remove(to) =~= items.remove(from));
}

proof fn lemma_first_entry(items: Seq<SyncPlayQueueItem>, id: Guid, k: int)
    requires
        0 <= k < items.len(),
        items[k].playlist_item_id == id,
        forall|i: int| 0 <= i < k ==> (#[trigger] items[i]).playlist_item_id != id,
    ensures
        index_of_entry(items, id) == k,
    decreases items.len(),
{
    if k > 0 {
        assert(items[0].playlist_item_id != id);
        let t = items.drop_first();
        assert forall|i: int| 0 <= i < k - 1 implies (#[trigger] t[i]).playlist_item_id != id by {
            assert(t[i] == items[i + 1]);
        }
        lemma_first_entry(t, id, k - 1);
    }
}

/// Pings and the wish not to be waited for change nothing of the group and are told to
/// nobody.
pub proof fn law_bookkeeping_is_silent(
    g: GroupView,
    ping: i64,
    ignore_wait: bool,
    fresh: Seq<SyncPlayQueueItem>,
    now: Timestamp,
)
    ensures
        g.after(PlaybackRequest::Ping { ping }, fresh, now) == (GroupView {
            last_updated: now,
            ..g
        }),
        g.after(PlaybackRequest::IgnoreWait { ignore_wait }, fresh, now) == (GroupView {
            last_updated: now,
            ..g
        }),
        g.replies(PlaybackRequest::Ping { ping }, fresh, now).len() == 0,
        g.replies(PlaybackRequest::IgnoreWait { ignore_wait }, fresh, now).len() == 0,
{
}

/// The cushion is half a second, or twice the ping of some member where that is more.
pub proof fn law_cushion_is_of_the_slowest(g: GroupView)
    ensures
        g.cushion() >= 500,
        forall|i: int| 0 <= i < g.members.len() ==> g.cushion() >= 2 * (#[trigger] g.members[i]).ping_ms,
        g.cushion() == 500 || exists|i: int|
            0 <= i < g.members.len() && g.cushion() == 2 * (#[trigger] g.members[i]).ping_ms,
{
    assert forall|i: int| 0 <= i < g.members.len() implies g.cushion() >= 2 * (
    #[trigger] g.members[i]).ping_ms by {
        lemma_highest_ping(g.members, i);
    }
    lemma_highest_ping_is_of_a_member(g.members);
}

proof fn lemma_highest_ping_is_of_a_member(members: Seq<MemberView>)
    ensures
        highest_ping(members) > 0 ==> exists|i: int|
            0 <= i < members.len() && highest_ping(members) == (#[trigger] members[i]).ping_ms,
    decreases members.len(),
{
    if members.len() > 0 {
        let l = members.drop_last();
        lemma_highest_ping_is_of_a_member(l);
        if highest_ping(members) == members.last().ping_ms {
            assert(members[members.len() - 1].ping_ms == highest_ping(members));
        } else if highest_ping(members) > 0 {
            let i = choose|i: int| 0 <= i < l.len() && highest_ping(l) == (#[trigger] l[i]).ping_ms;
            assert(members[i].ping_ms == highest_ping(members));
        }
    }
}

/// A paused group stays where it is: pausing it again or letting it play on does
/// not move it.
pub proof fn law_paused_group_stays_put(
    g: GroupView,
    fresh: Seq<SyncPlayQueueItem>,
    now: Timestamp,
    later: Timestamp,
)
    requires
        g.state != GroupStateType::Idle,
    ensures
        ({
            let paused = g.after(PlaybackRequest::Pause, fresh, now);
            &&& paused.state == GroupStateType::Paused
            &&& paused.after(PlaybackRequest::Pause, fresh, later).position_ticks
                == paused.position_ticks
            &&& paused.after(PlaybackRequest::Unpause, fresh, later).position_ticks
                == paused.position_ticks
            &&& paused.after(PlaybackRequest::Unpause, fresh, later).state
                == GroupStateType::Playing
        }),
{
}

/// A scheduled command lies at least the default cushion ahead, and at least
/// twice every member's ping.
pub proof fn law_schedule_leaves_time(g: GroupView, now: Timestamp, i: int)
    requires
        g.can_schedule(now),
        0 <= i < g.members.len(),
    ensures
        g.scheduled(now).nanos >= now.nanos + DEFAULT_PING_MS * NANOS_PER_MS,
        g.scheduled(now).nanos >= now.nanos + 2 * g.members[i].ping_ms * NANOS_PER_MS,
{
    lemma_highest_ping(g.members, i);
}

proof fn lemma_highest_ping(members: Seq<MemberView>, i: int)
    requires
        0 <= i < members.len(),
    ensures
        members[i].ping_ms <= highest_ping(members),
    decreases members.len(),
{
    if members.len() > 1 && i < members.len() - 1 {
        lemma_highest_ping(members.drop_last(), i);
    }
}

// ---------------------------------------------------------------------------
// Doing it
// ---------------------------------------------------------------------------
impl Group {
    /// Whether the queue plays at one of its entries, from no point before the
    /// beginning.
    pub open spec fn wf(&self) -> bool {
        self.queue@.wf() && self.position_ticks >= 0
    }

    /// An idle group without members.
    pub fn new(id: Guid, name: String, now: Timestamp) -> (r: Self)
        ensures
            r.wf(),
            r@ == (GroupView {
                id,
                name: name@,
                state: GroupStateType::Idle,
                members: Seq::empty(),
                queue: QueueView::empty(),
                position_ticks: 0,
                last_activity: now,
                last_updated: now,
            }),
    {
        let r: Group = Group {
            id,
            name,
            state: GroupStateType::Idle,
            members: Vec::new(),
            queue: PlayQueue::new(),
            position_ticks: 0,
            last_activity: now,
            last_updated: now,
        };
        assert(r@.members =~= Seq::<MemberView>::empty());
        r
    }

    /// What others see of the group.
    pub fn info(&self) -> (r: GroupInfo)
        ensures
            r@ == self@.info(),
    {
        let mut names: Vec<String> = Vec::new();
        let mut i: usize = 0;
        while i < self.members.len()
            invariant
                i <= self.members.len(),
                names@.len() == i,
                forall|j: int| 0 <= j < i ==> (#[trigger] names@[j])@ == self.members@[j].user_name@,
            decreases self.members.len() - i,
        {
            names.push(self.members[i].user_name.clone());
            i += 1;
        }
        assert(texts(names@) =~= names_of(self@.members));
        let participants: Vec<String> = dedup_texts(sort_texts(names));
        GroupInfo {
            group_id: self.id,
            group_name: self.name.clone(),
            state: self.state,
            participants,
            last_updated_at: self.last_updated,
        }
    }

    /// Whether the group has no members.
    pub fn is_empty(&self) -> (r: bool)
        ensures
            r == (self@.members.len() == 0),
    {
        self.members.len() == 0
    }

    fn highest_ping_ms(&self) -> (r: i64)
        ensures
            r == highest_ping(self@.members),
    {
        if self.members.len() == 0 {
            return 0;
        }
        let mut best: i64 = self.members[0].ping_ms;
        let mut i: usize = 1;
        let ghost all = self@.members;
        assert(all.take(1)[0] == all[0]);
        while i < self.members.len()
            invariant
                1 <= i <= self.members.len(),
                all == self@.members,
                best == highest_ping(all.take(i as int)),
            decreases self.members.len() - i,
        {
            assert(all.take(i + 1).drop_last() =~= all.take(i as int));
            assert(all.take(i + 1).last() == self.members@[i as int]@);
            if self.members[i].ping_ms > best {
                best = self.members[i].ping_ms;
            }
            i += 1;
        }
        assert(all.take(all.len() as int) =~= all);
        best
    }

    fn find_member(&self, session_id: &str) -> (r: Option<usize>)
        ensures
            match r {
                Some(i) => i < self.members@.len() && self.members@[i as int].session_id@
                    == session_id@ && forall|j: int|
                    0 <= j < i ==> (#[trigger] self.members@[j]).session_id@ != session_id@,
                None => !has_member(self@.members, session_id@),
            },
    {
        let mut i: usize = 0;
        while i < self.members.len()
            invariant
                i <= self.members.len(),
                forall|j: int|
                    0 <= j < i ==> (#[trigger] self.members@[j]).session_id@ != session_id@,
            decreases self.members.len() - i,
        {
            if same_text(self.members[i].session_id.as_str(), session_id) {
                return Some(i);
            }
            i += 1;
        }
        assert forall|j: int| 0 <= j < self@.members.len() implies (
        #[trigger] self@.members[j]).session_id != session_id@ by {
            assert(self.members@[j].session_id@ != session_id@);
        }
        None
    }

    /// Adds a session, unless it is a member already.
    pub fn add_member(&mut self, session: &SyncPlaySession)
        ensures
            final(self)@ == (GroupView {
                members: joined_members(old(self)@.members, *session),
                ..old(self)@
            }),
            final(self).queue == old(self).queue,
    {
        match self.find_member(session.session_id.as_str()) {
            Some(i) => {
                assert(self@.members[i as int].session_id == session.session_id@);
            },
            None => {
                self.members.push(
                    GroupMember {
                        session_id: session.session_id.clone(),
                        user_name: session.user_name.clone(),
                        ping_ms: DEFAULT_PING_MS,
                        is_buffering: false,
                        ignore_wait: false,
                    },
                );
                assert(self@.members =~= old(self)@.members.push(new_member(*session)));
            },
        }
    }

    /// Removes a session.
    pub fn remove_member(&mut self, session_id: &str)
        ensures
            final(self)@ == (GroupView {
                members: other_members(old(self)@.members, session_id@),
                ..old(self)@
            }),
            final(self).queue == old(self).queue,
    {
        let ghost all = self@.members;
        let mut kept: Vec<GroupMember> = Vec::new();
        let mut taken: Vec<GroupMember> = Vec::new();
        core::mem::swap(&mut taken, &mut self.members);
        let ghost source = taken@;
        let ghost mut done: int = 0;
        assert(source.skip(0) =~= source);
        assert(member_views(kept@) =~= other_members(all.take(0), session_id@));
        while taken.len() > 0
            invariant
                0 <= done <= source.len(),
                all == member_views(source),
                taken@ == source.skip(done),
                member_views(kept@) == other_members(all.take(done), session_id@),
            decreases taken.len(),
        {
            let m: GroupMember = taken.remove(0);
            let ghost before = member_views(kept@);
            let ghost mv = m@;
            assert(m == source[done]);
            assert(all.take(done + 1).drop_last() =~= all.take(done));
            assert(all.take(done + 1).last() == mv);
            if !same_text(m.session_id.as_str(), session_id) {
                kept.push(m);
                assert(member_views(kept@) =~= before.push(mv));
            }
            proof {
                assert(taken@ =~= source.skip(done + 1));
                done = done + 1;
            }
        }
        assert(done == source.len());
        assert(all.take(all.len() as int) =~= all);
        self.members = kept;
    }

    fn set_all_buffering(&mut self, buffering: bool)
        ensures
            final(self)@ == (GroupView {
                members: all_buffering(old(self)@.members, buffering),
                ..old(self)@
            }),
            final(self).queue == old(self).queue,
    {
        let ghost start = *self;
        let mut i: usize = 0;
        while i < self.members.len()
            invariant
                i <= self.members@.len(),
                self.members@.len() == start.members@.len(),
                forall|j: int|
                    i <= j < self.members@.len() ==> #[trigger] self.members@[j]
                        == start.members@[j],
                forall|j: int|
                    0 <= j < i ==> (#[trigger] self.members@[j])@ == (MemberView {
                        is_buffering: buffering,
                        ..start.members@[j]@
                    }),
                self.id == start.id,
                self.name == start.name,
                self.state == start.state,
                self.queue == start.queue,
                self.position_ticks == start.position_ticks,
                self.last_activity == start.last_activity,
                self.last_updated == start.last_updated,
            decreases self.members.len() - i,
        {
            self.members[i].is_buffering = buffering;
            i += 1;
        }
        assert(self@.members =~= all_buffering(start@.members, buffering));
    }

    /// When a command that is given at `now` is to be carried out: a latency
    /// cushion ahead, sized to the slowest member.
    pub fn unpause_when(&self, now: Timestamp) -> (r: Timestamp)
        requires
            self@.can_schedule(now),
        ensures
            r == self@.scheduled(now),
    {
        let ping: i64 = self.highest_ping_ms();
        let twice: i128 = 2 * (ping as i128);
        let cushion: i128 = if twice > DEFAULT_PING_MS as i128 {
            twice
        } else {
            DEFAULT_PING_MS as i128
        };
        Timestamp { nanos: now.nanos + cushion * NANOS_PER_MS }
    }

    fn can_schedule(&self, now: Timestamp) -> (r: bool)
        ensures
            r == self@.can_schedule(now),
    {
        let twice: i128 = 2 * (self.highest_ping_ms() as i128);
        if twice > i64::MAX as i128 || now.nanos < EARLIEST_NANOS || now.nanos > LATEST_NANOS {
            return false;
        }
        let cushion: i128 = if twice > DEFAULT_PING_MS as i128 {
            twice
        } else {
            DEFAULT_PING_MS as i128
        };
        now.nanos + cushion * NANOS_PER_MS <= LATEST_NANOS
    }

    fn can_pause(&self, now: Timestamp) -> (r: bool)
        ensures
            r == self@.manageable(PlaybackRequest::Pause, now),
    {
        let last: i128 = self.last_activity.nanos;
        if now.nanos < EARLIEST_NANOS || now.nanos > LATEST_NANOS || last < EARLIEST_NANOS || last
            > LATEST_NANOS {
            return false;
        }
        let elapsed: i128 = if self.state == GroupStateType::Playing && now.nanos > last {
            ((now.nanos - last) / NANOS_PER_MS) * (TICKS_PER_MS as i128)
        } else {
            0
        };
        self.position_ticks as i128 + elapsed <= i64::MAX as i128
    }

    /// Whether a request stays within what the machine's numbers and the calendar
    /// can hold.
    pub fn can_handle(&self, request: &PlaybackRequest, now: Timestamp) -> (r: bool)
        ensures
            r == self@.manageable(*request, now),
    {
        match request {
            PlaybackRequest::Play { .. } => self.can_schedule(now),
            PlaybackRequest::SetPlaylistItem { playlist_item_id } => {
                !self.queue.contains_entry(*playlist_item_id) || self.can_schedule(now)
            },
            PlaybackRequest::Unpause => {
                self.state == GroupStateType::Idle || self.can_schedule(now)
            },
            PlaybackRequest::Ready { .. } => {
                (self.state != GroupStateType::Waiting && self.state != GroupStateType::Playing)
                    || self.can_schedule(now)
            },
            PlaybackRequest::NextItem { .. } => {
                !self.queue.can_advance() || self.can_schedule(now)
            },
            PlaybackRequest::PreviousItem { .. } => {
                self.queue.playing_index <= 0 || self.can_schedule(now)
            },
            PlaybackRequest::Pause => self.can_pause(now),
            PlaybackRequest::Queue { item_ids, mode } => {
                item_ids.len() <= usize::MAX - self.queue.items.len() && (*mode
                    != GroupQueueMode::QueueNext || self.queue.playing_index < i32::MAX)
            },
            _ => true,
        }
    }

    /// Moves the position forward by the time played since the last activity.
    pub fn advance_position(&mut self, now: Timestamp)
        requires
            now.in_calendar(),
            old(self).last_activity.in_calendar(),
            old(self).position_ticks + old(self)@.elapsed_ticks(now) <= i64::MAX,
        ensures
            final(self)@ == (GroupView {
                position_ticks: old(self)@.position_ticks + old(self)@.elapsed_ticks(now),
                ..old(self)@
            }),
            final(self).queue == old(self).queue,
    {
        if self.state == GroupStateType::Playing && now.nanos > self.last_activity.nanos {
            let ms: i128 = (now.nanos - self.last_activity.nanos) / NANOS_PER_MS;
            let ticks: i128 = ms * (TICKS_PER_MS as i128);
            self.position_ticks = ((self.position_ticks as i128) + ticks) as i64;
        }
    }

    fn command_message(
        &self,
        command: SendCommandType,
        when: Timestamp,
        now: Timestamp,
    ) -> (r: GroupMessage)
        ensures
            r@ == self@.command(command, when, now),
    {
        GroupMessage::Command(
            SendCommand {
                group_id: self.id,
                playlist_item_id: self.queue.playing_item_id(),
                when,
                position_ticks: self.position_ticks,
                command,
                emitted_at: now,
            },
        )
    }

    fn state_message(&self, reason: PlaybackRequestType) -> (r: GroupMessage)
        ensures
            r@ == self@.state_news(reason),
    {
        GroupMessage::StateUpdate { group_id: self.id, state: self.state, reason }
    }

    fn queue_message(&self, reason: PlayQueueUpdateReason, now: Timestamp) -> (r: GroupMessage)
        ensures
            r@ == self@.queue_news(reason, now),
    {
        let mut playlist: Vec<SyncPlayQueueItem> = Vec::new();
        let mut i: usize = 0;
        while i < self.queue.items.len()
            invariant
                i <= self.queue.items.len(),
                playlist@ == self.queue.items@.take(i as int),
            decreases self.queue.items.len() - i,
        {
            playlist.push(self.queue.items[i]);
            i += 1;
            assert(self.queue.items@.take(i as int) =~= self.queue.items@.take(i - 1).push(
                self.queue.items@[i - 1],
            ));
        }
        assert(playlist@ =~= self.queue.items@);
        GroupMessage::PlayQueue(
            PlayQueueUpdate {
                group_id: self.id,
                reason,
                last_update: now,
                playlist,
                playing_item_index: self.queue.playing_index,
                start_position_ticks: self.position_ticks,
                is_playing: self.state == GroupStateType::Playing,
                shuffle_mode: self.queue.shuffle,
                repeat_mode: self.queue.repeat,
            },
        )
    }

    fn resume(&mut self, now: Timestamp)
        requires
            old(self)@.can_schedule(now),
        ensures
            final(self)@ == old(self)@.resumed(now),
            final(self).queue == old(self).queue,
    {
        self.last_activity = self.unpause_when(now);
        self.state = GroupStateType::Playing;
    }

    /// Applies a request, and yields the messages to send. New queue entries get
    /// random ids; apart from those, the outcome is fixed (see
    /// `handle_with_entries`).
    pub fn handle(&mut self, request: &PlaybackRequest, now: Timestamp) -> (r: Vec<Outbound>)
        requires
            old(self).wf(),
            old(self)@.manageable(*request, now),
        ensures
            final(self).wf(),
            exists|fresh: Seq<SyncPlayQueueItem>|
                #[trigger] entries_for(fresh, items_brought(*request)) && all_identified(fresh)
                    && final(self)@ == old(self)@.after(*request, fresh, now) && outbounds(r@)
                    == old(self)@.replies(*request, fresh, now),
    {
        let fresh: Vec<SyncPlayQueueItem> = match request {
            PlaybackRequest::Play { playing_queue, .. } => fresh_entries(playing_queue.as_slice()),
            PlaybackRequest::Queue { item_ids, .. } => fresh_entries(item_ids.as_slice()),
            _ => Vec::new(),
        };
        let ghost entries = fresh@;
        assert(entries_for(entries, items_brought(*request)) && all_identified(entries));
        self.handle_with_entries(request, fresh, now)
    }

    /// Applies a request that brings the given new queue entries, and yields the
    /// messages to send.
    #[verifier::rlimit(60)]
    #[verifier::spinoff_prover]
    pub fn handle_with_entries(
        &mut self,
        request: &PlaybackRequest,
        fresh: Vec<SyncPlayQueueItem>,
        now: Timestamp,
    ) -> (r: Vec<Outbound>)
        requires
            old(self).wf(),
            old(self)@.manageable(*request, now),
            entries_for(fresh@, items_brought(*request)),
        ensures
            final(self).wf(),
            final(self)@ == old(self)@.after(*request, fresh@, now),
            outbounds(r@) == old(self)@.replies(*request, fresh@, now),
    {
        let ghost g0 = self@;
        let ghost entries = fresh@;
        self.last_updated = now;
        let r: Vec<Outbound> = match request {
            PlaybackRequest::Play { playing_queue, playing_item_position, start_position_ticks } => {
                self.queue.set(fresh, *playing_item_position);
                self.position_ticks = if *start_position_ticks < 0 {
                    0
                } else {
                    *start_position_ticks
                };
                self.resume(now);
                self.set_all_buffering(false);
                vec![
                    Outbound::all(self.queue_message(PlayQueueUpdateReason::NewPlaylist, now)),
                    Outbound::all(
                        self.command_message(SendCommandType::Unpause, self.last_activity, now),
                    ),
                ]
            },
            PlaybackRequest::SetPlaylistItem { playlist_item_id } => {
                if self.queue.set_playing(*playlist_item_id) {
                    self.position_ticks = 0;
                    self.resume(now);
                    vec![
                        Outbound::all(
                            self.queue_message(PlayQueueUpdateReason::SetCurrentItem, now),
                        ),
                        Outbound::all(
                            self.command_message(SendCommandType::Unpause, self.last_activity, now),
                        ),
                    ]
                } else {
                    Vec::new()
                }
            },
            PlaybackRequest::RemoveFromPlaylist { playlist_item_ids, clear_playlist, .. } => {
                if *clear_playlist {
                    self.queue = PlayQueue::new();
                    self.state = GroupStateType::Idle;
                    self.position_ticks = 0;
                    vec![
                        Outbound::all(self.queue_message(PlayQueueUpdateReason::RemoveItems, now)),
                        Outbound::all(self.command_message(SendCommandType::Stop, now, now)),
                    ]
                } else {
                    self.queue.remove(playlist_item_ids.as_slice());
                    vec![
                        Outbound::all(self.queue_message(PlayQueueUpdateReason::RemoveItems, now)),
                    ]
                }
            },
            PlaybackRequest::MovePlaylistItem { playlist_item_id, new_index } => {
                self.queue.move_item(*playlist_item_id, *new_index);
                vec![Outbound::all(self.queue_message(PlayQueueUpdateReason::MoveItem, now))]
            },
            PlaybackRequest::Queue { item_ids, mode } => {
                self.queue.enqueue(fresh, *mode);
                let reason: PlayQueueUpdateReason = match mode {
                    GroupQueueMode::Queue => PlayQueueUpdateReason::Queue,
                    GroupQueueMode::QueueNext => PlayQueueUpdateReason::QueueNext,
                };
                vec![Outbound::all(self.queue_message(reason, now))]
            },
            PlaybackRequest::Unpause => {
                if self.state == GroupStateType::Idle {
                    Vec::new()
                } else {
                    self.resume(now);
                    vec![
                        Outbound::all(
                            self.command_message(SendCommandType::Unpause, self.last_activity, now),
                        ),
                        Outbound::all(self.state_message(PlaybackRequestType::Unpause)),
                    ]
                }
            },
            PlaybackRequest::Pause => {
                if self.state == GroupStateType::Idle {
                    Vec::new()
                } else {
                    self.advance_position(now);
                    self.state = GroupStateType::Paused;
                    self.last_activity = now;
                    vec![
                        Outbound::all(self.command_message(SendCommandType::Pause, now, now)),
                        Outbound::all(self.state_message(PlaybackRequestType::Pause)),
                    ]
                }
            },
            PlaybackRequest::Stop => {
                self.state = GroupStateType::Idle;
                vec![Outbound::all(self.command_message(SendCommandType::Stop, now, now))]
            },
            PlaybackRequest::Seek { position_ticks } => {
                self.position_ticks = if *position_ticks < 0 {
                    0
                } else {
                    *position_ticks
                };
                self.state = GroupStateType::Waiting;
                self.last_activity = now;
                self.set_all_buffering(true);
                vec![
                    Outbound::all(self.command_message(SendCommandType::Seek, now, now)),
                    Outbound::all(self.state_message(PlaybackRequestType::Seek)),
                ]
            },
            PlaybackRequest::Buffer { .. } => {
                self.state = GroupStateType::Waiting;
                vec![
                    Outbound::to(
                        Target::AllReady,
                        self.command_message(SendCommandType::Pause, now, now),
                    ),
                    Outbound::all(self.state_message(PlaybackRequestType::Buffer)),
                ]
            },
            PlaybackRequest::Ready { .. } => self.handle_ready(now),
            PlaybackRequest::NextItem { .. } => {
                if self.queue.next() {
                    self.position_ticks = 0;
                    self.last_activity = self.unpause_when(now);
                    vec![Outbound::all(self.queue_message(PlayQueueUpdateReason::NextItem, now))]
                } else {
                    Vec::new()
                }
            },
            PlaybackRequest::PreviousItem { .. } => {
                if self.queue.previous() {
                    self.position_ticks = 0;
                    self.last_activity = self.unpause_when(now);
                    vec![
                        Outbound::all(self.queue_message(PlayQueueUpdateReason::PreviousItem, now)),
                    ]
                } else {
                    Vec::new()
                }
            },
            PlaybackRequest::SetRepeatMode { mode } => {
                self.queue.repeat = *mode;
                vec![Outbound::all(self.queue_message(PlayQueueUpdateReason::RepeatMode, now))]
            },
            PlaybackRequest::SetShuffleMode { mode } => {
                self.queue.shuffle = *mode;
                vec![Outbound::all(self.queue_message(PlayQueueUpdateReason::ShuffleMode, now))]
            },
            PlaybackRequest::Ping { .. } => Vec::new(),
            PlaybackRequest::IgnoreWait { .. } => Vec::new(),
        };
        assert(outbounds(r@) =~= g0.replies(*request, entries, now));
        r
    }

    /// A member reports that it is ready. A waiting group resumes; a playing one
    /// has only that member catch up.
    fn handle_ready(&mut self, now: Timestamp) -> (r: Vec<Outbound>)
        requires
            old(self)@.state == GroupStateType::Waiting || old(self)@.state
                == GroupStateType::Playing ==> old(self)@.can_schedule(now),
        ensures
            final(self).queue == old(self).queue,
            final(self)@ == ({
                let h = GroupView { members: all_buffering(old(self)@.members, false), ..old(self)@ };
                if old(self)@.state == GroupStateType::Waiting {
                    h.resumed(now)
                } else {
                    h
                }
            }),
            outbounds(r@) == if old(self)@.state == GroupStateType::Waiting {
                seq![
                    to_all(
                        final(self)@.command(
                            SendCommandType::Unpause,
                            final(self)@.last_activity,
                            now,
                        ),
                    ),
                    to_all(final(self)@.state_news(PlaybackRequestType::Ready)),
                ]
            } else if old(self)@.state == GroupStateType::Playing {
                seq![
                    OutboundView {
                        target: Target::CurrentSession,
                        body: final(self)@.command(
                            SendCommandType::Unpause,
                            final(self)@.scheduled(now),
                            now,
                        ),
                    },
                ]
            } else {
                seq![]
            },
    {
        let ghost g0 = self@;
        self.set_all_buffering(false);
        proof {
            lemma_buffering_keeps_pings(g0.members, false);
        }
        let r: Vec<Outbound> = if self.state == GroupStateType::Waiting {
            self.resume(now);
            vec![
                Outbound::all(
                    self.command_message(SendCommandType::Unpause, self.last_activity, now),
                ),
                Outbound::all(self.state_message(PlaybackRequestType::Ready)),
            ]
        } else if self.state == GroupStateType::Playing {
            vec![
                Outbound::to(
                    Target::CurrentSession,
                    self.command_message(SendCommandType::Unpause, self.unpause_when(now), now),
                ),
            ]
        } else {
            Vec::new()
        };
        r
    }
}

/// The member that a session becomes.
pub open spec fn new_member(session: SyncPlaySession) -> MemberView {
    MemberView {
        session_id: session.session_id@,
        user_name: session.user_name@,
        ping_ms: DEFAULT_PING_MS as int,
        is_buffering: false,
        ignore_wait: false,
    }
}

/// The members and the session, which is not added twice.
pub open spec fn joined_members(
    members: Seq<MemberView>,
    session: SyncPlaySession,
) -> Seq<MemberView> {
    if has_member(members, session.session_id@) {
        members
    } else {
        members.push(new_member(session))
    }
}

fn sort_texts(v: Vec<String>) -> (r: Vec<String>)
    ensures
        texts(r@) == sorted(texts(v@), by_text()),
{
    let ghost less = |a: String, b: String| text_less(a@, b@);
    let ghost all = v@;
    let before = |a: &String, b: &String| -> (c: bool)
        ensures
            c == text_less(a@, b@),
        { text_before(a.as_str(), b.as_str()) };
    let r: Vec<String> = sort_by(v, before, Ghost(less));
    proof {
        lemma_sorted_texts(all, less);
    }
    r
}

proof fn lemma_sorted_texts(v: Seq<String>, less: spec_fn(String, String) -> bool)
    requires
        less == (|a: String, b: String| text_less(a@, b@)),
    ensures
        texts(sorted(v, less)) == sorted(texts(v), by_text()),
    decreases v.len(),
{
    if v.len() > 0 {
        lemma_sorted_texts(v.drop_last(), less);
        assert(texts(v).drop_last() =~= texts(v.drop_last()));
        lemma_inserted_texts(sorted(v.drop_last(), less), v.last(), less);
    } else {
        assert(texts(v) =~= Seq::<Seq<char>>::empty());
        assert(texts(sorted(v, less)) =~= Seq::<Seq<char>>::empty());
    }
}

proof fn lemma_inserted_texts(s: Seq<String>, x: String, less: spec_fn(String, String) -> bool)
    requires
        less == (|a: String, b: String| text_less(a@, b@)),
    ensures
        texts(inserted(s, x, less)) == inserted(texts(s), x@, by_text()),
    decreases s.len(),
{
    if s.len() > 0 && less(x, s.last()) {
        lemma_inserted_texts(s.drop_last(), x, less);
        assert(texts(s).drop_last() =~= texts(s.drop_last()));
        assert(texts(inserted(s, x, less)) =~= texts(
            inserted(s.drop_last(), x, less),
        ).push(s.last()@));
    } else {
        assert(texts(s.push(x)) =~= texts(s).push(x@));
    }
}

fn dedup_texts(v: Vec<String>) -> (r: Vec<String>)
    ensures
        texts(r@) == deduped(texts(v@)),
{
    let ghost all = texts(v@);
    let mut out: Vec<String> = Vec::new();
    let mut i: usize = 0;
    assert(texts(out@) =~= deduped(all.take(0)));
    while i < v.len()
        invariant
            i <= v.len(),
            all == texts(v@),
            texts(out@) == deduped(all.take(i as int)),
        decreases v.len() - i,
    {
        let ghost before = texts(out@);
        assert(all.take(i + 1).drop_last() =~= all.take(i as int));
        assert(all.take(i + 1).last() == v@[i as int]@);
        if i > 0 {
            assert(all.take(i + 1)[i - 1] == v@[i - 1]@);
        }
        if !(i > 0 && same_text(v[i - 1].as_str(), v[i].as_str())) {
            out.push(v[i].clone());
            assert(texts(out@) =~= before.push(v@[i as int]@));
        }
        i += 1;
    }
    assert(all.take(all.len() as int) =~= all);
    out
}

} // verus!
