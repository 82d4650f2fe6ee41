//! The sessions of clients, and what they are told.
//!
//! A session belongs to one app on one device. It is opened on first contact and
//! kept in memory until it ends. Each session has the handles of the web sockets
//! that are attached to it; whether those are open is asked from outside and
//! comes in as `Liveness`.
use vstd::prelude::*;

use crate::guid::{guid_in, guid_simple_text, new_guid, parse_guid, simple_text, Guid};
use crate::json::{
    envelope, envelope_text, guid_json, json_guid, json_number, json_string, number_json, quote_json,
};
use crate::number_text::{decimal, int_text};
use crate::service_error::{ErrorView, ServiceError};
use crate::sort::{inserted, sort_by, sorted};
use crate::sql::{copy_text, give, say, BindView, Sql, SqlBuilder};
use crate::text::{
    concat, contains_text, eq_ignore_ascii_case, opt_text, same_ignoring_case, same_text, texts,
};
use crate::time::Timestamp;

verus! {

/// The name of a device that does not tell its own.
pub const DEFAULT_DEVICE_NAME: &'static str = "Network Device";

// ---------------------------------------------------------------------------
// Sessions
// ---------------------------------------------------------------------------
/// A user who shares a session.
#[derive(Debug, Clone)]
pub struct SessionUserInfo {
    pub user_id: Guid,
    pub user_name: Option<String>,
}

/// What a sharing user stands for.
pub struct SessionUserView {
    pub user_id: Guid,
    pub user_name: Option<Seq<char>>,
}

impl View for SessionUserInfo {
    type V = SessionUserView;

    open spec fn view(&self) -> SessionUserView {
        SessionUserView { user_id: self.user_id, user_name: opt_text(self.user_name) }
    }
}

/// What a list of sharing users stands for.
pub open spec fn user_views(v: Seq<SessionUserInfo>) -> Seq<SessionUserView> {
    Seq::new(v.len(), |i: int| v[i]@)
}

/// What a client says that it can do.
#[derive(Debug, Clone)]
pub struct ClientCapabilities {
    pub playable_media_types: Vec<String>,
    pub supported_commands: Vec<String>,
    pub supports_media_control: bool,
    /// Everything else that the client reports, as a JSON text.
    pub details: String,
}

/// What a client's capabilities stand for.
#[verifier::ext_equal]
pub struct CapabilitiesView {
    pub playable_media_types: Seq<Seq<char>>,
    pub supported_commands: Seq<Seq<char>>,
    pub supports_media_control: bool,
    pub details: Seq<char>,
}

impl View for ClientCapabilities {
    type V = CapabilitiesView;

    open spec fn view(&self) -> CapabilitiesView {
        CapabilitiesView {
            playable_media_types: texts(self.playable_media_types@),
            supported_commands: texts(self.supported_commands@),
            supports_media_control: self.supports_media_control,
            details: self.details@,
        }
    }
}

/// The capabilities of a client that has not reported any.
pub open spec fn no_capabilities() -> CapabilitiesView {
    CapabilitiesView {
        playable_media_types: Seq::empty(),
        supported_commands: Seq::empty(),
        supports_media_control: false,
        details: Seq::empty(),
    }
}

impl Default for ClientCapabilities {
    fn default() -> (r: Self)
        ensures
            r@ == no_capabilities(),
    {
        let r: ClientCapabilities = ClientCapabilities {
            playable_media_types: Vec::new(),
            supported_commands: Vec::new(),
            supports_media_control: false,
            details: String::new(),
        };
        assert(r@ =~= no_capabilities());
        r
    }
}

/// The state of a session.
#[derive(Debug, Clone)]
pub struct SessionInfo {
    /// What the session is kept under: the app's name and the device's id.
    pub key: String,
    pub id: String,
    pub user_id: Guid,
    pub user_name: Option<String>,
    pub client: Option<String>,
    pub device_id: String,
    pub device_name: Option<String>,
    pub application_version: Option<String>,
    pub remote_end_point: Option<String>,
    pub server_id: Option<String>,
    pub has_custom_device_name: bool,
    pub last_activity_date: Timestamp,
    pub last_playback_check_in: Timestamp,
    pub last_paused_date: Option<Timestamp>,
    pub now_playing_item_id: Option<Guid>,
    pub now_viewing_item_id: Option<Guid>,
    pub additional_users: Vec<SessionUserInfo>,
    pub capabilities: ClientCapabilities,
    /// What the transcoder reports, as a JSON text.
    pub transcoding_info: Option<String>,
    pub is_playing: bool,
    /// The handles of the attached web sockets.
    pub connections: Vec<u64>,
}

/// What a session stands for.
#[verifier::ext_equal]
pub struct SessionView {
    pub key: Seq<char>,
    pub id: Seq<char>,
    pub user_id: Guid,
    pub user_name: Option<Seq<char>>,
    pub client: Option<Seq<char>>,
    pub device_id: Seq<char>,
    pub device_name: Option<Seq<char>>,
    pub application_version: Option<Seq<char>>,
    pub remote_end_point: Option<Seq<char>>,
    pub server_id: Option<Seq<char>>,
    pub has_custom_device_name: bool,
    pub last_activity_date: Timestamp,
    pub last_playback_check_in: Timestamp,
    pub last_paused_date: Option<Timestamp>,
    pub now_playing_item_id: Option<Guid>,
    pub now_viewing_item_id: Option<Guid>,
    pub additional_users: Seq<SessionUserView>,
    pub capabilities: CapabilitiesView,
    pub transcoding_info: Option<Seq<char>>,
    pub is_playing: bool,
    pub connections: Seq<u64>,
}

impl View for SessionInfo {
    type V = SessionView;

    open spec fn view(&self) -> SessionView {
        SessionView {
            key: self.key@,
            id: self.id@,
            user_id: self.user_id,
            user_name: opt_text(self.user_name),
            client: opt_text(self.client),
            device_id: self.device_id@,
            device_name: opt_text(self.device_name),
            application_version: opt_text(self.application_version),
            remote_end_point: opt_text(self.remote_end_point),
            server_id: opt_text(self.server_id),
            has_custom_device_name: self.has_custom_device_name,
            last_activity_date: self.last_activity_date,
            last_playback_check_in: self.last_playback_check_in,
            last_paused_date: self.last_paused_date,
            now_playing_item_id: self.now_playing_item_id,
            now_viewing_item_id: self.now_viewing_item_id,
            additional_users: user_views(self.additional_users@),
            capabilities: self.capabilities@,
            transcoding_info: opt_text(self.transcoding_info),
            is_playing: self.is_playing,
            connections: self.connections@,
        }
    }
}

/// Whether one of the sharing users is the given one.
pub open spec fn shared_with(users: Seq<SessionUserView>, user_id: Guid) -> bool {
    exists|i: int| 0 <= i < users.len() && (#[trigger] users[i]).user_id == user_id
}

impl SessionView {
    /// Whether the user is the session's own or shares it.
    pub open spec fn contains_user(self, user_id: Guid) -> bool {
        self.user_id == user_id || shared_with(self.additional_users, user_id)
    }
}

/// Which sockets are open, and which sessions the message bus reaches.
#[derive(Debug, Clone)]
pub struct Liveness {
    /// The handles of the open sockets.
    pub open: Vec<u64>,
    /// The ids of the sessions with a sink on the bus, where there is a bus.
    pub on_bus: Option<Vec<String>>,
}

impl Liveness {
    /// Whether the session has a sink on the bus.
    pub open spec fn bus_reaches(&self, id: Seq<char>) -> bool {
        self.on_bus matches Some(ids) && texts(ids@).contains(id)
    }

    /// Whether one of the sockets is open.
    pub open spec fn any_open(&self, connections: Seq<u64>) -> bool {
        exists|i: int| 0 <= i < connections.len() && self.open@.contains(#[trigger] connections[i])
    }

    /// Whether a message reaches the session: through an open socket, or through
    /// the bus.
    pub open spec fn reaches(&self, s: SessionView) -> bool {
        self.any_open(s.connections) || self.bus_reaches(s.id)
    }

    /// Whether a session counts as active: it has no socket at all, or a message
    /// reaches it.
    pub open spec fn is_active(&self, s: SessionView) -> bool {
        s.connections.len() == 0 || self.reaches(s)
    }

    /// Whether a session can be controlled from elsewhere: its client takes
    /// commands, and a message reaches it.
    pub open spec fn controllable(&self, s: SessionView) -> bool {
        s.capabilities.supports_media_control && self.reaches(s)
    }

    fn has_open(&self, handle: u64) -> (r: bool)
        ensures
            r == self.open@.contains(handle),
    {
        let mut i: usize = 0;
        while i < self.open.len()
            invariant
                i <= self.open.len(),
                forall|j: int| 0 <= j < i ==> self.open@[j] != handle,
            decreases self.open.len() - i,
        {
            if self.open[i] == handle {
                return true;
            }
            i += 1;
        }
        false
    }

    fn has_any_open(&self, connections: &[u64]) -> (r: bool)
        ensures
            r == self.any_open(connections@),
    {
        let mut i: usize = 0;
        while i < connections.len()
            invariant
                i <= connections.len(),
                forall|j: int| 0 <= j < i ==> !self.open@.contains(#[trigger] connections@[j]),
            decreases connections.len() - i,
        {
            if self.has_open(connections[i]) {
                assert(self.open@.contains(connections@[i as int]));
                return true;
            }
            i += 1;
        }
        false
    }

    fn is_on_bus(&self, id: &str) -> (r: bool)
        ensures
            r == self.bus_reaches(id@),
    {
        match &self.on_bus {
            Some(ids) => contains_text(ids.as_slice(), id),
            None => false,
        }
    }

    /// Whether a message reaches the session.
    pub fn session_is_active(&self, session: &SessionInfo) -> (r: bool)
        ensures
            r == self.reaches(session@),
    {
        self.has_any_open(session.connections.as_slice()) || self.is_on_bus(session.id.as_str())
    }

    /// Whether a session counts as active.
    pub fn session_is_active_dto(&self, session: &SessionInfo) -> (r: bool)
        ensures
            r == self.is_active(session@),
    {
        session.connections.len() == 0 || self.session_is_active(session)
    }

    /// Whether a session can be controlled from elsewhere.
    pub fn session_supports_remote_control(&self, session: &SessionInfo) -> (r: bool)
        ensures
            r == self.controllable(session@),
    {
        session.capabilities.supports_media_control && self.session_is_active(session)
    }
}

fn copy_texts(v: &Vec<String>) -> (r: Vec<String>)
    ensures
        texts(r@) == texts(v@),
{
    let mut out: Vec<String> = Vec::new();
    let mut i: usize = 0;
    while i < v.len()
        invariant
            i <= v.len(),
            out@.len() == i,
            forall|j: int| 0 <= j < i ==> (#[trigger] out@[j])@ == v@[j]@,
        decreases v.len() - i,
    {
        out.push(v[i].clone());
        i += 1;
    }
    assert(texts(out@) =~= texts(v@));
    out
}

fn copy_users(v: &Vec<SessionUserInfo>) -> (r: Vec<SessionUserInfo>)
    ensures
        user_views(r@) == user_views(v@),
{
    let mut out: Vec<SessionUserInfo> = Vec::new();
    let mut i: usize = 0;
    while i < v.len()
        invariant
            i <= v.len(),
            out@.len() == i,
            forall|j: int| 0 <= j < i ==> (#[trigger] out@[j])@ == v@[j]@,
        decreases v.len() - i,
    {
        out.push(SessionUserInfo { user_id: v[i].user_id, user_name: copy_text(&v[i].user_name) });
        i += 1;
    }
    assert(user_views(out@) =~= user_views(v@));
    out
}

fn copy_handles(v: &Vec<u64>) -> (r: Vec<u64>)
    ensures
        r@ == v@,
{
    let mut out: Vec<u64> = Vec::new();
    let mut i: usize = 0;
    while i < v.len()
        invariant
            i <= v.len(),
            out@ == v@.take(i as int),
        decreases v.len() - i,
    {
        out.push(v[i]);
        assert(out@ =~= v@.take(i + 1));
        i += 1;
    }
    assert(v@.take(v@.len() as int) =~= v@);
    out
}

impl ClientCapabilities {
    /// The same capabilities once more.
    pub fn duplicate(&self) -> (r: Self)
        ensures
            r@ == self@,
    {
        ClientCapabilities {
            playable_media_types: copy_texts(&self.playable_media_types),
            supported_commands: copy_texts(&self.supported_commands),
            supports_media_control: self.supports_media_control,
            details: self.details.clone(),
        }
    }
}

impl SessionInfo {
    /// The same session once more.
    pub fn duplicate(&self) -> (r: Self)
        ensures
            r@ == self@,
    {
        SessionInfo {
            key: self.key.clone(),
            id: self.id.clone(),
            user_id: self.user_id,
            user_name: copy_text(&self.user_name),
            client: copy_text(&self.client),
            device_id: self.device_id.clone(),
            device_name: copy_text(&self.device_name),
            application_version: copy_text(&self.application_version),
            remote_end_point: copy_text(&self.remote_end_point),
            server_id: copy_text(&self.server_id),
            has_custom_device_name: self.has_custom_device_name,
            last_activity_date: self.last_activity_date,
            last_playback_check_in: self.last_playback_check_in,
            last_paused_date: self.last_paused_date,
            now_playing_item_id: self.now_playing_item_id,
            now_viewing_item_id: self.now_viewing_item_id,
            additional_users: copy_users(&self.additional_users),
            capabilities: self.capabilities.duplicate(),
            transcoding_info: copy_text(&self.transcoding_info),
            is_playing: self.is_playing,
            connections: copy_handles(&self.connections),
        }
    }

    /// Whether the user is the session's own or shares it.
    pub fn contains_user(&self, user_id: Guid) -> (r: bool)
        ensures
            r == self@.contains_user(user_id),
    {
        if self.user_id == user_id {
            return true;
        }
        self.is_shared_with(user_id)
    }

    fn is_shared_with(&self, user_id: Guid) -> (r: bool)
        ensures
            r == shared_with(self@.additional_users, user_id),
    {
        let mut i: usize = 0;
        while i < self.additional_users.len()
            invariant
                i <= self.additional_users.len(),
                forall|j: int|
                    0 <= j < i ==> (#[trigger] self@.additional_users[j]).user_id != user_id,
            decreases self.additional_users.len() - i,
        {
            assert(self@.additional_users[i as int].user_id == self.additional_users@[i as int].user_id);
            if self.additional_users[i].user_id == user_id {
                return true;
            }
            i += 1;
        }
        false
    }
}

// ---------------------------------------------------------------------------
// What others see of a session
// ---------------------------------------------------------------------------
/// How playback stands at a client.
#[derive(Debug, Clone, Copy, PartialEq, Eq, Structural)]
pub struct PlayerStateInfo {
    pub position_ticks: Option<i64>,
    pub can_seek: bool,
    pub is_paused: bool,
    pub is_muted: bool,
}

/// How playback stands at a client that has reported nothing.
pub open spec fn nothing_reported() -> PlayerStateInfo {
    PlayerStateInfo { position_ticks: None, can_seek: false, is_paused: false, is_muted: false }
}

impl Default for PlayerStateInfo {
    /// How playback stands at a client that has reported nothing.
    fn default() -> (r: Self)
        ensures
            r == nothing_reported(),
    {
        PlayerStateInfo { position_ticks: None, can_seek: false, is_paused: false, is_muted: false }
    }
}

/// What others see of a session. A play state and two queues are always part of
/// it: sessions hold no report of them, so they are those of a client that has
/// reported nothing.
#[derive(Debug, Clone)]
pub struct SessionInfoDto {
    pub id: String,
    pub user_id: Guid,
    pub user_name: Option<String>,
    pub client: Option<String>,
    pub device_id: String,
    pub device_name: Option<String>,
    pub application_version: Option<String>,
    pub remote_end_point: Option<String>,
    pub server_id: Option<String>,
    pub has_custom_device_name: bool,
    pub last_activity_date: Timestamp,
    pub last_playback_check_in: Timestamp,
    pub last_paused_date: Option<Timestamp>,
    pub additional_users: Vec<SessionUserInfo>,
    pub capabilities: ClientCapabilities,
    pub transcoding_info: Option<String>,
    pub is_active: bool,
    pub supports_remote_control: bool,
    pub play_state: PlayerStateInfo,
    /// The items in the queue that is playing.
    pub now_playing_queue: Vec<Guid>,
    /// The same items, for clients that want them described in full.
    pub now_playing_queue_full_items: Vec<Guid>,
}

/// What that stands for.
#[verifier::ext_equal]
pub struct DtoView {
    pub id: Seq<char>,
    pub user_id: Guid,
    pub user_name: Option<Seq<char>>,
    pub client: Option<Seq<char>>,
    pub device_id: Seq<char>,
    pub device_name: Option<Seq<char>>,
    pub application_version: Option<Seq<char>>,
    pub remote_end_point: Option<Seq<char>>,
    pub server_id: Option<Seq<char>>,
    pub has_custom_device_name: bool,
    pub last_activity_date: Timestamp,
    pub last_playback_check_in: Timestamp,
    pub last_paused_date: Option<Timestamp>,
    pub additional_users: Seq<SessionUserView>,
    pub capabilities: CapabilitiesView,
    pub transcoding_info: Option<Seq<char>>,
    pub is_active: bool,
    pub supports_remote_control: bool,
    pub play_state: PlayerStateInfo,
    pub now_playing_queue: Seq<Guid>,
    pub now_playing_queue_full_items: Seq<Guid>,
}

impl View for SessionInfoDto {
    type V = DtoView;

    open spec fn view(&self) -> DtoView {
        DtoView {
            id: self.id@,
            user_id: self.user_id,
            user_name: opt_text(self.user_name),
            client: opt_text(self.client),
            device_id: self.device_id@,
            device_name: opt_text(self.device_name),
            application_version: opt_text(self.application_version),
            remote_end_point: opt_text(self.remote_end_point),
            server_id: opt_text(self.server_id),
            has_custom_device_name: self.has_custom_device_name,
            last_activity_date: self.last_activity_date,
            last_playback_check_in: self.last_playback_check_in,
            last_paused_date: self.last_paused_date,
            additional_users: user_views(self.additional_users@),
            capabilities: self.capabilities@,
            transcoding_info: opt_text(self.transcoding_info),
            is_active: self.is_active,
            supports_remote_control: self.supports_remote_control,
            play_state: self.play_state,
            now_playing_queue: self.now_playing_queue@,
            now_playing_queue_full_items: self.now_playing_queue_full_items@,
        }
    }
}

/// What others see of a session. How its transcoding runs is for administrators.
pub open spec fn dto_of(s: SessionView, live: Liveness, with_transcoding: bool) -> DtoView {
    DtoView {
        id: s.id,
        user_id: s.user_id,
        user_name: s.user_name,
        client: s.client,
        device_id: s.device_id,
        device_name: s.device_name,
        application_version: s.application_version,
        remote_end_point: s.remote_end_point,
        server_id: s.server_id,
        has_custom_device_name: s.has_custom_device_name,
        last_activity_date: s.last_activity_date,
        last_playback_check_in: s.last_playback_check_in,
        last_paused_date: s.last_paused_date,
        additional_users: s.additional_users,
        capabilities: s.capabilities,
        transcoding_info: if with_transcoding {
            s.transcoding_info
        } else {
            None
        },
        is_active: live.is_active(s),
        supports_remote_control: live.controllable(s),
        play_state: nothing_reported(),
        now_playing_queue: Seq::empty(),
        now_playing_queue_full_items: Seq::empty(),
    }
}

/// What others see of a session.
pub fn to_dto(session: &SessionInfo, live: &Liveness, with_transcoding: bool) -> (r:
    SessionInfoDto)
    ensures
        r@ == dto_of(session@, *live, with_transcoding),
{
    SessionInfoDto {
        id: session.id.clone(),
        user_id: session.user_id,
        user_name: copy_text(&session.user_name),
        client: copy_text(&session.client),
        device_id: session.device_id.clone(),
        device_name: copy_text(&session.device_name),
        application_version: copy_text(&session.application_version),
        remote_end_point: copy_text(&session.remote_end_point),
        server_id: copy_text(&session.server_id),
        has_custom_device_name: session.has_custom_device_name,
        last_activity_date: session.last_activity_date,
        last_playback_check_in: session.last_playback_check_in,
        last_paused_date: session.last_paused_date,
        additional_users: copy_users(&session.additional_users),
        capabilities: session.capabilities.duplicate(),
        transcoding_info: if with_transcoding {
            copy_text(&session.transcoding_info)
        } else {
            None
        },
        is_active: live.session_is_active_dto(session),
        supports_remote_control: live.session_supports_remote_control(session),
        play_state: PlayerStateInfo::default(),
        now_playing_queue: Vec::new(),
        now_playing_queue_full_items: Vec::new(),
    }
}

/// What a session shows of itself: only its own sockets count as a way to reach it.
pub open spec fn own_dto(s: SessionView, live: Liveness) -> DtoView {
    let reached = live.any_open(s.connections);
    DtoView {
        is_active: reached,
        supports_remote_control: s.capabilities.supports_media_control && reached,
        ..dto_of(s, live, true)
    }
}

/// What a session shows of itself, whatever the bus reaches. Listeners of its start
/// and end are told this.
pub fn session_info_to_dto(session: &SessionInfo, live: &Liveness) -> (r: SessionInfoDto)
    ensures
        r@ == own_dto(session@, *live),
{
    let mut dto: SessionInfoDto = to_dto(session, live, true);
    let reached: bool = live.has_any_open(session.connections.as_slice());
    dto.is_active = reached;
    dto.supports_remote_control = session.capabilities.supports_media_control && reached;
    dto
}

// ---------------------------------------------------------------------------
// The table of sessions
// ---------------------------------------------------------------------------
/// The sessions, in the order in which they were opened.
#[derive(Debug)]
pub struct HermitSessionManager {
    /// The id of this server.
    pub server_id: String,
    pub sessions: Vec<SessionInfo>,
}

/// The sessions, as they stand.
pub type Sessions = Seq<SessionView>;

/// What a list of sessions stands for.
pub open spec fn session_views(v: Seq<SessionInfo>) -> Sessions {
    Seq::new(v.len(), |i: int| v[i]@)
}

impl View for HermitSessionManager {
    type V = Sessions;

    open spec fn view(&self) -> Sessions {
        session_views(self.sessions@)
    }
}

/// Where the session with the given id stands; the length where there is none.
pub open spec fn place_of(s: Sessions, id: Seq<char>) -> int
    decreases s.len(),
{
    if s.len() == 0 || s[0].id == id {
        0
    } else {
        1 + place_of(s.drop_first(), id)
    }
}

/// Whether there is a session with the given id.
pub open spec fn has_session(s: Sessions, id: Seq<char>) -> bool {
    exists|i: int| 0 <= i < s.len() && (#[trigger] s[i]).id == id
}

/// Where the session with the given key stands; the length where there is none.
pub open spec fn key_place(s: Sessions, key: Seq<char>) -> int
    decreases s.len(),
{
    if s.len() == 0 || s[0].key == key {
        0
    } else {
        1 + key_place(s.drop_first(), key)
    }
}

/// No two sessions share a key.
pub open spec fn distinct_sessions(s: Sessions) -> bool {
    forall|i: int, j: int|
        0 <= i < j < s.len() ==> (#[trigger] s[i]).key != (#[trigger] s[j]).key
}

/// Every session tells the given id of the server.
pub open spec fn all_of_server(s: Sessions, server_id: Seq<char>) -> bool {
    forall|i: int| 0 <= i < s.len() ==> (#[trigger] s[i]).server_id == Some(server_id)
}

/// No two sessions share an id.
pub open spec fn distinct_ids(s: Sessions) -> bool {
    forall|i: int, j: int| 0 <= i < j < s.len() ==> (#[trigger] s[i]).id != (#[trigger] s[j]).id
}

/// The place of an id is that of a session with this id, wherever there is one.
pub proof fn lemma_place_of(s: Sessions, id: Seq<char>)
    ensures
        0 <= place_of(s, id) <= s.len(),
        place_of(s, id) < s.len() ==> s[place_of(s, id)].id == id,
        forall|j: int| 0 <= j < place_of(s, id) ==> (#[trigger] s[j]).id != id,
        has_session(s, id) == (place_of(s, id) < s.len()),
    decreases s.len(),
{
    if s.len() > 0 && s[0].id != id {
        let t = s.drop_first();
        lemma_place_of(t, id);
        assert forall|j: int| 0 <= j < place_of(s, id) implies (#[trigger] s[j]).id != id by {
            if j > 0 {
                assert(t[j - 1] == s[j]);
            }
        }
        if has_session(s, id) {
            let i = choose|i: int| 0 <= i < s.len() && (#[trigger] s[i]).id == id;
            assert(t[i - 1].id == id);
        }
        if place_of(s, id) < s.len() {
            assert(t[place_of(t, id)] == s[place_of(s, id)]);
        }
    } else if s.len() > 0 {
        assert(s[0].id == id);
    }
}

/// The place of a key is that of a session with this key, wherever there is one.
pub proof fn lemma_key_place(s: Sessions, key: Seq<char>)
    ensures
        0 <= key_place(s, key) <= s.len(),
        key_place(s, key) < s.len() ==> s[key_place(s, key)].key == key,
        forall|j: int| 0 <= j < key_place(s, key) ==> (#[trigger] s[j]).key != key,
    decreases s.len(),
{
    if s.len() > 0 && s[0].key != key {
        let t = s.drop_first();
        lemma_key_place(t, key);
        assert forall|j: int| 0 <= j < key_place(s, key) implies (#[trigger] s[j]).key != key by {
            if j > 0 {
                assert(t[j - 1] == s[j]);
            }
        }
        if key_place(s, key) < s.len() {
            assert(t[key_place(t, key)] == s[key_place(s, key)]);
        }
    }
}

proof fn lemma_place_unique(s: Sessions, id: Seq<char>, k: int)
    requires
        0 <= k <= s.len(),
        forall|j: int| 0 <= j < k ==> (#[trigger] s[j]).id != id,
        k < s.len() ==> s[k].id == id,
    ensures
        place_of(s, id) == k,
{
    lemma_place_of(s, id);
    if place_of(s, id) < k {
        assert(s[place_of(s, id)].id != id);
    }
}

proof fn lemma_key_place_unique(s: Sessions, key: Seq<char>, k: int)
    requires
        0 <= k <= s.len(),
        forall|j: int| 0 <= j < k ==> (#[trigger] s[j]).key != key,
        k < s.len() ==> s[k].key == key,
    ensures
        key_place(s, key) == k,
{
    lemma_key_place(s, key);
    if key_place(s, key) < k {
        assert(s[key_place(s, key)].key != key);
    }
}

/// The error for a session that does not exist.
pub open spec fn no_session(id: Seq<char>) -> ErrorView {
    ErrorView::NotFound("session "@ + id)
}

fn missing_session(id: &str) -> (r: ServiceError)
    ensures
        r@ == no_session(id@),
{
    ServiceError::NotFound(concat("session ", id))
}

/// What a client tells of itself on each contact.
#[derive(Debug, Clone)]
pub struct Contact {
    pub app_name: String,
    pub app_version: String,
    pub device_id: String,
    pub device_name: String,
    pub remote_endpoint: String,
}

/// What sessions read of a user's row.
#[derive(Debug, Clone)]
pub struct SessionUser {
    pub id: String,
    pub username: String,
    pub max_active_sessions: i64,
}

/// The identifier in a user's row; the nil one where it cannot be read.
pub open spec fn user_id_in(id: Seq<char>) -> Guid {
    match guid_in(id) {
        Some(g) => g,
        None => (Guid { value: 0 }),
    }
}

/// The identifier in a user's row; the nil one where it cannot be read.
pub fn parse_user_id(id: &str) -> (r: Guid)
    ensures
        r == user_id_in(id@),
{
    match parse_guid(id) {
        Some(g) => g,
        None => Guid::nil(),
    }
}

/// The key of a client's session.
pub open spec fn session_key_of(c: Contact) -> Seq<char> {
    c.app_name@ + c.device_id@
}

/// The key that the sessions of an app on a device are kept under.
pub fn session_key(app_name: &str, device_id: &str) -> (r: String)
    ensures
        r@ == app_name@ + device_id@,
{
    concat(app_name, device_id)
}

/// The name that a client gives its device, or the default one.
pub open spec fn reported_name(c: Contact) -> Seq<char> {
    if c.device_name@.len() == 0 {
        DEFAULT_DEVICE_NAME@
    } else {
        c.device_name@
    }
}

/// The device name that a user has chosen, unless it is empty.
pub open spec fn chosen_name(custom: Option<String>) -> Option<Seq<char>> {
    match custom {
        Some(n) => if n@.len() > 0 {
            Some(n@)
        } else {
            None
        },
        None => None,
    }
}

/// A session on first contact.
pub open spec fn opened(
    c: Contact,
    session_id: Seq<char>,
    server_id: Seq<char>,
    user: Option<SessionUser>,
    custom: Option<String>,
    now: Timestamp,
) -> SessionView {
    SessionView {
        key: session_key_of(c),
        id: session_id,
        user_id: contact_user_id(user),
        user_name: contact_user_name(user),
        client: Some(c.app_name@),
        device_id: c.device_id@,
        device_name: Some(
            match chosen_name(custom) {
                Some(n) => n,
                None => reported_name(c),
            },
        ),
        application_version: Some(c.app_version@),
        remote_end_point: Some(c.remote_endpoint@),
        server_id: Some(server_id),
        has_custom_device_name: chosen_name(custom) is Some,
        last_activity_date: now,
        last_playback_check_in: now,
        last_paused_date: None,
        now_playing_item_id: None,
        now_viewing_item_id: None,
        additional_users: Seq::empty(),
        capabilities: no_capabilities(),
        transcoding_info: None,
        is_playing: false,
        connections: Seq::empty(),
    }
}

/// The user of a contact; the nil identifier where there is none.
pub open spec fn contact_user_id(user: Option<SessionUser>) -> Guid {
    match user {
        Some(u) => user_id_in(u.id@),
        None => (Guid { value: 0 }),
    }
}

/// The name of a contact's user.
pub open spec fn contact_user_name(user: Option<SessionUser>) -> Option<Seq<char>> {
    match user {
        Some(u) => Some(u.username@),
        None => None,
    }
}

/// A session after another contact. A device name that a user has chosen stays; a
/// contact without a user ends the sharing.
pub open spec fn refreshed(
    s: SessionView,
    c: Contact,
    user: Option<SessionUser>,
    now: Timestamp,
) -> SessionView {
    SessionView {
        user_id: contact_user_id(user),
        user_name: contact_user_name(user),
        remote_end_point: Some(c.remote_endpoint@),
        client: Some(c.app_name@),
        application_version: Some(c.app_version@),
        last_activity_date: now,
        device_name: if s.has_custom_device_name && s.device_name is Some {
            s.device_name
        } else {
            Some(reported_name(c))
        },
        additional_users: if user is None {
            Seq::empty()
        } else {
            s.additional_users
        },
        ..s
    }
}

/// The sessions after a contact: one of them is new or refreshed.
pub open spec fn contacted(
    s: Sessions,
    c: Contact,
    session_id: Seq<char>,
    server_id: Seq<char>,
    user: Option<SessionUser>,
    custom: Option<String>,
    now: Timestamp,
) -> Sessions {
    let i = key_place(s, session_key_of(c));
    if i < s.len() {
        s.update(i, refreshed(s[i], c, user, now))
    } else {
        s.push(opened(c, session_id, server_id, user, custom, now))
    }
}

/// A contact with a session that was opened before keeps its id, its device name
/// if that was chosen, its capabilities and its sockets, and opens no other. The
/// device name if none was chosen, the client and its version, the endpoint and the
/// user are then those of the second contact, and so is the time.
pub proof fn law_contact_reuses_the_session(
    s: Sessions,
    c: Contact,
    again: Contact,
    session_id: Seq<char>,
    other_id: Seq<char>,
    server_id: Seq<char>,
    user: Option<SessionUser>,
    other_user: Option<SessionUser>,
    custom: Option<String>,
    now: Timestamp,
    later: Timestamp,
)
    requires
        session_key_of(c) == session_key_of(again),
    ensures
        ({
            let once = contacted(s, c, session_id, server_id, user, custom, now);
            let twice = contacted(once, again, other_id, server_id, other_user, custom, later);
            let i = key_place(once, session_key_of(c));
            &&& twice.len() == once.len()
            &&& 0 <= i < once.len()
            &&& twice[i].id == once[i].id
            &&& twice[i].capabilities == once[i].capabilities
            &&& twice[i].connections == once[i].connections
            &&& once[i].has_custom_device_name && once[i].device_name is Some
                ==> twice[i].device_name == once[i].device_name
            &&& !(once[i].has_custom_device_name && once[i].device_name is Some)
                ==> twice[i].device_name == Some(reported_name(again))
            &&& twice[i].client == Some(again.app_name@)
            &&& twice[i].application_version == Some(again.app_version@)
            &&& twice[i].remote_end_point == Some(again.remote_endpoint@)
            &&& twice[i].user_id == contact_user_id(other_user)
            &&& twice[i].user_name == contact_user_name(other_user)
            &&& twice[i].last_activity_date == later
            &&& forall|j: int|
                0 <= j < once.len() && j != i ==> #[trigger] twice[j] == once[j]
        }),
{
    let key = session_key_of(c);
    let once = contacted(s, c, session_id, server_id, user, custom, now);
    lemma_key_place(s, key);
    lemma_key_place(once, key);
    let i = key_place(s, key);
    if i < s.len() {
        assert(once[i].key == key);
    } else {
        assert(once[s.len() as int].key == key);
    }
    if key_place(once, key) == once.len() {
        if i < s.len() {
            assert(once[i].key != key);
        } else {
            assert(once[s.len() as int].key != key);
        }
    }
}

/// Sessions keep ids that differ, as long as a new session gets one that is not
/// in use.
pub proof fn law_contact_keeps_ids_distinct(
    s: Sessions,
    c: Contact,
    session_id: Seq<char>,
    server_id: Seq<char>,
    user: Option<SessionUser>,
    custom: Option<String>,
    now: Timestamp,
)
    requires
        distinct_ids(s),
        key_place(s, session_key_of(c)) == s.len() ==> !has_session(s, session_id),
    ensures
        distinct_ids(contacted(s, c, session_id, server_id, user, custom, now)),
{
    let t = contacted(s, c, session_id, server_id, user, custom, now);
    lemma_key_place(s, session_key_of(c));
    assert forall|a: int, b: int| 0 <= a < b < t.len() implies (#[trigger] t[a]).id != (
    #[trigger] t[b]).id by {
        assert(a < s.len());
        assert(s[a].id == t[a].id);
        if b < s.len() {
            assert(s[b].id == t[b].id);
        }
    }
}

/// A contact leaves every session with the id of the server.
pub proof fn law_contact_keeps_the_server(
    s: Sessions,
    c: Contact,
    session_id: Seq<char>,
    server_id: Seq<char>,
    user: Option<SessionUser>,
    custom: Option<String>,
    now: Timestamp,
)
    requires
        all_of_server(s, server_id),
    ensures
        all_of_server(contacted(s, c, session_id, server_id, user, custom, now), server_id),
{
    let t = contacted(s, c, session_id, server_id, user, custom, now);
    lemma_key_place(s, session_key_of(c));
    assert forall|i: int| 0 <= i < t.len() implies (#[trigger] t[i]).server_id == Some(
        server_id,
    ) by {
        if i < s.len() {
            assert(s[i].server_id == Some(server_id));
        }
    }
}

impl HermitSessionManager {
    /// No two sessions share a key, and every session tells the id of this server.
    pub open spec fn wf(&self) -> bool {
        distinct_sessions(self@) && all_of_server(self@, self.server_id@)
    }

    /// A table without sessions.
    pub fn new(server_id: String) -> (r: Self)
        ensures
            r.wf(),
            r@ == Seq::<SessionView>::empty(),
            r.server_id@ == server_id@,
    {
        let r: HermitSessionManager = HermitSessionManager { server_id, sessions: Vec::new() };
        assert(r@ =~= Seq::<SessionView>::empty());
        r
    }

    /// Where the session with the given id stands.
    pub fn find(&self, session_id: &str) -> (r: usize)
        ensures
            r == place_of(self@, session_id@),
            r <= self.sessions@.len(),
            r < self.sessions@.len() <==> has_session(self@, session_id@),
    {
        let mut i: usize = 0;
        while i < self.sessions.len() && !same_text(self.sessions[i].id.as_str(), session_id)
            invariant
                i <= self.sessions@.len(),
                forall|j: int| 0 <= j < i ==> (#[trigger] self@[j]).id != session_id@,
            decreases self.sessions.len() - i,
        {
            assert(self@[i as int].id == self.sessions@[i as int].id@);
            i += 1;
        }
        proof {
            if i < self.sessions@.len() {
                assert(self@[i as int].id == self.sessions@[i as int].id@);
            }
            lemma_place_unique(self@, session_id@, i as int);
            lemma_place_of(self@, session_id@);
        }
        i
    }

    fn find_key(&self, key: &str) -> (r: usize)
        ensures
            r == key_place(self@, key@),
            r <= self.sessions@.len(),
    {
        let mut i: usize = 0;
        while i < self.sessions.len() && !same_text(self.sessions[i].key.as_str(), key)
            invariant
                i <= self.sessions@.len(),
                forall|j: int| 0 <= j < i ==> (#[trigger] self@[j]).key != key@,
            decreases self.sessions.len() - i,
        {
            assert(self@[i as int].key == self.sessions@[i as int].key@);
            i += 1;
        }
        proof {
            if i < self.sessions@.len() {
                assert(self@[i as int].key == self.sessions@[i as int].key@);
            }
            lemma_key_place_unique(self@, key@, i as int);
        }
        i
    }

    /// A session with the given id.
    pub fn get_session_snapshot(&self, session_id: &str) -> (r: Result<SessionInfo, ServiceError>)
        ensures
            match r {
                Ok(s) => has_session(self@, session_id@) && s@ == self@[place_of(
                    self@,
                    session_id@,
                )],
                Err(e) => !has_session(self@, session_id@) && e@ == no_session(session_id@),
            },
    {
        let i: usize = self.find(session_id);
        if i < self.sessions.len() {
            assert(self@[i as int] == self.sessions@[i as int]@);
            Ok(self.sessions[i].duplicate())
        } else {
            Err(missing_session(session_id))
        }
    }

    /// Records a contact: opens the client's session, or refreshes it. The id is
    /// for a new session. Yields the session, and whether it is new.
    pub fn upsert_session(
        &mut self,
        contact: &Contact,
        session_id: &str,
        user: Option<&SessionUser>,
        custom_name: &Option<String>,
        now: Timestamp,
    ) -> (r: Result<(SessionInfo, bool), ServiceError>)
        requires
            old(self).wf(),
        ensures
            final(self).wf(),
            final(self).server_id == old(self).server_id,
            match r {
                Ok((s, is_new)) => {
                    let i = key_place(old(self)@, session_key_of(*contact));
                    &&& contact.device_id@.len() > 0
                    &&& is_new == (i == old(self)@.len())
                    &&& final(self)@ == contacted(
                        old(self)@,
                        *contact,
                        session_id@,
                        old(self).server_id@,
                        owned(user),
                        *custom_name,
                        now,
                    )
                    &&& s@ == final(self)@[i]
                },
                Err(e) => contact.device_id@.len() == 0 && final(self)@ == old(self)@ && e@
                    == ErrorView::InvalidInput("deviceId is required"@),
            },
    {
        if contact.device_id.as_str().unicode_len() == 0 {
            return Err(ServiceError::InvalidInput("deviceId is required".to_owned()));
        }
        let ghost before = self@;
        let key: String = session_key(contact.app_name.as_str(), contact.device_id.as_str());
        let i: usize = self.find_key(key.as_str());
        proof {
            lemma_key_place(before, key@);
        }
        let is_new: bool = i == self.sessions.len();
        if is_new {
            let session: SessionInfo = open_session(
                contact,
                session_id,
                self.server_id.as_str(),
                user,
                custom_name,
                now,
            );
            let ghost fresh = session@;
            self.sessions.push(session);
            assert(self@ =~= before.push(fresh));
            proof {
                assert forall|a: int, b: int| 0 <= a < b < self@.len() implies (#[trigger] self@[a]).key
                    != (#[trigger] self@[b]).key by {
                    if b == before.len() {
                        assert(before[a].key != key@);
                    } else {
                        assert(before[a].key != before[b].key);
                    }
                }
            }
        } else {
            assert(before[i as int] == self.sessions@[i as int]@);
            refresh_session(&mut self.sessions[i], contact, user, now);
            assert(self@ =~= before.update(
                i as int,
                refreshed(before[i as int], *contact, owned(user), now),
            ));
            proof {
                assert forall|a: int, b: int| 0 <= a < b < self@.len() implies (#[trigger] self@[a]).key
                    != (#[trigger] self@[b]).key by {
                    assert(before[a].key != before[b].key);
                }
            }
        }
        assert(self@[i as int] == self.sessions@[i as int]@);
        Ok((self.sessions[i].duplicate(), is_new))
    }
}

/// The user behind an optional reference.
pub open spec fn owned(user: Option<&SessionUser>) -> Option<SessionUser> {
    match user {
        Some(u) => Some(*u),
        None => None,
    }
}

fn device_name_of(contact: &Contact) -> (r: String)
    ensures
        r@ == reported_name(*contact),
{
    if contact.device_name.as_str().unicode_len() == 0 {
        DEFAULT_DEVICE_NAME.to_owned()
    } else {
        contact.device_name.clone()
    }
}

fn user_id_of(user: Option<&SessionUser>) -> (r: Guid)
    ensures
        r == contact_user_id(owned(user)),
{
    match user {
        Some(u) => parse_user_id(u.id.as_str()),
        None => Guid::nil(),
    }
}

fn user_name_of(user: Option<&SessionUser>) -> (r: Option<String>)
    ensures
        opt_text(r) == contact_user_name(owned(user)),
{
    match user {
        Some(u) => Some(u.username.clone()),
        None => None,
    }
}

fn open_session(
    contact: &Contact,
    session_id: &str,
    server_id: &str,
    user: Option<&SessionUser>,
    custom_name: &Option<String>,
    now: Timestamp,
) -> (r: SessionInfo)
    ensures
        r@ == opened(*contact, session_id@, server_id@, owned(user), *custom_name, now),
{
    let (device_name, has_custom): (String, bool) = match custom_name {
        Some(n) => {
            if n.as_str().unicode_len() > 0 {
                (n.clone(), true)
            } else {
                (device_name_of(contact), false)
            }
        },
        None => (device_name_of(contact), false),
    };
    let r: SessionInfo = SessionInfo {
        key: session_key(contact.app_name.as_str(), contact.device_id.as_str()),
        id: session_id.to_owned(),
        user_id: user_id_of(user),
        user_name: user_name_of(user),
        client: Some(contact.app_name.clone()),
        device_id: contact.device_id.clone(),
        device_name: Some(device_name),
        application_version: Some(contact.app_version.clone()),
        remote_end_point: Some(contact.remote_endpoint.clone()),
        server_id: Some(server_id.to_owned()),
        has_custom_device_name: has_custom,
        last_activity_date: now,
        last_playback_check_in: now,
        last_paused_date: None,
        now_playing_item_id: None,
        now_viewing_item_id: None,
        additional_users: Vec::new(),
        capabilities: ClientCapabilities::default(),
        transcoding_info: None,
        is_playing: false,
        connections: Vec::new(),
    };
    assert(r@ =~= opened(*contact, session_id@, server_id@, owned(user), *custom_name, now));
    r
}

fn refresh_session(
    session: &mut SessionInfo,
    contact: &Contact,
    user: Option<&SessionUser>,
    now: Timestamp,
)
    ensures
        final(session)@ == refreshed(old(session)@, *contact, owned(user), now),
{
    session.user_id = user_id_of(user);
    session.user_name = user_name_of(user);
    session.remote_end_point = Some(contact.remote_endpoint.clone());
    session.client = Some(contact.app_name.clone());
    session.application_version = Some(contact.app_version.clone());
    session.last_activity_date = now;
    if !session.has_custom_device_name || session.device_name.is_none() {
        session.device_name = Some(device_name_of(contact));
    }
    if user.is_none() {
        session.additional_users = Vec::new();
    }
    assert(session@ =~= refreshed(old(session)@, *contact, owned(user), now));
}

proof fn lemma_update_distinct(s: Sessions, i: int, v: SessionView)
    requires
        distinct_sessions(s),
        0 <= i < s.len(),
        v.key == s[i].key,
    ensures
        distinct_sessions(s.update(i, v)),
{
    let t = s.update(i, v);
    assert forall|a: int, b: int| 0 <= a < b < t.len() implies (#[trigger] t[a]).key != (
    #[trigger] t[b]).key by {
        assert(s[a].key != s[b].key);
    }
}

// ---------------------------------------------------------------------------
// What clients report
// ---------------------------------------------------------------------------
/// The sharing users without the given one.
pub open spec fn without_user(users: Seq<SessionUserView>, user_id: Guid) -> Seq<SessionUserView>
    decreases users.len(),
{
    if users.len() == 0 {
        Seq::empty()
    } else if users.last().user_id == user_id {
        without_user(users.drop_last(), user_id)
    } else {
        without_user(users.drop_last(), user_id).push(users.last())
    }
}

/// Removing a sharing user leaves no trace of them, and removing one who was just
/// added leaves the others as they were.
pub proof fn law_removed_user_does_not_share(users: Seq<SessionUserView>, user: SessionUserView)
    ensures
        !shared_with(without_user(users, user.user_id), user.user_id),
        !shared_with(users, user.user_id) ==> without_user(users.push(user), user.user_id) == users,
    decreases users.len(),
{
    assert(users.push(user).drop_last() =~= users);
    if users.len() > 0 {
        let head = users.drop_last();
        law_removed_user_does_not_share(head, user);
        assert(head.push(user).drop_last() =~= head);
        let kept = without_user(users, user.user_id);
        if shared_with(kept, user.user_id) {
            let i = choose|i: int| 0 <= i < kept.len() && (#[trigger] kept[i]).user_id == user.user_id;
            if users.last().user_id != user.user_id {
                if i < kept.len() - 1 {
                    assert(without_user(head, user.user_id)[i].user_id == user.user_id);
                }
            }
        }
        if !shared_with(users, user.user_id) {
            assert(users[users.len() - 1].user_id != user.user_id);
            if shared_with(head, user.user_id) {
                let i = choose|i: int| 0 <= i < head.len() && (#[trigger] head[i]).user_id
                    == user.user_id;
                assert(users[i].user_id == user.user_id);
            }
            assert(without_user(users, user.user_id) =~= users);
        }
    }
}

/// The sessions with the transcoding state of a device set.
pub open spec fn transcoding_set(
    s: Sessions,
    device_id: Seq<char>,
    info: Option<Seq<char>>,
) -> Sessions {
    Seq::new(
        s.len(),
        |i: int|
            if same_ignoring_case(s[i].device_id, device_id) {
                (SessionView { transcoding_info: info, ..s[i] })
            } else {
                s[i]
            },
    )
}

impl HermitSessionManager {
    /// Attaches a socket to a session.
    pub fn add_web_socket(&mut self, session_id: &str, handle: u64) -> (r: Result<(), ServiceError>)
        requires
            old(self).wf(),
        ensures
            final(self).wf(),
            final(self).server_id == old(self).server_id,
            ({
                let s = old(self)@;
                let i = place_of(s, session_id@);
                match r {
                    Ok(_) => has_session(s, session_id@) && final(self)@ == s.update(
                        i,
                        (SessionView { connections: s[i].connections.push(handle), ..s[i] }),
                    ),
                    Err(e) => !has_session(s, session_id@) && final(self)@ == s && e@ == no_session(
                        session_id@,
                    ),
                }
            }),
    {
        let ghost s = self@;
        let i: usize = self.find(session_id);
        if i >= self.sessions.len() {
            return Err(missing_session(session_id));
        }
        assert(s[i as int] == self.sessions@[i as int]@);
        let ghost v = SessionView {
            connections: s[i as int].connections.push(handle),
            ..s[i as int]
        };
        self.sessions[i].connections.push(handle);
        proof {
            assert(self.sessions@[i as int]@ =~= v);
            assert(self@ =~= s.update(i as int, v));
            lemma_update_distinct(s, i as int, v);
        }
        Ok(())
    }

    /// Sets the name of a session's device.
    pub fn update_device_name(&mut self, session_id: &str, reported_device_name: &str) -> (r: Result<
        (),
        ServiceError,
    >)
        requires
            old(self).wf(),
        ensures
            final(self).wf(),
            final(self).server_id == old(self).server_id,
            ({
                let s = old(self)@;
                let i = place_of(s, session_id@);
                match r {
                    Ok(_) => has_session(s, session_id@) && final(self)@ == s.update(
                        i,
                        (SessionView { device_name: Some(reported_device_name@), ..s[i] }),
                    ),
                    Err(e) => !has_session(s, session_id@) && final(self)@ == s && e@ == no_session(
                        session_id@,
                    ),
                }
            }),
    {
        let ghost s = self@;
        let i: usize = self.find(session_id);
        if i >= self.sessions.len() {
            return Err(missing_session(session_id));
        }
        assert(s[i as int] == self.sessions@[i as int]@);
        let ghost v = SessionView { device_name: Some(reported_device_name@), ..s[i as int] };
        self.sessions[i].device_name = Some(reported_device_name.to_owned());
        proof {
            assert(self.sessions@[i as int]@ =~= v);
            assert(self@ =~= s.update(i as int, v));
            lemma_update_distinct(s, i as int, v);
        }
        Ok(())
    }

    /// Lets another user share a session. The session's own user cannot; one who
    /// shares it already stays as they are.
    pub fn add_additional_user(
        &mut self,
        session_id: &str,
        user_id: Guid,
        user_name: Option<String>,
    ) -> (r: Result<(), ServiceError>)
        requires
            old(self).wf(),
        ensures
            final(self).wf(),
            final(self).server_id == old(self).server_id,
            ({
                let s = old(self)@;
                let i = place_of(s, session_id@);
                match r {
                    Ok(_) => {
                        &&& has_session(s, session_id@)
                        &&& s[i].user_id != user_id
                        &&& final(self)@ == if shared_with(s[i].additional_users, user_id) {
                            s
                        } else {
                            s.update(
                                i,
                                (SessionView {
                                    additional_users: s[i].additional_users.push(
                                        (SessionUserView {
                                            user_id,
                                            user_name: opt_text(user_name),
                                        }),
                                    ),
                                    ..s[i]
                                }),
                            )
                        }
                    },
                    Err(e) => {
                        &&& final(self)@ == s
                        &&& if has_session(s, session_id@) {
                            s[i].user_id == user_id && e@ == already_primary()
                        } else {
                            e@ == no_session(session_id@)
                        }
                    },
                }
            }),
    {
        let ghost s = self@;
        let i: usize = self.find(session_id);
        if i >= self.sessions.len() {
            return Err(missing_session(session_id));
        }
        assert(s[i as int] == self.sessions@[i as int]@);
        if self.sessions[i].user_id == user_id {
            return Err(primary_user_error());
        }
        if !self.sessions[i].is_shared_with(user_id) {
            let ghost user = SessionUserView { user_id, user_name: opt_text(user_name) };
            let ghost v = SessionView {
                additional_users: s[i as int].additional_users.push(user),
                ..s[i as int]
            };
            self.sessions[i].additional_users.push(SessionUserInfo { user_id, user_name });
            proof {
                assert(self.sessions@[i as int]@ =~= v);
                assert(self@ =~= s.update(i as int, v));
                lemma_update_distinct(s, i as int, v);
            }
        }
        Ok(())
    }

    /// Ends another user's share in a session. The session's own user is refused.
    pub fn remove_additional_user(&mut self, session_id: &str, user_id: Guid) -> (r: Result<
        (),
        ServiceError,
    >)
        requires
            old(self).wf(),
        ensures
            final(self).wf(),
            final(self).server_id == old(self).server_id,
            ({
                let s = old(self)@;
                let i = place_of(s, session_id@);
                match r {
                    Ok(_) => {
                        &&& has_session(s, session_id@)
                        &&& s[i].user_id != user_id
                        &&& final(self)@ == s.update(
                            i,
                            (SessionView {
                                additional_users: without_user(s[i].additional_users, user_id),
                                ..s[i]
                            }),
                        )
                    },
                    Err(e) => {
                        &&& final(self)@ == s
                        &&& if has_session(s, session_id@) {
                            s[i].user_id == user_id && e@ == already_primary()
                        } else {
                            e@ == no_session(session_id@)
                        }
                    },
                }
            }),
    {
        let ghost s = self@;
        let i: usize = self.find(session_id);
        if i >= self.sessions.len() {
            return Err(missing_session(session_id));
        }
        assert(s[i as int] == self.sessions@[i as int]@);
        if self.sessions[i].user_id == user_id {
            return Err(primary_user_error());
        }
        let kept: Vec<SessionUserInfo> = users_without(&self.sessions[i].additional_users, user_id);
        let ghost v = SessionView {
            additional_users: without_user(s[i as int].additional_users, user_id),
            ..s[i as int]
        };
        self.sessions[i].additional_users = kept;
        proof {
            assert(self.sessions@[i as int]@ =~= v);
            assert(self@ =~= s.update(i as int, v));
            lemma_update_distinct(s, i as int, v);
        }
        Ok(())
    }

    /// Records what a session's user is looking at. A text that is no item id is
    /// refused before the session is looked for.
    pub fn report_now_viewing_item(&mut self, session_id: &str, item_id: &str) -> (r: Result<
        (),
        ServiceError,
    >)
        requires
            old(self).wf(),
        ensures
            final(self).wf(),
            final(self).server_id == old(self).server_id,
            ({
                let s = old(self)@;
                let i = place_of(s, session_id@);
                match r {
                    Ok(_) => guid_in(item_id@) is Some && has_session(s, session_id@) && final(
                        self)@ == s.update(
                        i,
                        (SessionView { now_viewing_item_id: guid_in(item_id@), ..s[i] }),
                    ),
                    Err(e) => {
                        &&& final(self)@ == s
                        &&& if guid_in(item_id@) is None {
                            e@ == ErrorView::InvalidInput("invalid item id "@ + item_id@)
                        } else {
                            !has_session(s, session_id@) && e@ == no_session(session_id@)
                        }
                    },
                }
            }),
    {
        let ghost s = self@;
        let parsed: Guid = match parse_guid(item_id) {
            Some(id) => id,
            None => {
                return Err(ServiceError::InvalidInput(concat("invalid item id ", item_id)));
            },
        };
        let i: usize = self.find(session_id);
        if i >= self.sessions.len() {
            return Err(missing_session(session_id));
        }
        assert(s[i as int] == self.sessions@[i as int]@);
        let ghost v = SessionView { now_viewing_item_id: Some(parsed), ..s[i as int] };
        self.sessions[i].now_viewing_item_id = Some(parsed);
        proof {
            assert(self.sessions@[i as int]@ =~= v);
            assert(self@ =~= s.update(i as int, v));
            lemma_update_distinct(s, i as int, v);
        }
        Ok(())
    }

    /// Records what a session's client can do. Yields the id of its device, under
    /// which the capabilities are stored.
    pub fn report_capabilities(
        &mut self,
        session_id: &str,
        capabilities: &ClientCapabilities,
    ) -> (r: Result<String, ServiceError>)
        requires
            old(self).wf(),
        ensures
            final(self).wf(),
            final(self).server_id == old(self).server_id,
            ({
                let s = old(self)@;
                let i = place_of(s, session_id@);
                match r {
                    Ok(device_id) => {
                        &&& has_session(s, session_id@)
                        &&& device_id@ == s[i].device_id
                        &&& final(self)@ == s.update(
                            i,
                            (SessionView { capabilities: capabilities@, ..s[i] }),
                        )
                    },
                    Err(e) => !has_session(s, session_id@) && final(self)@ == s && e@ == no_session(
                        session_id@,
                    ),
                }
            }),
    {
        let ghost s = self@;
        let i: usize = self.find(session_id);
        if i >= self.sessions.len() {
            return Err(missing_session(session_id));
        }
        assert(s[i as int] == self.sessions@[i as int]@);
        let ghost v = SessionView { capabilities: capabilities@, ..s[i as int] };
        self.sessions[i].capabilities = capabilities.duplicate();
        proof {
            assert(self.sessions@[i as int]@ =~= v);
            assert(self@ =~= s.update(i as int, v));
            lemma_update_distinct(s, i as int, v);
        }
        Ok(self.sessions[i].device_id.clone())
    }

    /// Records how transcoding runs for a device, or that none runs any more.
    pub fn report_transcoding_info(&mut self, device_id: &str, info: &Option<String>)
        requires
            old(self).wf(),
        ensures
            final(self).wf(),
            final(self).server_id == old(self).server_id,
            final(self)@ == transcoding_set(old(self)@, device_id@, opt_text(*info)),
    {
        let ghost s = self@;
        let ghost t = transcoding_set(s, device_id@, opt_text(*info));
        let mut i: usize = 0;
        while i < self.sessions.len()
            invariant
                i <= self.sessions@.len(),
                self.sessions@.len() == s.len(),
                self.server_id == old(self).server_id,
                t == transcoding_set(s, device_id@, opt_text(*info)),
                forall|j: int| 0 <= j < i ==> (#[trigger] self.sessions@[j])@ == t[j],
                forall|j: int| i <= j < s.len() ==> (#[trigger] self.sessions@[j])@ == s[j],
            decreases self.sessions.len() - i,
        {
            if eq_ignore_ascii_case(self.sessions[i].device_id.as_str(), device_id) {
                self.sessions[i].transcoding_info = copy_text(info);
            }
            assert(self.sessions@[i as int]@ =~= t[i as int]);
            i += 1;
        }
        proof {
            assert(self@ =~= t);
            assert forall|a: int, b: int| 0 <= a < b < t.len() implies (#[trigger] t[a]).key != (
            #[trigger] t[b]).key by {
                assert(s[a].key != s[b].key);
            }
        }
    }

    /// Ends a session. Yields it, where there was one.
    pub fn report_session_ended(&mut self, session_id: &str) -> (r: Option<SessionInfo>)
        requires
            old(self).wf(),
        ensures
            final(self).wf(),
            final(self).server_id == old(self).server_id,
            ({
                let s = old(self)@;
                let i = place_of(s, session_id@);
                match r {
                    Some(ended) => has_session(s, session_id@) && ended@ == s[i] && final(self)@
                        == s.remove(i),
                    None => !has_session(s, session_id@) && final(self)@ == s,
                }
            }),
    {
        let ghost s = self@;
        let i: usize = self.find(session_id);
        if i >= self.sessions.len() {
            return None;
        }
        assert(s[i as int] == self.sessions@[i as int]@);
        let ended: SessionInfo = self.sessions.remove(i);
        proof {
            let t = s.remove(i as int);
            assert(self@ =~= t);
            assert forall|a: int, b: int| 0 <= a < b < t.len() implies (#[trigger] t[a]).key != (
            #[trigger] t[b]).key by {
                let a0 = if a < i { a } else { a + 1 };
                let b0 = if b < i { b } else { b + 1 };
                assert(s[a0].key != s[b0].key);
            }
        }
        Some(ended)
    }
}

/// A session that has ended is not found any more, and every other one is, as
/// long as no two share an id.
pub proof fn law_ended_session_is_gone(s: Sessions, id: Seq<char>, other: Seq<char>)
    requires
        distinct_ids(s),
        has_session(s, id),
    ensures
        !has_session(s.remove(place_of(s, id)), id),
        other != id ==> has_session(s.remove(place_of(s, id)), other) == has_session(s, other),
{
    lemma_place_of(s, id);
    let i = place_of(s, id);
    let t = s.remove(i);
    if has_session(t, id) {
        let j = choose|j: int| 0 <= j < t.len() && (#[trigger] t[j]).id == id;
        let j0 = if j < i { j } else { j + 1 };
        if j0 < i {
            assert(s[j0].id != s[i].id);
        } else {
            assert(s[i].id != s[j0].id);
        }
    }
    if other != id && has_session(s, other) {
        let j = choose|j: int| 0 <= j < s.len() && (#[trigger] s[j]).id == other;
        let j0 = if j < i { j } else { j - 1 };
        assert(t[j0].id == other);
    }
    if has_session(t, other) {
        let j = choose|j: int| 0 <= j < t.len() && (#[trigger] t[j]).id == other;
        let j0 = if j < i { j } else { j + 1 };
        assert(s[j0].id == other);
    }
}

/// The error for adding or removing a session's own user.
pub open spec fn already_primary() -> ErrorView {
    ErrorView::InvalidInput("the requested user is already the primary user of the session"@)
}

fn primary_user_error() -> (r: ServiceError)
    ensures
        r@ == already_primary(),
{
    ServiceError::InvalidInput(
        "the requested user is already the primary user of the session".to_owned(),
    )
}

fn users_without(v: &Vec<SessionUserInfo>, user_id: Guid) -> (r: Vec<SessionUserInfo>)
    ensures
        user_views(r@) == without_user(user_views(v@), user_id),
{
    let ghost all = user_views(v@);
    let mut out: Vec<SessionUserInfo> = Vec::new();
    let mut i: usize = 0;
    assert(user_views(out@) =~= without_user(all.take(0), user_id));
    while i < v.len()
        invariant
            i <= v.len(),
            all == user_views(v@),
            user_views(out@) == without_user(all.take(i as int), user_id),
        decreases v.len() - i,
    {
        assert(all.take(i + 1).drop_last() =~= all.take(i as int));
        assert(all.take(i + 1).last() == v@[i as int]@);
        if v[i].user_id != user_id {
            let ghost before = out@;
            out.push(
                SessionUserInfo { user_id: v[i].user_id, user_name: copy_text(&v[i].user_name) },
            );
            assert(user_views(out@) =~= user_views(before).push(v@[i as int]@));
        }
        i += 1;
    }
    assert(all.take(all.len() as int) =~= all);
    out
}

// ---------------------------------------------------------------------------
// Playback
// ---------------------------------------------------------------------------
/// What a client reports of its playback.
#[derive(Debug, Clone)]
pub struct PlaybackInfo {
    pub session_id: Option<String>,
    /// The item; the nil identifier for none.
    pub item_id: Guid,
    pub position_ticks: Option<i64>,
    pub is_paused: bool,
    pub failed: bool,
}

/// What a playback event stands for: the session as it was, and what is played.
#[derive(Debug, Clone)]
pub struct PlaybackEvent {
    pub session: SessionInfo,
    /// Whether the position is to be stored for the session's users.
    pub store_position: bool,
    /// What listeners are told.
    pub payload: String,
}

/// What listeners are told of playback.
pub open spec fn event_payload(s: SessionView, item_id: Guid, position_ticks: Option<i64>) -> Seq<
    char,
> {
    r#"{"ItemId":"#@ + json_guid(item_id) + r#","PositionTicks":"#@ + json_number(position_ticks)
        + r#","SessionId":"#@ + json_string(s.id) + r#","UserId":"#@ + json_guid(s.user_id) + "}"@
}

/// What listeners are told of playback.
pub fn playback_event_payload(session: &SessionInfo, item_id: Guid, position_ticks: Option<i64>) -> (r:
    String)
    ensures
        r@ == event_payload(session@, item_id, position_ticks),
{
    let mut t: String = r#"{"ItemId":"#.to_owned();
    t.push_str(guid_json(item_id).as_str());
    t.push_str(r#","PositionTicks":"#);
    t.push_str(number_json(position_ticks).as_str());
    t.push_str(r#","SessionId":"#);
    t.push_str(quote_json(session.id.as_str()).as_str());
    t.push_str(r#","UserId":"#);
    t.push_str(guid_json(session.user_id).as_str());
    t.push_str("}");
    t
}

/// What a client reports.
#[derive(Debug, Clone, Copy, PartialEq, Eq, Structural)]
pub enum PlaybackPhase {
    Started,
    Progressed,
    Stopped,
}

/// A session after a playback report.
pub open spec fn played(
    s: SessionView,
    phase: PlaybackPhase,
    info: PlaybackInfo,
    now: Timestamp,
) -> SessionView {
    match phase {
        PlaybackPhase::Started => SessionView {
            now_playing_item_id: if info.item_id.value == 0 {
                None
            } else {
                Some(info.item_id)
            },
            is_playing: true,
            last_playback_check_in: now,
            ..s
        },
        PlaybackPhase::Progressed => SessionView {
            last_activity_date: now,
            last_playback_check_in: now,
            last_paused_date: if info.is_paused {
                Some(now)
            } else {
                None
            },
            ..s
        },
        PlaybackPhase::Stopped => SessionView {
            now_playing_item_id: None,
            is_playing: false,
            last_activity_date: now,
            ..s
        },
    }
}

/// Whether the position is to be stored: not at the start, not without an item,
/// and not where playback failed.
pub open spec fn stores_position(phase: PlaybackPhase, info: PlaybackInfo) -> bool {
    match phase {
        PlaybackPhase::Started => false,
        PlaybackPhase::Progressed => info.item_id.value != 0,
        PlaybackPhase::Stopped => info.item_id.value != 0 && !info.failed,
    }
}

/// Progress with an item always has its position stored, and a stop with an item
/// exactly where playback did not fail; the start of playback, and a report without an
/// item, have nothing stored.
pub proof fn law_what_is_stored_of_playback(info: PlaybackInfo)
    ensures
        info.item_id.value != 0 ==> stores_position(PlaybackPhase::Progressed, info),
        info.item_id.value != 0 && !info.failed ==> stores_position(PlaybackPhase::Stopped, info),
        info.item_id.value != 0 && info.failed ==> !stores_position(PlaybackPhase::Stopped, info),
        !stores_position(PlaybackPhase::Started, info),
        forall|phase: PlaybackPhase| info.item_id.value == 0 ==> !#[trigger] stores_position(phase, info),
{
}

/// A session plays the reported item from when it starts until it stops, however much
/// progress is reported in between. Progress notes when it came, and whether playback
/// was paused then.
pub proof fn law_session_plays_until_stopped(
    s: SessionView,
    started: PlaybackInfo,
    progressed: PlaybackInfo,
    stopped: PlaybackInfo,
    first: Timestamp,
    second: Timestamp,
    third: Timestamp,
)
    ensures
        ({
            let a = played(s, PlaybackPhase::Started, started, first);
            let b = played(a, PlaybackPhase::Progressed, progressed, second);
            let c = played(b, PlaybackPhase::Stopped, stopped, third);
            &&& a.is_playing && b.is_playing && !c.is_playing
            &&& started.item_id.value != 0 ==> a.now_playing_item_id == Some(started.item_id)
            &&& started.item_id.value == 0 ==> a.now_playing_item_id is None
            &&& b.now_playing_item_id == a.now_playing_item_id
            &&& c.now_playing_item_id is None
            &&& a.last_playback_check_in == first
            &&& b.last_playback_check_in == second && c.last_playback_check_in == second
            &&& a.last_activity_date == s.last_activity_date
            &&& b.last_activity_date == second && c.last_activity_date == third
            &&& progressed.is_paused ==> b.last_paused_date == Some(second)
            &&& !progressed.is_paused ==> b.last_paused_date is None
            &&& a.last_paused_date == s.last_paused_date && c.last_paused_date
                == b.last_paused_date
            &&& c.id == s.id && c.user_id == s.user_id && c.key == s.key
        }),
{
}

/// Where the reporting session stands.
pub open spec fn reporting_place(s: Sessions, info: PlaybackInfo) -> int {
    place_of(s, info.session_id->0@)
}

impl HermitSessionManager {
    /// Records a playback report. Yields the session as it was before, and what is
    /// to be done.
    pub fn on_playback(&mut self, phase: PlaybackPhase, info: &PlaybackInfo, now: Timestamp) -> (r:
        Result<PlaybackEvent, ServiceError>)
        requires
            old(self).wf(),
        ensures
            final(self).wf(),
            final(self).server_id == old(self).server_id,
            ({
                let s = old(self)@;
                match r {
                    Ok(event) => {
                        let i = reporting_place(s, *info);
                        &&& info.session_id is Some
                        &&& has_session(s, info.session_id->0@)
                        &&& final(self)@ == s.update(i, played(s[i], phase, *info, now))
                        &&& event.session@ == s[i]
                        &&& event.store_position == stores_position(phase, *info)
                        &&& event.payload@ == event_payload(s[i], info.item_id, info.position_ticks)
                    },
                    Err(e) => {
                        &&& final(self)@ == s
                        &&& match info.session_id {
                            Some(id) => !has_session(s, id@) && e@ == no_session(id@),
                            None => e@ == ErrorView::InvalidInput("sessionId is required"@),
                        }
                    },
                }
            }),
    {
        let ghost s = self@;
        let session_id: &String = match &info.session_id {
            Some(id) => id,
            None => {
                return Err(ServiceError::InvalidInput("sessionId is required".to_owned()));
            },
        };
        let i: usize = self.find(session_id.as_str());
        if i >= self.sessions.len() {
            return Err(missing_session(session_id.as_str()));
        }
        assert(s[i as int] == self.sessions@[i as int]@);
        let session: SessionInfo = self.sessions[i].duplicate();
        let payload: String = playback_event_payload(&session, info.item_id, info.position_ticks);
        let store_position: bool = match phase {
            PlaybackPhase::Started => false,
            PlaybackPhase::Progressed => !info.item_id.is_nil(),
            PlaybackPhase::Stopped => !info.item_id.is_nil() && !info.failed,
        };
        let ghost v = played(s[i as int], phase, *info, now);
        match phase {
            PlaybackPhase::Started => {
                self.sessions[i].now_playing_item_id = if info.item_id.is_nil() {
                    None
                } else {
                    Some(info.item_id)
                };
                self.sessions[i].is_playing = true;
                self.sessions[i].last_playback_check_in = now;
            },
            PlaybackPhase::Progressed => {
                self.sessions[i].last_activity_date = now;
                self.sessions[i].last_playback_check_in = now;
                self.sessions[i].last_paused_date = if info.is_paused {
                    Some(now)
                } else {
                    None
                };
            },
            PlaybackPhase::Stopped => {
                self.sessions[i].now_playing_item_id = None;
                self.sessions[i].is_playing = false;
                self.sessions[i].last_activity_date = now;
            },
        }
        proof {
            assert(self.sessions@[i as int]@ =~= v);
            assert(self@ =~= s.update(i as int, v));
            lemma_update_distinct(s, i as int, v);
        }
        Ok(PlaybackEvent { session, store_position, payload })
    }
}

/// The users to look up for a session: its own, and those who share it. A session
/// without a user has none.
pub fn session_user_ids(session: &SessionInfo) -> (r: Vec<Guid>)
    ensures
        r@ == if session.user_id.value == 0 {
            Seq::empty()
        } else {
            seq![session.user_id] + Seq::new(
                session@.additional_users.len(),
                |i: int| session@.additional_users[i].user_id,
            )
        },
{
    let mut out: Vec<Guid> = Vec::new();
    if session.user_id.is_nil() {
        return out;
    }
    out.push(session.user_id);
    let mut i: usize = 0;
    while i < session.additional_users.len()
        invariant
            i <= session.additional_users.len(),
            out@.len() == i + 1,
            out@[0] == session.user_id,
            forall|j: int| 0 <= j < i ==> out@[j + 1] == (
            #[trigger] session.additional_users@[j]).user_id,
        decreases session.additional_users.len() - i,
    {
        out.push(session.additional_users[i].user_id);
        i += 1;
    }
    proof {
        let want = seq![session.user_id] + Seq::new(
            session@.additional_users.len(),
            |i: int| session@.additional_users[i].user_id,
        );
        assert forall|j: int| 0 <= j < want.len() implies out@[j] == want[j] by {
            if j > 0 {
                assert(out@[(j - 1) + 1] == session.additional_users@[j - 1].user_id);
            }
        }
        assert(out@ =~= want);
    }
    out
}

/// The users that were found, of those looked up for a session. Its own user must
/// be there; others may be missing.
pub open spec fn users_found<T>(found: Seq<Option<T>>) -> Seq<T>
    decreases found.len(),
{
    if found.len() == 0 {
        Seq::empty()
    } else {
        match found.last() {
            Some(u) => users_found(found.drop_last()).push(u),
            None => users_found(found.drop_last()),
        }
    }
}

/// The users of a session, from what looking up `session_user_ids` gave.
pub fn users_for<T>(found: Vec<Option<T>>) -> (r: Result<Vec<T>, ServiceError>)
    ensures
        match r {
            Ok(users) => (found@.len() == 0 || found@[0] is Some) && users@ == users_found(found@),
            Err(e) => found@.len() > 0 && found@[0] is None && e@ == ErrorView::NotFound(
                "user not found"@,
            ),
        },
{
    if found.len() > 0 {
        if found[0].is_none() {
            return Err(ServiceError::NotFound("user not found".to_owned()));
        }
    }
    let ghost all = found@;
    let mut rest: Vec<Option<T>> = found;
    let mut out: Vec<T> = Vec::new();
    let ghost mut done: int = 0;
    assert(all.skip(0) =~= all);
    while rest.len() > 0
        invariant
            0 <= done <= all.len(),
            rest@ == all.skip(done),
            out@ == users_found(all.take(done)),
        decreases rest.len(),
    {
        let user: Option<T> = rest.remove(0);
        proof {
            assert(user == all[done]);
            assert(all.take(done + 1).drop_last() =~= all.take(done));
            assert(all.take(done + 1).last() == all[done]);
            assert(rest@ =~= all.skip(done + 1));
            done = done + 1;
        }
        if let Some(u) = user {
            out.push(u);
        }
    }
    assert(done == all.len());
    assert(all.take(all.len() as int) =~= all);
    Ok(out)
}

// ---------------------------------------------------------------------------
// Messages
// ---------------------------------------------------------------------------
/// Whom a message is for.
#[derive(Debug, Clone)]
pub enum Audience {
    /// Every session.
    Everyone,
    /// The sessions with this id.
    Session(String),
    /// The sessions that one of these users has or shares.
    Users(Vec<Guid>),
    /// The sessions on this device.
    Device(String),
}

impl Audience {
    /// Whether a session belongs to the audience.
    pub open spec fn holds(&self, s: SessionView) -> bool {
        match *self {
            Audience::Everyone => true,
            Audience::Session(id) => s.id == id@,
            Audience::Users(ids) => exists|i: int|
                0 <= i < ids@.len() && s.contains_user(#[trigger] ids@[i]),
            Audience::Device(device_id) => same_ignoring_case(s.device_id, device_id@),
        }
    }

    /// Whether a session belongs to the audience.
    pub fn includes(&self, session: &SessionInfo) -> (r: bool)
        ensures
            r == self.holds(session@),
    {
        match self {
            Audience::Everyone => true,
            Audience::Session(id) => same_text(session.id.as_str(), id.as_str()),
            Audience::Users(ids) => has_one_of(session, ids),
            Audience::Device(device_id) => eq_ignore_ascii_case(
                session.device_id.as_str(),
                device_id.as_str(),
            ),
        }
    }
}

fn has_one_of(session: &SessionInfo, ids: &Vec<Guid>) -> (r: bool)
    ensures
        r == exists|i: int| 0 <= i < ids@.len() && session@.contains_user(#[trigger] ids@[i]),
{
    let mut i: usize = 0;
    while i < ids.len()
        invariant
            i <= ids.len(),
            forall|j: int| 0 <= j < i ==> !session@.contains_user(#[trigger] ids@[j]),
        decreases ids.len() - i,
    {
        if session.contains_user(ids[i]) {
            return true;
        }
        i += 1;
    }
    false
}

/// How a message gets to a session.
#[derive(Debug, Clone)]
pub struct Push {
    pub session_id: String,
    /// The open sockets to write to.
    pub connections: Vec<u64>,
    /// Whether it goes over the bus: where there is a bus and no open socket.
    pub over_bus: bool,
}

/// What a push stands for.
#[verifier::ext_equal]
pub struct PushView {
    pub session_id: Seq<char>,
    pub connections: Seq<u64>,
    pub over_bus: bool,
}

impl View for Push {
    type V = PushView;

    open spec fn view(&self) -> PushView {
        PushView {
            session_id: self.session_id@,
            connections: self.connections@,
            over_bus: self.over_bus,
        }
    }
}

/// What a list of pushes stands for.
pub open spec fn push_views(v: Seq<Push>) -> Seq<PushView> {
    Seq::new(v.len(), |i: int| v[i]@)
}

/// The open ones of the sockets, in their order.
pub open spec fn open_ones(connections: Seq<u64>, open: Seq<u64>) -> Seq<u64>
    decreases connections.len(),
{
    if connections.len() == 0 {
        Seq::empty()
    } else if open.contains(connections.last()) {
        open_ones(connections.drop_last(), open).push(connections.last())
    } else {
        open_ones(connections.drop_last(), open)
    }
}

/// How a message gets to a session.
pub open spec fn push_to(s: SessionView, live: Liveness) -> PushView {
    let connections = open_ones(s.connections, live.open@);
    PushView {
        session_id: s.id,
        connections,
        over_bus: connections.len() == 0 && live.on_bus is Some,
    }
}

/// How a message gets to every session of an audience.
pub open spec fn pushes(s: Sessions, audience: Audience, live: Liveness) -> Seq<PushView>
    decreases s.len(),
{
    if s.len() == 0 {
        Seq::empty()
    } else {
        let head = pushes(s.drop_last(), audience, live);
        if audience.holds(s.last()) {
            head.push(push_to(s.last(), live))
        } else {
            head
        }
    }
}

/// A session that a message reaches is written to, over a socket or over the bus,
/// and a session with open sockets is not written to over the bus.
pub proof fn law_reached_sessions_are_written_to(s: SessionView, live: Liveness)
    ensures
        live.any_open(s.connections) == (push_to(s, live).connections.len() > 0),
        live.reaches(s) ==> push_to(s, live).connections.len() > 0 || push_to(s, live).over_bus,
        push_to(s, live).over_bus ==> !live.any_open(s.connections),
{
    lemma_open_ones(s.connections, live);
}

proof fn lemma_open_ones(connections: Seq<u64>, live: Liveness)
    ensures
        live.any_open(connections) == (open_ones(connections, live.open@).len() > 0),
    decreases connections.len(),
{
    if connections.len() > 0 {
        let head = connections.drop_last();
        lemma_open_ones(head, live);
        if live.any_open(connections) {
            let i = choose|i: int|
                0 <= i < connections.len() && live.open@.contains(#[trigger] connections[i]);
            if i < head.len() {
                assert(live.open@.contains(head[i]));
            }
        }
        if live.any_open(head) {
            let i = choose|i: int| 0 <= i < head.len() && live.open@.contains(#[trigger] head[i]);
            assert(live.open@.contains(connections[i]));
        }
        if live.open@.contains(connections.last()) {
            assert(live.open@.contains(connections[connections.len() - 1]));
        }
    }
}

fn keep_open(connections: &Vec<u64>, live: &Liveness) -> (r: Vec<u64>)
    ensures
        r@ == open_ones(connections@, live.open@),
{
    let mut out: Vec<u64> = Vec::new();
    let mut i: usize = 0;
    while i < connections.len()
        invariant
            i <= connections.len(),
            out@ == open_ones(connections@.take(i as int), live.open@),
        decreases connections.len() - i,
    {
        assert(connections@.take(i + 1).drop_last() =~= connections@.take(i as int));
        if live.has_open(connections[i]) {
            out.push(connections[i]);
        }
        i += 1;
    }
    assert(connections@.take(connections@.len() as int) =~= connections@);
    out
}

/// A message to a client. Its id is random; apart from that it is fixed.
pub fn message_text(message_type: &str, data: &str) -> (r: String)
    ensures
        exists|id: Guid|
            id.value != 0 && r@ == #[trigger] message_with(message_type@, id, data@),
{
    let id: Guid = new_guid();
    let r: String = envelope_text(message_type, guid_simple_text(id).as_str(), data);
    assert(r@ == message_with(message_type@, id, data@));
    r
}

/// A message to a client with the given id.
pub open spec fn message_with(message_type: Seq<char>, id: Guid, data: Seq<char>) -> Seq<char> {
    envelope(message_type, simple_text(id.value), data)
}

impl HermitSessionManager {
    /// How a message gets to every session of an audience.
    pub fn broadcast(&self, audience: &Audience, live: &Liveness) -> (r: Vec<Push>)
        ensures
            push_views(r@) == pushes(self@, *audience, *live),
    {
        let mut out: Vec<Push> = Vec::new();
        let mut i: usize = 0;
        assert(push_views(out@) =~= pushes(self@.take(0), *audience, *live));
        while i < self.sessions.len()
            invariant
                i <= self.sessions@.len(),
                push_views(out@) == pushes(self@.take(i as int), *audience, *live),
            decreases self.sessions.len() - i,
        {
            assert(self@.take(i + 1).drop_last() =~= self@.take(i as int));
            assert(self@.take(i + 1).last() == self.sessions@[i as int]@);
            let session: &SessionInfo = &self.sessions[i];
            if audience.includes(session) {
                let ghost before = out@;
                let connections: Vec<u64> = keep_open(&session.connections, live);
                let over_bus: bool = connections.len() == 0 && live.on_bus.is_some();
                let push: Push = Push { session_id: session.id.clone(), connections, over_bus };
                assert(push@ =~= push_to(session@, *live));
                let ghost pushed = push@;
                out.push(push);
                assert(push_views(out@) =~= push_views(before).push(pushed));
            }
            i += 1;
        }
        assert(self@.take(self@.len() as int) =~= self@);
        out
    }

    /// How a command gets to the one session it is for. That session must exist
    /// and be controllable, and a controlling session that is named must exist.
    pub fn send_to_controllable(
        &self,
        controlling_session_id: &str,
        session_id: &str,
        live: &Liveness,
    ) -> (r: Result<Vec<Push>, ServiceError>)
        ensures
            match r {
                Ok(p) => {
                    &&& self.accepts_command(controlling_session_id@, session_id@, *live)
                    &&& exists|a: Audience|
                        a matches Audience::Session(id) && id@ == session_id@ && push_views(p@)
                            == #[trigger] pushes(self@, a, *live)
                },
                Err(e) => {
                    &&& !self.accepts_command(controlling_session_id@, session_id@, *live)
                    &&& e@ == if !has_session(self@, session_id@) {
                        no_session(session_id@)
                    } else if !live.controllable(self@[place_of(self@, session_id@)]) {
                        ErrorView::InvalidInput("session does not support remote control"@)
                    } else {
                        no_session(controlling_session_id@)
                    }
                },
            },
    {
        let i: usize = self.find(session_id);
        if i >= self.sessions.len() {
            return Err(missing_session(session_id));
        }
        assert(self@[i as int] == self.sessions@[i as int]@);
        if !live.session_supports_remote_control(&self.sessions[i]) {
            return Err(
                ServiceError::InvalidInput("session does not support remote control".to_owned()),
            );
        }
        if controlling_session_id.unicode_len() > 0 {
            if self.find(controlling_session_id) >= self.sessions.len() {
                return Err(missing_session(controlling_session_id));
            }
        }
        let audience: Audience = Audience::Session(session_id.to_owned());
        Ok(self.broadcast(&audience, live))
    }

    /// Whether a command to a session is accepted.
    pub open spec fn accepts_command(
        &self,
        controlling: Seq<char>,
        session_id: Seq<char>,
        live: Liveness,
    ) -> bool {
        &&& has_session(self@, session_id)
        &&& live.controllable(self@[place_of(self@, session_id)])
        &&& controlling.len() > 0 ==> has_session(self@, controlling)
    }
}

/// A text to show on a client.
#[derive(Debug, Clone)]
pub struct MessageCommand {
    pub header: Option<String>,
    pub text: String,
    pub timeout_ms: Option<i64>,
}

/// What pairs of texts stand for.
pub open spec fn pair_views(v: Seq<(String, String)>) -> Seq<(Seq<char>, Seq<char>)> {
    Seq::new(v.len(), |i: int| (v[i].0@, v[i].1@))
}

/// The arguments of the command that shows a text.
pub open spec fn message_arguments_of(m: MessageCommand) -> Seq<(Seq<char>, Seq<char>)> {
    let a = match m.header {
        Some(h) => seq![("Header"@, h@)],
        None => seq![],
    };
    let b = a.push(("Text"@, m.text@));
    match m.timeout_ms {
        Some(t) => b.push(("TimeoutMs"@, decimal(t as int))),
        None => b,
    }
}

/// The arguments of the command that shows a text.
pub fn message_arguments(command: &MessageCommand) -> (r: Vec<(String, String)>)
    ensures
        pair_views(r@) == message_arguments_of(*command),
{
    let mut out: Vec<(String, String)> = Vec::new();
    if let Some(header) = &command.header {
        out.push(("Header".to_owned(), header.clone()));
    }
    out.push(("Text".to_owned(), command.text.clone()));
    if let Some(timeout) = command.timeout_ms {
        out.push(("TimeoutMs".to_owned(), int_text(timeout)));
    }
    assert(pair_views(out@) =~= message_arguments_of(*command));
    out
}

// ---------------------------------------------------------------------------
// Listing sessions
// ---------------------------------------------------------------------------
/// What a caller may see and control.
#[derive(Debug, Clone, Copy, PartialEq, Eq, Structural)]
pub struct Access {
    pub can_control_others: bool,
    pub is_admin: bool,
}

/// What a caller may see and control. A caller with an API key may do everything,
/// one without a user nothing that is not their own, and one whose user does not
/// exist sees nothing at all.
pub fn caller_access(is_api_key: bool, user_id: Guid, permissions: Option<Access>) -> (r: Option<
    Access,
>)
    ensures
        r == if is_api_key {
            Some(Access { can_control_others: true, is_admin: true })
        } else if user_id.value == 0 {
            Some(Access { can_control_others: false, is_admin: false })
        } else {
            permissions
        },
{
    if is_api_key {
        Some(Access { can_control_others: true, is_admin: true })
    } else if user_id.is_nil() {
        Some(Access { can_control_others: false, is_admin: false })
    } else {
        permissions
    }
}

/// What a listing of sessions asks for.
#[derive(Debug, Clone)]
pub struct SessionQuery {
    pub user_id: Guid,
    pub device_id: Option<String>,
    pub active_within_seconds: Option<i32>,
    /// Whether only sessions that can be controlled are wanted.
    pub only_controllable: bool,
}

/// The time from which on a session must have been active.
pub open spec fn active_since(seconds: Option<i32>, now: Timestamp) -> Option<int> {
    match seconds {
        Some(n) => if n > 0 {
            Some(now.nanos - n * 1_000_000_000)
        } else {
            None
        },
        None => None,
    }
}

/// Whether a session is listed.
pub open spec fn is_listed(
    s: SessionView,
    q: SessionQuery,
    access: Access,
    live: Liveness,
    now: Timestamp,
) -> bool {
    &&& q.device_id matches Some(d) ==> same_ignoring_case(s.device_id, d@)
    &&& if q.only_controllable {
        live.controllable(s) && (access.can_control_others || s.user_id.value == 0
            || s.contains_user(q.user_id))
    } else {
        access.is_admin || s.user_id.value == 0 || s.contains_user(q.user_id)
    }
    &&& active_since(q.active_within_seconds, now) matches Some(t) ==> s.last_activity_date.nanos
        >= t
}

/// What is seen of the listed sessions, in the order in which they were opened.
pub open spec fn listed(
    s: Sessions,
    q: SessionQuery,
    access: Access,
    live: Liveness,
    now: Timestamp,
) -> Seq<DtoView>
    decreases s.len(),
{
    if s.len() == 0 {
        Seq::empty()
    } else {
        let head = listed(s.drop_last(), q, access, live, now);
        if is_listed(s.last(), q, access, live, now) {
            head.push(dto_of(s.last(), live, access.is_admin))
        } else {
            head
        }
    }
}

/// What a list of those stands for.
pub open spec fn dto_views(v: Seq<SessionInfoDto>) -> Seq<DtoView> {
    Seq::new(v.len(), |i: int| v[i]@)
}

/// The order of a listing: the latest activity first.
pub open spec fn by_activity() -> spec_fn(DtoView, DtoView) -> bool {
    |a: DtoView, b: DtoView| a.last_activity_date.nanos > b.last_activity_date.nanos
}

/// A caller who is no administrator sees, of the sessions that have a user, only
/// those they have or share, and never how transcoding runs. One who may control
/// others sees more where they ask for the sessions they can control.
pub proof fn law_others_sessions_are_hidden(
    s: Sessions,
    q: SessionQuery,
    access: Access,
    live: Liveness,
    now: Timestamp,
    i: int,
)
    requires
        !access.is_admin,
        q.only_controllable ==> !access.can_control_others,
        0 <= i < listed(s, q, access, live, now).len(),
    ensures
        ({
            let seen = listed(s, q, access, live, now)[i];
            &&& seen.transcoding_info is None
            &&& seen.user_id.value == 0 || seen.user_id == q.user_id || shared_with(
                seen.additional_users,
                q.user_id,
            )
        }),
    decreases s.len(),
{
    if s.len() > 0 {
        let head = listed(s.drop_last(), q, access, live, now);
        if i < head.len() {
            law_others_sessions_are_hidden(s.drop_last(), q, access, live, now, i);
        }
    }
}

impl HermitSessionManager {
    /// The sessions that a caller may see, the latest activity first.
    pub fn get_sessions(
        &self,
        query: &SessionQuery,
        access: Access,
        live: &Liveness,
        now: Timestamp,
    ) -> (r: Vec<SessionInfoDto>)
        requires
            now.in_calendar(),
        ensures
            dto_views(r@) == sorted(listed(self@, *query, access, *live, now), by_activity()),
    {
        let mut out: Vec<SessionInfoDto> = Vec::new();
        let mut i: usize = 0;
        assert(dto_views(out@) =~= listed(self@.take(0), *query, access, *live, now));
        while i < self.sessions.len()
            invariant
                i <= self.sessions@.len(),
                now.in_calendar(),
                dto_views(out@) == listed(self@.take(i as int), *query, access, *live, now),
            decreases self.sessions.len() - i,
        {
            assert(self@.take(i + 1).drop_last() =~= self@.take(i as int));
            assert(self@.take(i + 1).last() == self.sessions@[i as int]@);
            if is_session_listed(&self.sessions[i], query, access, live, now) {
                let ghost before = out@;
                let dto: SessionInfoDto = to_dto(
                    &self.sessions[i],
                    live,
                    access.is_admin,
                );
                let ghost shown = dto@;
                out.push(dto);
                assert(dto_views(out@) =~= dto_views(before).push(shown));
            }
            i += 1;
        }
        assert(self@.take(self@.len() as int) =~= self@);
        let ghost all = out@;
        let ghost less = |a: SessionInfoDto, b: SessionInfoDto|
            a.last_activity_date.nanos > b.last_activity_date.nanos;
        let before = |a: &SessionInfoDto, b: &SessionInfoDto| -> (c: bool)
            ensures
                c == (a.last_activity_date.nanos > b.last_activity_date.nanos),
            { a.last_activity_date.nanos > b.last_activity_date.nanos };
        let r: Vec<SessionInfoDto> = sort_by(out, before, Ghost(less));
        proof {
            lemma_sorted_dtos(all, less);
        }
        r
    }

    /// How many sessions a user has.
    pub fn user_session_count(&self, user_id: Guid) -> (r: usize)
        ensures
            r == sessions_of_user(self@, user_id),
    {
        let mut n: usize = 0;
        let mut i: usize = 0;
        while i < self.sessions.len()
            invariant
                i <= self.sessions@.len(),
                n <= i,
                n == sessions_of_user(self@.take(i as int), user_id),
            decreases self.sessions.len() - i,
        {
            assert(self@.take(i + 1).drop_last() =~= self@.take(i as int));
            assert(self@.take(i + 1).last() == self.sessions@[i as int]@);
            if self.sessions[i].user_id == user_id {
                n += 1;
            }
            i += 1;
        }
        assert(self@.take(self@.len() as int) =~= self@);
        n
    }

    /// The ids of the sessions on a device.
    pub fn sessions_on_device(&self, device_id: &str) -> (r: Vec<String>)
        ensures
            texts(r@) == ids_on_device(self@, device_id@),
    {
        let mut out: Vec<String> = Vec::new();
        let mut i: usize = 0;
        assert(texts(out@) =~= ids_on_device(self@.take(0), device_id@));
        while i < self.sessions.len()
            invariant
                i <= self.sessions@.len(),
                texts(out@) == ids_on_device(self@.take(i as int), device_id@),
            decreases self.sessions.len() - i,
        {
            assert(self@.take(i + 1).drop_last() =~= self@.take(i as int));
            assert(self@.take(i + 1).last() == self.sessions@[i as int]@);
            if eq_ignore_ascii_case(self.sessions[i].device_id.as_str(), device_id) {
                let ghost before = out@;
                out.push(self.sessions[i].id.clone());
                assert(texts(out@) =~= texts(before).push(self.sessions@[i as int].id@));
            }
            i += 1;
        }
        assert(self@.take(self@.len() as int) =~= self@);
        out
    }
}

/// How many sessions a user has.
pub open spec fn sessions_of_user(s: Sessions, user_id: Guid) -> int
    decreases s.len(),
{
    if s.len() == 0 {
        0
    } else {
        sessions_of_user(s.drop_last(), user_id) + if s.last().user_id == user_id {
            1int
        } else {
            0int
        }
    }
}

/// The ids of the sessions on a device.
pub open spec fn ids_on_device(s: Sessions, device_id: Seq<char>) -> Seq<Seq<char>>
    decreases s.len(),
{
    if s.len() == 0 {
        Seq::empty()
    } else if same_ignoring_case(s.last().device_id, device_id) {
        ids_on_device(s.drop_last(), device_id).push(s.last().id)
    } else {
        ids_on_device(s.drop_last(), device_id)
    }
}

proof fn lemma_sorted_dtos(
    v: Seq<SessionInfoDto>,
    less: spec_fn(SessionInfoDto, SessionInfoDto) -> bool,
)
    requires
        less == (|a: SessionInfoDto, b: SessionInfoDto|
            a.last_activity_date.nanos > b.last_activity_date.nanos),
    ensures
        dto_views(sorted(v, less)) == sorted(dto_views(v), by_activity()),
    decreases v.len(),
{
    if v.len() == 0 {
        assert(dto_views(sorted(v, less)) =~= sorted(dto_views(v), by_activity()));
    } else {
        lemma_sorted_dtos(v.drop_last(), less);
        assert(dto_views(v).drop_last() =~= dto_views(v.drop_last()));
        lemma_inserted_dtos(sorted(v.drop_last(), less), v.last(), less);
    }
}

proof fn lemma_inserted_dtos(
    s: Seq<SessionInfoDto>,
    x: SessionInfoDto,
    less: spec_fn(SessionInfoDto, SessionInfoDto) -> bool,
)
    requires
        less == (|a: SessionInfoDto, b: SessionInfoDto|
            a.last_activity_date.nanos > b.last_activity_date.nanos),
    ensures
        dto_views(inserted(s, x, less)) == inserted(dto_views(s), x@, by_activity()),
    decreases s.len(),
{
    if s.len() > 0 && less(x, s.last()) {
        lemma_inserted_dtos(s.drop_last(), x, less);
        assert(dto_views(s).drop_last() =~= dto_views(s.drop_last()));
        assert(dto_views(inserted(s.drop_last(), x, less).push(s.last())) =~= dto_views(
            inserted(s.drop_last(), x, less),
        ).push(s.last()@));
    } else {
        assert(dto_views(s.push(x)) =~= dto_views(s).push(x@));
    }
}

fn is_session_listed(
    session: &SessionInfo,
    query: &SessionQuery,
    access: Access,
    live: &Liveness,
    now: Timestamp,
) -> (r: bool)
    requires
        now.in_calendar(),
    ensures
        r == is_listed(session@, *query, access, *live, now),
{
    if let Some(want) = &query.device_id {
        if !eq_ignore_ascii_case(session.device_id.as_str(), want.as_str()) {
            return false;
        }
    }
    let own: bool = session.user_id.is_nil() || session.contains_user(query.user_id);
    if query.only_controllable {
        if !live.session_supports_remote_control(session) {
            return false;
        }
        if !access.can_control_others && !own {
            return false;
        }
    } else if !access.is_admin && !own {
        return false;
    }
    if let Some(n) = query.active_within_seconds {
        if n > 0 {
            let since: i128 = now.nanos - (n as i128) * 1_000_000_000;
            if session.last_activity_date.nanos < since {
                return false;
            }
        }
    }
    true
}

// ---------------------------------------------------------------------------
// Signing in
// ---------------------------------------------------------------------------
/// A request to sign in.
#[derive(Debug, Clone)]
pub struct AuthenticationRequest {
    pub user_id: Option<Guid>,
    pub username: Option<String>,
    pub password: Option<String>,
    pub app: Option<String>,
    pub app_version: Option<String>,
    pub device_id: Option<String>,
    pub device_name: Option<String>,
    pub remote_endpoint: Option<String>,
}

/// Whether a text is there and not empty.
pub open spec fn given(v: Option<String>) -> bool {
    v matches Some(t) && t@.len() > 0
}

/// The error for an argument that is missing.
pub open spec fn missing(name: Seq<char>) -> ErrorView {
    ErrorView::InvalidInput(name + " is required"@)
}

/// A text that must be there and not be empty.
pub fn require(value: &Option<String>, name: &str) -> (r: Result<String, ServiceError>)
    ensures
        match r {
            Ok(t) => given(*value) && t@ == value->0@,
            Err(e) => !given(*value) && e@ == missing(name@),
        },
{
    match value {
        Some(t) => {
            if t.as_str().unicode_len() > 0 {
                return Ok(t.clone());
            }
        },
        None => {},
    }
    Err(ServiceError::InvalidInput(concat(name, " is required")))
}

fn or_blank(v: &Option<String>) -> (r: String)
    ensures
        r@ == match *v {
            Some(t) => t@,
            None => Seq::empty(),
        },
{
    match v {
        Some(t) => t.clone(),
        None => String::new(),
    }
}

/// What a client that signs in tells of itself. The app, the device and their
/// names must be there; the first that is missing is named.
pub fn authentication_contact(request: &AuthenticationRequest) -> (r: Result<Contact, ServiceError>)
    ensures
        match r {
            Ok(c) => {
                &&& given(request.app) && c.app_name@ == request.app->0@
                &&& given(request.device_id) && c.device_id@ == request.device_id->0@
                &&& given(request.device_name) && c.device_name@ == request.device_name->0@
                &&& given(request.app_version) && c.app_version@ == request.app_version->0@
                &&& c.remote_endpoint@ == match request.remote_endpoint {
                    Some(t) => t@,
                    None => Seq::empty(),
                }
            },
            Err(e) => if !given(request.app) {
                e@ == missing("app"@)
            } else if !given(request.device_id) {
                e@ == missing("deviceId"@)
            } else if !given(request.device_name) {
                e@ == missing("deviceName"@)
            } else {
                !given(request.app_version) && e@ == missing("appVersion"@)
            },
        },
{
    let app_name: String = match require(&request.app, "app") {
        Ok(t) => t,
        Err(e) => {
            return Err(e);
        },
    };
    let device_id: String = match require(&request.device_id, "deviceId") {
        Ok(t) => t,
        Err(e) => {
            return Err(e);
        },
    };
    let device_name: String = match require(&request.device_name, "deviceName") {
        Ok(t) => t,
        Err(e) => {
            return Err(e);
        },
    };
    let app_version: String = match require(&request.app_version, "appVersion") {
        Ok(t) => t,
        Err(e) => {
            return Err(e);
        },
    };
    Ok(
        Contact {
            app_name,
            app_version,
            device_id,
            device_name,
            remote_endpoint: or_blank(&request.remote_endpoint),
        },
    )
}

/// How far the search for the user has come.
#[derive(Debug, Clone, Copy, PartialEq, Eq, Structural)]
pub enum LookupStage {
    Begun,
    AskedById,
    AskedByName,
    CheckedPassword,
}

/// What to ask next in the search for the user.
#[derive(Debug, Clone)]
pub enum UserLookup {
    ById(Guid),
    ByName(String),
    ByPassword { username: String, password: String, remote_endpoint: String },
    /// The search is over: the last answer counts, or none where nothing was asked.
    Finished,
}

/// What a lookup stands for.
pub enum LookupView {
    ById(Guid),
    ByName(Seq<char>),
    ByPassword { username: Seq<char>, password: Seq<char>, remote_endpoint: Seq<char> },
    Finished,
}

impl View for UserLookup {
    type V = LookupView;

    open spec fn view(&self) -> LookupView {
        match *self {
            UserLookup::ById(id) => LookupView::ById(id),
            UserLookup::ByName(name) => LookupView::ByName(name@),
            UserLookup::ByPassword { username, password, remote_endpoint } => {
                LookupView::ByPassword {
                    username: username@,
                    password: password@,
                    remote_endpoint: remote_endpoint@,
                }
            },
            UserLookup::Finished => LookupView::Finished,
        }
    }
}

/// The text, or an empty one.
pub open spec fn text_or_blank(v: Option<String>) -> Seq<char> {
    match v {
        Some(t) => t@,
        None => Seq::empty(),
    }
}

/// The last question: the password, where it is enforced.
pub open spec fn password_lookup(request: AuthenticationRequest, enforce_password: bool) -> LookupView {
    if enforce_password {
        LookupView::ByPassword {
            username: text_or_blank(request.username),
            password: text_or_blank(request.password),
            remote_endpoint: text_or_blank(request.remote_endpoint),
        }
    } else {
        LookupView::Finished
    }
}

/// What to ask next: by id where one is given; then, while no user is found, by
/// name where one is given; then, where it is enforced, the password, whose answer
/// counts whatever was found before.
pub open spec fn lookup_after(
    request: AuthenticationRequest,
    enforce_password: bool,
    stage: LookupStage,
    found: bool,
) -> LookupView {
    let by_name = match request.username {
        Some(name) => LookupView::ByName(name@),
        None => password_lookup(request, enforce_password),
    };
    match stage {
        LookupStage::Begun => match request.user_id {
            Some(id) => LookupView::ById(id),
            None => by_name,
        },
        LookupStage::AskedById => if found {
            password_lookup(request, enforce_password)
        } else {
            by_name
        },
        LookupStage::AskedByName => password_lookup(request, enforce_password),
        LookupStage::CheckedPassword => LookupView::Finished,
    }
}

fn password_question(request: &AuthenticationRequest, enforce_password: bool) -> (r: UserLookup)
    ensures
        r@ == password_lookup(*request, enforce_password),
{
    if enforce_password {
        UserLookup::ByPassword {
            username: or_blank(&request.username),
            password: or_blank(&request.password),
            remote_endpoint: or_blank(&request.remote_endpoint),
        }
    } else {
        UserLookup::Finished
    }
}

fn name_question(request: &AuthenticationRequest, enforce_password: bool) -> (r: UserLookup)
    ensures
        r@ == match request.username {
            Some(name) => LookupView::ByName(name@),
            None => password_lookup(*request, enforce_password),
        },
{
    match &request.username {
        Some(name) => UserLookup::ByName(name.clone()),
        None => password_question(request, enforce_password),
    }
}

/// What to ask next in the search for the user.
pub fn next_lookup(
    request: &AuthenticationRequest,
    enforce_password: bool,
    stage: LookupStage,
    found: bool,
) -> (r: UserLookup)
    ensures
        r@ == lookup_after(*request, enforce_password, stage, found),
{
    match stage {
        LookupStage::Begun => match request.user_id {
            Some(id) => UserLookup::ById(id),
            None => name_question(request, enforce_password),
        },
        LookupStage::AskedById => {
            if found {
                password_question(request, enforce_password)
            } else {
                name_question(request, enforce_password)
            }
        },
        LookupStage::AskedByName => password_question(request, enforce_password),
        LookupStage::CheckedPassword => UserLookup::Finished,
    }
}

/// Where a password is enforced, the search does not end without checking it.
pub proof fn law_enforced_password_is_checked(
    request: AuthenticationRequest,
    stage: LookupStage,
    found: bool,
)
    ensures
        lookup_after(request, true, stage, found) is Finished ==> stage
            == LookupStage::CheckedPassword,
{
}

/// Whether a user has as many sessions as they may have. Fewer than one means no
/// limit.
pub open spec fn at_session_limit(s: Sessions, user: SessionUser) -> bool {
    user.max_active_sessions >= 1 && sessions_of_user(s, user_id_in(user.id@))
        >= user.max_active_sessions
}

impl HermitSessionManager {
    /// Whether a user may sign in: from a device they may use, and while they have
    /// fewer sessions than they may have.
    pub fn check_admission(&self, user: &SessionUser, may_use_device: bool) -> (r: Result<
        (),
        ServiceError,
    >)
        ensures
            match r {
                Ok(_) => may_use_device && !at_session_limit(self@, *user),
                Err(e) => e@ == if !may_use_device {
                    ErrorView::Unauthorized("user is not allowed access from this device"@)
                } else {
                    ErrorView::Unauthorized("user is at their maximum number of sessions"@)
                } && (!may_use_device || at_session_limit(self@, *user)),
            },
    {
        if !may_use_device {
            return Err(
                ServiceError::Unauthorized("user is not allowed access from this device".to_owned()),
            );
        }
        if user.max_active_sessions >= 1 {
            let active: usize = self.user_session_count(parse_user_id(user.id.as_str()));
            if (active as i128) >= (user.max_active_sessions as i128) {
                return Err(
                    ServiceError::Unauthorized(
                        "user is at their maximum number of sessions".to_owned(),
                    ),
                );
            }
        }
        Ok(())
    }
}

/// A device's row, with the token that its requests carry.
#[derive(Debug, Clone)]
pub struct DeviceRow {
    pub access_token: String,
    pub app_name: String,
    pub app_version: String,
    pub date_created: Timestamp,
    pub date_last_activity: Timestamp,
    pub date_modified: Timestamp,
    pub device_id: String,
    pub device_name: String,
    pub is_active: bool,
    pub user_id: String,
}

impl DeviceRow {
    /// Whether this is the row of a client that has just signed in.
    pub open spec fn is_minted(&self, c: Contact, user: SessionUser, token: Guid, now: Timestamp) -> bool {
        &&& self.access_token@ == simple_text(token.value)
        &&& self.app_name@ == c.app_name@
        &&& self.app_version@ == c.app_version@
        &&& self.date_created == now
        &&& self.date_last_activity == now
        &&& self.date_modified == now
        &&& self.device_id@ == c.device_id@
        &&& self.device_name@ == c.device_name@
        &&& self.is_active
        &&& self.user_id@ == user.id@
    }
}

/// The row of a client that has just signed in, with the given token.
pub fn device_with_token(contact: &Contact, user: &SessionUser, token: Guid, now: Timestamp) -> (r:
    DeviceRow)
    ensures
        r.is_minted(*contact, *user, token, now),
{
    DeviceRow {
        access_token: guid_simple_text(token),
        app_name: contact.app_name.clone(),
        app_version: contact.app_version.clone(),
        date_created: now,
        date_last_activity: now,
        date_modified: now,
        device_id: contact.device_id.clone(),
        device_name: contact.device_name.clone(),
        is_active: true,
        user_id: user.id.clone(),
    }
}

/// Whether this is the row of a client that has just signed in, with some token.
pub open spec fn freshly_minted(row: DeviceRow, c: Contact, user: SessionUser, now: Timestamp) -> bool {
    exists|token: Guid| token.value != 0 && #[trigger] row.is_minted(c, user, token, now)
}

/// The row of a client that has just signed in. Its token is random.
pub fn mint_device(contact: &Contact, user: &SessionUser, now: Timestamp) -> (r: DeviceRow)
    ensures
        freshly_minted(r, *contact, *user, now),
{
    device_with_token(contact, user, new_guid(), now)
}

/// The statement that looks a device up by its token.
pub open spec fn device_by_token_sql(token: Seq<char>) -> Sql {
    say(
        give(
            say(Seq::empty(), r#"SELECT * FROM "Devices" WHERE "AccessToken" = "#@),
            BindView::Text(token),
        ),
        r#" ORDER BY "Id" LIMIT 1"#@,
    )
}

/// The statement that looks a device up by its token.
pub fn device_by_access_token_query(token: &str) -> (r: SqlBuilder)
    ensures
        r@ == device_by_token_sql(token@),
{
    let mut qb: SqlBuilder = SqlBuilder::empty();
    qb.push(r#"SELECT * FROM "Devices" WHERE "AccessToken" = "#);
    qb.push_text(token);
    qb.push(r#" ORDER BY "Id" LIMIT 1"#);
    qb
}

/// The user to look up for a device: none where its row names none.
pub open spec fn user_of_device(device: DeviceRow) -> Option<Guid> {
    if device.user_id@.len() == 0 {
        None
    } else {
        Some(user_id_in(device.user_id@))
    }
}

/// The user to look up for a device: none where its row names none.
pub fn device_user(device: &DeviceRow) -> (r: Option<Guid>)
    ensures
        r == user_of_device(*device),
{
    if device.user_id.as_str().unicode_len() == 0 {
        None
    } else {
        Some(parse_user_id(device.user_id.as_str()))
    }
}

/// Whether a contact is the one that a device's row stands for: the device id of
/// the request goes before that of the row, and a row without an app version counts
/// as version 1.
pub open spec fn stands_for(
    c: Contact,
    device: DeviceRow,
    device_id: Seq<char>,
    remote_endpoint: Seq<char>,
) -> bool {
    &&& c.app_name@ == device.app_name@
    &&& c.device_name@ == device.device_name@
    &&& c.app_version@ == (if device.app_version@.len() == 0 {
        "1"@
    } else {
        device.app_version@
    })
    &&& c.device_id@ == (if device_id.len() == 0 {
        device.device_id@
    } else {
        device_id
    })
    &&& c.remote_endpoint@ == remote_endpoint
}

/// The contact that a token stands for. A token without a device is refused.
pub fn token_contact(device: Option<&DeviceRow>, device_id: &str, remote_endpoint: &str) -> (r:
    Result<Contact, ServiceError>)
    ensures
        match r {
            Ok(c) => device matches Some(d) && stands_for(c, *d, device_id@, remote_endpoint@),
            Err(e) => device is None && e@ == ErrorView::Unauthorized("invalid access token"@),
        },
{
    match device {
        Some(d) => Ok(
            Contact {
                app_name: d.app_name.clone(),
                app_version: if d.app_version.as_str().unicode_len() == 0 {
                    "1".to_owned()
                } else {
                    d.app_version.clone()
                },
                device_id: if device_id.unicode_len() == 0 {
                    d.device_id.clone()
                } else {
                    device_id.to_owned()
                },
                device_name: d.device_name.clone(),
                remote_endpoint: remote_endpoint.to_owned(),
            },
        ),
        None => Err(ServiceError::Unauthorized("invalid access token".to_owned())),
    }
}

/// Whether a token can be signed out: it must not be empty.
pub fn check_logout(access_token: &str) -> (r: Result<(), ServiceError>)
    ensures
        r is Ok <==> access_token@.len() > 0,
        r matches Err(e) ==> e@ == ErrorView::InvalidInput("accessToken is required"@),
{
    if access_token.unicode_len() == 0 {
        return Err(ServiceError::InvalidInput("accessToken is required".to_owned()));
    }
    Ok(())
}

/// Where the devices stand that are to be signed out: all but the one with the
/// current token.
pub open spec fn revoked(tokens: Seq<Seq<char>>, current: Seq<char>) -> Seq<int>
    decreases tokens.len(),
{
    if tokens.len() == 0 {
        Seq::empty()
    } else if same_ignoring_case(tokens.last(), current) {
        revoked(tokens.drop_last(), current)
    } else {
        revoked(tokens.drop_last(), current).push(tokens.len() - 1)
    }
}

/// Numbers as integers.
pub open spec fn places(v: Seq<usize>) -> Seq<int> {
    Seq::new(v.len(), |i: int| v[i] as int)
}

/// Where the devices stand that are to be signed out, by their tokens.
pub fn devices_to_revoke(tokens: &[String], current_access_token: &str) -> (r: Vec<usize>)
    ensures
        places(r@) == revoked(texts(tokens@), current_access_token@),
{
    let ghost all = texts(tokens@);
    let mut out: Vec<usize> = Vec::new();
    let mut i: usize = 0;
    assert(places(out@) =~= revoked(all.take(0), current_access_token@));
    while i < tokens.len()
        invariant
            i <= tokens.len(),
            all == texts(tokens@),
            places(out@) == revoked(all.take(i as int), current_access_token@),
        decreases tokens.len() - i,
    {
        assert(all.take(i + 1).drop_last() =~= all.take(i as int));
        assert(all.take(i + 1).last() == tokens@[i as int]@);
        if !eq_ignore_ascii_case(tokens[i].as_str(), current_access_token) {
            let ghost before = out@;
            out.push(i);
            assert(places(out@) =~= places(before).push(i as int));
        }
        i += 1;
    }
    assert(all.take(all.len() as int) =~= all);
    out
}

/// A caller who asks for every session gets each one that they have or share, and an
/// administrator each one that there is.
pub proof fn law_own_sessions_are_listed(
    s: Sessions,
    q: SessionQuery,
    access: Access,
    live: Liveness,
    now: Timestamp,
    i: int,
)
    requires
        q.device_id is None,
        q.active_within_seconds is None,
        !q.only_controllable,
        0 <= i < s.len(),
        access.is_admin || s[i].contains_user(q.user_id),
    ensures
        exists|j: int|
            0 <= j < listed(s, q, access, live, now).len() && (#[trigger] listed(
                s,
                q,
                access,
                live,
                now,
            )[j]).id == s[i].id,
    decreases s.len(),
{
    let head = listed(s.drop_last(), q, access, live, now);
    let all = listed(s, q, access, live, now);
    if i == s.len() - 1 {
        assert(is_listed(s.last(), q, access, live, now));
        assert(all[head.len() as int].id == s[i].id);
    } else {
        law_own_sessions_are_listed(s.drop_last(), q, access, live, now, i);
        let j = choose|j: int| 0 <= j < head.len() && (#[trigger] head[j]).id == s.drop_last()[i].id;
        assert(all[j] == head[j]);
    }
}

/// A session that was not active for as long as is asked is not listed, and one on another
/// device than is asked for is not.
pub proof fn law_listed_sessions_are_as_asked(
    s: Sessions,
    q: SessionQuery,
    access: Access,
    live: Liveness,
    now: Timestamp,
    i: int,
)
    requires
        0 <= i < listed(s, q, access, live, now).len(),
    ensures
        ({
            let seen = listed(s, q, access, live, now)[i];
            &&& q.device_id matches Some(d) ==> same_ignoring_case(seen.device_id, d@)
            &&& q.active_within_seconds matches Some(n) ==> n > 0 ==> now.nanos
                - seen.last_activity_date.nanos <= n * 1_000_000_000
        }),
    decreases s.len(),
{
    if s.len() > 0 {
        let head = listed(s.drop_last(), q, access, live, now);
        if i < head.len() {
            law_listed_sessions_are_as_asked(s.drop_last(), q, access, live, now, i);
        }
    }
}

/// Signing out everywhere else signs out every device but the one with the current token.
pub proof fn law_every_other_device_is_signed_out(tokens: Seq<Seq<char>>, current: Seq<char>)
    ensures
        forall|i: int| #[trigger]
            revoked(tokens, current).contains(i) <==> 0 <= i < tokens.len() && !same_ignoring_case(
                tokens[i],
                current,
            ),
    decreases tokens.len(),
{
    if tokens.len() > 0 {
        let rest = tokens.drop_last();
        let n = rest.len() as int;
        law_every_other_device_is_signed_out(rest, current);
        let head = revoked(rest, current);
        let all = revoked(tokens, current);
        assert forall|i: int| #[trigger]
            all.contains(i) <==> 0 <= i < tokens.len() && !same_ignoring_case(tokens[i], current) by {
            assert(head.contains(i) <==> 0 <= i < n && !same_ignoring_case(rest[i], current));
            if 0 <= i < n {
                assert(rest[i] == tokens[i]);
            }
            if !same_ignoring_case(tokens.last(), current) {
                assert(all =~= head.push(n));
                assert(all[head.len() as int] == n);
                if head.contains(i) {
                    let j = choose|j: int| 0 <= j < head.len() && head[j] == i;
                    assert(all[j] == i);
                }
                if all.contains(i) && i != n {
                    let j = choose|j: int| 0 <= j < all.len() && all[j] == i;
                    assert(head[j] == i);
                }
            }
        }
    }
}

/// A message is written to every session that it is for, once, and to no other.
pub proof fn law_message_goes_to_its_audience(
    s: Sessions,
    audience: Audience,
    live: Liveness,
    id: Seq<char>,
)
    ensures
        (exists|j: int|
            0 <= j < pushes(s, audience, live).len() && (#[trigger] pushes(s, audience, live)[j]).session_id
                == id) <==> exists|i: int|
            0 <= i < s.len() && (#[trigger] s[i]).id == id && audience.holds(s[i]),
        pushes(s, audience, live).len() <= s.len(),
    decreases s.len(),
{
    if s.len() > 0 {
        let rest = s.drop_last();
        let n = rest.len() as int;
        law_message_goes_to_its_audience(rest, audience, live, id);
        let head = pushes(rest, audience, live);
        let all = pushes(s, audience, live);
        assert(s[n] == s.last());
        assert forall|i: int| 0 <= i < n implies #[trigger] s[i] == rest[i] by {}
        assert forall|j: int| 0 <= j < head.len() implies #[trigger] all[j] == head[j] by {}
        if audience.holds(s.last()) {
            assert(all[head.len() as int].session_id == s.last().id);
        }
        if exists|j: int| 0 <= j < head.len() && (#[trigger] head[j]).session_id == id {
            let j = choose|j: int| 0 <= j < head.len() && (#[trigger] head[j]).session_id == id;
            assert(all[j].session_id == id);
            let i = choose|i: int|
                0 <= i < rest.len() && (#[trigger] rest[i]).id == id && audience.holds(rest[i]);
            assert(s[i].id == id);
        }
        if exists|i: int| 0 <= i < s.len() && (#[trigger] s[i]).id == id && audience.holds(s[i]) {
            let i = choose|i: int| 0 <= i < s.len() && (#[trigger] s[i]).id == id && audience.holds(s[i]);
            if i < n {
                assert(rest[i].id == id);
                let j = choose|j: int| 0 <= j < head.len() && (#[trigger] head[j]).session_id == id;
                assert(all[j].session_id == id);
            }
        }
        if exists|j: int| 0 <= j < all.len() && (#[trigger] all[j]).session_id == id {
            let j = choose|j: int| 0 <= j < all.len() && (#[trigger] all[j]).session_id == id;
            if j < head.len() {
                assert(head[j].session_id == id);
                let i = choose|i: int|
                    0 <= i < rest.len() && (#[trigger] rest[i]).id == id && audience.holds(rest[i]);
                assert(s[i].id == id);
            }
        }
    }
}

} // verus!
