use hermit_core::guid::Guid;
use hermit_core::play_queue::{
    fresh_entries, GroupQueueMode, GroupRepeatMode, GroupShuffleMode, PlayQueue,
    SyncPlayQueueItem,
};
use hermit_core::sync_play_group::{
    Group, GroupMessage, GroupStateType, PlaybackRequest, SendCommandType, SyncPlaySession, Target,
};
use hermit_core::sync_play_manager::{
    sync_play_message, HermitSyncPlayManager, Notice, RequestOutcome,
};
use hermit_core::time::Timestamp;

fn session(id: &str, user: u128, name: &str) -> SyncPlaySession {
    SyncPlaySession {
        session_id: id.to_owned(),
        user_id: Guid::from_u128(user),
        user_name: name.to_owned(),
    }
}

fn at(seconds: i128) -> Timestamp {
    Timestamp { nanos: seconds * 1_000_000_000 }
}

fn play(items: u128) -> PlaybackRequest {
    PlaybackRequest::Play {
        playing_queue: (1..=items).map(Guid::from_u128).collect(),
        playing_item_position: 0,
        start_position_ticks: 0,
    }
}

fn entry(n: u128) -> SyncPlayQueueItem {
    SyncPlayQueueItem { item_id: Guid::from_u128(n), playlist_item_id: Guid::from_u128(100 + n) }
}

fn ids(q: &PlayQueue) -> Vec<u128> {
    q.items.iter().map(|i| i.item_id.value).collect()
}

#[test]
fn new_group_creates_and_lists() {
    let mut m = HermitSyncPlayManager::new();
    let s = session("s1", 1, "alice");
    let (info, told) = m.new_group(&s, "movie night", at(1));
    assert_eq!(info.group_name, "movie night");
    assert_eq!(info.participants, vec!["alice".to_owned()]);
    assert_eq!(info.state, GroupStateType::Idle);
    assert_eq!(told.len(), 1);
    assert_eq!(told[0].to, vec!["s1"]);
    assert!(matches!(told[0].notice, Notice::GroupJoined { .. }));

    assert_eq!(m.list_groups().len(), 1);
    assert!(m.is_user_active(s.user_id));
    assert_eq!(m.get_group(info.group_id).unwrap().group_id, info.group_id);
}

#[test]
fn join_notifies_existing_members() {
    let mut m = HermitSyncPlayManager::new();
    let a = session("s1", 1, "alice");
    let (info, _) = m.new_group(&a, "g", at(1));
    let b = session("s2", 2, "bob");
    let told = m.join_group(&b, info.group_id, at(2));
    let g = m.get_group(info.group_id).unwrap();
    assert_eq!(g.participants, vec!["alice".to_owned(), "bob".to_owned()]);
    let to_a: Vec<_> = told.iter().filter(|t| t.to.contains(&"s1".to_owned())).collect();
    let to_b: Vec<_> = told.iter().filter(|t| t.to.contains(&"s2".to_owned())).collect();
    assert_eq!(to_a.len(), 1);
    assert!(matches!(&to_a[0].notice, Notice::UserJoined { user_name, .. } if user_name == "bob"));
    assert_eq!(to_b.len(), 1);
    assert!(matches!(to_b[0].notice, Notice::GroupJoined { .. }));
}

#[test]
fn join_nonexistent_group_notifies_caller() {
    let mut m = HermitSyncPlayManager::new();
    let s = session("s1", 1, "alice");
    let told = m.join_group(&s, Guid::from_u128(9), at(1));
    assert!(matches!(told[0].notice, Notice::GroupDoesNotExist { .. }));
    assert_eq!(told[0].to, vec!["s1"]);
    assert!(m.list_groups().is_empty());
}

#[test]
fn leave_removes_and_drops_empty_group() {
    let mut m = HermitSyncPlayManager::new();
    let s = session("s1", 1, "alice");
    let (info, _) = m.new_group(&s, "g", at(1));
    m.leave_group(&s, at(2));
    assert!(m.list_groups().is_empty());
    assert!(!m.is_user_active(s.user_id));
    assert!(m.get_group(info.group_id).is_err());
}

#[test]
fn leave_when_not_in_group_notifies_not_in_group() {
    let mut m = HermitSyncPlayManager::new();
    let s = session("s1", 1, "alice");
    let told = m.leave_group(&s, at(1));
    assert!(matches!(told[0].notice, Notice::NotInGroup));
}

#[test]
fn set_new_queue_broadcasts_playqueue_and_unpause() {
    let mut m = HermitSyncPlayManager::new();
    let a = session("s1", 1, "alice");
    let (info, _) = m.new_group(&a, "g", at(1));
    let b = session("s2", 2, "bob");
    m.join_group(&b, info.group_id, at(2));
    let (messages, deliveries) = match m.handle_request(&a, &play(2), at(3)) {
        RequestOutcome::Handled { messages, deliveries } => (messages, deliveries),
        other => panic!("{other:?}"),
    };
    assert_eq!(m.get_group(info.group_id).unwrap().state, GroupStateType::Playing);
    assert!(messages.iter().any(|o| matches!(o.body, GroupMessage::PlayQueue(_))));
    assert!(messages.iter().any(
        |o| matches!(&o.body, GroupMessage::Command(c) if c.command == SendCommandType::Unpause)
    ));
    assert!(deliveries.iter().filter(|d| d.session_id == "s2").count() >= 2);
}

fn state(m: &HermitSyncPlayManager, id: Guid) -> GroupStateType {
    m.get_group(id).unwrap().state
}

#[test]
fn pause_unpause_stop_transitions() {
    let mut m = HermitSyncPlayManager::new();
    let a = session("s1", 1, "alice");
    let (info, _) = m.new_group(&a, "g", at(1));
    let gid = info.group_id;
    m.handle_request(&a, &play(1), at(2));
    m.handle_request(&a, &PlaybackRequest::Pause, at(3));
    assert_eq!(state(&m, gid), GroupStateType::Paused);
    m.handle_request(&a, &PlaybackRequest::Unpause, at(4));
    assert_eq!(state(&m, gid), GroupStateType::Playing);
    m.handle_request(&a, &PlaybackRequest::Stop, at(5));
    assert_eq!(state(&m, gid), GroupStateType::Idle);
    // Idle pause/unpause are no-ops.
    m.handle_request(&a, &PlaybackRequest::Pause, at(6));
    assert_eq!(state(&m, gid), GroupStateType::Idle);
}

#[test]
fn handle_request_when_not_in_group_notifies() {
    let mut m = HermitSyncPlayManager::new();
    let s = session("s1", 1, "alice");
    assert!(matches!(
        m.handle_request(&s, &PlaybackRequest::Pause, at(1)),
        RequestOutcome::NotInGroup
    ));
}

#[test]
fn queue_move_remove_repeat_shuffle_mutate() {
    let mut m = HermitSyncPlayManager::new();
    let a = session("s1", 1, "alice");
    let (info, _) = m.new_group(&a, "g", at(1));
    m.handle_request(&a, &play(1), at(2));
    m.handle_request(
        &a,
        &PlaybackRequest::Queue {
            item_ids: vec![Guid::from_u128(8), Guid::from_u128(9)],
            mode: GroupQueueMode::QueueNext,
        },
        at(3),
    );
    m.handle_request(&a, &PlaybackRequest::NextItem { playlist_item_id: Guid::nil() }, at(4));
    m.handle_request(&a, &PlaybackRequest::PreviousItem { playlist_item_id: Guid::nil() }, at(5));
    m.handle_request(
        &a,
        &PlaybackRequest::SetRepeatMode { mode: GroupRepeatMode::RepeatAll },
        at(6),
    );
    m.handle_request(
        &a,
        &PlaybackRequest::SetShuffleMode { mode: GroupShuffleMode::Shuffle },
        at(7),
    );
    assert_eq!(state(&m, info.group_id), GroupStateType::Playing);
    let group = m.groups.get(&info.group_id).unwrap();
    assert_eq!(ids(&group.queue), vec![1, 8, 9]);
    assert_eq!(group.queue.playing_index, 0);
    assert_eq!(group.queue.repeat, GroupRepeatMode::RepeatAll);
    assert_eq!(group.queue.shuffle, GroupShuffleMode::Shuffle);
}

#[test]
fn ping_seek_buffer_ready_flow() {
    let mut m = HermitSyncPlayManager::new();
    let a = session("s1", 1, "alice");
    let (info, _) = m.new_group(&a, "g", at(1));
    let gid = info.group_id;
    m.handle_request(&a, &PlaybackRequest::Ping { ping: 40 }, at(2));
    m.handle_request(&a, &play(1), at(3));
    m.handle_request(&a, &PlaybackRequest::IgnoreWait { ignore_wait: true }, at(4));
    m.handle_request(&a, &PlaybackRequest::Seek { position_ticks: 5_000_000 }, at(5));
    assert_eq!(state(&m, gid), GroupStateType::Waiting);
    m.handle_request(
        &a,
        &PlaybackRequest::Buffer {
            when: at(6),
            position_ticks: 5_000_000,
            is_playing: false,
            playlist_item_id: Guid::nil(),
        },
        at(6),
    );
    m.handle_request(
        &a,
        &PlaybackRequest::Ready {
            when: at(7),
            position_ticks: 5_000_000,
            is_playing: true,
            playlist_item_id: Guid::nil(),
        },
        at(7),
    );
    assert_eq!(state(&m, gid), GroupStateType::Playing);
    assert_eq!(m.groups.get(&gid).unwrap().members[0].ping_ms, 40);
}

#[test]
fn clear_playlist_stops_group() {
    let mut m = HermitSyncPlayManager::new();
    let a = session("s1", 1, "alice");
    let (info, _) = m.new_group(&a, "g", at(1));
    m.handle_request(&a, &play(3), at(2));
    m.handle_request(
        &a,
        &PlaybackRequest::RemoveFromPlaylist {
            playlist_item_ids: vec![],
            clear_playlist: true,
            clear_playing_item: true,
        },
        at(3),
    );
    assert_eq!(state(&m, info.group_id), GroupStateType::Idle);
}

#[test]
fn creating_a_second_group_leaves_the_first() {
    let mut m = HermitSyncPlayManager::new();
    let a = session("s1", 1, "alice");
    let (first, _) = m.new_group(&a, "one", at(1));
    let (second, _) = m.new_group(&a, "two", at(2));
    assert_ne!(first.group_id, second.group_id);
    // The first group is now empty and dropped.
    assert!(m.get_group(first.group_id).is_err());
    assert_eq!(m.list_groups().len(), 1);
}

#[test]
fn a_member_who_leaves_is_announced() {
    let mut m = HermitSyncPlayManager::new();
    let a = session("s1", 1, "alice");
    let b = session("s2", 2, "bob");
    let (info, _) = m.new_group(&a, "g", at(1));
    m.join_group(&b, info.group_id, at(2));
    let told = m.leave_group(&b, at(3));
    assert!(told.iter().any(|t| matches!(t.notice, Notice::GroupLeft { .. }) && t.to == vec!["s2"]));
    assert!(told.iter().any(
        |t| matches!(&t.notice, Notice::UserLeft { user_name, .. } if user_name == "bob")
            && t.to == vec!["s1"]
    ));
    assert_eq!(m.get_group(info.group_id).unwrap().participants, vec!["alice"]);
    assert!(m.is_user_active(a.user_id));
    assert!(!m.is_user_active(b.user_id));
}

#[test]
fn the_queue_steps_between_its_ends() {
    let mut q = PlayQueue::new();
    assert_eq!(q.playing_index, 0);
    assert!(q.current().is_none());
    q.set(vec![entry(1), entry(2), entry(3)], 1);
    assert_eq!(q.current().unwrap().item_id, Guid::from_u128(2));
    assert!(q.next());
    assert_eq!(q.playing_index, 2);
    assert!(!q.next());
    // Repeating all does not wrap a step around.
    q.repeat = GroupRepeatMode::RepeatAll;
    assert!(!q.next());
    assert_eq!(q.playing_index, 2);
    assert!(q.previous());
    assert!(q.previous());
    assert_eq!(q.playing_index, 0);
    assert!(!q.previous());
    assert!(q.set_playing(Guid::from_u128(101)));
    assert_eq!(q.playing_index, 0);
    assert!(!q.set_playing(Guid::from_u128(999)));
}

#[test]
fn the_queue_grows_and_shrinks() {
    let mut q = PlayQueue::new();
    q.set(vec![entry(1), entry(2)], 0);
    q.enqueue(vec![entry(3)], GroupQueueMode::QueueNext);
    assert_eq!(ids(&q), vec![1, 3, 2]);
    q.enqueue(vec![entry(4)], GroupQueueMode::Queue);
    assert_eq!(ids(&q), vec![1, 3, 2, 4]);
    q.move_item(Guid::from_u128(104), 0);
    assert_eq!(ids(&q), vec![4, 1, 3, 2]);
    // What plays goes on playing.
    assert_eq!(q.current().unwrap().item_id, Guid::from_u128(1));
    q.remove(&[Guid::from_u128(103), Guid::from_u128(104)]);
    assert_eq!(ids(&q), vec![1, 2]);
}

#[test]
fn entries_are_told_apart() {
    let fresh = fresh_entries(&[Guid::from_u128(5), Guid::from_u128(5)]);
    assert_eq!(fresh[0].item_id, fresh[1].item_id);
    assert_ne!(fresh[0].playlist_item_id, fresh[1].playlist_item_id);
}

#[test]
fn members_wait_for_the_slowest() {
    let mut g = Group::new(Guid::from_u128(1), "g".to_owned(), at(1));
    assert!(g.is_empty());
    g.add_member(&session("s1", 1, "alice"));
    // The default ping of half a second, and as much again for safety.
    let when = g.unpause_when(at(10));
    assert!(when.nanos > at(10).nanos);
    g.members[0].ping_ms = 40;
    assert!(g.unpause_when(at(10)).nanos < when.nanos);
    let out = g.handle(&play(1), at(11));
    assert!(out.iter().all(|o| matches!(o.target, Target::AllGroup | Target::CurrentSession | Target::AllReady)));
    g.advance_position(at(12));
    g.remove_member("s1");
    assert!(g.is_empty());
}

#[test]
fn requests_out_of_reach_are_recognised() {
    let mut m = HermitSyncPlayManager::new();
    let s = session("s1", 1, "alice");
    let (info, _) = m.new_group(&s, "g", at(1));
    assert!(m.can_handle_request(&s, &play(2), at(2)));
    assert!(m.is_alone_in(&s, info.group_id));
    assert!(!m.is_alone_in(&s, Guid::from_u128(99)));
    assert!(m.can_enter(&s));

    // A ping that cannot be doubled leaves no time to schedule anything.
    let ping = PlaybackRequest::Ping { ping: i64::MAX };
    assert!(m.can_handle_request(&s, &ping, at(2)));
    m.handle_request(&s, &ping, at(2));
    assert!(!m.can_handle_request(&s, &play(2), at(2)));
    assert!(m.can_handle_request(&s, &PlaybackRequest::Unpause, at(2)));
    assert!(m.can_handle_request(&s, &PlaybackRequest::Stop, at(2)));

    // Who is in no group can ask for anything.
    let other = session("s2", 2, "bob");
    assert!(m.can_handle_request(&other, &play(2), at(2)));

    let b = session("s3", 3, "cid");
    m.join_group(&b, info.group_id, at(3));
    assert!(!m.is_alone_in(&s, info.group_id));
}

#[test]
fn a_group_that_seeks_plays_when_ready() {
    let mut g = Group::new(Guid::from_u128(7), "g".to_owned(), at(0));
    g.add_member(&session("s1", 1, "alice"));
    g.add_member(&session("s2", 2, "bob"));
    g.members[1].ping_ms = 400;
    g.handle(&play(2), at(1));
    for (position, expected) in [(50_i64, 50_i64), (-3, 0)] {
        g.handle(&PlaybackRequest::Seek { position_ticks: position }, at(10));
        assert!(g.members.iter().all(|m| m.is_buffering));
        let ready = PlaybackRequest::Ready {
            when: at(11),
            position_ticks: 0,
            is_playing: true,
            playlist_item_id: Guid::nil(),
        };
        let sent = g.handle(&ready, at(20));
        assert_eq!(g.state, GroupStateType::Playing);
        assert!(g.members.iter().all(|m| !m.is_buffering));
        assert_eq!(g.position_ticks, expected);
        // Twice the highest ping: bob's, or the default.
        let highest = g.members.iter().map(|m| m.ping_ms).max().unwrap();
        let starts = Timestamp { nanos: at(20).nanos + 2 * i128::from(highest) * 1_000_000 };
        assert_eq!(g.last_activity, starts);
        assert_eq!(sent.len(), 2);
        assert!(sent.iter().all(|m| m.target == Target::AllGroup));
        assert!(matches!(&sent[0].body, GroupMessage::Command(c)
            if c.command == SendCommandType::Unpause && c.when == starts
                && c.position_ticks == expected));
        assert!(matches!(&sent[1].body, GroupMessage::StateUpdate { state, .. }
            if *state == GroupStateType::Playing));
    }
}

#[test]
fn new_entries_have_ids() {
    let mut g = Group::new(Guid::from_u128(7), "g".to_owned(), at(0));
    g.handle(&play(3), at(1));
    assert!(g.queue.items.iter().all(|i| i.playlist_item_id != Guid::nil()));
}

#[test]
fn messages_have_hyphenated_ids() {
    let text = sync_play_message("SyncPlayCommand", "{ \"GroupId\": 1 }");
    let head = "{\"Data\":{\"GroupId\":1},\"MessageId\":\"";
    let tail = "\",\"MessageType\":\"SyncPlayCommand\"}";
    assert!(text.starts_with(head) && text.ends_with(tail), "{text}");
    let id = &text[head.len()..text.len() - tail.len()];
    assert_eq!(id.len(), 36);
    assert!(uuid::Uuid::parse_str(id).is_ok());
    assert_ne!(text, sync_play_message("SyncPlayCommand", "{ \"GroupId\": 1 }"));
}

#[test]
fn the_queue_is_stepped_moved_and_thinned() {
    let mut q = PlayQueue::new();
    q.set(vec![entry(1), entry(2), entry(3)], 1);
    assert!(q.next() && q.previous());
    assert_eq!(q.playing_index, 1);
    assert!(q.previous() && q.next());
    assert_eq!(q.playing_index, 1);

    q.move_item(Guid::from_u128(101), 2);
    assert_eq!(ids(&q), vec![2, 3, 1]);
    assert_eq!(q.playing_item_id(), Guid::from_u128(102));

    q.remove(&[Guid::from_u128(101), Guid::from_u128(103), Guid::from_u128(999)]);
    assert_eq!(ids(&q), vec![2]);
    assert_eq!(q.playing_item_id(), Guid::from_u128(102));
}

#[test]
fn a_paused_group_stays_put() {
    let mut g = Group::new(Guid::from_u128(7), "g".to_owned(), at(0));
    g.add_member(&session("s1", 1, "alice"));
    g.handle(&play(1), at(1));
    let started = g.last_activity;
    let now = Timestamp { nanos: started.nanos + 3_000_000_000 };
    g.handle(&PlaybackRequest::Pause, now);
    assert_eq!(g.position_ticks, 3 * 10_000_000);
    g.handle(&PlaybackRequest::Pause, at(100));
    assert_eq!(g.position_ticks, 3 * 10_000_000);
    g.handle(&PlaybackRequest::Unpause, at(200));
    assert_eq!(g.position_ticks, 3 * 10_000_000);
    assert_eq!(g.state, GroupStateType::Playing);
}
