# hermit_core

The core services of a media server, verified with Verus.

`src/` is the library; Verus proves every function in it against its contract:

- **Queries and rows.** `translate_query` turns an item filter into one SQL statement;
  `people_repository`, `media_stream_repository`, `media_attachment_repository`,
  `media_segment_manager`, `trickplay_manager`, `subtitle_manager`, `playback_metrics`,
  `linked_children_service`, `similar_items_manager`, `next_up_service`, `next_up_batch`,
  `tv_series_manager` and `user_view_manager` say which statements are run and what is made of
  their rows. A statement (`sql`) is a list of fixed texts and bound values, so no value ever
  becomes part of its text.
- **Users and sessions.** `user_manager` and `user_entity_ext` hold the rules of accounts;
  `session_manager`, `sign_in`, `session_bus` and `session_websocket_listener` those of clients.
- **State machines.** `sync_play_group`, `sync_play_manager` and `play_queue` keep groups that
  watch together in step; `scheduled_tasks` decides which tasks are due.
- **Texts and files.** `lyric_manager`, `localization_manager`, `resolvers`, `path_manager`,
  `text_util`, `plugin_manager`, `media_source_manager` and `live_tv_manager`.
- **Foundations.** `text`, `number_text`, `guid`, `json`, `time`, `table`, `sort`, `paging`,
  `paths`, `model`, `items_query`, `item_type_lookup` and `service_error`.

What holds of the library as a whole stands beside the functions, as proof functions whose names
begin with `law_`.

Calls into `uuid`, `chrono`, `serde_json` and parts of the standard library go through small
trusted functions. Each says in its doc comment what it takes for granted.

`app/` runs the statements on SQLite, reads and writes files, talks to sockets and keeps the
clock; the rules are all in the library. `tests/` runs the library, its statements included, on a database in
memory.
