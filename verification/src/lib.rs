//! The media server's core: its managers' decisions, rules and text formats.
pub mod guid;
pub mod item_type_lookup;
pub mod item_query_kinds;
pub mod item_query_law;
pub mod item_query_links;
pub mod item_query_meaning;
pub mod item_query_order;
pub mod item_query_relations;
pub mod item_query_state;
pub mod item_query_values;
pub mod items_query;
pub mod json;
pub mod linked_children_service;
pub mod live_tv_manager;
pub mod localization_manager;
pub mod lyric_manager;
pub mod media_attachment_repository;
pub mod media_segment_manager;
pub mod media_source_manager;
pub mod media_stream_repository;
pub mod model;
pub mod next_up_batch;
pub mod next_up_meaning;
pub mod next_up_service;
pub mod next_up_statements;
pub mod number_text;
pub mod paging;
pub mod path_manager;
pub mod paths;
pub mod people_repository;
pub mod play_queue;
pub mod playback_metrics;
pub mod plugin_manager;
pub mod resolvers;
pub mod scheduled_tasks;
pub mod service_error;
pub mod session_bus;
pub mod session_manager;
pub mod session_websocket_listener;
pub mod sign_in;
pub mod similar_items_manager;
pub mod similar_meaning;
pub mod sort;
pub mod sql;
pub mod sql_meaning;
pub mod subtitle_manager;
pub mod sync_play_group;
pub mod sync_play_manager;
pub mod table;
pub mod text;
pub mod text_util;
pub mod time;
pub mod translate_query;
pub mod trickplay_manager;
pub mod tv_series_manager;
pub mod user_entity_ext;
pub mod user_manager;
pub mod user_statements;
pub mod user_view_manager;
