//! The filter of a library query.
use vstd::prelude::*;

use crate::guid::Guid;
use crate::model::{BaseItemKind, ItemSortBy, MediaType, SortOrder};
use crate::time::Timestamp;

verus! {

/// Which items a query asks for. A field that is `None`, empty or nil does not
/// narrow the result.
#[derive(Debug, Clone)]
pub struct InternalItemsQuery {
    /// Whether the item is in high definition (and not beyond).
    pub is_hd: Option<bool>,
    /// Whether the item is in ultra-high definition.
    pub is_4k: Option<bool>,
    /// The least width in pixels.
    pub min_width: Option<i32>,
    /// The least height in pixels.
    pub min_height: Option<i32>,
    /// The greatest width in pixels.
    pub max_width: Option<i32>,
    /// The greatest height in pixels.
    pub max_height: Option<i32>,
    /// Whether the item's metadata is locked.
    pub is_locked: Option<bool>,
    /// Tags of which the item has one.
    pub tags: Vec<String>,
    /// Tags of which the item has none.
    pub exclude_tags: Vec<String>,
    /// Short for the tag `Sports`.
    pub is_sports: Option<bool>,
    /// Short for the tag `News`.
    pub is_news: Option<bool>,
    /// Short for the tag `Kids`.
    pub is_kids: Option<bool>,
    /// Whether the item is a movie.
    pub is_movie: Option<bool>,
    /// Whether the item is a series.
    pub is_series: Option<bool>,
    /// Text that the clean name or the original title holds.
    pub search_term: Option<String>,
    /// Whether the item is a folder.
    pub is_folder: Option<bool>,
    /// Kinds of which the item is one.
    pub include_item_types: Vec<BaseItemKind>,
    /// Kinds of which the item is none.
    pub exclude_item_types: Vec<BaseItemKind>,
    /// Channels of which the item belongs to one.
    pub channel_ids: Vec<Guid>,
    /// The parent; the nil identifier for any.
    pub parent_id: Guid,
    /// Whether descendants count as well as children.
    pub recursive: bool,
    /// Whether linked children are left out.
    pub physical_children_only: bool,
    /// The item's path.
    pub path: Option<String>,
    /// The item's presentation key.
    pub presentation_unique_key: Option<String>,
    /// The least community rating (the bits of a double).
    pub min_community_rating: Option<u64>,
    /// The least critic rating (the bits of a double).
    pub min_critic_rating: Option<u64>,
    /// The least index number.
    pub min_index_number: Option<i32>,
    /// The season and episode to start from.
    pub min_parent_and_index_number: Option<(i32, i32)>,
    /// The index number.
    pub index_number: Option<i32>,
    /// The parent's index number.
    pub parent_index_number: Option<i32>,
    /// A parent index number that the item does not have.
    pub parent_index_number_not_equals: Option<i32>,
    /// The earliest end.
    pub min_end_date: Option<Timestamp>,
    /// The latest end.
    pub max_end_date: Option<Timestamp>,
    /// Whether the item's end lies in the past.
    pub has_aired: Option<bool>,
    /// The earliest start.
    pub min_start_date: Option<Timestamp>,
    /// The latest start.
    pub max_start_date: Option<Timestamp>,
    /// The earliest premiere.
    pub min_premiere_date: Option<Timestamp>,
    /// The latest premiere.
    pub max_premiere_date: Option<Timestamp>,
    /// The earliest creation.
    pub min_date_created: Option<Timestamp>,
    /// The earliest last save.
    pub min_date_last_saved: Option<Timestamp>,
    /// The earliest last save for the user.
    pub min_date_last_saved_for_user: Option<Timestamp>,
    /// Whether the item is on the air now.
    pub is_airing: Option<bool>,
    /// Whether the item's premiere lies ahead.
    pub is_unaired: Option<bool>,
    /// The series' external id.
    pub external_series_id: Option<String>,
    /// The item's external id.
    pub external_id: Option<String>,
    /// The item's name.
    pub name: Option<String>,
    /// Whether the name is compared as it stands.
    pub use_raw_name: Option<bool>,
    /// Names of which the item has one.
    pub names: Vec<String>,
    /// Text that the name holds.
    pub name_contains: Option<String>,
    /// Text with which the sort name begins.
    pub name_starts_with: Option<String>,
    /// Text that the sort name does not precede.
    pub name_starts_with_or_greater: Option<String>,
    /// Text that the sort name precedes.
    pub name_less_than: Option<String>,
    /// The user whose data the filters below speak of.
    pub user_id: Option<Guid>,
    /// Whether the user marked the item as a favorite.
    pub is_favorite: Option<bool>,
    /// Whether the user likes the item.
    pub is_favorite_or_liked: Option<bool>,
    /// Whether the user rated the item highly.
    pub is_liked: Option<bool>,
    /// Whether the user has played the item.
    pub is_played: Option<bool>,
    /// Whether the user stopped part of the way.
    pub is_resumable: Option<bool>,
    /// A person credited on the item.
    pub person: Option<String>,
    /// People of whom one is credited on the item.
    pub person_ids: Vec<Guid>,
    /// The kinds of credit that count.
    pub person_types: Vec<String>,
    /// Genres of which the item has one.
    pub genres: Vec<String>,
    /// Genre items of which the item has one.
    pub genre_ids: Vec<Guid>,
    /// Studio items of which the item has one.
    pub studio_ids: Vec<Guid>,
    /// Artist items of which the item has one.
    pub artist_ids: Vec<Guid>,
    /// Album artist items of which the item has one.
    pub album_artist_ids: Vec<Guid>,
    /// Artist items of which the item has none.
    pub exclude_artist_ids: Vec<Guid>,
    /// Albums of which the item is on one.
    pub album_ids: Vec<Guid>,
    /// Whether the item has an overview.
    pub has_overview: Option<bool>,
    /// Whether the item has an official rating.
    pub has_official_rating: Option<bool>,
    /// Official ratings of which the item has one.
    pub official_ratings: Vec<String>,
    /// Whether the item has an owner.
    pub has_owner_id: Option<bool>,
    /// Owners of which the item has one.
    pub owner_ids: Vec<Guid>,
    /// Stored extra types of which the item is one.
    pub extra_types: Vec<i32>,
    /// Whether owned items and alternate versions count.
    pub include_owned_items: bool,
    /// Whether the item has an IMDb id.
    pub has_imdb_id: Option<bool>,
    /// Whether the item has a TMDB id.
    pub has_tmdb_id: Option<bool>,
    /// Whether the item has a TVDB id.
    pub has_tvdb_id: Option<bool>,
    /// Provider ids of which the item has one.
    pub any_provider_id_equals: Vec<(String, String)>,
    /// Production years of which the item has one.
    pub years: Vec<i32>,
    /// Whether the item has no file.
    pub is_virtual_item: Option<bool>,
    /// Whether the item is missing.
    pub is_missing: Option<bool>,
    /// Whether the item is the season of specials.
    pub is_special_season: Option<bool>,
    /// Media types of which the item is one.
    pub media_types: Vec<MediaType>,
    /// Items of which this is one.
    pub item_ids: Vec<Guid>,
    /// Items of which this is none.
    pub exclude_item_ids: Vec<Guid>,
    /// Libraries of which the item is in one.
    pub top_parent_ids: Vec<Guid>,
    /// Folders of which the item is below one.
    pub ancestor_ids: Vec<Guid>,
    /// The series' presentation key.
    pub series_presentation_unique_key: Option<String>,
    /// Whether no credit names this person any more.
    pub is_dead_person: Option<bool>,
    /// Whether no item has this genre any more.
    pub is_dead_genre: Option<bool>,
    /// Whether no item has this studio any more.
    pub is_dead_studio: Option<bool>,
    /// Whether no item has this artist any more.
    pub is_dead_artist: Option<bool>,
    /// The season during which an episode aired.
    pub aired_during_season: Option<i32>,
    /// The order of the result.
    pub order_by: Vec<(ItemSortBy, SortOrder)>,
    /// The most items to return.
    pub limit: Option<i32>,
    /// How many items to skip.
    pub start_index: Option<i32>,
}

impl InternalItemsQuery {
    /// Whether no field narrows the result, orders it or pages it.
    pub open spec fn is_unrestricted(&self) -> bool {
        &&& self.is_hd is None
        &&& self.is_4k is None
        &&& self.min_width is None
        &&& self.min_height is None
        &&& self.max_width is None
        &&& self.max_height is None
        &&& self.is_locked is None
        &&& self.tags@.len() == 0
        &&& self.exclude_tags@.len() == 0
        &&& self.is_sports is None
        &&& self.is_news is None
        &&& self.is_kids is None
        &&& self.is_movie is None
        &&& self.is_series is None
        &&& self.search_term is None
        &&& self.is_folder is None
        &&& self.include_item_types@.len() == 0
        &&& self.exclude_item_types@.len() == 0
        &&& self.channel_ids@.len() == 0
        &&& self.parent_id.value == 0
        &&& !self.recursive
        &&& !self.physical_children_only
        &&& self.path is None
        &&& self.presentation_unique_key is None
        &&& self.min_community_rating is None
        &&& self.min_critic_rating is None
        &&& self.min_index_number is None
        &&& self.min_parent_and_index_number is None
        &&& self.index_number is None
        &&& self.parent_index_number is None
        &&& self.parent_index_number_not_equals is None
        &&& self.min_end_date is None
        &&& self.max_end_date is None
        &&& self.has_aired is None
        &&& self.min_start_date is None
        &&& self.max_start_date is None
        &&& self.min_premiere_date is None
        &&& self.max_premiere_date is None
        &&& self.min_date_created is None
        &&& self.min_date_last_saved is None
        &&& self.min_date_last_saved_for_user is None
        &&& self.is_airing is None
        &&& self.is_unaired is None
        &&& self.external_series_id is None
        &&& self.external_id is None
        &&& self.name is None
        &&& self.use_raw_name is None
        &&& self.names@.len() == 0
        &&& self.name_contains is None
        &&& self.name_starts_with is None
        &&& self.name_starts_with_or_greater is None
        &&& self.name_less_than is None
        &&& self.user_id is None
        &&& self.is_favorite is None
        &&& self.is_favorite_or_liked is None
        &&& self.is_liked is None
        &&& self.is_played is None
        &&& self.is_resumable is None
        &&& self.person is None
        &&& self.person_ids@.len() == 0
        &&& self.person_types@.len() == 0
        &&& self.genres@.len() == 0
        &&& self.genre_ids@.len() == 0
        &&& self.studio_ids@.len() == 0
        &&& self.artist_ids@.len() == 0
        &&& self.album_artist_ids@.len() == 0
        &&& self.exclude_artist_ids@.len() == 0
        &&& self.album_ids@.len() == 0
        &&& self.has_overview is None
        &&& self.has_official_rating is None
        &&& self.official_ratings@.len() == 0
        &&& self.has_owner_id is None
        &&& self.owner_ids@.len() == 0
        &&& self.extra_types@.len() == 0
        &&& !self.include_owned_items
        &&& self.has_imdb_id is None
        &&& self.has_tmdb_id is None
        &&& self.has_tvdb_id is None
        &&& self.any_provider_id_equals@.len() == 0
        &&& self.years@.len() == 0
        &&& self.is_virtual_item is None
        &&& self.is_missing is None
        &&& self.is_special_season is None
        &&& self.media_types@.len() == 0
        &&& self.item_ids@.len() == 0
        &&& self.exclude_item_ids@.len() == 0
        &&& self.top_parent_ids@.len() == 0
        &&& self.ancestor_ids@.len() == 0
        &&& self.series_presentation_unique_key is None
        &&& self.is_dead_person is None
        &&& self.is_dead_genre is None
        &&& self.is_dead_studio is None
        &&& self.is_dead_artist is None
        &&& self.aired_during_season is None
        &&& self.order_by@.len() == 0
        &&& self.limit is None
        &&& self.start_index is None
    }
}

impl Default for InternalItemsQuery {
    fn default() -> (r: Self)
        ensures
            r.is_unrestricted(),
    {
        InternalItemsQuery {
            is_hd: None,
            is_4k: None,
            min_width: None,
            min_height: None,
            max_width: None,
            max_height: None,
            is_locked: None,
            tags: Vec::new(),
            exclude_tags: Vec::new(),
            is_sports: None,
            is_news: None,
            is_kids: None,
            is_movie: None,
            is_series: None,
            search_term: None,
            is_folder: None,
            include_item_types: Vec::new(),
            exclude_item_types: Vec::new(),
            channel_ids: Vec::new(),
            parent_id: Guid { value: 0 },
            recursive: false,
            physical_children_only: false,
            path: None,
            presentation_unique_key: None,
            min_community_rating: None,
            min_critic_rating: None,
            min_index_number: None,
            min_parent_and_index_number: None,
            index_number: None,
            parent_index_number: None,
            parent_index_number_not_equals: None,
            min_end_date: None,
            max_end_date: None,
            has_aired: None,
            min_start_date: None,
            max_start_date: None,
            min_premiere_date: None,
            max_premiere_date: None,
            min_date_created: None,
            min_date_last_saved: None,
            min_date_last_saved_for_user: None,
            is_airing: None,
            is_unaired: None,
            external_series_id: None,
            external_id: None,
            name: None,
            use_raw_name: None,
            names: Vec::new(),
            name_contains: None,
            name_starts_with: None,
            name_starts_with_or_greater: None,
            name_less_than: None,
            user_id: None,
            is_favorite: None,
            is_favorite_or_liked: None,
            is_liked: None,
            is_played: None,
            is_resumable: None,
            person: None,
            person_ids: Vec::new(),
            person_types: Vec::new(),
            genres: Vec::new(),
            genre_ids: Vec::new(),
            studio_ids: Vec::new(),
            artist_ids: Vec::new(),
            album_artist_ids: Vec::new(),
            exclude_artist_ids: Vec::new(),
            album_ids: Vec::new(),
            has_overview: None,
            has_official_rating: None,
            official_ratings: Vec::new(),
            has_owner_id: None,
            owner_ids: Vec::new(),
            extra_types: Vec::new(),
            include_owned_items: false,
            has_imdb_id: None,
            has_tmdb_id: None,
            has_tvdb_id: None,
            any_provider_id_equals: Vec::new(),
            years: Vec::new(),
            is_virtual_item: None,
            is_missing: None,
            is_special_season: None,
            media_types: Vec::new(),
            item_ids: Vec::new(),
            exclude_item_ids: Vec::new(),
            top_parent_ids: Vec::new(),
            ancestor_ids: Vec::new(),
            series_presentation_unique_key: None,
            is_dead_person: None,
            is_dead_genre: None,
            is_dead_studio: None,
            is_dead_artist: None,
            aired_during_season: None,
            order_by: Vec::new(),
            limit: None,
            start_index: None,
        }
    }
}

} // verus!
