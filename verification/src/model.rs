//! The vocabulary that queries and rows share.
use vstd::prelude::*;

verus! {

/// The kind of a library item.
#[derive(Clone, Copy, Debug, PartialEq, Eq, Structural)]
pub enum BaseItemKind {
    AggregateFolder,
    Audio,
    AudioBook,
    BasePluginFolder,
    Book,
    BoxSet,
    Channel,
    ChannelFolderItem,
    CollectionFolder,
    Episode,
    Folder,
    Genre,
    ManualPlaylistsFolder,
    Movie,
    LiveTvChannel,
    LiveTvProgram,
    MusicAlbum,
    MusicArtist,
    MusicGenre,
    MusicVideo,
    Person,
    Photo,
    PhotoAlbum,
    Playlist,
    PlaylistsFolder,
    Program,
    Recording,
    Season,
    Series,
    Studio,
    Trailer,
    TvChannel,
    TvProgram,
    UserRootFolder,
    UserView,
    Video,
    Year,
}

/// The kind of media that an item holds.
#[derive(Clone, Copy, Debug, PartialEq, Eq, Structural)]
pub enum MediaType {
    Unknown,
    Video,
    Audio,
    Photo,
    Book,
}

/// What a stored item value is.
#[derive(Clone, Copy, Debug, PartialEq, Eq, Structural)]
pub enum ItemValueType {
    Artist,
    AlbumArtist,
    Genre,
    Studios,
    Tags,
}

/// By what a list of items is sorted.
#[derive(Clone, Copy, Debug, PartialEq, Eq, Structural)]
pub enum ItemSortBy {
    Default,
    AiredEpisodeOrder,
    Album,
    AlbumArtist,
    Artist,
    DateCreated,
    OfficialRating,
    DatePlayed,
    PremiereDate,
    StartDate,
    SortName,
    Name,
    Random,
    Runtime,
    CommunityRating,
    ProductionYear,
    PlayCount,
    CriticRating,
    IsFolder,
    IsUnplayed,
    IsPlayed,
    SeriesSortName,
    VideoBitRate,
    AirTime,
    Studio,
    IsFavoriteOrLiked,
    DateLastContentAdded,
    SeriesDatePlayed,
    ParentIndexNumber,
    IndexNumber,
    SimilarityScore,
    SearchScore,
}

/// The direction of a sort.
#[derive(Clone, Copy, Debug, PartialEq, Eq, Structural)]
pub enum SortOrder {
    Ascending,
    Descending,
}

/// The name of a media type, as rows store it.
pub open spec fn media_type_text(media: MediaType) -> Seq<char> {
    match media {
        MediaType::Unknown => "Unknown"@,
        MediaType::Video => "Video"@,
        MediaType::Audio => "Audio"@,
        MediaType::Photo => "Photo"@,
        MediaType::Book => "Book"@,
    }
}

/// The name of a media type, as rows store it.
pub fn media_type_name(media: MediaType) -> (r: String)
    ensures
        r@ == media_type_text(media),
{
    match media {
        MediaType::Unknown => "Unknown".to_owned(),
        MediaType::Video => "Video".to_owned(),
        MediaType::Audio => "Audio".to_owned(),
        MediaType::Photo => "Photo".to_owned(),
        MediaType::Book => "Book".to_owned(),
    }
}

/// Something that a user may or may not do.
#[derive(Debug, Clone, Copy, PartialEq, Eq, Structural)]
pub enum PermissionKind {
    IsAdministrator,
    IsDisabled,
    IsHidden,
    EnableAllChannels,
    EnableAllDevices,
    EnableAllFolders,
    EnableContentDeletion,
    EnableContentDownloading,
    EnableMediaConversion,
    EnableMediaPlayback,
    EnablePlaybackRemuxing,
    EnablePublicSharing,
    EnableRemoteAccess,
    EnableSyncTranscoding,
    EnableAudioPlaybackTranscoding,
    EnableLiveTvAccess,
    EnableLiveTvManagement,
    EnableSharedDeviceControl,
    EnableVideoPlaybackTranscoding,
    ForceRemoteSourceTranscoding,
    EnableRemoteControlOfOtherUsers,
    EnableCollectionManagement,
    EnableSubtitleManagement,
    EnableLyricManagement,
}

/// Something that a user prefers.
#[derive(Debug, Clone, Copy, PartialEq, Eq, Structural)]
pub enum PreferenceKind {
    BlockedTags,
    BlockedChannels,
    BlockedMediaFolders,
    EnabledDevices,
    EnabledChannels,
    EnabledFolders,
    EnableContentDeletionFromFolders,
    LatestItemExcludes,
    MyMediaExcludes,
    GroupedFolders,
    BlockUnratedItems,
    OrderedViews,
    AllowedTags,
}

/// What a stream of a media file carries.
#[derive(Debug, Clone, Copy, PartialEq, Eq, Structural)]
pub enum MediaStreamType {
    Audio,
    Video,
    Subtitle,
    EmbeddedImage,
    Data,
    Lyric,
}

/// A day of the week.
#[derive(Debug, Clone, Copy, PartialEq, Eq, Structural)]
pub enum DayOfWeek {
    Sunday,
    Monday,
    Tuesday,
    Wednesday,
    Thursday,
    Friday,
    Saturday,
}

} // verus!
