//! Where an item's derived data lies on disk: subtitles, attachments, trickplay
//! tiles and chapter images.
use vstd::prelude::*;
use vstd::slice::slice_subrange;

use crate::guid::{
    guid_in, guid_simple_text, guid_text, hyphenated_text, law_spelled_guid_is_read, parse_guid,
    simple_text, spells, Guid,
};
use crate::number_text::{decimal, int_text};
use crate::paths::{
    file_name, file_stem, join_path, joined, law_name_stays_in_its_folder, parent, path_file_stem,
    path_parent,
};
use crate::text::{chars_of, concat, opt_text, same_text, string_of, texts};

verus! {

/// The server's directories that the path manager builds on.
#[derive(Debug, Clone)]
pub struct ApplicationPaths {
    /// The data directory.
    pub data_path: String,
    /// The internal metadata directory.
    pub internal_metadata_path: String,
    /// The trickplay directory.
    pub trickplay_path: String,
}

/// The path manager.
#[derive(Debug)]
pub struct HermitPathManager {
    pub paths: ApplicationPaths,
}

/// `{root}/{id[..2]}/{id}`.
pub open spec fn two_level(root: Seq<char>, id: Seq<char>) -> Seq<char> {
    joined(joined(root, id.take(2)), id)
}

/// The two-level folder under `root` for a media source, whose id must spell an
/// identifier.
pub open spec fn source_folder(root: Seq<char>, media_source_id: Seq<char>) -> Option<Seq<char>> {
    match guid_in(media_source_id) {
        Some(id) => Some(two_level(root, hyphenated_text(id.value))),
        None => None,
    }
}

/// Whether `name` can stand as a file name below a folder: it is not empty, is
/// neither `.` nor `..`, and holds no separator and no NUL.
pub open spec fn is_safe_leaf(name: Seq<char>) -> bool {
    &&& name.len() > 0
    &&& name != "."@
    &&& name != ".."@
    &&& !name.contains('/')
    &&& !name.contains('\\')
    &&& !name.contains('\0')
}

/// The trickplay folder beside a media file: in the file's folder, its stem with
/// `.trickplay` behind it.
pub open spec fn trickplay_beside(media_path: Seq<char>) -> Seq<char> {
    let folder = match parent(media_path) {
        Some(p) => p,
        None => Seq::empty(),
    };
    let stem = match file_stem(media_path) {
        Some(s) => s,
        None => "trickplay"@,
    };
    joined(folder, stem + ".trickplay"@)
}

impl HermitPathManager {
    /// `{data}/subtitles`.
    pub open spec fn subtitle_root(&self) -> Seq<char> {
        joined(self.paths.data_path@, "subtitles"@)
    }

    /// `{data}/attachments`.
    pub open spec fn attachment_root(&self) -> Seq<char> {
        joined(self.paths.data_path@, "attachments"@)
    }

    /// `{metadata}/library/{id[..2]}/{id}`, with the plain form of the id.
    pub open spec fn metadata_folder(&self, id: Guid) -> Seq<char> {
        two_level(
            joined(self.paths.internal_metadata_path@, "library"@),
            simple_text(id.value),
        )
    }

    /// The chapter image folder below the metadata folder.
    pub open spec fn chapter_folder(&self, id: Guid) -> Seq<char> {
        joined(self.metadata_folder(id), "chapters"@)
    }

    /// The trickplay folder: beside the media file, or under the trickplay
    /// directory.
    pub open spec fn trickplay_folder(
        &self,
        id: Guid,
        media_path: Seq<char>,
        save_with_media: bool,
    ) -> Seq<char> {
        if save_with_media {
            trickplay_beside(media_path)
        } else {
            two_level(self.paths.trickplay_path@, hyphenated_text(id.value))
        }
    }

    /// Creates a path manager over the given directories.
    pub fn new(paths: ApplicationPaths) -> (r: Self)
        ensures
            r.paths == paths,
    {
        HermitPathManager { paths }
    }

    /// The subtitle cache root.
    pub fn subtitle_cache_path(&self) -> (r: String)
        ensures
            r@ == self.subtitle_root(),
    {
        join_path(self.paths.data_path.as_str(), "subtitles")
    }

    /// The attachment cache root.
    pub fn attachment_cache_path(&self) -> (r: String)
        ensures
            r@ == self.attachment_root(),
    {
        join_path(self.paths.data_path.as_str(), "attachments")
    }

    fn internal_metadata_path(&self, item_id: Guid) -> (r: String)
        ensures
            r@ == self.metadata_folder(item_id),
    {
        let root: String = join_path(self.paths.internal_metadata_path.as_str(), "library");
        two_level_path(root.as_str(), guid_simple_text(item_id).as_str())
    }

    /// The folder of an item's trickplay tiles.
    pub fn trickplay_directory(&self, item_id: Guid, media_path: &str, save_with_media: bool) -> (r:
        String)
        ensures
            r@ == self.trickplay_folder(item_id, media_path@, save_with_media),
    {
        if save_with_media {
            let folder: String = match path_parent(media_path) {
                Some(p) => p,
                None => String::new(),
            };
            let stem: String = match path_file_stem(media_path) {
                Some(s) => s,
                None => "trickplay".to_owned(),
            };
            assert(folder@ =~= match parent(media_path@) {
                Some(p) => p,
                None => Seq::empty(),
            });
            return join_path(folder.as_str(), concat(stem.as_str(), ".trickplay").as_str());
        }
        two_level_path(self.paths.trickplay_path.as_str(), guid_text(item_id).as_str())
    }

    /// The folder of a media source's extracted subtitles; `None` where the id
    /// spells no identifier.
    pub fn subtitle_folder_path(&self, media_source_id: &str) -> (r: Option<String>)
        ensures
            opt_text(r) == source_folder(self.subtitle_root(), media_source_id@),
            forall|v: u128|
                media_source_id@ == #[trigger] simple_text(v) ==> opt_text(r) == Some(
                    two_level(self.subtitle_root(), hyphenated_text(v)),
                ),
    {
        guid_folder(self.subtitle_cache_path().as_str(), media_source_id)
    }

    /// The file of one extracted subtitle stream.
    pub fn subtitle_path(&self, media_source_id: &str, stream_index: i32, extension: &str) -> (r:
        Option<String>)
        ensures
            opt_text(r) == match source_folder(self.subtitle_root(), media_source_id@) {
                Some(folder) => Some(joined(folder, decimal(stream_index as int) + extension@)),
                None => None,
            },
    {
        match self.subtitle_folder_path(media_source_id) {
            Some(folder) => {
                let leaf: String = concat(int_text(stream_index as i64).as_str(), extension);
                Some(join_path(folder.as_str(), leaf.as_str()))
            },
            None => None,
        }
    }

    /// The folder of a media source's extracted attachments; `None` where the id
    /// spells no identifier.
    pub fn attachment_folder_path(&self, media_source_id: &str) -> (r: Option<String>)
        ensures
            opt_text(r) == source_folder(self.attachment_root(), media_source_id@),
            forall|v: u128|
                media_source_id@ == #[trigger] simple_text(v) ==> opt_text(r) == Some(
                    two_level(self.attachment_root(), hyphenated_text(v)),
                ),
    {
        guid_folder(self.attachment_cache_path().as_str(), media_source_id)
    }

    /// The file of one extracted attachment; `None` where the id spells no
    /// identifier or the name is not safe.
    pub fn attachment_path(&self, media_source_id: &str, file_name: &str) -> (r: Option<String>)
        ensures
            opt_text(r) == match source_folder(self.attachment_root(), media_source_id@) {
                Some(folder) => if is_safe_leaf(file_name@) {
                    Some(joined(folder, file_name@))
                } else {
                    None
                },
                None => None,
            },
    {
        match self.attachment_folder_path(media_source_id) {
            Some(folder) => match safe_leaf_file_name(file_name) {
                Some(safe) => Some(join_path(folder.as_str(), safe.as_str())),
                None => None,
            },
            None => None,
        }
    }

    /// The folder of an item's chapter images.
    pub fn chapter_image_folder_path(&self, item_id: Guid, _media_path: &str) -> (r: String)
        ensures
            r@ == self.chapter_folder(item_id),
    {
        join_path(self.internal_metadata_path(item_id).as_str(), "chapters")
    }

    /// The image of the chapter at a position.
    pub fn chapter_image_path(
        &self,
        item_id: Guid,
        media_path: &str,
        chapter_position_ticks: i64,
    ) -> (r: String)
        ensures
            r@ == joined(
                self.chapter_folder(item_id),
                decimal(chapter_position_ticks as int) + ".jpg"@,
            ),
    {
        let folder: String = self.chapter_image_folder_path(item_id, media_path);
        let leaf: String = concat(int_text(chapter_position_ticks).as_str(), ".jpg");
        join_path(folder.as_str(), leaf.as_str())
    }

    /// Every folder that holds data extracted from an item: attachments,
    /// subtitles, trickplay, trickplay beside the media file (where there is
    /// one), and chapters.
    pub fn extracted_data_paths(&self, item_id: Guid, media_path: &str) -> (r: Vec<String>)
        ensures
            texts(r@) == seq![
                two_level(self.attachment_root(), hyphenated_text(item_id.value)),
                two_level(self.subtitle_root(), hyphenated_text(item_id.value)),
                self.trickplay_folder(item_id, media_path@, false),
            ] + (if media_path@.len() > 0 {
                seq![self.trickplay_folder(item_id, media_path@, true)]
            } else {
                seq![]
            }) + seq![self.chapter_folder(item_id)],
    {
        let media_source_id: String = guid_simple_text(item_id);
        let mut paths: Vec<String> = Vec::new();
        if let Some(folder) = self.attachment_folder_path(media_source_id.as_str()) {
            paths.push(folder);
        }
        if let Some(folder) = self.subtitle_folder_path(media_source_id.as_str()) {
            paths.push(folder);
        }
        paths.push(self.trickplay_directory(item_id, media_path, false));
        if !media_path.is_empty() {
            paths.push(self.trickplay_directory(item_id, media_path, true));
        }
        paths.push(self.chapter_image_folder_path(item_id, media_path));
        paths
    }
}

fn two_level_path(root: &str, id: &str) -> (r: String)
    requires
        id@.len() >= 2,
    ensures
        r@ == two_level(root@, id@),
{
    let cs: Vec<char> = chars_of(id);
    let lead: String = string_of(slice_subrange(cs.as_slice(), 0, 2));
    assert(lead@ =~= id@.take(2));
    join_path(join_path(root, lead.as_str()).as_str(), id)
}

fn guid_folder(root: &str, media_source_id: &str) -> (r: Option<String>)
    ensures
        opt_text(r) == source_folder(root@, media_source_id@),
        forall|v: u128|
            media_source_id@ == #[trigger] simple_text(v) ==> opt_text(r) == Some(
                two_level(root@, hyphenated_text(v)),
            ),
{
    match parse_guid(media_source_id) {
        Some(id) => Some(two_level_path(root, guid_text(id).as_str())),
        None => None,
    }
}

/// `file_name`, where it can stand as a file name below a folder.
pub fn safe_leaf_file_name(file_name: &str) -> (r: Option<String>)
    ensures
        opt_text(r) == if is_safe_leaf(file_name@) {
            Some(file_name@)
        } else {
            None
        },
{
    if file_name.is_empty() || same_text(file_name, ".") || same_text(
        file_name,
        "..",
    ) {
        return None;
    }
    let cs: Vec<char> = chars_of(file_name);
    let mut i: usize = 0;
    while i < cs.len()
        invariant
            i <= cs.len(),
            cs@ == file_name@,
            forall|j: int|
                0 <= j < i ==> #[trigger] file_name@[j] != '/' && file_name@[j] != '\\'
                    && file_name@[j] != '\0',
        decreases cs.len() - i,
    {
        let c: char = cs[i];
        if c == '/' || c == '\\' || c == '\0' {
            assert(file_name@.contains(c)) by {
                assert(file_name@[i as int] == c);
            }
            return None;
        }
        i += 1;
    }
    Some(file_name.to_owned())
}

/// Every spelling of an identifier leads to the same folder of a media source, which
/// is named by the lower-case hyphenated text.
pub proof fn law_spellings_share_a_folder(
    root: Seq<char>,
    one: Seq<char>,
    other: Seq<char>,
    v: u128,
)
    requires
        spells(one, v),
        spells(other, v),
    ensures
        source_folder(root, one) == Some(two_level(root, hyphenated_text(v))),
        source_folder(root, other) == source_folder(root, one),
{
    law_spelled_guid_is_read(one, v);
    law_spelled_guid_is_read(other, v);
}

/// What spells no identifier has no folder.
pub proof fn law_no_guid_no_folder(root: Seq<char>, media_source_id: Seq<char>)
    ensures
        source_folder(root, media_source_id) is None <==> forall|v: u128|
            !#[trigger] spells(media_source_id, v),
{
    assert forall|v: u128| source_folder(root, media_source_id) is None implies !#[trigger] spells(
        media_source_id,
        v,
    ) by {
        law_spelled_guid_is_read(media_source_id, v);
    }
    if let Some(id) = guid_in(media_source_id) {
        law_spelled_guid_is_read(media_source_id, id.value);
    }
}

/// A safe name is the file name of the path that it makes below a folder: an
/// attachment never stands outside its folder.
pub proof fn law_attachment_stays_in_its_folder(folder: Seq<char>, name: Seq<char>)
    requires
        is_safe_leaf(name),
    ensures
        file_name(joined(folder, name)) == Some(name),
{
    assert forall|i: int| 0 <= i < name.len() implies #[trigger] name[i] != '/' by {
        if name[i] == '/' {
            assert(name.contains('/'));
        }
    }
    law_name_stays_in_its_folder(folder, name);
}

} // verus!
