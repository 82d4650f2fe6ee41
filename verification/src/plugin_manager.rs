//! Plugins: the ones that are compiled in, which of them are enabled, and how
//! they are configured.
use vstd::prelude::*;

use crate::guid::{guid_text, hyphenated_text, law_text_names_one_guid, Guid};
use crate::paths::{join_path, joined, parent, path_parent, path_with_extension, replace_extension};
use crate::service_error::{ErrorView, ServiceError};
use crate::table::Table;
use crate::text::{concat, opt_text, same_text, texts};

verus! {

// ---------------------------------------------------------------------------
// Configurations
// ---------------------------------------------------------------------------
/// `serde_json::Map`.
#[verifier::external_type_specification]
#[verifier::external_body]
#[verifier::reject_recursive_types(K)]
#[verifier::reject_recursive_types(V)]
pub struct ExJsonObject<K, V>(serde_json::Map<K, V>);

/// `serde_json::Value`.
#[verifier::external_type_specification]
#[verifier::external_body]
pub struct ExJsonValue(serde_json::Value);

/// What an object holds: under each key its value, written without spaces.
pub uninterp spec fn object_entries(
    m: serde_json::Map<String, serde_json::Value>,
) -> Map<Seq<char>, Seq<char>>;

/// The object that `serde_json` reads out of the bytes; none where they are no
/// JSON document, or one that is no object.
pub uninterp spec fn object_in(bytes: Seq<u8>) -> Option<Map<Seq<char>, Seq<char>>>;

/// The bytes that `serde_json` writes for an object with these entries, if it
/// writes any.
pub uninterp spec fn object_bytes(entries: Map<Seq<char>, Seq<char>>) -> Option<Seq<u8>>;

/// Whether `serde_json` reads a document out of the bytes.
pub uninterp spec fn is_json_document(bytes: Seq<u8>) -> bool;

/// `serde_json::from_slice` into a `serde_json::Value`, where that is an object.
/// Bytes that hold an object are a document.
#[verifier::external_body]
fn parse_object(bytes: &[u8]) -> (r: Option<serde_json::Map<String, serde_json::Value>>)
    ensures
        match r {
            Some(m) => object_in(bytes@) == Some(object_entries(m)),
            None => object_in(bytes@) is None,
        },
        r is Some ==> is_json_document(bytes@),
{
    match serde_json::from_slice::<serde_json::Value>(bytes) {
        Ok(serde_json::Value::Object(m)) => Some(m),
        _ => None,
    }
}

/// `serde_json::Map::extend`: the entries of the other object are added, in the
/// place of those that have the same keys.
#[verifier::external_body]
fn extend_object(
    base: &mut serde_json::Map<String, serde_json::Value>,
    over: serde_json::Map<String, serde_json::Value>,
)
    ensures
        object_entries(*final(base)) == object_entries(*old(base)).union_prefer_right(
            object_entries(over),
        ),
{
    base.extend(over);
}

/// `serde_json::to_vec` of an object.
#[verifier::external_body]
fn write_object(object: serde_json::Map<String, serde_json::Value>) -> (r: Option<Vec<u8>>)
    ensures
        match r {
            Some(b) => object_bytes(object_entries(object)) == Some(b@),
            None => object_bytes(object_entries(object)) is None,
        },
{
    serde_json::to_vec(&serde_json::Value::Object(object)).ok()
}

/// `serde_json::from_slice` into a `serde_json::Value`: whether it succeeds. It
/// does so on all bytes that hold an object.
#[verifier::external_body]
fn is_json(bytes: &[u8]) -> (r: bool)
    ensures
        r == is_json_document(bytes@),
        object_in(bytes@) is Some ==> r,
{
    serde_json::from_slice::<serde_json::Value>(bytes).is_ok()
}

/// The entries of a configuration: those that are stored, and the defaults for
/// the others.
pub open spec fn merged(
    defaults: Map<Seq<char>, Seq<char>>,
    stored: Map<Seq<char>, Seq<char>>,
) -> Map<Seq<char>, Seq<char>> {
    defaults.union_prefer_right(stored)
}

/// A stored configuration wins over the defaults, and what it does not set keeps
/// its default.
pub proof fn law_stored_entries_win(
    defaults: Map<Seq<char>, Seq<char>>,
    stored: Map<Seq<char>, Seq<char>>,
    key: Seq<char>,
)
    ensures
        stored.contains_key(key) ==> merged(defaults, stored).contains_key(key) && merged(
            defaults,
            stored,
        )[key] == stored[key],
        !stored.contains_key(key) && defaults.contains_key(key) ==> merged(
            defaults,
            stored,
        ).contains_key(key) && merged(defaults, stored)[key] == defaults[key],
        merged(defaults, stored).contains_key(key) ==> stored.contains_key(key)
            || defaults.contains_key(key),
{
}

/// A stored configuration over the defaults. Where one of them is no JSON object,
/// the stored one stays as it is.
pub open spec fn merged_config(defaults: Seq<u8>, stored: Seq<u8>) -> Seq<u8> {
    match (object_in(defaults), object_in(stored)) {
        (Some(d), Some(s)) => match object_bytes(merged(d, s)) {
            Some(bytes) => bytes,
            None => stored,
        },
        _ => stored,
    }
}

fn copy_bytes(bytes: &[u8]) -> (r: Vec<u8>)
    ensures
        r@ == bytes@,
{
    let mut out: Vec<u8> = Vec::new();
    let mut i: usize = 0;
    while i < bytes.len()
        invariant
            i <= bytes.len(),
            out@ == bytes@.take(i as int),
        decreases bytes.len() - i,
    {
        out.push(bytes[i]);
        i += 1;
        assert(bytes@.take(i as int) =~= bytes@.take(i - 1).push(bytes@[i - 1]));
    }
    assert(bytes@.take(bytes@.len() as int) =~= bytes@);
    out
}

/// A stored configuration over the defaults.
pub fn merge_config(defaults: &[u8], stored: &[u8]) -> (r: Vec<u8>)
    ensures
        r@ == merged_config(defaults@, stored@),
{
    match (parse_object(defaults), parse_object(stored)) {
        (Some(mut base), Some(over)) => {
            extend_object(&mut base, over);
            match write_object(base) {
                Some(bytes) => bytes,
                None => copy_bytes(stored),
            }
        },
        _ => copy_bytes(stored),
    }
}

// ---------------------------------------------------------------------------
// Plugins
// ---------------------------------------------------------------------------
/// What is shown of a plugin.
#[derive(Debug, Clone)]
pub struct PluginDescriptor {
    pub id: Guid,
    pub name: String,
    pub version: String,
    pub description: String,
    pub enabled: bool,
    pub has_image: bool,
    pub can_uninstall: bool,
}

/// What a descriptor stands for.
pub struct DescriptorView {
    pub id: Guid,
    pub name: Seq<char>,
    pub version: Seq<char>,
    pub description: Seq<char>,
    pub enabled: bool,
    pub has_image: bool,
    pub can_uninstall: bool,
}

impl View for PluginDescriptor {
    type V = DescriptorView;

    open spec fn view(&self) -> DescriptorView {
        DescriptorView {
            id: self.id,
            name: self.name@,
            version: self.version@,
            description: self.description@,
            enabled: self.enabled,
            has_image: self.has_image,
            can_uninstall: self.can_uninstall,
        }
    }
}

impl PluginDescriptor {
    fn with_enabled(&self, enabled: bool) -> (r: Self)
        ensures
            r@ == (DescriptorView { enabled, ..self@ }),
    {
        PluginDescriptor {
            id: self.id,
            name: self.name.clone(),
            version: self.version.clone(),
            description: self.description.clone(),
            enabled,
            has_image: self.has_image,
            can_uninstall: self.can_uninstall,
        }
    }
}

/// The image of a plugin.
#[derive(Debug, Clone)]
pub struct PluginImage {
    pub content_type: String,
    pub data: Vec<u8>,
}

/// A page of the dashboard.
#[derive(Debug, Clone)]
pub struct ConfigPage {
    pub name: String,
    pub html: Vec<u8>,
}

/// A plugin that is compiled in.
#[derive(Debug, Clone)]
pub struct RegisteredPlugin {
    pub descriptor: PluginDescriptor,
    pub image: Option<PluginImage>,
    /// What the configuration is until one is stored.
    pub default_config: Vec<u8>,
    pub config_page: Option<ConfigPage>,
}

impl RegisteredPlugin {
    /// A plugin with an empty configuration and no page. Whether it has an image
    /// follows from the image, and a plugin that is compiled in cannot be
    /// uninstalled.
    pub fn new(descriptor: PluginDescriptor, image: Option<PluginImage>) -> (r: Self)
        ensures
            r.descriptor@ == (DescriptorView {
                has_image: image is Some,
                can_uninstall: false,
                ..descriptor@
            }),
            r.image == image,
            r.default_config@ == seq![0x7bu8, 0x7du8],
            r.config_page is None,
    {
        let mut descriptor: PluginDescriptor = descriptor;
        descriptor.has_image = image.is_some();
        descriptor.can_uninstall = false;
        let default_config: Vec<u8> = vec![0x7b, 0x7d];
        assert(default_config@ =~= seq![0x7bu8, 0x7du8]);
        RegisteredPlugin { descriptor, image, default_config, config_page: None }
    }

    /// The plugin with this default configuration.
    pub fn with_default_config(self, config: Vec<u8>) -> (r: Self)
        ensures
            r == (RegisteredPlugin { default_config: config, ..self }),
    {
        RegisteredPlugin { default_config: config, ..self }
    }

    /// The plugin with this page.
    pub fn with_config_page(self, name: String, html: Vec<u8>) -> (r: Self)
        ensures
            r == (RegisteredPlugin { config_page: Some(ConfigPage { name, html }), ..self }),
    {
        RegisteredPlugin { config_page: Some(ConfigPage { name, html }), ..self }
    }
}

/// Where packages come from.
#[derive(Debug, Clone)]
pub struct RepositoryInfo {
    pub name: Option<String>,
    pub url: Option<String>,
    pub enabled: bool,
}

/// A page of the dashboard, as it is listed.
#[derive(Debug, Clone)]
pub struct ConfigurationPageInfo {
    pub name: String,
    pub enable_in_main_menu: bool,
    pub menu_section: Option<String>,
    pub menu_icon: Option<String>,
    pub display_name: Option<String>,
    pub plugin_id: Option<Guid>,
}

impl ConfigurationPageInfo {
    /// Whether this lists the page `page` of the plugin `d`.
    pub open spec fn lists(&self, d: DescriptorView, page: ConfigPage) -> bool {
        &&& self.name@ == page.name@
        &&& !self.enable_in_main_menu
        &&& self.menu_section is None
        &&& self.menu_icon is None
        &&& opt_text(self.display_name) == Some(d.name)
        &&& self.plugin_id == Some(d.id)
    }
}

/// How reading a stored configuration went.
#[derive(Debug, Clone)]
pub enum StoredConfig {
    Found(Vec<u8>),
    /// There is none.
    Missing,
    Failed(String),
}

/// The plugins, which of them were switched on or off, and the repositories.
#[derive(Debug, Clone)]
pub struct HermitPluginManager {
    pub plugins: Vec<RegisteredPlugin>,
    pub plugins_dir: String,
    /// Which plugins were switched on or off, by the text of their identifier.
    pub enabled: Table<String, bool>,
    pub repositories: Vec<RepositoryInfo>,
}

/// The place of the first plugin with an identifier, or the length.
pub open spec fn plugin_place(plugins: Seq<RegisteredPlugin>, id: Guid) -> int
    decreases plugins.len(),
{
    if plugins.len() == 0 || plugins[0].descriptor.id == id {
        0
    } else {
        1 + plugin_place(plugins.drop_first(), id)
    }
}

/// Whether there is a plugin with an identifier.
pub open spec fn has_plugin(plugins: Seq<RegisteredPlugin>, id: Guid) -> bool {
    plugin_place(plugins, id) < plugins.len()
}

proof fn lemma_plugin_place(plugins: Seq<RegisteredPlugin>, id: Guid, k: int)
    requires
        0 <= k <= plugins.len(),
        k < plugins.len() ==> plugins[k].descriptor.id == id,
        forall|i: int| 0 <= i < k ==> (#[trigger] plugins[i]).descriptor.id != id,
    ensures
        plugin_place(plugins, id) == k,
    decreases plugins.len(),
{
    if k > 0 {
        let t = plugins.drop_first();
        assert(plugins[0].descriptor.id != id);
        assert forall|i: int| 0 <= i < k - 1 implies (#[trigger] t[i]).descriptor.id != id by {
            assert(t[i] == plugins[i + 1]);
        }
        lemma_plugin_place(t, id, k - 1);
    }
}

/// What is shown of a plugin: what it says itself, except that it may have been
/// switched on or off.
pub open spec fn shown(enabled: Map<Seq<char>, bool>, d: DescriptorView) -> DescriptorView {
    let key = hyphenated_text(d.id.value);
    DescriptorView {
        enabled: if enabled.contains_key(key) {
            enabled[key]
        } else {
            d.enabled
        },
        ..d
    }
}

/// The error for a plugin that does not exist.
pub open spec fn no_such_plugin(id: Guid) -> ErrorView {
    ErrorView::NotFound("plugin "@ + hyphenated_text(id.value))
}

fn no_plugin(id: Guid) -> (r: ServiceError)
    ensures
        r@ == no_such_plugin(id),
{
    let t: String = guid_text(id);
    ServiceError::NotFound(concat("plugin ", t.as_str()))
}

/// The plugins that have a page.
pub open spec fn paged(plugins: Seq<RegisteredPlugin>) -> Seq<RegisteredPlugin> {
    plugins.filter(|p: RegisteredPlugin| p.config_page is Some)
}

/// The first page with a name.
pub open spec fn page_named(plugins: Seq<RegisteredPlugin>, name: Seq<char>) -> Option<Seq<u8>>
    decreases plugins.len(),
{
    if plugins.len() == 0 {
        None
    } else {
        match plugins[0].config_page {
            Some(page) => if page.name@ == name {
                Some(page.html@)
            } else {
                page_named(plugins.drop_first(), name)
            },
            None => page_named(plugins.drop_first(), name),
        }
    }
}

/// The address of a repository that packages are fetched from: it is enabled, and
/// its address is not empty.
pub open spec fn fetched_from(r: RepositoryInfo) -> Option<Seq<char>> {
    match r.url {
        Some(u) => if r.enabled && u@.len() > 0 {
            Some(u@)
        } else {
            None
        },
        None => None,
    }
}

/// The addresses that packages are fetched from, in the order of the repositories.
pub open spec fn package_urls(repositories: Seq<RepositoryInfo>) -> Seq<Seq<char>>
    decreases repositories.len(),
{
    if repositories.len() == 0 {
        Seq::empty()
    } else {
        let head = package_urls(repositories.drop_last());
        match fetched_from(repositories.last()) {
            Some(u) => head.push(u),
            None => head,
        }
    }
}

impl HermitPluginManager {
    /// No plugin is noted twice as switched on or off.
    pub open spec fn wf(&self) -> bool {
        self.enabled.wf()
    }

    /// A manager over the plugins, with what was stored of the state.
    pub fn new(
        plugins: Vec<RegisteredPlugin>,
        plugins_dir: String,
        enabled: Table<String, bool>,
        repositories: Vec<RepositoryInfo>,
    ) -> (r: Self)
        requires
            enabled.wf(),
        ensures
            r.wf(),
            r.plugins == plugins,
            r.plugins_dir == plugins_dir,
            r.enabled == enabled,
            r.repositories == repositories,
    {
        HermitPluginManager { plugins, plugins_dir, enabled, repositories }
    }

    /// A manager without plugins and with nothing stored.
    pub fn empty(plugins_dir: String) -> (r: Self)
        ensures
            r.wf(),
            r.plugins@.len() == 0,
            r.plugins_dir == plugins_dir,
            r.enabled@ == Map::<Seq<char>, bool>::empty(),
            r.repositories@.len() == 0,
    {
        HermitPluginManager {
            plugins: Vec::new(),
            plugins_dir,
            enabled: Table::new(),
            repositories: Vec::new(),
        }
    }

    fn place(&self, id: Guid) -> (r: usize)
        ensures
            r == plugin_place(self.plugins@, id),
            r <= self.plugins@.len(),
    {
        let mut i: usize = 0;
        while i < self.plugins.len()
            invariant
                i <= self.plugins.len(),
                forall|j: int|
                    0 <= j < i ==> (#[trigger] self.plugins@[j]).descriptor.id != id,
            decreases self.plugins.len() - i,
        {
            if self.plugins[i].descriptor.id == id {
                proof {
                    lemma_plugin_place(self.plugins@, id, i as int);
                }
                return i;
            }
            i += 1;
        }
        proof {
            lemma_plugin_place(self.plugins@, id, i as int);
        }
        i
    }

    /// The plugin with an identifier.
    pub fn find(&self, id: Guid) -> (r: Option<&RegisteredPlugin>)
        ensures
            match r {
                Some(p) => has_plugin(self.plugins@, id) && *p == self.plugins@[plugin_place(
                    self.plugins@,
                    id,
                )],
                None => !has_plugin(self.plugins@, id),
            },
    {
        let i: usize = self.place(id);
        if i < self.plugins.len() {
            Some(&self.plugins[i])
        } else {
            None
        }
    }

    /// Where the configuration of a plugin is stored.
    pub fn config_path(&self, id: Guid) -> (r: String)
        ensures
            r@ == joined(
                joined(self.plugins_dir@, hyphenated_text(id.value)),
                "config.json"@,
            ),
    {
        let t: String = guid_text(id);
        let dir: String = join_path(self.plugins_dir.as_str(), t.as_str());
        join_path(dir.as_str(), "config.json")
    }

    /// Where the state is stored.
    pub fn state_path(&self) -> (r: String)
        ensures
            r@ == joined(self.plugins_dir@, "state.json"@),
    {
        join_path(self.plugins_dir.as_str(), "state.json")
    }

    fn show(&self, d: &PluginDescriptor) -> (r: PluginDescriptor)
        requires
            self.wf(),
        ensures
            r@ == shown(self.enabled@, d@),
    {
        let key: String = guid_text(d.id);
        let enabled: bool = match self.enabled.get(&key) {
            Some(b) => *b,
            None => d.enabled,
        };
        d.with_enabled(enabled)
    }

    /// The plugins.
    pub fn list_plugins(&self) -> (r: Vec<PluginDescriptor>)
        requires
            self.wf(),
        ensures
            r@.len() == self.plugins@.len(),
            forall|i: int|
                0 <= i < r@.len() ==> (#[trigger] r@[i])@ == shown(
                    self.enabled@,
                    self.plugins@[i].descriptor@,
                ),
    {
        let mut out: Vec<PluginDescriptor> = Vec::new();
        let mut i: usize = 0;
        while i < self.plugins.len()
            invariant
                i <= self.plugins.len(),
                self.wf(),
                out@.len() == i,
                forall|j: int|
                    0 <= j < i ==> (#[trigger] out@[j])@ == shown(
                        self.enabled@,
                        self.plugins@[j].descriptor@,
                    ),
            decreases self.plugins.len() - i,
        {
            out.push(self.show(&self.plugins[i].descriptor));
            i += 1;
        }
        out
    }

    /// The plugin with an identifier.
    pub fn get_plugin(&self, id: Guid) -> (r: Option<PluginDescriptor>)
        requires
            self.wf(),
        ensures
            match r {
                Some(d) => has_plugin(self.plugins@, id) && d@ == shown(
                    self.enabled@,
                    self.plugins@[plugin_place(self.plugins@, id)].descriptor@,
                ),
                None => !has_plugin(self.plugins@, id),
            },
    {
        match self.find(id) {
            Some(p) => Some(self.show(&p.descriptor)),
            None => None,
        }
    }

    /// Switches a plugin on or off.
    pub fn set_enabled(&mut self, id: Guid, enabled: bool) -> (r: Result<(), ServiceError>)
        requires
            old(self).wf(),
        ensures
            final(self).wf(),
            final(self).plugins == old(self).plugins,
            final(self).plugins_dir == old(self).plugins_dir,
            final(self).repositories == old(self).repositories,
            r is Ok <==> has_plugin(old(self).plugins@, id),
            match r {
                Ok(_) => final(self).enabled@ == old(self).enabled@.insert(
                    hyphenated_text(id.value),
                    enabled,
                ),
                Err(e) => e@ == no_such_plugin(id) && *final(self) == *old(self),
            },
    {
        if self.find(id).is_none() {
            return Err(no_plugin(id));
        }
        self.enabled.insert(guid_text(id), enabled);
        Ok(())
    }

    /// Removes a plugin, which never succeeds: what is compiled in stays.
    pub fn remove_plugin(&self, id: Guid) -> (r: ServiceError)
        ensures
            r@ == (if has_plugin(self.plugins@, id) {
                ErrorView::InvalidInput("compiled-in plugins cannot be uninstalled at runtime"@)
            } else {
                no_such_plugin(id)
            }),
    {
        if self.find(id).is_none() {
            no_plugin(id)
        } else {
            ServiceError::InvalidInput(
                "compiled-in plugins cannot be uninstalled at runtime".to_owned(),
            )
        }
    }

    /// The configuration of a plugin: what is stored over the defaults, or the
    /// defaults where nothing is stored.
    pub fn get_plugin_configuration(&self, id: Guid, stored: StoredConfig) -> (r: Result<
        Vec<u8>,
        ServiceError,
    >)
        ensures
            !has_plugin(self.plugins@, id) ==> (r matches Err(e) && e@ == no_such_plugin(id)),
            has_plugin(self.plugins@, id) ==> {
                let defaults = self.plugins@[plugin_place(self.plugins@, id)].default_config@;
                match stored {
                    StoredConfig::Found(bytes) => r matches Ok(c) && c@ == merged_config(
                        defaults,
                        bytes@,
                    ),
                    StoredConfig::Missing => r matches Ok(c) && c@ == defaults,
                    StoredConfig::Failed(m) => r matches Err(e) && e@ == ErrorView::Backend(
                        "read plugin config: "@ + m@,
                    ),
                }
            },
    {
        match self.find(id) {
            None => Err(no_plugin(id)),
            Some(p) => match stored {
                StoredConfig::Found(bytes) => Ok(
                    merge_config(p.default_config.as_slice(), bytes.as_slice()),
                ),
                StoredConfig::Missing => Ok(copy_bytes(p.default_config.as_slice())),
                StoredConfig::Failed(m) => Err(
                    ServiceError::Backend(concat("read plugin config: ", m.as_str())),
                ),
            },
        }
    }

    /// Whether a configuration can be stored for a plugin: the plugin exists, and
    /// the configuration is a JSON document.
    pub fn check_configuration(&self, id: Guid, config: &[u8]) -> (r: Result<(), ServiceError>)
        ensures
            r is Ok <==> has_plugin(self.plugins@, id) && is_json_document(config@),
            r matches Err(e) ==> e@ == (if has_plugin(self.plugins@, id) {
                ErrorView::InvalidInput("plugin configuration must be valid JSON"@)
            } else {
                no_such_plugin(id)
            }),
    {
        if self.find(id).is_none() {
            return Err(no_plugin(id));
        }
        if is_json(config) {
            Ok(())
        } else {
            Err(ServiceError::InvalidInput("plugin configuration must be valid JSON".to_owned()))
        }
    }

    /// The image of a plugin.
    pub fn plugin_image(&self, id: Guid) -> (r: Option<&PluginImage>)
        ensures
            match r {
                Some(image) => has_plugin(self.plugins@, id) && self.plugins@[plugin_place(
                    self.plugins@,
                    id,
                )].image == Some(*image),
                None => !has_plugin(self.plugins@, id) || self.plugins@[plugin_place(
                    self.plugins@,
                    id,
                )].image is None,
            },
    {
        match self.find(id) {
            None => None,
            Some(p) => match &p.image {
                Some(image) => Some(image),
                None => None,
            },
        }
    }

    /// The repositories.
    pub fn get_repositories(&self) -> (r: &Vec<RepositoryInfo>)
        ensures
            *r == self.repositories,
    {
        &self.repositories
    }

    /// Sets the repositories.
    pub fn set_repositories(&mut self, repositories: Vec<RepositoryInfo>)
        ensures
            *final(self) == (HermitPluginManager { repositories, ..*old(self) }),
    {
        self.repositories = repositories;
    }

    /// The addresses to fetch packages from.
    pub fn repositories_to_fetch(&self) -> (r: Vec<String>)
        ensures
            texts(r@) == package_urls(self.repositories@),
    {
        let mut out: Vec<String> = Vec::new();
        let mut i: usize = 0;
        assert(texts(out@) =~= package_urls(self.repositories@.take(0)));
        while i < self.repositories.len()
            invariant
                i <= self.repositories.len(),
                texts(out@) == package_urls(self.repositories@.take(i as int)),
            decreases self.repositories.len() - i,
        {
            let ghost before = texts(out@);
            assert(self.repositories@.take(i + 1).drop_last() =~= self.repositories@.take(
                i as int,
            ));
            assert(self.repositories@.take(i + 1).last() == self.repositories@[i as int]);
            let repo: &RepositoryInfo = &self.repositories[i];
            if let Some(u) = &repo.url {
                if repo.enabled && u.as_str().unicode_len() > 0 {
                    out.push(u.clone());
                    assert(texts(out@) =~= before.push(u@));
                }
            }
            i += 1;
        }
        assert(self.repositories@.take(self.repositories@.len() as int) =~= self.repositories@);
        out
    }

    /// The pages of the plugins that have one.
    pub fn get_configuration_pages(&self) -> (r: Vec<ConfigurationPageInfo>)
        ensures
            r@.len() == paged(self.plugins@).len(),
            forall|i: int|
                0 <= i < r@.len() ==> paged(self.plugins@)[i].config_page is Some && (
                #[trigger] r@[i]).lists(
                    paged(self.plugins@)[i].descriptor@,
                    paged(self.plugins@)[i].config_page->0,
                ),
    {
        let ghost keep = |p: RegisteredPlugin| p.config_page is Some;
        let mut out: Vec<ConfigurationPageInfo> = Vec::new();
        let mut i: usize = 0;
        proof {
            reveal(Seq::filter);
            assert(self.plugins@.take(0).filter(keep).len() == 0);
        }
        while i < self.plugins.len()
            invariant
                i <= self.plugins.len(),
                keep == (|p: RegisteredPlugin| p.config_page is Some),
                out@.len() == self.plugins@.take(i as int).filter(keep).len(),
                forall|j: int|
                    0 <= j < out@.len() ==> self.plugins@.take(i as int).filter(
                        keep,
                    )[j].config_page is Some && (#[trigger] out@[j]).lists(
                        self.plugins@.take(i as int).filter(keep)[j].descriptor@,
                        self.plugins@.take(i as int).filter(keep)[j].config_page->0,
                    ),
            decreases self.plugins.len() - i,
        {
            proof {
                reveal(Seq::filter);
                assert(self.plugins@.take(i + 1).drop_last() =~= self.plugins@.take(i as int));
                assert(self.plugins@.take(i + 1).last() == self.plugins@[i as int]);
            }
            let p: &RegisteredPlugin = &self.plugins[i];
            if let Some(page) = &p.config_page {
                out.push(
                    ConfigurationPageInfo {
                        name: page.name.clone(),
                        enable_in_main_menu: false,
                        menu_section: None,
                        menu_icon: None,
                        display_name: Some(p.descriptor.name.clone()),
                        plugin_id: Some(p.descriptor.id),
                    },
                );
            }
            i += 1;
        }
        assert(self.plugins@.take(self.plugins@.len() as int) =~= self.plugins@);
        out
    }

    /// The page with a name.
    pub fn get_configuration_page(&self, name: &str) -> (r: Option<&Vec<u8>>)
        ensures
            match r {
                Some(html) => page_named(self.plugins@, name@) == Some(html@),
                None => page_named(self.plugins@, name@) is None,
            },
    {
        let ghost all = self.plugins@;
        let mut i: usize = 0;
        assert(all.skip(0) =~= all);
        while i < self.plugins.len()
            invariant
                i <= self.plugins.len(),
                all == self.plugins@,
                page_named(all, name@) == page_named(all.skip(i as int), name@),
            decreases self.plugins.len() - i,
        {
            assert(all.skip(i as int)[0] == self.plugins@[i as int]);
            assert(all.skip(i as int).drop_first() =~= all.skip(i + 1));
            if let Some(page) = &self.plugins[i].config_page {
                if same_text(page.name.as_str(), name) {
                    return Some(&page.html);
                }
            }
            i += 1;
        }
        None
    }
}

/// Switching a plugin on or off shows in that plugin, and in no other.
pub proof fn law_switching_shows(enabled: Map<Seq<char>, bool>, d: DescriptorView, id: Guid, on: bool)
    ensures
        d.id == id ==> shown(enabled.insert(hyphenated_text(id.value), on), d).enabled == on,
        d.id != id ==> shown(enabled.insert(hyphenated_text(id.value), on), d) == shown(
            enabled,
            d,
        ),
{
    if hyphenated_text(d.id.value) == hyphenated_text(id.value) {
        law_text_names_one_guid(d.id.value, id.value);
    }
}

/// The paths that a file is written by: the directory that must be there, and the
/// temporary file that is renamed once it is complete.
#[derive(Debug, Clone)]
pub struct WritePaths {
    pub parent: String,
    pub temporary: String,
}

/// The paths that the file at `path` is written by.
pub fn atomic_write_paths(path: &str) -> (r: Result<WritePaths, ServiceError>)
    ensures
        r is Ok <==> parent(path@) is Some,
        match r {
            Ok(w) => parent(path@) == Some(w.parent@) && w.temporary@ == path_with_extension(
                path@,
                "json.tmp"@,
            ),
            Err(e) => e@ == ErrorView::Backend("plugin path has no parent"@),
        },
{
    match path_parent(path) {
        Some(p) => Ok(
            WritePaths { parent: p, temporary: replace_extension(path, "json.tmp") },
        ),
        None => Err(ServiceError::Backend("plugin path has no parent".to_owned())),
    }
}

} // verus!
