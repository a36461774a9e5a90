//! Defines and validates the static filesystem plugin manifest.
use std::path::{Component, Path};

use vstd::prelude::*;

use crate::error::Error;
use crate::web_url::{parse_url, url_parts};
use crate::text::{
    chars_of, chars_eq, concat2, concat3, concat4, concat5, lower, lower_chars, str_eq, trim, trim_chars,
    u64_to_decimal, decimal,
};

verus! {

/// The plugin API version this server implements.
pub const PLUGIN_API_VERSION: u32 = 1;

/// A plugin's `plugin.json`.
#[derive(Debug)]
pub struct PluginManifest {
    pub api_version: u32,
    pub id: String,
    pub name: String,
    pub author: Option<String>,
    pub icon: String,
    pub entry: String,
    pub permissions: PluginPermissions,
}

/// What a plugin may reach.
#[derive(Debug)]
pub struct PluginPermissions {
    pub network: Vec<String>,
}

impl PluginPermissions {
    pub fn new() -> (r: Self)
        ensures
            r.network@.len() == 0,
    {
        PluginPermissions { network: Vec::new() }
    }
}

/// The kinds of component that a path is made of, as `std::path::Component`
/// tells them apart.
#[derive(Clone, Copy, Debug, PartialEq, Eq, Structural)]
pub enum PathComponent {
    /// A Windows path prefix such as a drive letter.
    Prefix,
    /// The root directory.
    RootDir,
    /// A `.` that the path keeps.
    CurDir,
    /// A `..`.
    ParentDir,
    /// A plain name.
    Normal,
}

/// Whether a component could lead out of the directory a path is taken in.
pub open spec fn leaves_directory(component: PathComponent) -> bool {
    component == PathComponent::ParentDir || component == PathComponent::RootDir || component
        == PathComponent::Prefix
}

/// Whether a path stays below the directory it is taken in: it is not
/// absolute and has no parent, root or prefix component.
pub open spec fn is_safe_relative(is_absolute: bool, components: Seq<PathComponent>) -> bool {
    !is_absolute && forall|i: int| 0 <= i < components.len() ==> !leaves_directory(#[trigger] components[i])
}

/// How `std::path::Path` reads a path's text: whether it is absolute, its
/// components and its extension.
pub struct PathReading {
    pub is_absolute: bool,
    pub components: Seq<PathComponent>,
    pub extension: Option<Seq<char>>,
}

/// Text that every platform splits at `/` alone and in which no platform sees
/// a prefix: no `\`, no `:`, and no leading `//`.
pub open spec fn is_portable(v: Seq<char>) -> bool {
    &&& !v.contains('\\')
    &&& !v.contains(':')
    &&& !(v.len() >= 2 && v[0] == '/' && v[1] == '/')
}

/// Portable text that begins at the root directory.
pub open spec fn starts_at_root(v: Seq<char>) -> bool {
    is_portable(v) && v.len() > 0 && v[0] == '/'
}

/// Whether a `..` stands at `i` as a whole `/`-delimited segment.
pub open spec fn is_parent_segment_at(v: Seq<char>, i: int) -> bool {
    &&& 0 <= i && i + 2 <= v.len()
    &&& v[i] == '.' && v[i + 1] == '.'
    &&& (i == 0 || v[i - 1] == '/')
    &&& (i + 2 == v.len() || v[i + 2] == '/')
}

/// Portable text with a `..` segment.
pub open spec fn has_parent_segment(v: Seq<char>) -> bool {
    is_portable(v) && exists|i: int| #[trigger] is_parent_segment_at(v, i)
}

/// A single file name: not empty, no separator or `:`, and neither `.` nor `..`.
pub open spec fn is_plain_name(v: Seq<char>) -> bool {
    &&& v.len() > 0
    &&& !v.contains('/') && !v.contains('\\') && !v.contains(':')
    &&& !(v.len() == 1 && v[0] == '.')
    &&& !(v.len() == 2 && v[0] == '.' && v[1] == '.')
}

/// The index of the last `.` in `v`, or -1.
pub open spec fn last_dot(v: Seq<char>) -> int
    decreases v.len(),
{
    if v.len() == 0 {
        -1
    } else if v.last() == '.' {
        v.len() - 1
    } else {
        last_dot(v.drop_last())
    }
}

/// The extension of a file name as `Path::extension` documents it: what
/// follows the final `.`, or none when there is no `.` or the only one
/// begins the name.
pub open spec fn plain_extension(v: Seq<char>) -> Option<Seq<char>> {
    if last_dot(v) > 0 {
        Some(v.subrange(last_dot(v) + 1, v.len() as int))
    } else {
        None
    }
}

/// How every platform reads a single file name.
pub open spec fn plain_reading(v: Seq<char>) -> PathReading {
    PathReading { is_absolute: false, components: seq![PathComponent::Normal], extension: plain_extension(v) }
}

/// What holds of the reading of `v` on every platform: portable text that
/// starts with `/` begins at the root, a `..` segment is a parent component,
/// and a single file name is one plain component with its extension.
pub open spec fn reading_agrees(v: Seq<char>, reading: PathReading) -> bool {
    &&& starts_at_root(v) ==> reading.components.len() > 0 && reading.components[0] == PathComponent::RootDir
    &&& has_parent_segment(v) ==> reading.components.contains(PathComponent::ParentDir)
    &&& is_plain_name(v) ==> reading == plain_reading(v)
}

pub open spec fn extension_view(extension: Option<String>) -> Option<Seq<char>> {
    match extension {
        Some(e) => Some(e@),
        None => None,
    }
}

/// `std::path::Path::is_absolute`. Which paths are absolute differs between
/// platforms; what is stated is that a single file name is not.
#[verifier::external_body]
fn path_is_absolute(value: &str) -> (r: bool)
    ensures
        is_plain_name(value@) ==> !r,
{
    Path::new(value).is_absolute()
}

/// `std::path::Path::components`, each component taken by its kind. How a
/// path splits differs between platforms; what is stated holds on all of
/// them: portable text that starts with `/` begins with the root directory,
/// a `..` segment of portable text is a parent component, and a single file
/// name is one plain component.
#[verifier::external_body]
fn path_components(value: &str) -> (r: Vec<PathComponent>)
    ensures
        starts_at_root(value@) ==> r@.len() > 0 && r@[0] == PathComponent::RootDir,
        has_parent_segment(value@) ==> r@.contains(PathComponent::ParentDir),
        is_plain_name(value@) ==> r@ == seq![PathComponent::Normal],
{
    let mut kinds = Vec::new();
    for component in Path::new(value).components() {
        kinds.push(match component {
            Component::Prefix(_) => PathComponent::Prefix,
            Component::RootDir => PathComponent::RootDir,
            Component::CurDir => PathComponent::CurDir,
            Component::ParentDir => PathComponent::ParentDir,
            Component::Normal(_) => PathComponent::Normal,
        });
    }
    kinds
}

/// `std::path::Path::extension`, as text. What is stated is the documented
/// extension of a single file name; for other paths the file name is found
/// by platform rules.
#[verifier::external_body]
fn path_extension(value: &str) -> (r: Option<String>)
    ensures
        is_plain_name(value@) ==> extension_view(r) == plain_extension(value@),
{
    Path::new(value).extension().and_then(|e| e.to_str()).map(|e| e.to_string())
}

/// Reads a path's text once, through `std::path::Path`.
fn read_path(value: &str) -> (r: (bool, Vec<PathComponent>, Option<String>))
    ensures
        reading_agrees(
            value@,
            PathReading { is_absolute: r.0, components: r.1@, extension: extension_view(r.2) },
        ),
{
    let is_absolute = path_is_absolute(value);
    let components = path_components(value);
    let extension = path_extension(value);
    (is_absolute, components, extension)
}

fn stays_inside(is_absolute: bool, components: &[PathComponent]) -> (r: bool)
    ensures
        r == is_safe_relative(is_absolute, components@),
{
    if is_absolute {
        return false;
    }
    let mut i: usize = 0;
    while i < components.len()
        invariant
            i <= components.len(),
            forall|j: int| 0 <= j < i ==> !leaves_directory(#[trigger] components@[j]),
        decreases components.len() - i,
    {
        let c = components[i];
        if c == PathComponent::ParentDir || c == PathComponent::RootDir || c == PathComponent::Prefix {
            return false;
        }
        i += 1;
    }
    true
}

/// A path that begins at the root or holds a `..` segment leaves its
/// directory, whatever else the platform reads in it.
proof fn lemma_leaving_reading(v: Seq<char>, reading: PathReading)
    requires
        reading_agrees(v, reading),
        starts_at_root(v) || has_parent_segment(v),
    ensures
        !is_safe_relative(reading.is_absolute, reading.components),
{
    if starts_at_root(v) {
        assert(leaves_directory(reading.components[0]));
    } else {
        let k = choose|k: int| 0 <= k < reading.components.len() && reading.components[k] == PathComponent::ParentDir;
        assert(leaves_directory(reading.components[k]));
    }
}

/// Whether a path's text stays below the directory it is taken in.
pub fn is_safe_relative_path(value: &str) -> (r: bool)
    ensures
        exists|reading: PathReading| #[trigger] reading_agrees(value@, reading)
            && r == is_safe_relative(reading.is_absolute, reading.components),
        starts_at_root(value@) || has_parent_segment(value@) ==> !r,
        is_plain_name(value@) ==> r,
{
    let (is_absolute, components, extension) = read_path(value);
    let ghost reading = PathReading { is_absolute, components: components@, extension: extension_view(extension) };
    let r = stays_inside(is_absolute, components.as_slice());
    proof {
        if starts_at_root(value@) || has_parent_segment(value@) {
            lemma_leaving_reading(value@, reading);
        }
    }
    r
}

/// What the filesystem says about one path of a manifest, taken in the
/// plugin's directory: whether it names a file and, for the entry script,
/// whether it resolves inside the directory (or the I/O error that resolving
/// it met).
#[derive(Debug)]
pub struct FileFacts {
    pub is_file: bool,
    pub within_directory: Result<bool, String>,
}

/// The filesystem facts of a manifest's entry script and icon.
#[derive(Debug)]
pub struct ManifestFiles {
    pub entry: FileFacts,
    pub icon: FileFacts,
}

/// A validation failure: a configuration error or an I/O error.
pub enum Failure {
    Config(Seq<char>),
    Io(Seq<char>),
}

pub open spec fn failure_of_error(e: Error) -> Option<Failure> {
    match e {
        Error::Config(m) => Some(Failure::Config(m@)),
        Error::Io(m) => Some(Failure::Io(m@)),
        _ => None,
    }
}

pub open spec fn is_id_char(c: char) -> bool {
    ('a' <= c && c <= 'z') || ('0' <= c && c <= '9')
}

pub open spec fn is_id_separator(c: char) -> bool {
    c == '.' || c == '_' || c == '-'
}

/// Whether `value` is a plugin id: runs of lower-case ASCII letters and
/// digits joined by single `.`, `_` or `-`.
pub open spec fn is_valid_id(value: Seq<char>) -> bool {
    &&& value.len() > 0
    &&& is_id_char(value[0])
    &&& is_id_char(value.last())
    &&& forall|i: int|
        0 <= i < value.len() ==> is_id_char(#[trigger] value[i]) || (is_id_separator(value[i])
            && is_id_char(value[i - 1]) && is_id_char(value[i + 1]))
}

/// `regex::Regex::new` and `Regex::is_match`, for the plugin id pattern
/// `^[a-z0-9]+(?:[._-][a-z0-9]+)*$`: the text matches when it is one or more
/// runs of lower-case ASCII letters and digits, joined by single `.`, `_` or
/// `-`, and nothing else (`^` and `$` anchor at the ends of the text). The
/// precondition admits that pattern alone, which compiles, so building it
/// cannot fail.
#[verifier::external_body]
fn matches_id_pattern(pattern: &str, value: &str) -> (r: bool)
    requires
        pattern@ == r"^[a-z0-9]+(?:[._-][a-z0-9]+)*$"@,
    ensures
        r == is_valid_id(value@),
{
    regex::Regex::new(pattern).expect("the id pattern compiles").is_match(value)
}

/// Checks a plugin id.
pub fn validate_id(value: &str, label: &str) -> (r: Result<(), Error>)
    ensures
        is_valid_id(value@) ==> r is Ok,
        !is_valid_id(value@) ==> r is Err && failure_of_error(r->Err_0) == Some(
            Failure::Config("invalid "@ + label@ + ": "@ + value@),
        ),
{
    let ok = matches_id_pattern(r"^[a-z0-9]+(?:[._-][a-z0-9]+)*$", value);
    if ok {
        Ok(())
    } else {
        let mut message = concat3("invalid ", label, ": ");
        message.append(value);
        Err(Error::Config(message))
    }
}

/// The reason a network host entry is refused, if it is: an empty entry, one
/// holding `/` or `:`, or starting or ending with `.`, or one that the URL
/// parser does not read back as exactly that host.
pub open spec fn host_failure(value: Seq<char>) -> Option<Seq<char>> {
    if value.len() == 0 || value.contains('/') || value.contains(':') || value[0] == '.'
        || value.last() == '.' {
        Some("invalid plugin network host: "@ + value)
    } else {
        match url_parts("https://"@ + value) {
            Err(e) => Some("invalid plugin network host '"@ + value + "': "@ + e),
            Ok((_, Some(h))) => if h == value {
                None
            } else {
                Some("invalid plugin network host: "@ + value)
            },
            Ok((_, None)) => Some("invalid plugin network host: "@ + value),
        }
    }
}

fn contains_char(v: &Vec<char>, c: char) -> (r: bool)
    ensures
        r == v@.contains(c),
{
    let mut i: usize = 0;
    while i < v.len()
        invariant
            i <= v.len(),
            forall|j: int| 0 <= j < i ==> v@[j] != c,
        decreases v.len() - i,
    {
        if v[i] == c {
            return true;
        }
        i += 1;
    }
    false
}

/// Checks one entry of the network allow-list: a bare host name, no URL.
pub fn validate_network_host(value: &str) -> (r: Result<(), Error>)
    ensures
        match host_failure(value@) {
            None => r is Ok,
            Some(m) => r is Err && failure_of_error(r->Err_0) == Some(Failure::Config(m)),
        },
{
    let v = chars_of(value);
    if v.len() == 0 || contains_char(&v, '/') || contains_char(&v, ':') || v[0] == '.' || v[v.len()
        - 1] == '.' {
        return Err(Error::Config(concat2("invalid plugin network host: ", value)));
    }
    let url = concat2("https://", value);
    match parse_url(url.as_str()) {
        Err(error) => Err(Error::Config(concat4("invalid plugin network host '", value, "': ", error.as_str()))),
        Ok((_, Some(host))) => {
            if str_eq(host.as_str(), value) {
                Ok(())
            } else {
                Err(Error::Config(concat2("invalid plugin network host: ", value)))
            }
        },
        Ok((_, None)) => Err(Error::Config(concat2("invalid plugin network host: ", value))),
    }
}

/// A label's text, trimmed, or the error that it is blank.
pub fn required(value: &str, label: &str) -> (r: Result<String, Error>)
    ensures
        trim(value@).len() == 0 ==> r is Err && failure_of_error(r->Err_0) == Some(
            Failure::Config(label@ + " is required"@),
        ),
        trim(value@).len() > 0 ==> (r matches Ok(t) && t@ == trim(value@)),
{
    let trimmed = trim_chars(&chars_of(value));
    if trimmed.len() == 0 {
        Err(Error::Config(concat2(label, " is required")))
    } else {
        Ok(crate::text::string_from_chars(&trimmed))
    }
}

/// The lower-cased extension of a path, empty when it has none.
pub open spec fn extension_of(extension: Option<Seq<char>>) -> Seq<char> {
    match extension {
        Some(e) => lower(e),
        None => Seq::empty(),
    }
}

pub open spec fn is_entry_extension(e: Seq<char>) -> bool {
    e == "js"@ || e == "mjs"@ || e == "ts"@ || e == "mts"@
}

pub open spec fn is_icon_extension(e: Seq<char>) -> bool {
    e == "svg"@ || e == "png"@ || e == "webp"@
}

/// The outcome `r` reports `failure`: `Ok` when there is none, else the
/// error that carries it.
pub open spec fn reports(r: Result<(), Error>, failure: Option<Failure>) -> bool {
    match failure {
        None => r is Ok,
        Some(f) => r is Err && failure_of_error(r->Err_0) == Some(f),
    }
}

/// Why the entry script is refused, if it is: an unsafe path, an unsupported
/// script format, a missing file, an I/O error while resolving it, or a path
/// that resolves outside the plugin's directory.
pub open spec fn entry_failure(value: Seq<char>, reading: PathReading, files: FileFacts) -> Option<Failure> {
    if !is_safe_relative(reading.is_absolute, reading.components) {
        Some(Failure::Config("invalid plugin entry path: "@ + value))
    } else if !is_entry_extension(extension_of(reading.extension)) {
        Some(Failure::Config("unsupported plugin entry format: "@ + value))
    } else if !files.is_file {
        Some(Failure::Config("plugin entry does not exist: "@ + value))
    } else {
        match files.within_directory {
            Err(e) => Some(Failure::Io(e@)),
            Ok(false) => Some(Failure::Config("plugin entry escapes its directory: "@ + value)),
            Ok(true) => None,
        }
    }
}

/// Why the icon is refused, if it is: an unsafe path, an unsupported image
/// format, or a missing file.
pub open spec fn icon_failure(value: Seq<char>, reading: PathReading, files: FileFacts) -> Option<Failure> {
    if !is_safe_relative(reading.is_absolute, reading.components) {
        Some(Failure::Config("invalid plugin asset path: "@ + value))
    } else if !is_icon_extension(extension_of(reading.extension)) {
        Some(Failure::Config("unsupported plugin icon format: "@ + value))
    } else if !files.is_file {
        Some(Failure::Config("plugin icon does not exist: "@ + value))
    } else {
        None
    }
}

fn lower_extension(extension: &Option<String>) -> (r: Vec<char>)
    ensures
        r@ == extension_of(extension_view(*extension)),
{
    match extension {
        Some(e) => lower_chars(&chars_of(e.as_str())),
        None => Vec::new(),
    }
}

fn is_one_of(value: &Vec<char>, a: &str, b: &str, c: &str, d: &str) -> (r: bool)
    ensures
        r == (value@ == a@ || value@ == b@ || value@ == c@ || value@ == d@),
{
    chars_eq(value, &chars_of(a)) || chars_eq(value, &chars_of(b)) || chars_eq(value, &chars_of(c))
        || chars_eq(value, &chars_of(d))
}

/// Checks the entry script of a manifest: its text is read as a path, and
/// `files` says what the plugin's directory holds at that path.
pub fn validate_entry_path(value: &str, files: &FileFacts) -> (r: Result<(), Error>)
    ensures
        exists|reading: PathReading| #[trigger] reading_agrees(value@, reading)
            && reports(r, entry_failure(value@, reading, *files)),
        starts_at_root(value@) || has_parent_segment(value@) ==> reports(
            r,
            Some(Failure::Config("invalid plugin entry path: "@ + value@)),
        ),
        is_plain_name(value@) ==> reports(r, entry_failure(value@, plain_reading(value@), *files)),
{
    let (is_absolute, components, extension) = read_path(value);
    let ghost reading = PathReading { is_absolute, components: components@, extension: extension_view(extension) };
    proof {
        if starts_at_root(value@) || has_parent_segment(value@) {
            lemma_leaving_reading(value@, reading);
        }
    }
    if !stays_inside(is_absolute, components.as_slice()) {
        return Err(Error::Config(concat2("invalid plugin entry path: ", value)));
    }
    let lowered_extension = lower_extension(&extension);
    if !is_one_of(&lowered_extension, "js", "mjs", "ts", "mts") {
        return Err(Error::Config(concat2("unsupported plugin entry format: ", value)));
    }
    if !files.is_file {
        return Err(Error::Config(concat2("plugin entry does not exist: ", value)));
    }
    match &files.within_directory {
        Err(error) => Err(Error::Io(error.clone())),
        Ok(false) => Err(Error::Config(concat2("plugin entry escapes its directory: ", value))),
        Ok(true) => Ok(()),
    }
}

/// Checks the icon of a manifest: its text is read as a path, and `files`
/// says whether the plugin's directory holds a file there.
pub fn validate_asset_path(value: &str, files: &FileFacts) -> (r: Result<(), Error>)
    ensures
        exists|reading: PathReading| #[trigger] reading_agrees(value@, reading)
            && reports(r, icon_failure(value@, reading, *files)),
        starts_at_root(value@) || has_parent_segment(value@) ==> reports(
            r,
            Some(Failure::Config("invalid plugin asset path: "@ + value@)),
        ),
        is_plain_name(value@) ==> reports(r, icon_failure(value@, plain_reading(value@), *files)),
{
    let (is_absolute, components, extension) = read_path(value);
    let ghost reading = PathReading { is_absolute, components: components@, extension: extension_view(extension) };
    proof {
        if starts_at_root(value@) || has_parent_segment(value@) {
            lemma_leaving_reading(value@, reading);
        }
    }
    if !stays_inside(is_absolute, components.as_slice()) {
        return Err(Error::Config(concat2("invalid plugin asset path: ", value)));
    }
    let lowered_extension = lower_extension(&extension);
    if !is_one_of(&lowered_extension, "svg", "png", "webp", "webp") {
        return Err(Error::Config(concat2("unsupported plugin icon format: ", value)));
    }
    if !files.is_file {
        return Err(Error::Config(concat2("plugin icon does not exist: ", value)));
    }
    Ok(())
}

/// The network hosts of a manifest, lower-cased.
pub open spec fn lowered(hosts: Seq<Seq<char>>) -> Seq<Seq<char>> {
    hosts.map_values(|h: Seq<char>| lower(h))
}

/// The first problem with the network allow-list, in order: an invalid host,
/// or a host that repeats an earlier one, ASCII case ignored.
pub open spec fn hosts_failure(id: Seq<char>, hosts: Seq<Seq<char>>) -> Option<Seq<char>>
    decreases hosts.len(),
{
    if hosts.len() == 0 {
        None
    } else {
        match hosts_failure(id, hosts.drop_last()) {
            Some(m) => Some(m),
            None => match host_failure(hosts.last()) {
                Some(m) => Some(m),
                None => if lowered(hosts.drop_last()).contains(lower(hosts.last())) {
                    Some(
                        "plugin '"@ + id + "' contains duplicate network host '"@ + hosts.last()
                            + "'"@,
                    )
                } else {
                    None
                },
            },
        }
    }
}

/// Why a manifest is refused, if it is, its entry and icon read as `entry`
/// and `icon`; checks run in this order: API version, id, name, entry
/// script, icon, network hosts.
pub open spec fn manifest_failure(
    manifest: PluginManifest,
    entry: PathReading,
    icon: PathReading,
    files: ManifestFiles,
) -> Option<Failure> {
    if manifest.api_version != PLUGIN_API_VERSION {
        Some(
            Failure::Config(
                "plugin '"@ + manifest.id@ + "' uses unsupported API version "@ + decimal(
                    manifest.api_version as nat,
                ),
            ),
        )
    } else if !is_valid_id(manifest.id@) {
        Some(Failure::Config("invalid "@ + "plugin id"@ + ": "@ + manifest.id@))
    } else if trim(manifest.name@).len() == 0 {
        Some(Failure::Config("plugin name"@ + " is required"@))
    } else if entry_failure(manifest.entry@, entry, files.entry) is Some {
        entry_failure(manifest.entry@, entry, files.entry)
    } else if icon_failure(manifest.icon@, icon, files.icon) is Some {
        icon_failure(manifest.icon@, icon, files.icon)
    } else {
        match hosts_failure(
            manifest.id@,
            manifest.permissions.network@.map_values(|h: String| h@),
        ) {
            Some(m) => Some(Failure::Config(m)),
            None => None,
        }
    }
}

fn contains_chars(list: &Vec<Vec<char>>, value: &Vec<char>) -> (r: bool)
    ensures
        r == list@.map_values(|v: Vec<char>| v@).contains(value@),
{
    let mut i: usize = 0;
    while i < list.len()
        invariant
            i <= list.len(),
            forall|j: int| 0 <= j < i ==> list@[j]@ != value@,
        decreases list.len() - i,
    {
        if chars_eq(&list[i], value) {
            assert(list@.map_values(|v: Vec<char>| v@)[i as int] == value@);
            return true;
        }
        i += 1;
    }
    false
}

impl PluginManifest {
    /// Validates the manifest against the facts of its plugin directory.
    #[verifier::loop_isolation(false)]
    pub fn validate(&self, files: &ManifestFiles) -> (r: Result<(), Error>)
        ensures
            exists|entry: PathReading, icon: PathReading|
                #[trigger] reading_agrees(self.entry@, entry) && #[trigger] reading_agrees(self.icon@, icon)
                    && reports(r, manifest_failure(*self, entry, icon, *files)),
    {
        proof {
            lemma_some_reading(self.entry@);
            lemma_some_reading(self.icon@);
        }
        let ghost mut entry = choose|reading: PathReading| reading_agrees(self.entry@, reading);
        let ghost mut icon = choose|reading: PathReading| reading_agrees(self.icon@, reading);
        if self.api_version != PLUGIN_API_VERSION {
            let mut message = concat3("plugin '", self.id.as_str(), "' uses unsupported API version ");
            message.append(u64_to_decimal(self.api_version as u64).as_str());
            let r = Err(Error::Config(message));
            assert(reading_agrees(self.entry@, entry) && reading_agrees(self.icon@, icon));
            return r;
        }
        match validate_id(self.id.as_str(), "plugin id") {
            Ok(()) => {},
            Err(e) => {
                assert(reading_agrees(self.entry@, entry) && reading_agrees(self.icon@, icon));
                return Err(e);
            },
        }
        match required(self.name.as_str(), "plugin name") {
            Ok(_) => {},
            Err(e) => {
                assert(reading_agrees(self.entry@, entry) && reading_agrees(self.icon@, icon));
                return Err(e);
            },
        }
        let checked_entry = validate_entry_path(self.entry.as_str(), &files.entry);
        proof {
            entry = choose|reading: PathReading| #[trigger] reading_agrees(self.entry@, reading)
                && reports(checked_entry, entry_failure(self.entry@, reading, files.entry));
        }
        match checked_entry {
            Ok(()) => {},
            Err(e) => {
                assert(reading_agrees(self.entry@, entry) && reading_agrees(self.icon@, icon));
                return Err(e);
            },
        }
        let checked_icon = validate_asset_path(self.icon.as_str(), &files.icon);
        proof {
            icon = choose|reading: PathReading| #[trigger] reading_agrees(self.icon@, reading)
                && reports(checked_icon, icon_failure(self.icon@, reading, files.icon));
        }
        match checked_icon {
            Ok(()) => {},
            Err(e) => {
                assert(reading_agrees(self.entry@, entry) && reading_agrees(self.icon@, icon));
                return Err(e);
            },
        }
        let hosts = &self.permissions.network;
        let ghost hv = hosts@.map_values(|h: String| h@);
        let mut seen: Vec<Vec<char>> = Vec::new();
        let mut i: usize = 0;
        while i < hosts.len()
            invariant
                i <= hosts.len(),
                hv == hosts@.map_values(|h: String| h@),
                hosts_failure(self.id@, hv.take(i as int)) is None,
                seen@.map_values(|v: Vec<char>| v@) == lowered(hv.take(i as int)),
            decreases hosts.len() - i,
        {
            let host = &hosts[i];
            assert(hv.take(i + 1).drop_last() =~= hv.take(i as int));
            assert(hv.take(i + 1).last() == host@);
            match validate_network_host(host.as_str()) {
                Ok(()) => {},
                Err(e) => {
                    proof {
                        lemma_hosts_failure_prefix(self.id@, hv, i + 1);
                    }
                    assert(reading_agrees(self.entry@, entry) && reading_agrees(self.icon@, icon));
                    return Err(e);
                },
            }
            let lowered_host = lower_chars(&chars_of(host.as_str()));
            if contains_chars(&seen, &lowered_host) {
                proof {
                    lemma_hosts_failure_prefix(self.id@, hv, i + 1);
                }
                let mut message = concat3("plugin '", self.id.as_str(), "' contains duplicate network host '");
                message.append(host.as_str());
                message.append("'");
                assert(reading_agrees(self.entry@, entry) && reading_agrees(self.icon@, icon));
                return Err(Error::Config(message));
            }
            let ghost prev = seen@;
            seen.push(lowered_host);
            proof {
                assert(hv.take(i + 1) =~= hv.take(i as int).push(host@));
                assert(lowered(hv.take(i + 1)) =~= lowered(hv.take(i as int)).push(lower(host@)));
                assert(seen@.map_values(|v: Vec<char>| v@) =~= prev.map_values(|v: Vec<char>| v@).push(lower(host@)));
            }
            i += 1;
        }
        assert(hv.take(hosts.len() as int) =~= hv);
        assert(reading_agrees(self.entry@, entry) && reading_agrees(self.icon@, icon));
        Ok(())
    }
}

/// Every text has a reading that agrees with what holds on every platform.
proof fn lemma_some_reading(v: Seq<char>)
    ensures
        exists|reading: PathReading| #[trigger] reading_agrees(v, reading),
{
    let reading = if is_plain_name(v) {
        plain_reading(v)
    } else {
        PathReading {
            is_absolute: false,
            components: seq![PathComponent::RootDir, PathComponent::ParentDir],
            extension: None,
        }
    };
    if is_plain_name(v) {
        assert(!starts_at_root(v)) by {
            if v.len() > 0 && v[0] == '/' {
                assert(v.contains('/'));
            }
        }
        assert(!has_parent_segment(v)) by {
            if has_parent_segment(v) {
                let i = choose|i: int| #[trigger] is_parent_segment_at(v, i);
                if i > 0 {
                    assert(v[i - 1] == '/');
                    assert(v.contains('/'));
                } else if i + 2 < v.len() {
                    assert(v[i + 2] == '/');
                    assert(v.contains('/'));
                }
            }
        }
    } else {
        assert(reading.components[1] == PathComponent::ParentDir);
    }
    assert(reading_agrees(v, reading));
}

/// A problem in a prefix of the allow-list is the allow-list's first problem.
proof fn lemma_hosts_failure_prefix(id: Seq<char>, hosts: Seq<Seq<char>>, k: int)
    requires
        0 <= k <= hosts.len(),
        hosts_failure(id, hosts.take(k)) is Some,
    ensures
        hosts_failure(id, hosts) == hosts_failure(id, hosts.take(k)),
    decreases hosts.len() - k,
{
    if k < hosts.len() {
        assert(hosts.take(k + 1).drop_last() =~= hosts.take(k));
        lemma_hosts_failure_prefix(id, hosts, k + 1);
    } else {
        assert(hosts.take(k) =~= hosts);
    }
}

/// The allow-list has no problem exactly when every host is valid and no two
/// hosts are the same, ASCII case ignored.
proof fn lemma_hosts_ok(id: Seq<char>, hosts: Seq<Seq<char>>)
    ensures
        hosts_failure(id, hosts) is None <==> (forall|i: int| 0 <= i < hosts.len() ==> (#[trigger] host_failure(hosts[i])) is None)
            && (forall|i: int, j: int| 0 <= i < j < hosts.len() ==> lower(#[trigger] hosts[i]) != lower(#[trigger] hosts[j])),
    decreases hosts.len(),
{
    if hosts.len() > 0 {
        let init = hosts.drop_last();
        let last = hosts.last();
        let n = hosts.len() - 1;
        lemma_hosts_ok(id, init);
        let all_valid = forall|i: int| 0 <= i < hosts.len() ==> (#[trigger] host_failure(hosts[i])) is None;
        let init_valid = forall|i: int| 0 <= i < init.len() ==> (#[trigger] host_failure(init[i])) is None;
        let distinct = forall|i: int, j: int| 0 <= i < j < hosts.len() ==> lower(#[trigger] hosts[i]) != lower(#[trigger] hosts[j]);
        let init_distinct = forall|i: int, j: int| 0 <= i < j < init.len() ==> lower(#[trigger] init[i]) != lower(#[trigger] init[j]);
        let fresh = forall|i: int| 0 <= i < n ==> lower(#[trigger] hosts[i]) != lower(last);
        assert(!lowered(init).contains(lower(last)) <==> fresh) by {
            if lowered(init).contains(lower(last)) {
                let k = choose|k: int| 0 <= k < lowered(init).len() && lowered(init)[k] == lower(last);
                assert(lower(hosts[k]) == lower(last));
            } else {
                assert forall|i: int| 0 <= i < n implies lower(#[trigger] hosts[i]) != lower(last) by {
                    assert(lowered(init)[i] == lower(init[i]));
                }
            }
        }
        assert(all_valid <==> (init_valid && host_failure(last) is None)) by {
            if init_valid && host_failure(last) is None {
                assert forall|i: int| 0 <= i < hosts.len() implies (#[trigger] host_failure(hosts[i])) is None by {
                    if i < n {
                        assert(hosts[i] == init[i]);
                    }
                }
            }
            if all_valid {
                assert forall|i: int| 0 <= i < init.len() implies (#[trigger] host_failure(init[i])) is None by {
                    assert(hosts[i] == init[i]);
                }
                assert(host_failure(hosts[n]) is None);
            }
        }
        assert(distinct <==> (init_distinct && fresh)) by {
            if init_distinct && fresh {
                assert forall|i: int, j: int| 0 <= i < j < hosts.len() implies lower(#[trigger] hosts[i]) != lower(#[trigger] hosts[j]) by {
                    if j < n {
                        assert(hosts[i] == init[i] && hosts[j] == init[j]);
                    }
                }
            }
            if distinct {
                assert forall|i: int, j: int| 0 <= i < j < init.len() implies lower(#[trigger] init[i]) != lower(#[trigger] init[j]) by {
                    assert(hosts[i] == init[i] && hosts[j] == init[j]);
                }
                assert forall|i: int| 0 <= i < n implies lower(#[trigger] hosts[i]) != lower(last) by {
                    assert(lower(hosts[i]) != lower(hosts[n]));
                }
            }
        }
    }
}

/// A manifest is accepted exactly when its API version is this server's, its
/// id is valid, its name is not blank, its entry is a safe relative path to a
/// `js`, `mjs`, `ts` or `mts` file (any case) that resolves inside the
/// plugin's directory, its icon is a safe relative path to an `svg`, `png`
/// or `webp` file, and its network hosts are each valid and pairwise
/// distinct, ASCII case ignored; `entry` and `icon` are how the two paths
/// read.
pub proof fn law_manifest_accepted_iff(
    manifest: PluginManifest,
    entry: PathReading,
    icon: PathReading,
    files: ManifestFiles,
)
    ensures
        ({
            let hosts = manifest.permissions.network@.map_values(|h: String| h@);
            manifest_failure(manifest, entry, icon, files) is None <==> {
                &&& manifest.api_version == PLUGIN_API_VERSION
                &&& is_valid_id(manifest.id@)
                &&& trim(manifest.name@).len() > 0
                &&& is_safe_relative(entry.is_absolute, entry.components)
                &&& is_entry_extension(extension_of(entry.extension))
                &&& files.entry.is_file
                &&& files.entry.within_directory matches Ok(true)
                &&& is_safe_relative(icon.is_absolute, icon.components)
                &&& is_icon_extension(extension_of(icon.extension))
                &&& files.icon.is_file
                &&& forall|i: int| 0 <= i < hosts.len() ==> (#[trigger] host_failure(hosts[i])) is None
                &&& forall|i: int, j: int|
                    0 <= i < j < hosts.len() ==> lower(#[trigger] hosts[i]) != lower(#[trigger] hosts[j])
            }
        }),
{
    let hosts = manifest.permissions.network@.map_values(|h: String| h@);
    lemma_hosts_ok(manifest.id@, hosts);
}

/// An entry script whose path stays inside the plugin's directory is
/// accepted when its extension, lower-cased, is `js`, `mjs`, `ts` or `mts`
/// and it names an existing file that resolves inside the directory; with any
/// other extension it is refused as an unsupported format.
pub proof fn law_entry_script_formats(value: Seq<char>, reading: PathReading, files: FileFacts)
    requires
        is_safe_relative(reading.is_absolute, reading.components),
    ensures
        ({
            let e = extension_of(reading.extension);
            (e == "js"@ || e == "mjs"@ || e == "ts"@ || e == "mts"@) && files.is_file
                && (files.within_directory matches Ok(true)) ==> entry_failure(value, reading, files) is None
        }),
        ({
            let e = extension_of(reading.extension);
            !(e == "js"@ || e == "mjs"@ || e == "ts"@ || e == "mts"@) ==> entry_failure(value, reading, files)
                == Some(Failure::Config("unsupported plugin entry format: "@ + value))
        }),
{
}

/// The last `.` of a text is not moved by appending text without one.
proof fn lemma_last_dot_append(p: Seq<char>, t: Seq<char>)
    requires
        !t.contains('.'),
    ensures
        last_dot(p + t) == last_dot(p),
    decreases t.len(),
{
    if t.len() == 0 {
        assert(p + t =~= p);
    } else {
        assert((p + t).drop_last() =~= p + t.drop_last());
        assert((p + t).last() == t[t.len() - 1]);
        assert(!t.drop_last().contains('.')) by {
            if t.drop_last().contains('.') {
                let k = choose|k: int| 0 <= k < t.drop_last().len() && t.drop_last()[k] == '.';
                assert(t[k] == '.');
            }
        }
        lemma_last_dot_append(p, t.drop_last());
    }
}

/// A single file name `stem.ext` with a non-empty stem, whose extension,
/// lower-cased, is `js`, `mjs`, `ts` or `mts`, is an accepted entry script
/// when it names an existing file inside the directory: with such a name,
/// `validate_entry_path` answers `Ok`.
pub proof fn law_plain_entry_scripts(stem: Seq<char>, ext: Seq<char>, files: FileFacts)
    requires
        stem.len() > 0,
        !ext.contains('.'),
        lower(ext) == "js"@ || lower(ext) == "mjs"@ || lower(ext) == "ts"@ || lower(ext) == "mts"@,
        files.is_file,
        files.within_directory matches Ok(true),
    ensures
        entry_failure(stem + "."@ + ext, plain_reading(stem + "."@ + ext), files) is None,
{
    reveal_strlit(".");
    let v = stem + "."@ + ext;
    let d = stem + "."@;
    assert(d.last() == '.');
    assert(last_dot(d) == stem.len());
    lemma_last_dot_append(d, ext);
    assert(v == d + ext);
    assert(v.subrange((stem.len() + 1) as int, v.len() as int) =~= ext);
    let reading = plain_reading(v);
    assert(reading.extension == Some(ext));
    assert(is_safe_relative(reading.is_absolute, reading.components)) by {
        assert forall|i: int| 0 <= i < reading.components.len() implies !leaves_directory(#[trigger] reading.components[i]) by {
            assert(reading.components[i] == PathComponent::Normal);
        }
    }
    law_entry_script_formats(v, reading, files);
}

/// An icon whose path stays inside the plugin's directory is accepted when
/// its extension, lower-cased, is `svg`, `png` or `webp` and it names an
/// existing file; with any other extension it is refused as an unsupported
/// format.
pub proof fn law_icon_formats(value: Seq<char>, reading: PathReading, files: FileFacts)
    requires
        is_safe_relative(reading.is_absolute, reading.components),
    ensures
        ({
            let e = extension_of(reading.extension);
            (e == "svg"@ || e == "png"@ || e == "webp"@) && files.is_file ==> icon_failure(value, reading, files)
                is None
        }),
        ({
            let e = extension_of(reading.extension);
            !(e == "svg"@ || e == "png"@ || e == "webp"@) ==> icon_failure(value, reading, files)
                == Some(Failure::Config("unsupported plugin icon format: "@ + value))
        }),
{
}

} // verus!
