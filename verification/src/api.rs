//! The editor API surface exposed to plugin code, and the backend metadata.
//!
//! Every exposed operation is synchronous, asynchronous returning a promise,
//! or asynchronous with a paired cancellation. The trait lists the methods
//! that the interpreter bindings install; the bindings themselves live with
//! the embedding program, which implements them over the host's verified
//! state.

use vstd::prelude::*;
use crate::protocol::PluginCommand;

verus! {

#[verifier::external_type_specification]
#[verifier::external_body]
#[verifier::reject_recursive_types(T)]
pub struct ExSender<T>(std::sync::mpsc::Sender<T>);

/// The kind of an API method.
#[derive(Debug, Clone, Copy, PartialEq, Eq, Structural)]
pub enum ApiMethodKind {
    /// Executes against the read-only state view or computes locally;
    /// returns a value immediately and never blocks on the outbound channel.
    Sync,
    /// Allocates a request identifier, queues a command carrying it and
    /// returns the identifier immediately; the response later resolves the
    /// promise. No cancellation.
    AsyncSimple,
    /// As `AsyncSimple`, plus a paired cancellation entry point keyed by the
    /// same request identifier.
    AsyncThenable,
}

/// The synchronous editor API available to plugin code. Implementations read
/// the editor's state snapshot or compute locally; none of these methods
/// involves a request identifier.
pub trait EditorApi {
    /// Display a message in the status bar.
    fn set_status(&self, message: &str);

    /// The active buffer's identifier.
    fn get_active_buffer_id(&self) -> u32;

    /// The active split's identifier.
    fn get_active_split_id(&self) -> u32;

    /// The primary cursor's byte position in the active buffer.
    fn get_cursor_position(&self) -> u32;

    /// The file path shown for a buffer, empty when it has none.
    fn get_buffer_path(&self, buffer_id: u32) -> String;

    /// A buffer's length in bytes.
    fn get_buffer_length(&self, buffer_id: u32) -> u32;

    /// Whether a buffer has unsaved changes.
    fn is_buffer_modified(&self, buffer_id: u32) -> bool;

    /// The merged configuration as serialized text.
    fn get_config(&self) -> String;

    /// The user's own configuration as serialized text.
    fn get_user_config(&self) -> String;

    /// The configuration directory path.
    fn get_config_dir(&self) -> String;

    /// The themes directory path.
    fn get_themes_dir(&self) -> String;

    /// Joins path segments.
    fn path_join(&self, parts: &[String]) -> String;

    /// The directory part of a path.
    fn path_dirname(&self, path: &str) -> String;

    /// The file-name part of a path.
    fn path_basename(&self, path: &str) -> String;

    /// The extension of a path, with its leading dot.
    fn path_extname(&self, path: &str) -> String;

    /// Whether a path is absolute.
    fn path_is_absolute(&self, path: &str) -> bool;
}

/// The asynchronous side of the editor API: methods that return request
/// identifiers wrapped as promises. An implementation owns the outbound
/// command sender and the identifier allocator.
pub trait EditorApiAsync {
    /// The sender that queued commands leave through.
    fn command_sender(&self) -> &std::sync::mpsc::Sender<PluginCommand>;

    /// Allocates the next request identifier.
    fn next_request_id(&mut self) -> u64;
}

/// A loaded plugin.
#[derive(Debug, Clone)]
pub struct PluginInfo {
    /// The plugin's name.
    pub name: String,
    /// Where its entry file lives.
    pub path: String,
    /// Whether the plugin is in the active set.
    pub enabled: bool,
}

/// A loaded typed-script plugin.
#[derive(Debug, Clone)]
pub struct TsPluginInfo {
    /// The plugin's name.
    pub name: String,
    /// Where its entry file lives.
    pub path: String,
    /// Whether the plugin is in the active set.
    pub enabled: bool,
}

/// The name of the interpreter backend in use.
pub fn backend_name() -> (r: &'static str)
    ensures
        r@ == "QuickJS + oxc"@,
{
    "QuickJS + oxc"
}

/// Whether the interpreter runtime is available: the backend is embedded, so
/// it always is.
pub fn check_runtime_available() -> (r: Result<(), String>)
    ensures
        r is Ok,
{
    Ok(())
}

/// A styled text rendering as raw image data.
pub struct StyledImageResult {
    /// Width in pixels.
    pub width: u32,
    /// Height in pixels.
    pub height: u32,
    /// Pixel data, four bytes per pixel.
    pub rgba_bytes: Vec<u8>,
}

} // verus!
