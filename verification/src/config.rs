//! Configuration data: the engine's server configuration and the desktop
//! front end's editor and appearance settings, with their defaults. Reading
//! and writing configuration files happens outside the core; the core owns
//! the values and their defaults.

use vstd::prelude::*;

verus! {

/// The engine's server configuration, as the configuration file holds it.
pub struct ServerConfig {
    /// Address to bind.
    pub ip: String,
    /// Port to bind.
    pub port: u16,
    /// Whether the audio engine starts.
    pub audio_engine: bool,
    /// Audio sample rate, frames per second.
    pub sample_rate: u32,
    /// Audio block size, frames.
    pub block_size: u32,
    /// Audio buffer size, frames.
    pub buffer_size: u32,
    /// Most audio buffers held at once.
    pub max_audio_buffers: u32,
    /// Most simultaneous voices.
    pub max_voices: u32,
    /// The audio output device, when pinned.
    pub output_device: Option<String>,
    /// Port for outgoing control messages.
    pub osc_port: u16,
    /// Host for outgoing control messages.
    pub osc_host: String,
    /// Tolerance for late messages, in milliseconds.
    pub timestamp_tolerance_ms: u64,
    /// Where audio files are read from.
    pub audio_files_location: String,
    /// Priority of the audio thread.
    pub audio_priority: u8,
    /// Relay endpoint, when relaying.
    pub relay: Option<String>,
    /// Name of this instance.
    pub instance_name: String,
    /// Relay credential, when relaying.
    pub relay_token: Option<String>,
}

impl ServerConfig {
    /// The defaults written when no configuration file exists.
    pub fn default_config() -> (r: ServerConfig)
        ensures
            r.ip@ == "0.0.0.0"@,
            r.port == 8080u16,
            !r.audio_engine,
            r.sample_rate == 44100u32,
            r.block_size == 512u32,
            r.buffer_size == 1024u32,
            r.max_audio_buffers == 2048u32,
            r.max_voices == 128u32,
            r.output_device is None,
            r.osc_port == 12345u16,
            r.osc_host@ == "127.0.0.1"@,
            r.timestamp_tolerance_ms == 1000u64,
            r.audio_files_location@ == "./samples"@,
            r.audio_priority == 80u8,
            r.relay is None,
            r.instance_name@ == "local"@,
            r.relay_token is None,
    {
        ServerConfig {
            ip: String::from_str("0.0.0.0"),
            port: 8080,
            audio_engine: false,
            sample_rate: 44100,
            block_size: 512,
            buffer_size: 1024,
            max_audio_buffers: 2048,
            max_voices: 128,
            output_device: None,
            osc_port: 12345,
            osc_host: String::from_str("127.0.0.1"),
            timestamp_tolerance_ms: 1000,
            audio_files_location: String::from_str("./samples"),
            audio_priority: 80,
            relay: None,
            instance_name: String::from_str("local"),
            relay_token: None,
        }
    }
}

impl Default for ServerConfig {
    /// The defaults written when no configuration file exists.
    fn default() -> (r: ServerConfig)
        ensures
            r.port == 8080u16,
            !r.audio_engine,
            r.sample_rate == 44100u32,
    {
        ServerConfig::default_config()
    }
}

/// The desktop editor's settings. Sizes are whole numbers; the blink rate is
/// in milliseconds.
pub struct EditorConfig {
    /// Font size in points.
    pub font_size: u32,
    /// Whether line numbers show.
    pub show_line_numbers: bool,
    /// Whether long lines wrap.
    pub line_wrapping: bool,
    /// Whether the active line is highlighted.
    pub highlight_active_line: bool,
    /// Cursor blink period, milliseconds.
    pub cursor_blink_rate: u32,
    /// Spaces per tab stop.
    pub tab_size: u32,
    /// The text inserted per indent level.
    pub indent_unit: String,
    /// Whether tabs are used instead of spaces.
    pub use_tabs: bool,
    /// Whether brackets close themselves.
    pub close_brackets: bool,
    /// Whether matching brackets are highlighted.
    pub bracket_matching: bool,
    /// Whether completion is offered.
    pub autocomplete: bool,
}

impl Default for EditorConfig {
    /// The editor's defaults.
    fn default() -> (r: EditorConfig)
        ensures
            r.font_size == 14u32,
            r.show_line_numbers,
            !r.line_wrapping,
            r.highlight_active_line,
            r.cursor_blink_rate == 1200u32,
            r.tab_size == 4u32,
            r.indent_unit@ == "  "@,
            !r.use_tabs,
            r.close_brackets,
            r.bracket_matching,
            r.autocomplete,
    {
        EditorConfig {
            font_size: 14,
            show_line_numbers: true,
            line_wrapping: false,
            highlight_active_line: true,
            cursor_blink_rate: 1200,
            tab_size: 4,
            indent_unit: String::from_str("  "),
            use_tabs: false,
            close_brackets: true,
            bracket_matching: true,
            autocomplete: true,
        }
    }
}

/// The desktop front end's appearance settings.
pub struct AppearanceConfig {
    /// Name of the color theme.
    pub theme: String,
    /// Window opacity in percent.
    pub transparency: u8,
}

impl Default for AppearanceConfig {
    /// The appearance defaults.
    fn default() -> (r: AppearanceConfig)
        ensures
            r.theme@ == "monokai"@,
            r.transparency == 100u8,
    {
        AppearanceConfig { theme: String::from_str("monokai"), transparency: 100 }
    }
}

/// The desktop front end's configuration.
pub struct Config {
    /// Editor settings.
    pub editor: EditorConfig,
    /// Appearance settings.
    pub appearance: AppearanceConfig,
}

impl Default for Config {
    /// The front end's defaults.
    fn default() -> (r: Config)
        ensures
            r.editor.font_size == 14u32,
            r.appearance.transparency == 100u8,
    {
        Config { editor: EditorConfig::default(), appearance: AppearanceConfig::default() }
    }
}

} // verus!
