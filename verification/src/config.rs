//! The user's settings.

use vstd::prelude::*;
use vstd::string::*;

use crate::branding::{DATA_DIR_NAME, DEFAULT_SAVE_SUBDIR};
use crate::clock::LocalTime;
use crate::history::drive_at;
use crate::text::{blank, chars_of};

verus! {

/// Raised only for changes that need migration, not for added fields.
pub const CONFIG_VERSION: u32 = 1;

/// The file that the installer leaves beside the executable.
pub const SEED_FILENAME: &'static str = "first-run.json";

// ---------------------------------------------------------------------------
// Choices
// ---------------------------------------------------------------------------

/// How captured files are named.
#[derive(Debug, Clone, Copy, PartialEq, Eq, Structural)]
pub enum NamingMode {
    /// After the moment of the capture.
    Datetime,
    /// After a prefix and a number that only grows.
    Prefix,
}

/// How captured images are encoded.
#[derive(Debug, Clone, Copy, PartialEq, Eq, Structural)]
pub enum ImageFormat {
    Png,
    Jpeg,
}

impl ImageFormat {
    pub open spec fn spec_extension(self) -> Seq<char> {
        match self {
            ImageFormat::Png => "png"@,
            ImageFormat::Jpeg => "jpg"@,
        }
    }

    /// The file extension, without the dot.
    pub fn extension(self) -> (r: &'static str)
        ensures
            r@ == self.spec_extension(),
            self is Png ==> r@ == "png"@,
            self is Jpeg ==> r@ == "jpg"@,
    {
        match self {
            ImageFormat::Png => "png",
            ImageFormat::Jpeg => "jpg",
        }
    }
}

/// The colours of the user interface.
#[derive(Debug, Clone, Copy, PartialEq, Eq, Structural)]
pub enum Theme {
    System,
    Light,
    Dark,
}

// ---------------------------------------------------------------------------
// Groups of settings
// ---------------------------------------------------------------------------

/// How files are named.
#[derive(Debug)]
pub struct NamingSettings {
    pub mode: NamingMode,
    /// The pattern that a moment is written after.
    pub datetime_pattern: String,
    /// The user's prefix, made fit for a file name where it is used.
    pub prefix: String,
    /// The next number to try.
    pub counter: u32,
    /// The least number of digits. Longer numbers are written in full.
    pub counter_padding: usize,
}

/// What a [`NamingSettings`] holds.
pub struct NamingView {
    pub mode: NamingMode,
    pub datetime_pattern: Seq<char>,
    pub prefix: Seq<char>,
    pub counter: u32,
    pub counter_padding: usize,
}

impl View for NamingSettings {
    type V = NamingView;

    open spec fn view(&self) -> NamingView {
        NamingView {
            mode: self.mode,
            datetime_pattern: self.datetime_pattern@,
            prefix: self.prefix@,
            counter: self.counter,
            counter_padding: self.counter_padding,
        }
    }
}

pub open spec fn default_naming() -> NamingView {
    NamingView {
        mode: NamingMode::Datetime,
        datetime_pattern: "Screenshot_%Y-%m-%d_%H-%M-%S"@,
        prefix: "Screenshot"@,
        counter: 1,
        counter_padding: 3,
    }
}

impl Default for NamingSettings {
    fn default() -> (r: Self)
        ensures
            r@ == default_naming(),
    {
        NamingSettings {
            mode: NamingMode::Datetime,
            datetime_pattern: "Screenshot_%Y-%m-%d_%H-%M-%S".to_owned(),
            prefix: "Screenshot".to_owned(),
            counter: 1,
            counter_padding: 3,
        }
    }
}

impl Clone for NamingSettings {
    fn clone(&self) -> (r: Self)
        ensures
            r@ == self@,
    {
        NamingSettings {
            mode: self.mode,
            datetime_pattern: self.datetime_pattern.clone(),
            prefix: self.prefix.clone(),
            counter: self.counter,
            counter_padding: self.counter_padding,
        }
    }
}

#[derive(Debug, Clone, Copy, PartialEq, Eq, Structural)]
pub struct ClipboardSettings {
    /// Copy every capture to the clipboard.
    pub auto_copy: bool,
}

impl Default for ClipboardSettings {
    fn default() -> (r: Self)
        ensures
            r == (ClipboardSettings { auto_copy: true }),
    {
        ClipboardSettings { auto_copy: true }
    }
}

#[derive(Debug, Clone, Copy, PartialEq, Eq, Structural)]
pub struct StartupSettings {
    /// Run when the user logs in.
    pub launch_on_login: bool,
    /// Start in the tray, with no window.
    pub start_minimised: bool,
}

impl Default for StartupSettings {
    fn default() -> (r: Self)
        ensures
            r == (StartupSettings { launch_on_login: true, start_minimised: true }),
    {
        StartupSettings { launch_on_login: true, start_minimised: true }
    }
}

#[derive(Debug, Clone, Copy, PartialEq, Eq, Structural)]
pub struct WindowSettings {
    /// Closing the main window hides it in the tray.
    pub close_to_tray: bool,
}

impl Default for WindowSettings {
    fn default() -> (r: Self)
        ensures
            r == (WindowSettings { close_to_tray: true }),
    {
        WindowSettings { close_to_tray: true }
    }
}

#[derive(Debug, Clone, Copy, PartialEq, Eq, Structural)]
pub struct NotificationSettings {
    /// Tell the user of each saved capture.
    pub show_saved_toast: bool,
}

impl Default for NotificationSettings {
    fn default() -> (r: Self)
        ensures
            r == (NotificationSettings { show_saved_toast: true }),
    {
        NotificationSettings { show_saved_toast: true }
    }
}

/// The global key combinations.
#[derive(Debug)]
pub struct ShortcutSettings {
    /// Opens the overlay.
    pub capture: String,
    /// Opens the overlay with the rectangle tool.
    pub region: String,
    /// Captures the screen at once.
    pub full_screen: String,
    /// Captures the frontmost window at once.
    pub active_window: String,
}

/// What a [`ShortcutSettings`] holds.
pub struct ShortcutView {
    pub capture: Seq<char>,
    pub region: Seq<char>,
    pub full_screen: Seq<char>,
    pub active_window: Seq<char>,
}

impl View for ShortcutSettings {
    type V = ShortcutView;

    open spec fn view(&self) -> ShortcutView {
        ShortcutView {
            capture: self.capture@,
            region: self.region@,
            full_screen: self.full_screen@,
            active_window: self.active_window@,
        }
    }
}

pub open spec fn default_shortcuts() -> ShortcutView {
    ShortcutView {
        capture: "CommandOrControl+Alt+S"@,
        region: "CommandOrControl+Alt+3"@,
        full_screen: "CommandOrControl+Alt+1"@,
        active_window: "CommandOrControl+Alt+2"@,
    }
}

impl Default for ShortcutSettings {
    fn default() -> (r: Self)
        ensures
            r@ == default_shortcuts(),
    {
        ShortcutSettings {
            capture: "CommandOrControl+Alt+S".to_owned(),
            region: "CommandOrControl+Alt+3".to_owned(),
            full_screen: "CommandOrControl+Alt+1".to_owned(),
            active_window: "CommandOrControl+Alt+2".to_owned(),
        }
    }
}

impl Clone for ShortcutSettings {
    fn clone(&self) -> (r: Self)
        ensures
            r@ == self@,
    {
        ShortcutSettings {
            capture: self.capture.clone(),
            region: self.region.clone(),
            full_screen: self.full_screen.clone(),
            active_window: self.active_window.clone(),
        }
    }
}

#[derive(Debug, Clone, Copy, PartialEq, Eq, Structural)]
pub struct RetentionSettings {
    /// Nothing is ever deleted unless the user asks for it.
    pub enabled: bool,
    pub days: u32,
}

impl Default for RetentionSettings {
    fn default() -> (r: Self)
        ensures
            r == (RetentionSettings { enabled: false, days: 30 }),
    {
        RetentionSettings { enabled: false, days: 30 }
    }
}

/// How the screen is recorded.
#[derive(Debug, Clone, Copy, PartialEq, Eq, Structural)]
pub struct RecordingSettings {
    /// Frames in a second.
    pub fps: u32,
    /// How large the video is, in percent of the area.
    pub scale_percent: u32,
    /// The least number of megabits in a second.
    pub bitrate_mbps: u32,
}

impl Default for RecordingSettings {
    fn default() -> (r: Self)
        ensures
            r == (RecordingSettings { fps: 30, scale_percent: 100, bitrate_mbps: 12 }),
    {
        RecordingSettings { fps: 30, scale_percent: 100, bitrate_mbps: 12 }
    }
}

// ---------------------------------------------------------------------------
// All settings
// ---------------------------------------------------------------------------

/// Everything the user can set.
#[derive(Debug)]
pub struct Settings {
    pub version: u32,
    /// The absolute path that captures are written to.
    pub save_directory: String,
    pub format: ImageFormat,
    /// From 1 to 100. Has no effect on PNG.
    pub jpeg_quality: u8,
    pub theme: Theme,
    pub naming: NamingSettings,
    pub clipboard: ClipboardSettings,
    pub startup: StartupSettings,
    pub window: WindowSettings,
    pub notifications: NotificationSettings,
    pub shortcuts: ShortcutSettings,
    pub retention: RetentionSettings,
    pub recording: RecordingSettings,
}

/// What a [`Settings`] holds.
pub struct SettingsView {
    pub version: u32,
    pub save_directory: Seq<char>,
    pub format: ImageFormat,
    pub jpeg_quality: u8,
    pub theme: Theme,
    pub naming: NamingView,
    pub clipboard: ClipboardSettings,
    pub startup: StartupSettings,
    pub window: WindowSettings,
    pub notifications: NotificationSettings,
    pub shortcuts: ShortcutView,
    pub retention: RetentionSettings,
    pub recording: RecordingSettings,
}

impl View for Settings {
    type V = SettingsView;

    open spec fn view(&self) -> SettingsView {
        SettingsView {
            version: self.version,
            save_directory: self.save_directory@,
            format: self.format,
            jpeg_quality: self.jpeg_quality,
            theme: self.theme,
            naming: self.naming@,
            clipboard: self.clipboard,
            startup: self.startup,
            window: self.window,
            notifications: self.notifications,
            shortcuts: self.shortcuts@,
            retention: self.retention,
            recording: self.recording,
        }
    }
}

impl Clone for Settings {
    fn clone(&self) -> (r: Self)
        ensures
            r@ == self@,
    {
        Settings {
            version: self.version,
            save_directory: self.save_directory.clone(),
            format: self.format,
            jpeg_quality: self.jpeg_quality,
            theme: self.theme,
            naming: self.naming.clone(),
            clipboard: self.clipboard,
            startup: self.startup,
            window: self.window,
            notifications: self.notifications,
            shortcuts: self.shortcuts.clone(),
            retention: self.retention,
            recording: self.recording,
        }
    }
}

/// The settings of a fresh installation whose captures go to `directory`.
pub open spec fn default_settings(directory: Seq<char>) -> SettingsView {
    SettingsView {
        version: CONFIG_VERSION,
        save_directory: directory,
        format: ImageFormat::Png,
        jpeg_quality: 92,
        theme: Theme::System,
        naming: default_naming(),
        clipboard: ClipboardSettings { auto_copy: true },
        startup: StartupSettings { launch_on_login: true, start_minimised: true },
        window: WindowSettings { close_to_tray: true },
        notifications: NotificationSettings { show_saved_toast: true },
        shortcuts: default_shortcuts(),
        retention: RetentionSettings { enabled: false, days: 30 },
        recording: RecordingSettings { fps: 30, scale_percent: 100, bitrate_mbps: 12 },
    }
}

/// The nearest number to `n` from `low` to `high`.
pub open spec fn clamped(n: int, low: int, high: int) -> int {
    if n < low {
        low
    } else if n > high {
        high
    } else {
        n
    }
}

/// How files are named, with every value repaired that could not be used.
pub open spec fn normalised_naming(n: NamingView) -> NamingView {
    NamingView {
        mode: n.mode,
        datetime_pattern: if crate::text::is_blank(n.datetime_pattern) {
            default_naming().datetime_pattern
        } else {
            n.datetime_pattern
        },
        prefix: if crate::text::is_blank(n.prefix) {
            default_naming().prefix
        } else {
            n.prefix
        },
        counter: if n.counter == 0 {
            1
        } else {
            n.counter
        },
        counter_padding: clamped(n.counter_padding as int, 1, 10) as usize,
    }
}

fn repaired_quality(quality: u8) -> (r: u8)
    ensures
        r == clamped(quality as int, 1, 100),
{
    if quality < 1 {
        1
    } else if quality > 100 {
        100
    } else {
        quality
    }
}

impl NamingSettings {
    fn repair(&mut self)
        ensures
            final(self)@ == normalised_naming(old(self)@),
    {
        if self.counter == 0 {
            self.counter = 1;
        }
        if self.counter_padding < 1 {
            self.counter_padding = 1;
        } else if self.counter_padding > 10 {
            self.counter_padding = 10;
        }
        if blank(self.datetime_pattern.as_str()) {
            self.datetime_pattern = "Screenshot_%Y-%m-%d_%H-%M-%S".to_owned();
        }
        if blank(self.prefix.as_str()) {
            self.prefix = "Screenshot".to_owned();
        }
    }
}

/// The settings with every value repaired that could not be used.
pub open spec fn normalised(s: SettingsView, directory: Seq<char>) -> SettingsView {
    SettingsView {
        version: CONFIG_VERSION,
        save_directory: if s.save_directory.len() == 0 {
            directory
        } else {
            s.save_directory
        },
        jpeg_quality: clamped(s.jpeg_quality as int, 1, 100) as u8,
        naming: normalised_naming(s.naming),
        retention: RetentionSettings {
            enabled: s.retention.enabled,
            days: if s.retention.days == 0 {
                1
            } else {
                s.retention.days
            },
        },
        ..s
    }
}

/// Whether no value needs repair.
pub open spec fn is_normal(s: SettingsView) -> bool {
    &&& s.version == CONFIG_VERSION
    &&& s.save_directory.len() > 0
    &&& 1 <= s.jpeg_quality <= 100
    &&& s.naming.counter >= 1
    &&& 1 <= s.naming.counter_padding <= 10
    &&& !crate::text::is_blank(s.naming.datetime_pattern)
    &&& !crate::text::is_blank(s.naming.prefix)
    &&& s.retention.days >= 1
}

/// What came of reading a settings file.
pub enum FileRead {
    /// There is no such file.
    Absent,
    /// There is one, and it holds no settings.
    Unreadable,
    /// The settings in it, as they are written there.
    Parsed(Settings),
}

/// The settings to run with, and what has to be done to the files first.
pub struct Startup {
    pub settings: Settings,
    /// Move the configuration file aside, so that it can be recovered.
    pub quarantine: bool,
    /// Rename the installer's file, so that it is used once only.
    pub consume_seed: bool,
    /// Write the settings to the configuration file.
    pub save: bool,
}

impl Settings {
    /// The settings of a fresh installation whose captures go to `directory`.
    pub fn with_directory(directory: String) -> (r: Settings)
        ensures
            r@ == default_settings(directory@),
            r.version == 1,
            r.save_directory@ == directory@,
            r.format is Png,
            r.jpeg_quality == 92,
            r.theme is System,
            r.naming.mode is Datetime,
            r.naming.datetime_pattern@ == "Screenshot_%Y-%m-%d_%H-%M-%S"@,
            r.naming.prefix@ == "Screenshot"@,
            r.naming.counter == 1,
            r.naming.counter_padding == 3,
            r.clipboard.auto_copy,
            r.startup.launch_on_login,
            r.startup.start_minimised,
            r.window.close_to_tray,
            r.notifications.show_saved_toast,
            r.shortcuts.capture@ == "CommandOrControl+Alt+S"@,
            r.shortcuts.region@ == "CommandOrControl+Alt+3"@,
            r.shortcuts.full_screen@ == "CommandOrControl+Alt+1"@,
            r.shortcuts.active_window@ == "CommandOrControl+Alt+2"@,
            !r.retention.enabled,
            r.retention.days == 30,
            r.recording == (RecordingSettings { fps: 30, scale_percent: 100, bitrate_mbps: 12 }),
    {
        Settings {
            version: CONFIG_VERSION,
            save_directory: directory,
            format: ImageFormat::Png,
            jpeg_quality: 92,
            theme: Theme::System,
            naming: NamingSettings::default(),
            clipboard: ClipboardSettings::default(),
            startup: StartupSettings::default(),
            window: WindowSettings::default(),
            notifications: NotificationSettings::default(),
            shortcuts: ShortcutSettings::default(),
            retention: RetentionSettings::default(),
            recording: RecordingSettings::default(),
        }
    }

    /// Repairs every value that could not be used. An empty save directory
    /// becomes `directory`.
    pub fn normalise(&mut self, directory: &str)
        ensures
            final(self)@ == normalised(old(self)@, directory@),
            final(self).version == 1,
            final(self).save_directory@ == if old(self).save_directory@.len() == 0 {
                directory@
            } else {
                old(self).save_directory@
            },
            final(self).format == old(self).format,
            1 <= final(self).jpeg_quality <= 100,
            1 <= old(self).jpeg_quality <= 100 ==> final(self).jpeg_quality
                == old(self).jpeg_quality,
            final(self).theme == old(self).theme,
            final(self).naming.mode == old(self).naming.mode,
            final(self).naming.counter == if old(self).naming.counter == 0 {
                1
            } else {
                old(self).naming.counter
            },
            1 <= final(self).naming.counter_padding <= 10,
            1 <= old(self).naming.counter_padding <= 10 ==> final(self).naming.counter_padding
                == old(self).naming.counter_padding,
            final(self).clipboard == old(self).clipboard,
            final(self).startup == old(self).startup,
            final(self).window == old(self).window,
            final(self).notifications == old(self).notifications,
            final(self).shortcuts.capture@ == old(self).shortcuts.capture@,
            final(self).shortcuts.region@ == old(self).shortcuts.region@,
            final(self).shortcuts.full_screen@ == old(self).shortcuts.full_screen@,
            final(self).shortcuts.active_window@ == old(self).shortcuts.active_window@,
            final(self).retention.enabled == old(self).retention.enabled,
            final(self).retention.days == if old(self).retention.days == 0 {
                1
            } else {
                old(self).retention.days
            },
            final(self).recording == old(self).recording,
    {
        self.version = CONFIG_VERSION;
        self.jpeg_quality = repaired_quality(self.jpeg_quality);
        self.naming.repair();
        if self.save_directory.as_str().is_empty() {
            self.save_directory = directory.to_owned();
        }
        if self.retention.days == 0 {
            self.retention.days = 1;
        }
    }

    /// The settings to start with.
    ///
    /// An existing configuration wins. On the very first run the installer's
    /// answers are taken, once. A configuration that cannot be read is moved aside
    /// and never stops the start: it goes on with the defaults, as it does where
    /// there is nothing to read.
    pub fn load_or_seed(config: FileRead, seed: FileRead, directory: &str) -> (r: Startup)
        ensures
            r.quarantine == (config is Unreadable),
            r.save == !(config is Parsed),
            r.consume_seed == (config is Absent && seed is Parsed),
            r.settings@ == match (config, seed) {
                (FileRead::Parsed(found), _) => normalised(found@, directory@),
                (FileRead::Absent, FileRead::Parsed(answers)) => normalised(
                    answers@,
                    directory@,
                ),
                _ => default_settings(directory@),
            },
    {
        match config {
            FileRead::Parsed(found) => {
                let mut settings: Settings = found;
                settings.normalise(directory);
                Startup { settings, quarantine: false, consume_seed: false, save: false }
            },
            FileRead::Unreadable => {
                let settings: Settings = Settings::with_directory(directory.to_owned());
                Startup { settings, quarantine: true, consume_seed: false, save: true }
            },
            FileRead::Absent => {
                if let FileRead::Parsed(answers) = seed {
                    let mut settings: Settings = answers;
                    settings.normalise(directory);
                    return Startup {
                        settings,
                        quarantine: false,
                        consume_seed: true,
                        save: true,
                    };
                }
                let settings: Settings = Settings::with_directory(directory.to_owned());
                Startup { settings, quarantine: false, consume_seed: false, save: true }
            },
        }
    }

    /// What to do next to have a directory to write captures to, given what came of
    /// the directories made so far.
    ///
    /// The configured one is made first. Where that fails `fallback` is made, and
    /// only then. Only where that fails too is there no directory.
    pub fn ensure_save_directory(
        &self,
        fallback: &str,
        made: &Vec<Result<(), String>>,
    ) -> (r: DirectoryStep)
        ensures
            r@ == directory_step(self.save_directory@, fallback@, made@),
            made.len() == 0 ==> r is Create && r->Create_0@ == self.save_directory@,
            made.len() > 0 && made@[0] is Ok ==> r is Use && r->Use_0@ == self.save_directory@,
            made.len() == 1 && made@[0] is Err ==> r is Create && r->Create_0@ == fallback@,
            made.len() > 1 && made@[0] is Err && made@[1] is Ok ==> r is Use && r->Use_0@
                == fallback@,
            made.len() > 1 && made@[0] is Err && made@[1] is Err ==> r is Fail && r->Fail_0@
                == "fallback save directory "@ + fallback@ + " unusable: "@ + made@[1]->Err_0@,
    {
        if made.len() == 0 {
            return DirectoryStep::Create(self.save_directory.clone());
        }
        if made[0].is_ok() {
            return DirectoryStep::Use(self.save_directory.clone());
        }
        if made.len() == 1 {
            return DirectoryStep::Create(fallback.to_owned());
        }
        match &made[1] {
            Ok(_) => DirectoryStep::Use(fallback.to_owned()),
            Err(e) => {
                let mut message: String = "fallback save directory ".to_owned();
                message.append(fallback);
                message.append(" unusable: ");
                message.append(e.as_str());
                assert(message@ =~= unusable_fallback(fallback@, e@));
                DirectoryStep::Fail(message)
            },
        }
    }
}

/// A step towards a directory to write captures to.
#[derive(Debug)]
pub enum DirectoryStep {
    /// Make this directory, and the directories above it.
    Create(String),
    /// Write captures here.
    Use(String),
    /// There is no directory, for this reason.
    Fail(String),
}

/// What a [`DirectoryStep`] holds.
pub enum DirectoryStepView {
    Create(Seq<char>),
    Use(Seq<char>),
    Fail(Seq<char>),
}

impl View for DirectoryStep {
    type V = DirectoryStepView;

    open spec fn view(&self) -> DirectoryStepView {
        match *self {
            DirectoryStep::Create(directory) => DirectoryStepView::Create(directory@),
            DirectoryStep::Use(directory) => DirectoryStepView::Use(directory@),
            DirectoryStep::Fail(message) => DirectoryStepView::Fail(message@),
        }
    }
}

/// The step that follows what came of the directories made so far.
pub open spec fn directory_step(
    own: Seq<char>,
    fallback: Seq<char>,
    made: Seq<Result<(), String>>,
) -> DirectoryStepView {
    if made.len() == 0 {
        DirectoryStepView::Create(own)
    } else if made[0] is Ok {
        DirectoryStepView::Use(own)
    } else if made.len() == 1 {
        DirectoryStepView::Create(fallback)
    } else {
        match made[1] {
            Ok(_) => DirectoryStepView::Use(fallback),
            Err(e) => DirectoryStepView::Fail(unusable_fallback(fallback, e@)),
        }
    }
}

pub open spec fn unusable_fallback(directory: Seq<char>, error: Seq<char>) -> Seq<char> {
    "fallback save directory "@ + directory + " unusable: "@ + error
}

/// The path of a name in a folder. `separator` is what the system puts between the
/// two where the folder does not end in one. A drive alone stands for the folder that
/// is the current one on it, and gets none.
pub open spec fn joined(folder: Seq<char>, name: Seq<char>, separator: char) -> Seq<char> {
    if folder.len() == 0 || crate::history::is_separator(folder.last()) || (folder.len() == 2
        && crate::history::has_drive(folder, 0)) {
        folder + name
    } else {
        folder.push(separator) + name
    }
}

/// The path of a name in a folder.
pub fn join_path(folder: &str, name: &str, separator: char) -> (r: String)
    ensures
        r@ == joined(folder@, name@, separator),
        folder@.len() > 0 && (folder@.last() == '/' || folder@.last() == '\\') ==> r@ == folder@
            + name@,
        folder@.len() > 2 && folder@.last() != '/' && folder@.last() != '\\' ==> r@ == folder@
            + seq![separator] + name@,
{
    let chars: Vec<char> = chars_of(folder);
    let mut path: String = folder.to_owned();
    let n: usize = chars.len();
    let is_drive: bool = n == 2 && drive_at(&chars, 0);
    if n > 0 && chars[n - 1] != '/' && chars[n - 1] != '\\' && !is_drive {
        path.push(separator);
    }
    path.append(name);
    assert(folder@.push(separator) =~= folder@ + seq![separator]);
    path
}

/// The folder that a folder of the application goes under: the preferred one, else
/// the user's own, else the current one.
pub open spec fn base_of(preferred: Option<String>, home: Option<String>) -> Seq<char> {
    match (preferred, home) {
        (Some(p), _) => p@,
        (None, Some(h)) => h@,
        (None, None) => "."@,
    }
}

fn base_folder(preferred: Option<String>, home: Option<String>) -> (r: String)
    ensures
        r@ == base_of(preferred, home),
{
    match preferred {
        Some(p) => p,
        None => match home {
            Some(h) => h,
            None => ".".to_owned(),
        },
    }
}

/// Where captures go by default, given the user's folder of pictures.
pub fn default_save_directory(pictures: Option<String>, home: Option<String>, separator: char) ->
    (r: String)
    ensures
        r@ == joined(base_of(pictures, home), DEFAULT_SAVE_SUBDIR@, separator),
        pictures is Some ==> r@ == joined(pictures->0@, "Snipd"@, separator),
        pictures is None && home is Some ==> r@ == joined(home->0@, "Snipd"@, separator),
        pictures is None && home is None ==> r@ == joined("."@, "Snipd"@, separator),
{
    let base: String = base_folder(pictures, home);
    join_path(base.as_str(), DEFAULT_SAVE_SUBDIR, separator)
}

/// Where the application keeps its own files, given the user's folder for
/// settings.
pub fn data_directory(settings: Option<String>, home: Option<String>, separator: char) -> (r:
    String)
    ensures
        r@ == joined(base_of(settings, home), DATA_DIR_NAME@, separator),
        settings is Some ==> r@ == joined(settings->0@, "Snipd"@, separator),
        settings is None && home is Some ==> r@ == joined(home->0@, "Snipd"@, separator),
        settings is None && home is None ==> r@ == joined("."@, "Snipd"@, separator),
{
    let base: String = base_folder(settings, home);
    join_path(base.as_str(), DATA_DIR_NAME, separator)
}

/// The configuration file.
pub fn config_path(data_directory: &str, separator: char) -> (r: String)
    ensures
        r@ == joined(data_directory@, "config.json"@, separator),
{
    join_path(data_directory, "config.json", separator)
}

/// The name that an unreadable configuration is moved to.
pub fn quarantine_name(at: &LocalTime) -> (r: String)
    ensures
        exists|stamp: Seq<char>|
            {
                &&& #[trigger] crate::clock::strftime_text(
                    "%Y%m%d-%H%M%S"@,
                    at.spec_secs(),
                    at.spec_nanos(),
                    at.spec_offset(),
                ) == Some(stamp)
                &&& r@ == "config.corrupt-"@ + stamp + ".json"@
            },
{
    let mut name: String = "config.corrupt-".to_owned();
    proof {
        reveal_strlit("%Y%m%d-%H%M%S");
        reveal_with_fuel(crate::clock::plain_from, 10);
    }
    if let Some(stamp) = at.format("%Y%m%d-%H%M%S") {
        name.append(stamp.as_str());
        name.append(".json");
        assert(name@ =~= "config.corrupt-"@ + stamp@ + ".json"@);
    }
    name
}

// ---------------------------------------------------------------------------
// Laws
// ---------------------------------------------------------------------------

/// There is always somewhere for captures to go.
pub proof fn there_is_always_a_directory(
    pictures: Option<String>,
    home: Option<String>,
    separator: char,
)
    ensures
        joined(base_of(pictures, home), DEFAULT_SAVE_SUBDIR@, separator).len() > 0,
{
    reveal_strlit("Snipd");
}

/// A directory is used only once it was made, and the one to fall back to is made
/// only where the configured one could not be.
pub proof fn directories_are_made_only_if_needed(
    own: Seq<char>,
    fallback: Seq<char>,
    made: Seq<Result<(), String>>,
)
    ensures
        directory_step(own, fallback, made) matches DirectoryStepView::Use(d) ==> exists|k: int|
            {
                &&& 0 <= k < made.len()
                &&& #[trigger] made[k] is Ok
                &&& directory_step(own, fallback, made.take(k)) == DirectoryStepView::Create(d)
            },
        directory_step(own, fallback, made) is Create && made.len() > 0 ==> made[0] is Err,
        made.len() >= 2 ==> !(directory_step(own, fallback, made) is Create),
{
    if made.len() > 0 && made[0] is Ok {
        assert(directory_step(own, fallback, made.take(0)) == DirectoryStepView::Create(own));
    } else if made.len() > 1 && made[1] is Ok {
        assert(made.take(1)[0] == made[0]);
        assert(directory_step(own, fallback, made.take(1)) == DirectoryStepView::Create(fallback));
    }
}

/// Repaired settings need no repair, so repairing twice changes nothing more.
pub proof fn normalise_is_idempotent(s: SettingsView, directory: Seq<char>)
    ensures
        directory.len() > 0 ==> is_normal(normalised(s, directory)),
        normalised(normalised(s, directory), directory) == normalised(s, directory),
{
    reveal_strlit("Screenshot_%Y-%m-%d_%H-%M-%S");
    reveal_strlit("Screenshot");
    assert(!crate::text::is_space("Screenshot_%Y-%m-%d_%H-%M-%S"@[0]));
    assert(!crate::text::is_space("Screenshot"@[0]));
}

/// Settings that need no repair are left as they are.
pub proof fn normal_settings_are_kept(s: SettingsView, directory: Seq<char>)
    requires
        is_normal(s),
    ensures
        normalised(s, directory) == s,
{
}

/// The settings of a fresh installation need no repair.
pub proof fn defaults_are_normal(directory: Seq<char>)
    requires
        directory.len() > 0,
    ensures
        is_normal(default_settings(directory)),
{
    normalise_is_idempotent(default_settings(directory), directory);
    reveal_strlit("Screenshot_%Y-%m-%d_%H-%M-%S");
    reveal_strlit("Screenshot");
    assert(!crate::text::is_space("Screenshot_%Y-%m-%d_%H-%M-%S"@[0]));
    assert(!crate::text::is_space("Screenshot"@[0]));
}

/// The number nearest to another between two limits: the number itself where it lies
/// between them, else the limit that it lies beyond.
pub proof fn numbers_are_kept_within_limits(n: int, low: int, high: int)
    requires
        low <= high,
    ensures
        low <= clamped(n, low, high) <= high,
        low <= n <= high ==> clamped(n, low, high) == n,
        n < low ==> clamped(n, low, high) == low,
        n > high ==> clamped(n, low, high) == high,
{
}

/// Only what cannot be used is repaired: the version, an empty folder, a quality
/// outside 1 to 100, a blank pattern or prefix, a number of zero, fewer than one or
/// more than ten digits, and no days. Everything else is kept.
pub proof fn only_what_cannot_be_used_is_repaired(s: SettingsView, directory: Seq<char>)
    ensures
        ({
            let n = normalised(s, directory);
            &&& n.version == 1
            &&& s.save_directory.len() > 0 ==> n.save_directory == s.save_directory
            &&& s.save_directory.len() == 0 ==> n.save_directory == directory
            &&& n.format == s.format
            &&& s.jpeg_quality == 0 ==> n.jpeg_quality == 1
            &&& 1 <= s.jpeg_quality <= 100 ==> n.jpeg_quality == s.jpeg_quality
            &&& s.jpeg_quality > 100 ==> n.jpeg_quality == 100
            &&& n.theme == s.theme
            &&& n.naming.mode == s.naming.mode
            &&& crate::text::is_blank(s.naming.datetime_pattern) ==> n.naming.datetime_pattern
                == "Screenshot_%Y-%m-%d_%H-%M-%S"@
            &&& !crate::text::is_blank(s.naming.datetime_pattern) ==> n.naming.datetime_pattern
                == s.naming.datetime_pattern
            &&& crate::text::is_blank(s.naming.prefix) ==> n.naming.prefix == "Screenshot"@
            &&& !crate::text::is_blank(s.naming.prefix) ==> n.naming.prefix == s.naming.prefix
            &&& s.naming.counter == 0 ==> n.naming.counter == 1
            &&& s.naming.counter > 0 ==> n.naming.counter == s.naming.counter
            &&& s.naming.counter_padding == 0 ==> n.naming.counter_padding == 1
            &&& 1 <= s.naming.counter_padding <= 10 ==> n.naming.counter_padding
                == s.naming.counter_padding
            &&& s.naming.counter_padding > 10 ==> n.naming.counter_padding == 10
            &&& n.clipboard == s.clipboard
            &&& n.startup == s.startup
            &&& n.window == s.window
            &&& n.notifications == s.notifications
            &&& n.shortcuts == s.shortcuts
            &&& n.retention.enabled == s.retention.enabled
            &&& s.retention.days == 0 ==> n.retention.days == 1
            &&& s.retention.days > 0 ==> n.retention.days == s.retention.days
            &&& n.recording == s.recording
        }),
{
}

/// What a fresh installation starts with, whatever its folder.
pub proof fn a_fresh_installation_starts_with(directory: Seq<char>)
    ensures
        ({
            let d = default_settings(directory);
            &&& d.version == 1
            &&& d.save_directory == directory
            &&& d.format is Png
            &&& d.jpeg_quality == 92
            &&& d.theme is System
            &&& d.naming.mode is Datetime
            &&& d.naming.datetime_pattern == "Screenshot_%Y-%m-%d_%H-%M-%S"@
            &&& d.naming.prefix == "Screenshot"@
            &&& d.naming.counter == 1
            &&& d.naming.counter_padding == 3
            &&& d.clipboard.auto_copy
            &&& d.startup.launch_on_login
            &&& d.startup.start_minimised
            &&& d.window.close_to_tray
            &&& d.notifications.show_saved_toast
            &&& d.shortcuts.capture == "CommandOrControl+Alt+S"@
            &&& d.shortcuts.region == "CommandOrControl+Alt+3"@
            &&& d.shortcuts.full_screen == "CommandOrControl+Alt+1"@
            &&& d.shortcuts.active_window == "CommandOrControl+Alt+2"@
            &&& !d.retention.enabled
            &&& d.retention.days == 30
            &&& d.recording.fps == 30
            &&& d.recording.scale_percent == 100
            &&& d.recording.bitrate_mbps == 12
        }),
{
}

/// The configured folder is made first. It is used where that worked, whatever else
/// was made, and otherwise the other one is, in the same way. Where neither could be
/// made, the words say why the second could not.
pub proof fn the_configured_folder_goes_first(
    own: Seq<char>,
    fallback: Seq<char>,
    made: Seq<Result<(), String>>,
)
    ensures
        made.len() == 0 ==> directory_step(own, fallback, made) == DirectoryStepView::Create(own),
        made.len() > 0 && made[0] is Ok ==> directory_step(own, fallback, made)
            == DirectoryStepView::Use(own),
        made.len() == 1 && made[0] is Err ==> directory_step(own, fallback, made)
            == DirectoryStepView::Create(fallback),
        made.len() > 1 && made[0] is Err && made[1] is Ok ==> directory_step(own, fallback, made)
            == DirectoryStepView::Use(fallback),
        made.len() > 1 && made[0] is Err && made[1] is Err ==> directory_step(own, fallback, made)
            == DirectoryStepView::Fail(
            "fallback save directory "@ + fallback + " unusable: "@ + made[1]->Err_0@,
        ),
{
}

/// A name goes behind its folder with one separator between them: the folder's own
/// where it ends in one, else that of the system. Nothing goes between a name and no
/// folder, nor behind a drive alone.
pub proof fn names_go_behind_their_folder(folder: Seq<char>, name: Seq<char>, separator: char)
    ensures
        folder.len() == 0 ==> joined(folder, name, separator) == name,
        folder.len() > 0 && (folder.last() == '/' || folder.last() == '\\') ==> joined(
            folder,
            name,
            separator,
        ) == folder + name,
        folder.len() == 2 && folder[1] == ':' && ('a' <= folder[0] <= 'z' || 'A' <= folder[0]
            <= 'Z') ==> joined(folder, name, separator) == folder + name,
        folder.len() > 0 && folder.last() != '/' && folder.last() != '\\' && !(folder.len() == 2
            && folder[1] == ':' && ('a' <= folder[0] <= 'z' || 'A' <= folder[0] <= 'Z')) ==> joined(
            folder,
            name,
            separator,
        ) == folder + seq![separator] + name,
{
    assert(folder.push(separator) =~= folder + seq![separator]);
    if folder.len() == 0 {
        assert(folder + name =~= name);
    }
}

/// The preferred folder goes before the user's own, and that before the current one.
/// Each format has its extension.
pub proof fn preferred_folders_go_first(preferred: Option<String>, home: Option<String>)
    ensures
        preferred is Some ==> base_of(preferred, home) == preferred->0@,
        preferred is None && home is Some ==> base_of(preferred, home) == home->0@,
        preferred is None && home is None ==> base_of(preferred, home) == "."@,
        ImageFormat::Png.spec_extension() == "png"@,
        ImageFormat::Jpeg.spec_extension() == "jpg"@,
{
}

/// What is shown of settings is what they hold.
pub proof fn settings_are_shown_as_they_are(s: Settings)
    ensures
        s@.version == s.version,
        s@.save_directory == s.save_directory@,
        s@.format == s.format,
        s@.jpeg_quality == s.jpeg_quality,
        s@.theme == s.theme,
        s@.naming == s.naming@,
        s.naming@.mode == s.naming.mode,
        s.naming@.datetime_pattern == s.naming.datetime_pattern@,
        s.naming@.prefix == s.naming.prefix@,
        s.naming@.counter == s.naming.counter,
        s.naming@.counter_padding == s.naming.counter_padding,
        s@.clipboard == s.clipboard,
        s@.startup == s.startup,
        s@.window == s.window,
        s@.notifications == s.notifications,
        s@.shortcuts == s.shortcuts@,
        s.shortcuts@.capture == s.shortcuts.capture@,
        s.shortcuts@.region == s.shortcuts.region@,
        s.shortcuts@.full_screen == s.shortcuts.full_screen@,
        s.shortcuts@.active_window == s.shortcuts.active_window@,
        s@.retention == s.retention,
        s@.recording == s.recording,
{
}

/// What is shown of a step is what it holds.
pub proof fn steps_are_shown_as_they_are(step: DirectoryStep)
    ensures
        step is Create ==> step@ == DirectoryStepView::Create(step->Create_0@),
        step is Use ==> step@ == DirectoryStepView::Use(step->Use_0@),
        step is Fail ==> step@ == DirectoryStepView::Fail(step->Fail_0@),
{
}

} // verus!
