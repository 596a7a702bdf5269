//! Settings of the console itself, and how they are kept.
use vstd::prelude::*;
use vstd::string::*;

use crate::float::Float64;

verus! {

pub const DEFAULT_LOCAL_CTRL_PORT: u16 = 3001;

/// Some commands take about three seconds, so replies are waited for longer than that.
pub const DEFAULT_TIMEOUT_MS: u64 = 5000;

pub const DEFAULT_POLL_INTERVAL_MS: u64 = 2000;

pub const DEFAULT_CAPTURE_FRAMES_PER_PORT: usize = 1000;

pub const DEFAULT_FFT_SIZE: usize = 8192;

pub const DEFAULT_CAPTURE_TIMEOUT_MS: u64 = 5000;

/// Bit pattern of 360.0.
pub const DEFAULT_LO_MHZ_BITS: u64 = 0x4076_8000_0000_0000;

/// What a capture does unless it is asked for something else.
#[derive(Clone, Debug)]
pub struct CaptureDefaults {
    pub frames_per_port: usize,
    pub fft_size: usize,
    pub window: String,
    pub timeout_ms: u64,
}

/// Settings of the console.
#[derive(Clone, Debug)]
pub struct Config {
    pub local_ctrl_port: u16,
    pub timeout_ms: u64,
    pub poll_interval_ms: u64,
    /// `gps` for the receiver on the board, `ext_clk` for an external reference.
    pub clock_source: String,
    /// Frequency of the local oscillator in MHz: a spectrum's axis is shifted by it, and
    /// initialising sets the mixers to it.
    pub lo_mhz: Float64,
    /// Control address of the device that was selected last.
    pub selected_device: Option<String>,
    pub capture: CaptureDefaults,
}

pub fn default_local_ctrl_port() -> (r: u16)
    ensures
        r == DEFAULT_LOCAL_CTRL_PORT,
{
    DEFAULT_LOCAL_CTRL_PORT
}

pub fn default_timeout_ms() -> (r: u64)
    ensures
        r == DEFAULT_TIMEOUT_MS,
{
    DEFAULT_TIMEOUT_MS
}

pub fn default_poll_interval_ms() -> (r: u64)
    ensures
        r == DEFAULT_POLL_INTERVAL_MS,
{
    DEFAULT_POLL_INTERVAL_MS
}

pub fn default_clock_source() -> (r: String)
    ensures
        r@ == "gps"@,
{
    "gps".to_string()
}

pub fn default_lo_mhz() -> (r: Float64)
    ensures
        r.bits == DEFAULT_LO_MHZ_BITS,
{
    Float64 { bits: DEFAULT_LO_MHZ_BITS }
}

pub fn default_capture_frames() -> (r: usize)
    ensures
        r == DEFAULT_CAPTURE_FRAMES_PER_PORT,
{
    DEFAULT_CAPTURE_FRAMES_PER_PORT
}

pub fn default_fft_size() -> (r: usize)
    ensures
        r == DEFAULT_FFT_SIZE,
{
    DEFAULT_FFT_SIZE
}

pub fn default_capture_timeout_ms() -> (r: u64)
    ensures
        r == DEFAULT_CAPTURE_TIMEOUT_MS,
{
    DEFAULT_CAPTURE_TIMEOUT_MS
}

pub fn default_window() -> (r: String)
    ensures
        r@ == "hann"@,
{
    "hann".to_string()
}

impl CaptureDefaults {
    /// These are the built-in values.
    pub open spec fn is_default(&self) -> bool {
        &&& self.frames_per_port == DEFAULT_CAPTURE_FRAMES_PER_PORT
        &&& self.fft_size == DEFAULT_FFT_SIZE
        &&& self.window@ == "hann"@
        &&& self.timeout_ms == DEFAULT_CAPTURE_TIMEOUT_MS
    }
}

impl Default for CaptureDefaults {
    fn default() -> (r: Self)
        ensures
            r.is_default(),
    {
        CaptureDefaults {
            frames_per_port: DEFAULT_CAPTURE_FRAMES_PER_PORT,
            fft_size: DEFAULT_FFT_SIZE,
            window: default_window(),
            timeout_ms: DEFAULT_CAPTURE_TIMEOUT_MS,
        }
    }
}

impl Default for Config {
    fn default() -> (r: Self)
        ensures
            r.is_default(),
    {
        Config {
            local_ctrl_port: DEFAULT_LOCAL_CTRL_PORT,
            timeout_ms: DEFAULT_TIMEOUT_MS,
            poll_interval_ms: DEFAULT_POLL_INTERVAL_MS,
            clock_source: default_clock_source(),
            lo_mhz: default_lo_mhz(),
            selected_device: None,
            capture: CaptureDefaults::default(),
        }
    }
}

/// The directory that a path starts from.
#[derive(Clone, Copy, Debug, PartialEq, Eq, Structural)]
pub enum PathBase {
    /// The one that `XDG_CONFIG_HOME` names.
    XdgConfigHome,
    /// The one that `HOME` names.
    Home,
    /// The one that the program runs in.
    Current,
}

/// Where a file is kept: a base directory, and what to append to it, one part after the other.
#[derive(Clone, Debug)]
pub struct FilePath {
    pub base: PathBase,
    pub parts: Vec<String>,
}

/// The base directory, given which of `XDG_CONFIG_HOME` and `HOME` are set.
pub open spec fn base_for(xdg_set: bool, home_set: bool) -> PathBase {
    if xdg_set {
        PathBase::XdgConfigHome
    } else if home_set {
        PathBase::Home
    } else {
        PathBase::Current
    }
}

/// The directories below `base` that the console's files are kept in.
pub open spec fn directories(base: PathBase) -> Seq<Seq<char>> {
    match base {
        PathBase::Home => seq![".config"@, "syncdaq_web"@],
        _ => seq!["syncdaq_web"@],
    }
}

impl FilePath {
    /// This is the path of the file `name`.
    pub open spec fn leads_to(&self, xdg_set: bool, home_set: bool, name: Seq<char>) -> bool {
        &&& self.base == base_for(xdg_set, home_set)
        &&& crate::text::views(self.parts@) == directories(self.base).push(name)
    }
}

/// The path of the console's file `name`.
pub(crate) fn file_path(xdg_set: bool, home_set: bool, name: &str) -> (p: FilePath)
    ensures
        p.leads_to(xdg_set, home_set, name@),
{
    let base = if xdg_set {
        PathBase::XdgConfigHome
    } else if home_set {
        PathBase::Home
    } else {
        PathBase::Current
    };
    let mut parts: Vec<String> = Vec::new();
    if base == PathBase::Home {
        parts.push(".config".to_string());
    }
    parts.push("syncdaq_web".to_string());
    parts.push(name.to_string());
    assert(crate::text::views(parts@) =~= directories(base).push(name@));
    FilePath { base, parts }
}

/// What reading a file came to.
#[derive(Clone, Debug)]
pub enum Stored<T> {
    /// The file was read and understood.
    Parsed(T),
    /// The file was read, but what it holds is no such value.
    Malformed,
    /// The file could not be read.
    Unreadable,
}

/// What happened while settings are written to their file.
#[derive(Clone, Copy, Debug, PartialEq, Eq, Structural)]
pub enum SaveEvent {
    /// Writing is to begin; the file may lie in a directory.
    Begin { in_dir: bool },
    /// The directory was made, or not.
    DirMade { ok: bool },
    /// The settings were put into text, or not.
    Rendered { ok: bool },
    /// The text was written, or not.
    Written { ok: bool },
}

/// What could not be done.
#[derive(Clone, Copy, Debug, PartialEq, Eq, Structural)]
pub enum SaveFault {
    Dir,
    Render,
    Write,
}

/// What to do next to write settings to their file.
#[derive(Clone, Copy, Debug, PartialEq, Eq, Structural)]
pub enum SaveAction {
    MakeDir,
    Render,
    Write,
    /// Say what went wrong, and give up.
    Report(SaveFault),
    Done,
}

/// How the console's settings are written: nothing is passed over.
pub open spec fn careful_save(event: SaveEvent) -> SaveAction {
    match event {
        SaveEvent::Begin { in_dir } => if in_dir {
            SaveAction::MakeDir
        } else {
            SaveAction::Render
        },
        SaveEvent::DirMade { ok } => if ok {
            SaveAction::Render
        } else {
            SaveAction::Report(SaveFault::Dir)
        },
        SaveEvent::Rendered { ok } => if ok {
            SaveAction::Write
        } else {
            SaveAction::Report(SaveFault::Render)
        },
        SaveEvent::Written { ok } => if ok {
            SaveAction::Done
        } else {
            SaveAction::Report(SaveFault::Write)
        },
    }
}

/// `r` is what to start with, and whether to write it, given what reading the file came to.
pub open spec fn loads(stored: Stored<Config>, r: (Config, bool)) -> bool {
    match stored {
        Stored::Parsed(c) => r == (c, false),
        Stored::Malformed => r.0.is_default() && !r.1,
        Stored::Unreadable => r.0.is_default() && r.1,
    }
}

/// Where there is no file, the settings to start with are written to it; once the file gives back
/// what was written, the next start has the same settings and writes nothing.
pub proof fn law_the_first_start_is_repeated(first: (Config, bool), next: (Config, bool))
    requires
        loads(Stored::Unreadable, first),
        loads(Stored::Parsed(first.0), next),
    ensures
        first.1,
        next.0 == first.0,
        next.0.is_default(),
        !next.1,
{
}

/// Nothing is written but what was put into text, and nothing is put into text for a directory that
/// could not be made.
pub proof fn law_only_rendered_settings_are_written(event: SaveEvent)
    ensures
        careful_save(event) is Write ==> event == (SaveEvent::Rendered { ok: true }),
        careful_save(event) is Render ==> event == (SaveEvent::Begin { in_dir: false }) || event
            == (SaveEvent::DirMade { ok: true }),
{
}

impl Config {
    /// These are the built-in settings.
    pub open spec fn is_default(&self) -> bool {
        &&& self.local_ctrl_port == DEFAULT_LOCAL_CTRL_PORT
        &&& self.timeout_ms == DEFAULT_TIMEOUT_MS
        &&& self.poll_interval_ms == DEFAULT_POLL_INTERVAL_MS
        &&& self.clock_source@ == "gps"@
        &&& self.lo_mhz.bits == DEFAULT_LO_MHZ_BITS
        &&& self.selected_device is None
        &&& self.capture.is_default()
    }

    /// Where the settings are kept, given which of `XDG_CONFIG_HOME` and `HOME` are set.
    pub fn path(xdg_set: bool, home_set: bool) -> (p: FilePath)
        ensures
            p.leads_to(xdg_set, home_set, "config.yaml"@),
    {
        file_path(xdg_set, home_set, "config.yaml")
    }

    /// The settings to start with, given what reading their file came to, and whether to write
    /// them to the file right away: only where there was none to read.
    pub fn load(stored: Stored<Config>) -> (r: (Config, bool))
        ensures
            loads(stored, r),
    {
        match stored {
            Stored::Parsed(c) => (c, false),
            Stored::Malformed => (Config::default(), false),
            Stored::Unreadable => (Config::default(), true),
        }
    }

    /// What to do next to write the settings to their file.
    pub fn save(event: SaveEvent) -> (a: SaveAction)
        ensures
            a == careful_save(event),
    {
        match event {
            SaveEvent::Begin { in_dir } => if in_dir {
                SaveAction::MakeDir
            } else {
                SaveAction::Render
            },
            SaveEvent::DirMade { ok } => if ok {
                SaveAction::Render
            } else {
                SaveAction::Report(SaveFault::Dir)
            },
            SaveEvent::Rendered { ok } => if ok {
                SaveAction::Write
            } else {
                SaveAction::Report(SaveFault::Render)
            },
            SaveEvent::Written { ok } => if ok {
                SaveAction::Done
            } else {
                SaveAction::Report(SaveFault::Write)
            },
        }
    }
}

/// Writing the console's settings stops at the first thing that fails, and reports it.
pub proof fn law_every_failure_is_reported(event: SaveEvent)
    ensures
        event == (SaveEvent::Begin { in_dir: true }) <==> careful_save(event) is MakeDir,
        event == (SaveEvent::DirMade { ok: false }) <==> careful_save(event) == SaveAction::Report(
            SaveFault::Dir,
        ),
        event == (SaveEvent::Rendered { ok: true }) <==> careful_save(event) is Write,
        event == (SaveEvent::Rendered { ok: false }) <==> careful_save(event)
            == SaveAction::Report(SaveFault::Render),
        event == (SaveEvent::Written { ok: false }) <==> careful_save(event) == SaveAction::Report(
            SaveFault::Write,
        ),
        event == (SaveEvent::Written { ok: true }) <==> careful_save(event) is Done,
{
}

/// A file lies in `syncdaq_web` below the directory that `XDG_CONFIG_HOME` names; without that, in
/// `.config/syncdaq_web` below the one that `HOME` names; without either, in `syncdaq_web` where the
/// program runs.
pub proof fn law_files_have_their_place(
    p: FilePath,
    xdg_set: bool,
    home_set: bool,
    name: Seq<char>,
)
    requires
        p.leads_to(xdg_set, home_set, name),
    ensures
        xdg_set <==> p.base is XdgConfigHome,
        !xdg_set && home_set <==> p.base is Home,
        !xdg_set && !home_set <==> p.base is Current,
        p.base is Home ==> p.parts@.len() == 3 && p.parts@[0]@ == ".config"@ && p.parts@[1]@
            == "syncdaq_web"@ && p.parts@[2]@ == name,
        !(p.base is Home) ==> p.parts@.len() == 2 && p.parts@[0]@ == "syncdaq_web"@ && p.parts@[1]@
            == name,
{
    let v = crate::text::views(p.parts@);
    assert(v.len() == p.parts@.len());
    assert(forall|i: int| 0 <= i < v.len() ==> #[trigger] v[i] == p.parts@[i]@);
    if p.base is Home {
        assert(v[0] == ".config"@ && v[1] == "syncdaq_web"@ && v[2] == name);
    } else {
        assert(v[0] == "syncdaq_web"@ && v[1] == name);
    }
}

/// Settings that were read are kept as they are; where they could not be understood the built-in ones
/// stand in, and the file keeps its text.
pub proof fn law_a_file_is_only_written_where_there_was_none(
    stored: Stored<Config>,
    r: (Config, bool),
)
    requires
        loads(stored, r),
    ensures
        r.1 <==> stored is Unreadable,
        stored is Parsed ==> r.0 == stored->Parsed_0,
        !(stored is Parsed) ==> {
            &&& r.0.local_ctrl_port == 3001
            &&& r.0.timeout_ms == 5000
            &&& r.0.poll_interval_ms == 2000
            &&& r.0.clock_source@ == "gps"@
            &&& r.0.lo_mhz.bits == 0x4076_8000_0000_0000
            &&& r.0.selected_device is None
            &&& r.0.capture.frames_per_port == 1000
            &&& r.0.capture.fft_size == 8192
            &&& r.0.capture.window@ == "hann"@
            &&& r.0.capture.timeout_ms == 5000
        },
{
}

} // verus!
