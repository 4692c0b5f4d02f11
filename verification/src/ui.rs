//! Pure user-interface state that the terminal front ends share: the page
//! map and its navigation, the editor buffer summary, screen flash timing,
//! the connection summary a client shows, and small display helpers.

use vstd::prelude::*;
use crate::SyncTime;

verus! {

/// The pages of the terminal front end, laid out on a small map; arrow
/// moves walk the map.
#[derive(Clone, Copy, PartialEq, Eq, Structural, Debug)]
pub enum Page {
    /// The scene grid.
    Scene,
    /// The device list.
    Devices,
    /// The script editor.
    Edit,
    /// The configuration page.
    Configure,
    /// The clock page.
    Time,
    /// The log view.
    Logs,
    /// The variable view.
    Vars,
}

impl Page {
    /// Move one page left on the map.
    pub fn left(&mut self)
        ensures
            *final(self) == match *old(self) {
                Page::Scene => Page::Devices,
                Page::Devices => Page::Devices,
                Page::Edit => Page::Scene,
                Page::Configure => Page::Time,
                Page::Time => Page::Time,
                Page::Logs => Page::Logs,
                Page::Vars => Page::Logs,
            },
    {
        *self = match self {
            Page::Scene => Page::Devices,
            Page::Devices => Page::Devices,
            Page::Edit => Page::Scene,
            Page::Configure => Page::Time,
            Page::Time => Page::Time,
            Page::Logs => Page::Logs,
            Page::Vars => Page::Logs,
        };
    }

    /// Move one page right on the map.
    pub fn right(&mut self)
        ensures
            *final(self) == match *old(self) {
                Page::Scene => Page::Edit,
                Page::Devices => Page::Scene,
                Page::Edit => Page::Edit,
                Page::Configure => Page::Configure,
                Page::Time => Page::Configure,
                Page::Logs => Page::Vars,
                Page::Vars => Page::Vars,
            },
    {
        *self = match self {
            Page::Scene => Page::Edit,
            Page::Devices => Page::Scene,
            Page::Edit => Page::Edit,
            Page::Configure => Page::Configure,
            Page::Time => Page::Configure,
            Page::Logs => Page::Vars,
            Page::Vars => Page::Vars,
        };
    }

    /// Move one page up on the map.
    pub fn up(&mut self)
        ensures
            *final(self) == match *old(self) {
                Page::Scene => Page::Configure,
                Page::Devices => Page::Time,
                Page::Edit => Page::Edit,
                Page::Configure => Page::Configure,
                Page::Time => Page::Time,
                Page::Logs => Page::Scene,
                Page::Vars => Page::Edit,
            },
    {
        *self = match self {
            Page::Scene => Page::Configure,
            Page::Devices => Page::Time,
            Page::Edit => Page::Edit,
            Page::Configure => Page::Configure,
            Page::Time => Page::Time,
            Page::Logs => Page::Scene,
            Page::Vars => Page::Edit,
        };
    }

    /// Move one page down on the map.
    pub fn down(&mut self)
        ensures
            *final(self) == match *old(self) {
                Page::Scene => Page::Logs,
                Page::Devices => Page::Devices,
                Page::Edit => Page::Vars,
                Page::Configure => Page::Scene,
                Page::Time => Page::Devices,
                Page::Logs => Page::Logs,
                Page::Vars => Page::Vars,
            },
    {
        *self = match self {
            Page::Scene => Page::Logs,
            Page::Devices => Page::Devices,
            Page::Edit => Page::Vars,
            Page::Configure => Page::Scene,
            Page::Time => Page::Devices,
            Page::Logs => Page::Logs,
            Page::Vars => Page::Vars,
        };
    }
}

/// The clock page of the terminal front end.
pub struct TimeWidget;

impl TimeWidget {
    /// The key help shown beside the clock page.
    pub fn get_help() -> (r: &'static str)
        ensures
            r@.len() > 0,
    {
        let r = "\
        T: Configure tempo     Up: Increase tempo     Space: Play/Pause \n\
        Q: Configure quantum   Down: decrease tempo                     \n\
        R: Reset beat          S: Start/Stop sync                       \n\
        ";
        proof {
            reveal_strlit("\
        T: Configure tempo     Up: Increase tempo     Space: Play/Pause \n\
        Q: Configure quantum   Down: decrease tempo                     \n\
        R: Reset beat          S: Start/Stop sync                       \n\
        ");
        }
        r
    }
}

/// The device page of the terminal front end.
pub struct DevicesComponent;

impl DevicesComponent {
    /// A fresh device page.
    pub fn new() -> (r: DevicesComponent)
    {
        DevicesComponent
    }

    /// The spinner character for an elapsed time, cycling once every six
    /// hundred milliseconds.
    pub fn get_animation_char(elapsed_ms: u128) -> (r: &'static str)
        ensures
            r@ == ({
                let phase = (elapsed_ms as int / 150) % 4;
                if phase == 0 { "|"@ }
                else if phase == 1 { "/"@ }
                else if phase == 2 { "-"@ }
                else { "\\"@ }
            }),
    {
        match (elapsed_ms / 150) % 4 {
            0 => "|",
            1 => "/",
            2 => "-",
            _ => "\\",
        }
    }
}

/// The editor buffer summary a front end keeps.
pub struct EditorData {
    /// The buffer's text.
    pub content: String,
    /// How many lines the text has: its newline count plus one, never zero.
    pub line_count: usize,
    /// The cursor's column and row.
    pub cursor_position: (u16, u16),
}

/// How many newline characters a text holds.
pub open spec fn spec_newlines(s: Seq<char>) -> int
    decreases s.len(),
{
    if s.len() == 0 {
        0
    } else {
        (if s[0] == '\n' { 1int } else { 0int }) + spec_newlines(s.drop_first())
    }
}

impl EditorData {
    /// An empty buffer.
    pub fn new() -> (r: EditorData)
        ensures
            r.content@.len() == 0,
            r.line_count == 1,
            r.cursor_position == (0u16, 0u16),
    {
        EditorData { content: String::new(), line_count: 1, cursor_position: (0, 0) }
    }

    /// Replace the buffer and refresh the line count.
    pub fn set_content(&mut self, content: String)
        requires
            content@.len() < usize::MAX,
        ensures
            final(self).content == content,
            final(self).line_count == spec_newlines(content@) + 1,
            final(self).cursor_position == old(self).cursor_position,
    {
        let n = count_newlines(&content);
        self.content = content;
        self.line_count = n + 1;
    }
}

/// Count the newline characters of a text.
pub fn count_newlines(s: &String) -> (r: usize)
    ensures
        r == spec_newlines(s@),
        r <= s@.len(),
{
    proof {
        lemma_newlines_bound(s@);
    }
    let chars = crate::text::str_to_chars(s.as_str());
    let n = chars.len();
    let mut count: usize = 0;
    let mut i: usize = 0;
    proof {
        assert(chars@.skip(0) =~= chars@);
    }
    while i < n
        invariant
            i <= n,
            n == chars@.len(),
            chars@ == s@,
            count <= i,
            spec_newlines(s@) == count + spec_newlines(chars@.skip(i as int)),
        decreases n - i,
    {
        proof {
            assert(chars@.skip(i as int)[0] == chars@[i as int]);
            assert(chars@.skip(i as int).drop_first() =~= chars@.skip(i + 1));
            lemma_newlines_bound(chars@.skip(i + 1));
        }
        if chars[i] == '\n' {
            count = count + 1;
        }
        i = i + 1;
    }
    proof {
        assert(chars@.skip(i as int).len() == 0);
    }
    count
}

/// A text has at most one newline per character.
proof fn lemma_newlines_bound(s: Seq<char>)
    ensures
        0 <= spec_newlines(s) <= s.len(),
    decreases s.len(),
{
    if s.len() > 0 {
        lemma_newlines_bound(s.drop_first());
    }
}

/// A brief full-screen flash, timed in wall-clock microseconds.
pub struct Flash {
    /// Whether the flash is on.
    pub is_flashing: bool,
    /// When the flash started, when it is on.
    pub flash_start: Option<SyncTime>,
    /// How long a flash lasts, in microseconds.
    pub flash_duration: SyncTime,
    /// How long the current flash has run, in microseconds.
    pub flash_elapsed: SyncTime,
}

impl Flash {
    /// A dark screen with the default flash length of a fifth of a second.
    pub fn new() -> (r: Flash)
        ensures
            !r.is_flashing,
            r.flash_start is None,
            r.flash_duration == 200_000u64,
            r.flash_elapsed == 0,
    {
        Flash {
            is_flashing: false,
            flash_start: None,
            flash_duration: 200_000,
            flash_elapsed: 0,
        }
    }

    /// Begin a flash at the given instant.
    pub fn start(&mut self, now: SyncTime)
        ensures
            final(self).is_flashing,
            final(self).flash_start == Some(now),
            final(self).flash_elapsed == 0,
            final(self).flash_duration == old(self).flash_duration,
    {
        self.is_flashing = true;
        self.flash_start = Some(now);
        self.flash_elapsed = 0;
    }

    /// Advance the flash to the given instant; it ends once its duration
    /// has elapsed.
    pub fn advance(&mut self, now: SyncTime)
        ensures
            match old(self).flash_start {
                Some(t0) => final(self).flash_elapsed
                        == (if now >= t0 { (now - t0) as int } else { 0int })
                    && final(self).is_flashing == (old(self).is_flashing
                        && final(self).flash_elapsed < old(self).flash_duration),
                None => *final(self) == *old(self),
            },
            final(self).flash_start == old(self).flash_start,
            final(self).flash_duration == old(self).flash_duration,
    {
        match self.flash_start {
            None => {},
            Some(t0) => {
                self.flash_elapsed = if now >= t0 {
                    now - t0
                } else {
                    0
                };
                if self.flash_elapsed >= self.flash_duration {
                    self.is_flashing = false;
                }
            },
        }
    }
}

/// What a client front end knows about the engine it talks to.
pub struct ServerState {
    /// Whether the control connection is open.
    pub is_connected: bool,
    /// Names of the connected peers.
    pub peers: Vec<String>,
    /// Names of the devices the engine reported.
    pub devices: Vec<String>,
}

impl ServerState {
    /// A disconnected client with nothing reported yet.
    pub fn new() -> (r: ServerState)
        ensures
            !r.is_connected,
            r.peers@.len() == 0,
            r.devices@.len() == 0,
    {
        ServerState { is_connected: false, peers: Vec::new(), devices: Vec::new() }
    }
}

} // verus!
