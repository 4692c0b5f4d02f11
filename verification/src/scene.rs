//! The scene model: a scene is an ordered collection of lines, a line is a
//! non-empty column of frames with a speed factor, and a frame owns one
//! script whose arguments may override the frame's length in beats.

use vstd::prelude::*;
use crate::MICROBEATS_PER_BEAT;
use crate::text::{spec_parse_beats, parse_beats, str_to_chars};


verus! {

/// Default frame length: one beat, in microbeats.
pub const DEFAULT_FRAME_LEN: u64 = 1_000_000;

/// Largest accepted frame length, in microbeats.
pub const MAX_FRAME_LEN: u64 = 1_000_000_000_000;

/// Speed factor of one, in millionths.
pub const UNIT_SPEED_FACTOR: u64 = 1_000_000;

/// Largest accepted speed factor, in millionths (a thousandfold slowdown).
pub const MAX_SPEED_FACTOR: u64 = 1_000_000_000;

/// Largest number of frames a line keeps, so that a line's scaled cycle
/// length always fits the arithmetic of the scheduler.
pub const MAX_FRAMES: usize = 65_536;

/// Default speed factor for lines if not specified: one, in millionths.
pub fn default_speed_factor() -> (r: u64)
    ensures
        r == UNIT_SPEED_FACTOR,
{
    UNIT_SPEED_FACTOR
}

/// A script: pure data naming the language whose compiler translates the
/// content, with named string arguments.
pub struct Script {
    /// Name of the language; the compiler registry resolves it.
    pub lang: String,
    /// The source text.
    pub content: String,
    /// Named arguments handed to the compiler and read for frame options.
    pub args: Vec<(String, String)>,
}

/// The first value bound to `key` in an argument list.
pub open spec fn spec_arg(args: Seq<(String, String)>, key: Seq<char>) -> Option<Seq<char>>
    decreases args.len(),
{
    if args.len() == 0 {
        None
    } else if args[0].0@ == key {
        Some(args[0].1@)
    } else {
        spec_arg(args.drop_first(), key)
    }
}

impl Script {
    /// A script with no arguments.
    pub fn new(lang: String, content: String) -> (s: Script)
        ensures
            s.lang == lang,
            s.content == content,
            s.args@.len() == 0,
    {
        Script { lang, content, args: Vec::new() }
    }

    /// Look up the first value bound to `key` among the arguments.
    pub fn arg(&self, key: &String) -> (r: Option<&String>)
        ensures
            match r {
                Some(v) => spec_arg(self.args@, key@) == Some(v@),
                None => spec_arg(self.args@, key@) == None::<Seq<char>>,
            },
    {
        let n = self.args.len();
        let mut i: usize = 0;
        proof {
            assert(self.args@.skip(0) =~= self.args@);
        }
        while i < n
            invariant
                i <= n,
                n == self.args@.len(),
                spec_arg(self.args@, key@) == spec_arg(self.args@.skip(i as int), key@),
            decreases n - i,
        {
            proof {
                assert(self.args@.skip(i as int)[0] == self.args@[i as int]);
                assert(self.args@.skip(i as int).drop_first() =~= self.args@.skip(i + 1));
            }
            if self.args[i].0.eq(key) {
                return Some(&self.args[i].1);
            }
            i = i + 1;
        }
        proof {
            assert(self.args@.skip(i as int).len() == 0);
        }
        None
    }
}

/// The frame length declared by a script's `len` argument, in microbeats:
/// the parsed fixed-point value when it is well formed and within range,
/// otherwise the default of one beat.
pub open spec fn spec_frame_len(s: Script) -> u64 {
    match spec_arg(s.args@, "len"@) {
        Some(v) => match spec_parse_beats(v) {
            Some(x) => if 1 <= x <= MAX_FRAME_LEN {
                x as u64
            } else {
                DEFAULT_FRAME_LEN
            },
            None => DEFAULT_FRAME_LEN,
        },
        None => DEFAULT_FRAME_LEN,
    }
}

/// Compute the frame length declared by a script, in microbeats.
pub fn compute_frame_len(s: &Script) -> (r: u64)
    ensures
        r == spec_frame_len(*s),
        1 <= r <= MAX_FRAME_LEN,
{
    let key: String = String::from_str("len");
    proof {
        reveal_strlit("len");
        assert(key@ == "len"@);
    }
    match s.arg(&key) {
        None => DEFAULT_FRAME_LEN,
        Some(v) => {
            let chars = str_to_chars(v.as_str());
            proof {
                crate::text::lemma_parse_beats_nonneg(chars@);
            }
            match parse_beats(&chars) {
                None => DEFAULT_FRAME_LEN,
                Some(x) => {
                    if 1 <= x && x <= MAX_FRAME_LEN {
                        x
                    } else {
                        DEFAULT_FRAME_LEN
                    }
                },
            }
        },
    }
}

/// One cell of a line: a script and its cached length in microbeats.
pub struct Frame {
    /// The script this frame owns.
    pub script: Script,
    /// Cached frame length in microbeats; `make_consistent` refreshes it
    /// from the script arguments.
    pub length: u64,
}

impl Frame {
    /// The cache is up to date and in range.
    pub open spec fn wf(self) -> bool {
        &&& self.length == spec_frame_len(self.script)
        &&& 1 <= self.length <= MAX_FRAME_LEN
    }

    /// A frame owning the given script, with its length cache filled.
    pub fn new(script: Script) -> (f: Frame)
        ensures
            f.script == script,
            f.wf(),
    {
        let length = compute_frame_len(&script);
        Frame { script, length }
    }

    /// The cached frame length in microbeats.
    pub fn frame_len(&self) -> (r: u64)
        ensures
            r == self.length,
    {
        self.length
    }

    /// Refresh the length cache from the script arguments.
    pub fn make_consistent(&mut self)
        ensures
            final(self).script == old(self).script,
            final(self).wf(),
    {
        self.length = compute_frame_len(&self.script);
    }

    /// A frame with an empty script of the default length.
    pub fn default_frame() -> (f: Frame)
        ensures
            f.wf(),
            f.script.args@.len() == 0,
            f.length == DEFAULT_FRAME_LEN,
    {
        let script = Script::new(String::new(), String::new());
        let f = Frame { script, length: DEFAULT_FRAME_LEN };
        proof {
            assert(spec_arg(f.script.args@, "len"@) == None::<Seq<char>>);
        }
        f
    }
}

/// A line: a non-empty column of frames, its slot in the scene, a speed
/// factor in millionths, and the frame the scheduler currently plays.
pub struct Line {
    /// The frames of this line.
    pub frames: Vec<Frame>,
    /// The line's slot in the scene; `make_consistent` rewrites it.
    pub index: usize,
    /// Speed factor in millionths; frames last `length x speed` scaled units.
    pub speed_factor: u64,
    /// The frame the scheduler most recently entered.
    pub current_frame: usize,
}

impl Line {
    /// Well-formedness: at least one frame, every frame cache fresh and in
    /// range, and the speed factor in range.
    pub open spec fn frames_wf(self) -> bool {
        &&& 1 <= self.frames@.len() <= MAX_FRAMES
        &&& forall|i: int| 0 <= i < self.frames@.len() ==> (#[trigger] self.frames@[i]).wf()
        &&& 1 <= self.speed_factor <= MAX_SPEED_FACTOR
    }

    /// Well-formedness at slot `i` of a scene.
    pub open spec fn wf_at(self, i: int) -> bool {
        self.frames_wf() && self.index == i
    }

    /// The scripts of this line's frames, in order.
    pub open spec fn scripts(self) -> Seq<Script> {
        self.frames@.map_values(|f: Frame| f.script)
    }

    /// Total of the frame lengths, in microbeats (unscaled).
    pub open spec fn spec_track_len(self) -> int {
        spec_sum_lens(self.frames@)
    }

    /// A line of the given frames; `make_consistent` must run before use.
    pub fn new(frames: Vec<Frame>) -> (l: Line)
        ensures
            l.frames == frames,
            l.index == 0,
            l.speed_factor == UNIT_SPEED_FACTOR,
            l.current_frame == 0,
    {
        Line { frames, index: 0, speed_factor: UNIT_SPEED_FACTOR, current_frame: 0 }
    }

    /// A line of one default frame.
    pub fn default_line() -> (l: Line)
        ensures
            l.frames_wf(),
            l.index == 0,
            l.frames@.len() == 1,
            l.speed_factor == UNIT_SPEED_FACTOR,
            l.current_frame == 0,
    {
        let mut frames: Vec<Frame> = Vec::new();
        frames.push(Frame::default_frame());
        Line { frames, index: 0, speed_factor: UNIT_SPEED_FACTOR, current_frame: 0 }
    }

    /// Restore well-formedness: guarantee one frame, refresh every frame's
    /// length cache, and clamp the speed factor into range.
    pub fn make_consistent(&mut self)
        ensures
            final(self).frames_wf(),
            final(self).index == old(self).index,
            final(self).current_frame == old(self).current_frame,
            1 <= old(self).frames@.len() <= MAX_FRAMES
                ==> final(self).frames@.len() == old(self).frames@.len(),
            1 <= old(self).speed_factor <= MAX_SPEED_FACTOR
                ==> final(self).speed_factor == old(self).speed_factor,
            forall|i: int| 0 <= i < old(self).frames@.len() && i < final(self).frames@.len()
                ==> (#[trigger] final(self).frames@[i]).script == old(self).frames@[i].script,
    {
        if self.frames.len() == 0 {
            self.frames.push(Frame::default_frame());
        }
        if self.frames.len() > MAX_FRAMES {
            self.frames.truncate(MAX_FRAMES);
        }
        if self.speed_factor < 1 {
            self.speed_factor = UNIT_SPEED_FACTOR;
        } else if self.speed_factor > MAX_SPEED_FACTOR {
            self.speed_factor = MAX_SPEED_FACTOR;
        }
        let n = self.frames.len();
        let mut i: usize = 0;
        while i < n
            invariant
                i <= n,
                n == self.frames@.len(),
                1 <= n <= MAX_FRAMES,
                1 <= self.speed_factor <= MAX_SPEED_FACTOR,
                1 <= old(self).speed_factor <= MAX_SPEED_FACTOR
                    ==> self.speed_factor == old(self).speed_factor,
                self.index == old(self).index,
                self.current_frame == old(self).current_frame,
                1 <= old(self).frames@.len() <= MAX_FRAMES ==> n == old(self).frames@.len(),
                forall|j: int| 0 <= j < old(self).frames@.len() && j < n
                    ==> (#[trigger] self.frames@[j]).script == old(self).frames@[j].script,
                forall|j: int| 0 <= j < n && j >= old(self).frames@.len()
                    ==> (#[trigger] self.frames@[j]).wf(),
                forall|j: int| 0 <= j < i ==> (#[trigger] self.frames@[j]).wf(),
            decreases n - i,
        {
            let ghost pre = self.frames@;
            let f = &mut self.frames[i];
            f.make_consistent();
            proof {
                assert(self.frames@ =~= pre.update(i as int, self.frames@[i as int]));
            }
            i = i + 1;
        }
    }

    /// The frame at `id`, when it exists.
    pub fn frame(&self, id: usize) -> (r: Option<&Frame>)
        ensures
            match r {
                Some(f) => id < self.frames@.len() && *f == self.frames@[id as int],
                None => id >= self.frames@.len(),
            },
    {
        if id < self.frames.len() {
            Some(&self.frames[id])
        } else {
            None
        }
    }

    /// The frame at `id`, growing the column with default frames when `id`
    /// is out of range.
    pub fn frame_mut(&mut self, id: usize) -> (f: &mut Frame)
        requires
            id < MAX_FRAMES,
        ensures
            final(self).frames@.len() == (if old(self).frames@.len() > id {
                old(self).frames@.len() as int
            } else {
                id + 1
            }),
            id < old(self).frames@.len() ==> *f == old(self).frames@[id as int],
            id >= old(self).frames@.len() ==> (*f).wf() && (*f).length == DEFAULT_FRAME_LEN,
            forall|j: int| 0 <= j < old(self).frames@.len() && j != id
                ==> final(self).frames@[j] == old(self).frames@[j],
            forall|j: int| old(self).frames@.len() <= j < final(self).frames@.len() && j != id
                ==> (#[trigger] final(self).frames@[j]).wf()
                    && final(self).frames@[j].length == DEFAULT_FRAME_LEN,
            final(self).frames@[id as int] == *final(f),
            final(self).index == old(self).index,
            final(self).speed_factor == old(self).speed_factor,
            final(self).current_frame == old(self).current_frame,
    {
        while self.frames.len() <= id
            invariant
                id < MAX_FRAMES,
                self.index == old(self).index,
                self.speed_factor == old(self).speed_factor,
                self.current_frame == old(self).current_frame,
                self.frames@.len() >= old(self).frames@.len(),
                self.frames@.len() <= (if old(self).frames@.len() > id {
                    old(self).frames@.len() as int
                } else {
                    id + 1
                }),
                forall|j: int| 0 <= j < old(self).frames@.len()
                    ==> (#[trigger] self.frames@[j]) == old(self).frames@[j],
                forall|j: int| old(self).frames@.len() <= j < self.frames@.len()
                    ==> (#[trigger] self.frames@[j]).wf()
                        && self.frames@[j].length == DEFAULT_FRAME_LEN,
            decreases id + 1 - self.frames@.len(),
        {
            self.frames.push(Frame::default_frame());
        }
        &mut self.frames[id]
    }

    /// Set the speed factor, clamped into the accepted range.
    pub fn set_speed_factor(&mut self, factor: u64)
        ensures
            final(self).frames == old(self).frames,
            final(self).index == old(self).index,
            final(self).current_frame == old(self).current_frame,
            final(self).speed_factor == (if factor < 1 {
                1u64
            } else if factor > MAX_SPEED_FACTOR {
                MAX_SPEED_FACTOR
            } else {
                factor
            }),
    {
        if factor < 1 {
            self.speed_factor = 1;
        } else if factor > MAX_SPEED_FACTOR {
            self.speed_factor = MAX_SPEED_FACTOR;
        } else {
            self.speed_factor = factor;
        }
    }

    /// Total of the frame lengths times the speed factor: the line's cycle
    /// length in scaled units.
    pub fn length(&self) -> (r: u128)
        requires
            self.frames_wf(),
        ensures
            r == self.spec_track_len() * self.speed_factor,
            r >= 1,
    {
        let total = sum_lens(&self.frames);
        proof {
            lemma_sum_lens_bounds(self.frames@);
            assert(total >= 1);
            assert(total <= MAX_FRAMES * MAX_FRAME_LEN) by (nonlinear_arith)
                requires
                    total <= self.frames@.len() * MAX_FRAME_LEN,
                    self.frames@.len() <= MAX_FRAMES;
            assert(total * self.speed_factor >= 1) by (nonlinear_arith)
                requires total >= 1, self.speed_factor >= 1;
            assert(total * self.speed_factor
                <= (MAX_FRAMES * MAX_FRAME_LEN) * (MAX_SPEED_FACTOR as int))
                by (nonlinear_arith)
                requires
                    1 <= total <= MAX_FRAMES * MAX_FRAME_LEN,
                    1 <= self.speed_factor <= MAX_SPEED_FACTOR;
        }
        total * (self.speed_factor as u128)
    }
}

/// A scene: an ordered collection of lines that play concurrently.
pub struct Scene {
    /// The collection of lines that make up this scene.
    pub lines: Vec<Line>,
}

impl Scene {
    /// Well-formedness: every line is well formed and sits at the slot its
    /// `index` names, so line indices are contiguous from zero.
    pub open spec fn wf(self) -> bool {
        forall|i: int| 0 <= i < self.lines@.len() ==> (#[trigger] self.lines@[i]).wf_at(i)
    }

    /// A scene of the given lines, with each line's `index` set to its
    /// position.
    pub fn new(lines: Vec<Line>) -> (s: Scene)
        ensures
            s.lines@.len() == lines@.len(),
            forall|i: int| 0 <= i < lines@.len() ==> (#[trigger] s.lines@[i]).index == i
                && s.lines@[i].frames == lines@[i].frames
                && s.lines@[i].speed_factor == lines@[i].speed_factor
                && s.lines@[i].current_frame == lines@[i].current_frame,
    {
        let mut s = Scene { lines };
        let n = s.lines.len();
        let mut i: usize = 0;
        while i < n
            invariant
                i <= n,
                n == s.lines@.len() == lines@.len(),
                forall|j: int| 0 <= j < i ==> (#[trigger] s.lines@[j]).index == j,
                forall|j: int| 0 <= j < n ==> (#[trigger] s.lines@[j]).frames == lines@[j].frames
                    && s.lines@[j].speed_factor == lines@[j].speed_factor
                    && s.lines@[j].current_frame == lines@[j].current_frame,
            decreases n - i,
        {
            let ghost pre = s.lines@;
            let l = &mut s.lines[i];
            l.index = i;
            proof {
                assert(s.lines@ =~= pre.update(i as int, s.lines@[i as int]));
            }
            i = i + 1;
        }
        s
    }

    /// Restore consistency after a structural edit: rewrite every line's
    /// `index` to its slot and make each line internally consistent.
    pub fn make_consistent(&mut self)
        ensures
            final(self).wf(),
            final(self).lines@.len() == old(self).lines@.len(),
            forall|i: int| 0 <= i < old(self).lines@.len()
                ==> (#[trigger] final(self).lines@[i]).current_frame
                    == old(self).lines@[i].current_frame,
            forall|i: int| 0 <= i < old(self).lines@.len()
                && (#[trigger] old(self).lines@[i]).frames_wf()
                ==> final(self).lines@[i].scripts() == old(self).lines@[i].scripts()
                    && final(self).lines@[i].speed_factor == old(self).lines@[i].speed_factor,
            // Scripts are preserved frame by frame, whatever state the lines
            // were in; a line's frame count survives when it was in range.
            forall|i: int, j: int| 0 <= i < old(self).lines@.len()
                && 0 <= j < old(self).lines@[i].frames@.len()
                && j < (#[trigger] final(self).lines@[i]).frames@.len()
                ==> final(self).lines@[i].frames@[j].script
                    == (#[trigger] old(self).lines@[i].frames@[j]).script,
            forall|i: int| 0 <= i < old(self).lines@.len()
                && 1 <= (#[trigger] old(self).lines@[i]).frames@.len() <= MAX_FRAMES
                ==> final(self).lines@[i].frames@.len() == old(self).lines@[i].frames@.len(),
    {
        let n = self.lines.len();
        let mut i: usize = 0;
        while i < n
            invariant
                i <= n,
                n == self.lines@.len() == old(self).lines@.len(),
                forall|j: int| i <= j < n
                    ==> (#[trigger] self.lines@[j]) == old(self).lines@[j],
                forall|j: int| 0 <= j < i ==> (#[trigger] self.lines@[j]).wf_at(j),
                forall|j: int| 0 <= j < i
                    ==> (#[trigger] self.lines@[j]).current_frame
                        == old(self).lines@[j].current_frame,
                forall|j: int| 0 <= j < i && (#[trigger] old(self).lines@[j]).frames_wf()
                    ==> self.lines@[j].scripts() == old(self).lines@[j].scripts()
                        && self.lines@[j].speed_factor == old(self).lines@[j].speed_factor,
                forall|j: int, f: int| 0 <= j < i
                    && 0 <= f < old(self).lines@[j].frames@.len()
                    && f < (#[trigger] self.lines@[j]).frames@.len()
                    ==> self.lines@[j].frames@[f].script
                        == (#[trigger] old(self).lines@[j].frames@[f]).script,
                forall|j: int| 0 <= j < i
                    && 1 <= (#[trigger] old(self).lines@[j]).frames@.len() <= MAX_FRAMES
                    ==> self.lines@[j].frames@.len() == old(self).lines@[j].frames@.len(),
            decreases n - i,
        {
            let ghost pre = self.lines@;
            let l = &mut self.lines[i];
            let ghost oldl = *l;
            l.index = i;
            l.make_consistent();
            proof {
                assert(self.lines@ =~= pre.update(i as int, self.lines@[i as int]));
                if oldl.frames_wf() {
                    assert(self.lines@[i as int].scripts() =~= oldl.scripts());
                }
            }
            i = i + 1;
        }
    }

    /// The frame at the given cell, when both the line and the frame exist.
    pub fn get_frame(&self, line_id: usize, frame_id: usize) -> (r: Option<&Frame>)
        ensures
            match r {
                Some(f) => line_id < self.lines@.len()
                    && frame_id < self.lines@[line_id as int].frames@.len()
                    && *f == self.lines@[line_id as int].frames@[frame_id as int],
                None => line_id >= self.lines@.len()
                    || frame_id >= self.lines@[line_id as int].frames@.len(),
            },
    {
        match self.line(line_id) {
            None => None,
            Some(l) => l.frame(frame_id),
        }
    }

    /// The frame at the given cell, growing the scene and the line as
    /// needed.
    pub fn get_frame_mut(&mut self, line_id: usize, frame_id: usize) -> (f: &mut Frame)
        requires
            line_id + 1 <= usize::MAX,
            frame_id < MAX_FRAMES,
        ensures
            final(self).lines@.len() == (if old(self).lines@.len() > line_id {
                old(self).lines@.len() as int
            } else {
                line_id + 1
            }),
            forall|j: int| 0 <= j < old(self).lines@.len() && j != line_id
                ==> final(self).lines@[j] == old(self).lines@[j],
            final(self).lines@[line_id as int].frames@[frame_id as int] == *final(f),
            line_id < old(self).lines@.len()
                && frame_id < old(self).lines@[line_id as int].frames@.len()
                ==> *f == old(self).lines@[line_id as int].frames@[frame_id as int],
            // The target line's frame count: grown to reach the frame, kept
            // otherwise.
            final(self).lines@[line_id as int].frames@.len()
                == (if line_id < old(self).lines@.len()
                        && old(self).lines@[line_id as int].frames@.len() > frame_id {
                    old(self).lines@[line_id as int].frames@.len() as int
                } else {
                    frame_id + 1
                }),
            final(self).lines@[line_id as int].speed_factor
                == (if line_id < old(self).lines@.len() {
                    old(self).lines@[line_id as int].speed_factor
                } else {
                    UNIT_SPEED_FACTOR
                }),
    {
        let l = self.line_mut(line_id);
        l.frame_mut(frame_id)
    }

    /// The number of lines currently in the scene.
    pub fn n_lines(&self) -> (r: usize)
        ensures
            r == self.lines@.len(),
    {
        self.lines.len()
    }

    /// All lines of the scene.
    pub fn lines(&self) -> (r: &Vec<Line>)
        ensures
            r == &self.lines,
    {
        &self.lines
    }

    /// All lines of the scene, for mutation.
    pub fn line_muts(&mut self) -> (r: &mut Vec<Line>)
        ensures
            *r == old(self).lines,
            final(self).lines == *final(r),
    {
        &mut self.lines
    }

    /// Append a line, giving it the next index and making it consistent.
    pub fn add_line(&mut self, line: Line)
        requires
            old(self).lines@.len() + 1 <= usize::MAX,
        ensures
            final(self).lines@.len() == old(self).lines@.len() + 1,
            forall|j: int| 0 <= j < old(self).lines@.len()
                ==> final(self).lines@[j] == old(self).lines@[j],
            final(self).lines@.last().wf_at(old(self).lines@.len() as int),
            final(self).lines@.last().current_frame == line.current_frame,
            line.frames_wf() ==> final(self).lines@.last().scripts() == line.scripts()
                && final(self).lines@.last().speed_factor == line.speed_factor,
            old(self).wf() ==> final(self).wf(),
    {
        let ghost given = line;
        let mut line = line;
        line.index = self.lines.len();
        line.make_consistent();
        proof {
            if given.frames_wf() {
                assert(line.scripts() =~= given.scripts());
            }
        }
        self.lines.push(line);
    }

    /// Insert a line at `at`, growing the scene to `at` first, then restore
    /// consistency.
    pub fn insert_line(&mut self, at: usize, line: Line)
        requires
            at + 1 <= usize::MAX,
        ensures
            final(self).wf(),
            final(self).lines@.len() == (if old(self).lines@.len() >= at {
                old(self).lines@.len() as int + 1
            } else {
                at as int + 1
            }),
            line.frames_wf() ==> final(self).lines@[at as int].scripts() == line.scripts()
                && final(self).lines@[at as int].speed_factor == line.speed_factor,
            final(self).lines@[at as int].current_frame == line.current_frame,
            // Lines before the insertion point keep their content; lines at
            // or after it shift one slot to the right, content preserved.
            forall|j: int| 0 <= j < at && j < old(self).lines@.len()
                && (#[trigger] old(self).lines@[j]).frames_wf()
                ==> final(self).lines@[j].scripts() == old(self).lines@[j].scripts()
                    && final(self).lines@[j].speed_factor == old(self).lines@[j].speed_factor
                    && final(self).lines@[j].current_frame == old(self).lines@[j].current_frame,
            forall|j: int| at <= j < old(self).lines@.len()
                && (#[trigger] old(self).lines@[j]).frames_wf()
                ==> final(self).lines@[j + 1].scripts() == old(self).lines@[j].scripts()
                    && final(self).lines@[j + 1].speed_factor == old(self).lines@[j].speed_factor
                    && final(self).lines@[j + 1].current_frame == old(self).lines@[j].current_frame,
    {
        self.ensure_min_size(at);
        let ghost grown = self.lines@;
        self.lines.insert(at, line);
        proof {
            assert(forall|j: int| 0 <= j < at
                ==> (#[trigger] self.lines@[j]) == grown[j]);
            assert(forall|j: int| at <= j < grown.len()
                ==> (#[trigger] self.lines@[j + 1]) == grown[j]);
        }
        let ghost mid = self.lines@;
        self.make_consistent();
        proof {
            assert forall|j: int| 0 <= j < at && j < old(self).lines@.len()
                && (#[trigger] old(self).lines@[j]).frames_wf()
                implies self.lines@[j].scripts() == old(self).lines@[j].scripts()
                    && self.lines@[j].speed_factor == old(self).lines@[j].speed_factor
                    && self.lines@[j].current_frame == old(self).lines@[j].current_frame
            by {
                assert(mid[j] == old(self).lines@[j]);
            }
            assert forall|j: int| at <= j < old(self).lines@.len()
                && (#[trigger] old(self).lines@[j]).frames_wf()
                implies self.lines@[j + 1].scripts() == old(self).lines@[j].scripts()
                    && self.lines@[j + 1].speed_factor == old(self).lines@[j].speed_factor
                    && self.lines@[j + 1].current_frame == old(self).lines@[j].current_frame
            by {
                assert(mid[j + 1] == old(self).lines@[j]);
            }
        }
    }

    /// Replace the line at `index`, growing the scene as needed, then
    /// restore consistency.
    pub fn set_line(&mut self, index: usize, line: Line)
        requires
            index + 1 <= usize::MAX,
        ensures
            final(self).wf(),
            final(self).lines@.len() == (if old(self).lines@.len() > index {
                old(self).lines@.len() as int
            } else {
                index + 1
            }),
            line.frames_wf() ==> final(self).lines@[index as int].scripts() == line.scripts()
                && final(self).lines@[index as int].speed_factor == line.speed_factor,
            final(self).lines@[index as int].current_frame == line.current_frame,
            // Every other pre-existing line keeps its content.
            forall|j: int| 0 <= j < old(self).lines@.len() && j != index
                && (#[trigger] old(self).lines@[j]).frames_wf()
                ==> final(self).lines@[j].scripts() == old(self).lines@[j].scripts()
                    && final(self).lines@[j].speed_factor == old(self).lines@[j].speed_factor
                    && final(self).lines@[j].current_frame == old(self).lines@[j].current_frame,
    {
        self.ensure_min_size(index + 1);
        let ghost pre = self.lines@;
        self.lines.set(index, line);
        proof {
            assert(self.lines@ =~= pre.update(index as int, line));
        }
        let ghost mid = self.lines@;
        self.make_consistent();
        proof {
            assert forall|j: int| 0 <= j < old(self).lines@.len() && j != index
                && (#[trigger] old(self).lines@[j]).frames_wf()
                implies self.lines@[j].scripts() == old(self).lines@[j].scripts()
                    && self.lines@[j].speed_factor == old(self).lines@[j].speed_factor
                    && self.lines@[j].current_frame == old(self).lines@[j].current_frame
            by {
                assert(mid[j] == old(self).lines@[j]);
            }
        }
    }

    /// Remove the line at `index` and renumber the lines after it. Does
    /// nothing when `index` is out of range.
    pub fn remove_line(&mut self, index: usize)
        ensures
            index >= old(self).lines@.len() ==> *final(self) == *old(self),
            index < old(self).lines@.len() ==> {
                &&& final(self).lines@.len() == old(self).lines@.len() - 1
                &&& (forall|j: int| 0 <= j < index
                    ==> final(self).lines@[j] == old(self).lines@[j])
                &&& (forall|j: int| index <= j < final(self).lines@.len()
                    ==> (#[trigger] final(self).lines@[j]).index == j
                        && final(self).lines@[j].frames == old(self).lines@[j + 1].frames
                        && final(self).lines@[j].speed_factor == old(self).lines@[j + 1].speed_factor
                        && final(self).lines@[j].current_frame == old(self).lines@[j + 1].current_frame)
            },
            old(self).wf() ==> final(self).wf(),
    {
        let n = self.lines.len();
        if index >= n {
            return;
        }
        self.lines.remove(index);
        let mut i: usize = index;
        while i < self.lines.len()
            invariant
                index <= i <= self.lines@.len(),
                self.lines@.len() == old(self).lines@.len() - 1,
                forall|j: int| 0 <= j < index
                    ==> (#[trigger] self.lines@[j]) == old(self).lines@[j],
                forall|j: int| index <= j < i
                    ==> (#[trigger] self.lines@[j]).index == j
                        && self.lines@[j].frames == old(self).lines@[j + 1].frames
                        && self.lines@[j].speed_factor == old(self).lines@[j + 1].speed_factor
                        && self.lines@[j].current_frame == old(self).lines@[j + 1].current_frame,
                forall|j: int| i <= j < self.lines@.len()
                    ==> (#[trigger] self.lines@[j]) == old(self).lines@[j + 1],
            decreases self.lines@.len() - i,
        {
            let ghost pre = self.lines@;
            let l = &mut self.lines[i];
            l.index = i;
            proof {
                assert(self.lines@ =~= pre.update(i as int, self.lines@[i as int]));
            }
            i = i + 1;
        }
    }

    /// The line at `index`, when it exists.
    pub fn line(&self, index: usize) -> (r: Option<&Line>)
        ensures
            match r {
                Some(l) => index < self.lines@.len() && *l == self.lines@[index as int],
                None => index >= self.lines@.len(),
            },
    {
        if index < self.lines.len() {
            Some(&self.lines[index])
        } else {
            None
        }
    }

    /// The line at `index`, growing the scene with default lines as needed.
    pub fn line_mut(&mut self, index: usize) -> (l: &mut Line)
        requires
            index + 1 <= usize::MAX,
        ensures
            final(self).lines@.len() == (if old(self).lines@.len() > index {
                old(self).lines@.len() as int
            } else {
                index + 1
            }),
            index < old(self).lines@.len() ==> *l == old(self).lines@[index as int],
            index >= old(self).lines@.len() ==> (*l).wf_at(index as int)
                && (*l).frames@.len() == 1
                && (*l).speed_factor == UNIT_SPEED_FACTOR,
            forall|j: int| 0 <= j < old(self).lines@.len() && j != index
                ==> final(self).lines@[j] == old(self).lines@[j],
            forall|j: int| old(self).lines@.len() <= j < final(self).lines@.len() && j != index
                ==> (#[trigger] final(self).lines@[j]).wf_at(j),
            final(self).lines@[index as int] == *final(l),
    {
        self.ensure_min_size(index + 1);
        &mut self.lines[index]
    }

    /// Whether the scene has no lines.
    pub fn is_empty(&self) -> (r: bool)
        ensures
            r == (self.lines@.len() == 0),
    {
        self.lines.is_empty()
    }

    /// Grow the scene to at least `size` lines by appending default lines
    /// with correct indices.
    pub fn ensure_min_size(&mut self, size: usize)
        ensures
            final(self).lines@.len() == (if old(self).lines@.len() >= size {
                old(self).lines@.len() as int
            } else {
                size as int
            }),
            forall|j: int| 0 <= j < old(self).lines@.len()
                ==> final(self).lines@[j] == old(self).lines@[j],
            forall|j: int| old(self).lines@.len() <= j < final(self).lines@.len()
                ==> (#[trigger] final(self).lines@[j]).wf_at(j)
                    && final(self).lines@[j].frames@.len() == 1
                    && final(self).lines@[j].speed_factor == UNIT_SPEED_FACTOR,
    {
        while self.lines.len() < size
            invariant
                self.lines@.len() >= old(self).lines@.len(),
                self.lines@.len() <= (if old(self).lines@.len() >= size {
                    old(self).lines@.len() as int
                } else {
                    size as int
                }),
                forall|j: int| 0 <= j < old(self).lines@.len()
                    ==> (#[trigger] self.lines@[j]) == old(self).lines@[j],
                forall|j: int| old(self).lines@.len() <= j < self.lines@.len()
                    ==> (#[trigger] self.lines@[j]).wf_at(j)
                        && self.lines@[j].frames@.len() == 1
                        && self.lines@[j].speed_factor == UNIT_SPEED_FACTOR,
            decreases size - self.lines@.len(),
        {
            let mut l = Line::default_line();
            l.index = self.lines.len();
            self.lines.push(l);
        }
    }

    /// The `current_frame` of each line: a snapshot of the playback position
    /// of the whole scene.
    pub fn get_frames_positions(&self) -> (r: Vec<usize>)
        ensures
            r@.len() == self.lines@.len(),
            forall|i: int| 0 <= i < r@.len()
                ==> r@[i] == (#[trigger] self.lines@[i]).current_frame,
    {
        let mut r: Vec<usize> = Vec::new();
        let mut i: usize = 0;
        while i < self.lines.len()
            invariant
                i <= self.lines@.len(),
                r@.len() == i,
                forall|j: int| 0 <= j < i
                    ==> r@[j] == (#[trigger] self.lines@[j]).current_frame,
            decreases self.lines@.len() - i,
        {
            r.push(self.lines[i].current_frame);
            i = i + 1;
        }
        r
    }
}

/// Sum of the cached frame lengths of a frame sequence.
pub open spec fn spec_sum_lens(frames: Seq<Frame>) -> int
    decreases frames.len(),
{
    if frames.len() == 0 {
        0
    } else {
        spec_sum_lens(frames.drop_last()) + frames.last().length
    }
}

/// The sum of well-formed frame lengths is positive (when non-empty) and
/// bounded by the count times the largest length.
pub proof fn lemma_sum_lens_bounds(frames: Seq<Frame>)
    requires
        forall|i: int| 0 <= i < frames.len() ==> (#[trigger] frames[i]).wf(),
    ensures
        spec_sum_lens(frames) <= frames.len() * MAX_FRAME_LEN,
        spec_sum_lens(frames) >= frames.len(),
    decreases frames.len(),
{
    if frames.len() > 0 {
        assert(forall|i: int| 0 <= i < frames.len() - 1
            ==> (#[trigger] frames.drop_last()[i]).wf());
        lemma_sum_lens_bounds(frames.drop_last());
        assert(frames.last().wf());
        assert((frames.len() - 1) * MAX_FRAME_LEN + MAX_FRAME_LEN
            == frames.len() * MAX_FRAME_LEN) by (nonlinear_arith);
    }
}

/// Sum the cached frame lengths.
pub fn sum_lens(frames: &Vec<Frame>) -> (r: u128)
    requires
        forall|i: int| 0 <= i < frames@.len() ==> (#[trigger] frames@[i]).wf(),
    ensures
        r == spec_sum_lens(frames@),
        r <= frames@.len() * MAX_FRAME_LEN,
{
    proof {
        lemma_sum_lens_bounds(frames@);
    }
    let mut acc: u128 = 0;
    let mut i: usize = 0;
    while i < frames.len()
        invariant
            i <= frames@.len(),
            forall|k: int| 0 <= k < frames@.len() ==> (#[trigger] frames@[k]).wf(),
            acc == spec_sum_lens(frames@.subrange(0, i as int)),
            acc <= i * MAX_FRAME_LEN,
        decreases frames@.len() - i,
    {
        proof {
            assert(frames@.subrange(0, i + 1).drop_last() =~= frames@.subrange(0, i as int));
            assert(frames@.subrange(0, i + 1).last() == frames@[i as int]);
            assert((i as int) * MAX_FRAME_LEN + MAX_FRAME_LEN == (i + 1) * MAX_FRAME_LEN)
                by (nonlinear_arith);
        }
        acc = acc + (frames[i].length as u128);
        i = i + 1;
    }
    proof {
        assert(frames@.subrange(0, i as int) =~= frames@);
    }
    acc
}

} // verus!
