//! The shared state of the relay: ten append-only telemetry channels with
//! windowed reads, the queue of outbound commands, and the link flags.
use crate::protocol::RocketData;
use vstd::prelude::*;

verus! {

/// The value of one sample: a binary32 reading kept as its bit pattern, or a
/// small integer reading (a nibble or a continuity flag as 0 / 1).
#[derive(Clone, Copy, Debug, PartialEq, Eq, Structural)]
pub enum Reading {
    Float(u32),
    Level(u8),
}

/// One point of a channel: the vehicle time it was taken at, in
/// milliseconds, and its value.
#[derive(Clone, Copy, Debug, PartialEq, Eq, Structural)]
pub struct Sample {
    pub time_ms: u32,
    pub value: Reading,
}

/// The ten channels of the store.
#[derive(Clone, Copy, Debug, PartialEq, Eq, Structural)]
pub enum Channel {
    Altitude,
    Orx,
    Ory,
    Orz,
    Lat,
    Long,
    Fix,
    Quality,
    ContMain,
    ContDroug,
}

/// The channel that a request names, if any.
pub open spec fn channel_named(name: Seq<char>) -> Option<Channel> {
    if name == "alt"@ {
        Some(Channel::Altitude)
    } else if name == "orx"@ {
        Some(Channel::Orx)
    } else if name == "ory"@ {
        Some(Channel::Ory)
    } else if name == "orz"@ {
        Some(Channel::Orz)
    } else if name == "lat"@ {
        Some(Channel::Lat)
    } else if name == "long"@ {
        Some(Channel::Long)
    } else if name == "fix"@ {
        Some(Channel::Fix)
    } else if name == "quality"@ {
        Some(Channel::Quality)
    } else if name == "cont_main"@ {
        Some(Channel::ContMain)
    } else if name == "cont_droug"@ {
        Some(Channel::ContDroug)
    } else {
        None
    }
}

/// Text equality of two string slices.
pub fn same_text(a: &str, b: &str) -> (r: bool)
    ensures
        r == (a@ == b@),
{
    let x: String = a.to_owned();
    let y: String = b.to_owned();
    x == y
}

impl Channel {
    /// Looks a channel up by the name that requests use for it.
    pub fn from_name(name: &str) -> (r: Option<Channel>)
        ensures
            r == channel_named(name@),
    {
        if same_text(name, "alt") {
            Some(Channel::Altitude)
        } else if same_text(name, "orx") {
            Some(Channel::Orx)
        } else if same_text(name, "ory") {
            Some(Channel::Ory)
        } else if same_text(name, "orz") {
            Some(Channel::Orz)
        } else if same_text(name, "lat") {
            Some(Channel::Lat)
        } else if same_text(name, "long") {
            Some(Channel::Long)
        } else if same_text(name, "fix") {
            Some(Channel::Fix)
        } else if same_text(name, "quality") {
            Some(Channel::Quality)
        } else if same_text(name, "cont_main") {
            Some(Channel::ContMain)
        } else if same_text(name, "cont_droug") {
            Some(Channel::ContDroug)
        } else {
            None
        }
    }
}

/// The window of `s` that a read with magnitude `points` returns: with
/// `is_neg` unset, everything after the first `points` entries (nothing when
/// `points` reaches the length); with `is_neg` set, the last `points` entries,
/// or all of them when there are fewer.
pub open spec fn window(s: Seq<Sample>, points: int, is_neg: bool) -> Seq<Sample> {
    if is_neg {
        if points >= s.len() {
            s
        } else {
            s.subrange(s.len() - points, s.len() as int)
        }
    } else if points >= s.len() {
        Seq::empty()
    } else {
        s.subrange(points, s.len() as int)
    }
}

/// Copies out the window of `data` selected by `points` and `is_neg`.
pub fn compile_vec(data: &Vec<Sample>, points: usize, is_neg: bool) -> (r: Vec<Sample>)
    ensures
        r@ == window(data@, points as int, is_neg),
{
    let len: usize = data.len();
    let start: usize = if is_neg {
        if points >= len {
            0
        } else {
            len - points
        }
    } else if points >= len {
        len
    } else {
        points
    };
    let mut res: Vec<Sample> = Vec::new();
    let mut i: usize = start;
    while i < len
        invariant
            start <= i <= len,
            len == data@.len(),
            res@ == data@.subrange(start as int, i as int),
        decreases len - i,
    {
        res.push(data[i]);
        i = i + 1;
    }
    assert(res@ =~= window(data@, points as int, is_neg));
    res
}

/// An outbound command: its name and its argument, the bit pattern of a
/// binary32 value.
#[derive(Clone, Debug)]
pub struct Command {
    pub name: String,
    pub arg: u32,
}

/// The state shared between the relay loop and the request side.
pub struct Data {
    pub altitude: Vec<Sample>,
    pub orx: Vec<Sample>,
    pub ory: Vec<Sample>,
    pub orz: Vec<Sample>,
    pub lat: Vec<Sample>,
    pub long: Vec<Sample>,
    pub fix: Vec<Sample>,
    pub quality: Vec<Sample>,
    pub cont_main: Vec<Sample>,
    pub cont_droug: Vec<Sample>,
    /// The relay loop is meant to keep running.
    pub is_alive: bool,
    /// A shutdown command has been received.
    pub do_quit: bool,
    /// Commands waiting for the relay loop, oldest first.
    pub cmds: Vec<Command>,
}

/// The sample that a report contributes to a channel.
pub open spec fn sample_for(f: RocketData, c: Channel) -> Sample {
    Sample {
        time_ms: f.time,
        value: match c {
            Channel::Altitude => Reading::Float(f.altitude),
            Channel::Orx => Reading::Float(f.orx),
            Channel::Ory => Reading::Float(f.ory),
            Channel::Orz => Reading::Float(f.orz),
            Channel::Lat => Reading::Float(f.lat),
            Channel::Long => Reading::Float(f.long),
            Channel::Fix => Reading::Level(f.fix),
            Channel::Quality => Reading::Level(f.quality),
            Channel::ContMain => Reading::Level(if f.cont2 { 1u8 } else { 0u8 }),
            Channel::ContDroug => Reading::Level(if f.cont1 { 1u8 } else { 0u8 }),
        },
    }
}

/// What a request for `points` entries of the channel called `field` returns.
pub open spec fn query_spec(d: Data, field: Seq<char>, points: int) -> Seq<Sample> {
    match channel_named(field) {
        Some(c) => window(d.channel(c), if points < 0 { -points } else { points }, points < 0),
        None => Seq::empty(),
    }
}

impl Data {
    /// The contents of a channel.
    pub open spec fn channel(&self, c: Channel) -> Seq<Sample> {
        match c {
            Channel::Altitude => self.altitude@,
            Channel::Orx => self.orx@,
            Channel::Ory => self.ory@,
            Channel::Orz => self.orz@,
            Channel::Lat => self.lat@,
            Channel::Long => self.long@,
            Channel::Fix => self.fix@,
            Channel::Quality => self.quality@,
            Channel::ContMain => self.cont_main@,
            Channel::ContDroug => self.cont_droug@,
        }
    }

    /// Empty channels and queue, with the relay meant to run.
    pub fn new() -> (r: Data)
        ensures
            forall|c: Channel| (#[trigger] r.channel(c)).len() == 0,
            r.is_alive,
            !r.do_quit,
            r.cmds@.len() == 0,
    {
        Data {
            altitude: Vec::new(),
            orx: Vec::new(),
            ory: Vec::new(),
            orz: Vec::new(),
            lat: Vec::new(),
            long: Vec::new(),
            fix: Vec::new(),
            quality: Vec::new(),
            cont_main: Vec::new(),
            cont_droug: Vec::new(),
            is_alive: true,
            do_quit: false,
            cmds: Vec::new(),
        }
    }

    /// The samples of one channel.
    pub fn samples(&self, c: Channel) -> (r: &Vec<Sample>)
        ensures
            r@ == self.channel(c),
    {
        match c {
            Channel::Altitude => &self.altitude,
            Channel::Orx => &self.orx,
            Channel::Ory => &self.ory,
            Channel::Orz => &self.orz,
            Channel::Lat => &self.lat,
            Channel::Long => &self.long,
            Channel::Fix => &self.fix,
            Channel::Quality => &self.quality,
            Channel::ContMain => &self.cont_main,
            Channel::ContDroug => &self.cont_droug,
        }
    }

    /// Reads the channel called `field`: a non-negative `points` skips that
    /// many entries from the start, a negative one asks for the last
    /// `|points|` entries. An unknown name gives nothing.
    pub fn query(&self, field: &str, points: i32) -> (r: Vec<Sample>)
        ensures
            r@ == query_spec(*self, field@, points as int),
    {
        let is_neg: bool = points < 0;
        let magnitude: usize = if is_neg {
            (0i64 - points as i64) as usize
        } else {
            points as usize
        };
        match Channel::from_name(field) {
            Some(c) => compile_vec(self.samples(c), magnitude, is_neg),
            None => Vec::new(),
        }
    }
    /// A command without argument. `quit` marks a shutdown and stops the relay
    /// loop, and the result tells the request side to stop serving after this
    /// request; any other name changes nothing.
    pub fn handle_cmd(&mut self, cmd: &str) -> (r: bool)
        ensures
            r == (cmd@ == "quit"@),
            *final(self) == (if r {
                Data { do_quit: true, is_alive: false, ..*old(self) }
            } else {
                *old(self)
            }),
    {
        if same_text(cmd, "quit") {
            self.do_quit = true;
            self.is_alive = false;
            true
        } else {
            false
        }
    }

    /// Queues a command with its argument behind those already waiting.
    pub fn handle_cmd_val(&mut self, cmd: &str, val: u32)
        ensures
            final(self).cmds@.len() == old(self).cmds@.len() + 1,
            final(self).cmds@.drop_last() == old(self).cmds@,
            final(self).cmds@.last().name@ == cmd@,
            final(self).cmds@.last().arg == val,
            *final(self) == (Data { cmds: final(self).cmds, ..*old(self) }),
    {
        self.cmds.push(Command { name: cmd.to_owned(), arg: val });
        assert(self.cmds@.drop_last() =~= old(self).cmds@);
    }

    /// Takes every queued command out, oldest first, and leaves the queue
    /// empty.
    pub fn drain(&mut self) -> (r: Vec<Command>)
        ensures
            r@ == old(self).cmds@,
            final(self).cmds@.len() == 0,
            *final(self) == (Data { cmds: final(self).cmds, ..*old(self) }),
    {
        let mut taken: Vec<Command> = Vec::new();
        std::mem::swap(&mut taken, &mut self.cmds);
        taken
    }

    /// Appends the samples of one report, one to each channel, at its time.
    pub fn record(&mut self, f: &RocketData)
        ensures
            forall|c: Channel| #[trigger]
                final(self).channel(c) == old(self).channel(c).push(sample_for(*f, c)),
            final(self).is_alive == old(self).is_alive,
            final(self).do_quit == old(self).do_quit,
            final(self).cmds == old(self).cmds,
    {
        let t = f.time;
        self.altitude.push(Sample { time_ms: t, value: Reading::Float(f.altitude) });
        self.orx.push(Sample { time_ms: t, value: Reading::Float(f.orx) });
        self.ory.push(Sample { time_ms: t, value: Reading::Float(f.ory) });
        self.orz.push(Sample { time_ms: t, value: Reading::Float(f.orz) });
        self.lat.push(Sample { time_ms: t, value: Reading::Float(f.lat) });
        self.long.push(Sample { time_ms: t, value: Reading::Float(f.long) });
        self.fix.push(Sample { time_ms: t, value: Reading::Level(f.fix) });
        self.quality.push(Sample { time_ms: t, value: Reading::Level(f.quality) });
        self.cont_droug.push(
            Sample { time_ms: t, value: Reading::Level(if f.cont1 { 1u8 } else { 0u8 }) },
        );
        self.cont_main.push(
            Sample { time_ms: t, value: Reading::Level(if f.cont2 { 1u8 } else { 0u8 }) },
        );
    }

    /// Called once the request side has stopped: the relay loop is told to
    /// stop, and the result is true when no shutdown command caused the stop.
    pub fn api_stopped(&mut self) -> (r: bool)
        ensures
            r == !old(self).do_quit,
            *final(self) == (Data { is_alive: false, ..*old(self) }),
    {
        self.is_alive = false;
        !self.do_quit
    }
}

/// A read that skips nothing returns the whole channel, in arrival order.
pub proof fn lemma_query_from_start(d: Data, field: Seq<char>, c: Channel)
    requires
        channel_named(field) == Some(c),
    ensures
        query_spec(d, field, 0) == d.channel(c),
{
    let s = d.channel(c);
    if s.len() > 0 {
        assert(s.subrange(0, s.len() as int) =~= s);
    }
}

/// A read that skips at least the whole channel returns nothing.
pub proof fn lemma_query_skip_past_end(d: Data, field: Seq<char>, c: Channel, points: int)
    requires
        channel_named(field) == Some(c),
        points >= d.channel(c).len(),
    ensures
        query_spec(d, field, points) == Seq::<Sample>::empty(),
{
}

/// A read of `-m` returns the last `min(m, length)` entries: the whole
/// channel once `m` reaches its length.
pub proof fn lemma_query_tail(d: Data, field: Seq<char>, c: Channel, m: int)
    requires
        channel_named(field) == Some(c),
        m > 0,
    ensures
        ({
            let s = d.channel(c);
            let k = if m < s.len() { m } else { s.len() as int };
            &&& query_spec(d, field, -m) == s.subrange(s.len() - k, s.len() as int)
            &&& query_spec(d, field, -m).len() == k
            &&& m >= s.len() ==> query_spec(d, field, -m) == s
        }),
{
    let s = d.channel(c);
    if m >= s.len() {
        assert(s.subrange(0, s.len() as int) =~= s);
    }
}

} // verus!
