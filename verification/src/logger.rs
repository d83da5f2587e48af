//! Diagnostic log lines: which ones are shown, and how they read (`LEVEL msg key=val ...`).

use vstd::prelude::*;
use crate::text::{chars_of, extend_chars, string_of};

verus! {

/// How important a log line is.
#[derive(Debug, Clone, Copy, PartialEq, Eq, Structural)]
pub enum Level {
    Debug,
    Info,
    Warn,
    Error,
}

pub open spec fn rank(l: Level) -> int {
    match l {
        Level::Debug => 0,
        Level::Info => 1,
        Level::Warn => 2,
        Level::Error => 3,
    }
}

fn rank_exec(l: Level) -> (r: u8)
    ensures
        r == rank(l),
{
    match l {
        Level::Debug => 0,
        Level::Info => 1,
        Level::Warn => 2,
        Level::Error => 3,
    }
}

/// The logging settings: silence, colour, and the lowest level shown (warnings by default).
#[derive(Debug, Clone, Copy)]
pub struct Logger {
    pub quiet: bool,
    pub no_color: bool,
    pub level: Level,
}

/// The text of a log line: the label (in colour when `color` is given), the message, and
/// ` key=value` for each pair.
pub open spec fn line_spec(label: Seq<char>, color: Option<Seq<char>>, msg: Seq<char>, kvs: Seq<(Seq<char>, Seq<char>)>) -> Seq<
    char,
> {
    let head = match color {
        Some(c) => c + label + "\x1b[0m"@,
        None => label,
    };
    head + " "@ + msg + pairs_spec(kvs)
}

pub open spec fn pairs_spec(kvs: Seq<(Seq<char>, Seq<char>)>) -> Seq<char>
    decreases kvs.len(),
{
    if kvs.len() == 0 {
        Seq::empty()
    } else {
        pairs_spec(kvs.drop_last()) + " "@ + kvs.last().0 + "="@ + kvs.last().1
    }
}

pub open spec fn kv_views(kvs: Seq<(&str, String)>) -> Seq<(Seq<char>, Seq<char>)> {
    kvs.map_values(|p: (&str, String)| (p.0@, p.1@))
}

/// The label and the colour code of a level.
pub open spec fn label_of(l: Level) -> (Seq<char>, Seq<char>) {
    match l {
        Level::Debug => ("DEBU"@, "\x1b[35m"@),
        Level::Info => ("INFO"@, "\x1b[36m"@),
        Level::Warn => ("WARN"@, "\x1b[33m"@),
        Level::Error => ("ERRO"@, "\x1b[31m"@),
    }
}

/// `r` is what `log` gives for a message of this level: nothing when silenced or below the
/// lowest level shown, else the line (in colour when colour is on and `tty`).
pub open spec fn logged(
    lg: Logger,
    level: Level,
    msg: Seq<char>,
    kvs: Seq<(Seq<char>, Seq<char>)>,
    tty: bool,
    r: Option<String>,
) -> bool {
    if lg.quiet || rank(level) < rank(lg.level) {
        r is None
    } else {
        r matches Some(l) && l@ == line_spec(
            label_of(level).0,
            if !lg.no_color && tty {
                Some(label_of(level).1)
            } else {
                None
            },
            msg,
            kvs,
        )
    }
}

impl Logger {
    /// Warnings and errors shown, in colour.
    pub fn new() -> (r: Logger)
        ensures
            !r.quiet && !r.no_color && r.level == Level::Warn,
    {
        Logger { quiet: false, no_color: false, level: Level::Warn }
    }

    /// Silences every line (or not).
    pub fn set_quiet(&mut self, quiet: bool)
        ensures
            *final(self) == (Logger { quiet, ..*old(self) }),
    {
        self.quiet = quiet;
    }

    /// Turns colour off (or on).
    pub fn set_no_color(&mut self, no_color: bool)
        ensures
            *final(self) == (Logger { no_color, ..*old(self) }),
    {
        self.no_color = no_color;
    }

    /// Sets the lowest level shown.
    pub fn set_level(&mut self, level: Level)
        ensures
            *final(self) == (Logger { level, ..*old(self) }),
    {
        self.level = level;
    }

    /// Whether a line of this level is shown: not silenced, and at least the lowest level.
    pub fn shows(&self, level: Level) -> (r: bool)
        ensures
            r == (!self.quiet && rank(level) >= rank(self.level)),
    {
        !self.quiet && rank_exec(level) >= rank_exec(self.level)
    }

    /// The line for a message of this level, when it is shown; in colour when colour is on
    /// and the output is a terminal (`tty`).
    pub fn log(&self, level: Level, msg: &str, kvs: &[(&str, String)], tty: bool) -> (r: Option<String>)
        ensures
            logged(*self, level, msg@, kv_views(kvs@), tty, r),
    {
        if !self.shows(level) {
            return None;
        }
        let (label, color) = match level {
            Level::Debug => ("DEBU", "\x1b[35m"),
            Level::Info => ("INFO", "\x1b[36m"),
            Level::Warn => ("WARN", "\x1b[33m"),
            Level::Error => ("ERRO", "\x1b[31m"),
        };
        let mut line: Vec<char> = Vec::new();
        proof {
            reveal_strlit(" ");
            reveal_strlit("=");
        }
        if !self.no_color && tty {
            extend_chars(&mut line, &chars_of(color));
            extend_chars(&mut line, &chars_of(label));
            extend_chars(&mut line, &chars_of("\x1b[0m"));
        } else {
            extend_chars(&mut line, &chars_of(label));
        }
        extend_chars(&mut line, &chars_of(" "));
        extend_chars(&mut line, &chars_of(msg));
        let ghost head = line@;
        let mut i: usize = 0;
        while i < kvs.len()
            invariant
                i <= kvs@.len(),
                line@ == head + pairs_spec(kv_views(kvs@).take(i as int)),
            decreases kvs.len() - i,
        {
            assert(kv_views(kvs@).take(i + 1).drop_last() =~= kv_views(kvs@).take(i as int));
            extend_chars(&mut line, &chars_of(" "));
            extend_chars(&mut line, &chars_of(kvs[i].0));
            extend_chars(&mut line, &chars_of("="));
            extend_chars(&mut line, &chars_of(kvs[i].1.as_str()));
            assert(line@ =~= head + pairs_spec(kv_views(kvs@).take(i + 1)));
            i += 1;
        }
        assert(kv_views(kvs@).take(kvs@.len() as int) =~= kv_views(kvs@));
        Some(string_of(&line))
    }

    /// A warning line (see `log`).
    pub fn warn(&self, msg: &str, kvs: &[(&str, String)], tty: bool) -> (r: Option<String>)
        ensures
            logged(*self, Level::Warn, msg@, kv_views(kvs@), tty, r),
    {
        self.log(Level::Warn, msg, kvs, tty)
    }

    /// An informational line (see `log`).
    pub fn info(&self, msg: &str, kvs: &[(&str, String)], tty: bool) -> (r: Option<String>)
        ensures
            logged(*self, Level::Info, msg@, kv_views(kvs@), tty, r),
    {
        self.log(Level::Info, msg, kvs, tty)
    }

    /// A debugging line (see `log`).
    pub fn debug(&self, msg: &str, kvs: &[(&str, String)], tty: bool) -> (r: Option<String>)
        ensures
            logged(*self, Level::Debug, msg@, kv_views(kvs@), tty, r),
    {
        self.log(Level::Debug, msg, kvs, tty)
    }

    /// An error line (see `log`).
    pub fn error(&self, msg: &str, kvs: &[(&str, String)], tty: bool) -> (r: Option<String>)
        ensures
            logged(*self, Level::Error, msg@, kv_views(kvs@), tty, r),
    {
        self.log(Level::Error, msg, kvs, tty)
    }

    /// A warning line without key-value pairs.
    pub fn warn_msg(&self, msg: &str, tty: bool) -> (r: Option<String>)
        ensures
            logged(*self, Level::Warn, msg@, Seq::empty(), tty, r),
    {
        let none: Vec<(&str, String)> = Vec::new();
        assert(kv_views(none@) =~= Seq::<(Seq<char>, Seq<char>)>::empty());
        self.warn(msg, &none, tty)
    }
}

} // verus!
