//! How the program logs: the configuration and the settings it gives.
use vstd::prelude::*;
use vstd::string::*;
use crate::text::{parse_integer, parse_integer_str, str_eq};

verus! {

/// The logging configuration.
#[derive(Debug, Clone)]
pub struct Config {
    /// The directory of the log files.
    pub dir: String,
    /// The prefix of the log files' names.
    pub name: String,
    /// How many log files are kept; older ones are deleted. With none set
    /// no file is deleted.
    pub keep: Option<usize>,
    /// The lowest level logged; `DEBUG` when not set.
    pub level: Option<String>,
    /// How long one log file is written to; daily when not set.
    pub rotation: Option<String>,
}

/// The levels of log records.
#[derive(Debug, Clone, Copy, PartialEq, Eq, Structural)]
pub enum LogLevel {
    TRACE,
    DEBUG,
    INFO,
    WARN,
    ERROR,
}

/// How often a new log file is started.
#[derive(Debug, Clone, Copy, PartialEq, Eq, Structural)]
pub enum Rotation {
    DAILY,
    HOURLY,
    MINUTELY,
    NEVER,
}

/// The level a name names.
pub open spec fn level_of(s: Seq<char>) -> Option<LogLevel> {
    if s == "TRACE"@ {
        Some(LogLevel::TRACE)
    } else if s == "DEBUG"@ {
        Some(LogLevel::DEBUG)
    } else if s == "INFO"@ {
        Some(LogLevel::INFO)
    } else if s == "WARN"@ {
        Some(LogLevel::WARN)
    } else if s == "ERROR"@ {
        Some(LogLevel::ERROR)
    } else {
        None
    }
}

/// The rotation a name names: `DALY` (the name the configuration uses for
/// daily), `HOURLY`, `MINUTELY` or `NEVER`.
pub open spec fn rotation_of(s: Seq<char>) -> Option<Rotation> {
    if s == "DALY"@ {
        Some(Rotation::DAILY)
    } else if s == "HOURLY"@ {
        Some(Rotation::HOURLY)
    } else if s == "MINUTELY"@ {
        Some(Rotation::MINUTELY)
    } else if s == "NEVER"@ {
        Some(Rotation::NEVER)
    } else {
        None
    }
}

/// The level named by `s`.
pub fn parse_level(s: &str) -> (r: Option<LogLevel>)
    ensures
        r == level_of(s@),
{
    proof {
        reveal_strlit("TRACE");
        reveal_strlit("DEBUG");
        reveal_strlit("INFO");
        reveal_strlit("WARN");
        reveal_strlit("ERROR");
    }
    if str_eq(s, "TRACE") {
        Some(LogLevel::TRACE)
    } else if str_eq(s, "DEBUG") {
        Some(LogLevel::DEBUG)
    } else if str_eq(s, "INFO") {
        Some(LogLevel::INFO)
    } else if str_eq(s, "WARN") {
        Some(LogLevel::WARN)
    } else if str_eq(s, "ERROR") {
        Some(LogLevel::ERROR)
    } else {
        None
    }
}

/// The rotation named by `s`.
pub fn parse_rotation(s: &str) -> (r: Option<Rotation>)
    ensures
        r == rotation_of(s@),
{
    proof {
        reveal_strlit("DALY");
        reveal_strlit("HOURLY");
        reveal_strlit("MINUTELY");
        reveal_strlit("NEVER");
    }
    if str_eq(s, "DALY") {
        Some(Rotation::DAILY)
    } else if str_eq(s, "HOURLY") {
        Some(Rotation::HOURLY)
    } else if str_eq(s, "MINUTELY") {
        Some(Rotation::MINUTELY)
    } else if str_eq(s, "NEVER") {
        Some(Rotation::NEVER)
    } else {
        None
    }
}

/// The settings of the program's logging.
#[derive(Debug, Clone)]
pub struct LoggingPlan {
    pub dir: String,
    pub name: String,
    pub keep: Option<usize>,
    pub level: LogLevel,
    pub rotation: Rotation,
}

/// The settings a configuration gives: its directory, name and number of
/// files kept, its level or `DEBUG`, and its rotation or daily. `None` when
/// the level or the rotation names none.
pub fn logging_plan(c: &Config) -> (r: Option<LoggingPlan>)
    ensures
        (c.rotation matches Some(s) && rotation_of(s@) is None) || (c.level matches Some(s) && level_of(s@) is None)
            ==> r is None,
        !((c.rotation matches Some(s) && rotation_of(s@) is None) || (c.level matches Some(s) && level_of(s@) is None))
            ==> (r matches Some(p) && p.dir@ == c.dir@ && p.name@ == c.name@ && p.keep == c.keep
            && p.level == match c.level { Some(s) => level_of(s@)->0, None => LogLevel::DEBUG }
            && p.rotation == match c.rotation { Some(s) => rotation_of(s@)->0, None => Rotation::DAILY }),
{
    let rotation = match &c.rotation {
        Some(s) => match parse_rotation(s.as_str()) {
            Some(r) => r,
            None => return None,
        },
        None => Rotation::DAILY,
    };
    let level = match &c.level {
        Some(s) => match parse_level(s.as_str()) {
            Some(l) => l,
            None => return None,
        },
        None => LogLevel::DEBUG,
    };
    Some(LoggingPlan { dir: c.dir.clone(), name: c.name.clone(), keep: c.keep, level, rotation })
}

impl Config {
    /// The configuration the environment gives: the directory and file name,
    /// and where set the number of files kept, the level and the rotation;
    /// `None` when the number of files kept is set but is not a `usize`.
    pub fn from_settings(dir: String, name: String, keep: Option<String>, level: Option<String>, rotation: Option<String>) -> (r: Option<Config>)
        ensures
            (keep matches Some(k) && parse_integer(k@, 0, usize::MAX as int) is Err) ==> r is None,
            !(keep matches Some(k) && parse_integer(k@, 0, usize::MAX as int) is Err) ==> (r matches Some(c)
                && c.dir == dir && c.name == name && c.level == level && c.rotation == rotation
                && c.keep == match keep {
                    Some(k) => Some(parse_integer(k@, 0, usize::MAX as int)->Ok_0 as usize),
                    None => None::<usize>,
                }),
    {
        let keep = match keep {
            Some(k) => match parse_integer_str(k.as_str(), 0, usize::MAX as i128) {
                Ok(v) => Some(v as usize),
                Err(_) => return None,
            },
            None => None,
        };
        Some(Config { dir, name, keep, level, rotation })
    }
}

} // verus!
