//! Visual constants and the place of the log file.

use vstd::prelude::*;
use vstd::string::StringExecFns;

verus! {

/// Name of the program, used for its data directory and its log file.
pub const APP_NAME: &'static str = "wm";

/// Gap between tiled windows, in pixels.
pub const GAP_SIZE: u16 = 2;

/// Width of a frame's border, in pixels.
pub const BORDER_SIZE: u16 = 2;

/// Height of the bar at the top of a frame, in pixels.
pub const WINDOW_BAR_HEIGHT: u16 = 20;

/// Border colour of a frame that does not hold the focus.
pub const BORDER_COLOR: u32 = 0x0044_4444;

/// Border colour of the frame that holds the focus.
pub const BORDER_COLOR_ACTIVE: u32 = 0x0052_94e2;

/// Background colour of a frame.
pub const FRAME_BACKGROUND: u32 = 0;

/// Where the data directory lies: the directory that the data home or the
/// home directory names, and which of the two it was.
#[derive(Debug, Clone)]
pub struct DataDir {
    /// The value of the variable.
    pub base: String,
    /// The base is the home directory, so the data directory lies under
    /// `.local/share` in it; otherwise it lies directly in the base.
    pub under_home: bool,
}

/// Why no data directory is known.
#[derive(Debug, Clone, Copy, PartialEq, Eq, Structural)]
pub enum ConfigError {
    /// Neither the data home nor the home directory is set.
    NoHome,
}

/// The directory names that lead from a base to the data directory.
pub open spec fn data_dir_components(under_home: bool) -> Seq<Seq<char>> {
    if under_home {
        seq![".local"@, "share"@, "wm"@]
    } else {
        seq!["wm"@]
    }
}

impl DataDir {
    /// The names of the directories to append to the base, in order.
    pub fn components(&self) -> (r: Vec<&'static str>)
        ensures
            r@.len() == data_dir_components(self.under_home).len(),
            forall|i: int| 0 <= i < r@.len() ==> (#[trigger] r@[i])@ == data_dir_components(
                self.under_home,
            )[i],
    {
        let mut parts: Vec<&'static str> = Vec::new();
        if self.under_home {
            parts.push(".local");
            parts.push("share");
        }
        parts.push(APP_NAME);
        parts
    }
}

/// The data directory: under the data home where one is set, else under the
/// home directory; an error where neither is set.
pub fn get_data_dir(data_home: Option<String>, home: Option<String>) -> (r: Result<
    DataDir,
    ConfigError,
>)
    ensures
        match (data_home, home) {
            (Some(base), _) => r == Ok::<DataDir, ConfigError>(
                DataDir { base, under_home: false },
            ),
            (None, Some(base)) => r == Ok::<DataDir, ConfigError>(
                DataDir { base, under_home: true },
            ),
            (None, None) => r == Err::<DataDir, ConfigError>(ConfigError::NoHome),
        },
{
    match data_home {
        Some(base) => Ok(DataDir { base, under_home: false }),
        None => match home {
            Some(base) => Ok(DataDir { base, under_home: true }),
            None => Err(ConfigError::NoHome),
        },
    }
}

/// The data directory and, in it, the name of the log file.
pub fn get_log_file(data_home: Option<String>, home: Option<String>) -> (r: Result<
    (DataDir, String),
    ConfigError,
>)
    ensures
        match (data_home, home) {
            (Some(base), _) => r is Ok && r.unwrap().0 == (DataDir { base, under_home: false }),
            (None, Some(base)) => r is Ok && r.unwrap().0 == (DataDir { base, under_home: true }),
            (None, None) => r == Err::<(DataDir, String), ConfigError>(ConfigError::NoHome),
        },
        r is Ok ==> r.unwrap().1@ == "wm.log"@,
{
    match get_data_dir(data_home, home) {
        Ok(dir) => {
            let mut file = String::from_str(APP_NAME);
            file.append(".log");
            proof {
                reveal_strlit("wm");
                reveal_strlit(".log");
                reveal_strlit("wm.log");
            }
            assert(file@ =~= "wm.log"@);
            Ok((dir, file))
        },
        Err(e) => Err(e),
    }
}

} // verus!
