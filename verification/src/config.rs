//! What a run of the fetch pipeline can be told: where the corpus, the
//! work-list and the journal are, how many workers there are, and how long
//! to wait.
//!
//! Every setting has a default. A setting is overridden by the name of its
//! option and a value, both as text, as they come from the command line or
//! the environment.

use crate::fetch::{pipeline_of, Pipeline, NUM_THREADS, RESUME_LOG_FILEPATH};
use crate::local::{CORPUS_ROOT_PATH, IDS_TO_UPDATE_FILEPATH};
use crate::text::{number_of, parse_number, same_text};
use vstd::prelude::*;
use vstd::string::StringExecFns;

verus! {

/// Seconds that one request may take where nothing else is configured.
pub const TIMEOUT_SECS: u64 = 120;

/// Seconds to wait after each batch where nothing else is configured.
pub const BATCH_DELAY_SECS: u64 = 1;

/// Option that sets the root of the corpus.
pub const OPTION_CORPUS_ROOT: &'static str = "corpus-root";

/// Option that sets the path of the work-list.
pub const OPTION_WORK_LIST: &'static str = "work-list";

/// Option that sets the path of the journal.
pub const OPTION_JOURNAL: &'static str = "journal";

/// Option that sets the path of the list of locally known identifiers, and
/// with it restricts a run to these.
pub const OPTION_LOCAL_IDS: &'static str = "local-ids";

/// Option that sets the width of the worker pool.
pub const OPTION_WIDTH: &'static str = "width";

/// Option that sets the seconds that one request may take.
pub const OPTION_TIMEOUT: &'static str = "timeout";

/// Option that sets the seconds to wait after each batch.
pub const OPTION_DELAY: &'static str = "delay";

/// Option that says whether an identifier that exhausted its attempts is
/// journaled like the others. Its values are `VALUE_YES` and `VALUE_NO`.
pub const OPTION_RECORD_EXHAUSTED: &'static str = "record-exhausted";

/// The value that switches an option on.
pub const VALUE_YES: &'static str = "yes";

/// The value that switches an option off.
pub const VALUE_NO: &'static str = "no";

/// The settings of a run.
#[derive(Clone, Debug, PartialEq, Eq)]
pub struct Config {
    /// Root of the corpus.
    pub corpus_root: String,
    /// Path of the work-list.
    pub work_list_path: String,
    /// Path of the journal.
    pub journal_path: String,
    /// Path of the list of locally known identifiers, where a run is
    /// restricted to these.
    pub local_ids_path: Option<String>,
    /// Width of the worker pool, which is the size of a batch.
    pub width: usize,
    /// Seconds that one request may take.
    pub timeout_secs: u64,
    /// Seconds to wait after each batch.
    pub batch_delay_secs: u64,
    /// Whether an identifier that exhausted its attempts is journaled like
    /// the others, and so left alone by later runs.
    pub record_exhausted: bool,
}

/// The settings of a run as contracts see them.
pub struct ConfigModel {
    pub corpus_root: Seq<char>,
    pub work_list_path: Seq<char>,
    pub journal_path: Seq<char>,
    pub local_ids_path: Option<Seq<char>>,
    pub width: nat,
    pub timeout_secs: nat,
    pub batch_delay_secs: nat,
    pub record_exhausted: bool,
}

impl View for Config {
    type V = ConfigModel;

    open spec fn view(&self) -> ConfigModel {
        ConfigModel {
            corpus_root: self.corpus_root@,
            work_list_path: self.work_list_path@,
            journal_path: self.journal_path@,
            local_ids_path: self.local_ids_path.deep_view(),
            width: self.width as nat,
            timeout_secs: self.timeout_secs as nat,
            batch_delay_secs: self.batch_delay_secs as nat,
            record_exhausted: self.record_exhausted,
        }
    }
}

/// Why a setting was not taken.
#[derive(Clone, Copy, Debug, PartialEq, Eq, Structural)]
pub enum ConfigError {
    /// There is no option of that name.
    UnknownOption,
    /// The value of a numeric option is not a number in decimal notation,
    /// or is too large.
    NotANumber,
    /// The width of the worker pool was set to 0.
    ZeroWidth,
    /// The value of a yes-or-no option is neither.
    NotYesOrNo,
}

/// The default settings.
pub open spec fn default_config() -> ConfigModel {
    ConfigModel {
        corpus_root: CORPUS_ROOT_PATH@,
        work_list_path: IDS_TO_UPDATE_FILEPATH@,
        journal_path: RESUME_LOG_FILEPATH@,
        local_ids_path: None,
        width: NUM_THREADS as nat,
        timeout_secs: TIMEOUT_SECS as nat,
        batch_delay_secs: BATCH_DELAY_SECS as nat,
        record_exhausted: true,
    }
}

/// The number that `value` sets a numeric option to: `value` in decimal
/// notation, no larger than `max`.
pub open spec fn setting_of(value: Seq<char>, max: nat) -> Result<nat, ConfigError> {
    match number_of(value) {
        Some(n) => if n <= max {
            Ok(n)
        } else {
            Err(ConfigError::NotANumber)
        },
        None => Err(ConfigError::NotANumber),
    }
}

/// The settings `c` with the option `option` set to `value`, or why the
/// setting is not taken.
pub open spec fn configured(c: ConfigModel, option: Seq<char>, value: Seq<char>) -> Result<
    ConfigModel,
    ConfigError,
> {
    if option == OPTION_CORPUS_ROOT@ {
        Ok(ConfigModel { corpus_root: value, ..c })
    } else if option == OPTION_WORK_LIST@ {
        Ok(ConfigModel { work_list_path: value, ..c })
    } else if option == OPTION_JOURNAL@ {
        Ok(ConfigModel { journal_path: value, ..c })
    } else if option == OPTION_LOCAL_IDS@ {
        Ok(ConfigModel { local_ids_path: Some(value), ..c })
    } else if option == OPTION_WIDTH@ {
        match setting_of(value, usize::MAX as nat) {
            Ok(n) => if n == 0 {
                Err(ConfigError::ZeroWidth)
            } else {
                Ok(ConfigModel { width: n, ..c })
            },
            Err(e) => Err(e),
        }
    } else if option == OPTION_TIMEOUT@ {
        match setting_of(value, u64::MAX as nat) {
            Ok(n) => Ok(ConfigModel { timeout_secs: n, ..c }),
            Err(e) => Err(e),
        }
    } else if option == OPTION_DELAY@ {
        match setting_of(value, u64::MAX as nat) {
            Ok(n) => Ok(ConfigModel { batch_delay_secs: n, ..c }),
            Err(e) => Err(e),
        }
    } else if option == OPTION_RECORD_EXHAUSTED@ {
        if value == VALUE_YES@ {
            Ok(ConfigModel { record_exhausted: true, ..c })
        } else if value == VALUE_NO@ {
            Ok(ConfigModel { record_exhausted: false, ..c })
        } else {
            Err(ConfigError::NotYesOrNo)
        }
    } else {
        Err(ConfigError::UnknownOption)
    }
}

/// The view of a result of `Config::set`.
pub open spec fn result_view(r: Result<Config, ConfigError>) -> Result<ConfigModel, ConfigError> {
    match r {
        Ok(c) => Ok(c@),
        Err(e) => Err(e),
    }
}

impl Default for Config {
    /// The default settings.
    fn default() -> (c: Config)
        ensures
            c@ == default_config(),
    {
        Config {
            corpus_root: String::from_str(CORPUS_ROOT_PATH),
            work_list_path: String::from_str(IDS_TO_UPDATE_FILEPATH),
            journal_path: String::from_str(RESUME_LOG_FILEPATH),
            local_ids_path: None,
            width: NUM_THREADS,
            timeout_secs: TIMEOUT_SECS,
            batch_delay_secs: BATCH_DELAY_SECS,
            record_exhausted: true,
        }
    }
}

/// The number that `value` sets a numeric option to.
fn setting(value: &str, max: u64) -> (n: Result<u64, ConfigError>)
    ensures
        n == match setting_of(value@, max as nat) {
            Ok(v) => Ok::<u64, ConfigError>(v as u64),
            Err(e) => Err(e),
        },
{
    match parse_number(value) {
        Some(n) => if n <= max {
            Ok(n)
        } else {
            Err(ConfigError::NotANumber)
        },
        None => Err(ConfigError::NotANumber),
    }
}

impl Config {
    /// A run of the fetch pipeline over `work` with these settings. There is
    /// no run of width 0.
    pub fn pipeline(&self, work: Vec<String>) -> (run: Option<Pipeline>)
        ensures
            run is None <==> self.width == 0,
            run matches Some(p) ==> p@ == pipeline_of(
                work.deep_view(),
                self.width as nat,
                self.record_exhausted,
                self.batch_delay_secs as nat,
            ),
    {
        Pipeline::new(work, self.width, self.record_exhausted, self.batch_delay_secs)
    }

    /// These settings with the option `option` set to `value`.
    pub fn set(self, option: &str, value: &str) -> (r: Result<Config, ConfigError>)
        ensures
            result_view(r) == configured(self@, option@, value@),
    {
        if same_text(option, OPTION_CORPUS_ROOT) {
            Ok(Config { corpus_root: String::from_str(value), ..self })
        } else if same_text(option, OPTION_WORK_LIST) {
            Ok(Config { work_list_path: String::from_str(value), ..self })
        } else if same_text(option, OPTION_JOURNAL) {
            Ok(Config { journal_path: String::from_str(value), ..self })
        } else if same_text(option, OPTION_LOCAL_IDS) {
            Ok(Config { local_ids_path: Some(String::from_str(value)), ..self })
        } else if same_text(option, OPTION_WIDTH) {
            match setting(value, usize::MAX as u64) {
                Ok(n) => if n == 0 {
                    Err(ConfigError::ZeroWidth)
                } else {
                    Ok(Config { width: n as usize, ..self })
                },
                Err(e) => Err(e),
            }
        } else if same_text(option, OPTION_TIMEOUT) {
            match setting(value, u64::MAX) {
                Ok(n) => Ok(Config { timeout_secs: n, ..self }),
                Err(e) => Err(e),
            }
        } else if same_text(option, OPTION_DELAY) {
            match setting(value, u64::MAX) {
                Ok(n) => Ok(Config { batch_delay_secs: n, ..self }),
                Err(e) => Err(e),
            }
        } else if same_text(option, OPTION_RECORD_EXHAUSTED) {
            if same_text(value, VALUE_YES) {
                Ok(Config { record_exhausted: true, ..self })
            } else if same_text(value, VALUE_NO) {
                Ok(Config { record_exhausted: false, ..self })
            } else {
                Err(ConfigError::NotYesOrNo)
            }
        } else {
            Err(ConfigError::UnknownOption)
        }
    }
}

} // verus!
