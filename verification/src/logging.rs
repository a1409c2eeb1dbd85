//! Where the application log goes and how its files are named.

use crate::config::resolve_app_path;
use crate::paths::beside;
use vstd::prelude::*;

verus! {

/// The directory of the application log, beside the executable.
pub const DEFAULT_LOG_DIR: &'static str = "logs";

/// The first part of a log file's name.
pub const DEFAULT_LOG_PREFIX: &'static str = "tltoolbox";

/// The last part of a log file's name.
pub const DEFAULT_LOG_SUFFIX: &'static str = "log";

/// How many log files are kept.
pub const MAX_LOG_FILES: usize = 15;

/// The directory of the application log, as [`resolve_app_path`] places it.
pub fn log_directory(exe_dir: Option<&str>) -> (r: String)
    ensures
        beside(exe_dir, DEFAULT_LOG_DIR@, r@),
{
    proof {
        reveal_strlit("logs");
    }
    resolve_app_path(DEFAULT_LOG_DIR, exe_dir)
}

/// The name of the log file of a day.
pub open spec fn file_name_of(date: Seq<char>) -> Seq<char> {
    DEFAULT_LOG_PREFIX@ + "."@ + date + "."@ + DEFAULT_LOG_SUFFIX@
}

/// The name of the log file of a day.
pub fn log_file_name(date: &str) -> (r: String)
    ensures
        r@ == file_name_of(date@),
{
    let mut r = DEFAULT_LOG_PREFIX.to_owned();
    r.append(".");
    r.append(date);
    r.append(".");
    r.append(DEFAULT_LOG_SUFFIX);
    r
}

/// Where the log goes.
#[derive(Debug, Clone, Copy, PartialEq, Eq, Structural)]
pub struct LogOutputs {
    pub file: bool,
    pub console: bool,
}

/// Where the log goes: into the file wherever it could be opened, and to the console of
/// a debug build.
pub fn log_outputs(file_opened: bool, debug_build: bool) -> (r: LogOutputs)
    ensures
        r.file == file_opened,
        r.console == debug_build,
{
    LogOutputs { file: file_opened, console: debug_build }
}

/// Why the log directory could not be created.
pub fn directory_failure(directory: &str, source: &str) -> (r: String)
    ensures
        r@ == "无法创建日志目录 '"@ + directory@ + "': "@ + source@,
{
    let mut r = "无法创建日志目录 '".to_owned();
    r.append(directory);
    r.append("': ");
    r.append(source);
    r
}

/// Why the log file could not be opened.
pub fn file_failure(directory: &str, source: &str) -> (r: String)
    ensures
        r@ == "无法打开日志文件 '"@ + file_name_of("YYYY-MM-DD"@) + "'（目录: "@ + directory@
            + "）: "@ + source@,
{
    let mut r = "无法打开日志文件 '".to_owned();
    r.append(log_file_name("YYYY-MM-DD").as_str());
    r.append("'（目录: ");
    r.append(directory);
    r.append("）: ");
    r.append(source);
    r
}

/// What is said on the console when there is no log file.
pub fn degraded_notice(directory: &str, debug_build: bool, source: &str) -> (r: String)
    ensures
        r@ == "[tltoolbox] 日志目录初始化失败（"@ + directory@ + "），本次运行"@ + (if debug_build {
            "降级为仅控制台、无"@
        } else {
            "无"@
        }) + "日志文件输出: "@ + source@,
{
    let mut r = "[tltoolbox] 日志目录初始化失败（".to_owned();
    r.append(directory);
    r.append("），本次运行");
    r.append(
        if debug_build {
            "降级为仅控制台、无"
        } else {
            "无"
        },
    );
    r.append("日志文件输出: ");
    r.append(source);
    r
}

/// The log of each day has a file of its own, whose name tells the day.
pub proof fn law_each_day_has_its_file(date: Seq<char>, other: Seq<char>)
    ensures
        file_name_of(date) == "tltoolbox."@ + date + ".log"@,
        file_name_of(date) == file_name_of(other) ==> date == other,
{
    reveal_strlit("tltoolbox");
    reveal_strlit("tltoolbox.");
    reveal_strlit("log");
    reveal_strlit(".log");
    reveal_strlit(".");
    assert("tltoolbox"@ + "."@ =~= "tltoolbox."@);
    assert("."@ + "log"@ =~= ".log"@);
    assert(file_name_of(date) =~= "tltoolbox."@ + date + ".log"@);
    assert(file_name_of(other) =~= "tltoolbox."@ + other + ".log"@);
    if file_name_of(date) == file_name_of(other) {
        assert(file_name_of(date).len() == 10 + date.len() + 4);
        assert(file_name_of(other).len() == 10 + other.len() + 4);
        assert forall|i: int| 0 <= i < date.len() implies date[i] == other[i] by {
            assert(file_name_of(date)[10 + i] == date[i]);
            assert(file_name_of(other)[10 + i] == other[i]);
        }
        assert(date =~= other);
    }
}

} // verus!
