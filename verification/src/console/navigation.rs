//! Cursor and scroll arithmetic shared by the console's lists and log view.
use vstd::prelude::*;
use wasserxr::scene::logging::LogLevel;

verus! {

/// Rank of a log level: DEBUG 0, INFO 1, WARN 2, ERROR 3.
pub open spec fn level_rank(level: LogLevel) -> nat {
    match level {
        LogLevel::DEBUG => 0,
        LogLevel::INFO => 1,
        LogLevel::WARN => 2,
        LogLevel::ERROR => 3,
    }
}

/// The level with the given rank.
pub open spec fn level_of_rank(rank: nat) -> LogLevel {
    if rank == 0 {
        LogLevel::DEBUG
    } else if rank == 1 {
        LogLevel::INFO
    } else if rank == 2 {
        LogLevel::WARN
    } else {
        LogLevel::ERROR
    }
}

/// The next less verbose level; Error stays Error.
pub open spec fn level_up(level: LogLevel) -> LogLevel {
    level_of_rank(if level_rank(level) < 3 { level_rank(level) + 1 } else { 3 })
}

/// The next more verbose level; Debug stays Debug.
pub open spec fn level_down(level: LogLevel) -> LogLevel {
    level_of_rank(if level_rank(level) > 0 { (level_rank(level) - 1) as nat } else { 0 })
}

/// Moves the level filter one step towards Error.
pub fn log_level_add(level: LogLevel) -> (r: LogLevel)
    ensures
        r == level_up(level),
{
    match level {
        LogLevel::DEBUG => LogLevel::INFO,
        LogLevel::INFO => LogLevel::WARN,
        LogLevel::WARN | LogLevel::ERROR => LogLevel::ERROR,
    }
}

/// Moves the level filter one step towards Debug.
pub fn log_level_sub(level: LogLevel) -> (r: LogLevel)
    ensures
        r == level_down(level),
{
    match level {
        LogLevel::DEBUG | LogLevel::INFO => LogLevel::DEBUG,
        LogLevel::WARN => LogLevel::INFO,
        LogLevel::ERROR => LogLevel::WARN,
    }
}

/// The rank of a level, as an index into the level tabs.
pub fn log_level_index(level: LogLevel) -> (r: usize)
    ensures
        r == level_rank(level),
{
    match level {
        LogLevel::DEBUG => 0,
        LogLevel::INFO => 1,
        LogLevel::WARN => 2,
        LogLevel::ERROR => 3,
    }
}

/// One step down a wrapping list of `len` items.
pub open spec fn add_with_loop(index: int, len: int) -> int {
    if len == 0 {
        0
    } else {
        (index + 1) % len
    }
}

/// One step up a wrapping list of `len` items.
pub open spec fn sub_with_loop(index: int, len: int) -> int {
    if len == 0 {
        0
    } else if index == 0 {
        len - 1
    } else {
        index - 1
    }
}

/// One step forward, stopping at `len`.
pub open spec fn add_no_loop(index: int, len: int) -> int {
    if index + 1 <= len {
        index + 1
    } else {
        len
    }
}

/// One step back, stopping at 0.
pub open spec fn sub_no_loop(index: int) -> int {
    if index == 0 {
        0
    } else {
        index - 1
    }
}

/// Moves one step forward without passing `len`.
pub fn index_add_no_loop(index: usize, len: usize) -> (r: usize)
    ensures
        r == (if index < usize::MAX { add_no_loop(index as int, len as int) } else if len
            < usize::MAX { len as int } else { usize::MAX as int }),
        index < len ==> r == index + 1,
        r <= len || r == index,
{
    let next = if index < usize::MAX {
        index + 1
    } else {
        usize::MAX
    };
    if next < len {
        next
    } else {
        len
    }
}

/// Moves one step down a list of `len` items, wrapping from the last item to
/// the first. An empty list keeps the cursor at 0.
pub fn index_add_with_loop(index: usize, len: usize) -> (r: usize)
    requires
        len > 0 ==> index < usize::MAX,
    ensures
        r == add_with_loop(index as int, len as int),
        len > 0 ==> r < len,
{
    if len == 0 {
        0
    } else {
        (index + 1) % len
    }
}

/// Moves one step back without going below 0.
pub fn index_sub_no_loop(index: usize) -> (r: usize)
    ensures
        r == sub_no_loop(index as int),
{
    if index == 0 {
        0
    } else {
        index - 1
    }
}

/// Moves one step up a list of `len` items, wrapping from the first item to
/// the last. An empty list keeps the cursor at 0.
pub fn index_sub_with_loop(index: usize, len: usize) -> (r: usize)
    ensures
        r == sub_with_loop(index as int, len as int),
        len > 0 && index <= len ==> r < len,
{
    if len == 0 {
        0
    } else if index == 0 {
        len - 1
    } else {
        index - 1
    }
}

/// In a wrapping list, a step down undoes a step up and a step up undoes a
/// step down, and both keep the cursor inside the list.
pub proof fn lemma_loop_steps_undo(index: int, len: int)
    requires
        0 <= index < len,
    ensures
        add_with_loop(sub_with_loop(index, len), len) == index,
        sub_with_loop(add_with_loop(index, len), len) == index,
        0 <= add_with_loop(index, len) < len,
        0 <= sub_with_loop(index, len) < len,
{
    if index + 1 == len {
        assert((index + 1) % len == 0) by (nonlinear_arith)
            requires
                index + 1 == len,
                len > 0,
        ;
    } else {
        assert((index + 1) % len == index + 1) by (nonlinear_arith)
            requires
                0 <= index + 1 < len,
        ;
    }
    if index == 0 {
        assert((len - 1 + 1) % len == 0) by (nonlinear_arith)
            requires
                len > 0,
        ;
    } else {
        assert((index - 1 + 1) % len == index) by (nonlinear_arith)
            requires
                0 <= index < len,
        ;
    }
}

/// Largest scroll offset of a log of `log_count` display lines in a view
/// `visible_lines` high (a view of height 0 counts as one line).
pub open spec fn log_scroll_limit(log_count: int, visible_lines: int) -> int {
    let visible = if visible_lines < 1 { 1 } else { visible_lines };
    if log_count > visible {
        log_count - visible
    } else {
        0
    }
}

/// Largest scroll offset that still fills the view.
pub fn max_log_scroll(log_count: usize, visible_lines: u16) -> (r: usize)
    ensures
        r == log_scroll_limit(log_count as int, visible_lines as int),
{
    let visible: usize = if visible_lines < 1 {
        1
    } else {
        visible_lines as usize
    };
    if log_count > visible {
        log_count - visible
    } else {
        0
    }
}

/// A scroll offset pulled back into the valid range.
pub fn clamp_log_scroll(scroll: usize, log_count: usize, visible_lines: u16) -> (r: usize)
    ensures
        r == (if scroll <= log_scroll_limit(log_count as int, visible_lines as int) {
            scroll as int
        } else {
            log_scroll_limit(log_count as int, visible_lines as int)
        }),
        r <= log_scroll_limit(log_count as int, visible_lines as int),
{
    let limit = max_log_scroll(log_count, visible_lines);
    if scroll <= limit {
        scroll
    } else {
        limit
    }
}

/// A level filter moved up and then down again is unchanged, except at the
/// Error end, where moving up has no effect.
pub proof fn lemma_level_steps_undo(level: LogLevel)
    ensures
        level != LogLevel::ERROR ==> level_down(level_up(level)) == level,
        level != LogLevel::DEBUG ==> level_up(level_down(level)) == level,
        level_up(LogLevel::ERROR) == LogLevel::ERROR,
        level_down(LogLevel::DEBUG) == LogLevel::DEBUG,
{
}

/// The levels run Debug, Info, Warn, Error: moving up goes one level towards
/// Error and stops there, moving down one level towards Debug and stops
/// there.
pub proof fn law_level_order(level: LogLevel)
    ensures
        level_up(LogLevel::DEBUG) == LogLevel::INFO,
        level_up(LogLevel::INFO) == LogLevel::WARN,
        level_up(LogLevel::WARN) == LogLevel::ERROR,
        level_up(LogLevel::ERROR) == LogLevel::ERROR,
        level_down(LogLevel::ERROR) == LogLevel::WARN,
        level_down(LogLevel::WARN) == LogLevel::INFO,
        level_down(LogLevel::INFO) == LogLevel::DEBUG,
        level_down(LogLevel::DEBUG) == LogLevel::DEBUG,
        level_rank(level) < 4,
        level_of_rank(level_rank(level)) == level,
{
}

/// The last page of a log starts so that its last line is the view's last
/// line: the scroll limit is the number of lines that do not fit in the view
/// (a view of height 0 showing one line), and 0 when all of them fit.
pub proof fn law_scroll_limit_last_page(log_count: int, visible_lines: int)
    requires
        log_count >= 0,
    ensures
        log_scroll_limit(log_count, visible_lines) >= 0,
        visible_lines >= 1 ==> log_scroll_limit(log_count, visible_lines) + visible_lines >= log_count,
        visible_lines >= 1 && log_count >= visible_lines ==> log_scroll_limit(log_count, visible_lines)
            + visible_lines == log_count,
        visible_lines < 1 && log_count >= 1 ==> log_scroll_limit(log_count, visible_lines) == log_count - 1,
        log_count <= visible_lines ==> log_scroll_limit(log_count, visible_lines) == 0,
{
}

} // verus!
