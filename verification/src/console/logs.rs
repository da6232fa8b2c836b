//! The log view's display lines: entries at or above the chosen level, split
//! at line feeds and wrapped to the view's width.
use vstd::prelude::*;
use ratatui::style::Color;
use ratatui::text::Span;
use wasserxr::scene::logging::LogLevel;
use wasserxr::scene::Scene;
use crate::console::navigation::{level_rank, log_level_index};
use crate::console::scene_calls::{log_entries, string_of};
use crate::utils::text::{char_views, split_chars, split_on};

verus! {

/// For each grapheme that ratatui draws of a text (graphemes holding a
/// control character are skipped), the number of characters in it and its
/// display width.
pub uninterp spec fn grapheme_cells(text: Seq<char>) -> Seq<(usize, usize)>;

/// A control character (general category Cc), as `char::is_control` tells.
pub open spec fn is_control(c: char) -> bool {
    (c as u32) <= 0x1f || (0x7f <= (c as u32) && (c as u32) <= 0x9f)
}

/// Whether a character is a control character.
pub fn control_char(c: char) -> (r: bool)
    ensures
        r == is_control(c),
{
    let v = c as u32;
    v <= 0x1f || (0x7f <= v && v <= 0x9f)
}

/// The number of control characters in a row from position `from` on.
pub open spec fn control_run(t: Seq<char>, from: int) -> int
    decreases t.len() - from,
{
    if 0 <= from < t.len() && is_control(t[from]) {
        1 + control_run(t, from + 1)
    } else {
        0
    }
}

/// Where the cells end in the text: each cell comes after the control
/// characters (skipped graphemes) in front of it.
pub open spec fn cells_end(t: Seq<char>, cells: Seq<(usize, usize)>) -> int
    decreases cells.len(),
{
    if cells.len() == 0 {
        0
    } else {
        let e = cells_end(t, cells.drop_last());
        e + control_run(t, e) + cells.last().0
    }
}

/// The cells lie in the text one after another, each after the control
/// characters in front of it, each with at least one character and none of
/// them a control character.
pub open spec fn cells_tile(t: Seq<char>, cells: Seq<(usize, usize)>) -> bool
    decreases cells.len(),
{
    if cells.len() == 0 {
        true
    } else {
        let e = cells_end(t, cells.drop_last());
        let s = e + control_run(t, e);
        let n = cells.last().0 as int;
        &&& cells_tile(t, cells.drop_last())
        &&& n >= 1
        &&& s + n <= t.len()
        &&& forall|j: int| s <= j < s + n ==> !is_control(#[trigger] t[j])
    }
}

/// Calls `Span::styled_graphemes` and `Span::width` from ratatui: the cells of
/// a text. The graphemes of a text follow one another; one that holds a
/// control character is that character alone (or a CR LF pair), and it is
/// the one kind skipped. So the cells lie in the text each after the control
/// characters in front of it, and only control characters follow the last.
#[verifier::external_body]
fn graphemes_of(text: &str) -> (r: Vec<(usize, usize)>)
    ensures
        r@ == grapheme_cells(text@),
        cells_tile(text@, r@),
        forall|j: int| cells_end(text@, r@) <= j < text@.len() ==> is_control(#[trigger] text@[j]),
{
    Span::raw(text).styled_graphemes(Color::Reset).map(
        |g| (g.symbol.chars().count(), Span::raw(g.symbol).width()),
    ).collect()
}

/// Wrapping state after some cells: finished lines as character ranges, the
/// start of the open line, the position after the last cell, and the width
/// of the open line. A cell that would overflow the width opens a new line,
/// unless the open line holds no cell yet; the control characters in front
/// of a cell go with it.
pub open spec fn wrap_state(t: Seq<char>, cells: Seq<(usize, usize)>, width: int) -> (
    Seq<(int, int)>,
    int,
    int,
    int,
)
    decreases cells.len(),
{
    if cells.len() == 0 {
        (Seq::empty(), 0, 0, 0)
    } else {
        let (lines, start, cursor, line_width) = wrap_state(t, cells.drop_last(), width);
        let (n, w) = cells.last();
        let next = cursor + control_run(t, cursor) + n;
        if cursor > start && line_width + w > width {
            (lines.push((start, cursor)), cursor, next, w as int)
        } else {
            (lines, start, next, line_width + w)
        }
    }
}

/// The lines of a segment wrapped at `width`, as character ranges: the
/// finished lines and then the open line up to the end of the segment.
pub open spec fn wrapped_ranges(t: Seq<char>, cells: Seq<(usize, usize)>, width: int, end: int) -> Seq<
    (int, int),
> {
    let (lines, start, _, _) = wrap_state(t, cells, width);
    lines.push((start, end))
}

proof fn lemma_control_run_bounds(t: Seq<char>, from: int)
    requires
        0 <= from <= t.len(),
    ensures
        0 <= control_run(t, from),
        from + control_run(t, from) <= t.len(),
        forall|j: int| from <= j < from + control_run(t, from) ==> is_control(#[trigger] t[j]),
        from + control_run(t, from) < t.len() ==> !is_control(t[from + control_run(t, from)]),
    decreases t.len() - from,
{
    if from < t.len() && is_control(t[from]) {
        lemma_control_run_bounds(t, from + 1);
    }
}

proof fn lemma_wrap_state_bounds(t: Seq<char>, cells: Seq<(usize, usize)>, width: int)
    requires
        width >= 0,
        cells_tile(t, cells),
    ensures
        ({
            let (lines, start, cursor, line_width) = wrap_state(t, cells, width);
            &&& 0 <= start <= cursor
            &&& cursor == cells_end(t, cells)
            &&& cursor <= t.len()
            &&& line_width >= 0
            &&& (cursor == start ==> line_width == 0)
            &&& (line_width > width ==> cursor > start)
        }),
    decreases cells.len(),
{
    if cells.len() > 0 {
        let prev = cells.drop_last();
        lemma_wrap_state_bounds(t, prev, width);
        lemma_control_run_bounds(t, cells_end(t, prev));
    }
}

/// Wraps one segment given its text and cells: the character range of every
/// display line.
pub fn wrap_cells(text: &Vec<char>, cells: &Vec<(usize, usize)>, width: usize) -> (r: Vec<(usize, usize)>)
    requires
        cells_tile(text@, cells@),
    ensures
        r@.len() == wrapped_ranges(text@, cells@, width as int, text@.len() as int).len(),
        forall|i: int|
            0 <= i < r@.len() ==> (#[trigger] r@[i]).0 == wrapped_ranges(
                text@,
                cells@,
                width as int,
                text@.len() as int,
            )[i].0 && r@[i].1 == wrapped_ranges(text@, cells@, width as int, text@.len() as int)[i].1,
        forall|i: int| 0 <= i < r@.len() ==> (#[trigger] r@[i]).0 <= r@[i].1 <= text@.len(),
{
    let end = text.len();
    let mut lines: Vec<(usize, usize)> = Vec::new();
    let mut start: usize = 0;
    let mut cursor: usize = 0;
    let mut line_width: usize = 0;
    let mut i: usize = 0;
    proof {
        lemma_tile_prefixes(text@, cells@);
    }
    while i < cells.len()
        invariant
            i <= cells@.len(),
            end == text@.len(),
            forall|k: int| 0 <= k <= cells@.len() ==> #[trigger] cells_tile(text@, cells@.subrange(0, k)),
            ({
                let (ls, st, cur, lw) = wrap_state(text@, cells@.subrange(0, i as int), width as int);
                &&& lines@.len() == ls.len()
                &&& forall|k: int|
                    0 <= k < lines@.len() ==> (#[trigger] lines@[k]).0 == ls[k].0 && lines@[k].1 == ls[k].1
                &&& start == st
                &&& cursor == cur
                &&& line_width == lw
            }),
            cursor == cells_end(text@, cells@.subrange(0, i as int)),
            cursor <= end,
            forall|k: int| 0 <= k < lines@.len() ==> (#[trigger] lines@[k]).0 <= lines@[k].1 <= start,
            start <= cursor,
            cursor == start ==> line_width == 0,
            line_width > width ==> cursor > start,
        decreases cells@.len() - i,
    {
        let ghost prefix = cells@.subrange(0, i as int);
        let ghost next = cells@.subrange(0, i + 1);
        assert(next.drop_last() =~= prefix);
        proof {
            assert(cells_tile(text@, next));
            lemma_wrap_state_bounds(text@, next, width as int);
            lemma_control_run_bounds(text@, cursor as int);
        }
        let (n, w) = cells[i];
        let before = cursor;
        while cursor < end && control_char(text[cursor])
            invariant
                before <= cursor <= end,
                end == text@.len(),
                control_run(text@, before as int) == (cursor - before) + control_run(text@, cursor as int),
            decreases end - cursor,
        {
            cursor = cursor + 1;
        }
        if start < before && (w > width || line_width > width - w) {
            lines.push((start, before));
            start = before;
            line_width = w;
        } else {
            line_width = line_width + w;
        }
        cursor = cursor + n;
        i = i + 1;
    }
    assert(cells@.subrange(0, cells@.len() as int) =~= cells@);
    lines.push((start, end));
    lines
}

/// Every prefix of tiling cells tiles the text.
proof fn lemma_tile_prefixes(t: Seq<char>, cells: Seq<(usize, usize)>)
    requires
        cells_tile(t, cells),
    ensures
        forall|k: int| 0 <= k <= cells.len() ==> #[trigger] cells_tile(t, cells.subrange(0, k)),
    decreases cells.len(),
{
    if cells.len() > 0 {
        lemma_tile_prefixes(t, cells.drop_last());
        assert forall|k: int| 0 <= k <= cells.len() implies #[trigger] cells_tile(t, cells.subrange(0, k)) by {
            if k < cells.len() {
                assert(cells.subrange(0, k) =~= cells.drop_last().subrange(0, k));
            } else {
                assert(cells.subrange(0, k) =~= cells);
            }
        }
    } else {
        assert forall|k: int| 0 <= k <= cells.len() implies #[trigger] cells_tile(t, cells.subrange(0, k)) by {
            assert(cells.subrange(0, k) =~= cells);
        }
    }
}

/// A text cut at every line feed; a text without line feeds is one segment.
pub open spec fn split_lines(t: Seq<char>) -> Seq<Seq<char>> {
    split_on(t, '\n')
}

/// A segment without its trailing carriage returns.
pub open spec fn trim_cr(s: Seq<char>) -> Seq<char>
    decreases s.len(),
{
    if s.len() > 0 && s.last() == '\r' {
        trim_cr(s.drop_last())
    } else {
        s
    }
}

/// The display lines of one segment wrapped at `width`.
pub open spec fn segment_lines(seg: Seq<char>, width: int) -> Seq<Seq<char>> {
    let ranges = wrapped_ranges(seg, grapheme_cells(seg), width, seg.len() as int);
    ranges.map_values(|r: (int, int)| seg.subrange(r.0, r.1))
}

/// The display lines of a sequence of segments.
pub open spec fn segments_lines(segs: Seq<Seq<char>>, width: int) -> Seq<Seq<char>>
    decreases segs.len(),
{
    if segs.len() == 0 {
        Seq::empty()
    } else {
        segments_lines(segs.drop_last(), width) + segment_lines(trim_cr(segs.last()), width)
    }
}

/// The display lines of one log entry's text.
pub open spec fn entry_lines(text: Seq<char>, width: int) -> Seq<Seq<char>> {
    segments_lines(split_lines(text), width)
}

/// The display lines of the log view: the lines of every entry whose level
/// is at least `level`, each with its entry's level, oldest first. A view of
/// width 0 shows nothing.
pub open spec fn display_lines(entries: Seq<(LogLevel, Seq<char>)>, level: LogLevel, width: int) -> Seq<
    (Seq<char>, LogLevel),
>
    decreases entries.len(),
{
    if width == 0 || entries.len() == 0 {
        Seq::empty()
    } else {
        let prev = display_lines(entries.drop_last(), level, width);
        let (entry_level, text) = entries.last();
        if level_rank(entry_level) >= level_rank(level) {
            prev + entry_lines(text, width).map_values(|l: Seq<char>| (l, entry_level))
        } else {
            prev
        }
    }
}

/// The models of log entries: level and text.
pub open spec fn entry_views(v: Seq<(LogLevel, String)>) -> Seq<(LogLevel, Seq<char>)> {
    v.map_values(|e: (LogLevel, String)| (e.0, e.1@))
}

/// The models of display lines.
pub open spec fn line_views(v: Seq<(Vec<char>, LogLevel)>) -> Seq<(Seq<char>, LogLevel)> {
    v.map_values(|l: (Vec<char>, LogLevel)| (l.0@, l.1))
}

/// Cuts a text at every line feed.
pub fn split_segments(text: &Vec<char>) -> (r: Vec<Vec<char>>)
    ensures
        char_views(r@) == split_lines(text@),
{
    split_chars(text, '\n')
}

/// Number of leading characters left after trailing carriage returns are cut.
pub fn trimmed_len(seg: &Vec<char>) -> (r: usize)
    ensures
        r <= seg@.len(),
        seg@.take(r as int) == trim_cr(seg@),
{
    let mut end = seg.len();
    assert(seg@.take(end as int) =~= seg@);
    while end > 0 && seg[end - 1] == '\r'
        invariant
            end <= seg@.len(),
            trim_cr(seg@.take(end as int)) == trim_cr(seg@),
        decreases end,
    {
        assert(seg@.take(end as int).drop_last() =~= seg@.take(end - 1));
        end = end - 1;
    }
    end
}

/// The display lines of one segment (its first `end` characters).
fn segment_display_lines(seg: &Vec<char>, end: usize, width: usize) -> (r: Vec<Vec<char>>)
    requires
        end <= seg@.len(),
    ensures
        char_views(r@) == segment_lines(seg@.take(end as int), width as int),
{
    let ghost part = seg@.take(end as int);
    let mut head: Vec<char> = Vec::new();
    let mut k: usize = 0;
    while k < end
        invariant
            k <= end <= seg@.len(),
            head@ == seg@.take(k as int),
        decreases end - k,
    {
        head.push(seg[k]);
        assert(seg@.take(k + 1) =~= seg@.take(k as int).push(seg@[k as int]));
        k = k + 1;
    }
    let text = string_of(head.as_slice());
    let cells = graphemes_of(text.as_str());
    let ranges = wrap_cells(&head, &cells, width);
    let ghost expected = wrapped_ranges(part, grapheme_cells(part), width as int, end as int);
    let mut lines: Vec<Vec<char>> = Vec::new();
    let mut i: usize = 0;
    while i < ranges.len()
        invariant
            i <= ranges@.len(),
            head@ == part,
            part.len() == end,
            ranges@.len() == expected.len(),
            forall|j: int|
                0 <= j < ranges@.len() ==> (#[trigger] ranges@[j]).0 == expected[j].0
                    && ranges@[j].1 == expected[j].1,
            forall|j: int| 0 <= j < ranges@.len() ==> (#[trigger] ranges@[j]).0 <= ranges@[j].1 <= end,
            char_views(lines@) == expected.take(i as int).map_values(
                |r: (int, int)| part.subrange(r.0, r.1),
            ),
        decreases ranges@.len() - i,
    {
        let (a, b) = ranges[i];
        assert(ranges@[i as int].0 == a && ranges@[i as int].1 == b);
        assert(expected[i as int].0 == a && expected[i as int].1 == b);
        let mut line: Vec<char> = Vec::new();
        let mut j: usize = a;
        while j < b
            invariant
                a <= j <= b <= end,
                head@ == part,
                part.len() == end,
                line@ == part.subrange(a as int, j as int),
            decreases b - j,
        {
            line.push(head[j]);
            assert(part.subrange(a as int, j + 1) =~= part.subrange(a as int, j as int).push(part[j as int]));
            j = j + 1;
        }
        let ghost lv = line@;
        let ghost prev = char_views(lines@);
        lines.push(line);
        assert(char_views(lines@) =~= prev.push(lv));
        assert(expected.take(i + 1).map_values(|r: (int, int)| part.subrange(r.0, r.1)) =~= expected.take(
            i as int,
        ).map_values(|r: (int, int)| part.subrange(r.0, r.1)).push(part.subrange(a as int, b as int)));
        assert(char_views(lines@) =~= expected.take(i + 1).map_values(
            |r: (int, int)| part.subrange(r.0, r.1),
        ));
        i = i + 1;
    }
    assert(expected.take(ranges@.len() as int) =~= expected);
    lines
}

/// The display lines of the log view for these entries (level and text),
/// the level filter and the view width.
pub fn display_lines_of(entries: &Vec<(LogLevel, String)>, level: LogLevel, width: u16) -> (r: Vec<
    (Vec<char>, LogLevel),
>)
    ensures
        line_views(r@) == display_lines(entry_views(entries@), level, width as int),
{
    let mut out: Vec<(Vec<char>, LogLevel)> = Vec::new();
    if width == 0 {
        return out;
    }
    let min_rank = log_level_index(level);
    let mut e: usize = 0;
    assert(entry_views(entries@).take(0) =~= Seq::<(LogLevel, Seq<char>)>::empty());
    while e < entries.len()
        invariant
            e <= entries@.len(),
            width > 0,
            min_rank == level_rank(level),
            line_views(out@) == display_lines(entry_views(entries@).take(e as int), level, width as int),
        decreases entries@.len() - e,
    {
        let entry_level = entries[e].0;
        let ghost views = entry_views(entries@);
        assert(views.take(e + 1).drop_last() =~= views.take(e as int));
        assert(views.take(e + 1).last() == (entry_level, entries@[e as int].1@));
        if log_level_index(entry_level) >= min_rank {
            let text = chars_of_string(&entries[e].1);
            let segs = split_segments(&text);
            let ghost before = line_views(out@);
            let mut s: usize = 0;
            while s < segs.len()
                invariant
                    s <= segs@.len(),
                    width > 0,
                    char_views(segs@) == split_lines(text@),
                    line_views(out@) == before + segments_lines(char_views(segs@).take(s as int), width as int).map_values(
                        |l: Seq<char>| (l, entry_level),
                    ),
                decreases segs@.len() - s,
            {
                let end = trimmed_len(&segs[s]);
                let lines = segment_display_lines(&segs[s], end, width as usize);
                let ghost mid = line_views(out@);
                let mut k: usize = 0;
                while k < lines.len()
                    invariant
                        k <= lines@.len(),
                        line_views(out@) == mid + char_views(lines@).take(k as int).map_values(
                            |l: Seq<char>| (l, entry_level),
                        ),
                    decreases lines@.len() - k,
                {
                    let line = copy_line(&lines[k]);
                    let ghost lv = line@;
                    let ghost prev = line_views(out@);
                    out.push((line, entry_level));
                    assert(line_views(out@) =~= prev.push((lv, entry_level)));
                    assert(char_views(lines@).take(k + 1) =~= char_views(lines@).take(k as int).push(lines@[k as int]@));
                    assert(line_views(out@) =~= mid + char_views(lines@).take(k + 1).map_values(
                        |l: Seq<char>| (l, entry_level),
                    ));
                    k = k + 1;
                }
                proof {
                    let segv = char_views(segs@);
                    assert(segv.take(s + 1).drop_last() =~= segv.take(s as int));
                    assert(segv.take(s + 1).last() == segs@[s as int]@);
                    assert(char_views(lines@).take(lines@.len() as int) =~= char_views(lines@));
                    assert(segs@[s as int]@.take(end as int) == trim_cr(segv.take(s + 1).last()));
                    assert(line_views(out@) =~= before + segments_lines(segv.take(s + 1), width as int).map_values(
                        |l: Seq<char>| (l, entry_level),
                    ));
                }
                s = s + 1;
            }
            proof {
                assert(char_views(segs@).take(segs@.len() as int) =~= char_views(segs@));
                assert(line_views(out@) =~= display_lines(views.take(e + 1), level, width as int));
            }
        } else {
            assert(line_views(out@) =~= display_lines(views.take(e + 1), level, width as int));
        }
        e = e + 1;
    }
    assert(entry_views(entries@).take(entries@.len() as int) =~= entry_views(entries@));
    out
}

/// A copy of a display line.
fn copy_line(v: &Vec<char>) -> (r: Vec<char>)
    ensures
        r@ == v@,
{
    let mut r: Vec<char> = Vec::new();
    let mut i: usize = 0;
    while i < v.len()
        invariant
            i <= v@.len(),
            r@ == v@.take(i as int),
        decreases v@.len() - i,
    {
        r.push(v[i]);
        assert(v@.take(i + 1) =~= v@.take(i as int).push(v@[i as int]));
        i = i + 1;
    }
    assert(v@.take(v@.len() as int) =~= v@);
    r
}

/// The characters of a string.
fn chars_of_string(s: &String) -> (r: Vec<char>)
    ensures
        r@ == s@,
{
    crate::console::scene_calls::chars_of(s.as_str())
}

/// Number of display lines of the log view for these entries.
pub fn display_line_count(entries: &Vec<(LogLevel, String)>, level: LogLevel, width: u16) -> (r: usize)
    ensures
        r == display_lines(entry_views(entries@), level, width as int).len(),
{
    display_lines_of(entries, level, width).len()
}

/// Number of display lines of the scene's log at this level and width.
pub fn log_display_line_count(scene: &Scene, level: LogLevel, width: u16) -> (r: usize)
    ensures
        exists|entries: Seq<(LogLevel, Seq<char>)>| r == display_lines(entries, level, width as int).len(),
{
    let entries = log_entries(scene);
    display_line_count(&entries, level, width)
}

/// The display lines `start..start + limit` of the scene's log at this level
/// and width.
pub fn log_display_lines_range(scene: &Scene, level: LogLevel, width: u16, start: usize, limit: usize) -> (r: Vec<
    (Vec<char>, LogLevel),
>)
    ensures
        exists|entries: Seq<(LogLevel, Seq<char>)>|
            #![trigger display_lines(entries, level, width as int)]
            {
            let all = display_lines(entries, level, width as int);
            line_views(r@) == all.subrange(
                if start <= all.len() { start as int } else { all.len() as int },
                if start + limit <= all.len() { start + limit } else { all.len() as int },
            )
        },
{
    let entries = log_entries(scene);
    let all = display_lines_of(&entries, level, width);
    let mut out: Vec<(Vec<char>, LogLevel)> = Vec::new();
    let first = if start <= all.len() { start } else { all.len() };
    let last = if limit <= all.len() - first { first + limit } else { all.len() };
    let mut i = first;
    while i < last
        invariant
            first <= i <= last <= all@.len(),
            line_views(out@) == line_views(all@).subrange(first as int, i as int),
        decreases last - i,
    {
        let line = copy_line(&all[i].0);
        let ghost lv = line@;
        let ghost prev = line_views(out@);
        out.push((line, all[i].1));
        assert(line_views(out@) =~= prev.push((lv, all@[i as int].1)));
        assert(line_views(out@) =~= line_views(all@).subrange(first as int, i + 1));
        i = i + 1;
    }
    out
}

/// The display width and the number of cells of every line of a segment
/// wrapped at `width`: the finished lines, then the open line.
pub open spec fn line_shapes(t: Seq<char>, cells: Seq<(usize, usize)>, width: int) -> (Seq<(int, int)>, int, int)
    decreases cells.len(),
{
    if cells.len() == 0 {
        (Seq::empty(), 0, 0)
    } else {
        let (done, open_width, open_cells) = line_shapes(t, cells.drop_last(), width);
        let (_, start, cursor, line_width) = wrap_state(t, cells.drop_last(), width);
        let (_, w) = cells.last();
        if cursor > start && line_width + w > width {
            (done.push((open_width, open_cells)), w as int, 1)
        } else {
            (done, open_width + w, open_cells + 1)
        }
    }
}

proof fn lemma_line_shapes(t: Seq<char>, cells: Seq<(usize, usize)>, width: int)
    requires
        width >= 0,
        cells_tile(t, cells),
    ensures
        line_shapes(t, cells, width).1 == wrap_state(t, cells, width).3,
        line_shapes(t, cells, width).2 >= 0,
        (wrap_state(t, cells, width).2 == wrap_state(t, cells, width).1) == (line_shapes(t, cells, width).2
            == 0),
        line_shapes(t, cells, width).1 <= width || line_shapes(t, cells, width).2 == 1,
        forall|i: int|
            0 <= i < line_shapes(t, cells, width).0.len() ==> (#[trigger] line_shapes(t, cells, width).0[i]).0
                <= width || line_shapes(t, cells, width).0[i].1 == 1,
    decreases cells.len(),
{
    if cells.len() > 0 {
        let prev = cells.drop_last();
        lemma_line_shapes(t, prev, width);
        lemma_wrap_state_bounds(t, prev, width);
        lemma_control_run_bounds(t, cells_end(t, prev));
        let (done, open_width, open_cells) = line_shapes(t, prev, width);
        let (_, start, cursor, line_width) = wrap_state(t, prev, width);
        let (n, w) = cells.last();
        let (d2, ow2, oc2) = line_shapes(t, cells, width);
        let (_, start2, cursor2, lw2) = wrap_state(t, cells, width);
        if cursor > start && line_width + w > width {
            assert(d2 == done.push((open_width, open_cells)));
            assert(ow2 == w && oc2 == 1);
            assert(start2 == cursor && lw2 == w);
        } else {
            assert(d2 == done);
            assert(ow2 == open_width + w && oc2 == open_cells + 1);
            assert(start2 == start && lw2 == line_width + w);
        }
        assert(cursor2 > start2);
        assert forall|i: int| 0 <= i < d2.len() implies (#[trigger] d2[i]).0 <= width || d2[i].1 == 1 by {
            if i < done.len() {
                assert(d2[i] == done[i]);
            }
        }
    }
}

/// No display line of a wrapped segment is wider than the view, except a
/// line holding a single grapheme that is wider than the view by itself.
pub proof fn law_wrapped_lines_fit(t: Seq<char>, cells: Seq<(usize, usize)>, width: int)
    requires
        width >= 0,
        cells_tile(t, cells),
    ensures
        ({
            let (done, open_width, open_cells) = line_shapes(t, cells, width);
            &&& forall|i: int| 0 <= i < done.len() ==> (#[trigger] done[i]).0 <= width || done[i].1 == 1
            &&& open_width <= width || open_cells == 1
            &&& done.len() + 1 == wrapped_ranges(t, cells, width, t.len() as int).len()
        }),
{
    lemma_line_shapes(t, cells, width);
    lemma_line_count(t, cells, width);
}

proof fn lemma_line_count(t: Seq<char>, cells: Seq<(usize, usize)>, width: int)
    ensures
        line_shapes(t, cells, width).0.len() == wrap_state(t, cells, width).0.len(),
    decreases cells.len(),
{
    if cells.len() > 0 {
        lemma_line_count(t, cells.drop_last(), width);
    }
}

/// The position right after the `k`-th cell, or 0 for none.
pub open spec fn cell_boundary(t: Seq<char>, cells: Seq<(usize, usize)>, k: int) -> int {
    cells_end(t, cells.take(k))
}

proof fn lemma_wrap_state_breaks(t: Seq<char>, cells: Seq<(usize, usize)>, width: int)
    requires
        width >= 0,
        cells_tile(t, cells),
    ensures
        ({
            let (lines, start, cursor, _) = wrap_state(t, cells, width);
            &&& lines.len() == 0 ==> start == 0
            &&& lines.len() > 0 ==> lines[0].0 == 0 && lines[lines.len() - 1].1 == start
            &&& forall|k: int| 0 <= k < lines.len() - 1 ==> #[trigger] lines[k].1 == lines[k + 1].0
            &&& exists|m: int| 0 <= m <= cells.len() && #[trigger] cell_boundary(t, cells, m) == start
            &&& forall|k: int|
                #![trigger lines[k]]
                0 <= k < lines.len() ==> exists|m: int|
                    0 <= m <= cells.len() && #[trigger] cell_boundary(t, cells, m) == lines[k].1
        }),
    decreases cells.len(),
{
    let (lines, start, cursor, _) = wrap_state(t, cells, width);
    if cells.len() == 0 {
        assert(cells.take(0) =~= cells);
        assert(cell_boundary(t, cells, 0) == 0);
    } else {
        let prev = cells.drop_last();
        lemma_wrap_state_breaks(t, prev, width);
        lemma_wrap_state_bounds(t, prev, width);
        let (pl, ps, pc, _) = wrap_state(t, prev, width);
        assert forall|m: int| 0 <= m <= prev.len() implies cell_boundary(t, prev, m) == cell_boundary(
            t,
            cells,
            m,
        ) by {
            assert(prev.take(m) =~= cells.take(m));
        }
        assert(prev =~= cells.take(prev.len() as int));
        assert(cell_boundary(t, cells, prev.len() as int) == pc);
        let mp = choose|m: int| 0 <= m <= prev.len() && #[trigger] cell_boundary(t, prev, m) == ps;
        assert(cell_boundary(t, cells, mp) == ps);
        assert forall|k: int| #![trigger lines[k]] 0 <= k < lines.len() implies exists|m: int|
            0 <= m <= cells.len() && #[trigger] cell_boundary(t, cells, m) == lines[k].1 by {
            if k < pl.len() {
                assert(lines[k] == pl[k]);
                let mk = choose|m: int| 0 <= m <= prev.len() && #[trigger] cell_boundary(t, prev, m) == pl[k].1;
                assert(cell_boundary(t, cells, mk) == lines[k].1);
            } else {
                assert(lines[k].1 == pc);
            }
        }
        if start == pc {
            assert(cell_boundary(t, cells, prev.len() as int) == start);
        } else {
            assert(cell_boundary(t, cells, mp) == start);
        }
        assert forall|k: int| 0 <= k < lines.len() - 1 implies #[trigger] lines[k].1 == lines[k + 1].0 by {
            if k + 1 < pl.len() {
                assert(lines[k] == pl[k] && lines[k + 1] == pl[k + 1]);
            } else {
                assert(lines[k] == pl[k]);
                assert(lines[k + 1] == (ps, pc));
            }
        }
    }
}

/// The lines of a wrapped segment follow one another without gap or overlap
/// from the start of the segment to its end, and every line but the last
/// ends right after a cell (so no grapheme is split over two lines).
pub proof fn law_wrapped_lines_tile(t: Seq<char>, cells: Seq<(usize, usize)>, width: int)
    requires
        width >= 0,
        cells_tile(t, cells),
    ensures
        ({
            let r = wrapped_ranges(t, cells, width, t.len() as int);
            &&& r[0].0 == 0
            &&& r[r.len() - 1].1 == t.len()
            &&& forall|k: int| 0 <= k < r.len() - 1 ==> #[trigger] r[k].1 == r[k + 1].0
            &&& forall|k: int|
                #![trigger r[k]]
                0 <= k < r.len() - 1 ==> exists|m: int|
                    0 <= m <= cells.len() && #[trigger] cell_boundary(t, cells, m) == r[k].1
        }),
{
    lemma_wrap_state_breaks(t, cells, width);
    let (lines, start, _, _) = wrap_state(t, cells, width);
    let r = wrapped_ranges(t, cells, width, t.len() as int);
    assert(r == lines.push((start, t.len() as int)));
    assert forall|k: int| 0 <= k < r.len() - 1 implies #[trigger] r[k].1 == r[k + 1].0 by {
        assert(r[k] == lines[k]);
        if k + 1 < lines.len() {
            assert(r[k + 1] == lines[k + 1]);
        }
    }
    assert forall|k: int| #![trigger r[k]] 0 <= k < r.len() - 1 implies exists|m: int|
        0 <= m <= cells.len() && #[trigger] cell_boundary(t, cells, m) == r[k].1 by {
        assert(r[k] == lines[k]);
    }
}

/// The log view shows only entries at the chosen level or above, keeps the
/// order of the entries (the lines of a longer log start with those of its
/// older part), and a view of width 0 shows nothing.
pub proof fn law_display_lines_filter(
    older: Seq<(LogLevel, Seq<char>)>,
    newer: Seq<(LogLevel, Seq<char>)>,
    level: LogLevel,
    width: int,
)
    ensures
        display_lines(older + newer, level, width) == display_lines(older, level, width) + display_lines(
            newer,
            level,
            width,
        ),
        forall|i: int|
            0 <= i < display_lines(older, level, width).len() ==> level_rank(
                (#[trigger] display_lines(older, level, width)[i]).1,
            ) >= level_rank(level),
        (forall|i: int| 0 <= i < older.len() ==> level_rank((#[trigger] older[i]).0) < level_rank(level))
            ==> display_lines(older, level, width).len() == 0,
        width == 0 ==> display_lines(older, level, width).len() == 0,
    decreases newer.len() + older.len(),
{
    if newer.len() > 0 {
        law_display_lines_filter(older, newer.drop_last(), level, width);
        assert((older + newer).drop_last() =~= older + newer.drop_last());
        assert((older + newer).last() == newer.last());
        if width != 0 {
            let e = newer.last();
            if level_rank(e.0) >= level_rank(level) {
                let extra = entry_lines(e.1, width).map_values(|l: Seq<char>| (l, e.0));
                assert(display_lines(older, level, width) + display_lines(newer.drop_last(), level, width) + extra
                    =~= display_lines(older, level, width) + (display_lines(newer.drop_last(), level, width)
                    + extra));
            }
        }
    } else {
        assert(older + newer =~= older);
        assert(display_lines(newer, level, width) =~= Seq::<(Seq<char>, LogLevel)>::empty());
        if older.len() > 0 {
            let init = older.drop_last();
            law_display_lines_filter(init, newer, level, width);
            assert forall|i: int| 0 <= i < init.len() implies #[trigger] init[i] == older[i] by {}
            let prev = display_lines(init, level, width);
            if width != 0 {
                let e = older.last();
                if level_rank(e.0) >= level_rank(level) {
                    let extra = entry_lines(e.1, width).map_values(|l: Seq<char>| (l, e.0));
                    assert(display_lines(older, level, width) == prev + extra);
                    assert forall|i: int|
                        0 <= i < display_lines(older, level, width).len() implies level_rank(
                        (#[trigger] display_lines(older, level, width)[i]).1,
                    ) >= level_rank(level) by {
                        if i < prev.len() {
                            assert(display_lines(older, level, width)[i] == prev[i]);
                        } else {
                            assert(display_lines(older, level, width)[i] == extra[i - prev.len()]);
                        }
                    }
                    assert(level_rank(older[older.len() - 1].0) >= level_rank(level));
                }
            }
        }
    }
}

} // verus!
