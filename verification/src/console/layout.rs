//! Rectangle arithmetic of the console's screen layout.
use vstd::prelude::*;

verus! {

/// A screen rectangle in terminal cells.
#[derive(Clone, Copy, Debug, PartialEq, Eq, Structural)]
pub struct Rect {
    pub x: u16,
    pub y: u16,
    pub width: u16,
    pub height: u16,
}

/// `a + b`, stopping at `u16::MAX`.
pub open spec fn sat_add(a: int, b: int) -> int {
    if a + b > u16::MAX { u16::MAX as int } else { a + b }
}

/// `a - b`, stopping at 0.
pub open spec fn sat_sub(a: int, b: int) -> int {
    if a > b { a - b } else { 0 }
}

/// The smaller of two numbers.
pub open spec fn min_of(a: int, b: int) -> int {
    if a <= b { a } else { b }
}

/// The inside of a rectangle with a one-cell border on every side.
pub open spec fn inside_border(area: Rect) -> Rect {
    let right = sat_add(area.x as int, area.width as int);
    let bottom = sat_add(area.y as int, area.height as int);
    Rect {
        x: min_of(sat_add(area.x as int, 1), right) as u16,
        y: min_of(sat_add(area.y as int, 1), bottom) as u16,
        width: sat_sub(sat_sub(area.width as int, 1), 1) as u16,
        height: sat_sub(sat_sub(area.height as int, 1), 1) as u16,
    }
}

/// Calls ratatui's `Block::bordered().inner`, which for a block with all
/// borders, no title and no padding moves the origin one cell in (not past
/// the far edge) and takes one cell off each side.
#[verifier::external_body]
pub(crate) fn bordered_inner(area: Rect) -> (r: Rect)
    ensures
        r == inside_border(area),
{
    let inner = ratatui::widgets::Block::bordered().inner(
        ratatui::layout::Rect { x: area.x, y: area.y, width: area.width, height: area.height },
    );
    Rect { x: inner.x, y: inner.y, width: inner.width, height: inner.height }
}

/// Splits off the first row of an area: the header row and the rest.
pub fn split_header_content(area: Rect) -> (r: (Rect, Rect))
    ensures
        r.0 == (Rect { height: min_of(area.height as int, 1) as u16, ..area }),
        r.1 == (Rect {
            y: sat_add(area.y as int, min_of(area.height as int, 1)) as u16,
            height: sat_sub(area.height as int, min_of(area.height as int, 1)) as u16,
            ..area
        }),
        r.0.height + r.1.height == area.height,
{
    let header = Rect { x: area.x, y: area.y, width: area.width, height: if area.height < 1 { area.height } else { 1 } };
    let content = Rect {
        x: area.x,
        y: area.y.saturating_add(header.height),
        width: area.width,
        height: area.height.saturating_sub(header.height),
    };
    (header, content)
}

/// Splits an area into a header row, a body and a footer row for key hints.
pub fn split_header_content_footer(area: Rect) -> (r: (Rect, Rect, Rect))
    ensures
        r.0.height + r.1.height + r.2.height == area.height,
        r.2.height == min_of(sat_sub(area.height as int, 1), 1),
        r.0.height == min_of(area.height as int, 1),
        r.1.x == area.x && r.1.width == area.width,
{
    let (header, body) = split_header_content(area);
    let hint_height = if body.height < 1 { body.height } else { 1 };
    let content = Rect { x: body.x, y: body.y, width: body.width, height: body.height.saturating_sub(hint_height) };
    let hint = Rect {
        x: body.x,
        y: body.y.saturating_add(content.height),
        width: body.width,
        height: hint_height,
    };
    (header, content, hint)
}

/// An area of the given size centred in `area`.
pub fn centered_rect(area: Rect, width: u16, height: u16) -> (r: Rect)
    requires
        area.x + sat_sub(area.width as int, width as int) / 2 <= u16::MAX,
        area.y + sat_sub(area.height as int, height as int) / 2 <= u16::MAX,
    ensures
        r == (Rect {
            x: (area.x + sat_sub(area.width as int, width as int) / 2) as u16,
            y: (area.y + sat_sub(area.height as int, height as int) / 2) as u16,
            width,
            height,
        }),
{
    Rect {
        x: area.x + area.width.saturating_sub(width) / 2,
        y: area.y + area.height.saturating_sub(height) / 2,
        width,
        height,
    }
}

/// Whether the terminal is large enough to draw the console at all.
pub fn can_draw_console(area: Rect) -> (r: bool)
    ensures
        r == (area.width >= 2 && area.height >= 2),
{
    area.width >= 2 && area.height >= 2
}

/// The area the log lines are drawn in when the console fills `area`.
pub fn log_area_rect(area: Rect) -> (r: Rect)
    ensures
        ({
            let main = inside_border(area);
            let body_height = sat_sub(main.height as int, min_of(main.height as int, 1));
            let content_height = sat_sub(body_height, min_of(body_height, 1));
            &&& r.width == main.width
            &&& r.height == sat_sub(content_height, min_of(content_height, 1))
        }),
{
    let main = bordered_inner(area);
    let (_, content, _) = split_header_content_footer(main);
    let (_, log_area) = split_header_content(content);
    log_area
}

/// Where the key hint of a modal sits: the bottom row inside its border, or
/// nowhere for a modal too small to hold it.
pub fn modal_hint_area(area: Rect) -> (r: Option<Rect>)
    ensures
        r == (if area.width <= 2 || area.height == 0 {
            None
        } else {
            Some(
                Rect {
                    x: sat_add(area.x as int, 1) as u16,
                    y: sat_add(area.y as int, sat_sub(area.height as int, 1)) as u16,
                    width: (area.width - 2) as u16,
                    height: 1,
                },
            )
        }),
{
    if area.width <= 2 || area.height == 0 {
        return None;
    }
    Some(
        Rect {
            x: area.x.saturating_add(1),
            y: area.y.saturating_add(area.height.saturating_sub(1)),
            width: area.width.saturating_sub(2),
            height: 1,
        },
    )
}

/// The list entry to highlight: the cursor pulled onto the last entry, or
/// nothing for an empty list.
pub fn clamped_selection(index: usize, len: usize) -> (r: Option<usize>)
    ensures
        r == (if len == 0 {
            None
        } else {
            Some(min_of(index as int, len - 1) as usize)
        }),
{
    if len == 0 {
        None
    } else if index <= len - 1 {
        Some(index)
    } else {
        Some(len - 1)
    }
}

/// Where the text cursor of a prompt is drawn inside its input box, or
/// nowhere for a box too small to hold text. The cursor offset is cut to 16
/// bits first.
pub fn prompt_cursor(input_area: Rect, offset: usize) -> (r: Option<(u16, u16)>)
    requires
        input_area.width > 2 && input_area.height > 2 ==> input_area.x + 1 + min_of(
            (offset % 0x10000) as int,
            input_area.width - 2,
        ) <= u16::MAX && input_area.y + 1 <= u16::MAX,
    ensures
        r == (if input_area.width > 2 && input_area.height > 2 {
            Some(
                (
                    (input_area.x + 1 + min_of(
                        (offset % 0x10000) as int,
                        input_area.width - 2,
                    )) as u16,
                    (input_area.y + 1) as u16,
                ),
            )
        } else {
            None
        }),
{
    if input_area.width > 2 && input_area.height > 2 {
        let cut: u16 = (offset % 0x10000) as u16;
        let room: u16 = input_area.width - 2;
        let shift = if cut <= room { cut } else { room };
        Some((input_area.x + 1 + shift, input_area.y + 1))
    } else {
        None
    }
}

/// The part of a header row taken by a right-aligned status label of `label_len` cells.
pub fn status_area(header: Rect, label_len: u16) -> (r: Rect)
    ensures
        r.width == min_of(header.width as int, label_len as int),
        r.x == sat_add(header.x as int, sat_sub(header.width as int, r.width as int)),
        r.y == header.y && r.height == header.height,
{
    let width = if header.width <= label_len { header.width } else { label_len };
    Rect { x: header.x.saturating_add(header.width.saturating_sub(width)), y: header.y, width, height: header.height }
}

/// Number of spaces between a left and a right text on a row of `width`
/// cells.
pub fn row_spacing(width: u16, left_width: usize, right_width: usize) -> (r: usize)
    requires
        left_width + right_width <= usize::MAX,
    ensures
        r == sat_sub(width as int, left_width + right_width),
{
    let used = left_width + right_width;
    let total = width as usize;
    if total > used {
        total - used
    } else {
        0
    }
}

/// Splits off the first `rows` rows of an area (fewer when it is lower):
/// the top part and the rest below it.
pub fn split_top_rows(area: Rect, rows: u16) -> (r: (Rect, Rect))
    ensures
        r.0 == (Rect { height: min_of(area.height as int, rows as int) as u16, ..area }),
        r.1 == (Rect {
            y: sat_add(area.y as int, min_of(area.height as int, rows as int)) as u16,
            height: sat_sub(area.height as int, min_of(area.height as int, rows as int)) as u16,
            ..area
        }),
        r.0.height + r.1.height == area.height,
{
    let top = Rect { x: area.x, y: area.y, width: area.width, height: if area.height < rows { area.height } else { rows } };
    let rest = Rect {
        x: area.x,
        y: area.y.saturating_add(top.height),
        width: area.width,
        height: area.height.saturating_sub(top.height),
    };
    (top, rest)
}

} // verus!
