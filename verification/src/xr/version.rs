//! Version numbers handed to the OpenXR runtime: the library's own, and the
//! engine's as the package manifest names it.
use vstd::prelude::*;
use crate::utils::decimal::{
    decimal_error_message,
    decimal_error_text,
    lemma_parse_decimal_bound,
    parse_decimal,
    parse_decimal_chars,
};
use crate::utils::text::{
    before_char,
    char_views,
    chars_before,
    concat,
    piece_after,
    second_piece,
    split_chars,
    split_on,
    strip_prefix,
    trim,
    trimmed,
    without_prefix,
    lemma_split_on_nonempty,
};
use crate::console::scene_calls::chars_of;

verus! {

/// The largest major or minor version number.
pub const MAX_MINOR: u64 = 65535;

/// The largest patch number.
pub const MAX_PATCH: u64 = 4294967295;

/// One number of a version: its value, or `label` followed by why it is not
/// a number of at most `max`.
pub open spec fn version_number(text: Seq<char>, max: nat, label: Seq<char>) -> Result<nat, Seq<char>> {
    match parse_decimal(text, max) {
        Ok(v) => Ok(v),
        Err(e) => Err(label + decimal_error_text(e)),
    }
}

/// The three numbers of a version, each read by `version_number` with its
/// own label, first error first.
pub open spec fn version_triple(
    major: Result<nat, Seq<char>>,
    minor: Result<nat, Seq<char>>,
    patch: Result<nat, Seq<char>>,
) -> Result<(nat, nat, nat), Seq<char>> {
    match major {
        Err(m) => Err(m),
        Ok(a) => match minor {
            Err(m) => Err(m),
            Ok(b) => match patch {
                Err(m) => Err(m),
                Ok(c) => Ok((a, b, c)),
            },
        },
    }
}

/// A dotted version text read as major, minor and patch: the pieces between
/// dots, the first three of them, with the first missing or invalid one
/// reported.
pub open spec fn version_of(text: Seq<char>) -> Result<(nat, nat, nat), Seq<char>> {
    let parts = split_on(text, '.');
    if parts.len() < 1 {
        Err("Missing major version"@)
    } else {
        match version_number(parts[0], MAX_MINOR as nat, "Invalid major version: "@) {
            Err(m) => Err(m),
            Ok(a) => if parts.len() < 2 {
                Err("Missing minor version"@)
            } else {
                match version_number(parts[1], MAX_MINOR as nat, "Invalid minor version: "@) {
                    Err(m) => Err(m),
                    Ok(b) => if parts.len() < 3 {
                        Err("Missing patch version"@)
                    } else {
                        match version_number(parts[2], MAX_PATCH as nat, "Invalid patch version: "@) {
                            Err(m) => Err(m),
                            Ok(c) => Ok((a, b, c)),
                        }
                    },
                }
            },
        }
    }
}

/// The model of a version result.
pub open spec fn version_view(r: Result<(u16, u16, u32), String>) -> Result<(nat, nat, nat), Seq<char>> {
    match r {
        Ok((a, b, c)) => Ok((a as nat, b as nat, c as nat)),
        Err(s) => Err(s@),
    }
}

/// Reads one number of a version.
fn number_in(text: &Vec<char>, max: u64, label: &str) -> (r: Result<u64, String>)
    ensures
        match version_number(text@, max as nat, label@) {
            Ok(v) => r matches Ok(x) && x == v,
            Err(m) => r matches Err(s) && s@ == m,
        },
        r matches Ok(x) ==> x <= max,
{
    proof {
        lemma_parse_decimal_bound(text@, max as nat);
    }
    match parse_decimal_chars(text.as_slice(), max) {
        Ok(v) => Ok(v),
        Err(e) => {
            let why = decimal_error_message(e);
            Err(concat(label, why.as_str()))
        },
    }
}

/// Reads a dotted version text such as `0.2.4`.
pub fn parse_version(version: &str) -> (r: Result<(u16, u16, u32), String>)
    ensures
        version_view(r) == version_of(version@),
{
    version_in(&chars_of(version))
}

/// Reads a dotted version text given as characters.
fn version_in(text: &Vec<char>) -> (r: Result<(u16, u16, u32), String>)
    ensures
        version_view(r) == version_of(text@),
{
    let parts = split_chars(text, '.');
    proof {
        lemma_split_on_nonempty(text@, '.');
        assert(char_views(parts@).len() == parts@.len());
    }
    if parts.len() < 1 {
        return Err(String::from_str("Missing major version"));
    }
    assert(char_views(parts@)[0] == parts@[0]@);
    let major = match number_in(&parts[0], MAX_MINOR, "Invalid major version: ") {
        Ok(v) => v,
        Err(m) => {
            return Err(m);
        },
    };
    if parts.len() < 2 {
        return Err(String::from_str("Missing minor version"));
    }
    assert(char_views(parts@)[1] == parts@[1]@);
    let minor = match number_in(&parts[1], MAX_MINOR, "Invalid minor version: ") {
        Ok(v) => v,
        Err(m) => {
            return Err(m);
        },
    };
    if parts.len() < 3 {
        return Err(String::from_str("Missing patch version"));
    }
    assert(char_views(parts@)[2] == parts@[2]@);
    let patch = match number_in(&parts[2], MAX_PATCH, "Invalid patch version: ") {
        Ok(v) => v,
        Err(m) => {
            return Err(m);
        },
    };
    Ok((major as u16, minor as u16, patch as u32))
}

/// The library's own version from the texts of its three numbers (the
/// package's major, minor and patch fields).
pub fn core_version(major: &str, minor: &str, patch: &str) -> (r: Result<(u16, u16, u32), String>)
    ensures
        version_view(r) == version_triple(
            version_number(major@, MAX_MINOR as nat, "Invalid WasserXR-Core major version: "@),
            version_number(minor@, MAX_MINOR as nat, "Invalid WasserXR-Core minor version: "@),
            version_number(patch@, MAX_PATCH as nat, "Invalid WasserXR-Core patch version: "@),
        ),
{
    let a = match number_in(&chars_of(major), MAX_MINOR, "Invalid WasserXR-Core major version: ") {
        Ok(v) => v,
        Err(m) => {
            return Err(m);
        },
    };
    let b = match number_in(&chars_of(minor), MAX_MINOR, "Invalid WasserXR-Core minor version: ") {
        Ok(v) => v,
        Err(m) => {
            return Err(m);
        },
    };
    let c = match number_in(&chars_of(patch), MAX_PATCH, "Invalid WasserXR-Core patch version: ") {
        Ok(v) => v,
        Err(m) => {
            return Err(m);
        },
    };
    Ok((a as u16, b as u16, c as u32))
}

/// The number OpenXR is given for a version: major, minor and patch as
/// decimal digit groups.
pub open spec fn version_number_value(version: (u16, u16, u32)) -> int {
    version.0 * 1_000_000 + version.1 * 1_000 + version.2
}

/// The number OpenXR is given for a version.
pub fn version_u32(version: (u16, u16, u32)) -> (r: u32)
    requires
        version_number_value(version) <= u32::MAX,
    ensures
        r == version_number_value(version),
{
    (version.0 as u32) * 1_000_000 + (version.1 as u32) * 1_000 + version.2
}

/// What follows `version = "` on a line, up to the next quote, when the line
/// starts that way once white space around it is dropped.
pub open spec fn line_version(line: Seq<char>) -> Option<Seq<char>> {
    match strip_prefix(trim(line), "version = \""@) {
        Some(rest) => Some(before_char(rest, '"')),
        None => None,
    }
}

/// The version on the first of `lines` that gives one.
pub open spec fn first_line_version(lines: Seq<Seq<char>>) -> Option<Seq<char>>
    decreases lines.len(),
{
    if lines.len() == 0 {
        None
    } else {
        match line_version(lines[0]) {
            Some(v) => Some(v),
            None => first_line_version(lines.drop_first()),
        }
    }
}

/// The version the manifest asks for of the engine: written inline as
/// `wasserxr = { version = "…"`, or else on a `version = "…"` line of a
/// `[dependencies.wasserxr]` section.
pub open spec fn dependency_version(manifest: Seq<char>) -> Option<Seq<char>> {
    match second_piece(manifest, "wasserxr = { version = \""@) {
        Some(rest) => Some(before_char(rest, '"')),
        None => match second_piece(manifest, "[dependencies.wasserxr]"@) {
            Some(section) => first_line_version(split_on(section, '\n')),
            None => None,
        },
    }
}

/// The engine's version as the manifest names it.
pub open spec fn engine_version_of(manifest: Seq<char>) -> Result<(nat, nat, nat), Seq<char>> {
    match dependency_version(manifest) {
        None => Err("Failed to read WasserXR dependency version"@),
        Some(v) => version_of(v),
    }
}

/// The version on a line, if it gives one.
fn version_on_line(line: &Vec<char>) -> (r: Option<Vec<char>>)
    ensures
        match r {
            Some(v) => line_version(line@) == Some(v@),
            None => line_version(line@) is None,
        },
{
    let t = trimmed(line);
    let prefix = chars_of("version = \"");
    match without_prefix(&t, &prefix) {
        Some(rest) => Some(chars_before(&rest, '"')),
        None => None,
    }
}

/// The version on the first line that gives one.
fn version_in_lines(lines: &Vec<Vec<char>>) -> (r: Option<Vec<char>>)
    ensures
        match r {
            Some(v) => first_line_version(char_views(lines@)) == Some(v@),
            None => first_line_version(char_views(lines@)) is None,
        },
{
    let mut i: usize = 0;
    assert(char_views(lines@).skip(0) =~= char_views(lines@));
    while i < lines.len()
        invariant
            i <= lines@.len(),
            first_line_version(char_views(lines@)) == first_line_version(char_views(lines@).skip(i as int)),
        decreases lines@.len() - i,
    {
        let ghost rest = char_views(lines@).skip(i as int);
        assert(rest[0] == lines@[i as int]@);
        assert(rest.drop_first() =~= char_views(lines@).skip(i + 1));
        match version_on_line(&lines[i]) {
            Some(v) => {
                return Some(v);
            },
            None => {},
        }
        i = i + 1;
    }
    None
}

/// The engine version text the manifest names.
fn dependency_version_in(manifest: &Vec<char>) -> (r: Option<Vec<char>>)
    ensures
        match r {
            Some(v) => dependency_version(manifest@) == Some(v@),
            None => dependency_version(manifest@) is None,
        },
{
    let inline = chars_of("wasserxr = { version = \"");
    proof {
        reveal_strlit("wasserxr = { version = \"");
    }
    match piece_after(manifest, &inline) {
        Some(rest) => Some(chars_before(&rest, '"')),
        None => {
            let header = chars_of("[dependencies.wasserxr]");
            proof {
                reveal_strlit("[dependencies.wasserxr]");
            }
            match piece_after(manifest, &header) {
                Some(section) => {
                    let lines = split_chars(&section, '\n');
                    version_in_lines(&lines)
                },
                None => None,
            }
        },
    }
}

/// The engine's version as the package manifest `manifest` names it.
pub fn engine_version(manifest: &str) -> (r: Result<(u16, u16, u32), String>)
    ensures
        version_view(r) == engine_version_of(manifest@),
{
    let text = chars_of(manifest);
    match dependency_version_in(&text) {
        Some(v) => version_in(&v),
        None => Err(String::from_str("Failed to read WasserXR dependency version")),
    }
}

/// `a` is no later a version than `b`: ordered by major, then minor, then
/// patch.
pub open spec fn version_le(a: (u16, u16, u32), b: (u16, u16, u32)) -> bool {
    a.0 < b.0 || (a.0 == b.0 && (a.1 < b.1 || (a.1 == b.1 && a.2 <= b.2)))
}

/// The later of two versions.
pub open spec fn version_max(a: (u16, u16, u32), b: (u16, u16, u32)) -> (u16, u16, u32) {
    if version_le(a, b) {
        b
    } else {
        a
    }
}

/// The OpenGL version a window is created with: the runtime's minimum, but
/// at least 3.3.
pub open spec fn opengl_version_needed(min_supported: (u16, u16, u32)) -> (u16, u16, u32) {
    version_max(min_supported, (3, 3, 0))
}

/// The OpenGL major and minor version to create a window with, given the
/// range of OpenGL versions the XR runtime supports. The runtime must
/// support the version needed, and its major and minor numbers must fit in
/// a byte.
pub fn required_opengl_version(min_supported: (u16, u16, u32), max_supported: (u16, u16, u32)) -> (r: (u8, u8))
    requires
        version_le(opengl_version_needed(min_supported), max_supported),
        opengl_version_needed(min_supported).0 <= u8::MAX,
        opengl_version_needed(min_supported).1 <= u8::MAX,
    ensures
        r.0 == opengl_version_needed(min_supported).0,
        r.1 == opengl_version_needed(min_supported).1,
{
    let floor: (u16, u16, u32) = (3, 3, 0);
    let at_most = min_supported.0 < floor.0 || (min_supported.0 == floor.0 && (min_supported.1
        < floor.1 || (min_supported.1 == floor.1 && min_supported.2 <= floor.2)));
    let needed = if at_most {
        floor
    } else {
        min_supported
    };
    (needed.0 as u8, needed.1 as u8)
}

/// With minor and patch numbers below a thousand, the numbers OpenXR is
/// given order versions as major, then minor, then patch do, and two
/// different versions never get the same number.
pub proof fn law_version_number_order(a: (u16, u16, u32), b: (u16, u16, u32))
    requires
        a.1 < 1000,
        a.2 < 1000,
        b.1 < 1000,
        b.2 < 1000,
    ensures
        version_le(a, b) <==> version_number_value(a) <= version_number_value(b),
        a != b ==> version_number_value(a) != version_number_value(b),
{
    let (a0, a1, a2) = (a.0 as int, a.1 as int, a.2 as int);
    let (b0, b1, b2) = (b.0 as int, b.1 as int, b.2 as int);
    if a0 < b0 {
        assert(a0 * 1_000_000 + a1 * 1_000 + a2 < b0 * 1_000_000 + b1 * 1_000 + b2) by (nonlinear_arith)
            requires
                a0 < b0,
                0 <= a1 < 1000,
                0 <= a2 < 1000,
                0 <= b1,
                0 <= b2,
        ;
    } else if b0 < a0 {
        assert(b0 * 1_000_000 + b1 * 1_000 + b2 < a0 * 1_000_000 + a1 * 1_000 + a2) by (nonlinear_arith)
            requires
                b0 < a0,
                0 <= b1 < 1000,
                0 <= b2 < 1000,
                0 <= a1,
                0 <= a2,
        ;
    } else if a1 < b1 {
        assert(a1 * 1_000 + a2 < b1 * 1_000 + b2) by (nonlinear_arith)
            requires
                a1 < b1,
                0 <= a2 < 1000,
                0 <= b2,
        ;
    } else if b1 < a1 {
        assert(b1 * 1_000 + b2 < a1 * 1_000 + a2) by (nonlinear_arith)
            requires
                b1 < a1,
                0 <= b2 < 1000,
                0 <= a2,
        ;
    }
}

/// The OpenGL version a window is created with is never below 3.3 nor below
/// the runtime's minimum: it is the runtime's minimum where that is 3.3 or
/// later, and 3.3 otherwise.
pub proof fn law_opengl_version_floor(min_supported: (u16, u16, u32))
    ensures
        opengl_version_needed(min_supported).0 > 3 || (opengl_version_needed(min_supported).0 == 3
            && opengl_version_needed(min_supported).1 >= 3),
        version_le(min_supported, opengl_version_needed(min_supported)),
        (min_supported.0 > 3 || (min_supported.0 == 3 && min_supported.1 >= 3)) ==> opengl_version_needed(
            min_supported,
        ) == min_supported,
        (min_supported.0 < 3 || (min_supported.0 == 3 && min_supported.1 < 3)) ==> opengl_version_needed(
            min_supported,
        ) == (3u16, 3u16, 0u32),
{
}

} // verus!
