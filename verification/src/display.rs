//! How a record shows in the list of the history.

use crate::repository::models::ClipboardRecord;
use vstd::prelude::*;
use vstd::string::{StrSliceExecFns, StringExecFns};

verus! {

/// The most characters of a content that the list shows.
pub const PREVIEW_CHARS: usize = 100;

/// The content as the list shows it: whole where it has no more than a
/// hundred characters, and otherwise its first hundred with three dots.
pub open spec fn preview_of(content: Seq<char>) -> Seq<char> {
    if content.len() > PREVIEW_CHARS {
        content.take(PREVIEW_CHARS as int) + "..."@
    } else {
        content
    }
}

/// Format clipboard content for display (truncate if too long)
pub fn format_clipboard_content(record: &ClipboardRecord) -> (shown: String)
    ensures
        shown@ == preview_of(record@.content),
{
    let content = record.content.as_str();
    if content.unicode_len() > PREVIEW_CHARS {
        String::from_str(content.substring_char(0, PREVIEW_CHARS)).concat("...")
    } else {
        record.content.clone()
    }
}

/// The value of a hexadecimal digit; `None` for any other character.
pub open spec fn hex_digit(c: char) -> Option<u32> {
    if '0' <= c <= '9' {
        Some((c as u32 - '0' as u32) as u32)
    } else if 'a' <= c <= 'f' {
        Some((c as u32 - 'a' as u32 + 10) as u32)
    } else if 'A' <= c <= 'F' {
        Some((c as u32 - 'A' as u32 + 10) as u32)
    } else {
        None
    }
}

/// The hexadecimal digits of `content` from the place `from` on are `count`
/// in number and fill it to its end.
pub open spec fn hex_tail(content: Seq<char>, from: int, count: int) -> bool {
    &&& content.len() == from + count
    &&& forall|i: int| from <= i < from + count ==> hex_digit(#[trigger] content[i]) is Some
}

/// The value of the digit at a place of `content`.
pub open spec fn digit_at(content: Seq<char>, i: int) -> int {
    hex_digit(content[i]).unwrap() as int
}

/// The colour that a text names, as red, green and blue in 24 bits: a `#`
/// and six hexadecimal digits name it outright, a `#` and three name the
/// colour in which each digit stands twice; any other text names none.
pub open spec fn hex_color_of(content: Seq<char>) -> Option<u32> {
    if content.len() > 0 && content[0] == '#' && hex_tail(content, 1, 6) {
        Some(
            (digit_at(content, 1) * 0x10_0000 + digit_at(content, 2) * 0x1_0000 + digit_at(
                content,
                3,
            ) * 0x1000 + digit_at(content, 4) * 0x100 + digit_at(content, 5) * 0x10 + digit_at(
                content,
                6,
            )) as u32,
        )
    } else if content.len() > 0 && content[0] == '#' && hex_tail(content, 1, 3) {
        Some(
            (digit_at(content, 1) * 17 * 0x1_0000 + digit_at(content, 2) * 17 * 0x100 + digit_at(
                content,
                3,
            ) * 17) as u32,
        )
    } else {
        None
    }
}

/// The value of the hexadecimal digit at a place of a text.
fn read_digit(content: &str, i: usize) -> (value: Option<u32>)
    requires
        i < content@.len(),
    ensures
        value == hex_digit(content@[i as int]),
        value matches Some(v) ==> v < 16,
{
    let c = content.get_char(i);
    if '0' <= c && c <= '9' {
        Some(c as u32 - '0' as u32)
    } else if 'a' <= c && c <= 'f' {
        Some(c as u32 - 'a' as u32 + 10)
    } else if 'A' <= c && c <= 'F' {
        Some(c as u32 - 'A' as u32 + 10)
    } else {
        None
    }
}

/// The colour that a content names, if it names one.
pub fn get_hex_color(content: &str) -> (color: Option<u32>)
    ensures
        color == hex_color_of(content@),
{
    let len = content.unicode_len();
    if len != 4 && len != 7 {
        return None;
    }
    if content.get_char(0) != '#' {
        return None;
    }
    let d1 = match read_digit(content, 1) {
        Some(d) => d,
        None => {
            return None;
        },
    };
    let d2 = match read_digit(content, 2) {
        Some(d) => d,
        None => {
            return None;
        },
    };
    let d3 = match read_digit(content, 3) {
        Some(d) => d,
        None => {
            return None;
        },
    };
    if len == 4 {
        return Some(d1 * 17 * 0x1_0000 + d2 * 17 * 0x100 + d3 * 17);
    }
    let d4 = match read_digit(content, 4) {
        Some(d) => d,
        None => {
            return None;
        },
    };
    let d5 = match read_digit(content, 5) {
        Some(d) => d,
        None => {
            return None;
        },
    };
    let d6 = match read_digit(content, 6) {
        Some(d) => d,
        None => {
            return None;
        },
    };
    Some(d1 * 0x10_0000 + d2 * 0x1_0000 + d3 * 0x1000 + d4 * 0x100 + d5 * 0x10 + d6)
}

} // verus!
