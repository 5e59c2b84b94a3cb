use vstd::prelude::*;
use vstd::string::StrSliceExecFns;

use crate::model::{Column, Priority};
use crate::text::{
    decimal, decimal_text,
    lemma_utf8_len_add, lemma_utf8_len_char, lemma_words_cost, owned, push_str, split_words,
    strings_view, utf8_len, words_cost, words_of,
};

verus! {

/// A rectangle of terminal cells.
#[derive(Debug, Clone, Copy, PartialEq, Eq, Structural)]
pub struct Rect {
    pub x: u16,
    pub y: u16,
    pub width: u16,
    pub height: u16,
}

/// `a * b`, or `usize::MAX` when the product does not fit.
pub open spec fn saturated_product(a: usize, b: usize) -> nat {
    if a * b > usize::MAX {
        usize::MAX as nat
    } else {
        (a * b) as nat
    }
}

/// `a * b`, stopping at `usize::MAX` instead of overflowing, as
/// `usize::saturating_mul` computes it.
fn saturating_mul(a: usize, b: usize) -> (r: usize)
    ensures
        r == saturated_product(a, b),
{
    match a.checked_mul(b) {
        Some(product) => product,
        None => usize::MAX,
    }
}

/// The share of `value` in `total` in whole percent, rounded down, or 0 when
/// `total` is 0.
pub open spec fn percent_spec(value: usize, total: usize) -> nat {
    if total == 0 {
        0
    } else {
        saturated_product(value, 100) / (total as nat)
    }
}

/// The share of `value` in `total` in whole percent, rounded down, or 0 when
/// `total` is 0.
pub fn percent(value: usize, total: usize) -> (r: usize)
    ensures
        r == percent_spec(value, total),
{
    if total == 0 {
        return 0;
    }
    saturating_mul(value, 100) / total
}

/// The lengths of the filled and the empty part of a progress bar of
/// `width` cells for `value` out of `total`: none for a bar without cells,
/// all empty when there is nothing to show, else at least one filled cell.
pub open spec fn progress_fill_spec(value: usize, total: usize, width: usize) -> Option<(usize, usize)> {
    if width == 0 {
        None
    } else if total == 0 || value == 0 {
        Some((0usize, width))
    } else {
        let share = saturated_product(value, width) / (total as nat);
        let filled: nat = if share == 0 {
            1
        } else {
            share
        };
        Some((filled as usize, if filled <= width { (width - filled) as usize } else { 0usize }))
    }
}

/// The lengths of the filled and the empty part of a progress bar.
pub fn progress_fill(value: usize, total: usize, width: usize) -> (r: Option<(usize, usize)>)
    ensures
        r == progress_fill_spec(value, total, width),
{
    if width == 0 {
        return None;
    }
    if total == 0 || value == 0 {
        return Some((0, width));
    }
    let mut fill_len = saturating_mul(value, width) / total;
    if fill_len == 0 {
        fill_len = 1;
    }
    let empty_len = width.saturating_sub(fill_len);
    Some((fill_len, empty_len))
}

/// `text` when it has at most `max_chars` characters, else its first
/// `max_chars` characters followed by "...".
pub open spec fn truncated_spec(text: Seq<char>, max_chars: usize) -> Seq<char> {
    if text.len() <= max_chars {
        text
    } else {
        text.subrange(0, max_chars as int) + "..."@
    }
}

/// Shortens a text to `max_chars` characters and marks the cut with "...".
pub fn truncate_with_ellipsis(text: &str, max_chars: usize) -> (r: String)
    ensures
        r@ == truncated_spec(text@, max_chars),
{
    let char_count = text.unicode_len();
    if char_count <= max_chars {
        return owned(text);
    }
    let mut result = owned(text.substring_char(0, max_chars));
    push_str(&mut result, "...");
    result
}

/// The rectangle of at most `max_width` by `max_height` cells (and at least
/// one by one) centred in `area`.
pub open spec fn bounded_center_spec(area: Rect, max_width: u16, max_height: u16) -> Rect {
    let width: u16 = if area.width < max_width { area.width } else { max_width };
    let width: u16 = if width < 1 { 1 } else { width };
    let height: u16 = if area.height < max_height { area.height } else { max_height };
    let height: u16 = if height < 1 { 1 } else { height };
    let spare_x: int = if area.width >= width { area.width - width } else { 0 };
    let spare_y: int = if area.height >= height { area.height - height } else { 0 };
    Rect {
        x: (area.x + spare_x / 2) as u16,
        y: (area.y + spare_y / 2) as u16,
        width,
        height,
    }
}

/// The centring of `area` does not leave the coordinate range.
pub open spec fn bounded_center_fits(area: Rect, max_width: u16, max_height: u16) -> bool {
    let width: u16 = if area.width < max_width { area.width } else { max_width };
    let width: u16 = if width < 1 { 1 } else { width };
    let height: u16 = if area.height < max_height { area.height } else { max_height };
    let height: u16 = if height < 1 { 1 } else { height };
    let spare_x: int = if area.width >= width { area.width - width } else { 0 };
    let spare_y: int = if area.height >= height { area.height - height } else { 0 };
    area.x + spare_x / 2 <= u16::MAX && area.y + spare_y / 2 <= u16::MAX
}

/// The rectangle of at most `max_width` by `max_height` cells centred in `area`.
pub fn bounded_center_rect(area: Rect, max_width: u16, max_height: u16) -> (r: Rect)
    requires
        bounded_center_fits(area, max_width, max_height),
    ensures
        r == bounded_center_spec(area, max_width, max_height),
{
    let width = area.width.min(max_width).max(1);
    let height = area.height.min(max_height).max(1);
    let x = area.x + (area.width.saturating_sub(width) / 2);
    let y = area.y + (area.height.saturating_sub(height) / 2);
    Rect { x, y, width, height }
}

/// Laying the words out from the left in lines of at most `max_width` bytes:
/// the lines completed so far and the line being filled. A word that does
/// not fit on a line that already holds words starts a new line; a word
/// longer than the width gets a line of its own.
pub open spec fn wrap_state(words: Seq<Seq<char>>, max_width: nat) -> (Seq<Seq<char>>, Seq<char>)
    decreases words.len(),
{
    if words.len() == 0 {
        (Seq::empty(), Seq::empty())
    } else {
        let (lines, current) = wrap_state(words.drop_last(), max_width);
        let w = words.last();
        let projected = if current.len() == 0 {
            utf8_len(w)
        } else {
            utf8_len(current) + 1 + utf8_len(w)
        };
        if projected > max_width && current.len() > 0 {
            (lines.push(current), w)
        } else if current.len() == 0 {
            (lines, w)
        } else {
            (lines, current + seq![' '] + w)
        }
    }
}

/// The lines of `text` wrapped at word boundaries to `max_width` bytes,
/// words joined by one space; at least one (possibly empty) line.
pub open spec fn wrap_spec(text: Seq<char>, max_width: nat) -> Seq<Seq<char>> {
    if max_width == 0 {
        seq![Seq::empty()]
    } else {
        let (lines, current) = wrap_state(words_of(text), max_width);
        let lines = if current.len() > 0 {
            lines.push(current)
        } else {
            lines
        };
        if lines.len() == 0 {
            seq![Seq::empty()]
        } else {
            lines
        }
    }
}

/// Wraps `text` at word boundaries into lines of at most `max_width` bytes
/// where the words allow it.
pub fn wrap_text(text: &str, max_width: usize) -> (r: Vec<String>)
    requires
        utf8_len(text@) < usize::MAX,
    ensures
        strings_view(r@) == wrap_spec(text@, max_width as nat),
{
    if max_width == 0 {
        let mut only: Vec<String> = Vec::new();
        only.push(String::new());
        assert(strings_view(only@) =~= seq![Seq::<char>::empty()]);
        return only;
    }
    let words = split_words(text);
    proof {
        lemma_words_cost(text@);
        reveal_strlit(" ");
        assert(strings_view(words@).skip(0) =~= strings_view(words@));
        assert(strings_view(words@).subrange(0, 0) =~= Seq::<Seq<char>>::empty());
    }
    let ghost ws = strings_view(words@);
    let mut lines: Vec<String> = Vec::new();
    let mut current_line = String::new();
    assert(strings_view(lines@) =~= Seq::<Seq<char>>::empty());
    assert(utf8_len(current_line@) == 0);
    let mut k: usize = 0;
    while k < words.len()
        invariant
            k <= words@.len(),
            ws == strings_view(words@),
            ws == words_of(text@),
            (strings_view(lines@), current_line@) == wrap_state(ws.subrange(0, k as int), max_width as nat),
            utf8_len(current_line@) + words_cost(ws.skip(k as int)) <= utf8_len(text@) + 1,
            utf8_len(text@) < usize::MAX,
            " "@ == seq![' '],
        decreases words@.len() - k,
    {
        let word = &words[k];
        let ghost w = word@;
        let ghost cur = current_line@;
        proof {
            assert(ws[k as int] == w);
            assert(ws.skip(k as int).drop_first() =~= ws.skip(k + 1));
            assert(ws.skip(k as int)[0] == w);
            assert(ws.subrange(0, k + 1).drop_last() =~= ws.subrange(0, k as int));
            assert(ws.subrange(0, k + 1).last() == w);
            assert(cur + seq![' '] + w =~= cur + (seq![' '] + w));
            lemma_utf8_len_add(cur, seq![' '] + w);
            lemma_utf8_len_add(seq![' '], w);
            lemma_utf8_len_char(' ');
            assert(Seq::<char>::empty() + w =~= w);
        }
        let word_len = word.as_str().len();
        let projected_length = if current_line.as_str().is_empty() {
            word_len
        } else {
            current_line.as_str().len() + 1 + word_len
        };
        if projected_length > max_width && !current_line.as_str().is_empty() {
            let ghost before = lines@;
            lines.push(current_line);
            current_line = word.clone();
            proof {
                assert(strings_view(lines@) =~= strings_view(before).push(cur));
            }
        } else {
            if !current_line.as_str().is_empty() {
                push_str(&mut current_line, " ");
            }
            push_str(&mut current_line, word.as_str());
        }
        k = k + 1;
    }
    proof {
        assert(ws.subrange(0, k as int) =~= ws);
    }
    if !current_line.as_str().is_empty() {
        let ghost before = lines@;
        let ghost cur = current_line@;
        lines.push(current_line);
        proof {
            assert(strings_view(lines@) =~= strings_view(before).push(cur));
        }
    }
    if lines.len() == 0 {
        lines.push(String::new());
        assert(strings_view(lines@) =~= seq![Seq::<char>::empty()]);
    }
    lines
}

/// The name of a column.
pub open spec fn column_label_spec(column: Column) -> Seq<char> {
    match column {
        Column::Todo => "Todo"@,
        Column::Doing => "Doing"@,
        Column::Done => "Done"@,
    }
}

/// The name of a column.
pub fn column_label(column: Column) -> (r: &'static str)
    ensures
        r@ == column_label_spec(column),
{
    match column {
        Column::Todo => "Todo",
        Column::Doing => "Doing",
        Column::Done => "Done",
    }
}

/// The name of a priority.
pub open spec fn priority_label_spec(priority: Priority) -> Seq<char> {
    match priority {
        Priority::Low => "Low"@,
        Priority::Medium => "Medium"@,
        Priority::High => "High"@,
    }
}

/// The name of a priority.
pub fn priority_label(priority: Priority) -> (r: &'static str)
    ensures
        r@ == priority_label_spec(priority),
{
    match priority {
        Priority::Low => "Low",
        Priority::Medium => "Medium",
        Priority::High => "High",
    }
}

/// The short tag of a priority shown beside a card's title.
pub open spec fn priority_tag_spec(priority: Priority) -> Seq<char> {
    match priority {
        Priority::Low => "[Low]"@,
        Priority::Medium => "[Med]"@,
        Priority::High => "[High]"@,
    }
}

/// The short tag of a priority shown beside a card's title.
pub fn priority_tag(priority: Priority) -> (r: &'static str)
    ensures
        r@ == priority_tag_spec(priority),
{
    match priority {
        Priority::Low => "[Low]",
        Priority::Medium => "[Med]",
        Priority::High => "[High]",
    }
}

/// The title of a column's list: its name and its number of cards, as in
/// "Todo (3)".
pub fn column_title(column: Column, count: usize) -> (r: String)
    ensures
        r@ == column_label_spec(column) + " ("@ + decimal(count as nat) + ")"@,
{
    let mut title = owned(column_label(column));
    push_str(&mut title, " (");
    let digits = decimal_text(count as u64);
    push_str(&mut title, digits.as_str());
    push_str(&mut title, ")");
    title
}

/// The width of the bars in the statistics panel of `width` cells: 20
/// cells less, but at least 10.
pub fn stats_bar_width(width: u16) -> (r: usize)
    ensures
        r == (if width >= 30 { width - 20 } else { 10 }),
{
    width.saturating_sub(20).max(10) as usize
}

/// The width of the text inside a column of `width` cells: 4 cells less
/// (borders and the selection mark), or 0.
pub fn column_content_width(width: u16) -> (r: usize)
    ensures
        r == (if width >= 4 { width - 4 } else { 0 }),
{
    width.saturating_sub(4) as usize
}

/// The widths to wrap a card's title and description to, in a column whose
/// text is `content_width` wide, when the title's first line also holds a
/// tag of `tag_len` bytes and a space: each at least 1.
pub fn card_text_widths(content_width: usize, tag_len: usize) -> (r: (usize, usize))
    ensures
        r.0 == (if content_width >= tag_len + 2 { content_width - tag_len - 1 } else { 1 }),
        r.1 == (if content_width >= 1 { content_width } else { 1 }),
{
    let title_width = content_width.saturating_sub(tag_len).saturating_sub(1).max(1);
    let description_width = content_width.max(1);
    (title_width, description_width)
}

} // verus!
