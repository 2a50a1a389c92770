//! The lines of text that the viewer shows: the entries of the table of
//! contents and the status line.

use vstd::prelude::*;
use crate::backend::DocumentBackend;
use crate::document::DocumentInstance;
use crate::model::OutlineItem;
use crate::unicode::{chars_of, clipped, str_trim, string_from_chars, trimmed, utf8_len, utf8_offset};

verus! {

/// The decimal digits of `n`.
pub open spec fn digits(n: nat) -> Seq<char>
    decreases n,
{
    if n < 10 {
        seq![(48 + n) as u8 as char]
    } else {
        digits(n / 10).push((48 + n % 10) as u8 as char)
    }
}

/// Appends the decimal digits of `n`.
pub fn push_digits(line: &mut Vec<char>, n: u128)
    ensures
        final(line)@ == old(line)@ + digits(n as nat),
    decreases n,
{
    if n >= 10 {
        push_digits(line, n / 10);
    }
    let digit: u8 = (n % 10) as u8;
    line.push((48 + digit) as char);
    assert(line@ =~= old(line)@ + digits(n as nat));
}

/// Appends the characters of `more`.
pub fn push_all(line: &mut Vec<char>, more: &Vec<char>)
    ensures
        final(line)@ == old(line)@ + more@,
{
    let mut i: usize = 0;
    while i < more.len()
        invariant
            i <= more.len(),
            line@ == old(line)@ + more@.take(i as int),
        decreases more.len() - i,
    {
        line.push(more[i]);
        i += 1;
        assert(line@ =~= old(line)@ + more@.take(i as int));
    }
    assert(more@.take(more.len() as int) =~= more@);
}

/// Appends the characters of `text`.
pub fn push_str(line: &mut Vec<char>, text: &str)
    ensures
        final(line)@ == old(line)@ + text@,
{
    let more = chars_of(text);
    push_all(line, &more);
}

/// Appends `count` times the character `c`.
pub fn push_repeated(line: &mut Vec<char>, c: char, count: usize)
    ensures
        final(line)@ == old(line)@ + Seq::new(count as nat, |i: int| c),
{
    let mut i: usize = 0;
    while i < count
        invariant
            i <= count,
            line@ == old(line)@ + Seq::new(i as nat, |k: int| c),
        decreases count - i,
    {
        line.push(c);
        i += 1;
        assert(line@ =~= old(line)@ + Seq::new(i as nat, |k: int| c));
    }
}

/// How many bytes `chars` take in UTF-8, as far as a `usize` tells.
pub open spec fn byte_count(chars: Seq<char>) -> usize {
    clipped(utf8_len(chars, chars.len() as int))
}

/// The most characters at the front of `chars` that take no more than
/// `width` bytes.
pub open spec fn fitting(chars: Seq<char>, width: usize, n: int) -> int
    decreases chars.len() - n,
{
    if n < 0 || n >= chars.len() || clipped(utf8_len(chars, n + 1)) > width {
        n
    } else {
        fitting(chars, width, n + 1)
    }
}

/// A line of exactly `width` bytes where the text allows: a text that
/// is too long is cut to three bytes less and ends in three dots, or is
/// cut to the width where that is three bytes or less; a text that is
/// too short is filled up with spaces.
pub open spec fn fitted_line(text: Seq<char>, width: usize) -> Seq<char> {
    let cut = if byte_count(text) > width {
        if width <= 3 {
            text.take(fitting(text, width, 0))
        } else if text.len() > width - 3 {
            text.take(width - 3) + seq!['.', '.', '.']
        } else {
            text + seq!['.', '.', '.']
        }
    } else {
        text
    };
    if byte_count(cut) < width {
        cut + Seq::new((width - byte_count(cut)) as nat, |i: int| ' ')
    } else {
        cut
    }
}

/// How many characters at the front of `chars` take no more than
/// `width` bytes.
fn fitting_prefix(chars: &Vec<char>, width: usize) -> (r: usize)
    ensures
        r == fitting(chars@, width, 0),
        r <= chars@.len(),
{
    let mut n: usize = 0;
    while n < chars.len()
        invariant
            n <= chars.len(),
            fitting(chars@, width, 0) == fitting(chars@, width, n as int),
        decreases chars.len() - n,
    {
        if utf8_offset(chars, n + 1) > width {
            return n;
        }
        n += 1;
    }
    n
}

/// Cuts or fills `text` to `width` bytes.
pub fn truncate_with_ellipsis(text: String, width: usize) -> (r: String)
    ensures
        r@ == fitted_line(text@, width),
{
    let chars = chars_of(text.as_str());
    let fitted = fit_chars(chars, width);
    string_from_chars(&fitted)
}

/// Cuts or fills a line to `width` bytes.
pub fn fit_chars(chars: Vec<char>, width: usize) -> (r: Vec<char>)
    ensures
        r@ == fitted_line(chars@, width),
{
    let mut line: Vec<char> = Vec::new();
    if utf8_offset(&chars, chars.len()) > width {
        if width <= 3 {
            let keep: usize = fitting_prefix(&chars, width);
            let mut i: usize = 0;
            while i < keep
                invariant
                    i <= keep <= chars.len(),
                    line@ == chars@.take(i as int),
                decreases keep - i,
            {
                line.push(chars[i]);
                i += 1;
                assert(line@ =~= chars@.take(i as int));
            }
        } else {
            let keep: usize = if chars.len() > width - 3 {
                width - 3
            } else {
                chars.len()
            };
            let mut i: usize = 0;
            while i < keep
                invariant
                    i <= keep <= chars.len(),
                    line@ == chars@.take(i as int),
                decreases keep - i,
            {
                line.push(chars[i]);
                i += 1;
                assert(line@ =~= chars@.take(i as int));
            }
            assert(chars@.take(chars.len() as int) =~= chars@);
            line.push('.');
            line.push('.');
            line.push('.');
            assert(line@ =~= chars@.take(keep as int) + seq!['.', '.', '.']);
        }
    } else {
        line = chars;
    }
    let size: usize = utf8_offset(&line, line.len());
    if size < width {
        push_repeated(&mut line, ' ', width - size);
    }
    line
}

/// The lower-case form of an ASCII letter; every other character as it is.
pub open spec fn ascii_lower(c: char) -> char {
    if 'A' <= c && c <= 'Z' {
        ((c as u32 + 32) as u8) as char
    } else {
        c
    }
}

/// Whether `needle` stands in `hay` at `at`, the case of ASCII letters
/// aside.
pub open spec fn stands_at(hay: Seq<char>, needle: Seq<char>, at: int) -> bool {
    &&& 0 <= at
    &&& at + needle.len() <= hay.len()
    &&& forall|k: int| 0 <= k < needle.len() ==> ascii_lower(hay[at + k]) == ascii_lower(needle[k])
}

/// Whether every character is an ASCII character.
pub open spec fn all_ascii(chars: Seq<char>) -> bool {
    forall|i: int| 0 <= i < chars.len() ==> (chars[i] as u32) < 128
}

/// The first place at or behind `from` where `needle` stands in `hay`,
/// or -1 where it stands nowhere there.
pub open spec fn first_standing(hay: Seq<char>, needle: Seq<char>, from: int) -> int
    decreases hay.len() - from + 1,
{
    if from < 0 || from + needle.len() > hay.len() {
        -1
    } else if stands_at(hay, needle, from) {
        from
    } else {
        first_standing(hay, needle, from + 1)
    }
}

/// The first place where `needle` stands in `hay`, the case of letters
/// aside, as a range; there is none for an empty needle, and none where
/// either text holds a character beyond ASCII.
pub open spec fn first_place(hay: Seq<char>, needle: Seq<char>) -> Option<(usize, usize)> {
    if needle.len() == 0 || !all_ascii(hay) || !all_ascii(needle) || first_standing(hay, needle, 0)
        < 0 {
        None
    } else {
        Some(
            (
                first_standing(hay, needle, 0) as usize,
                (first_standing(hay, needle, 0) + needle.len()) as usize,
            ),
        )
    }
}

/// Whether every character is an ASCII character.
fn chars_are_ascii(chars: &Vec<char>) -> (r: bool)
    ensures
        r == all_ascii(chars@),
{
    let mut i: usize = 0;
    while i < chars.len()
        invariant
            i <= chars.len(),
            forall|k: int| 0 <= k < i ==> (chars@[k] as u32) < 128,
        decreases chars.len() - i,
    {
        if chars[i] as u32 >= 128 {
            return false;
        }
        i += 1;
    }
    true
}

/// The lower-case form of an ASCII letter.
fn to_ascii_lower(c: char) -> (r: char)
    ensures
        r == ascii_lower(c),
{
    if 'A' <= c && c <= 'Z' {
        ((c as u32 + 32) as u8) as char
    } else {
        c
    }
}

/// Whether `needle` stands in `hay` at `at`.
fn chars_stand_at(hay: &Vec<char>, needle: &Vec<char>, at: usize) -> (r: bool)
    requires
        at + needle@.len() <= hay@.len(),
    ensures
        r == stands_at(hay@, needle@, at as int),
{
    let hay_len: usize = hay.len();
    let mut k: usize = 0;
    while k < needle.len()
        invariant
            k <= needle.len(),
            hay_len == hay@.len(),
            at + needle@.len() <= hay@.len(),
            forall|j: int|
                0 <= j < k ==> ascii_lower(hay@[at + j]) == ascii_lower(needle@[j]),
        decreases needle.len() - k,
    {
        if to_ascii_lower(hay[at + k]) != to_ascii_lower(needle[k]) {
            return false;
        }
        k += 1;
    }
    true
}

/// The first place where the characters `needle` stand in `hay`.
fn find_place(hay: &Vec<char>, needle: &Vec<char>) -> (r: Option<(usize, usize)>)
    ensures
        r == first_place(hay@, needle@),
        r matches Some((start, end)) ==> start <= end <= hay@.len(),
{
    if needle.len() == 0 {
        return None;
    }
    if !chars_are_ascii(hay) || !chars_are_ascii(needle) {
        return None;
    }
    if needle.len() > hay.len() {
        return None;
    }
    let hay_len: usize = hay.len();
    let last: usize = hay_len - needle.len();
    let mut start: usize = 0;
    loop
        invariant
            start <= last,
            hay_len == hay@.len(),
            needle@.len() > 0,
            all_ascii(hay@),
            all_ascii(needle@),
            last == hay@.len() - needle@.len(),
            first_standing(hay@, needle@, 0) == first_standing(hay@, needle@, start as int),
        decreases last - start,
    {
        if chars_stand_at(hay, needle, start) {
            return Some((start, start + needle.len()));
        }
        if start == last {
            assert(first_standing(hay@, needle@, start + 1) == -1);
            return None;
        }
        start += 1;
    }
}

/// The first place where `needle` stands in `haystack`, the case of
/// letters aside, as a range of bytes, which in a text of ASCII
/// characters alone are its characters.
pub fn find_ascii_match_range(haystack: &str, needle: &str) -> (r: Option<(usize, usize)>)
    ensures
        r == first_place(haystack@, needle@),
{
    let hay = chars_of(haystack);
    let wanted = chars_of(needle);
    find_place(&hay, &wanted)
}

/// A title with the place `place` set in square brackets.
pub open spec fn marked_title(title: Seq<char>, place: Option<(usize, usize)>) -> Seq<char> {
    match place {
        Some((start, end)) => title.take(start as int) + seq!['['] + title.subrange(
            start as int,
            end as int,
        ) + seq![']'] + title.skip(end as int),
        None => title,
    }
}

/// Appends characters `from..to` of `chars`.
fn push_range(line: &mut Vec<char>, chars: &Vec<char>, from: usize, to: usize)
    requires
        from <= to <= chars@.len(),
    ensures
        final(line)@ == old(line)@ + chars@.subrange(from as int, to as int),
{
    let mut i: usize = from;
    while i < to
        invariant
            from <= i <= to <= chars@.len(),
            line@ == old(line)@ + chars@.subrange(from as int, i as int),
        decreases to - i,
    {
        line.push(chars[i]);
        i += 1;
        assert(line@ =~= old(line)@ + chars@.subrange(from as int, i as int));
    }
}

/// The place to mark in a title for a query.
pub open spec fn place_in_title(title: Seq<char>, query: Option<Seq<char>>) -> Option<(usize, usize)> {
    match query {
        Some(wanted) => first_place(title, wanted),
        None => None,
    }
}

/// The characters of a title with the first place where the query
/// stands in it set in square brackets.
fn mark_title(title: &Vec<char>, query: Option<&Vec<char>>) -> (r: Vec<char>)
    ensures
        r@ == marked_title(
            title@,
            place_in_title(
                title@,
                match query {
                    Some(wanted) => Some(wanted@),
                    None => None,
                },
            ),
        ),
{
    let place: Option<(usize, usize)> = match query {
        Some(wanted) => find_place(title, wanted),
        None => None,
    };
    let mut line: Vec<char> = Vec::new();
    match place {
        Some((start, end)) => {
            push_range(&mut line, title, 0, start);
            line.push('[');
            push_range(&mut line, title, start, end);
            line.push(']');
            push_range(&mut line, title, end, title.len());
            assert(line@ =~= marked_title(title@, place));
        },
        None => {
            push_all(&mut line, title);
        },
    }
    line
}

/// A title with the first place where the query stands in it, the case
/// of letters aside, set in square brackets. The title stays as it is
/// without a query, where the query is empty or not found, and where
/// title or query hold characters beyond ASCII.
pub fn highlight_search_segment(title: &str, query: Option<&str>) -> (r: String)
    ensures
        r@ == marked_title(
            title@,
            place_in_title(
                title@,
                match query {
                    Some(wanted) => Some(wanted@),
                    None => None,
                },
            ),
        ),
{
    let chars = chars_of(title);
    let line = match query {
        Some(wanted) => {
            let needle = chars_of(wanted);
            mark_title(&chars, Some(&needle))
        },
        None => mark_title(&chars, None),
    };
    string_from_chars(&line)
}

/// How many levels an entry is indented at most.
pub const MAX_INDENT: usize = 8;

/// The depth at which an entry is shown.
pub open spec fn indent_of(depth: usize) -> usize {
    if depth > MAX_INDENT {
        MAX_INDENT
    } else {
        depth
    }
}

/// What follows the title of an entry: its page, counted from one.
pub open spec fn page_suffix(page_index: usize) -> Seq<char> {
    seq![' ', '(', 'p'] + digits((page_index + 1) as nat) + seq![')']
}

/// How many bytes the line of an entry takes at least: markers,
/// indentation, title and page.
pub open spec fn line_length(entry: OutlineItem) -> int {
    4 + 2 * indent_of(entry.depth) + utf8_len(entry.title@, entry.title@.len() as int)
        + page_suffix(entry.page_index).len()
}

/// How many bytes the line of `entry` takes, or the largest number
/// where it is beyond that.
pub fn toc_line_length(entry: &OutlineItem) -> (r: usize)
    ensures
        r == clipped(line_length(*entry) as nat),
{
    let indent: usize = if entry.depth > MAX_INDENT {
        MAX_INDENT
    } else {
        entry.depth
    };
    let mut suffix: Vec<char> = Vec::new();
    suffix.push(' ');
    suffix.push('(');
    suffix.push('p');
    push_digits(&mut suffix, entry.page_index as u128 + 1);
    suffix.push(')');
    assert(suffix@ =~= page_suffix(entry.page_index));
    let title = chars_of(entry.title.as_str());
    let title_bytes: usize = utf8_offset(&title, title.len());
    let fixed: usize = 4 + 2 * indent;
    if title_bytes > usize::MAX - fixed {
        return usize::MAX;
    }
    let so_far: usize = fixed + title_bytes;
    if suffix.len() > usize::MAX - so_far {
        return usize::MAX;
    }
    so_far + suffix.len()
}

/// The line of an entry before it is fitted: three markers for picked,
/// current and matching, a space, the indentation, the title with the
/// match marked in a matching entry, and the page.
pub open spec fn toc_line(
    entry: OutlineItem,
    selected: bool,
    current: bool,
    matching: bool,
    active_query: Option<Seq<char>>,
) -> Seq<char> {
    seq![
        if selected {
            '>'
        } else {
            ' '
        },
        if current {
            '*'
        } else {
            ' '
        },
        if matching {
            '+'
        } else {
            ' '
        },
        ' ',
    ] + Seq::new((2 * indent_of(entry.depth)) as nat, |i: int| ' ') + (if matching {
        marked_title(entry.title@, place_in_title(entry.title@, active_query))
    } else {
        entry.title@
    }) + page_suffix(entry.page_index)
}

/// The line of an entry of the table of contents, `inner_width` bytes
/// wide.
pub fn format_toc_line(
    entry: &OutlineItem,
    selected: bool,
    current: bool,
    matching: bool,
    active_query: Option<&str>,
    inner_width: usize,
) -> (r: String)
    ensures
        r@ == fitted_line(
            toc_line(
                *entry,
                selected,
                current,
                matching,
                match active_query {
                    Some(query) => Some(query@),
                    None => None,
                },
            ),
            inner_width,
        ),
{
    let line = toc_line_chars(entry, selected, current, matching, active_query);
    string_from_chars(&fit_chars(line, inner_width))
}

/// The three markers of a line and the space behind them.
fn markers(selected: bool, current: bool, matching: bool) -> (r: Vec<char>)
    ensures
        r@ == seq![
            if selected {
                '>'
            } else {
                ' '
            },
            if current {
                '*'
            } else {
                ' '
            },
            if matching {
                '+'
            } else {
                ' '
            },
            ' ',
        ],
{
    let mut line: Vec<char> = Vec::new();
    line.push(if selected {
        '>'
    } else {
        ' '
    });
    line.push(if current {
        '*'
    } else {
        ' '
    });
    line.push(if matching {
        '+'
    } else {
        ' '
    });
    line.push(' ');
    assert(line@ =~= seq![
        if selected {
            '>'
        } else {
            ' '
        },
        if current {
            '*'
        } else {
            ' '
        },
        if matching {
            '+'
        } else {
            ' '
        },
        ' ',
    ]);
    line
}

/// Appends the page of an entry.
fn push_page_suffix(line: &mut Vec<char>, page_index: usize)
    ensures
        final(line)@ == old(line)@ + page_suffix(page_index),
{
    let mut suffix: Vec<char> = Vec::new();
    suffix.push(' ');
    suffix.push('(');
    suffix.push('p');
    push_digits(&mut suffix, page_index as u128 + 1);
    suffix.push(')');
    assert(suffix@ =~= page_suffix(page_index));
    push_all(line, &suffix);
}

/// The title of an entry as it is shown.
fn shown_title(entry: &OutlineItem, matching: bool, active_query: Option<&str>) -> (r: Vec<char>)
    ensures
        r@ == if matching {
            marked_title(
                entry.title@,
                place_in_title(
                    entry.title@,
                    match active_query {
                        Some(query) => Some(query@),
                        None => None,
                    },
                ),
            )
        } else {
            entry.title@
        },
{
    let title = chars_of(entry.title.as_str());
    if matching {
        match active_query {
            Some(query) => {
                let needle = chars_of(query);
                mark_title(&title, Some(&needle))
            },
            None => mark_title(&title, None),
        }
    } else {
        title
    }
}

/// The line of an entry before it is fitted.
fn toc_line_chars(
    entry: &OutlineItem,
    selected: bool,
    current: bool,
    matching: bool,
    active_query: Option<&str>,
) -> (r: Vec<char>)
    ensures
        r@ == toc_line(
            *entry,
            selected,
            current,
            matching,
            match active_query {
                Some(query) => Some(query@),
                None => None,
            },
        ),
{
    let indent: usize = if entry.depth > MAX_INDENT {
        MAX_INDENT
    } else {
        entry.depth
    };
    let mut line = markers(selected, current, matching);
    push_repeated(&mut line, ' ', 2 * indent);
    let shown = shown_title(entry, matching, active_query);
    push_all(&mut line, &shown);
    push_page_suffix(&mut line, entry.page_index);
    line
}

/// A count of matches or links behind a status: none of them, or which
/// one of how many.
pub open spec fn tally(none: Seq<char>, total: usize, current: Option<usize>) -> Seq<char> {
    if total == 0 {
        none
    } else {
        seq![' ', '('] + digits(
            match current {
                Some(index) => (index + 1) as nat,
                None => 0,
            },
        ) + seq!['/'] + digits(total as nat) + seq![')']
    }
}

/// The status of a document: its name, the page in view counted from
/// one and the number of pages, the zoom factor in percent, and the
/// search and the links where there are any.
pub open spec fn status_line<B: DocumentBackend>(name: Seq<char>, doc: DocumentInstance<B>) -> Seq<
    char,
> {
    name + " — page "@ + digits((doc.state.current_page + 1) as nat) + seq!['/'] + digits(
        doc.info.page_count as nat,
    ) + " — "@ + digits(((doc.state.scale + 5) / 10) as nat) + seq!['%'] + (match doc.search_state {
        Some(state) => " — /"@ + state.query@ + tally(
            " (no matches)"@,
            state.matches@.len() as usize,
            state.current_index,
        ),
        None => Seq::empty(),
    }) + (match doc.link_state {
        Some(state) => " — link"@ + tally(
            " (no links)"@,
            state.links@.len() as usize,
            state.current_index,
        ),
        None => Seq::empty(),
    })
}

/// Appends a count of matches or links.
fn push_tally(line: &mut Vec<char>, none: &str, total: usize, current: Option<usize>)
    ensures
        final(line)@ == old(line)@ + tally(none@, total, current),
{
    if total == 0 {
        push_str(line, none);
    } else {
        let ghost before = line@;
        line.push(' ');
        line.push('(');
        match current {
            Some(index) => push_digits(line, index as u128 + 1),
            None => push_digits(line, 0),
        }
        line.push('/');
        push_digits(line, total as u128);
        line.push(')');
        assert(line@ =~= before + tally(none@, total, current));
    }
}

/// The status line of a document whose file is called `name`.
pub fn format_document_status<B: DocumentBackend>(name: &str, doc: &DocumentInstance<B>) -> (r:
    String)
    ensures
        r@ == status_line(name@, *doc),
{
    let mut line: Vec<char> = Vec::new();
    push_str(&mut line, name);
    push_str(&mut line, " — page ");
    push_digits(&mut line, doc.state.current_page as u128 + 1);
    line.push('/');
    push_digits(&mut line, doc.info.page_count as u128);
    push_str(&mut line, " — ");
    push_digits(&mut line, ((doc.state.scale as u64 + 5) / 10) as u128);
    line.push('%');
    let ghost head = line@;
    assert(head =~= name@ + " — page "@ + digits((doc.state.current_page + 1) as nat) + seq!['/']
        + digits(doc.info.page_count as nat) + " — "@ + digits(
        ((doc.state.scale + 5) / 10) as nat,
    ) + seq!['%']);
    match &doc.search_state {
        Some(state) => {
            push_str(&mut line, " — /");
            push_str(&mut line, state.query.as_str());
            push_tally(&mut line, " (no matches)", state.matches.len(), state.current_index);
        },
        None => {},
    }
    let ghost searched = line@;
    assert(searched =~= head + (match doc.search_state {
        Some(state) => " — /"@ + state.query@ + tally(
            " (no matches)"@,
            state.matches@.len() as usize,
            state.current_index,
        ),
        None => Seq::empty(),
    }));
    match &doc.link_state {
        Some(state) => {
            push_str(&mut line, " — link");
            push_tally(&mut line, " (no links)", state.links.len(), state.current_index);
        },
        None => {},
    }
    assert(line@ =~= searched + (match doc.link_state {
        Some(state) => " — link"@ + tally(
            " (no links)"@,
            state.links@.len() as usize,
            state.current_index,
        ),
        None => Seq::empty(),
    }));
    string_from_chars(&line)
}

/// The parts of a list that commas separate: one more than there are
/// commas, each as it stands.
pub open spec fn comma_parts(chars: Seq<char>) -> Seq<Seq<char>>
    decreases chars.len(),
{
    if chars.len() == 0 {
        seq![Seq::empty()]
    } else {
        let before = comma_parts(chars.drop_last());
        if chars.last() == ',' {
            before.push(Seq::empty())
        } else {
            before.drop_last().push(before.last().push(chars.last()))
        }
    }
}

/// The keywords of a document as its metadata lists them: the parts
/// between the commas, without the white space at their ends.
pub fn split_keywords(value: &str) -> (r: Vec<String>)
    ensures
        r@.len() == comma_parts(value@).len(),
        forall|k: int| 0 <= k < r@.len() ==> (#[trigger] r@[k])@ == trimmed(comma_parts(value@)[k]),
{
    let chars = chars_of(value);
    let mut parts: Vec<String> = Vec::new();
    let mut current: Vec<char> = Vec::new();
    let ghost mut done: Seq<Seq<char>> = Seq::empty();
    let mut i: usize = 0;
    assert(chars@.take(0) =~= Seq::<char>::empty());
    while i < chars.len()
        invariant
            i <= chars.len(),
            comma_parts(chars@.take(i as int)) == done.push(current@),
            parts@.len() == done.len(),
            forall|k: int| 0 <= k < parts@.len() ==> (#[trigger] parts@[k])@ == trimmed(done[k]),
        decreases chars.len() - i,
    {
        let c: char = chars[i];
        proof {
            let longer = chars@.take(i + 1);
            assert(longer.drop_last() =~= chars@.take(i as int));
            assert(longer.last() == c);
            assert(done.push(current@).drop_last() =~= done);
        }
        if c == ',' {
            let text = string_from_chars(&current);
            parts.push(str_trim(text.as_str()).to_owned());
            proof {
                done = done.push(current@);
            }
            current = Vec::new();
        } else {
            current.push(c);
        }
        i += 1;
    }
    assert(chars@.take(chars.len() as int) =~= chars@);
    let text = string_from_chars(&current);
    parts.push(str_trim(text.as_str()).to_owned());
    parts
}

/// The status line with the input under way behind it.
pub fn combine_status(base: Option<String>, pending_input: Option<&str>) -> (r: Option<String>)
    ensures
        ({
            let pending = match pending_input {
                Some(text) => if text@.len() > 0 {
                    Some(text@)
                } else {
                    None
                },
                None => None,
            };
            match (base, pending) {
                (Some(status), Some(text)) => r matches Some(line) && line@ == status@ + " | "@
                    + text,
                (Some(status), None) => r matches Some(line) && line@ == status@,
                (None, Some(text)) => r matches Some(line) && line@ == text,
                (None, None) => r is None,
            }
        }),
{
    let pending: Option<&str> = match pending_input {
        Some(text) => if text.is_empty() {
            None
        } else {
            Some(text)
        },
        None => None,
    };
    match (base, pending) {
        (Some(status), Some(text)) => {
            let mut line = status;
            vstd::string::StringExecFns::append(&mut line, " | ");
            vstd::string::StringExecFns::append(&mut line, text);
            Some(line)
        },
        (Some(status), None) => Some(status),
        (None, Some(text)) => Some(text.to_owned()),
        (None, None) => None,
    }
}

} // verus!
