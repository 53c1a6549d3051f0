//! Turning the pages of a document into images: what the converter reports
//! of the files it made.

use vstd::prelude::*;
use crate::size::{fixed, push_fixed, KB, MB};
use crate::text::{
    chars_of, decimal, eq_ignore_ascii_case, occurs_at_pos, parse_u32, parsed_u32, push_decimal,
    push_str, push_zero_padded, same_ignoring_ascii_case, slice_of, split, split_chars,
    starts_with, string_of, texts_of, trim, trim_chars, trim_start_matches,
    trim_start_matches_pos, zero_padded,
};

verus! {

/// A size as the page converter reports it: in MB with one decimal from 1 MB
/// on, in whole KB from 1 KB on, or in bytes below that.
pub open spec fn size_text(bytes: u64) -> Seq<char> {
    if bytes >= MB {
        fixed(bytes as nat, MB as nat, 1) + " MB"@
    } else if bytes >= KB {
        fixed(bytes as nat, KB as nat, 0) + " KB"@
    } else {
        decimal(bytes as nat) + " B"@
    }
}

/// A size in the words of the page converter's report.
pub fn format_size(bytes: u64) -> (text: String)
    ensures
        text@ == size_text(bytes),
{
    let mut out: Vec<char> = Vec::new();
    if bytes >= MB {
        push_fixed(&mut out, bytes, MB, 1);
        push_str(&mut out, " MB");
    } else if bytes >= KB {
        push_fixed(&mut out, bytes, KB, 0);
        push_str(&mut out, " KB");
    } else {
        push_decimal(&mut out, bytes);
        push_str(&mut out, " B");
    }
    assert(Seq::<char>::empty() + size_text(bytes) =~= size_text(bytes));
    string_of(&out)
}

/// Number of files listed at the start and at the end of a long list.
pub const SHOW_LIMIT: usize = 5;

/// Why the number of pages is not known.
#[derive(Debug, Clone)]
pub enum PageCountError {
    /// The document's description has no line on its pages.
    Missing,
    /// The line on the pages holds this in place of a number.
    Malformed(String),
}

/// The first of `lines` that begins with `Pages:`.
pub open spec fn pages_line(lines: Seq<Seq<char>>) -> Option<Seq<char>>
    decreases lines.len(),
{
    if lines.len() == 0 {
        None
    } else if starts_with(lines.first(), "Pages:"@) {
        Some(lines.first())
    } else {
        pages_line(lines.drop_first())
    }
}

/// What a line on the pages holds behind `Pages:`, without the whitespace around it.
pub open spec fn pages_value(line: Seq<char>) -> Seq<char> {
    trim(trim_start_matches(line, "Pages:"@))
}

/// The number of pages that a document's description gives, where it has a
/// line on the pages and that line holds a number.
pub open spec fn page_count_of(info: Seq<char>) -> Option<u32> {
    match pages_line(split(info, '\n')) {
        Some(line) => parsed_u32(pages_value(line)),
        None => None,
    }
}

/// What is reported where the number of pages is not known.
pub open spec fn page_count_error_text(error: PageCountError) -> Seq<char> {
    match error {
        PageCountError::Missing => "Could not find page count in PDF info"@,
        PageCountError::Malformed(found) => "Failed to parse page count: "@ + found@,
    }
}

impl PageCountError {
    /// The error in words.
    pub fn message(&self) -> (text: String)
        ensures
            text@ == page_count_error_text(*self),
    {
        let mut out: Vec<char> = Vec::new();
        match self {
            PageCountError::Missing => push_str(&mut out, "Could not find page count in PDF info"),
            PageCountError::Malformed(found) => {
                push_str(&mut out, "Failed to parse page count: ");
                push_str(&mut out, found.as_str());
            },
        }
        assert(Seq::<char>::empty() + page_count_error_text(*self) =~= page_count_error_text(
            *self,
        ));
        string_of(&out)
    }
}

/// Reads the number of pages from a document's description, which has one
/// fact to a line: the first line that begins with `Pages:` tells it.
pub fn parse_page_count(info: &str) -> (result: Result<u32, PageCountError>)
    ensures
        match pages_line(split(info@, '\n')) {
            None => result matches Err(PageCountError::Missing),
            Some(line) => match parsed_u32(pages_value(line)) {
                Some(count) => result matches Ok(found) && found == count,
                None => result matches Err(PageCountError::Malformed(found)) && found@
                    == pages_value(line),
            },
        },
        result matches Ok(found) ==> page_count_of(info@) == Some(found),
        result is Err ==> page_count_of(info@) is None,
{
    let lines = split_chars(&chars_of(info), '\n');
    let marker = chars_of("Pages:");
    proof {
        reveal_strlit("Pages:");
    }
    let mut i: usize = 0;
    assert(texts_of(lines@).skip(0) == texts_of(lines@));
    while i < lines.len()
        invariant
            i <= lines.len(),
            marker@ == "Pages:"@,
            marker@.len() > 0,
            texts_of(lines@) == split(info@, '\n'),
            pages_line(texts_of(lines@).skip(i as int)) == pages_line(texts_of(lines@)),
        decreases lines.len() - i,
    {
        let line = &lines[i];
        assert(texts_of(lines@).skip(i as int).first() == line@);
        if occurs_at_pos(line, &marker, 0) {
            let start = trim_start_matches_pos(line, &marker);
            let rest = slice_of(line, start, line.len());
            assert(rest@ == line@.skip(start as int));
            let value = trim_chars(&rest);
            return match parse_u32(&value) {
                Some(count) => Ok(count),
                None => Err(PageCountError::Malformed(string_of(&value))),
            };
        }
        assert(texts_of(lines@).skip(i as int).drop_first() == texts_of(lines@).skip(i + 1));
        i += 1;
    }
    Err(PageCountError::Missing)
}

/// What is said of the number of pages.
pub open spec fn page_count_text(count: u32) -> Seq<char> {
    "PDF has "@ + decimal(count as nat) + if count == 1 {
        " page"@
    } else {
        " pages"@
    }
}

/// What is said of the number of pages.
pub fn page_count_line(count: u32) -> (line: String)
    ensures
        line@ == page_count_text(count),
{
    let mut out: Vec<char> = Vec::new();
    push_str(&mut out, "PDF has ");
    push_decimal(&mut out, count as u64);
    if count == 1 {
        push_str(&mut out, " page");
    } else {
        push_str(&mut out, " pages");
    }
    assert(Seq::<char>::empty() + page_count_text(count) =~= page_count_text(count));
    string_of(&out)
}

/// Whether a file with this extension counts as a PDF. Letter case does not count.
pub fn is_pdf_extension(extension: Option<&str>) -> (pdf: bool)
    ensures
        pdf == match extension {
            Some(ext) => eq_ignore_ascii_case(ext@, "pdf"@),
            None => false,
        },
{
    match extension {
        Some(ext) => same_ignoring_ascii_case(&chars_of(ext), &chars_of("pdf")),
        None => false,
    }
}

/// The name of a page's image with the page's number in at least `width` digits.
pub open spec fn page_image(page: u32, width: nat) -> Seq<char> {
    "page-"@ + zero_padded(page as nat, width) + ".jpg"@
}

/// The names under which the converter may have left the image of page
/// `page` of a document of `page_count` pages, in the order in which they
/// are looked for: the page's number in as many digits as the converter uses
/// for a document of that length, then in three, then bare, then in four,
/// five and six.
pub open spec fn source_names(page: u32, page_count: u32) -> Seq<Seq<char>> {
    seq![
        page_image(
            page,
            if page_count >= 10 {
                2
            } else {
                1
            },
        ),
        page_image(page, 3),
        page_image(page, 1),
        page_image(page, 4),
        page_image(page, 5),
        page_image(page, 6),
    ]
}

/// The name that the image of page `page` is given: the number in three
/// digits, behind the prefix and an underscore where there is a prefix.
pub open spec fn target_name_of(prefix: Option<Seq<char>>, page: u32) -> Seq<char> {
    match prefix {
        Some(prefix) => prefix + "_"@ + zero_padded(page as nat, 3) + ".jpg"@,
        None => zero_padded(page as nat, 3) + ".jpg"@,
    }
}

fn page_image_name(page: u32, width: usize) -> (name: String)
    ensures
        name@ == page_image(page, width as nat),
{
    let mut out: Vec<char> = Vec::new();
    push_str(&mut out, "page-");
    push_zero_padded(&mut out, page as u64, width);
    push_str(&mut out, ".jpg");
    assert(Seq::<char>::empty() + page_image(page, width as nat) =~= page_image(
        page,
        width as nat,
    ));
    string_of(&out)
}

/// The names under which the image of a page is looked for, in order.
pub fn source_candidates(page: u32, page_count: u32) -> (names: Vec<String>)
    ensures
        names@.len() == 6,
        forall|i: int|
            0 <= i < 6 ==> (#[trigger] names@[i])@ == source_names(page, page_count)[i],
{
    let mut names: Vec<String> = Vec::new();
    if page_count >= 10 {
        names.push(page_image_name(page, 2));
    } else {
        names.push(page_image_name(page, 1));
    }
    names.push(page_image_name(page, 3));
    names.push(page_image_name(page, 1));
    names.push(page_image_name(page, 4));
    names.push(page_image_name(page, 5));
    names.push(page_image_name(page, 6));
    names
}

/// The name that the image of page `page` is given.
pub fn target_name(prefix: Option<&str>, page: u32) -> (name: String)
    ensures
        name@ == target_name_of(
            match prefix {
                Some(prefix) => Some(prefix@),
                None => None,
            },
            page,
        ),
{
    let mut out: Vec<char> = Vec::new();
    match prefix {
        Some(prefix) => {
            push_str(&mut out, prefix);
            push_str(&mut out, "_");
        },
        None => {},
    }
    push_zero_padded(&mut out, page as u64, 3);
    push_str(&mut out, ".jpg");
    proof {
        let wanted = target_name_of(
            match prefix {
                Some(prefix) => Some(prefix@),
                None => None,
            },
            page,
        );
        assert(Seq::<char>::empty() + wanted =~= wanted);
    }
    string_of(&out)
}

/// How a list of files is shown: `head` files from its start, `tail` from
/// its end, and only the number of the `hidden` ones between them.
#[derive(Debug, Clone, Copy, PartialEq, Eq, Structural)]
pub struct Listing {
    pub head: usize,
    pub hidden: usize,
    pub tail: usize,
}

/// How a list of `count` files is shown: in full up to twice [`SHOW_LIMIT`]
/// files, and by its first and last [`SHOW_LIMIT`] files beyond that.
pub open spec fn listing_of(count: usize) -> Listing {
    if count <= 2 * SHOW_LIMIT {
        Listing { head: count, hidden: 0, tail: 0 }
    } else {
        Listing { head: SHOW_LIMIT, hidden: (count - 2 * SHOW_LIMIT) as usize, tail: SHOW_LIMIT }
    }
}

/// How a list of `count` files is shown. Every file is shown or counted as hidden.
pub fn listing(count: usize) -> (shown: Listing)
    ensures
        shown == listing_of(count),
        shown.head + shown.hidden + shown.tail == count,
{
    if count <= 2 * SHOW_LIMIT {
        Listing { head: count, hidden: 0, tail: 0 }
    } else {
        Listing { head: SHOW_LIMIT, hidden: count - 2 * SHOW_LIMIT, tail: SHOW_LIMIT }
    }
}

/// What stands in the list in place of the hidden files.
pub fn hidden_line(hidden: usize) -> (line: String)
    ensures
        line@ == "("@ + decimal(hidden as nat) + " more files)"@,
{
    let mut out: Vec<char> = Vec::new();
    push_str(&mut out, "(");
    push_decimal(&mut out, hidden as u64);
    push_str(&mut out, " more files)");
    assert(Seq::<char>::empty() + "("@ + decimal(hidden as nat) + " more files)"@ =~= "("@
        + decimal(hidden as nat) + " more files)"@);
    string_of(&out)
}

/// The sum of `sizes`.
pub open spec fn sum_of(sizes: Seq<u64>) -> nat
    decreases sizes.len(),
{
    if sizes.len() == 0 {
        0
    } else {
        sum_of(sizes.drop_last()) + sizes.last() as nat
    }
}

/// The size of all the files together, where a `u64` can hold it.
pub fn total_size(sizes: &Vec<u64>) -> (total: Option<u64>)
    ensures
        sum_of(sizes@) <= u64::MAX ==> total == Some(sum_of(sizes@) as u64),
        sum_of(sizes@) > u64::MAX ==> total is None,
{
    let mut total: u64 = 0;
    let mut i: usize = 0;
    assert(sizes@.take(0) == Seq::<u64>::empty());
    while i < sizes.len()
        invariant
            i <= sizes.len(),
            total == sum_of(sizes@.take(i as int)),
        decreases sizes.len() - i,
    {
        assert(sizes@.take(i + 1).drop_last() == sizes@.take(i as int));
        if sizes[i] > u64::MAX - total {
            proof {
                lemma_sum_grows(sizes@, i + 1);
            }
            return None;
        }
        total = total + sizes[i];
        i += 1;
    }
    assert(sizes@.take(sizes@.len() as int) == sizes@);
    Some(total)
}

/// The sum of the first sizes is not above the sum of all of them.
proof fn lemma_sum_grows(sizes: Seq<u64>, upto: int)
    requires
        0 <= upto <= sizes.len(),
    ensures
        sum_of(sizes.take(upto)) <= sum_of(sizes),
    decreases sizes.len() - upto,
{
    if upto < sizes.len() {
        assert(sizes.take(upto + 1).drop_last() == sizes.take(upto));
        lemma_sum_grows(sizes, upto + 1);
    } else {
        assert(sizes.take(upto) == sizes);
    }
}

} // verus!
