//! From Markdown with LaTeX to the HTML that a learning platform shows.
//!
//! Formulas between dollar signs become images that a rendering service
//! draws; text between backticks becomes code; everything else is escaped.

use vstd::prelude::*;
use crate::matching::{
    find_all, get_group, group_text, in_order, is_occurrence, is_place, occurrences, replace_all,
    replaced_all, Groups,
};
use crate::text::{
    chars_of, join, joined, lines, lines_of, push_range, split, split_on, trim, trim_range,
    trimmed,
};

verus! {

/// Text between backticks.
pub const INLINE_CODE_PATTERN: &'static str = "`([^`]+)`";

/// A formula between doubled dollar signs.
pub const DISPLAY_LATEX_PATTERN: &'static str = "\\$\\$([^\\$]+)\\$\\$";

/// A formula between dollar signs.
pub const INLINE_LATEX_PATTERN: &'static str = "\\$([^\\$]+)\\$";

/// A fenced block of code.
pub const CODE_BLOCK_PATTERN: &'static str = "```(?:java)?\\n([^`]+)\\n```";

/// A table: a header row, a row of dashes, and at least one more row.
pub const TABLE_PATTERN: &'static str = "(\\|[^\\n]+\\|\\n)(\\|[-:\\s|]+\\|\\n)((?:\\|[^\\n]+\\|\\n?)+)";

/// How a table opens.
pub const TABLE_OPEN: &'static str = "<table border=\"1\" cellpadding=\"5\" cellspacing=\"0\">\n";

/// How the image of a formula starts, up to the formula in the address.
pub const IMAGE_HEAD: &'static str = "<img src=\"https://learn.lcps.org/svc/latex/latex-to-svg?latex=";

/// What stands between the address of the image and its first attribute.
pub const IMAGE_ALT: &'static str = "\" alt=\"";

/// What stands between the two attributes that hold the formula.
pub const IMAGE_FORMULA: &'static str = "\" formula=\"";

/// How the image of a formula ends.
pub const IMAGE_TAIL: &'static str = "\" class=\"mathquill-formula\" />";

/// One character as `htmlescape::encode_minimal` writes it.
pub open spec fn html_escaped_char(c: char) -> Seq<char> {
    if c == '"' {
        "&quot;"@
    } else if c == '&' {
        "&amp;"@
    } else if c == '\'' {
        "&#x27;"@
    } else if c == '<' {
        "&lt;"@
    } else if c == '>' {
        "&gt;"@
    } else {
        seq![c]
    }
}

/// A text with the five characters that HTML reads as markup written as
/// entities.
pub open spec fn html_escaped(s: Seq<char>) -> Seq<char>
    decreases s.len(),
{
    if s.len() == 0 {
        s
    } else {
        html_escaped(s.drop_last()) + html_escaped_char(s.last())
    }
}

/// Calls `htmlescape::encode_minimal`, which writes each of `"`, `&`, `'`,
/// `<` and `>` as its entity and every other character as it is. The
/// contract says so.
#[verifier::external_body]
fn encode_minimal(s: &str) -> (r: String)
    ensures
        r@ == html_escaped(s@),
{
    htmlescape::encode_minimal(s)
}

/// Does a byte stand for itself in an address: is it a letter, a digit,
/// `-`, `.`, `_` or `~`?
pub open spec fn is_unreserved(b: u8) -> bool {
    ||| 0x30 <= b <= 0x39
    ||| 0x41 <= b <= 0x5A
    ||| 0x61 <= b <= 0x7A
    ||| b == 0x2D
    ||| b == 0x2E
    ||| b == 0x5F
    ||| b == 0x7E
}

/// The hexadecimal digit of a number below sixteen, in upper case.
pub open spec fn hex_digit(d: u8) -> char {
    if d < 10 {
        (0x30 + d) as char
    } else {
        (0x37 + d) as char
    }
}

/// One byte as it stands in an address.
pub open spec fn percent_encoded_byte(b: u8) -> Seq<char> {
    if is_unreserved(b) {
        seq![b as char]
    } else {
        seq!['%', hex_digit(b / 16), hex_digit(b % 16)]
    }
}

/// Bytes as they stand in an address.
pub open spec fn percent_encoded(bytes: Seq<u8>) -> Seq<char>
    decreases bytes.len(),
{
    if bytes.len() == 0 {
        Seq::empty()
    } else {
        percent_encoded(bytes.drop_last()) + percent_encoded_byte(bytes.last())
    }
}

/// A text as it stands in an address: the bytes of its UTF-8 form, each
/// written as itself or as `%` and two hexadecimal digits.
pub open spec fn url_encoded(s: Seq<char>) -> Seq<char> {
    percent_encoded(vstd::utf8::encode_utf8(s))
}

/// Calls `urlencoding::encode`, which percent-encodes every byte of the
/// text's UTF-8 form except letters, digits, `-`, `.`, `_` and `~`. The
/// contract says so.
#[verifier::external_body]
fn url_encode(s: &str) -> (r: String)
    ensures
        r@ == url_encoded(s@),
{
    urlencoding::encode(s).into_owned()
}

/// The image that stands for a formula: the formula, without the whitespace
/// around it, in the address of the image and in two of its attributes.
pub open spec fn latex_image_html(formula: Seq<char>) -> Seq<char> {
    let shown = trimmed(formula);
    IMAGE_HEAD@ + url_encoded(shown) + IMAGE_ALT@ + shown + IMAGE_FORMULA@ + shown + IMAGE_TAIL@
}

/// Builds the image that stands for a formula.
pub fn latex_image(formula: &str) -> (r: String)
    ensures
        r@ == latex_image_html(formula@),
{
    let shown = trim(formula);
    let mut out = IMAGE_HEAD.to_owned();
    out.append(url_encode(shown.as_str()).as_str());
    out.append(IMAGE_ALT);
    out.append(shown.as_str());
    out.append(IMAGE_FORMULA);
    out.append(shown.as_str());
    out.append(IMAGE_TAIL);
    out
}

/// Escapes a text for HTML.
pub fn escape_html(s: &str) -> (r: String)
    ensures
        r@ == html_escaped(s@),
{
    encode_minimal(s)
}

/// What takes the place of text between backticks.
pub open spec fn code_element(text: Seq<char>) -> spec_fn(Seq<Option<(usize, usize)>>) -> Seq<char> {
    |groups: Seq<Option<(usize, usize)>>| "<code>"@ + group_text(text, groups, 1) + "</code>"@
}

/// A text with what stands between backticks marked as code.
pub open spec fn inline_code(text: Seq<char>) -> Seq<char> {
    let spans = occurrences(INLINE_CODE_PATTERN@, text);
    replaced_all(text, spans, spans.map_values(code_element(text)))
}

/// What takes the place of a formula.
pub open spec fn formula_image(text: Seq<char>) -> spec_fn(Seq<Option<(usize, usize)>>) -> Seq<
    char,
> {
    |groups: Seq<Option<(usize, usize)>>| latex_image_html(group_text(text, groups, 1))
}

/// A text with each formula that a pattern finds replaced by its image.
pub open spec fn with_formula_images(text: Seq<char>, pattern: Seq<char>) -> Seq<char> {
    let spans = occurrences(pattern, text);
    replaced_all(text, spans, spans.map_values(formula_image(text)))
}

/// A text with its formulas replaced by images: first those between doubled
/// dollar signs, then those between single ones.
pub open spec fn latex_converted(text: Seq<char>) -> Seq<char> {
    with_formula_images(with_formula_images(text, DISPLAY_LATEX_PATTERN@), INLINE_LATEX_PATTERN@)
}

/// The groups of an occurrence are places in the text.
pub proof fn lemma_groups_are_places(spans: Seq<Seq<Option<(usize, usize)>>>, len: nat, m: int)
    requires
        in_order(spans, len),
        0 <= m < spans.len(),
    ensures
        forall|j: int|
            0 <= j < spans[m].len() ==> ((#[trigger] spans[m][j]) matches Some(place) ==> is_place(
                place,
                len,
            )),
        spans[m].len() > 0,
        spans[m][0] is Some,
{
    assert(is_occurrence(spans[m], crate::matching::end_before(spans, m), len));
}

/// Marks what stands between backticks as code.
pub fn convert_inline_code(text: &str) -> (r: String)
    ensures
        r@ == inline_code(text@),
{
    let spans = find_all(INLINE_CODE_PATTERN, text);
    let all = chars_of(text);
    let mut replacements: Vec<String> = Vec::new();
    let mut m: usize = 0;
    while m < spans.len()
        invariant
            m <= spans.len(),
            all@ == text@,
            in_order(spans.deep_view(), text@.len()),
            replacements.len() == m,
            forall|j: int|
                0 <= j < m ==> (#[trigger] replacements[j])@ == code_element(text@)(
                    spans.deep_view()[j],
                ),
        decreases spans.len() - m,
    {
        proof {
            lemma_groups_are_places(spans.deep_view(), text@.len(), m as int);
            assert(spans.deep_view()[m as int] == spans[m as int].deep_view());
        }
        let mut element = "<code>".to_owned();
        element.append(get_group(&all, &spans[m], 1).as_str());
        element.append("</code>");
        replacements.push(element);
        m += 1;
    }
    proof {
        assert(replacements.deep_view() =~= spans.deep_view().map_values(code_element(text@)));
    }
    replace_all(&all, &spans, &replacements)
}

/// Replaces each formula that a pattern finds by its image.
fn replace_formulas(text: &str, pattern: &str) -> (r: String)
    ensures
        r@ == with_formula_images(text@, pattern@),
{
    let spans = find_all(pattern, text);
    let all = chars_of(text);
    let mut replacements: Vec<String> = Vec::new();
    let mut m: usize = 0;
    while m < spans.len()
        invariant
            m <= spans.len(),
            all@ == text@,
            in_order(spans.deep_view(), text@.len()),
            replacements.len() == m,
            forall|j: int|
                0 <= j < m ==> (#[trigger] replacements[j])@ == formula_image(text@)(
                    spans.deep_view()[j],
                ),
        decreases spans.len() - m,
    {
        proof {
            lemma_groups_are_places(spans.deep_view(), text@.len(), m as int);
            assert(spans.deep_view()[m as int] == spans[m as int].deep_view());
        }
        let formula = get_group(&all, &spans[m], 1);
        replacements.push(latex_image(formula.as_str()));
        m += 1;
    }
    proof {
        assert(replacements.deep_view() =~= spans.deep_view().map_values(formula_image(text@)));
    }
    replace_all(&all, &spans, &replacements)
}

/// Replaces the formulas of a text by images.
pub fn convert_latex(text: &str) -> (r: String)
    ensures
        r@ == latex_converted(text@),
{
    let display = replace_formulas(text, DISPLAY_LATEX_PATTERN);
    replace_formulas(display.as_str(), INLINE_LATEX_PATTERN)
}

/// A stretch of a text and the HTML that takes its place. One that is
/// block-level stands between paragraphs, the others inside one.
#[derive(Debug)]
pub struct HtmlBlock {
    pub start: usize,
    pub end: usize,
    pub html: String,
    pub block_level: bool,
}

/// What an [`HtmlBlock`] holds, as plain mathematical values.
pub struct HtmlBlockView {
    pub start: usize,
    pub end: usize,
    pub html: Seq<char>,
    pub block_level: bool,
}

impl DeepView for HtmlBlock {
    type V = HtmlBlockView;

    open spec fn deep_view(&self) -> HtmlBlockView {
        HtmlBlockView {
            start: self.start,
            end: self.end,
            html: self.html@,
            block_level: self.block_level,
        }
    }
}

impl View for HtmlBlock {
    type V = HtmlBlockView;

    open spec fn view(&self) -> HtmlBlockView {
        self.deep_view()
    }
}

impl Clone for HtmlBlock {
    fn clone(&self) -> (r: Self)
        ensures
            r@ == self@,
    {
        HtmlBlock {
            start: self.start,
            end: self.end,
            html: self.html.clone(),
            block_level: self.block_level,
        }
    }
}

/// Where the whole of an occurrence stands.
pub open spec fn whole_of(groups: Seq<Option<(usize, usize)>>) -> (usize, usize) {
    if groups.len() > 0 {
        match groups[0] {
            Some(place) => place,
            None => (0, 0),
        }
    } else {
        (0, 0)
    }
}

/// Where the whole of an occurrence stands.
fn whole(groups: &Groups) -> (r: (usize, usize))
    ensures
        r == whole_of(groups.deep_view()),
{
    if groups.len() > 0 {
        match groups[0] {
            Some(place) => place,
            None => (0, 0),
        }
    } else {
        (0, 0)
    }
}

/// The block of a formula.
pub open spec fn formula_block(text: Seq<char>, block_level: bool) -> spec_fn(
    Seq<Option<(usize, usize)>>,
) -> HtmlBlockView {
    |groups: Seq<Option<(usize, usize)>>|
        HtmlBlockView {
            start: whole_of(groups).0,
            end: whole_of(groups).1,
            html: latex_image_html(group_text(text, groups, 1)),
            block_level,
        }
}

/// Does a stretch lie inside one of the blocks?
pub open spec fn lies_inside(start: usize, end: usize, blocks: Seq<HtmlBlockView>) -> bool {
    exists|k: int|
        0 <= k < blocks.len() && start >= (#[trigger] blocks[k]).start && end <= blocks[k].end
}

/// The blocks, and behind them a block for each of the first `count`
/// formulas between single dollar signs that does not lie inside a block
/// in front of it.
#[verifier::opaque]
pub open spec fn with_inline_formulas(
    text: Seq<char>,
    blocks: Seq<HtmlBlockView>,
    spans: Seq<Seq<Option<(usize, usize)>>>,
    count: int,
) -> Seq<HtmlBlockView>
    decreases count,
{
    if count <= 0 {
        blocks
    } else {
        let before = with_inline_formulas(text, blocks, spans, count - 1);
        let groups = spans[count - 1];
        if lies_inside(whole_of(groups).0, whole_of(groups).1, before) {
            before
        } else {
            before.push(formula_block(text, false)(groups))
        }
    }
}

/// Where a block goes into a list that is ordered by start: behind the
/// last block that does not start behind it.
pub open spec fn insert_position(sorted: Seq<HtmlBlockView>, start: usize) -> int
    decreases sorted.len(),
{
    if sorted.len() == 0 || sorted.last().start <= start {
        sorted.len() as int
    } else {
        insert_position(sorted.drop_last(), start)
    }
}

/// The blocks ordered by where they start; blocks that start at the same
/// place keep their order.
pub open spec fn sorted_by_start(blocks: Seq<HtmlBlockView>) -> Seq<HtmlBlockView>
    decreases blocks.len(),
{
    if blocks.len() == 0 {
        blocks
    } else {
        let before = sorted_by_start(blocks.drop_last());
        before.insert(insert_position(before, blocks.last().start), blocks.last())
    }
}

/// A block goes into the list, not outside of it.
pub proof fn lemma_insert_position(sorted: Seq<HtmlBlockView>, start: usize)
    ensures
        0 <= insert_position(sorted, start) <= sorted.len(),
    decreases sorted.len(),
{
    if sorted.len() > 0 && sorted.last().start > start {
        lemma_insert_position(sorted.drop_last(), start);
    }
}

/// Ordering keeps every block and adds none.
pub proof fn lemma_sorted_len(blocks: Seq<HtmlBlockView>)
    ensures
        sorted_by_start(blocks).len() == blocks.len(),
    decreases blocks.len(),
{
    if blocks.len() > 0 {
        lemma_sorted_len(blocks.drop_last());
        lemma_insert_position(sorted_by_start(blocks.drop_last()), blocks.last().start);
    }
}

/// Is no block in front of one that starts before it?
pub open spec fn ordered_by_start(blocks: Seq<HtmlBlockView>) -> bool {
    forall|i: int, j: int| 0 <= i < j < blocks.len() ==> blocks[i].start <= blocks[j].start
}

/// In a list ordered by start, the blocks behind the place where a block
/// goes in start behind it, and those in front of it do not.
proof fn lemma_insert_position_splits(sorted: Seq<HtmlBlockView>, start: usize)
    requires
        ordered_by_start(sorted),
    ensures
        forall|i: int| 0 <= i < insert_position(sorted, start) ==> sorted[i].start <= start,
        forall|i: int| insert_position(sorted, start) <= i < sorted.len() ==> sorted[i].start > start,
    decreases sorted.len(),
{
    if sorted.len() > 0 {
        if sorted.last().start > start {
            assert forall|i: int, j: int| 0 <= i < j < sorted.drop_last().len() implies sorted.drop_last()[i].start
                <= sorted.drop_last()[j].start by {
                assert(sorted[i].start <= sorted[j].start);
            }
            lemma_insert_position_splits(sorted.drop_last(), start);
            lemma_insert_position(sorted.drop_last(), start);
            assert forall|i: int| 0 <= i < insert_position(sorted, start) implies sorted[i].start
                <= start by {
                assert(sorted.drop_last()[i] == sorted[i]);
            }
            assert forall|i: int| insert_position(sorted, start) <= i < sorted.len() implies sorted[i].start
                > start by {
                if i < sorted.len() - 1 {
                    assert(sorted.drop_last()[i] == sorted[i]);
                }
            }
        } else {
            assert forall|i: int| 0 <= i < sorted.len() implies sorted[i].start <= start by {
                assert(sorted[i].start <= sorted[sorted.len() - 1].start);
            }
        }
    }
}

/// The ordered blocks are ordered by where they start.
pub proof fn lemma_sorted_is_ordered(blocks: Seq<HtmlBlockView>)
    ensures
        ordered_by_start(sorted_by_start(blocks)),
    decreases blocks.len(),
{
    if blocks.len() > 0 {
        let before = sorted_by_start(blocks.drop_last());
        let last = blocks.last();
        lemma_sorted_is_ordered(blocks.drop_last());
        lemma_insert_position(before, last.start);
        lemma_insert_position_splits(before, last.start);
        let at = insert_position(before, last.start);
        let after = before.insert(at, last);
        assert forall|i: int, j: int| 0 <= i < j < after.len() implies after[i].start
            <= after[j].start by {
            if i < at && j > at {
                assert(after[i] == before[i]);
                assert(after[j] == before[j - 1]);
            } else if i < at && j < at {
                assert(before[i].start <= before[j].start);
            } else if i > at {
                assert(before[i - 1].start <= before[j - 1].start);
            }
        }
    }
}

/// Orders the blocks by where they start; blocks that start at the same
/// place keep their order.
pub fn sort_blocks(blocks: &Vec<HtmlBlock>) -> (r: Vec<HtmlBlock>)
    ensures
        r.deep_view() == sorted_by_start(blocks.deep_view()),
{
    let ghost all = blocks.deep_view();
    let mut out: Vec<HtmlBlock> = Vec::new();
    let mut i: usize = 0;
    proof {
        assert(out.deep_view() =~= sorted_by_start(all.take(0)));
    }
    while i < blocks.len()
        invariant
            i <= blocks.len(),
            all == blocks.deep_view(),
            out.deep_view() == sorted_by_start(all.take(i as int)),
        decreases blocks.len() - i,
    {
        let block = blocks[i].clone();
        let ghost before = out.deep_view();
        proof {
            assert(all.take(i + 1).drop_last() =~= all.take(i as int));
            assert(all.take(i + 1).last() == block@);
            lemma_sorted_len(all.take(i as int));
            assert(before.take(before.len() as int) =~= before);
        }
        let mut at: usize = out.len();
        while at > 0 && out[at - 1].start > block.start
            invariant
                at <= out.len(),
                before == out.deep_view(),
                insert_position(before, block.start) == insert_position(
                    before.take(at as int),
                    block.start,
                ),
            decreases at,
        {
            proof {
                assert(before.take(at as int).last() == out[at - 1]@);
                assert(before.take(at as int).drop_last() =~= before.take(at - 1));
            }
            at -= 1;
        }
        proof {
            if at > 0 {
                assert(before.take(at as int).last() == out[at - 1]@);
            }
            assert(insert_position(before, block.start) == at);
        }
        out.insert(at, block);
        proof {
            assert(out.deep_view() =~= before.insert(at as int, block@));
        }
        i += 1;
    }
    assert(all.take(blocks.len() as int) =~= all);
    out
}

/// Where the block in front of the one at `index` ends; the start of the
/// text for the first.
pub open spec fn end_of_previous(blocks: Seq<HtmlBlockView>, index: int) -> int {
    if index <= 0 {
        0
    } else {
        blocks[index - 1].end as int
    }
}

/// Escaped text with its code marked.
pub open spec fn plain_html(text: Seq<char>) -> Seq<char> {
    inline_code(html_escaped(text))
}

/// Escapes a text and marks its code.
pub fn convert_plain(text: &str) -> (r: String)
    ensures
        r@ == plain_html(text@),
{
    convert_inline_code(escape_html(text).as_str())
}

/// What becomes of the text between two blocks in a line of an answer:
/// nothing where there is none, else the text, escaped and with its code
/// marked.
pub open spec fn gap_html(text: Seq<char>, from: int, to: int) -> Seq<char> {
    if 0 <= from < to <= text.len() {
        plain_html(text.subrange(from, to))
    } else {
        Seq::empty()
    }
}

/// A line of an answer up to the end of the block at `count - 1`.
pub open spec fn line_html_upto(text: Seq<char>, blocks: Seq<HtmlBlockView>, count: int) -> Seq<char>
    decreases count,
{
    if count <= 0 {
        Seq::empty()
    } else {
        line_html_upto(text, blocks, count - 1) + gap_html(
            text,
            end_of_previous(blocks, count - 1),
            blocks[count - 1].start as int,
        ) + blocks[count - 1].html
    }
}

/// A line of an answer with its blocks in place and the text between them
/// escaped.
pub open spec fn line_html(text: Seq<char>, blocks: Seq<HtmlBlockView>) -> Seq<char> {
    line_html_upto(text, blocks, blocks.len() as int) + gap_html(
        text,
        end_of_previous(blocks, blocks.len() as int),
        text.len() as int,
    )
}

/// The formula blocks of a text: those between doubled dollar signs, and
/// those between single ones that do not lie inside a block in front of
/// them.
pub open spec fn formula_blocks(text: Seq<char>) -> Seq<HtmlBlockView> {
    let display = occurrences(DISPLAY_LATEX_PATTERN@, text).map_values(formula_block(text, true));
    let inline = occurrences(INLINE_LATEX_PATTERN@, text);
    with_inline_formulas(text, display, inline, inline.len() as int)
}

/// A line of an answer as HTML.
pub open spec fn answer_line_html(line: Seq<char>) -> Seq<char> {
    line_html(line, sorted_by_start(formula_blocks(line)))
}

/// An answer as HTML, line by line, with a line break between each two.
pub open spec fn answer_html(answer: Seq<char>) -> Seq<char> {
    joined(lines_of(answer).map_values(|line: Seq<char>| answer_line_html(line)), "<br />"@)
}

/// Appends the text between two blocks of a line.
fn push_gap(out: &mut String, text: &Vec<char>, from: usize, to: usize)
    ensures
        final(out)@ == old(out)@ + gap_html(text@, from as int, to as int),
{
    if from < to && to <= text.len() {
        let mut part = String::new();
        push_range(&mut part, text, from, to);
        out.append(convert_plain(part.as_str()).as_str());
    }
}

/// Tells whether a stretch lies inside one of the blocks.
fn is_inside(start: usize, end: usize, blocks: &Vec<HtmlBlock>) -> (r: bool)
    ensures
        r == lies_inside(start, end, blocks.deep_view()),
{
    let mut k: usize = 0;
    while k < blocks.len()
        invariant
            k <= blocks.len(),
            forall|j: int|
                0 <= j < k ==> !(start >= (#[trigger] blocks.deep_view()[j]).start && end
                    <= blocks.deep_view()[j].end),
        decreases blocks.len() - k,
    {
        if start >= blocks[k].start && end <= blocks[k].end {
            assert(blocks.deep_view()[k as int] == blocks[k as int]@);
            return true;
        }
        assert(blocks.deep_view()[k as int] == blocks[k as int]@);
        k += 1;
    }
    false
}

/// Appends a block for each formula that a pattern finds.
fn push_formula_blocks(blocks: &mut Vec<HtmlBlock>, text: &str, pattern: &str, block_level: bool)
    ensures
        final(blocks).deep_view() == old(blocks).deep_view() + occurrences(
            pattern@,
            text@,
        ).map_values(formula_block(text@, block_level)),
{
    let spans = find_all(pattern, text);
    let all = chars_of(text);
    let ghost wanted = spans.deep_view().map_values(formula_block(text@, block_level));
    let mut m: usize = 0;
    proof {
        assert(blocks.deep_view() =~= old(blocks).deep_view() + wanted.take(0));
    }
    while m < spans.len()
        invariant
            m <= spans.len(),
            all@ == text@,
            in_order(spans.deep_view(), text@.len()),
            wanted == spans.deep_view().map_values(formula_block(text@, block_level)),
            blocks.deep_view() == old(blocks).deep_view() + wanted.take(m as int),
        decreases spans.len() - m,
    {
        proof {
            lemma_groups_are_places(spans.deep_view(), text@.len(), m as int);
            assert(spans.deep_view()[m as int] == spans[m as int].deep_view());
        }
        let ghost before = blocks.deep_view();
        let place = whole(&spans[m]);
        let formula = get_group(&all, &spans[m], 1);
        let block = HtmlBlock {
            start: place.0,
            end: place.1,
            html: latex_image(formula.as_str()),
            block_level,
        };
        blocks.push(block);
        proof {
            assert(blocks.deep_view() =~= before.push(wanted[m as int]));
            assert(wanted.take(m + 1) =~= wanted.take(m as int).push(wanted[m as int]));
        }
        m += 1;
    }
    assert(wanted.take(spans.len() as int) =~= wanted);
}

/// Builds the block of a formula.
fn make_formula_block(all: &Vec<char>, groups: &Groups, block_level: bool) -> (r: HtmlBlock)
    requires
        forall|j: int|
            0 <= j < groups.len() ==> ((#[trigger] groups.deep_view()[j]) matches Some(place)
                ==> is_place(place, all@.len())),
    ensures
        r@ == formula_block(all@, block_level)(groups.deep_view()),
{
    let place = whole(groups);
    let formula = get_group(all, groups, 1);
    HtmlBlock { start: place.0, end: place.1, html: latex_image(formula.as_str()), block_level }
}

/// No formula between single dollar signs is taken in yet.
proof fn lemma_inline_start(
    text: Seq<char>,
    blocks: Seq<HtmlBlockView>,
    spans: Seq<Seq<Option<(usize, usize)>>>,
)
    ensures
        with_inline_formulas(text, blocks, spans, 0) == blocks,
{
    reveal(with_inline_formulas);
}

/// One more formula between single dollar signs is taken in or passed over.
proof fn lemma_inline_step(
    text: Seq<char>,
    blocks: Seq<HtmlBlockView>,
    spans: Seq<Seq<Option<(usize, usize)>>>,
    count: int,
)
    requires
        count > 0,
    ensures
        with_inline_formulas(text, blocks, spans, count) == {
            let before = with_inline_formulas(text, blocks, spans, count - 1);
            let groups = spans[count - 1];
            if lies_inside(whole_of(groups).0, whole_of(groups).1, before) {
                before
            } else {
                before.push(formula_block(text, false)(groups))
            }
        },
{
    reveal(with_inline_formulas);
}

/// Appends a block for each formula between single dollar signs that does
/// not lie inside a block in front of it.
fn push_inline_formulas(blocks: &mut Vec<HtmlBlock>, text: &str)
    ensures
        final(blocks).deep_view() == with_inline_formulas(
            text@,
            old(blocks).deep_view(),
            occurrences(INLINE_LATEX_PATTERN@, text@),
            occurrences(INLINE_LATEX_PATTERN@, text@).len() as int,
        ),
{
    let spans = find_all(INLINE_LATEX_PATTERN, text);
    let all = chars_of(text);
    let ghost start = blocks.deep_view();
    let ghost found = spans.deep_view();
    let mut m: usize = 0;
    proof {
        lemma_inline_start(text@, start, found);
    }
    while m < spans.len()
        invariant
            m <= spans.len(),
            all@ == text@,
            found == spans.deep_view(),
            in_order(found, text@.len()),
            blocks.deep_view() == with_inline_formulas(text@, start, found, m as int),
        decreases spans.len() - m,
    {
        let ghost before = blocks.deep_view();
        proof {
            lemma_groups_are_places(found, text@.len(), m as int);
            assert(found[m as int] == spans[m as int].deep_view());
            lemma_inline_step(text@, start, found, m + 1);
        }
        let place = whole(&spans[m]);
        if !is_inside(place.0, place.1, blocks) {
            let block = make_formula_block(&all, &spans[m], false);
            let ghost added = block@;
            blocks.push(block);
            proof {
                assert(blocks.deep_view() =~= before.push(added));
            }
        }
        m += 1;
    }
}

/// Converts one line of an answer.
fn convert_answer_line(line: &str) -> (r: String)
    ensures
        r@ == answer_line_html(line@),
{
    let mut found: Vec<HtmlBlock> = Vec::new();
    proof {
        assert(found.deep_view() =~= Seq::empty());
    }
    push_formula_blocks(&mut found, line, DISPLAY_LATEX_PATTERN, true);
    proof {
        let display = occurrences(DISPLAY_LATEX_PATTERN@, line@).map_values(
            formula_block(line@, true),
        );
        assert(Seq::<HtmlBlockView>::empty() + display =~= display);
    }
    push_inline_formulas(&mut found, line);
    let blocks = sort_blocks(&found);
    let text = chars_of(line);
    let ghost all = blocks.deep_view();
    let mut out = String::new();
    let mut last_end: usize = 0;
    let mut i: usize = 0;
    while i < blocks.len()
        invariant
            i <= blocks.len(),
            all == blocks.deep_view(),
            text@ == line@,
            last_end == end_of_previous(all, i as int),
            out@ == line_html_upto(line@, all, i as int),
        decreases blocks.len() - i,
    {
        assert(all[i as int] == blocks[i as int]@);
        push_gap(&mut out, &text, last_end, blocks[i].start);
        out.append(blocks[i].html.as_str());
        last_end = blocks[i].end;
        i += 1;
    }
    push_gap(&mut out, &text, last_end, text.len());
    out
}

/// Converts an answer to HTML: its formulas become images, its code is
/// marked, the rest is escaped, and its lines are kept apart by line
/// breaks.
pub fn convert_answer_to_html(answer: &str) -> (r: String)
    ensures
        r@ == answer_html(answer@),
{
    let text = chars_of(answer);
    let all = lines(&text);
    let mut converted: Vec<String> = Vec::new();
    let mut i: usize = 0;
    while i < all.len()
        invariant
            i <= all.len(),
            converted.len() == i,
            forall|j: int| 0 <= j < i ==> (#[trigger] converted[j])@ == answer_line_html(all[j]@),
        decreases all.len() - i,
    {
        converted.push(convert_answer_line(all[i].as_str()));
        i += 1;
    }
    proof {
        assert(converted.deep_view() =~= lines_of(answer@).map_values(
            |line: Seq<char>| answer_line_html(line),
        ));
    }
    join(&converted, "<br />")
}

/// Does a cell hold anything?
pub open spec fn is_filled() -> spec_fn(Seq<char>) -> bool {
    |cell: Seq<char>| cell.len() > 0
}

/// The cells of a row: what stands between its bars, without the whitespace
/// around it, where anything is left.
pub open spec fn cells_of(row: Seq<char>) -> Seq<Seq<char>> {
    split_on(row, '|').map_values(|piece: Seq<char>| trimmed(piece)).filter(is_filled())
}

/// The cells as elements, each between `open` and `close`.
pub open spec fn cell_elements(cells: Seq<Seq<char>>, open: Seq<char>, close: Seq<char>) -> Seq<char>
    decreases cells.len(),
{
    if cells.len() == 0 {
        Seq::empty()
    } else {
        cell_elements(cells.drop_last(), open, close) + open + plain_html(cells.last()) + close
    }
}

/// A row as an element with its cells as elements; nothing for a row
/// without cells.
pub open spec fn row_element(
    row: Seq<char>,
    row_open: Seq<char>,
    open: Seq<char>,
    close: Seq<char>,
    row_close: Seq<char>,
) -> Seq<char> {
    let cells = cells_of(row);
    if cells.len() == 0 {
        Seq::empty()
    } else {
        row_open + cell_elements(cells, open, close) + row_close
    }
}

/// The head of a table.
pub open spec fn header_html(row: Seq<char>) -> Seq<char> {
    row_element(row, "<thead><tr>\n"@, "<th>"@, "</th>\n"@, "</tr></thead>\n"@)
}

/// A row of the body of a table.
pub open spec fn row_html(row: Seq<char>) -> Seq<char> {
    row_element(row, "<tr>\n"@, "<td>"@, "</td>\n"@, "</tr>\n"@)
}

/// The rows of the body of a table: the third line and those behind it,
/// up to the line at `count - 1`.
pub open spec fn rows_html_upto(rows: Seq<Seq<char>>, count: int) -> Seq<char>
    decreases count,
{
    if count <= 2 {
        Seq::empty()
    } else {
        rows_html_upto(rows, count - 1) + row_html(rows[count - 1])
    }
}

/// A Markdown table as an HTML table: the first line is its head, the
/// second is passed over, the others are its body. A text of less than two
/// lines is kept as it is.
pub open spec fn table_html(markdown: Seq<char>) -> Seq<char> {
    let rows = lines_of(trimmed(markdown));
    if rows.len() < 2 {
        markdown
    } else {
        TABLE_OPEN@ + header_html(rows[0]) + (if rows.len() > 2 {
            "<tbody>\n"@ + rows_html_upto(rows, rows.len() as int) + "</tbody>\n"@
        } else {
            Seq::empty()
        }) + "</table>"@
    }
}

/// The cells of a row.
fn read_cells(row: &str) -> (r: Vec<String>)
    ensures
        r.deep_view() == cells_of(row@),
{
    let pieces = split(&chars_of(row), '|');
    let ghost all = pieces.deep_view().map_values(|piece: Seq<char>| trimmed(piece));
    let mut out: Vec<String> = Vec::new();
    let mut i: usize = 0;
    proof {
        reveal(Seq::filter);
        assert(all.take(0).filter(is_filled()) =~= Seq::empty());
        assert(out.deep_view() =~= Seq::empty());
    }
    while i < pieces.len()
        invariant
            i <= pieces.len(),
            all == pieces.deep_view().map_values(|piece: Seq<char>| trimmed(piece)),
            out.deep_view() == all.take(i as int).filter(is_filled()),
        decreases pieces.len() - i,
    {
        let ghost done = out.deep_view();
        let cell = trim(pieces[i].as_str());
        proof {
            assert(all[i as int] == cell@);
            assert(all.take(i + 1) =~= all.take(i as int).push(all[i as int]));
            all.take(i as int).lemma_filter_push(all[i as int], is_filled());
        }
        if cell.as_str().unicode_len() > 0 {
            out.push(cell);
            assert(out.deep_view() =~= done.push(all[i as int]));
        }
        i += 1;
    }
    assert(all.take(pieces.len() as int) =~= all);
    out
}

/// Appends a row as an element with its cells as elements.
fn push_row(out: &mut String, row: &str, row_open: &str, open: &str, close: &str, row_close: &str)
    ensures
        final(out)@ == old(out)@ + row_element(row@, row_open@, open@, close@, row_close@),
{
    let cells = read_cells(row);
    let ghost all = cells.deep_view();
    if cells.len() == 0 {
        assert(out@ =~= old(out)@ + Seq::<char>::empty());
        return ;
    }
    out.append(row_open);
    let mut i: usize = 0;
    proof {
        assert(out@ =~= old(out)@ + row_open@ + cell_elements(all.take(0), open@, close@));
    }
    while i < cells.len()
        invariant
            i <= cells.len(),
            all == cells.deep_view(),
            out@ == old(out)@ + row_open@ + cell_elements(all.take(i as int), open@, close@),
        decreases cells.len() - i,
    {
        let ghost before = out@;
        proof {
            assert(all.take(i + 1).drop_last() =~= all.take(i as int));
            assert(all.take(i + 1).last() == cells[i as int]@);
        }
        out.append(open);
        out.append(convert_plain(cells[i].as_str()).as_str());
        out.append(close);
        proof {
            assert(out@ =~= old(out)@ + row_open@ + (cell_elements(
                all.take(i as int),
                open@,
                close@,
            ) + open@ + plain_html(cells[i as int]@) + close@));
        }
        i += 1;
    }
    proof {
        assert(all.take(cells.len() as int) =~= all);
    }
    out.append(row_close);
    proof {
        assert(out@ =~= old(out)@ + (row_open@ + cell_elements(all, open@, close@)
            + row_close@));
    }
}

/// Converts a Markdown table to an HTML table.
pub fn convert_markdown_table(markdown: &str) -> (r: String)
    ensures
        r@ == table_html(markdown@),
{
    let rows = lines(&chars_of(trim(markdown).as_str()));
    if rows.len() < 2 {
        return markdown.to_owned();
    }
    let ghost all = rows.deep_view();
    let mut html = TABLE_OPEN.to_owned();
    push_row(&mut html, rows[0].as_str(), "<thead><tr>\n", "<th>", "</th>\n", "</tr></thead>\n");
    assert(all[0] == rows[0]@);
    if rows.len() > 2 {
        html.append("<tbody>\n");
        let ghost head = html@;
        let mut i: usize = 2;
        proof {
            assert(html@ =~= head + rows_html_upto(all, 2));
        }
        while i < rows.len()
            invariant
                2 <= i <= rows.len(),
                all == rows.deep_view(),
                html@ == head + rows_html_upto(all, i as int),
            decreases rows.len() - i,
        {
            let ghost before = html@;
            assert(all[i as int] == rows[i as int]@);
            push_row(&mut html, rows[i].as_str(), "<tr>\n", "<td>", "</td>\n", "</tr>\n");
            proof {
                assert(html@ =~= head + (rows_html_upto(all, i as int) + row_html(all[i as int])));
            }
            i += 1;
        }
        html.append("</tbody>\n");
        proof {
            assert(html@ =~= TABLE_OPEN@ + header_html(all[0]) + ("<tbody>\n"@ + rows_html_upto(
                all,
                all.len() as int,
            ) + "</tbody>\n"@));
        }
    } else {
        proof {
            assert(html@ =~= TABLE_OPEN@ + header_html(all[0]) + Seq::<char>::empty());
        }
    }
    html.append("</table>");
    html
}

/// The block of a fenced block of code.
pub open spec fn code_block(text: Seq<char>) -> spec_fn(Seq<Option<(usize, usize)>>) -> HtmlBlockView {
    |groups: Seq<Option<(usize, usize)>>|
        HtmlBlockView {
            start: whole_of(groups).0,
            end: whole_of(groups).1,
            html: "<pre>"@ + html_escaped(trimmed(group_text(text, groups, 1))) + "</pre>"@,
            block_level: true,
        }
}

/// The block of a table.
pub open spec fn table_block(text: Seq<char>) -> spec_fn(Seq<Option<(usize, usize)>>) -> HtmlBlockView {
    |groups: Seq<Option<(usize, usize)>>|
        HtmlBlockView {
            start: whole_of(groups).0,
            end: whole_of(groups).1,
            html: table_html(group_text(text, groups, 0)),
            block_level: true,
        }
}

/// The blocks of a question's text: its fenced code, its tables, its
/// formulas between doubled dollar signs, and those of its formulas between
/// single ones that do not lie inside a block in front of them.
pub open spec fn question_blocks(text: Seq<char>) -> Seq<HtmlBlockView> {
    let inline = occurrences(INLINE_LATEX_PATTERN@, text);
    with_inline_formulas(
        text,
        occurrences(CODE_BLOCK_PATTERN@, text).map_values(code_block(text)) + occurrences(
            TABLE_PATTERN@,
            text,
        ).map_values(table_block(text)) + occurrences(DISPLAY_LATEX_PATTERN@, text).map_values(
            formula_block(text, true),
        ),
        inline,
        inline.len() as int,
    )
}

/// What the text between two blocks adds to a paragraph: nothing where
/// there is none or only whitespace, else the text without the whitespace
/// around it, escaped and with its code marked.
pub open spec fn paragraph_part(text: Seq<char>, from: int, to: int) -> Option<Seq<char>> {
    if 0 <= from < to <= text.len() && trimmed(text.subrange(from, to)).len() > 0 {
        Some(plain_html(trimmed(text.subrange(from, to))))
    } else {
        None
    }
}

/// The parts of a paragraph with one more, if there is one.
pub open spec fn with_part(parts: Seq<Seq<char>>, part: Option<Seq<char>>) -> Seq<Seq<char>> {
    match part {
        Some(html) => parts.push(html),
        None => parts,
    }
}

/// The elements with the paragraph that the parts make up, if there are
/// parts.
pub open spec fn flushed(done: Seq<Seq<char>>, parts: Seq<Seq<char>>) -> Seq<Seq<char>> {
    if parts.len() == 0 {
        done
    } else {
        done.push("<p>"@ + joined(parts, " "@) + "</p>"@)
    }
}

/// How far a text is laid out: the elements that are done, and the parts of
/// the paragraph that is open.
pub struct Layout {
    pub done: Seq<Seq<char>>,
    pub parts: Seq<Seq<char>>,
}

/// The layout up to the end of the block at `count - 1`. A block-level
/// block closes the open paragraph and stands behind it; any other block
/// joins the open paragraph.
pub open spec fn layout_upto(text: Seq<char>, blocks: Seq<HtmlBlockView>, count: int) -> Layout
    decreases count,
{
    if count <= 0 {
        Layout { done: Seq::empty(), parts: Seq::empty() }
    } else {
        let before = layout_upto(text, blocks, count - 1);
        let block = blocks[count - 1];
        let parts = with_part(
            before.parts,
            paragraph_part(text, end_of_previous(blocks, count - 1), block.start as int),
        );
        if block.block_level {
            Layout { done: flushed(before.done, parts).push(block.html), parts: Seq::empty() }
        } else {
            Layout { done: before.done, parts: parts.push(block.html) }
        }
    }
}

/// A text laid out with its blocks: paragraphs and block-level elements, a
/// line feed between each two.
pub open spec fn laid_out(text: Seq<char>, blocks: Seq<HtmlBlockView>) -> Seq<char> {
    let last = layout_upto(text, blocks, blocks.len() as int);
    let parts = with_part(
        last.parts,
        paragraph_part(text, end_of_previous(blocks, blocks.len() as int), text.len() as int),
    );
    joined(flushed(last.done, parts), "\n"@)
}

/// A question's text as HTML.
pub open spec fn text_html(text: Seq<char>) -> Seq<char> {
    laid_out(text, sorted_by_start(question_blocks(text)))
}

/// Appends a block for each fenced block of code.
fn push_code_blocks(blocks: &mut Vec<HtmlBlock>, text: &str)
    ensures
        final(blocks).deep_view() == old(blocks).deep_view() + occurrences(
            CODE_BLOCK_PATTERN@,
            text@,
        ).map_values(code_block(text@)),
{
    let spans = find_all(CODE_BLOCK_PATTERN, text);
    let all = chars_of(text);
    let ghost wanted = spans.deep_view().map_values(code_block(text@));
    let mut m: usize = 0;
    proof {
        assert(blocks.deep_view() =~= old(blocks).deep_view() + wanted.take(0));
    }
    while m < spans.len()
        invariant
            m <= spans.len(),
            all@ == text@,
            in_order(spans.deep_view(), text@.len()),
            wanted == spans.deep_view().map_values(code_block(text@)),
            blocks.deep_view() == old(blocks).deep_view() + wanted.take(m as int),
        decreases spans.len() - m,
    {
        proof {
            lemma_groups_are_places(spans.deep_view(), text@.len(), m as int);
            assert(spans.deep_view()[m as int] == spans[m as int].deep_view());
        }
        let ghost before = blocks.deep_view();
        let place = whole(&spans[m]);
        let code = get_group(&all, &spans[m], 1);
        let mut html = "<pre>".to_owned();
        html.append(escape_html(trim(code.as_str()).as_str()).as_str());
        html.append("</pre>");
        blocks.push(HtmlBlock { start: place.0, end: place.1, html, block_level: true });
        proof {
            assert(blocks.deep_view() =~= before.push(wanted[m as int]));
            assert(wanted.take(m + 1) =~= wanted.take(m as int).push(wanted[m as int]));
        }
        m += 1;
    }
    assert(wanted.take(spans.len() as int) =~= wanted);
}

/// Appends a block for each table.
fn push_table_blocks(blocks: &mut Vec<HtmlBlock>, text: &str)
    ensures
        final(blocks).deep_view() == old(blocks).deep_view() + occurrences(
            TABLE_PATTERN@,
            text@,
        ).map_values(table_block(text@)),
{
    let spans = find_all(TABLE_PATTERN, text);
    let all = chars_of(text);
    let ghost wanted = spans.deep_view().map_values(table_block(text@));
    let mut m: usize = 0;
    proof {
        assert(blocks.deep_view() =~= old(blocks).deep_view() + wanted.take(0));
    }
    while m < spans.len()
        invariant
            m <= spans.len(),
            all@ == text@,
            in_order(spans.deep_view(), text@.len()),
            wanted == spans.deep_view().map_values(table_block(text@)),
            blocks.deep_view() == old(blocks).deep_view() + wanted.take(m as int),
        decreases spans.len() - m,
    {
        proof {
            lemma_groups_are_places(spans.deep_view(), text@.len(), m as int);
            assert(spans.deep_view()[m as int] == spans[m as int].deep_view());
        }
        let ghost before = blocks.deep_view();
        let place = whole(&spans[m]);
        let table = get_group(&all, &spans[m], 0);
        let html = convert_markdown_table(table.as_str());
        blocks.push(HtmlBlock { start: place.0, end: place.1, html, block_level: true });
        proof {
            assert(blocks.deep_view() =~= before.push(wanted[m as int]));
            assert(wanted.take(m + 1) =~= wanted.take(m as int).push(wanted[m as int]));
        }
        m += 1;
    }
    assert(wanted.take(spans.len() as int) =~= wanted);
}

/// Adds the text between two blocks to the open paragraph.
fn push_part(parts: &mut Vec<String>, text: &Vec<char>, from: usize, to: usize)
    ensures
        final(parts).deep_view() == with_part(
            old(parts).deep_view(),
            paragraph_part(text@, from as int, to as int),
        ),
{
    if from < to && to <= text.len() {
        let (a, b) = trim_range(text, from, to);
        if a < b {
            let ghost before = parts.deep_view();
            let mut part = String::new();
            push_range(&mut part, text, a, b);
            let html = convert_plain(part.as_str());
            parts.push(html);
            assert(parts.deep_view() =~= before.push(html@));
        }
    }
}

/// Closes the open paragraph, if it has parts.
fn flush(done: &mut Vec<String>, parts: &Vec<String>)
    ensures
        final(done).deep_view() == flushed(old(done).deep_view(), parts.deep_view()),
{
    if parts.len() > 0 {
        let ghost before = done.deep_view();
        let mut paragraph = "<p>".to_owned();
        paragraph.append(join(parts, " ").as_str());
        paragraph.append("</p>");
        done.push(paragraph);
        assert(done.deep_view() =~= before.push("<p>"@ + joined(parts.deep_view(), " "@) + "</p>"@));
    } else {
        assert(parts.deep_view().len() == 0);
    }
}

/// Converts a question's text, already made plain, to HTML: fenced code,
/// tables and formulas between doubled dollar signs stand between
/// paragraphs; formulas between single dollar signs stay inside them; the
/// rest is escaped, with its code marked.
pub fn convert_text_to_html(text: &str) -> (r: String)
    ensures
        r@ == text_html(text@),
{
    let mut found: Vec<HtmlBlock> = Vec::new();
    proof {
        assert(found.deep_view() =~= Seq::empty());
    }
    push_code_blocks(&mut found, text);
    push_table_blocks(&mut found, text);
    push_formula_blocks(&mut found, text, DISPLAY_LATEX_PATTERN, true);
    proof {
        let code = occurrences(CODE_BLOCK_PATTERN@, text@).map_values(code_block(text@));
        assert(Seq::<HtmlBlockView>::empty() + code =~= code);
    }
    push_inline_formulas(&mut found, text);
    let blocks = sort_blocks(&found);
    let all_text = chars_of(text);
    let ghost all = blocks.deep_view();
    let mut done: Vec<String> = Vec::new();
    let mut parts: Vec<String> = Vec::new();
    let mut last_end: usize = 0;
    let mut i: usize = 0;
    proof {
        assert(done.deep_view() =~= Seq::empty());
        assert(parts.deep_view() =~= Seq::empty());
    }
    while i < blocks.len()
        invariant
            i <= blocks.len(),
            all == blocks.deep_view(),
            all_text@ == text@,
            last_end == end_of_previous(all, i as int),
            done.deep_view() == layout_upto(text@, all, i as int).done,
            parts.deep_view() == layout_upto(text@, all, i as int).parts,
        decreases blocks.len() - i,
    {
        assert(all[i as int] == blocks[i as int]@);
        push_part(&mut parts, &all_text, last_end, blocks[i].start);
        if blocks[i].block_level {
            flush(&mut done, &parts);
            let ghost before = done.deep_view();
            done.push(blocks[i].html.clone());
            assert(done.deep_view() =~= before.push(blocks[i as int]@.html));
            parts = Vec::new();
            assert(parts.deep_view() =~= Seq::empty());
        } else {
            let ghost before = parts.deep_view();
            parts.push(blocks[i].html.clone());
            assert(parts.deep_view() =~= before.push(blocks[i as int]@.html));
        }
        last_end = blocks[i].end;
        i += 1;
    }
    push_part(&mut parts, &all_text, last_end, all_text.len());
    flush(&mut done, &parts);
    join(&done, "\n")
}

} // verus!
