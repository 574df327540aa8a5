//! Editing a text by a patch: search/replace blocks or a unified diff.

use crate::error::{ToolError, err, outcome};
use crate::search::{contains, count, lemma_single_occurrence, occurs, occurs_twice, replace_all,
    replace_first, replaced_all, replaced_first};
use crate::text::{begins_with, chars_of, ended, join, joined, lemma_lines_stacked,
    lemma_lines_stacked_apart, lemma_next_char, lines, lines_of, next_char, parse_number,
    parse_unsigned, part_once, pieces, split, split_once, stacked, string_between, strs, trim_end,
    trimmed_end};
use crate::unicode::{quote, quoted};
use vstd::prelude::*;
use vstd::string::*;

verus! {

/// A text and what it is to be replaced by.
pub struct Edit {
    pub needle: String,
    pub value: String,
}

/// An `Edit` as sequences of characters.
pub struct EditView {
    pub needle: Seq<char>,
    pub value: Seq<char>,
}

impl View for Edit {
    type V = EditView;

    open spec fn view(&self) -> EditView {
        EditView { needle: self.needle@, value: self.value@ }
    }
}

/// A list of edits as sequences of characters.
pub open spec fn edits(list: Seq<Edit>) -> Seq<EditView> {
    list.map_values(|e: Edit| e@)
}

/// The edit that replaces some lines by others.
pub open spec fn edit_of(before: Seq<Seq<char>>, after: Seq<Seq<char>>) -> EditView {
    EditView { needle: join(before, "\n"@), value: join(after, "\n"@) }
}

fn edit_from(before: &Vec<String>, after: &Vec<String>) -> (r: Edit)
    ensures
        r@ == edit_of(strs(before@), strs(after@)),
{
    Edit { needle: joined(before, "\n"), value: joined(after, "\n") }
}

/// What an error message shows of a text: the first sixty characters, quoted.
pub open spec fn excerpt(s: Seq<char>) -> Seq<char> {
    quote(
        if s.len() <= 60 {
            s
        } else {
            s.take(60)
        },
    )
}

fn excerpt_of(s: &str) -> (r: String)
    ensures
        r@ == excerpt(s@),
{
    let chars = chars_of(s);
    let shown: usize = if chars.len() <= 60 { chars.len() } else { 60 };
    let head = string_between(&chars, 0, shown);
    assert(head@ == if s@.len() <= 60 { s@ } else { s@.take(60) });
    quoted(head.as_str())
}

// ------------------------------------------------- search/replace blocks

/// The blocks that the lines from `i` on hold, where `search` and `replace` are
/// the lines of the two halves of a block that has begun.
///
/// A line that starts with `<<<<<<<` begins a block, one that starts with
/// `=======` parts its halves and one that starts with `>>>>>>>` ends it; white
/// space at the end of such a line does not matter. Lines outside a block are
/// skipped, and a block that ends before its second half has begun is dropped.
pub open spec fn blocks_from(
    all: Seq<Seq<char>>,
    i: int,
    search: Option<Seq<Seq<char>>>,
    replace: Option<Seq<Seq<char>>>,
) -> Seq<EditView>
    decreases all.len() - i,
{
    if i < 0 || i >= all.len() {
        seq![]
    } else {
        let marker = trim_end(all[i]);
        if "<<<<<<<"@.is_prefix_of(marker) {
            blocks_from(all, i + 1, Some(seq![]), None)
        } else if "======="@.is_prefix_of(marker) && search is Some {
            blocks_from(all, i + 1, search, Some(seq![]))
        } else if ">>>>>>>"@.is_prefix_of(marker) {
            match (search, replace) {
                (Some(s), Some(r)) => seq![edit_of(s, r)] + blocks_from(all, i + 1, None, None),
                _ => blocks_from(all, i + 1, None, None),
            }
        } else if replace is Some {
            blocks_from(all, i + 1, search, Some(replace->0.push(all[i])))
        } else if search is Some {
            blocks_from(all, i + 1, Some(search->0.push(all[i])), replace)
        } else {
            blocks_from(all, i + 1, search, replace)
        }
    }
}

/// The search/replace blocks of a patch, in order.
pub open spec fn blocks(patch: Seq<char>) -> Seq<EditView> {
    blocks_from(lines(patch), 0, None, None)
}

/// What one block makes of a text. What is searched for has to occur, and only
/// once unless every occurrence is to be replaced.
pub open spec fn apply_block(text: Seq<char>, block: EditView, allow_multiple: bool) -> Result<
    Seq<char>,
    Seq<char>,
> {
    if block.needle.len() == 0 || !occurs(text, block.needle) {
        Err("the search block was not found in the description: "@ + excerpt(block.needle))
    } else if !allow_multiple && count(text, block.needle) > 1 {
        Err(
            "the search block matches more than once; set allow_multiple to replace every occurrence"@,
        )
    } else if allow_multiple {
        Ok(replace_all(text, block.needle, block.value))
    } else {
        Ok(replace_first(text, block.needle, block.value))
    }
}

/// What the blocks from `k` on make of a text, one after the other; the first
/// that fails decides.
pub open spec fn apply_blocks(
    text: Seq<char>,
    list: Seq<EditView>,
    k: int,
    allow_multiple: bool,
) -> Result<Seq<char>, Seq<char>>
    decreases list.len() - k,
{
    if k < 0 || k >= list.len() {
        Ok(text)
    } else {
        match apply_block(text, list[k], allow_multiple) {
            Ok(next) => apply_blocks(next, list, k + 1, allow_multiple),
            Err(e) => Err(e),
        }
    }
}

/// What a patch of search/replace blocks makes of a text.
pub open spec fn search_replace(
    original: Seq<char>,
    patch: Seq<char>,
    allow_multiple: bool,
) -> Result<Seq<char>, Seq<char>> {
    if blocks(patch).len() == 0 {
        Err("No valid search/replace blocks found"@)
    } else {
        apply_blocks(original, blocks(patch), 0, allow_multiple)
    }
}

/// A list of lines that may not have begun.
pub open spec fn opt_strs(list: Option<Vec<String>>) -> Option<Seq<Seq<char>>> {
    match list {
        Some(v) => Some(strs(v@)),
        None => None,
    }
}

/// The search/replace blocks of a patch, in order.
fn blocks_of(patch: &str) -> (r: Vec<Edit>)
    ensures
        edits(r@) == blocks(patch@),
{
    let all = lines_of(patch);
    let mut out: Vec<Edit> = Vec::new();
    let mut search: Option<Vec<String>> = None;
    let mut replace: Option<Vec<String>> = None;
    assert(edits(out@) + blocks_from(strs(all@), 0, None, None) == blocks(patch@));
    for i in 0..all.len()
        invariant
            strs(all@) == lines(patch@),
            edits(out@) + blocks_from(strs(all@), i as int, opt_strs(search), opt_strs(replace))
                == blocks(patch@),
    {
        let line = &all[i];
        let marker = trimmed_end(line.as_str());
        assert(strs(all@)[i as int] == line@);
        if begins_with(marker.as_str(), "<<<<<<<") {
            search = Some(Vec::new());
            replace = None;
            assert(opt_strs(search) == Some(Seq::<Seq<char>>::empty()));
        } else if begins_with(marker.as_str(), "=======") && search.is_some() {
            replace = Some(Vec::new());
            assert(opt_strs(replace) == Some(Seq::<Seq<char>>::empty()));
        } else if begins_with(marker.as_str(), ">>>>>>>") {
            let ghost held = out@;
            if let (Some(s), Some(r)) = (&search, &replace) {
                out.push(edit_from(s, r));
                assert(edits(out@) == edits(held).push(edit_of(strs(s@), strs(r@))));
                assert(edits(out@) + blocks_from(strs(all@), i + 1, None, None) == edits(held) + (
                seq![edit_of(strs(s@), strs(r@))] + blocks_from(strs(all@), i + 1, None, None)));
            }
            search = None;
            replace = None;
        } else if let Some(r) = replace {
            let mut longer = r;
            longer.push(line.clone());
            assert(strs(longer@) == strs(r@).push(line@));
            replace = Some(longer);
        } else if let Some(s) = search {
            let mut longer = s;
            longer.push(line.clone());
            assert(strs(longer@) == strs(s@).push(line@));
            search = Some(longer);
            replace = None;
        }
    }
    assert(edits(out@) + Seq::<EditView>::empty() == edits(out@));
    out
}

/// Apply `<<<<<<< SEARCH / ======= / >>>>>>> REPLACE` blocks to a text.
pub fn apply_search_replace(original: &str, patch: &str, allow_multiple: bool) -> (r: Result<
    String,
    ToolError,
>)
    ensures
        outcome(r) == search_replace(original@, patch@, allow_multiple),
{
    let list = blocks_of(patch);
    if list.len() == 0 {
        return err("No valid search/replace blocks found");
    }
    let mut text = original.to_string();
    for k in 0..list.len()
        invariant
            edits(list@) == blocks(patch@),
            list@.len() > 0,
            apply_blocks(text@, blocks(patch@), k as int, allow_multiple) == search_replace(
                original@,
                patch@,
                allow_multiple,
            ),
    {
        let block = &list[k];
        assert(edits(list@)[k as int] == block@);
        if block.needle.as_str().is_empty() || !contains(text.as_str(), block.needle.as_str()) {
            let mut message = "the search block was not found in the description: ".to_string();
            message.append(excerpt_of(block.needle.as_str()).as_str());
            return Err(ToolError(message));
        }
        if !allow_multiple && occurs_twice(text.as_str(), block.needle.as_str()) {
            return err("the search block matches more than once; set allow_multiple to replace every occurrence");
        }
        text =
        if allow_multiple {
            replaced_all(text.as_str(), block.needle.as_str(), block.value.as_str())
        } else {
            replaced_first(text.as_str(), block.needle.as_str(), block.value.as_str())
        };
    }
    Ok(text)
}

/// Without `allow_multiple` a block that applies has only one place to apply to:
/// replacing the first occurrence is replacing every occurrence.
pub proof fn law_unambiguous_edit(text: Seq<char>, block: EditView)
    requires
        apply_block(text, block, false) is Ok,
    ensures
        count(text, block.needle) == 1,
        apply_block(text, block, false) == apply_block(text, block, true),
{
    lemma_single_occurrence(text, block.needle, block.value);
    crate::search::lemma_occurs_is_found(text, block.needle);
}

proof fn lemma_unambiguous_blocks(text: Seq<char>, list: Seq<EditView>, k: int)
    requires
        apply_blocks(text, list, k, false) is Ok,
    ensures
        apply_blocks(text, list, k, true) == apply_blocks(text, list, k, false),
    decreases list.len() - k,
{
    if 0 <= k < list.len() {
        law_unambiguous_edit(text, list[k]);
        lemma_unambiguous_blocks(apply_block(text, list[k], false)->Ok_0, list, k + 1);
    }
}

/// A patch that applies without `allow_multiple` does the same with it.
pub proof fn law_unambiguous_patch(original: Seq<char>, patch: Seq<char>)
    requires
        search_replace(original, patch, false) is Ok,
    ensures
        search_replace(original, patch, true) == search_replace(original, patch, false),
{
    lemma_unambiguous_blocks(original, blocks(patch), 0);
}

/// The blocks of some lines stay what they are behind other lines.
proof fn lemma_blocks_behind(
    head: Seq<Seq<char>>,
    all: Seq<Seq<char>>,
    i: int,
    search: Option<Seq<Seq<char>>>,
    replace: Option<Seq<Seq<char>>>,
)
    requires
        0 <= i,
    ensures
        blocks_from(head + all, head.len() + i, search, replace) == blocks_from(
            all,
            i,
            search,
            replace,
        ),
    decreases all.len() - i,
{
    if i < all.len() {
        assert((head + all)[head.len() + i] == all[i]);
        let marker = trim_end(all[i]);
        if "<<<<<<<"@.is_prefix_of(marker) {
            lemma_blocks_behind(head, all, i + 1, Some(seq![]), None);
        } else if "======="@.is_prefix_of(marker) && search is Some {
            lemma_blocks_behind(head, all, i + 1, search, Some(seq![]));
        } else if ">>>>>>>"@.is_prefix_of(marker) {
            lemma_blocks_behind(head, all, i + 1, None, None);
        } else if replace is Some {
            lemma_blocks_behind(head, all, i + 1, search, Some(replace->0.push(all[i])));
        } else if search is Some {
            lemma_blocks_behind(head, all, i + 1, Some(search->0.push(all[i])), replace);
        } else {
            lemma_blocks_behind(head, all, i + 1, search, replace);
        }
    }
}

/// Whether a line ends a block.
spec fn closing(line: Seq<char>) -> bool {
    ">>>>>>>"@.is_prefix_of(line)
}

/// White space at the end of a line that ends a block does not matter.
proof fn lemma_closing_trimmed(line: Seq<char>)
    requires
        closing(line),
    ensures
        closing(trim_end(line)),
        !"<<<<<<<"@.is_prefix_of(trim_end(line)),
        !"======="@.is_prefix_of(trim_end(line)),
        closing(crate::text::without_return(line)),
    decreases line.len(),
{
    reveal_strlit(">>>>>>>");
    reveal_strlit("<<<<<<<");
    reveal_strlit("=======");
    let marker = ">>>>>>>"@;
    assert(line.subrange(0, 7) =~= marker);
    assert(line[0] == marker[0] && line[6] == marker[6]);
    if line.len() > 7 {
        let shorter = line.drop_last();
        assert(shorter.subrange(0, 7) =~= marker);
        lemma_closing_trimmed(shorter);
    } else {
        assert(line =~= marker);
        assert(trim_end(line) == line);
    }
    let t = trim_end(line);
    assert(t.subrange(0, 7)[0] == marker[0]);
    assert("<<<<<<<"@[0] == '<');
    assert("======="@[0] == '=');
}

/// After a line that ends a block, blocks are read afresh.
proof fn lemma_blocks_joined(
    first: Seq<Seq<char>>,
    head: Seq<Seq<char>>,
    tail: Seq<Seq<char>>,
    i: int,
    search: Option<Seq<Seq<char>>>,
    replace: Option<Seq<Seq<char>>>,
)
    requires
        0 <= i < first.len(),
        first.len() == head.len(),
        first.drop_last() == head.drop_last(),
        closing(first.last()),
        closing(head.last()),
    ensures
        blocks_from(head + tail, i, search, replace) == blocks_from(first, i, search, replace)
            + blocks_from(tail, 0, None, None),
    decreases first.len() - i,
{
    let all = head + tail;
    assert(all[i] == head[i]);
    if i == first.len() - 1 {
        lemma_closing_trimmed(first[i]);
        lemma_closing_trimmed(head[i]);
        lemma_blocks_behind(head, tail, 0, None, None);
        assert(blocks_from(all, i + 1, None, None) == blocks_from(tail, 0, None, None));
        assert(blocks_from(first, i + 1, None, None) =~= seq![]);
    } else {
        assert(first.drop_last()[i] == head.drop_last()[i]);
        let marker = trim_end(all[i]);
        if "<<<<<<<"@.is_prefix_of(marker) {
            lemma_blocks_joined(first, head, tail, i + 1, Some(seq![]), None);
        } else if "======="@.is_prefix_of(marker) && search is Some {
            lemma_blocks_joined(first, head, tail, i + 1, search, Some(seq![]));
        } else if ">>>>>>>"@.is_prefix_of(marker) {
            lemma_blocks_joined(first, head, tail, i + 1, None, None);
        } else if replace is Some {
            lemma_blocks_joined(
                first,
                head,
                tail,
                i + 1,
                search,
                Some(replace->0.push(all[i])),
            );
        } else if search is Some {
            lemma_blocks_joined(
                first,
                head,
                tail,
                i + 1,
                Some(search->0.push(all[i])),
                replace,
            );
        } else {
            lemma_blocks_joined(first, head, tail, i + 1, search, replace);
        }
    }
}

/// The blocks of one patch under another are those of the one and those of the
/// other.
proof fn lemma_blocks_stacked(first: Seq<char>, second: Seq<char>)
    requires
        lines(first).len() > 0,
        closing(lines(first).last()),
    ensures
        blocks(stacked(first, second)) == blocks(first) + blocks(second),
{
    let all = lines(first);
    if first.last() == '\n' {
        let blank = Seq::<char>::empty();
        let rest = seq![blank] + lines(second);
        lemma_lines_stacked_apart(first, second);
        assert(all.push(blank) + lines(second) =~= all + rest);
        lemma_blocks_joined(all, all, rest, 0, None, None);
        reveal_strlit("<<<<<<<");
        reveal_strlit(">>>>>>>");
        reveal_strlit("=======");
        assert(rest[0] == blank);
        assert(trim_end(blank) == blank);
        lemma_blocks_behind(seq![blank], lines(second), 0, None, None);
    } else {
        lemma_lines_stacked(first, second);
        let head = ended(all);
        lemma_closing_trimmed(all.last());
        assert(head.drop_last() =~= all.drop_last());
        lemma_blocks_joined(all, head, lines(second), 0, None, None);
    }
}

/// Blocks are applied in order, each to the result of those before.
proof fn lemma_apply_blocks_joined(
    text: Seq<char>,
    first: Seq<EditView>,
    second: Seq<EditView>,
    k: int,
    allow_multiple: bool,
)
    requires
        0 <= k <= first.len(),
        apply_blocks(text, first, k, allow_multiple) is Ok,
    ensures
        apply_blocks(text, first + second, k, allow_multiple) == apply_blocks(
            apply_blocks(text, first, k, allow_multiple)->Ok_0,
            second,
            0,
            allow_multiple,
        ),
    decreases first.len() - k,
{
    if k < first.len() {
        assert((first + second)[k] == first[k]);
        lemma_apply_blocks_joined(
            apply_block(text, first[k], allow_multiple)->Ok_0,
            first,
            second,
            k + 1,
            allow_multiple,
        );
    } else {
        lemma_apply_blocks_behind(text, first, second, 0, allow_multiple);
    }
}

proof fn lemma_apply_blocks_behind(
    text: Seq<char>,
    head: Seq<EditView>,
    list: Seq<EditView>,
    k: int,
    allow_multiple: bool,
)
    requires
        0 <= k,
    ensures
        apply_blocks(text, head + list, head.len() + k, allow_multiple) == apply_blocks(
            text,
            list,
            k,
            allow_multiple,
        ),
    decreases list.len() - k,
{
    if k < list.len() {
        assert((head + list)[head.len() + k] == list[k]);
        match apply_block(text, list[k], allow_multiple) {
            Ok(next) => {
                lemma_apply_blocks_behind(next, head, list, k + 1, allow_multiple);
            },
            Err(_) => {},
        }
    }
}

/// Two patches of search/replace blocks, one under the other, make of a text what
/// the second makes of the result of the first, where the first ends with a whole
/// block.
pub proof fn law_stacked_patches_apply_in_turn(
    original: Seq<char>,
    first: Seq<char>,
    second: Seq<char>,
    allow_multiple: bool,
)
    requires
        lines(first).len() > 0,
        ">>>>>>>"@.is_prefix_of(lines(first).last()),
        search_replace(original, first, allow_multiple) is Ok,
    ensures
        ({
            let halfway = search_replace(original, first, allow_multiple)->Ok_0;
            let both = search_replace(original, first + "\n"@ + second, allow_multiple);
            &&& search_replace(halfway, second, allow_multiple) is Ok ==> both == search_replace(
                halfway,
                second,
                allow_multiple,
            )
            &&& blocks(second).len() > 0 ==> both == search_replace(halfway, second, allow_multiple)
        }),
{
    lemma_blocks_stacked(first, second);
    lemma_apply_blocks_joined(original, blocks(first), blocks(second), 0, allow_multiple);
}

// ------------------------------------------------------------ unified diff

/// How many lines a range of a hunk header counts: what stands behind its comma, or
/// one where it has none. A word that is no range of that sign counts none.
pub open spec fn range_count(word: Seq<char>, sign: char) -> nat {
    if word.len() == 0 || word[0] != sign {
        0
    } else {
        match part_once(word.skip(1), ',') {
            Some(range) => match parse_unsigned(range.1, u64::MAX as nat) {
                Some(n) => n,
                None => 0,
            },
            None => if parse_unsigned(word.skip(1), u64::MAX as nat) is Some {
                1
            } else {
                0
            },
        }
    }
}

/// How many lines a hunk has before and after the edit, as its header
/// `@@ -start,count +start,count @@` says.
pub open spec fn header_counts(line: Seq<char>) -> (nat, nat) {
    let words = pieces(line, ' ');
    (
        if words.len() > 1 {
            range_count(words[1], '-')
        } else {
            0
        },
        if words.len() > 2 {
            range_count(words[2], '+')
        } else {
            0
        },
    )
}

fn count_in_range(word: &str, sign: char) -> (r: u64)
    ensures
        r as nat == range_count(word@, sign),
{
    let chars = chars_of(word);
    if chars.len() == 0 || chars[0] != sign {
        return 0;
    }
    let range = string_between(&chars, 1, chars.len());
    assert(range@ == word@.skip(1));
    match split_once(range.as_str(), ',') {
        Some(parts) => match parse_number(parts.1.as_str(), u64::MAX) {
            Some(n) => n,
            None => 0,
        },
        None => if parse_number(range.as_str(), u64::MAX).is_some() {
            1
        } else {
            0
        },
    }
}

/// How many lines a line of a hunk stands for, before and after the edit.
pub open spec fn line_counts(line: Seq<char>) -> (nat, nat) {
    if line.len() == 0 || line[0] == ' ' {
        (1, 1)
    } else if line[0] == '-' {
        (1, 0)
    } else if line[0] == '+' {
        (0, 1)
    } else {
        (0, 0)
    }
}

/// Whether the lines from `i` on hold, before the next hunk begins, just so many
/// lines before and after the edit.
pub open spec fn counted_out(all: Seq<Seq<char>>, i: int, old: nat, new: nat) -> bool
    decreases all.len() - i,
{
    if old == 0 && new == 0 {
        true
    } else if i < 0 || i >= all.len() || "@@"@.is_prefix_of(all[i]) {
        false
    } else {
        let n = line_counts(all[i]);
        n.0 <= old && n.1 <= new && counted_out(all, i + 1, (old - n.0) as nat, (new - n.1) as nat)
    }
}

/// How many lines the hunk that begins at `i` counts: as many as its header says,
/// where so many follow. A header that counts wrong counts none.
pub open spec fn true_counts(all: Seq<Seq<char>>, i: int) -> (nat, nat) {
    let counts = header_counts(all[i]);
    if counted_out(all, i + 1, counts.0, counts.1) {
        counts
    } else {
        (0, 0)
    }
}

fn counts_of_line(line: &str) -> (r: (u64, u64))
    ensures
        (r.0 as nat, r.1 as nat) == line_counts(line@),
{
    let chars = chars_of(line);
    if chars.len() == 0 || chars[0] == ' ' {
        (1, 1)
    } else if chars[0] == '-' {
        (1, 0)
    } else if chars[0] == '+' {
        (0, 1)
    } else {
        (0, 0)
    }
}

/// Whether the lines from `from` on hold, before the next hunk begins, just so many
/// lines before and after the edit.
fn follow(all: &Vec<String>, from: usize, old_count: u64, new_count: u64) -> (r: bool)
    requires
        from <= all@.len(),
    ensures
        r == counted_out(strs(all@), from as int, old_count as nat, new_count as nat),
{
    let mut old_left: u64 = old_count;
    let mut new_left: u64 = new_count;
    for i in from..all.len()
        invariant
            counted_out(strs(all@), from as int, old_count as nat, new_count as nat)
                == counted_out(strs(all@), i as int, old_left as nat, new_left as nat),
            strs(all@).len() == all@.len(),
    {
        if old_left == 0 && new_left == 0 {
            return true;
        }
        let line = all[i].as_str();
        assert(strs(all@)[i as int] == line@);
        if begins_with(line, "@@") {
            return false;
        }
        let (old_here, new_here) = counts_of_line(line);
        if old_here > old_left || new_here > new_left {
            return false;
        }
        old_left = old_left - old_here;
        new_left = new_left - new_here;
    }
    old_left == 0 && new_left == 0
}

/// A hunk that is being read: whether one has begun at all, how many of the lines
/// that its header counts are still to come, and its lines so far, before and after
/// the edit.
struct Hunk {
    open: bool,
    old_left: u64,
    new_left: u64,
    before: Vec<String>,
    after: Vec<String>,
}

/// A `Hunk` as a mathematical value.
pub struct HunkView {
    pub open: bool,
    pub old_left: nat,
    pub new_left: nat,
    pub before: Seq<Seq<char>>,
    pub after: Seq<Seq<char>>,
}

impl View for Hunk {
    type V = HunkView;

    closed spec fn view(&self) -> HunkView {
        HunkView {
            open: self.open,
            old_left: self.old_left as nat,
            new_left: self.new_left as nat,
            before: strs(self.before@),
            after: strs(self.after@),
        }
    }
}

/// Before the first hunk.
pub open spec fn no_hunk() -> HunkView {
    HunkView { open: false, old_left: 0, new_left: 0, before: seq![], after: seq![] }
}

/// The hunk that the header at `i` begins.
pub open spec fn hunk_begun(all: Seq<Seq<char>>, i: int) -> HunkView {
    HunkView {
        open: true,
        old_left: true_counts(all, i).0,
        new_left: true_counts(all, i).1,
        before: seq![],
        after: seq![],
    }
}

/// One line less to come, where any is.
pub open spec fn one_less(n: nat) -> nat {
    if n > 0 {
        (n - 1) as nat
    } else {
        0
    }
}

impl HunkView {
    /// Whether a line names a file: it starts with three minus or plus signs, and
    /// no line of that sign is to come.
    pub open spec fn file_header(self, line: Seq<char>) -> bool {
        ("---"@.is_prefix_of(line) && self.old_left == 0) || ("+++"@.is_prefix_of(line)
            && self.new_left == 0)
    }

    /// The hunk with one more line. One that starts with a minus sign stands in the
    /// text before the edit, one that starts with a plus sign in the text after it,
    /// one that starts with a space, and an empty line, in both. The names of files,
    /// every other line and what stands before the first hunk are skipped.
    pub open spec fn with_line(self, line: Seq<char>) -> HunkView {
        if !self.open || self.file_header(line) {
            self
        } else if line.len() == 0 || line[0] == ' ' {
            let text = if line.len() == 0 {
                line
            } else {
                line.skip(1)
            };
            HunkView {
                old_left: one_less(self.old_left),
                new_left: one_less(self.new_left),
                before: self.before.push(text),
                after: self.after.push(text),
                ..self
            }
        } else if line[0] == '-' {
            HunkView {
                old_left: one_less(self.old_left),
                before: self.before.push(line.skip(1)),
                ..self
            }
        } else if line[0] == '+' {
            HunkView {
                new_left: one_less(self.new_left),
                after: self.after.push(line.skip(1)),
                ..self
            }
        } else {
            self
        }
    }

    /// The edit of the hunk, if it holds any line.
    pub open spec fn flushed(self) -> Seq<EditView> {
        if self.before.len() == 0 && self.after.len() == 0 {
            seq![]
        } else {
            seq![edit_of(self.before, self.after)]
        }
    }
}

/// The hunks that the lines from `i` on hold, after those of the hunk that has
/// begun. A line that starts with `@@` begins a hunk.
pub open spec fn hunks_from(all: Seq<Seq<char>>, i: int, hunk: HunkView) -> Seq<EditView>
    decreases all.len() - i,
{
    if i < 0 || i >= all.len() {
        hunk.flushed()
    } else if "@@"@.is_prefix_of(all[i]) {
        hunk.flushed() + hunks_from(all, i + 1, hunk_begun(all, i))
    } else {
        hunks_from(all, i + 1, hunk.with_line(all[i]))
    }
}

/// The hunks of a unified diff, in order.
pub open spec fn hunks(patch: Seq<char>) -> Seq<EditView> {
    hunks_from(lines(patch), 0, no_hunk())
}

/// What the hunks from `k` on make of a text, one after the other; each replaces
/// the first place where its earlier text stands, and the first whose earlier
/// text is missing decides.
pub open spec fn apply_hunks(text: Seq<char>, list: Seq<EditView>, k: int) -> Result<
    Seq<char>,
    Seq<char>,
>
    decreases list.len() - k,
{
    if k < 0 || k >= list.len() {
        Ok(text)
    } else if list[k].needle.len() > 0 && !occurs(text, list[k].needle) {
        Err("hunk context was not found in the description: "@ + excerpt(list[k].needle))
    } else {
        apply_hunks(replace_first(text, list[k].needle, list[k].value), list, k + 1)
    }
}

/// What a unified diff makes of a text.
pub open spec fn unified_diff(original: Seq<char>, patch: Seq<char>) -> Result<
    Seq<char>,
    Seq<char>,
> {
    match apply_hunks(original, hunks(patch), 0) {
        Err(e) => Err(e),
        Ok(text) => if hunks(patch).len() == 0 {
            Err("the unified diff contained no hunks"@)
        } else {
            Ok(text)
        },
    }
}

fn less_one(n: u64) -> (r: u64)
    ensures
        r as nat == one_less(n as nat),
{
    if n > 0 {
        n - 1
    } else {
        0
    }
}

impl Hunk {
    /// Before the first hunk.
    fn none() -> (r: Hunk)
        ensures
            r@ == no_hunk(),
    {
        let r = Hunk {
            open: false,
            old_left: 0,
            new_left: 0,
            before: Vec::new(),
            after: Vec::new(),
        };
        assert(r@.before == no_hunk().before);
        assert(r@.after == no_hunk().after);
        r
    }

    /// The hunk that the header at `i` begins.
    fn begun(all: &Vec<String>, i: usize) -> (r: Hunk)
        requires
            i < all@.len(),
        ensures
            r@ == hunk_begun(strs(all@), i as int),
    {
        let header = all[i].as_str();
        assert(strs(all@)[i as int] == header@);
        let words = split(header, ' ');
        let ghost seen = pieces(header@, ' ');
        assert(strs(words@).len() == words@.len());
        let old_count: u64 = if words.len() > 1 {
            assert(seen[1] == words@[1]@);
            count_in_range(words[1].as_str(), '-')
        } else {
            0
        };
        let new_count: u64 = if words.len() > 2 {
            assert(seen[2] == words@[2]@);
            count_in_range(words[2].as_str(), '+')
        } else {
            0
        };
        assert(i < all.len());
        let (old_left, new_left) = if follow(all, i + 1, old_count, new_count) {
            (old_count, new_count)
        } else {
            (0, 0)
        };
        let r = Hunk { open: true, old_left, new_left, before: Vec::new(), after: Vec::new() };
        assert(r@.before == hunk_begun(strs(all@), i as int).before);
        assert(r@.after == hunk_begun(strs(all@), i as int).after);
        r
    }

    /// Reads one more line of the hunk.
    fn read(&mut self, line: &str)
        ensures
            final(self)@ == old(self)@.with_line(line@),
    {
        let ghost held = self@;
        if !self.open || (begins_with(line, "---") && self.old_left == 0) || (begins_with(
            line,
            "+++",
        ) && self.new_left == 0) {
            return;
        }
        let chars = chars_of(line);
        let text = string_between(
            &chars,
            if chars.len() == 0 {
                0
            } else {
                1
            },
            chars.len(),
        );
        assert(text@ == if line@.len() == 0 { line@ } else { line@.skip(1) });
        if chars.len() == 0 || chars[0] == ' ' {
            self.old_left = less_one(self.old_left);
            self.new_left = less_one(self.new_left);
            self.before.push(text.clone());
            self.after.push(text);
            assert(self@.before == held.before.push(text@));
            assert(self@.after == held.after.push(text@));
        } else if chars[0] == '-' {
            self.old_left = less_one(self.old_left);
            self.before.push(text);
            assert(self@.before == held.before.push(text@));
        } else if chars[0] == '+' {
            self.new_left = less_one(self.new_left);
            self.after.push(text);
            assert(self@.after == held.after.push(text@));
        }
    }

    /// Puts the edit of the hunk at the end of a list, if it holds any line.
    fn flush(&self, out: &mut Vec<Edit>)
        ensures
            edits(final(out)@) == edits(old(out)@) + self@.flushed(),
    {
        let ghost held = out@;
        if self.before.len() == 0 && self.after.len() == 0 {
            assert(edits(held) + Seq::<EditView>::empty() == edits(held));
            return;
        }
        out.push(edit_from(&self.before, &self.after));
        assert(edits(out@) == edits(held) + seq![edit_of(self@.before, self@.after)]);
    }
}

/// The hunks of a unified diff, in order.
fn hunks_of(patch: &str) -> (r: Vec<Edit>)
    ensures
        edits(r@) == hunks(patch@),
{
    let all = lines_of(patch);
    let mut out: Vec<Edit> = Vec::new();
    let mut hunk = Hunk::none();
    assert(edits(out@) + hunks(patch@) == hunks(patch@));
    for i in 0..all.len()
        invariant
            strs(all@) == lines(patch@),
            edits(out@) + hunks_from(strs(all@), i as int, hunk@) == hunks(patch@),
    {
        let line = all[i].as_str();
        assert(strs(all@)[i as int] == line@);
        if begins_with(line, "@@") {
            let ghost held = edits(out@);
            let ghost done = hunk@.flushed();
            hunk.flush(&mut out);
            hunk = Hunk::begun(&all, i);
            let ghost rest = hunks_from(strs(all@), i + 1, hunk@);
            assert(held + done + rest == held + (done + rest));
        } else {
            hunk.read(line);
        }
    }
    hunk.flush(&mut out);
    out
}

/// Apply a unified diff by rebuilding each hunk's before and after text.
pub fn apply_unified_diff(original: &str, patch: &str) -> (r: Result<String, ToolError>)
    ensures
        outcome(r) == unified_diff(original@, patch@),
{
    let list = hunks_of(patch);
    let mut text = original.to_string();
    for k in 0..list.len()
        invariant
            edits(list@) == hunks(patch@),
            apply_hunks(text@, hunks(patch@), k as int) == apply_hunks(
                original@,
                hunks(patch@),
                0,
            ),
    {
        let hunk = &list[k];
        assert(edits(list@)[k as int] == hunk@);
        if !hunk.needle.as_str().is_empty() && !contains(text.as_str(), hunk.needle.as_str()) {
            let mut message = "hunk context was not found in the description: ".to_string();
            message.append(excerpt_of(hunk.needle.as_str()).as_str());
            return Err(ToolError(message));
        }
        text = replaced_first(text.as_str(), hunk.needle.as_str(), hunk.value.as_str());
    }
    if list.len() == 0 {
        return err("the unified diff contained no hunks");
    }
    Ok(text)
}

/// What a header counts does not depend on the lines before it.
proof fn lemma_counts_behind(
    head: Seq<Seq<char>>,
    all: Seq<Seq<char>>,
    i: int,
    old: nat,
    new: nat,
)
    requires
        0 <= i,
    ensures
        counted_out(head + all, head.len() + i, old, new) == counted_out(all, i, old, new),
    decreases all.len() - i,
{
    if i < all.len() {
        assert((head + all)[head.len() + i] == all[i]);
        let n = line_counts(all[i]);
        if n.0 <= old && n.1 <= new {
            lemma_counts_behind(head, all, i + 1, (old - n.0) as nat, (new - n.1) as nat);
        }
    }
}

/// What a header counts ends where the next hunk begins.
proof fn lemma_counts_joined(
    head: Seq<Seq<char>>,
    tail: Seq<Seq<char>>,
    i: int,
    old: nat,
    new: nat,
)
    requires
        0 <= i <= head.len(),
        tail.len() > 0,
        "@@"@.is_prefix_of(tail[0]),
    ensures
        counted_out(head + tail, i, old, new) == counted_out(head, i, old, new),
    decreases head.len() - i,
{
    if i < head.len() {
        assert((head + tail)[i] == head[i]);
        let n = line_counts(head[i]);
        if n.0 <= old && n.1 <= new {
            lemma_counts_joined(head, tail, i + 1, (old - n.0) as nat, (new - n.1) as nat);
        }
    } else {
        assert((head + tail)[i] == tail[0]);
    }
}

/// The hunks of some lines stay what they are behind other lines.
proof fn lemma_hunks_behind(
    head: Seq<Seq<char>>,
    all: Seq<Seq<char>>,
    i: int,
    hunk: HunkView,
)
    requires
        0 <= i,
    ensures
        hunks_from(head + all, head.len() + i, hunk) == hunks_from(all, i, hunk),
    decreases all.len() - i,
{
    if i < all.len() {
        assert((head + all)[head.len() + i] == all[i]);
        if "@@"@.is_prefix_of(all[i]) {
            let counts = header_counts(all[i]);
            lemma_counts_behind(head, all, i + 1, counts.0, counts.1);
            lemma_hunks_behind(head, all, i + 1, hunk_begun(all, i));
        } else {
            lemma_hunks_behind(head, all, i + 1, hunk.with_line(all[i]));
        }
    }
}

/// Where a hunk begins, what came before it is done with.
proof fn lemma_hunks_joined(
    head: Seq<Seq<char>>,
    tail: Seq<Seq<char>>,
    i: int,
    hunk: HunkView,
)
    requires
        0 <= i <= head.len(),
        tail.len() > 0,
        "@@"@.is_prefix_of(tail[0]),
    ensures
        hunks_from(head + tail, i, hunk) == hunks_from(head, i, hunk) + hunks_from(
            tail,
            0,
            no_hunk(),
        ),
    decreases head.len() - i,
{
    let all = head + tail;
    if i < head.len() {
        assert(all[i] == head[i]);
        if "@@"@.is_prefix_of(head[i]) {
            let counts = header_counts(head[i]);
            lemma_counts_joined(head, tail, i + 1, counts.0, counts.1);
            lemma_hunks_joined(head, tail, i + 1, hunk_begun(head, i));
        } else {
            lemma_hunks_joined(head, tail, i + 1, hunk.with_line(head[i]));
        }
    } else {
        assert(all[i] == tail[0]);
        let counts = header_counts(tail[0]);
        lemma_counts_behind(head, tail, 1, counts.0, counts.1);
        lemma_hunks_behind(head, tail, 1, hunk_begun(tail, 0));
        assert(hunks_from(tail, 0, no_hunk()) =~= hunks_from(tail, 1, hunk_begun(tail, 0)));
    }
}

/// Hunks are applied in order, each to the result of those before.
proof fn lemma_apply_hunks_joined(
    text: Seq<char>,
    first: Seq<EditView>,
    second: Seq<EditView>,
    k: int,
)
    requires
        0 <= k <= first.len(),
        apply_hunks(text, first, k) is Ok,
    ensures
        apply_hunks(text, first + second, k) == apply_hunks(
            apply_hunks(text, first, k)->Ok_0,
            second,
            0,
        ),
    decreases first.len() - k,
{
    if k < first.len() {
        assert((first + second)[k] == first[k]);
        lemma_apply_hunks_joined(
            replace_first(text, first[k].needle, first[k].value),
            first,
            second,
            k + 1,
        );
    } else {
        lemma_apply_hunks_behind(text, first, second, 0);
    }
}

proof fn lemma_apply_hunks_behind(
    text: Seq<char>,
    head: Seq<EditView>,
    list: Seq<EditView>,
    k: int,
)
    requires
        0 <= k,
    ensures
        apply_hunks(text, head + list, head.len() + k) == apply_hunks(text, list, k),
    decreases list.len() - k,
{
    if k < list.len() {
        assert((head + list)[head.len() + k] == list[k]);
        lemma_apply_hunks_behind(
            replace_first(text, list[k].needle, list[k].value),
            head,
            list,
            k + 1,
        );
    }
}

/// Two unified diffs, one under the other, make of a text what the second makes of
/// the result of the first. A line ending at the end of the first would be a line of
/// its last hunk.
pub proof fn law_stacked_diffs_apply_in_turn(
    original: Seq<char>,
    first: Seq<char>,
    second: Seq<char>,
)
    requires
        "@@"@.is_prefix_of(second),
        first.last() != '\n',
        first.last() != '\r',
        unified_diff(original, first) is Ok,
    ensures
        ({
            let halfway = unified_diff(original, first)->Ok_0;
            let both = unified_diff(original, first + "\n"@ + second);
            &&& unified_diff(halfway, second) is Ok ==> both == unified_diff(halfway, second)
            &&& hunks(second).len() > 0 ==> both == unified_diff(halfway, second)
        }),
{
    lemma_lines_stacked(first, second);
    let all = lines(first);
    assert(ended(all) =~= all);
    reveal_strlit("@@");
    assert(second.subrange(0, 2) =~= "@@"@);
    assert(second[0] == "@@"@[0] && second[1] == "@@"@[1]);
    let end = next_char(second, '\n', 0);
    lemma_next_char(second, '\n', 0);
    assert(end >= 2) by {
        assert(second[0] != '\n' && second[1] != '\n');
    }
    assert(lines(second)[0].subrange(0, 2) =~= "@@"@);
    lemma_hunks_joined(all, lines(second), 0, no_hunk());
    lemma_apply_hunks_joined(original, hunks(first), hunks(second), 0);
}

} // verus!
