//! Laws of patches: a block or a hunk is read as it was written, and puts its new text
//! in the place of the old.

use crate::laws::texts::{law_lines_read_back, law_nothing_found, law_replaced, one_line, reads};
use crate::patch::{EditView, HunkView, apply_blocks, apply_hunks, blocks, blocks_from, edit_of,
    hunk_begun, hunks, hunks_from, no_hunk, search_replace, unified_diff};
use crate::search::{count, occurs, occurs_at, replace_all};
use crate::text::{join, lines, trim_end, white};
use crate::unicode::quote;
use vstd::prelude::*;
use vstd::string::*;

verus! {

// ------------------------------------------------- search/replace blocks

/// Whether a line is one of the three that give a block its shape.
pub open spec fn marker(line: Seq<char>) -> bool {
    "<<<<<<<"@.is_prefix_of(line) || "======="@.is_prefix_of(line) || ">>>>>>>"@.is_prefix_of(line)
}

/// A list of lines that are no markers.
pub open spec fn plain(list: Seq<Seq<char>>) -> bool {
    forall|i: int| 0 <= i < list.len() ==> one_line(#[trigger] list[i]) && !marker(list[i])
}

/// A block as it is written: three markers, which may go on as they like, with the
/// lines to be replaced and the lines to replace them by in between.
pub open spec fn block_lines(
    begin: Seq<char>,
    old: Seq<Seq<char>>,
    middle: Seq<char>,
    new: Seq<Seq<char>>,
    end: Seq<char>,
) -> Seq<Seq<char>> {
    seq![begin] + old + seq![middle] + new + seq![end]
}

/// White space at the end of a line does not decide how it begins.
proof fn lemma_beginning(mark: Seq<char>, line: Seq<char>)
    requires
        mark.len() > 0,
        !white(mark.last()),
    ensures
        mark.is_prefix_of(trim_end(line)) <==> mark.is_prefix_of(line),
    decreases line.len(),
{
    if line.len() > 0 && white(line.last()) {
        let shorter = line.drop_last();
        lemma_beginning(mark, shorter);
        let n = mark.len() as int;
        if mark.is_prefix_of(line) {
            assert(line.subrange(0, n)[n - 1] == mark[n - 1]);
            assert(line.len() > n);
            assert(shorter.subrange(0, n) =~= line.subrange(0, n));
        }
        if mark.is_prefix_of(shorter) {
            assert(shorter.subrange(0, n) =~= line.subrange(0, n));
        }
    }
}

/// How the markers are told apart.
proof fn lemma_markers(line: Seq<char>)
    ensures
        "<<<<<<<"@.is_prefix_of(trim_end(line)) <==> "<<<<<<<"@.is_prefix_of(line),
        "======="@.is_prefix_of(trim_end(line)) <==> "======="@.is_prefix_of(line),
        ">>>>>>>"@.is_prefix_of(trim_end(line)) <==> ">>>>>>>"@.is_prefix_of(line),
        "<<<<<<<"@.is_prefix_of(line) ==> line.len() > 0 && line[0] == '<',
        "======="@.is_prefix_of(line) ==> line.len() > 0 && line[0] == '=',
        ">>>>>>>"@.is_prefix_of(line) ==> line.len() > 0 && line[0] == '>',
{
    reveal_strlit("<<<<<<<");
    reveal_strlit("=======");
    reveal_strlit(">>>>>>>");
    assert("<<<<<<<"@.last() == '<' && "<<<<<<<"@[0] == '<');
    assert("======="@.last() == '=' && "======="@[0] == '=');
    assert(">>>>>>>"@.last() == '>' && ">>>>>>>"@[0] == '>');
    lemma_beginning("<<<<<<<"@, line);
    lemma_beginning("======="@, line);
    lemma_beginning(">>>>>>>"@, line);
    if "<<<<<<<"@.is_prefix_of(line) {
        assert(line.subrange(0, 7)[0] == line[0]);
    }
    if "======="@.is_prefix_of(line) {
        assert(line.subrange(0, 7)[0] == line[0]);
    }
    if ">>>>>>>"@.is_prefix_of(line) {
        assert(line.subrange(0, 7)[0] == line[0]);
    }
}

/// The lines of the first half are collected.
proof fn lemma_old_half(
    all: Seq<Seq<char>>,
    old: Seq<Seq<char>>,
    k: int,
)
    requires
        0 <= k <= old.len(),
        old.len() + 1 < all.len(),
        plain(old),
        forall|i: int| 0 <= i < old.len() ==> #[trigger] all[i + 1] == old[i],
    ensures
        blocks_from(all, k + 1, Some(old.take(k)), None) == blocks_from(
            all,
            old.len() as int + 1,
            Some(old),
            None,
        ),
    decreases old.len() - k,
{
    if k < old.len() {
        assert(all[k + 1] == old[k]);
        lemma_markers(old[k]);
        assert(old.take(k).push(old[k]) =~= old.take(k + 1));
        lemma_old_half(all, old, k + 1);
    } else {
        assert(old.take(k) =~= old);
    }
}

/// The lines of the second half are collected.
proof fn lemma_new_half(
    all: Seq<Seq<char>>,
    old: Seq<Seq<char>>,
    new: Seq<Seq<char>>,
    at: int,
    k: int,
)
    requires
        0 <= k <= new.len(),
        0 <= at,
        at + new.len() < all.len(),
        plain(new),
        forall|i: int| 0 <= i < new.len() ==> #[trigger] all[at + i] == new[i],
    ensures
        blocks_from(all, at + k, Some(old), Some(new.take(k))) == blocks_from(
            all,
            at + new.len(),
            Some(old),
            Some(new),
        ),
    decreases new.len() - k,
{
    if k < new.len() {
        assert(all[at + k] == new[k]);
        lemma_markers(new[k]);
        assert(new.take(k).push(new[k]) =~= new.take(k + 1));
        lemma_new_half(all, old, new, at, k + 1);
    } else {
        assert(new.take(k) =~= new);
    }
}

/// A block is read as one edit: from all lines of its first half, joined by line
/// feeds, to all lines of its second half, joined by line feeds.
pub proof fn law_block_is_read(
    begin: Seq<char>,
    old: Seq<Seq<char>>,
    middle: Seq<char>,
    new: Seq<Seq<char>>,
    end: Seq<char>,
)
    requires
        "<<<<<<<"@.is_prefix_of(begin),
        "======="@.is_prefix_of(middle),
        ">>>>>>>"@.is_prefix_of(end),
        one_line(begin),
        one_line(middle),
        one_line(end),
        plain(old),
        plain(new),
    ensures
        blocks(join(block_lines(begin, old, middle, new, end), "\n"@)) == seq![
            (EditView { needle: join(old, "\n"@), value: join(new, "\n"@) }),
        ],
{
    let all = block_lines(begin, old, middle, new, end);
    let m = old.len() as int + 1;
    let n = m + 1 + new.len();
    lemma_markers(begin);
    lemma_markers(middle);
    lemma_markers(end);
    assert(all[0] == begin);
    assert(all[m] == middle);
    assert(all[n] == end);
    assert(all.last() == end);
    assert forall|i: int| 0 <= i < all.len() implies one_line(#[trigger] all[i]) by {
        if 0 < i < m {
            assert(all[i] == old[i - 1]);
        } else if m < i < n {
            assert(all[i] == new[i - m - 1]);
        }
    }
    law_lines_read_back(all);
    assert forall|i: int| 0 <= i < old.len() implies #[trigger] all[i + 1] == old[i] by {}
    assert forall|i: int| 0 <= i < new.len() implies #[trigger] all[m + 1 + i] == new[i] by {}
    assert(old.take(0) =~= Seq::<Seq<char>>::empty());
    assert(new.take(0) =~= Seq::<Seq<char>>::empty());
    lemma_old_half(all, old, 0);
    lemma_new_half(all, old, new, m + 1, 0);
    assert(blocks_from(all, n + 1, None, None) =~= Seq::<EditView>::empty());
    assert(blocks_from(all, n, Some(old), Some(new)) =~= seq![edit_of(old, new)]);
    assert(blocks_from(all, m, Some(old), None) == blocks_from(all, m + 1, Some(old), Some(seq![])));
    assert(blocks_from(all, 0, None, None) == blocks_from(all, 1, Some(seq![]), None));
}

/// Lines outside a block are passed over, and without a block there is nothing to
/// apply.
pub proof fn law_patch_without_blocks(original: Seq<char>, list: Seq<Seq<char>>, multiple: bool)
    requires
        list.len() > 0,
        list.last().len() > 0,
        plain(list),
    ensures
        search_replace(original, join(list, "\n"@), multiple) == Err::<Seq<char>, Seq<char>>(
            "No valid search/replace blocks found"@,
        ),
{
    law_lines_read_back(list);
    lemma_outside(list, 0);
}

proof fn lemma_outside(list: Seq<Seq<char>>, k: int)
    requires
        0 <= k <= list.len(),
        plain(list),
    ensures
        blocks_from(list, k, None, None).len() == 0,
    decreases list.len() - k,
{
    if k < list.len() {
        lemma_markers(list[k]);
        assert(!marker(list[k]));
        lemma_outside(list, k + 1);
    }
}

/// What a patch of one block makes of a text. Where its old text stands in one place,
/// its new text stands there afterwards and all else is unchanged. Where it stands
/// nowhere, or holds nothing, the patch fails and says what was looked for. Where it
/// stands in several places, the patch fails unless every place may be changed.
pub proof fn law_block_is_applied(
    original: Seq<char>,
    begin: Seq<char>,
    old: Seq<Seq<char>>,
    middle: Seq<char>,
    new: Seq<Seq<char>>,
    end: Seq<char>,
    multiple: bool,
    a: Seq<char>,
    b: Seq<char>,
)
    requires
        "<<<<<<<"@.is_prefix_of(begin),
        "======="@.is_prefix_of(middle),
        ">>>>>>>"@.is_prefix_of(end),
        one_line(begin),
        one_line(middle),
        one_line(end),
        plain(old),
        plain(new),
    ensures
        ({
            let patch = join(block_lines(begin, old, middle, new, end), "\n"@);
            let result = search_replace(original, patch, multiple);
            let needle = join(old, "\n"@);
            let value = join(new, "\n"@);
            &&& needle.len() > 0 && original == a + needle + b && (forall|j: int|
                0 <= j < a.len() ==> !#[trigger] reads(original, needle, j)) && (forall|j: int|
                0 <= j <= b.len() - needle.len() ==> !#[trigger] reads(b, needle, j)) ==> result
                == Ok::<Seq<char>, Seq<char>>(a + value + b)
            &&& needle.len() == 0 || (forall|j: int|
                0 <= j <= original.len() - needle.len() ==> !#[trigger] reads(original, needle, j))
                ==> result == Err::<Seq<char>, Seq<char>>(
                "the search block was not found in the description: "@ + quote(
                    if needle.len() <= 60 {
                        needle
                    } else {
                        needle.take(60)
                    },
                ),
            )
            &&& needle.len() > 0 && original == a + needle + b && (forall|j: int|
                0 <= j < a.len() ==> !#[trigger] reads(original, needle, j)) && occurs(b, needle)
                && !multiple ==> result == Err::<Seq<char>, Seq<char>>(
                "the search block matches more than once; set allow_multiple to replace every occurrence"@,
            )
            &&& needle.len() > 0 && original == a + needle + b && (forall|j: int|
                0 <= j < a.len() ==> !#[trigger] reads(original, needle, j)) && multiple ==> result
                == Ok::<Seq<char>, Seq<char>>(a + value + replace_all(b, needle, value))
        }),
{
    let needle = join(old, "\n"@);
    let value = join(new, "\n"@);
    law_block_is_read(begin, old, middle, new, end);
    reveal_with_fuel(apply_blocks, 2);
    if needle.len() > 0 {
        if original == a + needle + b && (forall|j: int|
            0 <= j < a.len() ==> !#[trigger] reads(original, needle, j)) {
            law_replaced(a, needle, b, value);
            if forall|j: int| 0 <= j <= b.len() - needle.len() ==> !#[trigger] reads(b, needle, j) {
                law_nothing_found(b, needle, value);
            }
            if occurs(b, needle) {
                lemma_occurs_counts(b, needle);
            }
        }
        if forall|j: int|
            0 <= j <= original.len() - needle.len() ==> !#[trigger] reads(original, needle, j) {
            law_nothing_found(original, needle, value);
        }
    }
}

proof fn lemma_occurs_counts(s: Seq<char>, p: Seq<char>)
    requires
        p.len() > 0,
        occurs(s, p),
    ensures
        count(s, p) > 0,
{
    crate::search::lemma_occurs_is_found(s, p);
}

// ------------------------------------------------------------ unified diff

/// What stands in a hunk: a line with its sign, an empty line, which stays, or a
/// remark, which is none of its lines.
pub enum Row {
    Kept(Seq<char>),
    Dropped(Seq<char>),
    Added(Seq<char>),
    Empty,
    Remark(Seq<char>),
}

impl Row {
    /// The row as it is written.
    pub open spec fn shown(self) -> Seq<char> {
        match self {
            Row::Kept(t) => seq![' '] + t,
            Row::Dropped(t) => seq!['-'] + t,
            Row::Added(t) => seq!['+'] + t,
            Row::Empty => seq![],
            Row::Remark(t) => t,
        }
    }

    /// A row that cannot be taken for anything else: it fits on a line, names no file,
    /// and a remark begins with none of the signs.
    pub open spec fn clear(self) -> bool {
        &&& one_line(self.shown())
        &&& !"---"@.is_prefix_of(self.shown())
        &&& !"+++"@.is_prefix_of(self.shown())
        &&& self matches Row::Remark(t) ==> {
            &&& t.len() > 0
            &&& t[0] != ' ' && t[0] != '-' && t[0] != '+' && t[0] != '@'
        }
    }
}

/// The lines before the edit.
pub open spec fn old_text(rows: Seq<Row>) -> Seq<Seq<char>>
    decreases rows.len(),
{
    if rows.len() == 0 {
        seq![]
    } else {
        let head = old_text(rows.drop_last());
        match rows.last() {
            Row::Kept(t) => head.push(t),
            Row::Dropped(t) => head.push(t),
            Row::Empty => head.push(seq![]),
            _ => head,
        }
    }
}

/// The lines after the edit.
pub open spec fn new_text(rows: Seq<Row>) -> Seq<Seq<char>>
    decreases rows.len(),
{
    if rows.len() == 0 {
        seq![]
    } else {
        let head = new_text(rows.drop_last());
        match rows.last() {
            Row::Kept(t) => head.push(t),
            Row::Added(t) => head.push(t),
            Row::Empty => head.push(seq![]),
            _ => head,
        }
    }
}

pub proof fn lemma_rows_read(all: Seq<Seq<char>>, at: int, rows: Seq<Row>, k: int, hunk: HunkView)
    requires
        0 <= k <= rows.len(),
        0 <= at,
        all.len() == at + rows.len(),
        hunk.open,
        hunk.before == old_text(rows.take(k)),
        hunk.after == new_text(rows.take(k)),
        forall|i: int| 0 <= i < rows.len() ==> #[trigger] all[at + i] == rows[i].shown()
            && rows[i].clear(),
    ensures
        hunks_from(all, at + k, hunk) == (if old_text(rows).len() == 0 && new_text(rows).len()
            == 0 {
            Seq::<EditView>::empty()
        } else {
            seq![edit_of(old_text(rows), new_text(rows))]
        }),
    decreases rows.len() - k,
{
    if k < rows.len() {
        let line = rows[k].shown();
        assert(all[at + k] == line);
        reveal_strlit("@@");
        if "@@"@.is_prefix_of(line) {
            assert(line.subrange(0, 2)[0] == "@@"@[0]);
        }
        assert(rows.take(k + 1).drop_last() =~= rows.take(k));
        assert(rows.take(k + 1).last() == rows[k]);
        match rows[k] {
            Row::Kept(t) => {
                assert(line.skip(1) =~= t);
            },
            Row::Dropped(t) => {
                assert(line.skip(1) =~= t);
            },
            Row::Added(t) => {
                assert(line.skip(1) =~= t);
            },
            Row::Empty => {
                assert(line =~= Seq::<char>::empty());
            },
            Row::Remark(_) => {},
        }
        lemma_rows_read(all, at, rows, k + 1, hunk.with_line(line));
    } else {
        assert(rows.take(k) =~= rows);
    }
}

/// A hunk is read as one edit, whatever its header says of the place: from the lines
/// that stay or go to the lines that stay or come. What stands before the first hunk
/// does not matter.
pub proof fn law_hunk_is_read(preface: Seq<Seq<char>>, header: Seq<char>, rows: Seq<Row>)
    requires
        "@@"@.is_prefix_of(header),
        one_line(header),
        rows.len() > 0,
        rows.last().shown().len() > 0,
        forall|i: int| 0 <= i < rows.len() ==> (#[trigger] rows[i]).clear(),
        forall|i: int|
            0 <= i < preface.len() ==> one_line(#[trigger] preface[i]) && !"@@"@.is_prefix_of(
                preface[i],
            ),
        old_text(rows).len() > 0 || new_text(rows).len() > 0,
    ensures
        hunks(
            join(preface + seq![header] + rows.map_values(|r: Row| r.shown()), "\n"@),
        ) == seq![
            (EditView { needle: join(old_text(rows), "\n"@), value: join(new_text(rows), "\n"@) }),
        ],
{
    let all = preface + seq![header] + rows.map_values(|r: Row| r.shown());
    let at = preface.len() as int + 1;
    assert forall|i: int| 0 <= i < rows.len() implies #[trigger] all[at + i] == rows[i].shown()
        && rows[i].clear() by {}
    assert forall|i: int| 0 <= i < all.len() implies one_line(#[trigger] all[i]) by {
        if i < preface.len() {
            assert(all[i] == preface[i]);
        } else if i >= at {
            assert(all[i] == rows[i - at].shown());
            assert(rows[i - at].clear());
        }
    }
    assert(all.last() == rows.last().shown());
    law_lines_read_back(all);
    assert(all[at - 1] == header);
    assert(rows.take(0) =~= Seq::<Row>::empty());
    lemma_rows_read(all, at, rows, 0, hunk_begun(all, at - 1));
    lemma_preface(all, preface, 0);
    let rest = hunks_from(all, at, hunk_begun(all, at - 1));
    assert(no_hunk().flushed() + rest =~= rest);
}

proof fn lemma_preface(all: Seq<Seq<char>>, preface: Seq<Seq<char>>, k: int)
    requires
        0 <= k <= preface.len() < all.len(),
        forall|i: int|
            0 <= i < preface.len() ==> #[trigger] all[i] == preface[i] && !"@@"@.is_prefix_of(
                preface[i],
            ),
    ensures
        hunks_from(all, k, no_hunk()) == hunks_from(all, preface.len() as int, no_hunk()),
    decreases preface.len() - k,
{
    if k < preface.len() {
        assert(all[k] == preface[k]);
        lemma_preface(all, preface, k + 1);
    }
}

/// What a diff of one hunk makes of a text: its new text stands where the old one stood
/// first, and all else is unchanged. Where the old text stands nowhere the diff fails,
/// and says what was looked for.
pub proof fn law_diff_is_applied(
    original: Seq<char>,
    header: Seq<char>,
    rows: Seq<Row>,
    a: Seq<char>,
    b: Seq<char>,
)
    requires
        "@@"@.is_prefix_of(header),
        one_line(header),
        rows.len() > 0,
        rows.last().shown().len() > 0,
        forall|i: int| 0 <= i < rows.len() ==> (#[trigger] rows[i]).clear(),
        old_text(rows).len() > 0 || new_text(rows).len() > 0,
    ensures
        ({
            let patch = join(seq![header] + rows.map_values(|r: Row| r.shown()), "\n"@);
            let needle = join(old_text(rows), "\n"@);
            let value = join(new_text(rows), "\n"@);
            let result = unified_diff(original, patch);
            &&& needle.len() > 0 && original == a + needle + b && (forall|j: int|
                0 <= j < a.len() ==> !#[trigger] reads(original, needle, j)) ==> result == Ok::<
                Seq<char>,
                Seq<char>,
            >(a + value + b)
            &&& needle.len() == 0 ==> result == Ok::<Seq<char>, Seq<char>>(value + original)
            &&& needle.len() > 0 && (forall|j: int|
                0 <= j <= original.len() - needle.len() ==> !#[trigger] reads(original, needle, j))
                ==> result == Err::<Seq<char>, Seq<char>>(
                "hunk context was not found in the description: "@ + quote(
                    if needle.len() <= 60 {
                        needle
                    } else {
                        needle.take(60)
                    },
                ),
            )
        }),
{
    let needle = join(old_text(rows), "\n"@);
    let value = join(new_text(rows), "\n"@);
    let none = Seq::<Seq<char>>::empty();
    assert(none + seq![header] + rows.map_values(|r: Row| r.shown()) =~= seq![header]
        + rows.map_values(|r: Row| r.shown()));
    law_hunk_is_read(none, header, rows);
    reveal_with_fuel(apply_hunks, 2);
    if needle.len() > 0 {
        if original == a + needle + b && (forall|j: int|
            0 <= j < a.len() ==> !#[trigger] reads(original, needle, j)) {
            law_replaced(a, needle, b, value);
        }
        if forall|j: int|
            0 <= j <= original.len() - needle.len() ==> !#[trigger] reads(original, needle, j) {
            law_nothing_found(original, needle, value);
        }
    } else {
        crate::search::lemma_find(original, needle, 0);
        assert(original.subrange(0, 0) =~= needle);
        assert(occurs_at(original, needle, 0));
        assert(original.take(0) + value + original.skip(0) =~= value + original);
    }
}

/// A diff without a header holds no hunk.
pub proof fn law_diff_without_hunks(original: Seq<char>, list: Seq<Seq<char>>)
    requires
        list.len() > 0,
        list.last().len() > 0,
        forall|i: int|
            0 <= i < list.len() ==> one_line(#[trigger] list[i]) && !"@@"@.is_prefix_of(list[i]),
    ensures
        unified_diff(original, join(list, "\n"@)) == Err::<Seq<char>, Seq<char>>(
            "the unified diff contained no hunks"@,
        ),
{
    law_lines_read_back(list);
    lemma_no_header(list, 0);
}

proof fn lemma_no_header(list: Seq<Seq<char>>, k: int)
    requires
        0 <= k <= list.len(),
        forall|i: int| 0 <= i < list.len() ==> !"@@"@.is_prefix_of(#[trigger] list[i]),
    ensures
        hunks_from(list, k, no_hunk()).len() == 0,
    decreases list.len() - k,
{
    if k < list.len() {
        lemma_no_header(list, k + 1);
    }
}

} // verus!
