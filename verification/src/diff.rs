//! How a hunk of a unified diff is written, and that it is read as it was meant.

use crate::patch::{HunkView, apply_hunks, counted_out, edit_of, header_counts, hunk_begun, hunks,
    hunks_from, range_count, unified_diff};
use crate::search::{occurs, replace_first};
use crate::text::{decimal, digit, join, law_decimal_reads_back, lemma_decimal_digits,
    lemma_first_piece, lemma_lines_of_joined, pieces};
use vstd::prelude::*;
use vstd::string::*;

verus! {

/// A line of a hunk: one that stays, one that goes or one that comes.
pub enum HunkLine {
    Kept(Seq<char>),
    Dropped(Seq<char>),
    Added(Seq<char>),
}

impl HunkLine {
    /// The text of the line.
    pub open spec fn text(self) -> Seq<char> {
        match self {
            HunkLine::Kept(t) => t,
            HunkLine::Dropped(t) => t,
            HunkLine::Added(t) => t,
        }
    }

    /// The sign in front of the line.
    pub open spec fn sign(self) -> char {
        match self {
            HunkLine::Kept(_) => ' ',
            HunkLine::Dropped(_) => '-',
            HunkLine::Added(_) => '+',
        }
    }

    /// The line as a diff shows it.
    pub open spec fn written(self) -> Seq<char> {
        seq![self.sign()] + self.text()
    }

    /// Whether the text fits on one line: it holds no line feed, and no carriage
    /// return that would count as part of one.
    pub open spec fn fits(self) -> bool {
        !self.text().contains('\n') && (self.text().len() > 0 ==> self.text().last() != '\r')
    }
}

/// The lines of a hunk before the edit.
pub open spec fn old_lines(list: Seq<HunkLine>) -> Seq<Seq<char>>
    decreases list.len(),
{
    if list.len() == 0 {
        seq![]
    } else {
        let head = old_lines(list.drop_last());
        match list.last() {
            HunkLine::Added(_) => head,
            other => head.push(other.text()),
        }
    }
}

/// The lines of a hunk after the edit.
pub open spec fn new_lines(list: Seq<HunkLine>) -> Seq<Seq<char>>
    decreases list.len(),
{
    if list.len() == 0 {
        seq![]
    } else {
        let head = new_lines(list.drop_last());
        match list.last() {
            HunkLine::Dropped(_) => head,
            other => head.push(other.text()),
        }
    }
}

/// A range of a hunk header: where it starts and how many lines it counts.
pub open spec fn range(sign: char, start: nat, count: nat) -> Seq<char> {
    seq![sign] + decimal(start) + ","@ + decimal(count)
}

/// The header of a hunk that starts at some line before and after the edit.
pub open spec fn header(old_start: nat, new_start: nat, list: Seq<HunkLine>) -> Seq<char> {
    "@@"@ + " "@ + (range('-', old_start, old_lines(list).len()) + " "@ + (range(
        '+',
        new_start,
        new_lines(list).len(),
    ) + " "@ + "@@"@))
}

/// The header and the lines of a hunk.
pub open spec fn shown(old_start: nat, new_start: nat, list: Seq<HunkLine>) -> Seq<Seq<char>> {
    seq![header(old_start, new_start, list)] + list.map_values(|l: HunkLine| l.written())
}

/// A hunk as a unified diff.
pub open spec fn diff_text(old_start: nat, new_start: nat, list: Seq<HunkLine>) -> Seq<char> {
    join(shown(old_start, new_start, list), "\n"@)
}

/// A row of digits holds nothing else.
proof fn lemma_decimal_holds(n: nat, c: char)
    requires
        !digit(c),
    ensures
        !decimal(n).contains(c),
{
    lemma_decimal_digits(n);
}

/// A range is one word, and counts what it says.
proof fn lemma_range(sign: char, start: nat, count: nat)
    requires
        sign == '-' || sign == '+',
        count <= u64::MAX,
    ensures
        range_count(range(sign, start, count), sign) == count,
        !range(sign, start, count).contains(' '),
        !range(sign, start, count).contains('\n'),
{
    reveal_strlit(",");
    let word = range(sign, start, count);
    lemma_decimal_holds(start, ',');
    lemma_decimal_holds(start, ' ');
    lemma_decimal_holds(start, '\n');
    lemma_decimal_holds(count, ' ');
    lemma_decimal_holds(count, '\n');
    assert(","@ =~= seq![',']);
    assert(word.skip(1) =~= decimal(start) + seq![','] + decimal(count));
    lemma_first_piece(decimal(start), ',', decimal(count));
    law_decimal_reads_back(count, u64::MAX as nat);
    assert forall|i: int| 0 <= i < word.len() implies word[i] != ' ' && word[i] != '\n' by {
        let n = decimal(start).len();
        if 1 <= i < 1 + n {
            assert(word[i] == decimal(start)[i - 1]);
        } else if i > 1 + n {
            assert(word[i] == decimal(count)[i - 2 - n]);
        }
    }
}

/// The counts of a header read back.
proof fn lemma_header(old_start: nat, new_start: nat, list: Seq<HunkLine>)
    requires
        old_lines(list).len() <= u64::MAX,
        new_lines(list).len() <= u64::MAX,
    ensures
        header_counts(header(old_start, new_start, list)) == (
            old_lines(list).len(),
            new_lines(list).len(),
        ),
        "@@"@.is_prefix_of(header(old_start, new_start, list)),
        !header(old_start, new_start, list).contains('\n'),
        header(old_start, new_start, list).len() > 0,
        header(old_start, new_start, list).last() == '@',
{
    reveal_strlit("@@");
    reveal_strlit(" ");
    assert(" "@ =~= seq![' ']);
    let old = range('-', old_start, old_lines(list).len());
    let new = range('+', new_start, new_lines(list).len());
    lemma_range('-', old_start, old_lines(list).len());
    lemma_range('+', new_start, new_lines(list).len());
    let end = new + seq![' '] + "@@"@;
    let rest = old + seq![' '] + end;
    let line = header(old_start, new_start, list);
    assert(line =~= "@@"@ + seq![' '] + rest);
    assert(!"@@"@.contains(' '));
    lemma_first_piece("@@"@, ' ', rest);
    lemma_first_piece(old, ' ', end);
    lemma_first_piece(new, ' ', "@@"@);
    assert(pieces(line, ' ')[1] == old);
    assert(pieces(line, ' ')[2] == new);
    assert(line.subrange(0, 2) =~= "@@"@);
    assert forall|i: int| 0 <= i < line.len() implies line[i] != '\n' by {
        if 3 <= i < 3 + old.len() {
            assert(line[i] == old[i - 3]);
            assert(old.contains(old[i - 3]));
        } else if 4 + old.len() <= i < 4 + old.len() + new.len() {
            assert(line[i] == new[i - 4 - old.len()]);
            assert(new.contains(new[i - 4 - old.len()]));
        }
    }
}

/// What is read of a hunk after some of its lines.
spec fn read_so_far(list: Seq<HunkLine>, k: int) -> HunkView {
    HunkView {
        open: true,
        old_left: (old_lines(list).len() - old_lines(list.take(k)).len()) as nat,
        new_left: (new_lines(list).len() - new_lines(list.take(k)).len()) as nat,
        before: old_lines(list.take(k)),
        after: new_lines(list.take(k)),
    }
}

/// A beginning of a hunk has no more lines than the hunk.
proof fn lemma_fewer_lines(list: Seq<HunkLine>, k: int)
    requires
        0 <= k <= list.len(),
    ensures
        old_lines(list.take(k)).len() <= old_lines(list).len(),
        new_lines(list.take(k)).len() <= new_lines(list).len(),
    decreases list.len(),
{
    if k < list.len() {
        assert(list.drop_last().take(k) == list.take(k));
        lemma_fewer_lines(list.drop_last(), k);
    } else {
        assert(list.take(k) == list);
    }
}

/// A line of a hunk is read as what it is.
proof fn lemma_line_read(list: Seq<HunkLine>, k: int)
    requires
        0 <= k < list.len(),
    ensures
        !"@@"@.is_prefix_of(list[k].written()),
        read_so_far(list, k).with_line(list[k].written()) == read_so_far(list, k + 1),
{
    reveal_strlit("@@");
    reveal_strlit("---");
    reveal_strlit("+++");
    let line = list[k].written();
    let h = read_so_far(list, k);
    let more = list.take(k + 1);
    assert(more.drop_last() == list.take(k));
    assert(more.last() == list[k]);
    lemma_fewer_lines(list, k);
    lemma_fewer_lines(list, k + 1);
    assert(line[0] == list[k].sign());
    assert(line.skip(1) =~= list[k].text());
    if "@@"@.is_prefix_of(line) {
        assert(line.subrange(0, 2)[0] == "@@"@[0]);
    }
    if "---"@.is_prefix_of(line) {
        assert(line.subrange(0, 3)[0] == "---"@[0]);
    }
    if "+++"@.is_prefix_of(line) {
        assert(line.subrange(0, 3)[0] == "+++"@[0]);
    }
    assert(!h.file_header(line));
}

/// The lines of a hunk from one on complete it.
proof fn lemma_hunk_read(all: Seq<Seq<char>>, list: Seq<HunkLine>, k: int)
    requires
        list.len() > 0,
        0 <= k <= list.len(),
        all.len() == list.len() + 1,
        forall|i: int| 0 <= i < list.len() ==> #[trigger] all[i + 1] == list[i].written(),
    ensures
        hunks_from(all, k + 1, read_so_far(list, k)) == seq![
            edit_of(old_lines(list), new_lines(list)),
        ],
    decreases list.len() - k,
{
    if k < list.len() {
        assert(all[k + 1] == list[k].written());
        lemma_line_read(list, k);
        lemma_hunk_read(all, list, k + 1);
    } else {
        assert(list.take(k) == list);
    }
}

/// As many lines follow the header of a hunk as it counts.
proof fn lemma_counts_hold(all: Seq<Seq<char>>, list: Seq<HunkLine>, k: int)
    requires
        0 <= k <= list.len(),
        all.len() == list.len() + 1,
        forall|i: int| 0 <= i < list.len() ==> #[trigger] all[i + 1] == list[i].written(),
    ensures
        counted_out(all, k + 1, read_so_far(list, k).old_left, read_so_far(list, k).new_left),
    decreases list.len() - k,
{
    lemma_fewer_lines(list, k);
    if k < list.len() {
        assert(all[k + 1] == list[k].written());
        assert(list[k].written()[0] == list[k].sign());
        assert(list.take(k + 1).drop_last() == list.take(k));
        assert(list.take(k + 1).last() == list[k]);
        lemma_fewer_lines(list, k + 1);
        lemma_line_read(list, k);
        lemma_counts_hold(all, list, k + 1);
    } else {
        assert(list.take(k) == list);
    }
}

/// A hunk is rebuilt as it was meant, whatever signs its lines begin with: its text
/// before the edit is that of the lines that stay or go, its text after the edit that
/// of the lines that stay or come.
pub proof fn law_hunk_is_rebuilt(old_start: nat, new_start: nat, list: Seq<HunkLine>)
    requires
        list.len() > 0,
        forall|i: int| 0 <= i < list.len() ==> (#[trigger] list[i]).fits(),
        old_lines(list).len() <= u64::MAX,
        new_lines(list).len() <= u64::MAX,
    ensures
        hunks(diff_text(old_start, new_start, list)) == seq![
            edit_of(old_lines(list), new_lines(list)),
        ],
{
    let all = shown(old_start, new_start, list);
    let head = header(old_start, new_start, list);
    lemma_header(old_start, new_start, list);
    assert forall|i: int| 0 <= i < all.len() implies (#[trigger] all[i]).len() > 0
        && !all[i].contains('\n') && all[i].last() != '\r' by {
        if i > 0 {
            let l = list[i - 1];
            assert(l.fits());
            assert(all[i] == l.written());
            assert forall|j: int| 0 <= j < all[i].len() implies all[i][j] != '\n' by {
                if j > 0 {
                    assert(all[i][j] == l.text()[j - 1]);
                    assert(l.text().contains(l.text()[j - 1]));
                }
            }
            if l.text().len() > 0 {
                assert(all[i].last() == l.text().last());
            }
        } else {
            assert(all[i] == head);
        }
    }
    lemma_lines_of_joined(all);
    assert(all[0] == head);
    assert(list.take(0) == Seq::<HunkLine>::empty());
    lemma_counts_hold(all, list, 0);
    assert(hunk_begun(all, 0) == read_so_far(list, 0));
    lemma_hunk_read(all, list, 0);
}

/// Where the text of a hunk before the edit stands in a text, the hunk puts its text
/// after the edit in that place; where it stands nowhere, nothing is changed.
pub proof fn law_hunk_is_applied(
    original: Seq<char>,
    old_start: nat,
    new_start: nat,
    list: Seq<HunkLine>,
)
    requires
        list.len() > 0,
        forall|i: int| 0 <= i < list.len() ==> (#[trigger] list[i]).fits(),
        old_lines(list).len() <= u64::MAX,
        new_lines(list).len() <= u64::MAX,
    ensures
        ({
            let old = join(old_lines(list), "\n"@);
            let new = join(new_lines(list), "\n"@);
            let result = unified_diff(original, diff_text(old_start, new_start, list));
            &&& old.len() == 0 || occurs(original, old) ==> result == Ok::<Seq<char>, Seq<char>>(
                replace_first(original, old, new),
            )
            &&& old.len() > 0 && !occurs(original, old) ==> result is Err
        }),
{
    law_hunk_is_rebuilt(old_start, new_start, list);
    reveal_with_fuel(apply_hunks, 2);
}

} // verus!
