//! Laws of unified diffs: what a header counts, and which lines belong to its hunk.

use crate::laws::blocks::{Row, lemma_rows_read, new_text, old_text};
use crate::laws::texts::{law_lines_read_back, law_parted, one_line};
use crate::patch::{EditView, HunkView, counted_out, header_counts, hunk_begun, hunks, hunks_from,
    no_hunk};
use crate::text::{decimal, digit, join, law_decimal_reads_back, lemma_decimal_digits,
    parse_unsigned, pieces};
use vstd::prelude::*;
use vstd::string::*;

verus! {

/// A range of a hunk header, with or without a count.
pub open spec fn range_text(sign: char, start: nat, count: Option<nat>) -> Seq<char> {
    match count {
        Some(n) => seq![sign] + decimal(start) + ","@ + decimal(n),
        None => seq![sign] + decimal(start),
    }
}

/// How many lines a range counts: one, where it has no count.
pub open spec fn lines_counted(count: Option<nat>) -> nat {
    match count {
        Some(n) => n,
        None => 1,
    }
}

proof fn lemma_range_text(sign: char, start: nat, count: Option<nat>)
    requires
        sign == '-' || sign == '+',
        start <= u64::MAX,
        lines_counted(count) <= u64::MAX,
    ensures
        crate::patch::range_count(range_text(sign, start, count), sign) == lines_counted(count),
        !range_text(sign, start, count).contains(' '),
{
    reveal_strlit(",");
    assert(","@ =~= seq![',']);
    let word = range_text(sign, start, count);
    lemma_decimal_digits(start);
    law_decimal_reads_back(start, u64::MAX as nat);
    assert(!decimal(start).contains(',')) by {
        if decimal(start).contains(',') {
            let i = choose|i: int| 0 <= i < decimal(start).len() && decimal(start)[i] == ',';
            assert(digit(decimal(start)[i]));
        }
    }
    match count {
        Some(n) => {
            lemma_decimal_digits(n);
            law_decimal_reads_back(n, u64::MAX as nat);
            law_parted(decimal(start), ',', decimal(n));
            assert(word.skip(1) =~= decimal(start) + seq![','] + decimal(n));
            assert forall|i: int| 0 <= i < word.len() implies word[i] != ' ' by {
                let k = decimal(start).len();
                if 1 <= i < 1 + k {
                    assert(digit(decimal(start)[i - 1]));
                } else if i > 1 + k {
                    assert(digit(decimal(n)[i - 2 - k]));
                }
            }
        },
        None => {
            law_parted(decimal(start), ',', seq![]);
            assert(word.skip(1) =~= decimal(start));
            assert forall|i: int| 0 <= i < word.len() implies word[i] != ' ' by {
                if 1 <= i {
                    assert(digit(decimal(start)[i - 1]));
                }
            }
        },
    }
}

/// A header counts the lines that its two ranges count, whatever stands behind them. One
/// without ranges counts none.
pub proof fn law_headers_count(
    old_start: nat,
    old_count: Option<nat>,
    new_start: nat,
    new_count: Option<nat>,
    rest: Seq<char>,
    line: Seq<char>,
)
    requires
        old_start <= u64::MAX,
        new_start <= u64::MAX,
        lines_counted(old_count) <= u64::MAX,
        lines_counted(new_count) <= u64::MAX,
    ensures
        header_counts(
            "@@"@ + seq![' '] + (range_text('-', old_start, old_count) + seq![' '] + (range_text(
                '+',
                new_start,
                new_count,
            ) + seq![' '] + rest)),
        ) == (lines_counted(old_count), lines_counted(new_count)),
        header_counts(
            "@@"@ + seq![' '] + (range_text('-', old_start, old_count) + seq![' '] + range_text(
                '+',
                new_start,
                new_count,
            )),
        ) == (lines_counted(old_count), lines_counted(new_count)),
        !line.contains(' ') ==> header_counts(line) == (0nat, 0nat),
{
    reveal_strlit("@@");
    assert(!"@@"@.contains(' '));
    let old = range_text('-', old_start, old_count);
    let new = range_text('+', new_start, new_count);
    lemma_range_text('-', old_start, old_count);
    lemma_range_text('+', new_start, new_count);
    let end = new + seq![' '] + rest;
    law_parted("@@"@, ' ', old + seq![' '] + end);
    law_parted(old, ' ', end);
    law_parted(new, ' ', rest);
    let whole = "@@"@ + seq![' '] + (old + seq![' '] + end);
    assert(pieces(whole, ' ')[1] == old);
    assert(pieces(whole, ' ')[2] == new);
    law_parted("@@"@, ' ', old + seq![' '] + new);
    law_parted(old, ' ', new);
    let short = "@@"@ + seq![' '] + (old + seq![' '] + new);
    assert(pieces(short, ' ')[1] == old);
    assert(pieces(short, ' ')[2] == new);
    if !line.contains(' ') {
        law_parted(line, ' ', rest);
    }
}

/// Whether a word of a header counts no lines: it has the wrong sign, or no number where
/// one is due.
pub open spec fn no_range(word: Seq<char>, sign: char) -> bool {
    ||| word.len() == 0
    ||| word[0] != sign
    ||| !word.contains(',') && parse_unsigned(word.skip(1), u64::MAX as nat) is None
    ||| exists|n: int|
        0 < n < word.len() && #[trigger] word[n] == ',' && !word.take(n).contains(',')
            && parse_unsigned(word.skip(n + 1), u64::MAX as nat) is None
}

proof fn lemma_no_range(word: Seq<char>, sign: char)
    requires
        sign != ',',
        no_range(word, sign),
    ensures
        crate::patch::range_count(word, sign) == 0,
{
    if word.len() > 0 && word[0] == sign {
        let inner = word.skip(1);
        if !word.contains(',') {
            assert(!inner.contains(',')) by {
                if inner.contains(',') {
                    let i = choose|i: int| 0 <= i < inner.len() && inner[i] == ',';
                    assert(word[i + 1] == ',');
                }
            }
            law_parted(inner, ',', seq![]);
        } else {
            let n = choose|n: int|
                0 < n < word.len() && #[trigger] word[n] == ',' && !word.take(n).contains(',')
                    && parse_unsigned(word.skip(n + 1), u64::MAX as nat) is None;
            let start = inner.take(n - 1);
            assert(!start.contains(',')) by {
                if start.contains(',') {
                    let i = choose|i: int| 0 <= i < start.len() && start[i] == ',';
                    assert(word.take(n)[i + 1] == ',');
                }
            }
            law_parted(start, ',', word.skip(n + 1));
            assert(inner =~= start + seq![','] + word.skip(n + 1));
        }
    }
}

/// A word that is no range counts no lines, in either place.
pub proof fn law_words_that_count_nothing(old: Seq<char>, new: Seq<char>, rest: Seq<char>)
    requires
        !old.contains(' '),
        !new.contains(' '),
    ensures
        ({
            let counts = header_counts(
                "@@"@ + seq![' '] + (old + seq![' '] + (new + seq![' '] + rest)),
            );
            &&& no_range(old, '-') ==> counts.0 == 0
            &&& no_range(new, '+') ==> counts.1 == 0
        }),
{
    reveal_strlit("@@");
    assert(!"@@"@.contains(' '));
    let end = new + seq![' '] + rest;
    law_parted("@@"@, ' ', old + seq![' '] + end);
    law_parted(old, ' ', end);
    law_parted(new, ' ', rest);
    let whole = "@@"@ + seq![' '] + (old + seq![' '] + end);
    assert(pieces(whole, ' ')[1] == old);
    assert(pieces(whole, ' ')[2] == new);
    if no_range(old, '-') {
        lemma_no_range(old, '-');
    }
    if no_range(new, '+') {
        lemma_no_range(new, '+');
    }
}

// -------------------------------------------------------------- two hunks

/// Whether a line looks like the name of a file.
pub open spec fn names_file(line: Seq<char>) -> bool {
    "---"@.is_prefix_of(line) || "+++"@.is_prefix_of(line)
}

/// A hunk that has been read, with no more lines to come.
spec fn complete(rows: Seq<Row>) -> HunkView {
    HunkView {
        open: true,
        old_left: 0,
        new_left: 0,
        before: old_text(rows),
        after: new_text(rows),
    }
}

/// A hunk of which some lines have been read.
spec fn partly(rows: Seq<Row>, k: int) -> HunkView {
    HunkView {
        open: true,
        old_left: (old_text(rows).len() - old_text(rows.take(k)).len()) as nat,
        new_left: (new_text(rows).len() - new_text(rows.take(k)).len()) as nat,
        before: old_text(rows.take(k)),
        after: new_text(rows.take(k)),
    }
}

proof fn lemma_partly(rows: Seq<Row>, k: int)
    requires
        0 <= k <= rows.len(),
    ensures
        old_text(rows.take(k)).len() <= old_text(rows).len(),
        new_text(rows.take(k)).len() <= new_text(rows).len(),
    decreases rows.len(),
{
    if k < rows.len() {
        assert(rows.drop_last().take(k) =~= rows.take(k));
        lemma_partly(rows.drop_last(), k);
    } else {
        assert(rows.take(k) =~= rows);
    }
}

proof fn lemma_no_new_hunk(line: Seq<char>)
    requires
        line.len() > 0 ==> line[0] != '@',
    ensures
        !"@@"@.is_prefix_of(line),
{
    reveal_strlit("@@");
    if "@@"@.is_prefix_of(line) {
        assert(line.subrange(0, 2)[0] == "@@"@[0]);
    }
}

proof fn lemma_first_sign(line: Seq<char>)
    ensures
        names_file(line) ==> line.len() >= 3 && (line[0] == '-' || line[0] == '+'),
        "---"@.is_prefix_of(line) ==> line.len() >= 3 && line[0] == '-',
        "+++"@.is_prefix_of(line) ==> line.len() >= 3 && line[0] == '+',
{
    reveal_strlit("---");
    reveal_strlit("+++");
    if "---"@.is_prefix_of(line) {
        assert(line.subrange(0, 3)[0] == "---"@[0]);
    }
    if "+++"@.is_prefix_of(line) {
        assert(line.subrange(0, 3)[0] == "+++"@[0]);
    }
}

proof fn lemma_counted(all: Seq<Seq<char>>, at: int, rows: Seq<Row>, k: int)
    requires
        0 <= k <= rows.len(),
        0 <= at,
        at + rows.len() <= all.len(),
        forall|i: int| 0 <= i < rows.len() ==> #[trigger] all[at + i] == rows[i].shown()
            && rows[i] !is Remark,
    ensures
        counted_out(all, at + k, partly(rows, k).old_left, partly(rows, k).new_left),
        hunks_from(all, at + k, partly(rows, k)) == hunks_from(
            all,
            at + rows.len(),
            complete(rows),
        ),
    decreases rows.len() - k,
{
    lemma_partly(rows, k);
    if k < rows.len() {
        let line = rows[k].shown();
        assert(all[at + k] == line);
        lemma_no_new_hunk(line);
        lemma_first_sign(line);
        assert(rows.take(k + 1).drop_last() =~= rows.take(k));
        assert(rows.take(k + 1).last() == rows[k]);
        lemma_partly(rows, k + 1);
        match rows[k] {
            Row::Kept(t) => {
                assert(line.skip(1) =~= t);
            },
            Row::Dropped(t) => {
                assert(line.skip(1) =~= t);
            },
            Row::Added(t) => {
                assert(line.skip(1) =~= t);
            },
            Row::Empty => {
                assert(line =~= Seq::<char>::empty());
            },
            Row::Remark(_) => {},
        }
        lemma_counted(all, at, rows, k + 1);
        assert(partly(rows, k).with_line(line) == partly(rows, k + 1));
    } else {
        assert(rows.take(k) =~= rows);
    }
}

proof fn lemma_names_skipped(all: Seq<Seq<char>>, from: int, to: int, hunk: HunkView)
    requires
        0 <= from <= to <= all.len(),
        forall|i: int| from <= i < to ==> names_file(#[trigger] all[i]),
        hunk.old_left == 0,
        hunk.new_left == 0,
    ensures
        hunks_from(all, from, hunk) == hunks_from(all, to, hunk),
    decreases to - from,
{
    if from < to {
        lemma_first_sign(all[from]);
        lemma_no_new_hunk(all[from]);
        lemma_names_skipped(all, from + 1, to, hunk);
    }
}

/// What stands between two hunks: nothing, or the names of the next file.
pub open spec fn two_hunks(
    first: Seq<char>,
    rows: Seq<Row>,
    names: Seq<Seq<char>>,
    second: Seq<char>,
    more: Seq<Row>,
) -> Seq<Seq<char>> {
    seq![first] + rows.map_values(|r: Row| r.shown()) + names + seq![second] + more.map_values(
        |r: Row| r.shown(),
    )
}

/// What both hunks have in common: they fit on their lines, and the second one cannot be
/// taken for anything else.
pub open spec fn well_written(
    first: Seq<char>,
    rows: Seq<Row>,
    names: Seq<Seq<char>>,
    second: Seq<char>,
    more: Seq<Row>,
) -> bool {
    &&& "@@"@.is_prefix_of(first) && one_line(first)
    &&& "@@"@.is_prefix_of(second) && one_line(second)
    &&& forall|i: int| 0 <= i < rows.len() ==> one_line((#[trigger] rows[i]).shown())
    &&& forall|i: int| 0 <= i < names.len() ==> one_line(#[trigger] names[i]) && names_file(names[i])
    &&& forall|i: int| 0 <= i < more.len() ==> (#[trigger] more[i]).clear()
    &&& more.len() > 0 && more.last().shown().len() > 0
    &&& old_text(rows).len() > 0 || new_text(rows).len() > 0
    &&& old_text(more).len() > 0 || new_text(more).len() > 0
}

proof fn lemma_two_hunks(
    first: Seq<char>,
    rows: Seq<Row>,
    names: Seq<Seq<char>>,
    second: Seq<char>,
    more: Seq<Row>,
)
    requires
        well_written(first, rows, names, second, more),
        ({
            let all = two_hunks(first, rows, names, second, more);
            hunks_from(all, 1, hunk_begun(all, 0)) == hunks_from(
                all,
                1 + rows.len() as int + names.len(),
                complete(rows),
            )
        }),
    ensures
        hunks(join(two_hunks(first, rows, names, second, more), "\n"@)) == seq![
            (EditView { needle: join(old_text(rows), "\n"@), value: join(new_text(rows), "\n"@) }),
            (EditView { needle: join(old_text(more), "\n"@), value: join(new_text(more), "\n"@) }),
        ],
{
    let all = two_hunks(first, rows, names, second, more);
    let n = rows.len() as int;
    let p = 1 + n + names.len();
    assert forall|i: int| 0 <= i < all.len() implies one_line(#[trigger] all[i]) by {
        if i == 0 {
            assert(all[i] == first);
        } else if i <= n {
            assert(all[i] == rows[i - 1].shown());
        } else if i < p {
            assert(all[i] == names[i - 1 - n]);
        } else if i == p {
            assert(all[i] == second);
        } else {
            assert(all[i] == more[i - p - 1].shown());
            assert(more[i - p - 1].clear());
        }
    }
    assert(all.last() == more.last().shown());
    law_lines_read_back(all);
    assert(all[0] == first);
    assert(all[p] == second);
    let at = p + 1;
    assert forall|i: int| 0 <= i < more.len() implies #[trigger] all[at + i] == more[i].shown()
        && more[i].clear() by {}
    assert(more.take(0) =~= Seq::<Row>::empty());
    lemma_rows_read(all, at, more, 0, hunk_begun(all, p));
    let rest = hunks_from(all, 1, hunk_begun(all, 0));
    assert(no_hunk().flushed() + rest =~= rest);
    assert(hunks_from(all, 0, no_hunk()) == rest);
    assert(hunks_from(all, p, complete(rows)) == complete(rows).flushed() + hunks_from(
        all,
        at,
        hunk_begun(all, p),
    ));
}

/// A hunk whose header counts its lines holds just those lines, whatever signs they
/// begin with. The names of the next file, which may follow, are none of them.
pub proof fn law_counted_hunks(
    first: Seq<char>,
    rows: Seq<Row>,
    names: Seq<Seq<char>>,
    second: Seq<char>,
    more: Seq<Row>,
)
    requires
        well_written(first, rows, names, second, more),
        forall|i: int| 0 <= i < rows.len() ==> (#[trigger] rows[i]) !is Remark,
        header_counts(first) == (old_text(rows).len(), new_text(rows).len()),
    ensures
        hunks(join(two_hunks(first, rows, names, second, more), "\n"@)) == seq![
            (EditView { needle: join(old_text(rows), "\n"@), value: join(new_text(rows), "\n"@) }),
            (EditView { needle: join(old_text(more), "\n"@), value: join(new_text(more), "\n"@) }),
        ],
{
    let all = two_hunks(first, rows, names, second, more);
    let n = rows.len() as int;
    assert(all[0] == first);
    assert forall|i: int| 0 <= i < rows.len() implies #[trigger] all[1 + i] == rows[i].shown()
        && rows[i] !is Remark by {}
    assert(rows.take(0) =~= Seq::<Row>::empty());
    lemma_counted(all, 1, rows, 0);
    assert(hunk_begun(all, 0) == partly(rows, 0));
    assert forall|i: int| 1 + n <= i < 1 + n + names.len() implies names_file(#[trigger] all[i]) by {
        assert(all[i] == names[i - 1 - n]);
    }
    lemma_names_skipped(all, 1 + n, 1 + n + names.len(), complete(rows));
    lemma_two_hunks(first, rows, names, second, more);
}

/// A row that reads as what it is where no lines are counted: what begins like the name
/// of a file is a remark, and a remark is that or begins with none of the signs.
pub open spec fn uncounted(row: Row) -> bool {
    match row {
        Row::Remark(t) => t.len() > 0 && (names_file(t) || (t[0] != ' ' && t[0] != '-' && t[0]
            != '+' && t[0] != '@')),
        other => !names_file(other.shown()),
    }
}

proof fn lemma_overcounted(all: Seq<Seq<char>>, from: int, to: int, old: nat, new: nat)
    requires
        0 <= from <= to < all.len(),
        "@@"@.is_prefix_of(all[to]),
        old > to - from || new > to - from,
    ensures
        !counted_out(all, from, old, new),
    decreases to - from,
{
    if from < to && counted_out(all, from, old, new) {
        let n = crate::patch::line_counts(all[from]);
        lemma_overcounted(all, from + 1, to, (old - n.0) as nat, (new - n.1) as nat);
    }
}

proof fn lemma_uncounted(all: Seq<Seq<char>>, at: int, rows: Seq<Row>, k: int, hunk: HunkView)
    requires
        0 <= k <= rows.len(),
        0 <= at,
        at + rows.len() <= all.len(),
        forall|i: int| 0 <= i < rows.len() ==> #[trigger] all[at + i] == rows[i].shown()
            && uncounted(rows[i]),
        hunk == (HunkView {
            open: true,
            old_left: 0,
            new_left: 0,
            before: old_text(rows.take(k)),
            after: new_text(rows.take(k)),
        }),
    ensures
        hunks_from(all, at + k, hunk) == hunks_from(all, at + rows.len(), complete(rows)),
    decreases rows.len() - k,
{
    if k < rows.len() {
        let line = rows[k].shown();
        assert(all[at + k] == line);
        lemma_first_sign(line);
        lemma_no_new_hunk(line);
        assert(rows.take(k + 1).drop_last() =~= rows.take(k));
        assert(rows.take(k + 1).last() == rows[k]);
        match rows[k] {
            Row::Kept(t) => {
                assert(line.skip(1) =~= t);
            },
            Row::Dropped(t) => {
                assert(line.skip(1) =~= t);
            },
            Row::Added(t) => {
                assert(line.skip(1) =~= t);
            },
            Row::Empty => {
                assert(line =~= Seq::<char>::empty());
            },
            Row::Remark(_) => {},
        }
        lemma_uncounted(all, at, rows, k + 1, hunk.with_line(line));
    } else {
        assert(rows.take(k) =~= rows);
    }
}

/// A header that counts more lines than its hunk has, or none at all, counts for
/// nothing: the hunk goes on until the next one begins, and what begins like the name
/// of a file is no line of it.
pub proof fn law_miscounted_hunks(
    first: Seq<char>,
    rows: Seq<Row>,
    second: Seq<char>,
    more: Seq<Row>,
)
    requires
        well_written(first, rows, seq![], second, more),
        forall|i: int| 0 <= i < rows.len() ==> uncounted(#[trigger] rows[i]),
        ({
            let counts = header_counts(first);
            counts.0 > rows.len() || counts.1 > rows.len() || (counts.0 == 0 && counts.1 == 0)
        }),
    ensures
        hunks(join(two_hunks(first, rows, seq![], second, more), "\n"@)) == seq![
            (EditView { needle: join(old_text(rows), "\n"@), value: join(new_text(rows), "\n"@) }),
            (EditView { needle: join(old_text(more), "\n"@), value: join(new_text(more), "\n"@) }),
        ],
{
    let all = two_hunks(first, rows, seq![], second, more);
    let n = rows.len() as int;
    assert(all[0] == first);
    assert(all[1 + n] == second);
    assert forall|i: int| 0 <= i < rows.len() implies #[trigger] all[1 + i] == rows[i].shown()
        && uncounted(rows[i]) by {}
    assert(rows.take(0) =~= Seq::<Row>::empty());
    let counts = header_counts(first);
    if counts.0 > 0 || counts.1 > 0 {
        lemma_overcounted(all, 1, 1 + n, counts.0, counts.1);
    }
    lemma_uncounted(all, 1, rows, 0, hunk_begun(all, 0));
    lemma_two_hunks(first, rows, seq![], second, more);
}

} // verus!
