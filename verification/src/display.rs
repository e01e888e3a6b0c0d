//! The character display of a control port: two buffers, and the smallest
//! set of writes that brings the device from one to the other.

use vstd::prelude::*;
use crate::message::{messages_view, MessageView, OutgoingMessage};
use crate::text::{chars_of, string_of};

verus! {

/// Whether the device shows something else at column `x` than it should.
pub open spec fn changed(front: Seq<char>, back: Seq<char>, x: int) -> bool {
    front[x] != back[x]
}

/// Changed cells that lie at most this many unchanged cells apart are
/// rewritten in one go.
pub const MERGE_GAP: usize = 3;

/// The runs of a row, built from left to right over its first `x` columns:
/// a changed cell joins the run before it if at most three unchanged cells
/// lie between them, and starts a run of its own otherwise.
pub open spec fn merged_runs(front: Seq<char>, back: Seq<char>, x: int) -> Seq<(usize, usize)>
    decreases x,
{
    if x <= 0 {
        Seq::empty()
    } else {
        let runs = merged_runs(front, back, x - 1);
        let c = x - 1;
        if changed(front, back, c) {
            if runs.len() > 0 && c - runs.last().1 <= 3 {
                runs.drop_last().push((runs.last().0, (c + 1) as usize))
            } else {
                runs.push((c as usize, (c + 1) as usize))
            }
        } else {
            runs
        }
    }
}

/// What it means for `runs` to be the runs of a row of `width` columns:
///
/// - every run begins and ends on a changed cell, within the row;
/// - runs come from left to right, and at least four cells lie between one
///   run and the next;
/// - inside a run no four cells in a row are all unchanged;
/// - every changed cell lies in a run.
pub open spec fn is_run_cover(
    front: Seq<char>,
    back: Seq<char>,
    width: int,
    runs: Seq<(usize, usize)>,
) -> bool {
    &&& forall|i: int|
        0 <= i < runs.len() ==> {
            &&& 0 <= (#[trigger] runs[i]).0 < runs[i].1 <= width
            &&& changed(front, back, runs[i].0 as int)
            &&& changed(front, back, runs[i].1 - 1)
        }
    &&& forall|i: int, j: int|
        0 <= i < j < runs.len() ==> (#[trigger] runs[i]).1 + 4 <= (#[trigger] runs[j]).0
    &&& forall|i: int, x: int|
        0 <= i < runs.len() && (#[trigger] runs[i]).0 <= x && x + 3 < runs[i].1
            ==> #[trigger] window_has_change(front, back, x)
    &&& forall|x: int|
        0 <= x < width && changed(front, back, x) ==> #[trigger] in_some_run(runs, x)
}

/// Whether one of the four cells from column `x` on is changed.
pub open spec fn window_has_change(front: Seq<char>, back: Seq<char>, x: int) -> bool {
    changed(front, back, x) || changed(front, back, x + 1) || changed(front, back, x + 2)
        || changed(front, back, x + 3)
}

/// Whether column `x` lies in one of the runs.
pub open spec fn in_some_run(runs: Seq<(usize, usize)>, x: int) -> bool {
    exists|i: int| 0 <= i < runs.len() && (#[trigger] runs[i]).0 <= x < runs[i].1
}

/// The runs built from left to right are the runs of the row.
pub proof fn lemma_merged_runs_cover(front: Seq<char>, back: Seq<char>, width: int)
    requires
        0 <= width <= usize::MAX,
    ensures
        is_run_cover(front, back, width, merged_runs(front, back, width)),
    decreases width,
{
    if width > 0 {
        lemma_merged_runs_cover(front, back, width - 1);
        let prev = merged_runs(front, back, width - 1);
        let runs = merged_runs(front, back, width);
        let c = width - 1;
        if changed(front, back, c) {
            if prev.len() > 0 && c - prev.last().1 <= 3 {
                let last = prev.len() - 1;
                assert(runs[last] == (prev[last].0, (c + 1) as usize));
                assert forall|i: int| 0 <= i < last implies runs[i] == prev[i] by {}
                assert forall|i: int, x: int|
                    0 <= i < runs.len() && (#[trigger] runs[i]).0 <= x && x + 3
                        < runs[i].1 implies #[trigger] window_has_change(front, back, x) by {
                    if i == last {
                        let e = prev[last].1 as int;
                        assert(prev[last].0 <= x);
                        if x + 3 < e {
                            assert(window_has_change(front, back, x));
                        } else if x <= e - 1 {
                            assert(changed(front, back, e - 1));
                        } else {
                            assert(x + 3 == c);
                        }
                    } else {
                        assert(runs[i] == prev[i]);
                    }
                }
                assert forall|x: int|
                    0 <= x < width && changed(front, back, x) implies #[trigger] in_some_run(runs, x) by {
                    if x < c {
                        assert(in_some_run(prev, x));
                        let i = choose|i: int|
                            0 <= i < prev.len() && (#[trigger] prev[i]).0 <= x < prev[i].1;
                        assert(runs[i].0 <= x < runs[i].1);
                    } else {
                        assert(runs[last].0 <= x < runs[last].1);
                    }
                }
            } else {
                let last = prev.len() as int;
                assert(runs[last] == (c as usize, (c + 1) as usize));
                assert forall|i: int| 0 <= i < last implies runs[i] == prev[i] by {}
                assert forall|i: int, j: int| 0 <= i < j < runs.len() implies (#[trigger] runs[i]).1
                    + 4 <= (#[trigger] runs[j]).0 by {
                    if j == last {
                        assert(prev[i].1 <= prev.last().1) by {
                            if i < last - 1 {
                                assert(prev[i].1 + 4 <= prev[last - 1].0);
                            }
                        }
                    }
                }
                assert forall|x: int|
                    0 <= x < width && changed(front, back, x) implies #[trigger] in_some_run(runs, x) by {
                    if x < c {
                        assert(in_some_run(prev, x));
                        let i = choose|i: int|
                            0 <= i < prev.len() && (#[trigger] prev[i]).0 <= x < prev[i].1;
                        assert(runs[i].0 <= x < runs[i].1);
                    } else {
                        assert(runs[last].0 <= x < runs[last].1);
                    }
                }
            }
        } else {
            assert forall|x: int|
                0 <= x < width && changed(front, back, x) implies #[trigger] in_some_run(runs, x) by {
                assert(in_some_run(prev, x));
            }
        }
    }
}

/// Where the last column is unchanged, the runs of the row are those of
/// the row without it.
proof fn lemma_cover_without_unchanged_cell(
    front: Seq<char>,
    back: Seq<char>,
    width: int,
    runs: Seq<(usize, usize)>,
)
    requires
        0 < width,
        is_run_cover(front, back, width, runs),
        !changed(front, back, width - 1),
    ensures
        is_run_cover(front, back, width - 1, runs),
{
    assert forall|i: int| 0 <= i < runs.len() implies (#[trigger] runs[i]).1 <= width - 1 by {
        assert(changed(front, back, runs[i].1 - 1));
    }
}

/// Where the last column is changed, it ends the last run.
proof fn lemma_last_run_ends_row(
    front: Seq<char>,
    back: Seq<char>,
    width: int,
    runs: Seq<(usize, usize)>,
)
    requires
        0 < width,
        is_run_cover(front, back, width, runs),
        changed(front, back, width - 1),
    ensures
        runs.len() > 0,
        runs.last().1 == width,
{
    let c = width - 1;
    assert(in_some_run(runs, c));
    let k = choose|i: int| 0 <= i < runs.len() && (#[trigger] runs[i]).0 <= c < runs[i].1;
    let last = runs.len() - 1;
    if k < last {
        assert(runs[k].1 + 4 <= runs[last].0);
        assert(runs[last].0 < runs[last].1 <= width);
    }
}

/// Where the last run is the last column alone, the runs before it are the
/// runs of the row without that column, and end four cells or more before it.
proof fn lemma_cover_without_single_cell_run(
    front: Seq<char>,
    back: Seq<char>,
    width: int,
    runs: Seq<(usize, usize)>,
)
    requires
        0 < width,
        is_run_cover(front, back, width, runs),
        runs.len() > 0,
        runs.last() == ((width - 1) as usize, width as usize),
        width <= usize::MAX,
    ensures
        is_run_cover(front, back, width - 1, runs.drop_last()),
        runs.len() > 1 ==> runs[runs.len() - 2].1 + 4 <= width - 1,
{
    let last = runs.len() - 1;
    let prev = runs.drop_last();
    assert forall|i: int| 0 <= i < prev.len() implies {
        &&& 0 <= (#[trigger] prev[i]).0 < prev[i].1 <= width - 1
        &&& changed(front, back, prev[i].0 as int)
        &&& changed(front, back, prev[i].1 - 1)
    } by {
        assert(prev[i] == runs[i]);
        assert(runs[i].1 + 4 <= runs[last].0);
    }
    assert forall|i: int, j: int| 0 <= i < j < prev.len() implies (#[trigger] prev[i]).1 + 4 <= (
    #[trigger] prev[j]).0 by {
        assert(prev[i] == runs[i] && prev[j] == runs[j]);
    }
    assert forall|i: int, x: int|
        0 <= i < prev.len() && (#[trigger] prev[i]).0 <= x && x + 3
            < prev[i].1 implies #[trigger] window_has_change(front, back, x) by {
        assert(prev[i] == runs[i]);
    }
    assert forall|x: int|
        0 <= x < width - 1 && changed(front, back, x) implies #[trigger] in_some_run(prev, x) by {
        assert(in_some_run(runs, x));
        let i = choose|i: int| 0 <= i < runs.len() && (#[trigger] runs[i]).0 <= x < runs[i].1;
        assert(i != last);
        assert(prev[i].0 <= x < prev[i].1);
    }
    if runs.len() > 1 {
        assert(runs[last - 1].1 + 4 <= runs[last].0);
    }
}

/// The changed cell nearest to the left of column `c`, looking back four cells.
spec fn nearest_changed_before(front: Seq<char>, back: Seq<char>, s: int, c: int) -> int {
    if changed(front, back, c - 1) {
        c - 1
    } else if c - 2 >= s && changed(front, back, c - 2) {
        c - 2
    } else if c - 3 >= s && changed(front, back, c - 3) {
        c - 3
    } else {
        c - 4
    }
}

/// Where the last run is longer than one cell, cutting it back to the
/// changed cell before the last column gives the runs of the row without
/// that column.
proof fn lemma_cover_with_shortened_run(
    front: Seq<char>,
    back: Seq<char>,
    width: int,
    runs: Seq<(usize, usize)>,
)
    requires
        0 < width <= usize::MAX,
        is_run_cover(front, back, width, runs),
        runs.len() > 0,
        runs.last().1 == width,
        runs.last().0 < width - 1,
    ensures
        ({
            let s = runs.last().0 as int;
            let p = nearest_changed_before(front, back, s, width - 1);
            &&& s <= p < width - 1
            &&& width - 1 - (p + 1) <= 3
            &&& is_run_cover(
                front,
                back,
                width - 1,
                runs.drop_last().push((s as usize, (p + 1) as usize)),
            )
        }),
{
    let c = width - 1;
    let last = runs.len() - 1;
    let s = runs[last].0 as int;
    let p = nearest_changed_before(front, back, s, c);
    assert(s <= p && changed(front, back, p)) by {
        assert(changed(front, back, s));
        if s <= c - 4 {
            assert(runs[last].0 <= c - 4 && c - 4 + 3 < runs[last].1);
            assert(window_has_change(front, back, c - 4));
        }
    }
    assert(forall|x: int| p < x < c ==> !changed(front, back, x));
    let shorter = (s as usize, (p + 1) as usize);
    let prev = runs.drop_last().push(shorter);
    assert(prev.len() == runs.len());
    assert(prev[last] == shorter);
    assert forall|i: int| 0 <= i < last implies prev[i] == runs[i] by {}
    assert forall|i: int| 0 <= i < prev.len() implies {
        &&& 0 <= (#[trigger] prev[i]).0 < prev[i].1 <= width - 1
        &&& changed(front, back, prev[i].0 as int)
        &&& changed(front, back, prev[i].1 - 1)
    } by {
        if i < last {
            assert(prev[i] == runs[i]);
            assert(runs[i].1 + 4 <= runs[last].0);
        }
    }
    assert forall|i: int, j: int| 0 <= i < j < prev.len() implies (#[trigger] prev[i]).1 + 4 <= (
    #[trigger] prev[j]).0 by {
        assert(prev[i] == runs[i]);
        assert(runs[i].1 + 4 <= runs[j].0);
    }
    assert forall|i: int, x: int|
        0 <= i < prev.len() && (#[trigger] prev[i]).0 <= x && x + 3
            < prev[i].1 implies #[trigger] window_has_change(front, back, x) by {
        assert(runs[i].0 <= x && x + 3 < runs[i].1);
    }
    assert forall|x: int|
        0 <= x < width - 1 && changed(front, back, x) implies #[trigger] in_some_run(prev, x) by {
        assert(in_some_run(runs, x));
        let i = choose|i: int| 0 <= i < runs.len() && (#[trigger] runs[i]).0 <= x < runs[i].1;
        assert(prev[i].0 <= x < prev[i].1);
    }
}

/// A row has one set of runs only: whatever meets the four conditions is
/// the list built from left to right.
pub proof fn lemma_run_cover_unique(
    front: Seq<char>,
    back: Seq<char>,
    width: int,
    runs: Seq<(usize, usize)>,
)
    requires
        0 <= width <= usize::MAX,
        is_run_cover(front, back, width, runs),
    ensures
        runs == merged_runs(front, back, width),
    decreases width,
{
    if width == 0 {
        if runs.len() > 0 {
            assert(runs[0].0 < runs[0].1);
        }
        assert(runs =~= merged_runs(front, back, width));
    } else {
        let c = width - 1;
        if !changed(front, back, c) {
            lemma_cover_without_unchanged_cell(front, back, width, runs);
            lemma_run_cover_unique(front, back, width - 1, runs);
        } else {
            lemma_last_run_ends_row(front, back, width, runs);
            let last = runs.len() - 1;
            let s = runs[last].0 as int;
            assert(0 <= runs[last].0 < runs[last].1);
            if s == c {
                let prev = runs.drop_last();
                lemma_cover_without_single_cell_run(front, back, width, runs);
                lemma_run_cover_unique(front, back, width - 1, prev);
                if prev.len() > 0 {
                    assert(prev.last() == runs[last - 1]);
                }
                assert(runs =~= prev.push((c as usize, (c + 1) as usize)));
            } else {
                let p = nearest_changed_before(front, back, s, c);
                let prev = runs.drop_last().push((s as usize, (p + 1) as usize));
                lemma_cover_with_shortened_run(front, back, width, runs);
                lemma_run_cover_unique(front, back, width - 1, prev);
                assert(prev.drop_last() =~= runs.drop_last());
                assert(prev.last() == (s as usize, (p + 1) as usize));
                assert(runs =~= prev.drop_last().push((prev.last().0, (c + 1) as usize)));
            }
        }
    }
}

/// Finds the runs of changed cells in row `y`, merging runs that lie at most
/// three unchanged cells apart. Each run is given as first column and the
/// column behind its last.
pub fn find_contiguous_changes(
    front_buffer: &[Vec<char>],
    back_buffer: &[Vec<char>],
    y: usize,
    width: usize,
) -> (changes: Vec<(usize, usize)>)
    requires
        y < front_buffer@.len(),
        y < back_buffer@.len(),
        width <= front_buffer@[y as int]@.len(),
        width <= back_buffer@[y as int]@.len(),
    ensures
        changes@ == merged_runs(front_buffer@[y as int]@, back_buffer@[y as int]@, width as int),
        is_run_cover(
            front_buffer@[y as int]@,
            back_buffer@[y as int]@,
            width as int,
            changes@,
        ),
{
    let mut changes: Vec<(usize, usize)> = Vec::new();
    let ghost front = front_buffer@[y as int]@;
    let ghost back = back_buffer@[y as int]@;
    let mut x: usize = 0;
    while x < width
        invariant
            x <= width,
            y < front_buffer@.len(),
            y < back_buffer@.len(),
            front == front_buffer@[y as int]@,
            back == back_buffer@[y as int]@,
            width <= front.len(),
            width <= back.len(),
            changes@ == merged_runs(front, back, x as int),
            changes@.len() > 0 ==> changes@.last().1 <= x,
        decreases width - x,
    {
        if front_buffer[y][x] != back_buffer[y][x] {
            let n: usize = changes.len();
            if n > 0 && x - changes[n - 1].1 <= MERGE_GAP {
                let first: usize = changes[n - 1].0;
                let ghost prev = changes@;
                changes.set(n - 1, (first, x + 1));
                assert(changes@ =~= prev.drop_last().push((first, (x + 1) as usize)));
            } else {
                changes.push((x, x + 1));
            }
        }
        x += 1;
    }
    proof {
        lemma_merged_runs_cover(front, back, width as int);
    }
    changes
}

/// The rows of a buffer as plain text.
pub open spec fn grid(buffer: Seq<Vec<char>>) -> Seq<Seq<char>> {
    buffer.map_values(|row: Vec<char>| row@)
}

/// A buffer of `height` rows of `width` cells each.
pub open spec fn grid_wf(cells: Seq<Seq<char>>, width: int, height: int) -> bool {
    &&& cells.len() == height
    &&& forall|y: int| 0 <= y < height ==> (#[trigger] cells[y]).len() == width
}

/// A buffer of `height` rows of `width` cells each.
pub open spec fn buffer_wf(buffer: Seq<Vec<char>>, width: int, height: int) -> bool {
    &&& buffer.len() == height
    &&& forall|y: int| 0 <= y < height ==> (#[trigger] buffer[y])@.len() == width
}

/// A buffer that holds nothing but spaces.
pub open spec fn all_blank(cells: Seq<Seq<char>>) -> bool {
    forall|y: int, x: int| 0 <= y < cells.len() && 0 <= x < cells[y].len() ==> cells[y][x] == ' '
}

/// The empty display: every cell a space.
pub open spec fn blank_grid(width: int, height: int) -> Seq<Seq<char>> {
    Seq::new(height as nat, |y: int| Seq::new(width as nat, |x: int| ' '))
}

/// The buffer after `text` was written into row `y` from column `x` on.
/// What would fall behind the last column is dropped; a position outside the
/// display changes nothing.
pub open spec fn written(cells: Seq<Seq<char>>, width: int, x: int, y: int, text: Seq<char>) -> Seq<
    Seq<char>,
> {
    if 0 <= y < cells.len() && 0 <= x < width {
        cells.update(
            y,
            Seq::new(
                cells[y].len(),
                |c: int|
                    if x <= c < x + text.len() && c < width {
                        text[c - x]
                    } else {
                        cells[y][c]
                    },
            ),
        )
    } else {
        cells
    }
}

/// The writes for one row: one per run, carrying the run's cells as they
/// stand in the back buffer.
pub open spec fn row_writes(front: Seq<char>, back: Seq<char>, y: int, width: int) -> Seq<
    MessageView,
> {
    merged_runs(front, back, width).map_values(
        |run: (usize, usize)|
            MessageView::LcdWrite {
                x: run.0 as int,
                y,
                text: back.subrange(run.0 as int, run.1 as int),
            },
    )
}

/// The writes for the first `rows` rows, from the top.
pub open spec fn rows_writes(
    front: Seq<Seq<char>>,
    back: Seq<Seq<char>>,
    width: int,
    rows: int,
) -> Seq<MessageView>
    decreases rows,
{
    if rows <= 0 {
        Seq::empty()
    } else {
        rows_writes(front, back, width, rows - 1) + row_writes(
            front[rows - 1],
            back[rows - 1],
            rows - 1,
            width,
        )
    }
}

/// What a commit sends: one clear if the back buffer holds nothing but
/// spaces, else the writes of every row.
pub open spec fn commit_messages(front: Seq<Seq<char>>, back: Seq<Seq<char>>, width: int) -> Seq<
    MessageView,
> {
    if all_blank(back) {
        seq![MessageView::LcdClear]
    } else {
        rows_writes(front, back, width, back.len() as int)
    }
}

/// Tests whether a buffer has `height` rows of `width` cells each.
pub fn buffer_is_valid(buffer: &Vec<Vec<char>>, width: usize, height: usize) -> (valid: bool)
    ensures
        valid == buffer_wf(buffer@, width as int, height as int),
{
    if buffer.len() != height {
        return false;
    }
    let mut y: usize = 0;
    while y < height
        invariant
            y <= height,
            buffer@.len() == height,
            forall|r: int| 0 <= r < y ==> (#[trigger] buffer@[r])@.len() == width,
        decreases height - y,
    {
        if buffer[y].len() != width {
            return false;
        }
        y += 1;
    }
    true
}

/// A buffer of spaces.
pub fn blank_buffer(width: usize, height: usize) -> (buffer: Vec<Vec<char>>)
    ensures
        grid(buffer@) == blank_grid(width as int, height as int),
        buffer_wf(buffer@, width as int, height as int),
        grid_wf(grid(buffer@), width as int, height as int),
{
    let mut buffer: Vec<Vec<char>> = Vec::new();
    let mut y: usize = 0;
    while y < height
        invariant
            y <= height,
            buffer@.len() == y,
            forall|r: int| 0 <= r < y ==> (#[trigger] buffer@[r])@ == Seq::new(width as nat, |x: int| ' '),
        decreases height - y,
    {
        let mut row: Vec<char> = Vec::new();
        let mut x: usize = 0;
        while x < width
            invariant
                x <= width,
                row@.len() == x,
                forall|c: int| 0 <= c < x ==> row@[c] == ' ',
            decreases width - x,
        {
            row.push(' ');
            x += 1;
        }
        assert(row@ =~= Seq::new(width as nat, |x: int| ' '));
        buffer.push(row);
        y += 1;
    }
    assert(grid(buffer@) =~= blank_grid(width as int, height as int));
    buffer
}

/// Fills a buffer with spaces.
pub fn clear_buffer(buffer: &mut Vec<Vec<char>>, width: usize, height: usize)
    requires
        buffer_wf(old(buffer)@, width as int, height as int),
    ensures
        buffer_wf(final(buffer)@, width as int, height as int),
        grid(final(buffer)@) == blank_grid(width as int, height as int),
        grid_wf(grid(final(buffer)@), width as int, height as int),
        all_blank(grid(final(buffer)@)),
{
    let mut y: usize = 0;
    while y < height
        invariant
            y <= height,
            buffer@.len() == height,
            forall|r: int| 0 <= r < height ==> (#[trigger] buffer@[r])@.len() == width,
            forall|r: int, c: int| 0 <= r < y && 0 <= c < width ==> #[trigger] buffer@[r]@[c] == ' ',
        decreases height - y,
    {
        let mut x: usize = 0;
        while x < width
            invariant
                x <= width,
                y < height,
                buffer@.len() == height,
                forall|r: int| 0 <= r < height ==> (#[trigger] buffer@[r])@.len() == width,
                forall|r: int, c: int|
                    0 <= r < y && 0 <= c < width ==> #[trigger] buffer@[r]@[c] == ' ',
                forall|c: int| 0 <= c < x ==> buffer@[y as int]@[c] == ' ',
            decreases width - x,
        {
            buffer[y][x] = ' ';
            x += 1;
        }
        y += 1;
    }
    assert(grid(buffer@) =~~= blank_grid(width as int, height as int));
}

/// Whether a buffer holds nothing but spaces.
pub fn is_blank(buffer: &Vec<Vec<char>>) -> (blank: bool)
    ensures
        blank == all_blank(grid(buffer@)),
{
    let mut y: usize = 0;
    while y < buffer.len()
        invariant
            y <= buffer@.len(),
            forall|r: int, c: int|
                0 <= r < y && 0 <= c < grid(buffer@)[r].len() ==> grid(buffer@)[r][c] == ' ',
        decreases buffer@.len() - y,
    {
        let mut x: usize = 0;
        while x < buffer[y].len()
            invariant
                y < buffer@.len(),
                x <= buffer@[y as int]@.len(),
                forall|c: int| 0 <= c < x ==> grid(buffer@)[y as int][c] == ' ',
            decreases buffer@[y as int]@.len() - x,
        {
            if buffer[y][x] != ' ' {
                assert(grid(buffer@)[y as int][x as int] != ' ');
                return false;
            }
            x += 1;
        }
        y += 1;
    }
    true
}

/// Writes `text` into row `y` of a buffer, from column `x` on.
pub fn write_text(buffer: &mut Vec<Vec<char>>, width: usize, x: usize, y: usize, text: &str)
    requires
        buffer_wf(old(buffer)@, width as int, old(buffer)@.len() as int),
    ensures
        grid(final(buffer)@) == written(grid(old(buffer)@), width as int, x as int, y as int, text@),
        buffer_wf(final(buffer)@, width as int, old(buffer)@.len() as int),
{
    if y >= buffer.len() || x >= width {
        return ;
    }
    let chars: Vec<char> = chars_of(text);
    let ghost before = grid(buffer@);
    let mut i: usize = 0;
    while i < chars.len() && i < width - x
        invariant
            x < width,
            y < buffer@.len(),
            i <= chars@.len(),
            i <= width - x,
            chars@ == text@,
            buffer@.len() == before.len(),
            forall|r: int| 0 <= r < buffer@.len() ==> (#[trigger] buffer@[r])@.len() == width,
            forall|r: int| 0 <= r < buffer@.len() && r != y ==> (#[trigger] buffer@[r])@ == before[r],
            forall|c: int|
                0 <= c < width ==> buffer@[y as int]@[c] == (if x <= c < x + i {
                    text@[c - x]
                } else {
                    before[y as int][c]
                }),
        decreases chars@.len() - i,
    {
        buffer[y][x + i] = chars[i];
        i += 1;
    }
    assert(grid(buffer@) =~~= written(before, width as int, x as int, y as int, text@));
}

/// Copies one buffer over another of the same size.
pub fn copy_buffer(target: &mut Vec<Vec<char>>, source: &Vec<Vec<char>>, width: usize, height: usize)
    requires
        buffer_wf(old(target)@, width as int, height as int),
        buffer_wf(source@, width as int, height as int),
    ensures
        buffer_wf(final(target)@, width as int, height as int),
        grid(final(target)@) == grid(source@),
{
    let mut y: usize = 0;
    while y < height
        invariant
            y <= height,
            buffer_wf(target@, width as int, height as int),
            buffer_wf(source@, width as int, height as int),
            forall|r: int| 0 <= r < y ==> (#[trigger] target@[r])@ == source@[r]@,
        decreases height - y,
    {
        let mut x: usize = 0;
        while x < width
            invariant
                x <= width,
                y < height,
                buffer_wf(target@, width as int, height as int),
                buffer_wf(source@, width as int, height as int),
                forall|r: int| 0 <= r < y ==> (#[trigger] target@[r])@ == source@[r]@,
                forall|c: int| 0 <= c < x ==> target@[y as int]@[c] == source@[y as int]@[c],
            decreases width - x,
        {
            target[y][x] = source[y][x];
            x += 1;
        }
        assert(target@[y as int]@ =~= source@[y as int]@);
        y += 1;
    }
    assert(grid(target@) =~= grid(source@));
}

/// Works out what a commit has to send, and makes the front buffer a copy
/// of the back buffer.
pub fn commit_buffers(
    front: &mut Vec<Vec<char>>,
    back: &Vec<Vec<char>>,
    width: usize,
    height: usize,
) -> (messages: Vec<OutgoingMessage>)
    requires
        buffer_wf(old(front)@, width as int, height as int),
        buffer_wf(back@, width as int, height as int),
        width <= 0xFFFF,
        height <= 0xFFFF,
    ensures
        messages_view(messages@) == commit_messages(
            grid(old(front)@),
            grid(back@),
            width as int,
        ),
        all_blank(grid(back@)) ==> messages_view(messages@) == seq![MessageView::LcdClear],
        buffer_wf(final(front)@, width as int, height as int),
        grid(final(front)@) == grid(back@),
{
    let mut messages: Vec<OutgoingMessage> = Vec::new();
    let ghost front0 = grid(front@);
    let ghost back0 = grid(back@);
    if is_blank(back) {
        messages.push(OutgoingMessage::LcdClear);
        copy_buffer(front, back, width, height);
        assert(messages_view(messages@) =~= seq![MessageView::LcdClear]);
        return messages;
    }
    let mut y: usize = 0;
    assert(messages_view(messages@) =~= rows_writes(front0, back0, width as int, 0));
    while y < height
        invariant
            y <= height,
            width <= 0xFFFF,
            height <= 0xFFFF,
            buffer_wf(front@, width as int, height as int),
            buffer_wf(back@, width as int, height as int),
            front0 == grid(front@),
            back0 == grid(back@),
            messages_view(messages@) == rows_writes(front0, back0, width as int, y as int),
        decreases height - y,
    {
        let changes: Vec<(usize, usize)> = find_contiguous_changes(
            front.as_slice(),
            back.as_slice(),
            y,
            width,
        );
        let ghost row = row_writes(front0[y as int], back0[y as int], y as int, width as int);
        let ghost above = rows_writes(front0, back0, width as int, y as int);
        let mut k: usize = 0;
        assert(front0[y as int] == front@[y as int]@);
        assert(back0[y as int] == back@[y as int]@);
        assert(messages_view(messages@) =~= above + row.take(0));
        while k < changes.len()
            invariant
                k <= changes@.len(),
                y < height,
                width <= 0xFFFF,
                height <= 0xFFFF,
                buffer_wf(back@, width as int, height as int),
                back0 == grid(back@),
                changes@ == merged_runs(front0[y as int], back0[y as int], width as int),
                is_run_cover(front0[y as int], back0[y as int], width as int, changes@),
                row == row_writes(front0[y as int], back0[y as int], y as int, width as int),
                messages_view(messages@) == above + row.take(k as int),
            decreases changes@.len() - k,
        {
            let start: usize = changes[k].0;
            let end: usize = changes[k].1;
            assert(0 <= changes@[k as int].0 < changes@[k as int].1 <= width);
            let text: String = string_of(&back[y], start, end);
            let ghost prev = messages@;
            let message = OutgoingMessage::LcdWrite { x: start as u16, y: y as u16, text };
            messages.push(message);
            proof {
                assert(back0[y as int] == back@[y as int]@);
                assert(row[k as int] == message@);
                assert(row.take(k + 1) =~= row.take(k as int).push(message@));
                assert(messages_view(messages@) =~= messages_view(prev).push(message@));
            }
            k += 1;
        }
        assert(row.take(k as int) =~= row);
        y += 1;
    }
    copy_buffer(front, back, width, height);
    assert(back0.len() == height);
    messages
}

/// The first column at or behind `c` that does not hold a space, or the
/// row's length where there is none.
pub open spec fn first_ink_from(row: Seq<char>, c: int) -> int
    decreases row.len() - c,
{
    if c >= row.len() {
        row.len() as int
    } else if row[c] != ' ' {
        c
    } else {
        first_ink_from(row, c + 1)
    }
}

/// The column behind the last one before `e` that does not hold a space, or
/// 0 where there is none.
pub open spec fn last_ink_before(row: Seq<char>, e: int) -> int
    decreases e,
{
    if e <= 0 {
        0
    } else if row[e - 1] != ' ' {
        e
    } else {
        last_ink_before(row, e - 1)
    }
}

/// The write that restores one row: its text from the first cell that is
/// not a space to the last; nothing for a row of spaces.
pub open spec fn refresh_row(row: Seq<char>, y: int) -> Seq<MessageView> {
    let start = first_ink_from(row, 0);
    let end = last_ink_before(row, row.len() as int);
    if start < end {
        seq![MessageView::LcdWrite { x: start, y, text: row.subrange(start, end) }]
    } else {
        Seq::empty()
    }
}

/// The restoring writes for the first `rows` rows.
pub open spec fn refresh_rows(back: Seq<Seq<char>>, rows: int) -> Seq<MessageView>
    decreases rows,
{
    if rows <= 0 {
        Seq::empty()
    } else {
        refresh_rows(back, rows - 1) + refresh_row(back[rows - 1], rows - 1)
    }
}

/// What a full refresh sends: a clear, then every row that holds more than
/// spaces.
pub open spec fn refresh_messages(back: Seq<Seq<char>>) -> Seq<MessageView> {
    seq![MessageView::LcdClear] + refresh_rows(back, back.len() as int)
}

/// The span of a row is bounded by its two ends, begins and ends on a cell
/// that is not a space, and leaves only spaces outside.
pub proof fn lemma_ink_span(row: Seq<char>, c: int, e: int)
    requires
        0 <= c <= row.len(),
        0 <= e <= row.len(),
    ensures
        c <= first_ink_from(row, c) <= row.len(),
        first_ink_from(row, c) < row.len() ==> row[first_ink_from(row, c)] != ' ',
        forall|i: int| c <= i < first_ink_from(row, c) ==> row[i] == ' ',
        0 <= last_ink_before(row, e) <= e,
        last_ink_before(row, e) > 0 ==> row[last_ink_before(row, e) - 1] != ' ',
        forall|i: int| last_ink_before(row, e) <= i < e ==> row[i] == ' ',
    decreases row.len() - c + e,
{
    if c < row.len() && row[c] == ' ' {
        lemma_ink_span(row, c + 1, 0);
    }
    if e > 0 && row[e - 1] == ' ' {
        lemma_ink_span(row, row.len() as int, e - 1);
    }
}

/// Lists what a full refresh sends for a back buffer.
pub fn refresh_buffers(back: &Vec<Vec<char>>, width: usize, height: usize) -> (messages: Vec<
    OutgoingMessage,
>)
    requires
        buffer_wf(back@, width as int, height as int),
        width <= 0xFFFF,
        height <= 0xFFFF,
    ensures
        messages_view(messages@) == refresh_messages(grid(back@)),
{
    let mut messages: Vec<OutgoingMessage> = Vec::new();
    messages.push(OutgoingMessage::LcdClear);
    let ghost back0 = grid(back@);
    let ghost head = seq![MessageView::LcdClear];
    assert(messages_view(messages@) =~= head + refresh_rows(back0, 0));
    let mut y: usize = 0;
    while y < height
        invariant
            y <= height,
            width <= 0xFFFF,
            height <= 0xFFFF,
            buffer_wf(back@, width as int, height as int),
            back0 == grid(back@),
            head == seq![MessageView::LcdClear],
            messages_view(messages@) == head + refresh_rows(back0, y as int),
        decreases height - y,
    {
        let ghost row = back@[y as int]@;
        assert(back0[y as int] == row);
        let mut start: usize = 0;
        while start < width && back[y][start] == ' '
            invariant
                y < height,
                start <= width,
                buffer_wf(back@, width as int, height as int),
                row == back@[y as int]@,
                first_ink_from(row, 0) == first_ink_from(row, start as int),
            decreases width - start,
        {
            start += 1;
        }
        let mut end: usize = width;
        while end > 0 && back[y][end - 1] == ' '
            invariant
                y < height,
                end <= width,
                buffer_wf(back@, width as int, height as int),
                row == back@[y as int]@,
                last_ink_before(row, width as int) == last_ink_before(row, end as int),
            decreases end,
        {
            end -= 1;
        }
        if start < end {
            let text: String = string_of(&back[y], start, end);
            let ghost prev = messages@;
            let message = OutgoingMessage::LcdWrite { x: start as u16, y: y as u16, text };
            messages.push(message);
            proof {
                assert(refresh_row(row, y as int) =~= seq![message@]);
                assert(messages_view(messages@) =~= messages_view(prev).push(message@));
                assert(messages_view(messages@) =~= head + refresh_rows(back0, y + 1));
            }
        } else {
            assert(messages_view(messages@) =~= head + refresh_rows(back0, y + 1));
        }
        y += 1;
    }
    assert(back0.len() == height);
    messages
}

/// A row that shows what it should has no runs.
pub proof fn lemma_unchanged_row_has_no_runs(front: Seq<char>, back: Seq<char>, width: int)
    requires
        0 <= width <= usize::MAX,
        forall|x: int| 0 <= x < width ==> !changed(front, back, x),
    ensures
        merged_runs(front, back, width) == Seq::<(usize, usize)>::empty(),
        row_writes(front, back, 0, width).len() == 0,
{
    let none = Seq::<(usize, usize)>::empty();
    assert(is_run_cover(front, back, width, none));
    lemma_run_cover_unique(front, back, width, none);
}

/// Diff merging, on one row. Where the changed cells are the two ranges
/// `[a, b)` and `[c, d)` and nothing else: if at most three cells lie
/// between them there is one run, from `a` to `d`; if four or more lie
/// between them there are two, one for each range.
pub proof fn lemma_two_ranges(
    front: Seq<char>,
    back: Seq<char>,
    width: int,
    a: int,
    b: int,
    c: int,
    d: int,
)
    requires
        0 <= a < b < c < d <= width <= usize::MAX,
        forall|x: int|
            0 <= x < width ==> (changed(front, back, x) <==> (a <= x < b || c <= x < d)),
    ensures
        c - b <= 3 ==> merged_runs(front, back, width) == seq![(a as usize, d as usize)],
        c - b >= 4 ==> merged_runs(front, back, width) == seq![
            (a as usize, b as usize),
            (c as usize, d as usize),
        ],
{
    if c - b <= 3 {
        let runs = seq![(a as usize, d as usize)];
        assert(runs[0] == (a as usize, d as usize));
        assert forall|i: int, x: int|
            0 <= i < runs.len() && (#[trigger] runs[i]).0 <= x && x + 3
                < runs[i].1 implies #[trigger] window_has_change(front, back, x) by {
            if x >= b {
                assert(changed(front, back, x + 3));
            }
        }
        assert forall|x: int| 0 <= x < width && changed(front, back, x) implies #[trigger] in_some_run(
            runs,
            x,
        ) by {
            assert(runs[0].0 <= x < runs[0].1);
        }
        lemma_run_cover_unique(front, back, width, runs);
    } else {
        let runs = seq![(a as usize, b as usize), (c as usize, d as usize)];
        assert(runs[0] == (a as usize, b as usize));
        assert(runs[1] == (c as usize, d as usize));
        assert forall|x: int| 0 <= x < width && changed(front, back, x) implies #[trigger] in_some_run(
            runs,
            x,
        ) by {
            if x < b {
                assert(runs[0].0 <= x < runs[0].1);
            } else {
                assert(runs[1].0 <= x < runs[1].1);
            }
        }
        lemma_run_cover_unique(front, back, width, runs);
    }
}

/// Diff merging, as messages: for the two ranges of `lemma_two_ranges`, one
/// write covers both where at most three cells lie between them, and
/// carries the cells between them as they stand in the back buffer; with
/// four or more between them there are two writes.
pub proof fn lemma_two_ranges_writes(
    front: Seq<char>,
    back: Seq<char>,
    y: int,
    width: int,
    a: int,
    b: int,
    c: int,
    d: int,
)
    requires
        0 <= a < b < c < d <= width <= usize::MAX,
        forall|x: int|
            0 <= x < width ==> (changed(front, back, x) <==> (a <= x < b || c <= x < d)),
    ensures
        c - b <= 3 ==> row_writes(front, back, y, width) == seq![
            MessageView::LcdWrite { x: a, y, text: back.subrange(a, d) },
        ],
        c - b >= 4 ==> row_writes(front, back, y, width) == seq![
            MessageView::LcdWrite { x: a, y, text: back.subrange(a, b) },
            MessageView::LcdWrite { x: c, y, text: back.subrange(c, d) },
        ],
{
    lemma_two_ranges(front, back, width, a, b, c, d);
    if c - b <= 3 {
        assert(row_writes(front, back, y, width) =~= seq![
            MessageView::LcdWrite { x: a, y, text: back.subrange(a, d) },
        ]);
    } else {
        assert(row_writes(front, back, y, width) =~= seq![
            MessageView::LcdWrite { x: a, y, text: back.subrange(a, b) },
            MessageView::LcdWrite { x: c, y, text: back.subrange(c, d) },
        ]);
    }
}

/// Where only row `y` differs between the buffers, the writes of all rows
/// are the writes of that row.
pub proof fn lemma_only_one_row_differs(
    front: Seq<Seq<char>>,
    back: Seq<Seq<char>>,
    width: int,
    rows: int,
    y: int,
)
    requires
        0 <= width <= usize::MAX,
        0 <= rows <= front.len(),
        front.len() == back.len(),
        forall|r: int| 0 <= r < rows && r != y ==> #[trigger] front[r] == back[r],
    ensures
        rows_writes(front, back, width, rows) == (if 0 <= y < rows {
            row_writes(front[y], back[y], y, width)
        } else {
            Seq::empty()
        }),
    decreases rows,
{
    if rows > 0 {
        lemma_only_one_row_differs(front, back, width, rows - 1, y);
        let r = rows - 1;
        if r != y {
            assert(front[r] == back[r]);
            lemma_unchanged_row_has_no_runs(front[r], back[r], width);
            assert(row_writes(front[r], back[r], r, width) =~= Seq::<MessageView>::empty());
            assert(rows_writes(front, back, width, rows) =~= rows_writes(
                front,
                back,
                width,
                rows - 1,
            ));
        } else {
            assert(rows_writes(front, back, width, rows) =~= row_writes(
                front[y],
                back[y],
                y,
                width,
            ));
        }
    }
}

/// Diff minimality. On a display that shows what its back buffer holds, a
/// text is written at `(x, y)` and committed. If the text fits the row, its
/// first and its last character change their cells, no four cells in a row
/// under it stay as they were, and the display is not left blank, then
/// exactly one write is sent, `LcdWrite(x, y, text)`; and a second commit
/// right after it sends nothing.
pub proof fn lemma_write_then_commit(
    shown: Seq<Seq<char>>,
    width: int,
    height: int,
    x: int,
    y: int,
    text: Seq<char>,
)
    requires
        grid_wf(shown, width, height),
        0 <= width <= usize::MAX,
        0 <= y < height,
        0 <= x,
        text.len() > 0,
        x + text.len() <= width,
        text[0] != shown[y][x],
        text.last() != shown[y][x + text.len() - 1],
        forall|c: int|
            x <= c && c + 3 < x + text.len() ==> #[trigger] window_has_change(
                shown[y],
                written(shown, width, x, y, text)[y],
                c,
            ),
        !all_blank(written(shown, width, x, y, text)),
    ensures
        commit_messages(shown, written(shown, width, x, y, text), width) == seq![
            MessageView::LcdWrite { x, y, text },
        ],
        commit_messages(
            written(shown, width, x, y, text),
            written(shown, width, x, y, text),
            width,
        ) == Seq::<MessageView>::empty(),
{
    let back = written(shown, width, x, y, text);
    let end = x + text.len();
    let runs = seq![(x as usize, end as usize)];
    assert(runs[0] == (x as usize, end as usize));
    assert(back[y][x] == text[0]);
    assert(back[y][end - 1] == text[end - 1 - x]);
    assert forall|c: int| 0 <= c < width && changed(shown[y], back[y], c) implies #[trigger] in_some_run(
        runs,
        c,
    ) by {
        assert(runs[0].0 <= c < runs[0].1);
    }
    assert(is_run_cover(shown[y], back[y], width, runs));
    lemma_run_cover_unique(shown[y], back[y], width, runs);
    assert(back[y].subrange(x, end) =~= text);
    assert(row_writes(shown[y], back[y], y, width) =~= seq![MessageView::LcdWrite { x, y, text }]);
    lemma_only_one_row_differs(shown, back, width, height, y);
    lemma_only_one_row_differs(back, back, width, height, -1);
}

/// A commit sends clears and writes, nothing else.
pub proof fn lemma_commit_sends_no_led(
    front: Seq<Seq<char>>,
    back: Seq<Seq<char>>,
    width: int,
    i: int,
)
    requires
        0 <= i < commit_messages(front, back, width).len(),
    ensures
        commit_messages(front, back, width)[i] is LcdClear || commit_messages(
            front,
            back,
            width,
        )[i] is LcdWrite,
{
    if !all_blank(back) {
        lemma_rows_writes_are_writes(front, back, width, back.len() as int, i);
    }
}

proof fn lemma_rows_writes_are_writes(
    front: Seq<Seq<char>>,
    back: Seq<Seq<char>>,
    width: int,
    rows: int,
    i: int,
)
    requires
        0 <= i < rows_writes(front, back, width, rows).len(),
    ensures
        rows_writes(front, back, width, rows)[i] is LcdWrite,
    decreases rows,
{
    if rows > 0 {
        let above = rows_writes(front, back, width, rows - 1);
        if i < above.len() {
            lemma_rows_writes_are_writes(front, back, width, rows - 1, i);
        }
    }
}

/// A refresh sends clears and writes, nothing else.
pub proof fn lemma_refresh_sends_no_led(back: Seq<Seq<char>>, i: int)
    requires
        0 <= i < refresh_messages(back).len(),
    ensures
        refresh_messages(back)[i] is LcdClear || refresh_messages(back)[i] is LcdWrite,
{
    if i > 0 {
        lemma_refresh_rows_are_writes(back, back.len() as int, i - 1);
    }
}

proof fn lemma_refresh_rows_are_writes(back: Seq<Seq<char>>, rows: int, i: int)
    requires
        0 <= i < refresh_rows(back, rows).len(),
    ensures
        refresh_rows(back, rows)[i] is LcdWrite,
    decreases rows,
{
    if rows > 0 {
        let above = refresh_rows(back, rows - 1);
        if i < above.len() {
            lemma_refresh_rows_are_writes(back, rows - 1, i);
        }
    }
}

} // verus!
