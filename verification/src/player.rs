//! A player: a name and a grid of three columns of three slots.

use crate::score::{
    column_score, dedup_with_count, lemma_column_score_bound, lemma_grouped_score,
    lemma_run_score, lemma_runs_score, lemma_runs_score_prefix, runs_score, sort_column,
};
use vstd::prelude::*;

verus! {

/// The value of an empty slot.
pub const EMPTY: usize = 0;

/// The largest value that a die shows.
pub const DIE_MAX: usize = 6;

/// Whether one of the three slots of `column` is empty.
pub open spec fn has_space(column: Seq<usize>) -> bool {
    column[0] == EMPTY || column[1] == EMPTY || column[2] == EMPTY
}

/// The lowest empty row of a column that has space.
pub open spec fn first_empty_row(column: Seq<usize>) -> int {
    if column[0] == EMPTY {
        0
    } else if column[1] == EMPTY {
        1
    } else {
        2
    }
}

/// Whether the filled slots of `column` stand below its empty ones, without
/// a gap.
pub open spec fn packed(column: Seq<usize>) -> bool {
    &&& column[0] == EMPTY ==> column[1] == EMPTY
    &&& column[1] == EMPTY ==> column[2] == EMPTY
}

/// A column without a roll.
pub open spec fn empty_column() -> Seq<usize> {
    seq![EMPTY, EMPTY, EMPTY]
}

/// The column after `value` went into its lowest empty row.
pub open spec fn placed(column: Seq<usize>, value: usize) -> Seq<usize> {
    column.update(first_empty_row(column), value)
}

/// The row that a roll goes to is empty, and every row below it is filled.
pub proof fn lemma_lowest_empty_row(column: Seq<usize>)
    requires
        column.len() == 3,
        has_space(column),
    ensures
        0 <= first_empty_row(column) < 3,
        column[first_empty_row(column)] == EMPTY,
        forall|r: int| 0 <= r < first_empty_row(column) ==> column[r] != EMPTY,
{
}

/// A roll changes no slot that is filled, and leaves a packed column packed.
pub proof fn lemma_placed_keeps_filled(column: Seq<usize>, value: usize)
    requires
        column.len() == 3,
        has_space(column),
    ensures
        forall|r: int| 0 <= r < 3 && column[r] != EMPTY ==> placed(column, value)[r] == column[r],
        packed(column) && value != EMPTY ==> packed(placed(column, value)),
{
}

/// Three rolls into an empty column fill its rows 0, 1 and 2 in the order in
/// which they come. The column has space until the third, and none after it.
pub proof fn lemma_three_rolls_fill_column(a: usize, b: usize, c: usize)
    requires
        a != EMPTY,
        b != EMPTY,
        c != EMPTY,
    ensures
        placed(seq![EMPTY, EMPTY, EMPTY], a) == seq![a, EMPTY, EMPTY],
        placed(seq![a, EMPTY, EMPTY], b) == seq![a, b, EMPTY],
        placed(seq![a, b, EMPTY], c) == seq![a, b, c],
        has_space(seq![EMPTY, EMPTY, EMPTY]),
        has_space(seq![a, EMPTY, EMPTY]),
        has_space(seq![a, b, EMPTY]),
        !has_space(seq![a, b, c]),
{
    assert(placed(seq![EMPTY, EMPTY, EMPTY], a) =~= seq![a, EMPTY, EMPTY]);
    assert(placed(seq![a, EMPTY, EMPTY], b) =~= seq![a, b, EMPTY]);
    assert(placed(seq![a, b, EMPTY], c) =~= seq![a, b, c]);
}

/// One player's name and grid. `score_arrays[c][r]` is the slot in column `c`
/// and row `r`; an empty slot holds 0.
#[derive(Debug)]
pub struct Player {
    pub name: String,
    pub score_arrays: [[usize; 3]; 3],
}

impl Player {
    /// The three slots of column `col`.
    pub open spec fn column(&self, col: int) -> Seq<usize> {
        self.score_arrays[col]@
    }

    /// The slot in column `col` and row `row`.
    pub open spec fn slot(&self, col: int, row: int) -> usize {
        self.column(col)[row]
    }

    /// Whether every slot of the grid is filled.
    pub open spec fn full(&self) -> bool {
        forall|c: int| 0 <= c < 3 ==> !has_space(#[trigger] self.column(c))
    }

    /// What a grid reached by placing die rolls looks like: every column is
    /// packed from row 0 upward, and no slot holds more than a die shows.
    pub open spec fn well_formed(&self) -> bool {
        forall|c: int|
            0 <= c < 3 ==> {
                &&& packed(#[trigger] self.column(c))
                &&& forall|r: int| 0 <= r < 3 ==> self.column(c)[r] <= DIE_MAX
            }
    }

    /// The sum of the three column scores.
    pub open spec fn total_score(&self) -> int {
        column_score(self.column(0)) + column_score(self.column(1)) + column_score(self.column(2))
    }

    /// A player without a name, with an empty grid.
    pub fn new() -> (player: Self)
        ensures
            player.name@ == Seq::<char>::empty(),
            forall|c: int| 0 <= c < 3 ==> #[trigger] player.column(c) == empty_column(),
            player.well_formed(),
            !player.full(),
    {
        let player = Self { name: String::new(), score_arrays: [[0; 3]; 3] };
        proof {
            assert forall|c: int| 0 <= c < 3 implies #[trigger] player.column(c)
                == empty_column() by {
                assert(player.column(c) =~= empty_column());
            }
            assert(has_space(player.column(0)));
        }
        player
    }

    /// Gives the player the name `name`, in place of any earlier one.
    pub fn add_name(&mut self, name: &str)
        ensures
            final(self).name@ == name@,
            final(self).score_arrays == old(self).score_arrays,
    {
        self.name = name.to_owned();
    }

    /// Places `value` in the lowest empty row of `column`. Where the column is
    /// full, nothing changes and the result is `Err(false)`.
    pub fn add_dice_roll(&mut self, column: usize, value: usize) -> (outcome: Result<(), bool>)
        requires
            column < 3,
        ensures
            outcome is Ok <==> has_space(old(self).column(column as int)),
            outcome is Err ==> outcome == Err::<(), bool>(false) && *final(self) == *old(self),
            outcome is Ok ==> final(self).name == old(self).name,
            outcome is Ok ==> final(self).column(column as int) == placed(
                old(self).column(column as int),
                value,
            ),
            outcome is Ok ==> forall|c: int|
                0 <= c < 3 && c != column ==> #[trigger] final(self).column(c) == old(self).column(
                    c,
                ),
            forall|c: int, r: int|
                0 <= c < 3 && 0 <= r < 3 && old(self).slot(c, r) != EMPTY ==> final(self).slot(c, r)
                    == old(self).slot(c, r),
            old(self).well_formed() && 1 <= value <= DIE_MAX ==> final(self).well_formed(),
    {
        let mut row: usize = 0;
        while row < 3 && self.score_arrays[column][row] != 0
            invariant
                row <= 3,
                column < 3,
                *self == *old(self),
                forall|r: int| 0 <= r < row ==> self.column(column as int)[r] != EMPTY,
            decreases 3 - row,
        {
            row = row + 1;
        }
        if row < 3 {
            self.score_arrays[column][row] = value;
            proof {
                assert(row == first_empty_row(old(self).column(column as int)));
                assert(self.column(column as int) =~= placed(
                    old(self).column(column as int),
                    value,
                ));
                if old(self).well_formed() && 1 <= value <= DIE_MAX {
                    assert forall|c: int| 0 <= c < 3 implies {
                        &&& packed(#[trigger] self.column(c))
                        &&& forall|r: int| 0 <= r < 3 ==> self.column(c)[r] <= DIE_MAX
                    } by {
                        assert(packed(old(self).column(c)));
                        assert(self.slot(c, 0) == self.column(c)[0]);
                        assert(self.slot(c, 1) == self.column(c)[1]);
                        assert(self.slot(c, 2) == self.column(c)[2]);
                    }
                }
            }
            Ok(())
        } else {
            Err(false)
        }
    }

    /// Whether one of the three slots of `col` is empty.
    pub fn col_has_space(&self, col: [usize; 3]) -> (space: bool)
        ensures
            space == has_space(col@),
    {
        col[0] == 0 || col[1] == 0 || col[2] == 0
    }
    /// The columns that still have an empty slot, in ascending order.
    pub fn valid_cols(&self) -> (cols: Vec<usize>)
        ensures
            forall|i: int, j: int| 0 <= i < j < cols.len() ==> cols[i] < cols[j],
            forall|c: usize|
                cols@.contains(c) <==> c < 3 && has_space(#[trigger] self.column(c as int)),
            cols.len() == 0 <==> self.full(),
    {
        let mut cols: Vec<usize> = Vec::new();
        let mut c: usize = 0;
        while c < 3
            invariant
                c <= 3,
                forall|i: int|
                    0 <= i < cols.len() ==> (#[trigger] cols[i]) < c && has_space(
                        self.column(cols[i] as int),
                    ),
                forall|i: int, j: int| 0 <= i < j < cols.len() ==> cols[i] < cols[j],
                forall|x: usize|
                    x < c && has_space(#[trigger] self.column(x as int)) ==> cols@.contains(x),
            decreases 3 - c,
        {
            if self.col_has_space(self.score_arrays[c]) {
                let ghost before = cols@;
                cols.push(c);
                proof {
                    assert(cols[before.len() as int] == c);
                    assert forall|x: usize|
                        x < c + 1 && has_space(#[trigger] self.column(x as int)) implies cols@.contains(
                        x,
                    ) by {
                        if x < c {
                            let i = choose|i: int| 0 <= i < before.len() && before[i] == x;
                            assert(cols[i] == x);
                        }
                    }
                }
            }
            c = c + 1;
        }
        proof {
            if cols.len() == 0 {
                assert forall|k: int| 0 <= k < 3 implies !has_space(#[trigger] self.column(k)) by {
                    if has_space(self.column(k)) {
                        assert(cols@.contains(k as usize));
                    }
                }
            } else {
                assert(has_space(self.column(cols[0] as int)));
            }
        }
        cols
    }

    /// Whether every slot of the grid is filled.
    pub fn array_full(&self) -> (full: bool)
        ensures
            full == self.full(),
    {
        self.valid_cols().len() == 0
    }

    /// The three slots of row `row`, one of each column.
    pub fn pretty_print_score_row(&self, row: usize) -> (slots: [usize; 3])
        requires
            row < 3,
        ensures
            slots@ == seq![
                self.slot(0, row as int),
                self.slot(1, row as int),
                self.slot(2, row as int),
            ],
    {
        let slots = [
            self.score_arrays[0][row],
            self.score_arrays[1][row],
            self.score_arrays[2][row],
        ];
        assert(slots@ =~= seq![
            self.slot(0, row as int),
            self.slot(1, row as int),
            self.slot(2, row as int),
        ]);
        slots
    }

    /// Replaces column `idx` by `new_score_arr`.
    pub fn add_score_array(&mut self, idx: usize, new_score_arr: [usize; 3])
        requires
            idx < 3,
        ensures
            final(self).name == old(self).name,
            final(self).column(idx as int) == new_score_arr@,
            forall|c: int|
                0 <= c < 3 && c != idx ==> #[trigger] final(self).column(c) == old(self).column(c),
    {
        self.score_arrays[idx] = new_score_arr;
    }

    /// The score of one column: its values are sorted, runs of equal values are
    /// merged, and each run adds its value times the square of its length.
    pub fn calculate_column_score(column: [usize; 3]) -> (score: usize)
        requires
            column_score(column@) <= usize::MAX,
        ensures
            score == column_score(column@),
    {
        let sorted_col = sort_column(column);
        let runs = dedup_with_count(&sorted_col);
        proof {
            lemma_grouped_score(column@, sorted_col@, runs@);
            lemma_runs_score(runs@, sorted_col@);
        }
        let mut score: usize = 0;
        let mut i: usize = 0;
        while i < runs.len()
            invariant
                i <= runs.len(),
                runs.len() <= 3,
                forall|k: int| 0 <= k < runs.len() ==> 1 <= (#[trigger] runs[k]).0 <= 3,
                score == runs_score(runs@.take(i as int)),
                runs_score(runs@) <= usize::MAX,
            decreases runs.len() - i,
        {
            let (count, item) = runs[i];
            proof {
                let upto = runs@.take(i + 1);
                assert(upto.drop_last() =~= runs@.take(i as int));
                assert(upto.last() == runs[i as int]);
                lemma_runs_score_prefix(runs@, i + 1);
                lemma_run_score(runs[i as int]);
            }
            let weight: usize = count * count;
            score = score + item * weight;
            i = i + 1;
        }
        proof {
            assert(runs@.take(i as int) =~= runs@);
        }
        score
    }

    /// The scores of the three columns.
    pub fn calculate_all_col_scores(&self) -> (scores: [usize; 3])
        requires
            forall|c: int| 0 <= c < 3 ==> column_score(#[trigger] self.column(c)) <= usize::MAX,
        ensures
            scores@ == seq![
                column_score(self.column(0)) as usize,
                column_score(self.column(1)) as usize,
                column_score(self.column(2)) as usize,
            ],
    {
        proof {
            assert(column_score(self.column(0)) <= usize::MAX);
            assert(column_score(self.column(1)) <= usize::MAX);
            assert(column_score(self.column(2)) <= usize::MAX);
        }
        let scores = [
            Player::calculate_column_score(self.score_arrays[0]),
            Player::calculate_column_score(self.score_arrays[1]),
            Player::calculate_column_score(self.score_arrays[2]),
        ];
        assert(scores@ =~= seq![
            column_score(self.column(0)) as usize,
            column_score(self.column(1)) as usize,
            column_score(self.column(2)) as usize,
        ]);
        scores
    }

    /// The player's score: the sum of the three column scores.
    pub fn calculate_total_score(&self) -> (total: usize)
        requires
            self.total_score() <= usize::MAX,
        ensures
            total == self.total_score(),
    {
        proof {
            self.lemma_scores_nonnegative();
        }
        let scores = self.calculate_all_col_scores();
        scores[0] + scores[1] + scores[2]
    }

    /// No column scores less than 0.
    pub proof fn lemma_scores_nonnegative(&self)
        ensures
            forall|c: int| 0 <= c < 3 ==> 0 <= column_score(#[trigger] self.column(c)),
    {
        assert forall|c: int| 0 <= c < 3 implies 0 <= column_score(#[trigger] self.column(c)) by {
            lemma_column_score_bound(self.column(c), usize::MAX as int);
        }
    }

    /// A grid that holds die values only scores at most 54 in each column and
    /// at most 162 in all, so that every score of it can be computed.
    pub proof fn lemma_score_bound(&self)
        requires
            self.well_formed(),
        ensures
            forall|c: int| 0 <= c < 3 ==> 0 <= column_score(#[trigger] self.column(c)) <= 54,
            0 <= self.total_score() <= 162,
    {
        assert forall|c: int| 0 <= c < 3 implies 0 <= column_score(#[trigger] self.column(c))
            <= 54 by {
            lemma_column_score_bound(self.column(c), 6);
        }
    }
}

} // verus!
