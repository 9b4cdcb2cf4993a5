//! The library screen's view model: a grid of game cards, four to a row, or
//! an empty state when no games are registered.

use vstd::prelude::*;

use crate::game::{Game, GameCard, GameCardView, GameView, spec_card};

verus! {

/// The screen that shows the registered games.
#[derive(Debug, Clone)]
pub struct LibraryPage {
    pub games: Vec<Game>,
}

/// What the library screen renders: with no games an empty-state notice with
/// a way to add a directory, otherwise the rows of the card grid.
#[derive(Debug, Clone)]
pub enum LibraryView {
    EmptyState,
    Grid(Vec<Vec<GameCard>>),
}

/// The card rows lay the games out in order, four cards to a row, the last
/// row holding whatever remains.
pub open spec fn grid_rows_ok(rows: Seq<Seq<GameCardView>>, games: Seq<GameView>) -> bool {
    &&& rows.len() == (games.len() + 3) / 4
    &&& forall|k: int|
        0 <= k < rows.len() ==> #[trigger] rows[k].len() == (if games.len() - 4 * k < 4 {
            games.len() - 4 * k
        } else {
            4
        })
    &&& forall|k: int, j: int|
        0 <= k < rows.len() && 0 <= j < rows[k].len() ==> #[trigger] rows[k][j] == spec_card(
            games[4 * k + j],
        )
}

impl LibraryPage {
    pub fn new(games: Vec<Game>) -> (p: Self)
        ensures
            p.games == games,
    {
        Self { games }
    }

    /// The view model of the library screen: the empty state exactly when no
    /// games are registered, and otherwise the grid of display cards.
    pub fn view(&self) -> (v: LibraryView)
        ensures
            self.games@.len() == 0 ==> v matches LibraryView::EmptyState,
            self.games@.len() > 0 ==> (v matches LibraryView::Grid(rows) && grid_rows_ok(
                rows.deep_view(),
                self.games.deep_view(),
            )),
    {
        if self.games.len() == 0 {
            return LibraryView::EmptyState;
        }
        let ghost games = self.games.deep_view();
        let mut rows: Vec<Vec<GameCard>> = Vec::new();
        let mut i: usize = 0;
        while i < self.games.len()
            invariant
                i <= self.games@.len(),
                games == self.games.deep_view(),
                games.len() == self.games@.len(),
                i % 4 == 0 || i == games.len(),
                rows.deep_view().len() == (i + 3) / 4,
                forall|k: int|
                    0 <= k < rows.deep_view().len() ==> #[trigger] rows.deep_view()[k].len() == (
                    if games.len() - 4 * k < 4 {
                        games.len() - 4 * k
                    } else {
                        4
                    }),
                forall|k: int, j: int|
                    0 <= k < rows.deep_view().len() && 0 <= j < rows.deep_view()[k].len()
                        ==> #[trigger] rows.deep_view()[k][j] == spec_card(games[4 * k + j]),
            decreases self.games@.len() - i,
        {
            let remaining = self.games.len() - i;
            let m = if remaining < 4 {
                remaining
            } else {
                4
            };
            let end = i + m;
            let mut cards: Vec<GameCard> = Vec::new();
            let mut j: usize = 0;
            while j < m
                invariant
                    end == i + m,
                    end <= self.games@.len(),
                    j <= m,
                    games == self.games.deep_view(),
                    games.len() == self.games@.len(),
                    cards.deep_view().len() == j,
                    forall|q: int|
                        0 <= q < j ==> #[trigger] cards.deep_view()[q] == spec_card(
                            games[i + q],
                        ),
                decreases m - j,
            {
                let k = i + j;
                let card = self.games[k].build_display_card();
                let ghost old_cards = cards.deep_view();
                cards.push(card);
                proof {
                    assert(cards.deep_view() =~= old_cards.push(card@));
                }
                j = j + 1;
            }
            let ghost old_rows = rows.deep_view();
            rows.push(cards);
            proof {
                assert(rows.deep_view() =~= old_rows.push(cards.deep_view()));
            }
            i = i + m;
        }
        LibraryView::Grid(rows)
    }
}

} // verus!
