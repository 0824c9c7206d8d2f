use vstd::prelude::*;

verus! {

/// The two states a cell can be in.
#[derive(PartialEq, Eq, Structural, PartialOrd, Ord, Hash, Debug, Clone, Copy)]
pub enum Status {
    Dead,
    Alive,
}

/// One cell of the grid.
#[derive(PartialEq, Eq, Structural, Debug, Clone, Copy)]
pub struct Cell(pub Status);

/// The life rule: a cell with exactly three live neighbours is alive in the
/// next generation, a live cell with exactly two stays alive, and every other
/// cell is dead.
pub open spec fn life_rule(current: Status, live_neighbours: int) -> Status {
    if live_neighbours == 3 || (current == Status::Alive && live_neighbours == 2) {
        Status::Alive
    } else {
        Status::Dead
    }
}

/// The rule read as a table over the possible neighbour counts: dead for every
/// count but two and three, alive for three whatever the current state, and
/// alive for two exactly when the cell is alive now.
pub proof fn lemma_life_rule_table(current: Status, live_neighbours: int)
    requires
        0 <= live_neighbours <= 8,
    ensures
        live_neighbours != 2 && live_neighbours != 3 ==> life_rule(current, live_neighbours)
            == Status::Dead,
        live_neighbours == 3 ==> life_rule(current, live_neighbours) == Status::Alive,
        live_neighbours == 2 ==> (life_rule(current, live_neighbours) == Status::Alive
            <==> current == Status::Alive),
{
}

impl Cell {
    /// Whether the cell is alive.
    pub fn alive(&self) -> (r: bool)
        ensures
            r == (self.0 == Status::Alive),
    {
        self.0 == Status::Alive
    }

    /// Sets the cell's status.
    pub fn update(&mut self, status: Status)
        ensures
            *final(self) == Cell(status),
    {
        self.0 = status
    }

    /// The status this cell has in the next generation, given how many of its
    /// neighbours are alive now.
    pub fn next_status(&self, neighbours_cnt: usize) -> (r: Status)
        ensures
            r == life_rule(self.0, neighbours_cnt as int),
    {
        match (self.0, neighbours_cnt) {
            (_, 3) => Status::Alive,
            (Status::Alive, 2) => Status::Alive,
            _ => Status::Dead,
        }
    }
}

} // verus!
