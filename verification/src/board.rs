//! Compact realm geometry shared by authoritative actions and transitions.
//!
//! The realm has five files (A-E) and four ranks (1-4). A cell is stored as
//! its file-major index `file * 4 + rank`.

use vstd::prelude::*;

use crate::text::{push_char, str_chars};

verus! {

/// Number of ranks in one file.
pub const RANK_COUNT: u8 = 4;

/// Highest zero-based file index (file E).
pub const LAST_FILE: i8 = 4;

/// Highest zero-based rank index (rank 4).
pub const LAST_RANK: i8 = 3;

/// One canonical two-by-two surface footprint in file-major cell order.
pub type SquareArea = [Cell; 4];

/// One of the realm's 20 cells, stored in file-major canonical order.
#[derive(Clone, Copy, Debug, Eq, Hash, Ord, PartialEq, PartialOrd)]
pub struct Cell(u8);

/// Whether `(file, rank)` lies on the realm.
pub open spec fn on_board(file: int, rank: int) -> bool {
    0 <= file <= 4 && 0 <= rank <= 3
}

/// The file-major index of an on-board coordinate, if any.
pub open spec fn coordinate_index(file: int, rank: int) -> Option<nat> {
    if on_board(file, rank) {
        Some((file * 4 + rank) as nat)
    } else {
        None
    }
}

/// Zero-based file of a cell index.
pub open spec fn index_file(index: nat) -> int {
    (index / 4) as int
}

/// Zero-based rank of a cell index.
pub open spec fn index_rank(index: nat) -> int {
    (index % 4) as int
}

/// The cell index named by an exact uppercase name `A1` through `E4`.
pub open spec fn cell_name_index(name: Seq<char>) -> Option<nat> {
    if name.len() == 2 && 'A' <= name[0] <= 'E' && '1' <= name[1] <= '4' {
        Some(((name[0] as int - 'A' as int) * 4 + (name[1] as int - '1' as int)) as nat)
    } else {
        None
    }
}

/// The two-character name of a cell index.
pub open spec fn index_name(index: nat) -> Seq<char> {
    seq![
        (('A' as int) + index_file(index)) as char,
        (('1' as int) + index_rank(index)) as char,
    ]
}

/// Keeps the present entries of a sequence of optional cells, in order.
pub open spec fn present_cells(s: Seq<Option<nat>>) -> Seq<nat>
    decreases s.len(),
{
    if s.len() == 0 {
        Seq::empty()
    } else {
        let rest = present_cells(s.drop_last());
        match s.last() {
            Some(c) => rest.push(c),
            None => rest,
        }
    }
}

/// Candidate bordering cells: west, south, east, north, then the wrapped rank.
pub open spec fn bordering_candidates(index: nat, connects_top_bottom: bool) -> Seq<Option<nat>> {
    let file = index_file(index);
    let rank = index_rank(index);
    seq![
        coordinate_index(file - 1, rank),
        coordinate_index(file, rank - 1),
        coordinate_index(file + 1, rank),
        coordinate_index(file, rank + 1),
        if connects_top_bottom && rank == 0 {
            coordinate_index(file, 3)
        } else if connects_top_bottom && rank == 3 {
            coordinate_index(file, 0)
        } else {
            None
        },
    ]
}

/// The wrapped rank used by diagonals when the top and bottom ranks connect.
pub open spec fn wrapped_rank(rank: int, connects_top_bottom: bool) -> Option<int> {
    if connects_top_bottom && rank == 0 {
        Some(3)
    } else if connects_top_bottom && rank == 3 {
        Some(0)
    } else {
        None
    }
}

/// Candidate diagonal cells: northwest, southwest, northeast, southeast (north being the
/// next rank), then wrapped west and east.
pub open spec fn diagonal_candidates(index: nat, connects_top_bottom: bool) -> Seq<Option<nat>> {
    let file = index_file(index);
    let rank = index_rank(index);
    let wrapped = wrapped_rank(rank, connects_top_bottom);
    seq![
        coordinate_index(file - 1, rank + 1),
        coordinate_index(file - 1, rank - 1),
        coordinate_index(file + 1, rank + 1),
        coordinate_index(file + 1, rank - 1),
        match wrapped {
            Some(w) => coordinate_index(file - 1, w),
            None => None,
        },
        match wrapped {
            Some(w) => coordinate_index(file + 1, w),
            None => None,
        },
    ]
}

/// The indices of a sequence of cells.
pub open spec fn cell_indices(cells: Seq<Cell>) -> Seq<nat> {
    cells.map_values(|c: Cell| c@)
}

/// The non-wrapping Manhattan distance between two cell indices.
pub open spec fn manhattan(a: nat, b: nat) -> int {
    let df = index_file(a) - index_file(b);
    let dr = index_rank(a) - index_rank(b);
    (if df >= 0 { df } else { -df }) + (if dr >= 0 { dr } else { -dr })
}

/// The index of the cell translated by the displacement from `from` to `to`.
pub open spec fn translated_index(cell: nat, from: nat, to: nat) -> Option<nat> {
    coordinate_index(
        index_file(cell) + index_file(to) - index_file(from),
        index_rank(cell) + index_rank(to) - index_rank(from),
    )
}

/// The four indices of the square area anchored at `(file, rank)`.
pub open spec fn square_at(file: int, rank: int) -> Seq<nat> {
    seq![
        (file * 4 + rank) as nat,
        (file * 4 + rank + 1) as nat,
        ((file + 1) * 4 + rank) as nat,
        ((file + 1) * 4 + rank + 1) as nat,
    ]
}

impl View for Cell {
    type V = nat;

    closed spec fn view(&self) -> nat {
        self.0 as nat
    }
}

impl Cell {
    #[verifier::type_invariant]
    closed spec fn in_realm(self) -> bool {
        self.0 < 20
    }

    /// Returns every cell from A1 through E4 in file-major canonical order.
    pub fn all() -> (r: Vec<Cell>)
        ensures
            r@.len() == 20,
            forall|i: int| 0 <= i < 20 ==> #[trigger] r@[i]@ == i,
    {
        let mut out: Vec<Cell> = Vec::new();
        let mut i: u8 = 0;
        while i < 20
            invariant
                i <= 20,
                out@.len() == i,
                forall|j: int| 0 <= j < i ==> #[trigger] out@[j]@ == j,
            decreases 20 - i,
        {
            out.push(Cell(i));
            i = i + 1;
        }
        out
    }

    /// Returns every in-bounds two-by-two area, ordered by its file-major anchor.
    pub fn square_areas() -> (r: Vec<SquareArea>)
        ensures
            r@.len() == 12,
            forall|k: int|
                0 <= k < 12 ==> cell_indices((#[trigger] r@[k])@) == square_at(k / 3, k % 3),
    {
        let mut out: Vec<SquareArea> = Vec::new();
        let mut file: u8 = 0;
        while file < 4
            invariant
                file <= 4,
                out@.len() == file * 3,
                forall|k: int|
                    0 <= k < out@.len() ==> cell_indices((#[trigger] out@[k])@) == square_at(
                        k / 3,
                        k % 3,
                    ),
            decreases 4 - file,
        {
            let mut rank: u8 = 0;
            while rank < 3
                invariant
                    file < 4,
                    rank <= 3,
                    out@.len() == file * 3 + rank,
                    forall|k: int|
                        0 <= k < out@.len() ==> cell_indices((#[trigger] out@[k])@) == square_at(
                            k / 3,
                            k % 3,
                        ),
                decreases 3 - rank,
            {
                let base: u8 = file * 4 + rank;
                let area: SquareArea = [Cell(base), Cell(base + 1), Cell(base + 4), Cell(base + 5)];
                let ghost k: int = out@.len() as int;
                assert(k / 3 == file as int && k % 3 == rank as int);
                assert(cell_indices(area@) =~= square_at(file as int, rank as int));
                out.push(area);
                rank = rank + 1;
            }
            file = file + 1;
        }
        out
    }

    /// Parses an exact uppercase cell name from A1 through E4.
    pub fn parse(value: &str) -> (r: Result<Cell, CellParseError>)
        ensures
            r is Ok <==> cell_name_index(value@) is Some,
            r matches Ok(c) ==> Some(c@) == cell_name_index(value@),
    {
        let chars = str_chars(value);
        if chars.len() != 2 {
            return Err(CellParseError);
        }
        let file = chars[0];
        let rank = chars[1];
        if !('A' <= file && file <= 'E' && '1' <= rank && rank <= '4') {
            return Err(CellParseError);
        }
        let f: u8 = (file as u32 - 'A' as u32) as u8;
        let k: u8 = (rank as u32 - '1' as u32) as u8;
        Ok(Cell(f * RANK_COUNT + k))
    }

    /// Returns the zero-based file-major index used by compact board arrays.
    pub fn index(self) -> (r: usize)
        ensures
            r == self@,
            r < 20,
    {
        proof {
            use_type_invariant(&self);
        }
        self.0 as usize
    }

    /// Zero-based file.
    pub(crate) fn file_index(self) -> (r: i8)
        ensures
            r == index_file(self@),
            0 <= r <= 4,
    {
        self.file()
    }

    /// Zero-based rank.
    pub(crate) fn rank_index(self) -> (r: i8)
        ensures
            r == index_rank(self@),
            0 <= r <= 3,
    {
        self.rank()
    }

    /// Translates this cell by the displacement between two anchors.
    pub(crate) fn translated(self, from: Cell, to: Cell) -> (r: Option<Cell>)
        ensures
            r matches Some(c) ==> Some(c@) == translated_index(self@, from@, to@),
            r is None ==> translated_index(self@, from@, to@) is None,
    {
        Self::from_coordinates(
            self.file() + to.file() - from.file(),
            self.rank() + to.rank() - from.rank(),
        )
    }

    /// Returns bordering cells in west, south, east, north order.
    ///
    /// A top-bottom connection appends the opposite rank after ordinary borders.
    pub fn bordering(self, connects_top_bottom: bool) -> (r: Vec<Cell>)
        ensures
            cell_indices(r@) == present_cells(bordering_candidates(self@, connects_top_bottom)),
    {
        let file = self.file();
        let rank = self.rank();
        let candidates: [Option<Cell>; 5] = [
            Self::from_coordinates(file - 1, rank),
            Self::from_coordinates(file, rank - 1),
            Self::from_coordinates(file + 1, rank),
            Self::from_coordinates(file, rank + 1),
            if connects_top_bottom && rank == 0 {
                Self::from_coordinates(file, LAST_RANK)
            } else if connects_top_bottom && rank == LAST_RANK {
                Self::from_coordinates(file, 0)
            } else {
                None
            },
        ];
        assert(option_indices(candidates@) =~= bordering_candidates(self@, connects_top_bottom));
        flatten_cells(&candidates)
    }

    /// Returns diagonal cells in northwest, southwest, northeast, southeast order.
    ///
    /// A top-bottom connection appends wrapped west and east diagonals.
    pub fn diagonals(self, connects_top_bottom: bool) -> (r: Vec<Cell>)
        ensures
            cell_indices(r@) == present_cells(diagonal_candidates(self@, connects_top_bottom)),
    {
        let file = self.file();
        let rank = self.rank();
        let wrapped: Option<i8> = if connects_top_bottom && rank == 0 {
            Some(LAST_RANK)
        } else if connects_top_bottom && rank == LAST_RANK {
            Some(0)
        } else {
            None
        };
        let west_wrap = match wrapped {
            Some(w) => Self::from_coordinates(file - 1, w),
            None => None,
        };
        let east_wrap = match wrapped {
            Some(w) => Self::from_coordinates(file + 1, w),
            None => None,
        };
        let candidates: [Option<Cell>; 6] = [
            Self::from_coordinates(file - 1, rank + 1),
            Self::from_coordinates(file - 1, rank - 1),
            Self::from_coordinates(file + 1, rank + 1),
            Self::from_coordinates(file + 1, rank - 1),
            west_wrap,
            east_wrap,
        ];
        assert(option_indices(candidates@) =~= diagonal_candidates(self@, connects_top_bottom));
        flatten_cells(&candidates)
    }

    /// Returns the non-wrapping Manhattan distance between two cells.
    pub fn manhattan_distance(self, other: Cell) -> (r: u8)
        ensures
            r == manhattan(self@, other@),
    {
        let df: i8 = self.file() - other.file();
        let dr: i8 = self.rank() - other.rank();
        let af: u8 = if df >= 0 { df as u8 } else { (-df) as u8 };
        let ar: u8 = if dr >= 0 { dr as u8 } else { (-dr) as u8 };
        af + ar
    }

    /// Returns the cell's two-character name, such as `B3`.
    pub fn name(self) -> (r: String)
        ensures
            r@ == index_name(self@),
    {
        proof {
            use_type_invariant(&self);
        }
        let file = ('A' as u8 + self.0 / RANK_COUNT) as char;
        let rank = ('1' as u8 + self.0 % RANK_COUNT) as char;
        let mut out = String::new();
        push_char(&mut out, file);
        push_char(&mut out, rank);
        assert(out@ =~= index_name(self@));
        out
    }

    fn file(self) -> (r: i8)
        ensures
            r == index_file(self@),
            0 <= r <= 4,
    {
        proof {
            use_type_invariant(&self);
        }
        (self.0 / RANK_COUNT) as i8
    }

    fn rank(self) -> (r: i8)
        ensures
            r == index_rank(self@),
            0 <= r <= 3,
    {
        proof {
            use_type_invariant(&self);
        }
        (self.0 % RANK_COUNT) as i8
    }

    /// The on-board cell at `(file, rank)`, if any.
    pub(crate) fn from_coordinates(file: i8, rank: i8) -> (r: Option<Cell>)
        ensures
            r matches Some(c) ==> Some(c@) == coordinate_index(file as int, rank as int),
            r is None ==> coordinate_index(file as int, rank as int) is None,
    {
        if 0 <= file && file <= LAST_FILE && 0 <= rank && rank <= LAST_RANK {
            Some(Cell((file as u8) * RANK_COUNT + rank as u8))
        } else {
            None
        }
    }
}

/// The optional indices of a sequence of optional cells.
pub open spec fn option_indices(s: Seq<Option<Cell>>) -> Seq<Option<nat>> {
    s.map_values(|o: Option<Cell>| match o {
        Some(c) => Some(c@),
        None => None,
    })
}

fn flatten_cells(candidates: &[Option<Cell>]) -> (r: Vec<Cell>)
    ensures
        cell_indices(r@) == present_cells(option_indices(candidates@)),
{
    let mut out: Vec<Cell> = Vec::new();
    let mut i: usize = 0;
    while i < candidates.len()
        invariant
            i <= candidates@.len(),
            cell_indices(out@) == present_cells(option_indices(candidates@.take(i as int))),
        decreases candidates@.len() - i,
    {
        let ghost before = out@;
        assert(option_indices(candidates@.take(i + 1)).drop_last() =~= option_indices(
            candidates@.take(i as int),
        ));
        match candidates[i] {
            Some(c) => {
                out.push(c);
                assert(cell_indices(out@) =~= cell_indices(before).push(c@));
            },
            None => {},
        }
        i = i + 1;
    }
    assert(candidates@.take(candidates@.len() as int) =~= candidates@);
    out
}

/// Translates a complete square footprint without allocating.
pub fn translated_square(area: SquareArea, from: Cell, to: Cell) -> (r: Option<SquareArea>)
    ensures
        r is Some <==> (forall|i: int|
            0 <= i < 4 ==> #[trigger] translated_index(area@[i]@, from@, to@) is Some),
        r matches Some(out) ==> forall|i: int|
            0 <= i < 4 ==> Some(#[trigger] out@[i]@) == translated_index(area@[i]@, from@, to@),
{
    let a = match area[0].translated(from, to) {
        Some(c) => c,
        None => return None,
    };
    let b = match area[1].translated(from, to) {
        Some(c) => c,
        None => return None,
    };
    let c = match area[2].translated(from, to) {
        Some(c) => c,
        None => return None,
    };
    let d = match area[3].translated(from, to) {
        Some(c) => c,
        None => return None,
    };
    let out: SquareArea = [a, b, c, d];
    assert forall|i: int| 0 <= i < 4 implies Some(#[trigger] out@[i]@) == translated_index(
        area@[i]@,
        from@,
        to@,
    ) by {
        if i == 0 {
        } else if i == 1 {
        } else if i == 2 {
        } else {
        }
    }
    Some(out)
}

/// A string was not an exact realm cell name from A1 through E4.
#[derive(Clone, Copy, Debug, Eq, PartialEq)]
pub struct CellParseError;

impl CellParseError {
    /// Returns the stable explanation for a rejected cell name.
    pub fn message(&self) -> (r: &'static str)
        ensures
            r@ == "cell must be an uppercase name from A1 through E4"@,
    {
        "cell must be an uppercase name from A1 through E4"
    }
}

/// A realm occupancy layer.
#[derive(Clone, Copy, Debug, Eq, Hash, Ord, PartialEq, PartialOrd, Structural)]
pub enum Region {
    /// The normal surface layer.
    Surface,
    /// The burrowed layer.
    Underground,
    /// The submerged layer.
    Underwater,
    /// The Void layer.
    Void,
}

/// A cell and occupancy layer at the JSON boundary.
#[derive(Clone, Copy, Debug, Eq, Hash, Ord, PartialEq, PartialOrd)]
pub struct Location {
    /// Realm cell.
    pub cell: Cell,
    /// Occupancy layer.
    pub region: Region,
}

/// Every cell's name parses back to that cell.
pub proof fn lemma_cell_name_round_trip(index: nat)
    requires
        index < 20,
    ensures
        cell_name_index(index_name(index)) == Some(index),
{
    let name = index_name(index);
    let f = index_file(index);
    let k = index_rank(index);
    assert(0 <= f < 5 && 0 <= k < 4);
    assert(name[0] as int == 'A' as int + f);
    assert(name[1] as int == '1' as int + k);
    assert(index == f * 4 + k);
}

/// A name that parses is the name of the cell it parses to.
pub proof fn lemma_cell_name_unique(name: Seq<char>)
    requires
        cell_name_index(name) is Some,
    ensures
        cell_name_index(name)->0 < 20,
        index_name(cell_name_index(name)->0) == name,
{
    let i = cell_name_index(name)->0;
    let f = name[0] as int - 'A' as int;
    let k = name[1] as int - '1' as int;
    assert(i == f * 4 + k);
    assert(index_file(i) == f && index_rank(i) == k);
    let n = index_name(i);
    assert(n[0] as int == name[0] as int);
    assert(n[1] as int == name[1] as int);
    assert(n =~= name);
}

/// A cell's name is its file letter `A`–`E` and its rank digit `1`–`4`.
pub proof fn lemma_index_name_chars(index: nat)
    requires
        index < 20,
    ensures
        index_name(index).len() == 2,
        index_name(index)[0] as int == 65 + index_file(index),
        index_name(index)[1] as int == 49 + index_rank(index),
        0 <= index_file(index) < 5,
        0 <= index_rank(index) < 4,
{
}

} // verus!
