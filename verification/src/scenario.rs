use vstd::prelude::*;

use crate::direction::{toward_spec, Direction};
use crate::game::{scenario_start, Game, GameView, PlayState};
use crate::grid::{Cell, GridView, MAX_CELL_COUNT, MAX_HEIGHT, MAX_WIDTH};
use crate::level::MAX_RATS;
use crate::position::{offset_spec, Position};
use crate::text::{
    chars_of, debug_quote, debug_quoted, decimal, push_decimal, push_str,
    split, split_chars, string_from_chars, string_of, trim, trim_chars,
};

verus! {

/// The player's move in a scenario fixture.
#[derive(Clone, Copy, Debug, PartialEq, Eq, Structural)]
pub enum Action {
    MoveNorth,
    MoveSouth,
    MoveEast,
    MoveWest,
    Stall,
}

/// The play state a scenario ends in.
#[derive(Clone, Copy, Debug, PartialEq, Eq, Structural)]
pub enum State {
    Playing,
    Won,
    GameOver,
}

/// The grid after the turn, in the fixtures' CSV form, and the play state.
pub struct Outcome {
    pub csv: String,
    pub state: State,
}

/// Why a scenario cannot be run: malformed input, or a mechanic this game
/// does not have.
#[derive(Debug)]
pub enum Error {
    Invalid(String),
    Unsupported(String),
}

/// The mathematical content of an [`Error`].
pub enum ErrorView {
    Invalid(Seq<char>),
    Unsupported(Seq<char>),
}

impl View for Error {
    type V = ErrorView;

    open spec fn view(&self) -> ErrorView {
        match self {
            Error::Invalid(m) => ErrorView::Invalid(m@),
            Error::Unsupported(m) => ErrorView::Unsupported(m@),
        }
    }
}

impl Error {
    /// The human-readable reason.
    pub fn message(&self) -> (m: String)
        ensures
            m@ == match self@ {
                ErrorView::Invalid(t) => t,
                ErrorView::Unsupported(t) => t,
            },
    {
        match self {
            Error::Invalid(m) => m.clone(),
            Error::Unsupported(m) => m.clone(),
        }
    }
}

/// The mathematical content of an [`Outcome`].
pub struct OutcomeView {
    pub csv: Seq<char>,
    pub state: State,
}

impl View for Outcome {
    type V = OutcomeView;

    open spec fn view(&self) -> OutcomeView {
        OutcomeView { csv: self.csv@, state: self.state }
    }
}

pub open spec fn result_view(r: Result<Outcome, Error>) -> Result<OutcomeView, ErrorView> {
    match r {
        Ok(o) => Ok(o@),
        Err(e) => Err(e@),
    }
}

pub open spec fn movement_of(action: Action) -> Option<Direction> {
    match action {
        Action::MoveNorth => Some(Direction::North),
        Action::MoveSouth => Some(Direction::South),
        Action::MoveEast => Some(Direction::East),
        Action::MoveWest => Some(Direction::West),
        Action::Stall => None,
    }
}

pub open spec fn state_of(s: PlayState) -> State {
    match s {
        PlayState::Playing => State::Playing,
        PlayState::Won => State::Won,
        PlayState::GameOver => State::GameOver,
    }
}

/// The cells of a CSV grid: the trimmed text split into lines, each line
/// split at commas, each cell trimmed. Blank text has no rows.
pub open spec fn grid_rows(text: Seq<char>) -> Seq<Seq<Seq<char>>> {
    let t = trim(text);
    if t.len() == 0 {
        Seq::empty()
    } else {
        split(t, '\n').map_values(|line: Seq<char>| line_cells(line))
    }
}

/// The trimmed comma-separated cells of one line.
pub open spec fn line_cells(line: Seq<char>) -> Seq<Seq<char>> {
    split(line, ',').map_values(|cell: Seq<char>| trim(cell))
}

pub open spec fn rows_view(rows: Seq<Vec<Vec<char>>>) -> Seq<Seq<Seq<char>>> {
    rows.map_values(|r: Vec<Vec<char>>| r@.map_values(|c: Vec<char>| c@))
}

/// The player arrows of the fixtures and the direction each shows.
pub open spec fn arrow_direction(symbol: Seq<char>) -> Option<Direction> {
    if symbol == seq!['\u{25B2}'] {
        Some(Direction::North)
    } else if symbol == seq!['\u{25BC}'] {
        Some(Direction::South)
    } else if symbol == seq!['\u{25BA}'] {
        Some(Direction::East)
    } else if symbol == seq!['\u{25C4}'] {
        Some(Direction::West)
    } else {
        None
    }
}

/// What reading the grid's cells has found so far.
pub struct Scan {
    pub cells: Seq<Cell>,
    pub player: Option<(Position, Direction)>,
    pub rats: Seq<Position>,
    pub error: Option<ErrorView>,
}

pub open spec fn scan_start() -> Scan {
    Scan {
        cells: Seq::new(MAX_CELL_COUNT as nat, |i: int| Cell::Empty),
        player: None,
        rats: Seq::empty(),
        error: None,
    }
}

/// Read the cell at column `x` of row `y`; the first error is kept.
pub open spec fn scan_cell(st: Scan, symbol: Seq<char>, x: int, y: int, width: int) -> Scan {
    let position = Position { x: x as i8, y: y as i8 };
    let index = y * width + x;
    if st.error is Some {
        st
    } else if symbol == seq!['.'] {
        Scan { cells: st.cells.update(index, Cell::Empty), ..st }
    } else if symbol == seq!['#'] {
        Scan { cells: st.cells.update(index, Cell::Wall), ..st }
    } else if symbol == seq!['w'] {
        Scan { cells: st.cells.update(index, Cell::Web), ..st }
    } else if symbol == seq!['R'] {
        if st.rats.len() == MAX_RATS {
            Scan { error: Some(ErrorView::Unsupported("more than 13 rats"@)), ..st }
        } else {
            Scan { cells: st.cells.update(index, Cell::Rat), rats: st.rats.push(position), ..st }
        }
    } else if arrow_direction(symbol) is Some {
        if st.player is Some {
            Scan {
                error: Some(ErrorView::Unsupported("multiple players are not supported"@)),
                player: Some((position, arrow_direction(symbol)->0)),
                ..st
            }
        } else {
            Scan {
                cells: st.cells.update(index, Cell::Player),
                player: Some((position, arrow_direction(symbol)->0)),
                ..st
            }
        }
    } else {
        Scan {
            error: Some(
                ErrorView::Unsupported("unsupported cell symbol "@ + debug_quoted(symbol)),
            ),
            ..st
        }
    }
}

/// Read the first `x` cells of row `y`.
pub open spec fn scan_row(st: Scan, row: Seq<Seq<char>>, y: int, width: int, x: int) -> Scan
    decreases x,
{
    if x <= 0 {
        st
    } else {
        scan_cell(scan_row(st, row, y, width, x - 1), row[x - 1], x - 1, y, width)
    }
}

/// Read the first `y` rows.
pub open spec fn scan_rows(rows: Seq<Seq<Seq<char>>>, width: int, y: int) -> Scan
    decreases y,
{
    if y <= 0 {
        scan_start()
    } else {
        scan_row(scan_rows(rows, width, y - 1), rows[y - 1], y - 1, width, width)
    }
}

pub open spec fn too_large_message(width: nat, height: nat) -> Seq<char> {
    "grid "@ + decimal(width) + seq!['x'] + decimal(height) + " exceeds "@ + decimal(
        MAX_WIDTH as nat,
    ) + seq!['x'] + decimal(MAX_HEIGHT as nat)
}

/// The CSV symbol of a cell; the player shows as an arrow.
pub open spec fn cell_symbol(c: Cell, facing: Direction) -> Seq<char> {
    match c {
        Cell::Empty => seq!['.'],
        Cell::Wall => seq!['#'],
        Cell::Rat => seq!['R'],
        Cell::Web => seq!['w'],
        Cell::Player => match facing {
            Direction::North => seq!['\u{25B2}'],
            Direction::South => seq!['\u{25BC}'],
            Direction::East => seq!['\u{25BA}'],
            Direction::West => seq!['\u{25C4}'],
            _ => Seq::empty(),
        },
        Cell::Portal => Seq::empty(),
    }
}

pub open spec fn symbol_at(g: GameView, x: int, y: int) -> Seq<char> {
    cell_symbol(g.grid.cell_at(Position { x: x as i8, y: y as i8 }), g.player_direction)
}

/// The first `x` cells of row `y`, separated by commas.
pub open spec fn csv_row(g: GameView, y: int, x: int) -> Seq<char>
    decreases x,
{
    if x <= 0 {
        Seq::empty()
    } else if x == 1 {
        symbol_at(g, 0, y)
    } else {
        csv_row(g, y, x - 1).push(',') + symbol_at(g, x - 1, y)
    }
}

/// The first `y` rows, each ended by a newline.
pub open spec fn csv_rows(g: GameView, y: int) -> Seq<char>
    decreases y,
{
    if y <= 0 {
        Seq::empty()
    } else {
        csv_rows(g, y - 1) + csv_row(g, y - 1, g.grid.width as int).push('\n')
    }
}

/// The game's grid in the fixtures' CSV form.
pub open spec fn csv_of(g: GameView) -> Seq<char> {
    csv_rows(g, g.grid.height as int)
}

/// The game a scenario grid sets up, or why it cannot be set up. Each rat
/// starts facing the player.
pub open spec fn scenario_of(before: Seq<char>) -> Result<GameView, ErrorView> {
    let rows = grid_rows(before);
    let height = rows.len();
    let width = if height == 0 {
        0
    } else {
        rows[0].len()
    };
    if width == 0 || height == 0 {
        Err(ErrorView::Invalid("empty grid"@))
    } else if width > MAX_WIDTH || height > MAX_HEIGHT {
        Err(ErrorView::Unsupported(too_large_message(width, height)))
    } else if exists|y: int| 0 <= y < height && (#[trigger] rows[y]).len() != width {
        Err(ErrorView::Invalid("grid rows have different widths"@))
    } else {
        let scan = scan_rows(rows, width as int, height as int);
        if scan.error is Some {
            Err(scan.error->0)
        } else if scan.player is None {
            Err(ErrorView::Unsupported("requires one player"@))
        } else {
            let (player, facing) = scan.player->0;
            let start = scenario_start(
                GridView { cells: scan.cells, width: width as u8, height: height as u8 },
                player,
                facing,
                scan.rats,
                Seq::new(
                    scan.rats.len(),
                    |i: int|
                        match toward_spec(scan.rats[i], player) {
                            Some(d) => d,
                            None => Direction::South,
                        },
                ),
                scan.rats.len(),
            );
            Ok(start)
        }
    }
}

/// The grid, in CSV form, and the play state of a game.
pub open spec fn outcome_of(g: GameView) -> OutcomeView {
    OutcomeView { csv: csv_of(g), state: state_of(g.state) }
}

/// What running `action` on the grid `before` gives.
pub open spec fn run_spec(before: Seq<char>, action: Action) -> Result<OutcomeView, ErrorView> {
    match scenario_of(before) {
        Err(e) => Err(e),
        Ok(start) => Ok(outcome_of(start.act(movement_of(action)))),
    }
}

/// Law: a fixture's move is played as the step it names: north, south, east
/// or west moves the player that way, and a stall moves nobody but the rats.
/// The outcome is the grid and state after that one turn on the scenario's
/// game.
pub proof fn lemma_run_plays_named_move(before: Seq<char>)
    ensures
        run_spec(before, Action::MoveNorth) == match scenario_of(before) {
            Ok(g) => Ok::<OutcomeView, ErrorView>(outcome_of(g.act(Some(Direction::North)))),
            Err(e) => Err(e),
        },
        run_spec(before, Action::MoveSouth) == match scenario_of(before) {
            Ok(g) => Ok::<OutcomeView, ErrorView>(outcome_of(g.act(Some(Direction::South)))),
            Err(e) => Err(e),
        },
        run_spec(before, Action::MoveEast) == match scenario_of(before) {
            Ok(g) => Ok::<OutcomeView, ErrorView>(outcome_of(g.act(Some(Direction::East)))),
            Err(e) => Err(e),
        },
        run_spec(before, Action::MoveWest) == match scenario_of(before) {
            Ok(g) => Ok::<OutcomeView, ErrorView>(outcome_of(g.act(Some(Direction::West)))),
            Err(e) => Err(e),
        },
        run_spec(before, Action::Stall) == match scenario_of(before) {
            Ok(g) => Ok::<OutcomeView, ErrorView>(outcome_of(g.act(None))),
            Err(e) => Err(e),
        },
{
}

/// Law: a move north, south, east or west steps the scenario's player one
/// cell that way, facing that way, whenever that cell is not a wall.
pub proof fn lemma_run_moves_player(before: Seq<char>, action: Action, d: Direction)
    requires
        (action == Action::MoveNorth && d == Direction::North) || (action == Action::MoveSouth
            && d == Direction::South) || (action == Action::MoveEast && d == Direction::East) || (
        action == Action::MoveWest && d == Direction::West),
        scenario_of(before) is Ok,
    ensures
        ({
            let g = scenario_of(before)->Ok_0;
            let after = g.act(Some(d));
            &&& run_spec(before, action) == Ok::<OutcomeView, ErrorView>(outcome_of(after))
            &&& after.player_direction == d
            &&& g.grid.cell_at(offset_spec(g.player_position, d)) != Cell::Wall
                ==> after.player_position == offset_spec(g.player_position, d)
        }),
{
    lemma_run_plays_named_move(before);
    crate::game::lemma_player_enters_open_cell(scenario_of(before)->Ok_0, d);
}

/// The cell symbols of the CSV text in `chars`, row by row.
fn parse_rows(chars: &Vec<char>) -> (rows: Vec<Vec<Vec<char>>>)
    ensures
        rows_view(rows@) == grid_rows(chars@),
{
    let t = trim_chars(chars);
    if t.len() == 0 {
        let rows: Vec<Vec<Vec<char>>> = Vec::new();
        assert(rows_view(rows@) =~= grid_rows(chars@));
        return rows;
    }
    let lines = split_chars(&t, '\n');
    let ghost lines_view = lines@.map_values(|p: Vec<char>| p@);
    let mut rows: Vec<Vec<Vec<char>>> = Vec::new();
    let mut i: usize = 0;
    while i < lines.len()
        invariant
            0 <= i <= lines.len(),
            lines_view == lines@.map_values(|p: Vec<char>| p@),
            rows.len() == i,
            forall|k: int|
                0 <= k < i ==> (#[trigger] rows@[k])@.map_values(|c: Vec<char>| c@) == line_cells(
                    lines_view[k],
                ),
        decreases lines.len() - i,
    {
        let pieces = split_chars(&lines[i], ',');
        let ghost pieces_view = pieces@.map_values(|p: Vec<char>| p@);
        let mut row: Vec<Vec<char>> = Vec::new();
        let mut j: usize = 0;
        while j < pieces.len()
            invariant
                0 <= j <= pieces.len(),
                pieces_view == pieces@.map_values(|p: Vec<char>| p@),
                row.len() == j,
                forall|k: int| 0 <= k < j ==> (#[trigger] row@[k])@ == trim(pieces_view[k]),
            decreases pieces.len() - j,
        {
            row.push(trim_chars(&pieces[j]));
            j = j + 1;
        }
        assert(row@.map_values(|c: Vec<char>| c@) =~= line_cells(lines_view[i as int]));
        rows.push(row);
        i = i + 1;
    }
    assert(rows_view(rows@) =~= grid_rows(chars@));
    rows
}

/// The exec counterpart of [`Scan`].
struct ScanOutput {
    cells: Vec<Cell>,
    player: Option<(Position, Direction)>,
    rats: Vec<Position>,
    error: Option<Error>,
}

spec fn error_view(e: Option<Error>) -> Option<ErrorView> {
    match e {
        Some(e) => Some(e@),
        None => None,
    }
}

impl ScanOutput {
    spec fn scan(&self) -> Scan {
        Scan {
            cells: self.cells@,
            player: self.player,
            rats: self.rats@,
            error: error_view(self.error),
        }
    }
}

/// Record the player found at `position`; a second player is not supported.
fn player_cell(
    player: &mut Option<(Position, Direction)>,
    position: Position,
    direction: Direction,
) -> (r: Result<Cell, Error>)
    ensures
        *final(player) == Some((position, direction)),
        *old(player) is None ==> (r matches Ok(c) && c == Cell::Player),
        *old(player) is Some ==> (r matches Err(e) && e@ == ErrorView::Unsupported(
            "multiple players are not supported"@,
        )),
{
    let previous = *player;
    *player = Some((position, direction));
    if previous.is_some() {
        return Err(Error::Unsupported(string_of("multiple players are not supported")));
    }
    Ok(Cell::Player)
}

/// Whether `symbol` is the single character `c`.
fn is_symbol(symbol: &Vec<char>, c: char) -> (b: bool)
    ensures
        b == (symbol@ == seq![c]),
{
    if symbol.len() == 1 && symbol[0] == c {
        assert(symbol@ =~= seq![c]);
        true
    } else {
        false
    }
}

/// The direction shown by a player arrow.
fn arrow(symbol: &Vec<char>) -> (d: Option<Direction>)
    ensures
        d == arrow_direction(symbol@),
{
    if is_symbol(symbol, '\u{25B2}') {
        Some(Direction::North)
    } else if is_symbol(symbol, '\u{25BC}') {
        Some(Direction::South)
    } else if is_symbol(symbol, '\u{25BA}') {
        Some(Direction::East)
    } else if is_symbol(symbol, '\u{25C4}') {
        Some(Direction::West)
    } else {
        None
    }
}

/// Read one cell symbol into the scan.
fn scan_symbol(out: &mut ScanOutput, symbol: &Vec<char>, x: usize, y: usize, width: usize)
    requires
        old(out).error is None,
        old(out).cells.len() == MAX_CELL_COUNT,
        y * width + x < MAX_CELL_COUNT,
        x <= i8::MAX,
        y <= i8::MAX,
    ensures
        final(out).scan() == scan_cell(old(out).scan(), symbol@, x as int, y as int, width as int),
        final(out).cells.len() == MAX_CELL_COUNT,
{
    let position = Position::new(x as i8, y as i8);
    let index = y * width + x;
    let cell = if is_symbol(symbol, '.') {
        Cell::Empty
    } else if is_symbol(symbol, '#') {
        Cell::Wall
    } else if is_symbol(symbol, 'w') {
        Cell::Web
    } else if is_symbol(symbol, 'R') {
        if out.rats.len() == MAX_RATS {
            out.error = Some(Error::Unsupported(string_of("more than 13 rats")));
            return;
        }
        out.rats.push(position);
        Cell::Rat
    } else {
        match arrow(symbol) {
            Some(direction) => match player_cell(&mut out.player, position, direction) {
                Ok(c) => c,
                Err(e) => {
                    out.error = Some(e);
                    return;
                },
            },
            None => {
                let mut message = string_of("unsupported cell symbol ");
                let text = string_from_chars(symbol);
                let quoted = debug_quote(text.as_str());
                push_str(&mut message, quoted.as_str());
                out.error = Some(Error::Unsupported(message));
                return;
            },
        }
    };
    out.cells.set(index, cell);
}

/// Read every cell of the grid, keeping the first error.
fn scan_grid(rows: &Vec<Vec<Vec<char>>>, width: usize, height: usize) -> (out: ScanOutput)
    requires
        height == rows.len(),
        0 < width <= MAX_WIDTH,
        0 < height <= MAX_HEIGHT,
        forall|y: int| 0 <= y < height ==> (#[trigger] rows@[y]).len() == width,
    ensures
        out.scan() == scan_rows(rows_view(rows@), width as int, height as int),
        out.cells.len() == MAX_CELL_COUNT,
{
    let ghost rv = rows_view(rows@);
    let mut cells: Vec<Cell> = Vec::new();
    let mut k: usize = 0;
    while k < MAX_CELL_COUNT
        invariant
            0 <= k <= MAX_CELL_COUNT,
            cells.len() == k,
            forall|i: int| 0 <= i < k ==> cells@[i] == Cell::Empty,
        decreases MAX_CELL_COUNT - k,
    {
        cells.push(Cell::Empty);
        k = k + 1;
    }
    let mut out = ScanOutput { cells, player: None, rats: Vec::new(), error: None };
    assert(out.scan().cells =~= scan_start().cells);
    assert(out.scan().rats =~= scan_start().rats);
    let mut y: usize = 0;
    while y < height
        invariant
            height == rows.len(),
            0 < width <= MAX_WIDTH,
            height <= MAX_HEIGHT,
            0 <= y <= height,
            forall|r: int| 0 <= r < height ==> (#[trigger] rows@[r]).len() == width,
            rv == rows_view(rows@),
            out.cells.len() == MAX_CELL_COUNT,
            out.scan() == scan_rows(rv, width as int, y as int),
        decreases height - y,
    {
        let mut x: usize = 0;
        while x < width
            invariant
                height == rows.len(),
                0 < width <= MAX_WIDTH,
                height <= MAX_HEIGHT,
                0 <= y < height,
                0 <= x <= width,
                rows@[y as int].len() == width,
                rv == rows_view(rows@),
                out.cells.len() == MAX_CELL_COUNT,
                out.scan() == scan_row(
                    scan_rows(rv, width as int, y as int),
                    rv[y as int],
                    y as int,
                    width as int,
                    x as int,
                ),
            decreases width - x,
        {
            assert(rv[y as int][x as int] == rows@[y as int]@[x as int]@);
            if out.error.is_none() {
                proof {
                    assert(y * width + x < MAX_CELL_COUNT) by (nonlinear_arith)
                        requires
                            y < height,
                            height <= 13,
                            x < width,
                            width <= 10,
                    ;
                }
                scan_symbol(&mut out, &rows[y][x], x, y, width);
            }
            x = x + 1;
        }
        y = y + 1;
    }
    out
}

/// A direction along one axis only.
pub open spec fn is_cardinal(d: Direction) -> bool {
    !crate::direction::is_diagonal_spec(d)
}

/// No stored cell is a portal.
pub open spec fn no_portal_cells(g: GridView) -> bool {
    forall|i: int| 0 <= i < g.cells.len() ==> g.cells[i] != Cell::Portal
}

/// A game the fixtures' CSV form can show: no cell inside the grid is a
/// portal, and where the player shows, it faces along an axis.
pub open spec fn printable(g: GameView) -> bool {
    forall|p: Position|
        g.grid.in_bounds(p) ==> #[trigger] g.grid.cell_at(p) != Cell::Portal && (g.grid.cell_at(p)
            == Cell::Player ==> is_cardinal(g.player_direction))
}

/// A game with no portal anywhere, stored or listed, whose player faces along
/// an axis: turns with axis moves keep it so.
pub open spec fn portal_free(g: GameView) -> bool {
    &&& no_portal_cells(g.grid)
    &&& g.portals.len() == 0
    &&& is_cardinal(g.player_direction)
}

/// A portal-free game is printable.
proof fn lemma_portal_free_printable(g: GameView)
    requires
        g.wf(),
        portal_free(g),
    ensures
        printable(g),
{
    assert forall|p: Position| g.grid.in_bounds(p) implies #[trigger] g.grid.cell_at(p)
        != Cell::Portal && (g.grid.cell_at(p) == Cell::Player ==> is_cardinal(g.player_direction)) by {
        crate::grid::lemma_index_injective(g.grid, p, p);
    }
}

/// What a successful scan guarantees about what it found.
pub open spec fn scan_ok(st: Scan, width: int, height: int) -> bool {
    &&& st.cells.len() == MAX_CELL_COUNT
    &&& forall|i: int| 0 <= i < st.cells.len() ==> st.cells[i] != Cell::Portal
    &&& st.rats.len() <= MAX_RATS
    &&& forall|k: int|
        0 <= k < st.rats.len() ==> 0 <= (#[trigger] st.rats[k]).x < width && 0 <= st.rats[k].y
            < height
    &&& st.player matches Some((p, d)) ==> 0 <= p.x < width && 0 <= p.y < height && is_cardinal(d)
}

proof fn lemma_scan_cell_ok(st: Scan, symbol: Seq<char>, x: int, y: int, width: int, height: int)
    requires
        scan_ok(st, width, height),
        0 <= x < width <= MAX_WIDTH,
        0 <= y < height <= MAX_HEIGHT,
    ensures
        scan_ok(scan_cell(st, symbol, x, y, width), width, height),
{
    assert(y * width + x < MAX_CELL_COUNT) by (nonlinear_arith)
        requires
            0 <= x < width <= 10,
            0 <= y < height <= 13,
    ;
    assert(y * width + x >= 0) by (nonlinear_arith)
        requires
            0 <= x < width,
            0 <= y,
    ;
}

proof fn lemma_scan_row_ok(
    st: Scan,
    row: Seq<Seq<char>>,
    y: int,
    width: int,
    height: int,
    x: int,
)
    requires
        scan_ok(st, width, height),
        0 <= x <= width <= MAX_WIDTH,
        0 <= y < height <= MAX_HEIGHT,
    ensures
        scan_ok(scan_row(st, row, y, width, x), width, height),
    decreases x,
{
    if x > 0 {
        lemma_scan_row_ok(st, row, y, width, height, x - 1);
        lemma_scan_cell_ok(scan_row(st, row, y, width, x - 1), row[x - 1], x - 1, y, width, height);
    }
}

proof fn lemma_scan_rows_ok(rows: Seq<Seq<Seq<char>>>, width: int, height: int, y: int)
    requires
        0 < width <= MAX_WIDTH,
        0 <= y <= height <= MAX_HEIGHT,
    ensures
        scan_ok(scan_rows(rows, width, y), width, height),
    decreases y,
{
    if y > 0 {
        lemma_scan_rows_ok(rows, width, height, y - 1);
        lemma_scan_row_ok(scan_rows(rows, width, y - 1), rows[y - 1], y - 1, width, height, width);
    }
}

/// Writing a cell other than a portal keeps the grid free of portals.
proof fn lemma_with_cell_no_portal(g: GridView, p: Position, c: Cell)
    requires
        g.wf(),
        no_portal_cells(g),
        c != Cell::Portal,
    ensures
        no_portal_cells(g.with_cell(p, c)),
        g.with_cell(p, c).wf(),
{
    if g.in_bounds(p) {
        crate::grid::lemma_index_injective(g, p, p);
    }
}

proof fn lemma_rats_from_portal_free(g: GameView, i: int, n: int, player_moved: bool)
    requires
        g.wf(),
        portal_free(g),
    ensures
        portal_free(g.rats_from(i, n, player_moved)),
    decreases n - i,
{
    if i < n {
        let h = g.rat_turn(i, player_moved);
        crate::game::lemma_rat_turn_wf(g, i, player_moved);
        if g.state == PlayState::Playing && 0 <= i < g.rats.len() && g.rats[i].position is Some {
            let r = g.rats[i].position->0;
            match toward_spec(r, g.player_position) {
                Some(face) => {
                    match g.best_pick(r, face, player_moved).direction {
                        Some(d) => {
                            let dest = crate::position::offset_spec(r, d);
                            lemma_with_cell_no_portal(g.grid, r, Cell::Empty);
                            lemma_with_cell_no_portal(
                                g.grid.with_cell(r, Cell::Empty),
                                dest,
                                Cell::Rat,
                            );
                        },
                        None => {},
                    }
                },
                None => {},
            }
        }
        assert(portal_free(h));
        lemma_rats_from_portal_free(h, i + 1, n, player_moved);
    }
}

/// A turn on a portal-free game with an axis move (or a stall) leaves it portal-free.
proof fn lemma_act_portal_free(g: GameView, movement: Option<Direction>)
    requires
        g.wf(),
        portal_free(g),
        movement matches Some(d) ==> is_cardinal(d),
    ensures
        portal_free(g.act(movement)),
{
    if g.state == PlayState::Playing {
        let moved = match movement {
            Some(d) => g.after_player_move(d),
            None => g,
        };
        match movement {
            Some(d) => {
                crate::game::lemma_player_move_wf(g, d);
                let dest = crate::position::offset_spec(g.player_position, d);
                assert(!g.on_portal());
                lemma_with_cell_no_portal(g.grid, g.player_position, Cell::Empty);
                lemma_with_cell_no_portal(
                    g.grid.with_cell(g.player_position, Cell::Empty),
                    dest,
                    Cell::Player,
                );
            },
            None => {},
        }
        assert(portal_free(moved));
        if moved.level_id != crate::level::LevelId::Intro && moved.any_rat_alive() {
            lemma_rats_from_portal_free(moved, 0, moved.rats.len() as int, movement is Some);
        }
    }
}

/// Append the CSV symbol of `cell` to `out`.
fn push_symbol(out: &mut String, cell: Cell, facing: Direction)
    requires
        cell != Cell::Portal,
        cell == Cell::Player ==> is_cardinal(facing),
    ensures
        final(out)@ == old(out)@ + cell_symbol(cell, facing),
{
    let c = match cell {
        Cell::Empty => '.',
        Cell::Wall => '#',
        Cell::Rat => 'R',
        Cell::Web => 'w',
        _ => match facing {
            Direction::North => '\u{25B2}',
            Direction::South => '\u{25BC}',
            Direction::East => '\u{25BA}',
            _ => '\u{25C4}',
        },
    };
    out.push(c);
    assert(out@ =~= old(out)@ + cell_symbol(cell, facing));
}

/// The game's grid in the fixtures' CSV form: rows of comma-separated
/// symbols, each row ended by a newline.
pub fn to_csv(game: &Game) -> (csv: String)
    requires
        printable(game@),
    ensures
        csv@ == csv_of(game@),
{
    proof {
        use_type_invariant(game);
    }
    let ghost g = game@;
    let mut csv = String::new();
    let width = game.width();
    let height = game.height();
    let mut y: u8 = 0;
    assert(csv@ =~= csv_rows(g, 0));
    while y < height
        invariant
            g == game@,
            game@.wf(),
            printable(g),
            width == g.grid.width,
            height == g.grid.height,
            0 <= y <= height,
            csv@ == csv_rows(g, y as int),
        decreases height - y,
    {
        let ghost before = csv@;
        let mut x: u8 = 0;
        assert(csv@ =~= before + csv_row(g, y as int, 0));
        while x < width
            invariant
                g == game@,
                game@.wf(),
                printable(g),
                width == g.grid.width,
                height == g.grid.height,
                0 <= y < height,
                0 <= x <= width,
                csv@ == before + csv_row(g, y as int, x as int),
            decreases width - x,
        {
            if x != 0 {
                csv.push(',');
            }
            let position = Position::new(x as i8, y as i8);
            let cell = game.cell(position);
            proof {
                crate::grid::lemma_index_injective(g.grid, position, position);
                assert(g.grid.cell_at(position) != Cell::Portal);
            }
            push_symbol(&mut csv, cell, game.player_direction());
            assert(csv@ =~= before + csv_row(g, y as int, x + 1));
            x = x + 1;
        }
        csv.push('\n');
        assert(csv@ =~= csv_rows(g, y + 1));
        y = y + 1;
    }
    csv
}

/// Set up the grid `before` (CSV with `.` empty, `#` wall, `w` web, `R` rat
/// and an arrow for the player), play `action`, and report the grid and play
/// state after the turn. Each rat starts facing the player.
pub fn run(before: &str, action: Action) -> (r: Result<Outcome, Error>)
    ensures
        result_view(r) == run_spec(before@, action),
{
    let chars = chars_of(before);
    let rows = parse_rows(&chars);
    let ghost rv = rows_view(rows@);
    let height = rows.len();
    let width = if height == 0 {
        0
    } else {
        rows[0].len()
    };
    assert(rv.len() == height);
    assert(height > 0 ==> rv[0].len() == width);
    if width == 0 || height == 0 {
        return Err(Error::Invalid(string_of("empty grid")));
    }
    if width > MAX_WIDTH || height > MAX_HEIGHT {
        let mut message = string_of("grid ");
        push_decimal(&mut message, width);
        message.push('x');
        push_decimal(&mut message, height);
        push_str(&mut message, " exceeds ");
        push_decimal(&mut message, MAX_WIDTH);
        message.push('x');
        push_decimal(&mut message, MAX_HEIGHT);
        assert(message@ =~= too_large_message(width as nat, height as nat));
        return Err(Error::Unsupported(message));
    }
    let mut y: usize = 0;
    while y < height
        invariant
            height == rows.len(),
            rv == rows_view(rows@),
            rv == grid_rows(before@),
            0 < width <= MAX_WIDTH,
            0 < height <= MAX_HEIGHT,
            rv[0].len() == width,
            0 <= y <= height,
            forall|r: int| 0 <= r < y ==> (#[trigger] rows@[r]).len() == width,
        decreases height - y,
    {
        if rows[y].len() != width {
            assert(rv[y as int].len() != width);
            return Err(Error::Invalid(string_of("grid rows have different widths")));
        }
        y = y + 1;
    }
    assert forall|r: int| 0 <= r < height implies (#[trigger] rv[r]).len() == width by {
        assert(rv[r].len() == rows@[r]@.len());
    }
    let out = scan_grid(&rows, width, height);
    proof {
        lemma_scan_rows_ok(rv, width as int, height as int, height as int);
    }
    let ScanOutput { cells, player, rats, error } = out;
    match error {
        Some(e) => {
            return Err(e);
        },
        None => {},
    }
    let (player_position, player_direction) = match player {
        Some(p) => p,
        None => {
            return Err(Error::Unsupported(string_of("requires one player")));
        },
    };
    let mut directions: Vec<Direction> = Vec::new();
    let mut i: usize = 0;
    while i < rats.len()
        invariant
            0 <= i <= rats.len(),
            rats.len() <= MAX_RATS,
            directions.len() == i,
            0 <= player_position.x < width <= MAX_WIDTH,
            0 <= player_position.y < height <= MAX_HEIGHT,
            forall|k: int|
                0 <= k < rats.len() ==> 0 <= (#[trigger] rats@[k]).x < width && 0
                    <= rats@[k].y < height,
            forall|k: int|
                0 <= k < i ==> #[trigger] directions@[k] == match toward_spec(
                    rats@[k],
                    player_position,
                ) {
                    Some(d) => d,
                    None => Direction::South,
                },
        decreases rats.len() - i,
    {
        let d = match Direction::toward(rats[i], player_position) {
            Some(d) => d,
            None => Direction::South,
        };
        directions.push(d);
        i = i + 1;
    }
    let ghost rat_positions = rats@;
    let ghost rat_directions = directions@;
    let ghost cells_view = cells@;
    proof {
        assert(width * height <= MAX_CELL_COUNT) by (nonlinear_arith)
            requires
                width <= 10,
                height <= 13,
        ;
    }
    let rat_count = rats.len() as u8;
    let mut game = Game::from_scenario(
        width as u8,
        height as u8,
        cells,
        player_position,
        player_direction,
        rats,
        directions,
        rat_count,
    );
    let movement = match action {
        Action::MoveNorth => Some(Direction::North),
        Action::MoveSouth => Some(Direction::South),
        Action::MoveEast => Some(Direction::East),
        Action::MoveWest => Some(Direction::West),
        Action::Stall => None,
    };
    let ghost start = game@;
    proof {
        assert(portal_free(start));
        lemma_act_portal_free(start, movement);
    }
    game.act(movement);
    proof {
        lemma_portal_free_printable(game@);
    }
    let csv = to_csv(&game);
    let state = match game.state() {
        PlayState::Playing => State::Playing,
        PlayState::Won => State::Won,
        PlayState::GameOver => State::GameOver,
    };
    proof {
        let scan = scan_rows(rv, width as int, height as int);
        assert(scan.cells == cells_view);
        assert(scan.rats == rat_positions);
        assert(rat_directions =~= Seq::new(
            scan.rats.len(),
            |i: int|
                match toward_spec(scan.rats[i], player_position) {
                    Some(d) => d,
                    None => Direction::South,
                },
        ));
    }
    Ok(Outcome { csv, state })
}

} // verus!
