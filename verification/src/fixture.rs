use vstd::prelude::*;

use crate::scenario::{line_cells, run, run_spec, Action, Error, ErrorView, State};
use crate::text::{
    chars_of, debug_quote, debug_quoted, find, find_chars, join, join_chars, push_chars, push_str,
    split, split_chars, string_from_chars, string_of, trim, trim_chars,
};

verus! {

/// `"key"`: the key in double quotes, as it appears in JSON.
pub open spec fn quoted_key(key: Seq<char>) -> Seq<char> {
    seq!['"'] + key + seq!['"']
}

/// The string value after `"key"` in `json`: the text between the next two
/// double quotes. Escapes are not interpreted.
pub open spec fn json_string_spec(json: Seq<char>, key: Seq<char>) -> Result<Seq<char>, ErrorView> {
    let quoted = quoted_key(key);
    match find(json, quoted) {
        None => Err(ErrorView::Invalid("missing "@ + quoted)),
        Some(start) => {
            let value = json.subrange(start + quoted.len(), json.len() as int);
            match find(value, seq!['"']) {
                None => Err(ErrorView::Invalid("missing value for "@ + quoted)),
                Some(open) => {
                    let rest = value.subrange(open + 1, value.len() as int);
                    match find(rest, seq!['"']) {
                        None => Err(ErrorView::Invalid("unterminated value for "@ + quoted)),
                        Some(close) => Ok(rest.subrange(0, close)),
                    }
                },
            }
        },
    }
}

/// The action a fixture names under `"move"`; fixtures for two players are
/// not supported.
pub open spec fn parse_action_spec(json: Seq<char>) -> Result<Action, ErrorView> {
    if find(json, "\"p1\""@) is Some || find(json, "\"p2\""@) is Some {
        Err(ErrorView::Unsupported("two-player actions are not supported"@))
    } else {
        match json_string_spec(json, "move"@) {
            Err(e) => Err(e),
            Ok(name) => if name == "north"@ {
                Ok(Action::MoveNorth)
            } else if name == "south"@ {
                Ok(Action::MoveSouth)
            } else if name == "east"@ {
                Ok(Action::MoveEast)
            } else if name == "west"@ {
                Ok(Action::MoveWest)
            } else if name == "stall"@ {
                Ok(Action::Stall)
            } else {
                Err(ErrorView::Invalid("unsupported action "@ + debug_quoted(name)))
            },
        }
    }
}

/// The play state a fixture expects under `"state"`.
pub open spec fn parse_state_spec(json: Seq<char>) -> Result<State, ErrorView> {
    match json_string_spec(json, "state"@) {
        Err(e) => Err(e),
        Ok(name) => if name == "playing"@ {
            Ok(State::Playing)
        } else if name == "won"@ {
            Ok(State::Won)
        } else if name == "gameover"@ {
            Ok(State::GameOver)
        } else {
            Err(ErrorView::Invalid("unsupported state "@ + debug_quoted(name)))
        },
    }
}

/// A CSV grid in canonical form: trimmed, lines joined by single newlines,
/// cells trimmed and joined by single commas.
pub open spec fn normalize_csv_spec(csv: Seq<char>) -> Seq<char> {
    join(
        split(trim(csv), '\n').map_values(|line: Seq<char>| join(line_cells(line), ',')),
        '\n',
    )
}

pub open spec fn view_result<T>(r: Result<T, Error>) -> Result<T, ErrorView> {
    match r {
        Ok(v) => Ok(v),
        Err(e) => Err(e@),
    }
}

/// How a fixture fares: it passed, it uses a mechanic this game does not
/// have, or it failed (with the reason).
#[derive(Debug)]
pub enum FixtureVerdict {
    Passed,
    Unsupported(String),
    Failed(String),
}

/// The mathematical content of a [`FixtureVerdict`].
pub enum FixtureVerdictView {
    Passed,
    Unsupported(Seq<char>),
    Failed(Seq<char>),
}

impl View for FixtureVerdict {
    type V = FixtureVerdictView;

    open spec fn view(&self) -> FixtureVerdictView {
        match self {
            FixtureVerdict::Passed => FixtureVerdictView::Passed,
            FixtureVerdict::Unsupported(m) => FixtureVerdictView::Unsupported(m@),
            FixtureVerdict::Failed(m) => FixtureVerdictView::Failed(m@),
        }
    }
}

/// An unsupported mechanic is reported apart; any other error is a failure.
pub open spec fn verdict_of_error(e: ErrorView) -> FixtureVerdictView {
    match e {
        ErrorView::Unsupported(m) => FixtureVerdictView::Unsupported(m),
        ErrorView::Invalid(m) => FixtureVerdictView::Failed(m),
    }
}

/// The name of a play state as the runner prints it.
pub open spec fn state_name(s: State) -> Seq<char> {
    match s {
        State::Playing => "Playing"@,
        State::Won => "Won"@,
        State::GameOver => "GameOver"@,
    }
}

/// The report of a fixture whose outcome differs from the expected one.
pub open spec fn mismatch_message(
    name: Seq<char>,
    expected_state: State,
    expected_csv: Seq<char>,
    actual_state: State,
    actual_csv: Seq<char>,
) -> Seq<char> {
    name + ": expected state "@ + state_name(expected_state) + " and grid\n"@ + expected_csv
        + "\ngot state "@ + state_name(actual_state) + " and grid\n"@ + actual_csv
}

/// The verdict on the fixture `name`: its JSON names the move and the
/// expected state, `before` is the grid before the move and `expected` the
/// grid after it. It passes when the grids agree up to spacing and the
/// states agree.
pub open spec fn judge_spec(
    name: Seq<char>,
    json: Seq<char>,
    before: Seq<char>,
    expected: Seq<char>,
) -> FixtureVerdictView {
    match parse_action_spec(json) {
        Err(e) => verdict_of_error(e),
        Ok(action) => match parse_state_spec(json) {
            Err(e) => verdict_of_error(e),
            Ok(expected_state) => match run_spec(before, action) {
                Err(e) => verdict_of_error(e),
                Ok(o) => {
                    let actual_csv = normalize_csv_spec(o.csv);
                    let expected_csv = normalize_csv_spec(expected);
                    if actual_csv == expected_csv && o.state == expected_state {
                        FixtureVerdictView::Passed
                    } else {
                        FixtureVerdictView::Failed(
                            mismatch_message(
                                name,
                                expected_state,
                                expected_csv,
                                o.state,
                                actual_csv,
                            ),
                        )
                    }
                },
            },
        },
    }
}

/// Law: a fixture passes exactly when its move and expected state can be
/// read, the scenario runs, the state it reaches is the expected one, and
/// the grid it leaves agrees with the expected grid up to spacing. A fixture
/// is reported as unsupported exactly when the first of these steps to fail
/// fails for a mechanic the game does not have; any other failure, a state
/// or grid that differs included, is a failure.
pub proof fn lemma_judge_verdicts(
    name: Seq<char>,
    json: Seq<char>,
    before: Seq<char>,
    expected: Seq<char>,
)
    ensures
        (judge_spec(name, json, before, expected) is Passed) <==> (parse_action_spec(json) is Ok
            && parse_state_spec(json) is Ok && run_spec(before, parse_action_spec(json)->Ok_0) is Ok
            && run_spec(before, parse_action_spec(json)->Ok_0)->Ok_0.state == parse_state_spec(
            json,
        )->Ok_0 && normalize_csv_spec(run_spec(before, parse_action_spec(json)->Ok_0)->Ok_0.csv)
            == normalize_csv_spec(expected)),
        (judge_spec(name, json, before, expected) is Unsupported) <==> ({
            ||| parse_action_spec(json) matches Err(ErrorView::Unsupported(_))
            ||| parse_action_spec(json) is Ok && parse_state_spec(json) matches Err(
                ErrorView::Unsupported(_),
            )
            ||| parse_action_spec(json) is Ok && parse_state_spec(json) is Ok && run_spec(
                before,
                parse_action_spec(json)->Ok_0,
            ) matches Err(ErrorView::Unsupported(_))
        }),
{
}

/// The file name of a fixture's JSON with every trailing `_i.json` removed.
pub open spec fn fixture_name_spec(file: Seq<char>) -> Seq<char>
    decreases file.len(),
    via fixture_name_decreases
{
    let suffix = "_i.json"@;
    if suffix.len() <= file.len() && file.subrange(file.len() - suffix.len(), file.len() as int)
        == suffix {
        fixture_name_spec(file.subrange(0, file.len() - suffix.len()))
    } else {
        file
    }
}

#[via_fn]
proof fn fixture_name_decreases(file: Seq<char>) {
    reveal_strlit("_i.json");
}

/// The characters of `v` from `lo` up to `hi`.
fn slice_chars(v: &Vec<char>, lo: usize, hi: usize) -> (r: Vec<char>)
    requires
        lo <= hi <= v.len(),
    ensures
        r@ == v@.subrange(lo as int, hi as int),
{
    let mut r: Vec<char> = Vec::new();
    let mut i: usize = lo;
    while i < hi
        invariant
            lo <= i <= hi <= v.len(),
            r@ == v@.subrange(lo as int, i as int),
        decreases hi - i,
    {
        r.push(v[i]);
        assert(r@ =~= v@.subrange(lo as int, i + 1));
        i = i + 1;
    }
    r
}

/// Whether `v` holds exactly `text`.
fn chars_equal(v: &Vec<char>, text: &str) -> (b: bool)
    ensures
        b == (v@ == text@),
{
    let t = chars_of(text);
    if v.len() != t.len() {
        return false;
    }
    let mut i: usize = 0;
    while i < v.len()
        invariant
            v.len() == t.len(),
            t@ == text@,
            0 <= i <= v.len(),
            forall|k: int| 0 <= k < i ==> v@[k] == t@[k],
        decreases v.len() - i,
    {
        if v[i] != t[i] {
            assert(v@[i as int] != t@[i as int]);
            return false;
        }
        i = i + 1;
    }
    assert(v@ =~= t@);
    true
}

/// `message` followed by `detail`.
fn message_with(message: &str, detail: &Vec<char>) -> (s: String)
    ensures
        s@ == message@ + detail@,
{
    let mut s = string_of(message);
    push_chars(&mut s, detail);
    s
}

/// `message` followed by the `Debug` rendering of `detail`.
fn message_with_debug(message: &str, detail: &Vec<char>) -> (s: String)
    ensures
        s@ == message@ + debug_quoted(detail@),
{
    let mut s = string_of(message);
    let text = string_from_chars(detail);
    let quoted = debug_quote(text.as_str());
    push_str(&mut s, quoted.as_str());
    s
}

fn json_string_chars(json: &Vec<char>, key: &str) -> (r: Result<Vec<char>, Error>)
    ensures
        match r {
            Ok(v) => json_string_spec(json@, key@) == Ok::<Seq<char>, ErrorView>(v@),
            Err(e) => json_string_spec(json@, key@) == Err::<Seq<char>, ErrorView>(e@),
        },
{
    let key_chars = chars_of(key);
    let mut quoted: Vec<char> = Vec::new();
    quoted.push('"');
    let mut i: usize = 0;
    while i < key_chars.len()
        invariant
            0 <= i <= key_chars.len(),
            quoted@ == seq!['"'] + key_chars@.take(i as int),
        decreases key_chars.len() - i,
    {
        quoted.push(key_chars[i]);
        assert(quoted@ =~= seq!['"'] + key_chars@.take(i + 1));
        i = i + 1;
    }
    quoted.push('"');
    assert(key_chars@.take(key_chars@.len() as int) =~= key_chars@);
    assert(quoted@ =~= quoted_key(key@));
    let start = match find_chars(json, &quoted) {
        Some(s) => s,
        None => {
            return Err(Error::Invalid(message_with("missing ", &quoted)));
        },
    };
    let quoted_len = quoted.len();
    let json_len = json.len();
    assert(start + quoted_len <= json_len);
    let value = slice_chars(json, start + quoted_len, json_len);
    let mut quote_mark: Vec<char> = Vec::new();
    quote_mark.push('"');
    assert(quote_mark@ =~= seq!['"']);
    let open = match find_chars(&value, &quote_mark) {
        Some(o) => o,
        None => {
            return Err(Error::Invalid(message_with("missing value for ", &quoted)));
        },
    };
    let rest = slice_chars(&value, open + 1, value.len());
    let close = match find_chars(&rest, &quote_mark) {
        Some(c) => c,
        None => {
            return Err(Error::Invalid(message_with("unterminated value for ", &quoted)));
        },
    };
    Ok(slice_chars(&rest, 0, close))
}

/// The string value after `"key"` in `json`.
pub fn json_string(json: &str, key: &str) -> (r: Result<String, Error>)
    ensures
        match r {
            Ok(s) => json_string_spec(json@, key@) == Ok::<Seq<char>, ErrorView>(s@),
            Err(e) => json_string_spec(json@, key@) == Err::<Seq<char>, ErrorView>(e@),
        },
{
    let chars = chars_of(json);
    match json_string_chars(&chars, key) {
        Ok(v) => Ok(string_from_chars(&v)),
        Err(e) => Err(e),
    }
}

/// Whether `pattern` occurs in `json`.
fn contains(json: &Vec<char>, pattern: &str) -> (b: bool)
    ensures
        b == find(json@, pattern@) is Some,
{
    let p = chars_of(pattern);
    find_chars(json, &p).is_some()
}

/// The action a fixture's JSON names.
pub fn parse_action(json: &str) -> (r: Result<Action, Error>)
    ensures
        view_result(r) == parse_action_spec(json@),
{
    let chars = chars_of(json);
    if contains(&chars, "\"p1\"") || contains(&chars, "\"p2\"") {
        return Err(Error::Unsupported(string_of("two-player actions are not supported")));
    }
    let name = match json_string_chars(&chars, "move") {
        Ok(v) => v,
        Err(e) => {
            return Err(e);
        },
    };
    if chars_equal(&name, "north") {
        Ok(Action::MoveNorth)
    } else if chars_equal(&name, "south") {
        Ok(Action::MoveSouth)
    } else if chars_equal(&name, "east") {
        Ok(Action::MoveEast)
    } else if chars_equal(&name, "west") {
        Ok(Action::MoveWest)
    } else if chars_equal(&name, "stall") {
        Ok(Action::Stall)
    } else {
        Err(Error::Invalid(message_with_debug("unsupported action ", &name)))
    }
}

/// The play state a fixture's JSON expects.
pub fn parse_state(json: &str) -> (r: Result<State, Error>)
    ensures
        view_result(r) == parse_state_spec(json@),
{
    let chars = chars_of(json);
    let name = match json_string_chars(&chars, "state") {
        Ok(v) => v,
        Err(e) => {
            return Err(e);
        },
    };
    if chars_equal(&name, "playing") {
        Ok(State::Playing)
    } else if chars_equal(&name, "won") {
        Ok(State::Won)
    } else if chars_equal(&name, "gameover") {
        Ok(State::GameOver)
    } else {
        Err(Error::Invalid(message_with_debug("unsupported state ", &name)))
    }
}

/// The canonical form of a CSV grid, for comparing grids written with
/// different spacing.
pub fn normalize_csv(csv: &str) -> (r: String)
    ensures
        r@ == normalize_csv_spec(csv@),
{
    let chars = chars_of(csv);
    let trimmed = trim_chars(&chars);
    let lines = split_chars(&trimmed, '\n');
    let ghost lines_view = lines@.map_values(|p: Vec<char>| p@);
    let mut joined_lines: Vec<Vec<char>> = Vec::new();
    let mut i: usize = 0;
    while i < lines.len()
        invariant
            0 <= i <= lines.len(),
            lines_view == lines@.map_values(|p: Vec<char>| p@),
            joined_lines.len() == i,
            forall|k: int|
                0 <= k < i ==> (#[trigger] joined_lines@[k])@ == join(
                    line_cells(lines_view[k]),
                    ',',
                ),
        decreases lines.len() - i,
    {
        let pieces = split_chars(&lines[i], ',');
        let ghost pieces_view = pieces@.map_values(|p: Vec<char>| p@);
        let mut cells: Vec<Vec<char>> = Vec::new();
        let mut j: usize = 0;
        while j < pieces.len()
            invariant
                0 <= j <= pieces.len(),
                pieces_view == pieces@.map_values(|p: Vec<char>| p@),
                cells.len() == j,
                forall|k: int| 0 <= k < j ==> (#[trigger] cells@[k])@ == trim(pieces_view[k]),
            decreases pieces.len() - j,
        {
            cells.push(trim_chars(&pieces[j]));
            j = j + 1;
        }
        assert(cells@.map_values(|c: Vec<char>| c@) =~= line_cells(lines_view[i as int]));
        let line = join_chars(&cells, ',');
        joined_lines.push(chars_of(line.as_str()));
        i = i + 1;
    }
    assert(joined_lines@.map_values(|c: Vec<char>| c@) =~= split(trim(csv@), '\n').map_values(
        |line: Seq<char>| join(line_cells(line), ','),
    ));
    join_chars(&joined_lines, '\n')
}

/// The verdict for an error of the fixture or of the run.
fn verdict_of(e: Error) -> (v: FixtureVerdict)
    ensures
        v@ == verdict_of_error(e@),
{
    match e {
        Error::Unsupported(m) => FixtureVerdict::Unsupported(m),
        Error::Invalid(m) => FixtureVerdict::Failed(m),
    }
}

/// Append the printed name of `state` to `out`.
fn push_state_name(out: &mut String, state: State)
    ensures
        final(out)@ == old(out)@ + state_name(state),
{
    match state {
        State::Playing => push_str(out, "Playing"),
        State::Won => push_str(out, "Won"),
        State::GameOver => push_str(out, "GameOver"),
    }
}

/// Run the fixture `name` from the texts of its three files and judge the
/// outcome.
pub fn judge_fixture(name: &str, json: &str, before: &str, expected_csv: &str) -> (v:
    FixtureVerdict)
    ensures
        v@ == judge_spec(name@, json@, before@, expected_csv@),
{
    let action = match parse_action(json) {
        Ok(a) => a,
        Err(e) => {
            return verdict_of(e);
        },
    };
    let expected_state = match parse_state(json) {
        Ok(s) => s,
        Err(e) => {
            return verdict_of(e);
        },
    };
    let outcome = match run(before, action) {
        Ok(o) => o,
        Err(e) => {
            return verdict_of(e);
        },
    };
    let actual = normalize_csv(outcome.csv.as_str());
    let expected = normalize_csv(expected_csv);
    let actual_chars = chars_of(actual.as_str());
    if chars_equal(&actual_chars, expected.as_str()) && outcome.state == expected_state {
        FixtureVerdict::Passed
    } else {
        let mut message = string_of(name);
        push_str(&mut message, ": expected state ");
        push_state_name(&mut message, expected_state);
        push_str(&mut message, " and grid\n");
        push_str(&mut message, expected.as_str());
        push_str(&mut message, "\ngot state ");
        push_state_name(&mut message, outcome.state);
        push_str(&mut message, " and grid\n");
        push_str(&mut message, actual.as_str());
        assert(message@ =~= mismatch_message(
            name@,
            expected_state,
            expected@,
            outcome.state,
            actual@,
        ));
        FixtureVerdict::Failed(message)
    }
}

/// The fixture's name: its JSON file name with every trailing `_i.json`
/// removed.
pub fn fixture_name(file: &str) -> (name: String)
    ensures
        name@ == fixture_name_spec(file@),
{
    let chars = chars_of(file);
    let suffix = chars_of("_i.json");
    proof {
        reveal_strlit("_i.json");
    }
    let mut n: usize = chars.len();
    let mut done = false;
    assert(chars@.subrange(0, n as int) =~= file@);
    while !done
        invariant
            chars@ == file@,
            suffix@ == "_i.json"@,
            suffix.len() == 7,
            n <= chars.len(),
            fixture_name_spec(chars@.subrange(0, n as int)) == fixture_name_spec(file@),
            done ==> fixture_name_spec(chars@.subrange(0, n as int)) == chars@.subrange(
                0,
                n as int,
            ),
        decreases n as int * 2 + if done {
            0int
        } else {
            1int
        },
    {
        let ghost current = chars@.subrange(0, n as int);
        if n < suffix.len() {
            done = true;
        } else {
            let tail = slice_chars(&chars, n - suffix.len(), n);
            assert(tail@ =~= current.subrange(current.len() - 7, current.len() as int));
            if chars_equal(&tail, "_i.json") {
                assert(current.subrange(0, current.len() - 7) =~= chars@.subrange(0, n - 7));
                n = n - suffix.len();
            } else {
                done = true;
            }
        }
    }
    let name = slice_chars(&chars, 0, n);
    string_from_chars(&name)
}

} // verus!
