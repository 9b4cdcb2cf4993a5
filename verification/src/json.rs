//! The configuration file format, as mathematics: what the saved document
//! looks like for a given configuration, and what any document parses to.
//! The executable codec lives in [`crate::codec`]; that parsing inverts
//! printing is proved in [`crate::laws`].

use vstd::prelude::*;

use crate::config::{ConfigView, DisplaySettings, GameDirectoryView, Launcher};
use crate::game::GameView;

verus! {

// ---------------------------------------------------------------------------
// Characters
// ---------------------------------------------------------------------------
/// The decimal digit characters, by value.
pub open spec fn digit_char(d: int) -> char {
    if d == 0 {
        '0'
    } else if d == 1 {
        '1'
    } else if d == 2 {
        '2'
    } else if d == 3 {
        '3'
    } else if d == 4 {
        '4'
    } else if d == 5 {
        '5'
    } else if d == 6 {
        '6'
    } else if d == 7 {
        '7'
    } else if d == 8 {
        '8'
    } else {
        '9'
    }
}

pub open spec fn is_digit(c: char) -> bool {
    c == '0' || c == '1' || c == '2' || c == '3' || c == '4' || c == '5' || c == '6' || c == '7'
        || c == '8' || c == '9'
}

pub open spec fn digit_val(c: char) -> int {
    if c == '0' {
        0
    } else if c == '1' {
        1
    } else if c == '2' {
        2
    } else if c == '3' {
        3
    } else if c == '4' {
        4
    } else if c == '5' {
        5
    } else if c == '6' {
        6
    } else if c == '7' {
        7
    } else if c == '8' {
        8
    } else {
        9
    }
}

/// The lowercase hexadecimal digit characters, by value.
pub open spec fn hex_digit_char(d: int) -> char {
    if d < 10 {
        digit_char(d)
    } else if d == 10 {
        'a'
    } else if d == 11 {
        'b'
    } else if d == 12 {
        'c'
    } else if d == 13 {
        'd'
    } else if d == 14 {
        'e'
    } else {
        'f'
    }
}

pub open spec fn is_hex(c: char) -> bool {
    is_digit(c) || c == 'a' || c == 'b' || c == 'c' || c == 'd' || c == 'e' || c == 'f'
}

pub open spec fn hex_val(c: char) -> int {
    if is_digit(c) {
        digit_val(c)
    } else if c == 'a' {
        10
    } else if c == 'b' {
        11
    } else if c == 'c' {
        12
    } else if c == 'd' {
        13
    } else if c == 'e' {
        14
    } else {
        15
    }
}

// ---------------------------------------------------------------------------
// Printing
// ---------------------------------------------------------------------------
/// How one character appears inside a quoted string: quotes and backslashes
/// get a backslash, control characters a `\u00..` escape, everything else
/// stands as itself.
pub open spec fn escape_char(c: char) -> Seq<char> {
    if c == '"' {
        seq!['\\', '"']
    } else if c == '\\' {
        seq!['\\', '\\']
    } else if (c as u32) < 32 {
        seq!['\\', 'u', '0', '0', hex_digit_char((c as u32) as int / 16), hex_digit_char(
            (c as u32) as int % 16,
        )]
    } else {
        seq![c]
    }
}

pub open spec fn escape_string(s: Seq<char>) -> Seq<char>
    decreases s.len(),
{
    if s.len() == 0 {
        Seq::empty()
    } else {
        escape_char(s[0]) + escape_string(s.skip(1))
    }
}

/// A quoted, escaped string.
pub open spec fn string_json(s: Seq<char>) -> Seq<char> {
    seq!['"'] + escape_string(s) + seq!['"']
}

/// An unsigned number in decimal, most significant digit first.
pub open spec fn dec_digits(n: nat) -> Seq<char>
    decreases n,
{
    if n < 10 {
        seq![digit_char(n as int)]
    } else {
        dec_digits(n / 10) + seq![digit_char((n % 10) as int)]
    }
}

pub open spec fn u32_json(n: u32) -> Seq<char> {
    dec_digits(n as nat)
}

pub open spec fn bool_json(b: bool) -> Seq<char> {
    if b {
        "true"@
    } else {
        "false"@
    }
}

pub open spec fn launcher_json(l: Launcher) -> Seq<char> {
    match l {
        Launcher::Steam => "\"Steam\""@,
        Launcher::Epic => "\"Epic\""@,
        Launcher::Custom => "\"Custom\""@,
    }
}

pub open spec fn game_json(g: GameView) -> Seq<char> {
    "{\"title\":"@ + string_json(g.title) + ",\"cover_art\":"@ + string_json(g.cover_art)
        + ",\"directory\":"@ + string_json(g.directory) + seq!['}']
}

/// The games of a list from the first onward, commas between them, and the
/// closing bracket.
pub open spec fn games_tail_json(gs: Seq<GameView>) -> Seq<char>
    decreases gs.len(),
{
    if gs.len() <= 1 {
        game_json(gs[0]) + seq![']']
    } else {
        game_json(gs[0]) + seq![','] + games_tail_json(gs.skip(1))
    }
}

pub open spec fn games_json(gs: Seq<GameView>) -> Seq<char> {
    if gs.len() == 0 {
        seq!['[', ']']
    } else {
        seq!['['] + games_tail_json(gs)
    }
}

pub open spec fn dir_json(d: GameDirectoryView) -> Seq<char> {
    "{\"launcher\":"@ + launcher_json(d.launcher) + ",\"path\":"@ + string_json(d.path)
        + ",\"icon\":"@ + string_json(d.icon) + ",\"games\":"@ + games_json(d.games) + seq!['}']
}

pub open spec fn dirs_tail_json(ds: Seq<GameDirectoryView>) -> Seq<char>
    decreases ds.len(),
{
    if ds.len() <= 1 {
        dir_json(ds[0]) + seq![']']
    } else {
        dir_json(ds[0]) + seq![','] + dirs_tail_json(ds.skip(1))
    }
}

pub open spec fn dirs_json(ds: Seq<GameDirectoryView>) -> Seq<char> {
    if ds.len() == 0 {
        seq!['[', ']']
    } else {
        seq!['['] + dirs_tail_json(ds)
    }
}

pub open spec fn display_json(d: DisplaySettings) -> Seq<char> {
    "{\"width\":"@ + u32_json(d.width) + ",\"height\":"@ + u32_json(d.height) + ",\"centered\":"@
        + bool_json(d.centered) + seq!['}']
}

/// The whole saved document for a configuration.
pub open spec fn config_json(c: ConfigView) -> Seq<char> {
    "{\"display\":"@ + display_json(c.display) + ",\"theme\":"@ + string_json(c.theme)
        + ",\"run_on_startup\":"@ + bool_json(c.run_on_startup) + ",\"directories\":"@ + dirs_json(
        c.directories,
    ) + seq!['}']
}

/// Escaping distributes over concatenation.
pub proof fn lemma_escape_append(a: Seq<char>, b: Seq<char>)
    ensures
        escape_string(a + b) == escape_string(a) + escape_string(b),
    decreases a.len(),
{
    if a.len() == 0 {
        assert(a + b =~= b);
        assert(escape_string(a) + escape_string(b) =~= escape_string(b));
    } else {
        lemma_escape_append(a.skip(1), b);
        assert((a + b).skip(1) =~= a.skip(1) + b);
        assert(escape_string(a + b) =~= escape_string(a) + escape_string(b)) by {
            assert((a + b)[0] == a[0]);
            assert(escape_string(a + b) == escape_char(a[0]) + (escape_string(a.skip(1))
                + escape_string(b)));
            assert(escape_string(a) + escape_string(b) == (escape_char(a[0]) + escape_string(
                a.skip(1),
            )) + escape_string(b));
        }
    }
}

// ---------------------------------------------------------------------------
// Parsing
// ---------------------------------------------------------------------------
/// Consumes exactly the given token at position `i`.
pub open spec fn parse_lit(s: Seq<char>, i: int, lit: Seq<char>) -> Option<int> {
    if 0 <= i && i + lit.len() <= s.len() && s.subrange(i, i + lit.len()) == lit {
        Some(i + lit.len())
    } else {
        None
    }
}

/// Consumes a quoted string's content up to (not including) its closing
/// quote, undoing the escapes.
pub open spec fn parse_str_body(s: Seq<char>, i: int) -> Option<(Seq<char>, int)>
    decreases s.len() - i,
    when 0 <= i <= s.len()
{
    if i == s.len() {
        None
    } else if s[i] == '"' {
        Some((Seq::empty(), i))
    } else if s[i] == '\\' {
        if i + 1 == s.len() {
            None
        } else if s[i + 1] == '"' || s[i + 1] == '\\' {
            match parse_str_body(s, i + 2) {
                Some((rest, j)) => Some((seq![s[i + 1]] + rest, j)),
                None => None,
            }
        } else if s[i + 1] == 'u' {
            if i + 6 <= s.len() && s[i + 2] == '0' && s[i + 3] == '0' && is_hex(s[i + 4]) && is_hex(
                s[i + 5],
            ) {
                let v = hex_val(s[i + 4]) * 16 + hex_val(s[i + 5]);
                match parse_str_body(s, i + 6) {
                    Some((rest, j)) => Some((seq![((v as u32) as char)] + rest, j)),
                    None => None,
                }
            } else {
                None
            }
        } else {
            None
        }
    } else {
        match parse_str_body(s, i + 1) {
            Some((rest, j)) => Some((seq![s[i]] + rest, j)),
            None => None,
        }
    }
}

/// Consumes a quoted string.
pub open spec fn parse_string(s: Seq<char>, i: int) -> Option<(Seq<char>, int)> {
    if 0 <= i && i < s.len() && s[i] == '"' {
        match parse_str_body(s, i + 1) {
            Some((content, j)) => if j < s.len() && s[j] == '"' {
                Some((content, j + 1))
            } else {
                None
            },
            None => None,
        }
    } else {
        None
    }
}

/// Consumes decimal digits into an accumulated value, refusing values beyond
/// `u32::MAX`.
pub open spec fn parse_num(s: Seq<char>, i: int, acc: nat) -> Option<(nat, int)>
    decreases s.len() - i,
    when 0 <= i <= s.len()
{
    if i < s.len() && is_digit(s[i]) {
        let v = acc * 10 + digit_val(s[i]);
        if v > u32::MAX {
            None
        } else {
            parse_num(s, i + 1, v as nat)
        }
    } else {
        Some((acc, i))
    }
}

/// Consumes a number that fits in a `u32`; at least one digit.
pub open spec fn parse_u32(s: Seq<char>, i: int) -> Option<(u32, int)> {
    if 0 <= i && i < s.len() && is_digit(s[i]) {
        match parse_num(s, i, 0) {
            Some((n, j)) => Some((n as u32, j)),
            None => None,
        }
    } else {
        None
    }
}

pub open spec fn parse_bool(s: Seq<char>, i: int) -> Option<(bool, int)> {
    match parse_lit(s, i, "true"@) {
        Some(j) => Some((true, j)),
        None => match parse_lit(s, i, "false"@) {
            Some(j) => Some((false, j)),
            None => None,
        },
    }
}

pub open spec fn parse_launcher(s: Seq<char>, i: int) -> Option<(Launcher, int)> {
    match parse_lit(s, i, "\"Steam\""@) {
        Some(j) => Some((Launcher::Steam, j)),
        None => match parse_lit(s, i, "\"Epic\""@) {
            Some(j) => Some((Launcher::Epic, j)),
            None => match parse_lit(s, i, "\"Custom\""@) {
                Some(j) => Some((Launcher::Custom, j)),
                None => None,
            },
        },
    }
}

pub open spec fn parse_game(s: Seq<char>, i: int) -> Option<(GameView, int)> {
    match parse_lit(s, i, "{\"title\":"@) {
        None => None,
        Some(j) => match parse_string(s, j) {
            None => None,
            Some((title, j)) => match parse_lit(s, j, ",\"cover_art\":"@) {
                None => None,
                Some(j) => match parse_string(s, j) {
                    None => None,
                    Some((cover_art, j)) => match parse_lit(s, j, ",\"directory\":"@) {
                        None => None,
                        Some(j) => match parse_string(s, j) {
                            None => None,
                            Some((directory, j)) => if j < s.len() && s[j] == '}' {
                                Some((GameView { title, cover_art, directory }, j + 1))
                            } else {
                                None
                            },
                        },
                    },
                },
            },
        },
    }
}

/// Consumes the games of a non-empty list and the closing bracket.
pub open spec fn parse_games_tail(s: Seq<char>, i: int) -> Option<(Seq<GameView>, int)>
    decreases s.len() - i,
    when 0 <= i <= s.len()
{
    match parse_game(s, i) {
        None => None,
        Some((g, j)) => {
            proof {
                lemma_parse_game_bounds(s, i);
            }
            if j < s.len() && s[j] == ',' {
                match parse_games_tail(s, j + 1) {
                    Some((rest, j2)) => Some((seq![g] + rest, j2)),
                    None => None,
                }
            } else if j < s.len() && s[j] == ']' {
                Some((seq![g], j + 1))
            } else {
                None
            }
        },
    }
}

pub open spec fn parse_games(s: Seq<char>, i: int) -> Option<(Seq<GameView>, int)> {
    if 0 <= i && i < s.len() && s[i] == '[' {
        if i + 1 < s.len() && s[i + 1] == ']' {
            Some((Seq::empty(), i + 2))
        } else {
            parse_games_tail(s, i + 1)
        }
    } else {
        None
    }
}

pub open spec fn parse_dir(s: Seq<char>, i: int) -> Option<(GameDirectoryView, int)> {
    match parse_lit(s, i, "{\"launcher\":"@) {
        None => None,
        Some(j) => match parse_launcher(s, j) {
            None => None,
            Some((launcher, j)) => match parse_lit(s, j, ",\"path\":"@) {
                None => None,
                Some(j) => match parse_string(s, j) {
                    None => None,
                    Some((path, j)) => match parse_lit(s, j, ",\"icon\":"@) {
                        None => None,
                        Some(j) => match parse_string(s, j) {
                            None => None,
                            Some((icon, j)) => match parse_lit(s, j, ",\"games\":"@) {
                                None => None,
                                Some(j) => match parse_games(s, j) {
                                    None => None,
                                    Some((games, j)) => if j < s.len() && s[j] == '}' {
                                        Some(
                                            (
                                                GameDirectoryView { launcher, path, icon, games },
                                                j + 1,
                                            ),
                                        )
                                    } else {
                                        None
                                    },
                                },
                            },
                        },
                    },
                },
            },
        },
    }
}

/// Consumes the directories of a non-empty list and the closing bracket.
pub open spec fn parse_dirs_tail(s: Seq<char>, i: int) -> Option<(Seq<GameDirectoryView>, int)>
    decreases s.len() - i,
    when 0 <= i <= s.len()
{
    match parse_dir(s, i) {
        None => None,
        Some((d, j)) => {
            proof {
                lemma_parse_dir_bounds(s, i);
            }
            if j < s.len() && s[j] == ',' {
                match parse_dirs_tail(s, j + 1) {
                    Some((rest, j2)) => Some((seq![d] + rest, j2)),
                    None => None,
                }
            } else if j < s.len() && s[j] == ']' {
                Some((seq![d], j + 1))
            } else {
                None
            }
        },
    }
}

pub open spec fn parse_dirs(s: Seq<char>, i: int) -> Option<(Seq<GameDirectoryView>, int)> {
    if 0 <= i && i < s.len() && s[i] == '[' {
        if i + 1 < s.len() && s[i + 1] == ']' {
            Some((Seq::empty(), i + 2))
        } else {
            parse_dirs_tail(s, i + 1)
        }
    } else {
        None
    }
}

pub open spec fn parse_display(s: Seq<char>, i: int) -> Option<(DisplaySettings, int)> {
    match parse_lit(s, i, "{\"width\":"@) {
        None => None,
        Some(j) => match parse_u32(s, j) {
            None => None,
            Some((width, j)) => match parse_lit(s, j, ",\"height\":"@) {
                None => None,
                Some(j) => match parse_u32(s, j) {
                    None => None,
                    Some((height, j)) => match parse_lit(s, j, ",\"centered\":"@) {
                        None => None,
                        Some(j) => match parse_bool(s, j) {
                            None => None,
                            Some((centered, j)) => if j < s.len() && s[j] == '}' {
                                Some((DisplaySettings { width, height, centered }, j + 1))
                            } else {
                                None
                            },
                        },
                    },
                },
            },
        },
    }
}

pub open spec fn parse_config(s: Seq<char>, i: int) -> Option<(ConfigView, int)> {
    match parse_lit(s, i, "{\"display\":"@) {
        None => None,
        Some(j) => match parse_display(s, j) {
            None => None,
            Some((display, j)) => match parse_lit(s, j, ",\"theme\":"@) {
                None => None,
                Some(j) => match parse_string(s, j) {
                    None => None,
                    Some((theme, j)) => match parse_lit(s, j, ",\"run_on_startup\":"@) {
                        None => None,
                        Some(j) => match parse_bool(s, j) {
                            None => None,
                            Some((run_on_startup, j)) => match parse_lit(
                                s,
                                j,
                                ",\"directories\":"@,
                            ) {
                                None => None,
                                Some(j) => match parse_dirs(s, j) {
                                    None => None,
                                    Some((directories, j)) => if j < s.len() && s[j] == '}' {
                                        Some(
                                            (
                                                ConfigView {
                                                    display,
                                                    theme,
                                                    run_on_startup,
                                                    directories,
                                                },
                                                j + 1,
                                            ),
                                        )
                                    } else {
                                        None
                                    },
                                },
                            },
                        },
                    },
                },
            },
        },
    }
}

/// What a whole document parses to: the configuration, provided nothing
/// trails it.
pub open spec fn parse_config_doc(s: Seq<char>) -> Option<ConfigView> {
    match parse_config(s, 0) {
        Some((c, j)) => if j == s.len() {
            Some(c)
        } else {
            None
        },
        None => None,
    }
}

// ---------------------------------------------------------------------------
// Bounds: whatever a parse consumes lies within the input
// ---------------------------------------------------------------------------
pub proof fn lemma_parse_str_body_bounds(s: Seq<char>, i: int)
    requires
        0 <= i <= s.len(),
    ensures
        parse_str_body(s, i) matches Some((c, j)) ==> i <= j < s.len() && s[j] == '"',
    decreases s.len() - i,
{
    if i < s.len() && s[i] != '"' {
        if s[i] == '\\' {
            if i + 1 < s.len() && (s[i + 1] == '"' || s[i + 1] == '\\') {
                lemma_parse_str_body_bounds(s, i + 2);
            } else if i + 1 < s.len() && s[i + 1] == 'u' && i + 6 <= s.len() {
                lemma_parse_str_body_bounds(s, i + 6);
            }
        } else {
            lemma_parse_str_body_bounds(s, i + 1);
        }
    }
}

pub proof fn lemma_parse_string_bounds(s: Seq<char>, i: int)
    ensures
        parse_string(s, i) matches Some((c, j)) ==> i + 2 <= j <= s.len(),
{
    if 0 <= i && i < s.len() && s[i] == '"' {
        lemma_parse_str_body_bounds(s, i + 1);
    }
}

pub proof fn lemma_parse_num_bounds(s: Seq<char>, i: int, acc: nat)
    requires
        0 <= i <= s.len(),
    ensures
        parse_num(s, i, acc) matches Some((n, j)) ==> i <= j <= s.len(),
    decreases s.len() - i,
{
    if i < s.len() && is_digit(s[i]) {
        let v = acc * 10 + digit_val(s[i]);
        if v <= u32::MAX {
            lemma_parse_num_bounds(s, i + 1, v as nat);
        }
    }
}

pub proof fn lemma_parse_u32_bounds(s: Seq<char>, i: int)
    ensures
        parse_u32(s, i) matches Some((n, j)) ==> i < j <= s.len(),
{
    if 0 <= i && i < s.len() && is_digit(s[i]) {
        lemma_parse_num_bounds(s, i + 1, digit_val(s[i]) as nat);
    }
}

pub proof fn lemma_parse_game_bounds(s: Seq<char>, i: int)
    ensures
        parse_game(s, i) matches Some((g, j)) ==> i < j <= s.len(),
{
    if let Some(j1) = parse_lit(s, i, "{\"title\":"@) {
        lemma_parse_string_bounds(s, j1);
        if let Some((t, j2)) = parse_string(s, j1) {
            if let Some(j3) = parse_lit(s, j2, ",\"cover_art\":"@) {
                lemma_parse_string_bounds(s, j3);
                if let Some((ca, j4)) = parse_string(s, j3) {
                    if let Some(j5) = parse_lit(s, j4, ",\"directory\":"@) {
                        lemma_parse_string_bounds(s, j5);
                    }
                }
            }
        }
    }
}

pub proof fn lemma_parse_games_tail_bounds(s: Seq<char>, i: int)
    requires
        0 <= i <= s.len(),
    ensures
        parse_games_tail(s, i) matches Some((gs, j)) ==> i < j <= s.len(),
    decreases s.len() - i,
{
    lemma_parse_game_bounds(s, i);
    if let Some((g, j)) = parse_game(s, i) {
        if j < s.len() && s[j] == ',' {
            lemma_parse_games_tail_bounds(s, j + 1);
        }
    }
}

pub proof fn lemma_parse_games_bounds(s: Seq<char>, i: int)
    ensures
        parse_games(s, i) matches Some((gs, j)) ==> i < j <= s.len(),
{
    if 0 <= i && i < s.len() && s[i] == '[' {
        lemma_parse_games_tail_bounds(s, i + 1);
    }
}

pub proof fn lemma_parse_launcher_bounds(s: Seq<char>, i: int)
    ensures
        parse_launcher(s, i) matches Some((l, j)) ==> i <= j <= s.len(),
{
}

pub proof fn lemma_parse_dir_bounds(s: Seq<char>, i: int)
    ensures
        parse_dir(s, i) matches Some((d, j)) ==> i < j <= s.len(),
{
    if let Some(j1) = parse_lit(s, i, "{\"launcher\":"@) {
        lemma_parse_launcher_bounds(s, j1);
        if let Some((l, j2)) = parse_launcher(s, j1) {
            if let Some(j3) = parse_lit(s, j2, ",\"path\":"@) {
                lemma_parse_string_bounds(s, j3);
                if let Some((p, j4)) = parse_string(s, j3) {
                    if let Some(j5) = parse_lit(s, j4, ",\"icon\":"@) {
                        lemma_parse_string_bounds(s, j5);
                        if let Some((ic, j6)) = parse_string(s, j5) {
                            if let Some(j7) = parse_lit(s, j6, ",\"games\":"@) {
                                lemma_parse_games_bounds(s, j7);
                            }
                        }
                    }
                }
            }
        }
    }
}

} // verus!
