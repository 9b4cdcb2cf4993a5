//! The executable codec for the configuration file: printing a configuration
//! as the document [`crate::json`] describes, and parsing such a document
//! back.

use vstd::prelude::*;
use vstd::string::StrSliceExecFns;

use crate::config::{Config, DisplaySettings, GameDirectory, Launcher};
use crate::error::LoadoutError;
use crate::game::Game;
use crate::json::{
    bool_json, config_json, dec_digits, digit_char, digit_val, dir_json, dirs_json,
    dirs_tail_json, display_json, escape_char, escape_string, game_json, games_json,
    games_tail_json, hex_digit_char, hex_val, is_digit, is_hex, launcher_json,
    lemma_escape_append, lemma_parse_dir_bounds, lemma_parse_game_bounds,
    lemma_parse_str_body_bounds, parse_bool, parse_config, parse_config_doc, parse_dir,
    parse_dirs, parse_dirs_tail, parse_display, parse_game, parse_games, parse_games_tail,
    parse_launcher, parse_lit, parse_num, parse_str_body, parse_string, parse_u32, string_json,
    u32_json,
};

verus! {

/// Relies on `String`'s `FromIterator` over `char`: collecting characters
/// yields the string of exactly those characters, in order.
#[verifier::external_body]
fn chars_to_string(v: Vec<char>) -> (s: String)
    ensures
        s@ == v@,
{
    v.into_iter().collect()
}

/// The characters of a string slice, in order.
fn str_chars(s: &str) -> (v: Vec<char>)
    ensures
        v@ == s@,
{
    let n = s.unicode_len();
    let mut v: Vec<char> = Vec::new();
    let mut k: usize = 0;
    while k < n
        invariant
            k <= n,
            n == s@.len(),
            v@ == s@.subrange(0, k as int),
        decreases n - k,
    {
        let c = s.get_char(k);
        v.push(c);
        proof {
            assert(v@ =~= s@.subrange(0, k + 1));
        }
        k = k + 1;
    }
    proof {
        assert(v@ =~= s@);
    }
    v
}

// ---------------------------------------------------------------------------
// Printing
// ---------------------------------------------------------------------------
fn push_str_chars(out: &mut Vec<char>, lit: &str)
    ensures
        final(out)@ == old(out)@ + lit@,
{
    let n = lit.unicode_len();
    let mut k: usize = 0;
    while k < n
        invariant
            k <= n,
            n == lit@.len(),
            out@ == old(out)@ + lit@.subrange(0, k as int),
        decreases n - k,
    {
        let c = lit.get_char(k);
        out.push(c);
        proof {
            assert(out@ =~= old(out)@ + lit@.subrange(0, k + 1));
        }
        k = k + 1;
    }
    proof {
        assert(old(out)@ + lit@.subrange(0, n as int) =~= old(out)@ + lit@);
    }
}

fn digit_char_of(d: u32) -> (c: char)
    requires
        d < 10,
    ensures
        c == digit_char(d as int),
{
    if d == 0 {
        '0'
    } else if d == 1 {
        '1'
    } else if d == 2 {
        '2'
    } else if d == 3 {
        '3'
    } else if d == 4 {
        '4'
    } else if d == 5 {
        '5'
    } else if d == 6 {
        '6'
    } else if d == 7 {
        '7'
    } else if d == 8 {
        '8'
    } else {
        '9'
    }
}

fn hex_char_of(d: u32) -> (c: char)
    requires
        d < 16,
    ensures
        c == hex_digit_char(d as int),
{
    if d < 10 {
        digit_char_of(d)
    } else if d == 10 {
        'a'
    } else if d == 11 {
        'b'
    } else if d == 12 {
        'c'
    } else if d == 13 {
        'd'
    } else if d == 14 {
        'e'
    } else {
        'f'
    }
}

fn push_escaped_char(out: &mut Vec<char>, c: char)
    ensures
        final(out)@ == old(out)@ + escape_char(c),
{
    if c == '"' {
        out.push('\\');
        out.push('"');
        proof {
            assert(out@ =~= old(out)@ + escape_char(c));
        }
    } else if c == '\\' {
        out.push('\\');
        out.push('\\');
        proof {
            assert(out@ =~= old(out)@ + escape_char(c));
        }
    } else {
        let v = c as u32;
        if v < 32 {
            out.push('\\');
            out.push('u');
            out.push('0');
            out.push('0');
            out.push(hex_char_of(v / 16));
            out.push(hex_char_of(v % 16));
            proof {
                assert(out@ =~= old(out)@ + escape_char(c));
            }
        } else {
            out.push(c);
            proof {
                assert(out@ =~= old(out)@ + escape_char(c));
            }
        }
    }
}

fn push_escaped_str(out: &mut Vec<char>, s: &str)
    ensures
        final(out)@ == old(out)@ + escape_string(s@),
{
    let n = s.unicode_len();
    let mut k: usize = 0;
    while k < n
        invariant
            k <= n,
            n == s@.len(),
            out@ == old(out)@ + escape_string(s@.subrange(0, k as int)),
        decreases n - k,
    {
        let c = s.get_char(k);
        push_escaped_char(out, c);
        proof {
            let pre = s@.subrange(0, k as int);
            let one = seq![s@[k as int]];
            lemma_escape_append(pre, one);
            assert(pre + one =~= s@.subrange(0, k + 1));
            assert(escape_string(one) == escape_char(s@[k as int]) + escape_string(
                one.skip(1),
            ));
            assert(one.skip(1) =~= Seq::<char>::empty());
            assert(escape_string(one) =~= escape_char(s@[k as int]));
            assert(out@ =~= old(out)@ + escape_string(s@.subrange(0, k + 1)));
        }
        k = k + 1;
    }
    proof {
        assert(s@.subrange(0, n as int) =~= s@);
    }
}

fn push_string_json(out: &mut Vec<char>, s: &str)
    ensures
        final(out)@ == old(out)@ + string_json(s@),
{
    out.push('"');
    push_escaped_str(out, s);
    out.push('"');
    proof {
        assert(out@ =~= old(out)@ + string_json(s@));
    }
}

fn push_u32(out: &mut Vec<char>, n: u32)
    ensures
        final(out)@ == old(out)@ + u32_json(n),
    decreases n,
{
    if n < 10 {
        out.push(digit_char_of(n));
        proof {
            assert(out@ =~= old(out)@ + dec_digits(n as nat));
        }
    } else {
        push_u32(out, n / 10);
        out.push(digit_char_of(n % 10));
        proof {
            assert((n / 10) as nat == (n as nat) / 10);
            assert((n % 10) as nat == (n as nat) % 10);
            assert(out@ =~= old(out)@ + dec_digits(n as nat));
        }
    }
}

fn push_bool(out: &mut Vec<char>, b: bool)
    ensures
        final(out)@ == old(out)@ + bool_json(b),
{
    if b {
        push_str_chars(out, "true");
    } else {
        push_str_chars(out, "false");
    }
}

fn push_launcher(out: &mut Vec<char>, l: &Launcher)
    ensures
        final(out)@ == old(out)@ + launcher_json(*l),
{
    match l {
        Launcher::Steam => push_str_chars(out, "\"Steam\""),
        Launcher::Epic => push_str_chars(out, "\"Epic\""),
        Launcher::Custom => push_str_chars(out, "\"Custom\""),
    }
}

fn push_game(out: &mut Vec<char>, g: &Game)
    ensures
        final(out)@ == old(out)@ + game_json(g@),
{
    push_str_chars(out, "{\"title\":");
    push_string_json(out, g.title.as_str());
    push_str_chars(out, ",\"cover_art\":");
    push_string_json(out, g.cover_art.as_str());
    push_str_chars(out, ",\"directory\":");
    push_string_json(out, g.directory.as_str());
    out.push('}');
    proof {
        assert(out@ =~= old(out)@ + game_json(g@));
    }
}

fn push_games_tail(out: &mut Vec<char>, games: &Vec<Game>, start: usize)
    requires
        start < games@.len(),
    ensures
        final(out)@ == old(out)@ + games_tail_json(games.deep_view().skip(start as int)),
    decreases games@.len() - start,
{
    let ghost tail = games.deep_view().skip(start as int);
    proof {
        assert(tail[0] == games.deep_view()[start as int]);
        assert(tail.len() == games.deep_view().len() - start);
    }
    let n = games.len();
    push_game(out, &games[start]);
    if start + 1 == n {
        out.push(']');
        proof {
            assert(out@ =~= old(out)@ + games_tail_json(tail));
        }
    } else {
        out.push(',');
        push_games_tail(out, games, start + 1);
        proof {
            assert(games.deep_view().skip(start + 1) =~= tail.skip(1));
            assert(out@ =~= old(out)@ + games_tail_json(tail));
        }
    }
}

fn push_games(out: &mut Vec<char>, games: &Vec<Game>)
    ensures
        final(out)@ == old(out)@ + games_json(games.deep_view()),
{
    out.push('[');
    if games.len() == 0 {
        out.push(']');
        proof {
            assert(out@ =~= old(out)@ + games_json(games.deep_view()));
        }
    } else {
        push_games_tail(out, games, 0);
        proof {
            assert(games.deep_view().skip(0) =~= games.deep_view());
            assert(out@ =~= old(out)@ + games_json(games.deep_view()));
        }
    }
}

fn push_dir(out: &mut Vec<char>, d: &GameDirectory)
    ensures
        final(out)@ == old(out)@ + dir_json(d@),
{
    push_str_chars(out, "{\"launcher\":");
    push_launcher(out, &d.launcher);
    push_str_chars(out, ",\"path\":");
    push_string_json(out, d.path.as_str());
    push_str_chars(out, ",\"icon\":");
    push_string_json(out, d.icon.as_str());
    push_str_chars(out, ",\"games\":");
    push_games(out, &d.games);
    out.push('}');
    proof {
        assert(out@ =~= old(out)@ + dir_json(d@));
    }
}

fn push_dirs_tail(out: &mut Vec<char>, dirs: &Vec<GameDirectory>, start: usize)
    requires
        start < dirs@.len(),
    ensures
        final(out)@ == old(out)@ + dirs_tail_json(dirs.deep_view().skip(start as int)),
    decreases dirs@.len() - start,
{
    let ghost tail = dirs.deep_view().skip(start as int);
    proof {
        assert(tail[0] == dirs.deep_view()[start as int]);
        assert(tail.len() == dirs.deep_view().len() - start);
    }
    let n = dirs.len();
    push_dir(out, &dirs[start]);
    if start + 1 == n {
        out.push(']');
        proof {
            assert(out@ =~= old(out)@ + dirs_tail_json(tail));
        }
    } else {
        out.push(',');
        push_dirs_tail(out, dirs, start + 1);
        proof {
            assert(dirs.deep_view().skip(start + 1) =~= tail.skip(1));
            assert(out@ =~= old(out)@ + dirs_tail_json(tail));
        }
    }
}

fn push_dirs(out: &mut Vec<char>, dirs: &Vec<GameDirectory>)
    ensures
        final(out)@ == old(out)@ + dirs_json(dirs.deep_view()),
{
    out.push('[');
    if dirs.len() == 0 {
        out.push(']');
        proof {
            assert(out@ =~= old(out)@ + dirs_json(dirs.deep_view()));
        }
    } else {
        push_dirs_tail(out, dirs, 0);
        proof {
            assert(dirs.deep_view().skip(0) =~= dirs.deep_view());
            assert(out@ =~= old(out)@ + dirs_json(dirs.deep_view()));
        }
    }
}

fn push_display(out: &mut Vec<char>, d: &DisplaySettings)
    ensures
        final(out)@ == old(out)@ + display_json(*d),
{
    push_str_chars(out, "{\"width\":");
    push_u32(out, d.width);
    push_str_chars(out, ",\"height\":");
    push_u32(out, d.height);
    push_str_chars(out, ",\"centered\":");
    push_bool(out, d.centered);
    out.push('}');
    proof {
        assert(out@ =~= old(out)@ + display_json(*d));
    }
}

// ---------------------------------------------------------------------------
// Parsing
// ---------------------------------------------------------------------------
fn is_digit_exec(c: char) -> (b: bool)
    ensures
        b == is_digit(c),
{
    c == '0' || c == '1' || c == '2' || c == '3' || c == '4' || c == '5' || c == '6' || c == '7'
        || c == '8' || c == '9'
}

fn digit_val_exec(c: char) -> (d: u32)
    requires
        is_digit(c),
    ensures
        d == digit_val(c),
        d < 10,
{
    if c == '0' {
        0
    } else if c == '1' {
        1
    } else if c == '2' {
        2
    } else if c == '3' {
        3
    } else if c == '4' {
        4
    } else if c == '5' {
        5
    } else if c == '6' {
        6
    } else if c == '7' {
        7
    } else if c == '8' {
        8
    } else {
        9
    }
}

fn is_hex_exec(c: char) -> (b: bool)
    ensures
        b == is_hex(c),
{
    is_digit_exec(c) || c == 'a' || c == 'b' || c == 'c' || c == 'd' || c == 'e' || c == 'f'
}

fn hex_val_exec(c: char) -> (d: u32)
    requires
        is_hex(c),
    ensures
        d == hex_val(c),
        d < 16,
{
    if is_digit_exec(c) {
        digit_val_exec(c)
    } else if c == 'a' {
        10
    } else if c == 'b' {
        11
    } else if c == 'c' {
        12
    } else if c == 'd' {
        13
    } else if c == 'e' {
        14
    } else {
        15
    }
}

fn expect_lit(s: &Vec<char>, i: usize, lit: &str) -> (r: Option<usize>)
    ensures
        r matches Some(j) ==> parse_lit(s@, i as int, lit@) == Some(j as int),
        r is None ==> parse_lit(s@, i as int, lit@) is None,
{
    let n = lit.unicode_len();
    if i > s.len() || n > s.len() - i {
        return None;
    }
    let mut k: usize = 0;
    while k < n
        invariant
            k <= n,
            n == lit@.len(),
            i + n <= s@.len(),
            i + n <= usize::MAX,
            forall|q: int| 0 <= q < k ==> s@[i + q] == lit@[q],
        decreases n - k,
    {
        let c = lit.get_char(k);
        if s[i + k] != c {
            proof {
                let sub = s@.subrange(i as int, i + n);
                assert(sub[k as int] == s@[i + k]);
                assert(sub != lit@);
            }
            return None;
        }
        k = k + 1;
    }
    proof {
        assert(s@.subrange(i as int, i + n) =~= lit@);
    }
    Some(i + n)
}

fn parse_str_body_exec(s: &Vec<char>, i: usize, out: &mut Vec<char>) -> (r: Option<usize>)
    requires
        i <= s@.len(),
    ensures
        parse_str_body(s@, i as int) matches Some((content, j)) ==> (r matches Some(jj) && jj == j
            && final(out)@ == old(out)@ + content),
        parse_str_body(s@, i as int) is None ==> r is None,
    decreases s@.len() - i,
{
    if i == s.len() {
        return None;
    }
    let c = s[i];
    if c == '"' {
        proof {
            assert(old(out)@ + Seq::<char>::empty() =~= old(out)@);
        }
        Some(i)
    } else if c == '\\' {
        if i + 1 == s.len() {
            return None;
        }
        let c2 = s[i + 1];
        if c2 == '"' || c2 == '\\' {
            out.push(c2);
            let r = parse_str_body_exec(s, i + 2, out);
            proof {
                if let Some((rest, j)) = parse_str_body(s@, i + 2) {
                    assert(out@ =~= old(out)@ + (seq![s@[i + 1]] + rest));
                }
            }
            r
        } else if c2 == 'u' {
            if s.len() - i < 6 {
                return None;
            }
            if s[i + 2] != '0' || s[i + 3] != '0' {
                return None;
            }
            let h1 = s[i + 4];
            let h2 = s[i + 5];
            if !is_hex_exec(h1) || !is_hex_exec(h2) {
                return None;
            }
            let v: u32 = hex_val_exec(h1) * 16 + hex_val_exec(h2);
            let ch: char = (v as u8) as char;
            proof {
                assert(ch == (((hex_val(s@[i + 4]) * 16 + hex_val(s@[i + 5])) as u32) as char));
            }
            out.push(ch);
            let r = parse_str_body_exec(s, i + 6, out);
            proof {
                if let Some((rest, j)) = parse_str_body(s@, i + 6) {
                    assert(out@ =~= old(out)@ + (seq![ch] + rest));
                }
            }
            r
        } else {
            None
        }
    } else {
        out.push(c);
        let r = parse_str_body_exec(s, i + 1, out);
        proof {
            if let Some((rest, j)) = parse_str_body(s@, i + 1) {
                assert(out@ =~= old(out)@ + (seq![s@[i as int]] + rest));
            }
        }
        r
    }
}

fn parse_string_exec(s: &Vec<char>, i: usize) -> (r: Option<(String, usize)>)
    requires
        i <= s@.len(),
    ensures
        parse_string(s@, i as int) matches Some((content, j)) ==> (r matches Some((rs, jj))
            && rs@ == content && jj == j),
        parse_string(s@, i as int) is None ==> r is None,
{
    if i == s.len() || s[i] != '"' {
        return None;
    }
    let mut buf: Vec<char> = Vec::new();
    match parse_str_body_exec(s, i + 1, &mut buf) {
        None => None,
        Some(j) => {
            proof {
                lemma_parse_str_body_bounds(s@, i + 1);
            }
            Some((chars_to_string(buf), j + 1))
        },
    }
}

fn parse_num_exec(s: &Vec<char>, i: usize, acc: u32) -> (r: Option<(u32, usize)>)
    requires
        i <= s@.len(),
    ensures
        parse_num(s@, i as int, acc as nat) matches Some((n, j)) ==> (r matches Some((m, jj))
            && m as nat == n && jj == j),
        parse_num(s@, i as int, acc as nat) is None ==> r is None,
    decreases s@.len() - i,
{
    if i < s.len() && is_digit_exec(s[i]) {
        let d = digit_val_exec(s[i]);
        let v: u64 = (acc as u64) * 10 + (d as u64);
        if v > 0xFFFF_FFFF {
            None
        } else {
            parse_num_exec(s, i + 1, v as u32)
        }
    } else {
        Some((acc, i))
    }
}

fn parse_u32_exec(s: &Vec<char>, i: usize) -> (r: Option<(u32, usize)>)
    requires
        i <= s@.len(),
    ensures
        parse_u32(s@, i as int) matches Some((n, j)) ==> (r matches Some((m, jj)) && m == n && jj
            == j),
        parse_u32(s@, i as int) is None ==> r is None,
{
    if i < s.len() && is_digit_exec(s[i]) {
        parse_num_exec(s, i, 0)
    } else {
        None
    }
}

fn parse_bool_exec(s: &Vec<char>, i: usize) -> (r: Option<(bool, usize)>)
    ensures
        parse_bool(s@, i as int) matches Some((b, j)) ==> (r matches Some((rb, jj)) && rb == b
            && jj == j),
        parse_bool(s@, i as int) is None ==> r is None,
{
    match expect_lit(s, i, "true") {
        Some(j) => Some((true, j)),
        None => match expect_lit(s, i, "false") {
            Some(j) => Some((false, j)),
            None => None,
        },
    }
}

fn parse_launcher_exec(s: &Vec<char>, i: usize) -> (r: Option<(Launcher, usize)>)
    ensures
        parse_launcher(s@, i as int) matches Some((l, j)) ==> (r matches Some((rl, jj)) && rl == l
            && jj == j),
        parse_launcher(s@, i as int) is None ==> r is None,
{
    match expect_lit(s, i, "\"Steam\"") {
        Some(j) => Some((Launcher::Steam, j)),
        None => match expect_lit(s, i, "\"Epic\"") {
            Some(j) => Some((Launcher::Epic, j)),
            None => match expect_lit(s, i, "\"Custom\"") {
                Some(j) => Some((Launcher::Custom, j)),
                None => None,
            },
        },
    }
}

fn parse_game_exec(s: &Vec<char>, i: usize) -> (r: Option<(Game, usize)>)
    ensures
        parse_game(s@, i as int) matches Some((gv, j)) ==> (r matches Some((g, jj)) && g@ == gv
            && jj == j),
        parse_game(s@, i as int) is None ==> r is None,
{
    let j1 = match expect_lit(s, i, "{\"title\":") {
        Some(j) => j,
        None => {
            return None;
        },
    };
    let (title, j2) = match parse_string_exec(s, j1) {
        Some(x) => x,
        None => {
            return None;
        },
    };
    let j3 = match expect_lit(s, j2, ",\"cover_art\":") {
        Some(j) => j,
        None => {
            return None;
        },
    };
    let (cover_art, j4) = match parse_string_exec(s, j3) {
        Some(x) => x,
        None => {
            return None;
        },
    };
    let j5 = match expect_lit(s, j4, ",\"directory\":") {
        Some(j) => j,
        None => {
            return None;
        },
    };
    let (directory, j6) = match parse_string_exec(s, j5) {
        Some(x) => x,
        None => {
            return None;
        },
    };
    if j6 < s.len() && s[j6] == '}' {
        let g = Game { title, cover_art, directory };
        proof {
            if let Some((gv, j)) = parse_game(s@, i as int) {
                assert(g@ =~= gv);
            }
        }
        Some((g, j6 + 1))
    } else {
        None
    }
}

fn parse_games_tail_exec(s: &Vec<char>, i: usize, out: &mut Vec<Game>) -> (r: Option<usize>)
    requires
        i <= s@.len(),
    ensures
        parse_games_tail(s@, i as int) matches Some((gs, j)) ==> (r matches Some(jj) && jj == j
            && final(out).deep_view() == old(out).deep_view() + gs),
        parse_games_tail(s@, i as int) is None ==> r is None,
    decreases s@.len() - i,
{
    let (g, j) = match parse_game_exec(s, i) {
        Some(x) => x,
        None => {
            return None;
        },
    };
    proof {
        lemma_parse_game_bounds(s@, i as int);
    }
    let ghost before = out.deep_view();
    out.push(g);
    proof {
        assert(out.deep_view() =~= before.push(g@));
    }
    if j < s.len() && s[j] == ',' {
        let r = parse_games_tail_exec(s, j + 1, out);
        proof {
            if let Some((rest, j2)) = parse_games_tail(s@, j + 1) {
                assert(out.deep_view() =~= before + (seq![g@] + rest));
            }
        }
        r
    } else if j < s.len() && s[j] == ']' {
        proof {
            assert(out.deep_view() =~= before + seq![g@]);
        }
        Some(j + 1)
    } else {
        None
    }
}

fn parse_games_exec(s: &Vec<char>, i: usize) -> (r: Option<(Vec<Game>, usize)>)
    requires
        i <= s@.len(),
    ensures
        parse_games(s@, i as int) matches Some((gs, j)) ==> (r matches Some((v, jj))
            && v.deep_view() == gs && jj == j),
        parse_games(s@, i as int) is None ==> r is None,
{
    if i == s.len() || s[i] != '[' {
        return None;
    }
    if i + 1 < s.len() && s[i + 1] == ']' {
        let v: Vec<Game> = Vec::new();
        proof {
            assert(v.deep_view() =~= Seq::<crate::game::GameView>::empty());
        }
        return Some((v, i + 2));
    }
    let mut v: Vec<Game> = Vec::new();
    match parse_games_tail_exec(s, i + 1, &mut v) {
        Some(j) => {
            proof {
                if let Some((gs, jj)) = parse_games_tail(s@, i + 1) {
                    assert(v.deep_view() =~= gs);
                }
            }
            Some((v, j))
        },
        None => None,
    }
}

fn parse_dir_exec(s: &Vec<char>, i: usize) -> (r: Option<(GameDirectory, usize)>)
    ensures
        parse_dir(s@, i as int) matches Some((dv, j)) ==> (r matches Some((d, jj)) && d@ == dv
            && jj == j),
        parse_dir(s@, i as int) is None ==> r is None,
{
    let j1 = match expect_lit(s, i, "{\"launcher\":") {
        Some(j) => j,
        None => {
            return None;
        },
    };
    let (launcher, j2) = match parse_launcher_exec(s, j1) {
        Some(x) => x,
        None => {
            return None;
        },
    };
    let j3 = match expect_lit(s, j2, ",\"path\":") {
        Some(j) => j,
        None => {
            return None;
        },
    };
    let (path, j4) = match parse_string_exec(s, j3) {
        Some(x) => x,
        None => {
            return None;
        },
    };
    let j5 = match expect_lit(s, j4, ",\"icon\":") {
        Some(j) => j,
        None => {
            return None;
        },
    };
    let (icon, j6) = match parse_string_exec(s, j5) {
        Some(x) => x,
        None => {
            return None;
        },
    };
    let j7 = match expect_lit(s, j6, ",\"games\":") {
        Some(j) => j,
        None => {
            return None;
        },
    };
    let (games, j8) = match parse_games_exec(s, j7) {
        Some(x) => x,
        None => {
            return None;
        },
    };
    if j8 < s.len() && s[j8] == '}' {
        let d = GameDirectory { launcher, path, icon, games };
        proof {
            if let Some((dv, j)) = parse_dir(s@, i as int) {
                assert(d@ =~= dv);
            }
        }
        Some((d, j8 + 1))
    } else {
        None
    }
}

fn parse_dirs_tail_exec(s: &Vec<char>, i: usize, out: &mut Vec<GameDirectory>) -> (r: Option<
    usize,
>)
    requires
        i <= s@.len(),
    ensures
        parse_dirs_tail(s@, i as int) matches Some((ds, j)) ==> (r matches Some(jj) && jj == j
            && final(out).deep_view() == old(out).deep_view() + ds),
        parse_dirs_tail(s@, i as int) is None ==> r is None,
    decreases s@.len() - i,
{
    let (d, j) = match parse_dir_exec(s, i) {
        Some(x) => x,
        None => {
            return None;
        },
    };
    proof {
        lemma_parse_dir_bounds(s@, i as int);
    }
    let ghost before = out.deep_view();
    out.push(d);
    proof {
        assert(out.deep_view() =~= before.push(d@));
    }
    if j < s.len() && s[j] == ',' {
        let r = parse_dirs_tail_exec(s, j + 1, out);
        proof {
            if let Some((rest, j2)) = parse_dirs_tail(s@, j + 1) {
                assert(out.deep_view() =~= before + (seq![d@] + rest));
            }
        }
        r
    } else if j < s.len() && s[j] == ']' {
        proof {
            assert(out.deep_view() =~= before + seq![d@]);
        }
        Some(j + 1)
    } else {
        None
    }
}

fn parse_dirs_exec(s: &Vec<char>, i: usize) -> (r: Option<(Vec<GameDirectory>, usize)>)
    requires
        i <= s@.len(),
    ensures
        parse_dirs(s@, i as int) matches Some((ds, j)) ==> (r matches Some((v, jj))
            && v.deep_view() == ds && jj == j),
        parse_dirs(s@, i as int) is None ==> r is None,
{
    if i == s.len() || s[i] != '[' {
        return None;
    }
    if i + 1 < s.len() && s[i + 1] == ']' {
        let v: Vec<GameDirectory> = Vec::new();
        proof {
            assert(v.deep_view() =~= Seq::<crate::config::GameDirectoryView>::empty());
        }
        return Some((v, i + 2));
    }
    let mut v: Vec<GameDirectory> = Vec::new();
    match parse_dirs_tail_exec(s, i + 1, &mut v) {
        Some(j) => {
            proof {
                if let Some((ds, jj)) = parse_dirs_tail(s@, i + 1) {
                    assert(v.deep_view() =~= ds);
                }
            }
            Some((v, j))
        },
        None => None,
    }
}

fn parse_display_exec(s: &Vec<char>, i: usize) -> (r: Option<(DisplaySettings, usize)>)
    ensures
        parse_display(s@, i as int) matches Some((dv, j)) ==> (r matches Some((d, jj)) && d == dv
            && jj == j),
        parse_display(s@, i as int) is None ==> r is None,
{
    let j1 = match expect_lit(s, i, "{\"width\":") {
        Some(j) => j,
        None => {
            return None;
        },
    };
    let (width, j2) = match parse_u32_exec(s, j1) {
        Some(x) => x,
        None => {
            return None;
        },
    };
    let j3 = match expect_lit(s, j2, ",\"height\":") {
        Some(j) => j,
        None => {
            return None;
        },
    };
    let (height, j4) = match parse_u32_exec(s, j3) {
        Some(x) => x,
        None => {
            return None;
        },
    };
    let j5 = match expect_lit(s, j4, ",\"centered\":") {
        Some(j) => j,
        None => {
            return None;
        },
    };
    let (centered, j6) = match parse_bool_exec(s, j5) {
        Some(x) => x,
        None => {
            return None;
        },
    };
    if j6 < s.len() && s[j6] == '}' {
        Some((DisplaySettings { width, height, centered }, j6 + 1))
    } else {
        None
    }
}

fn parse_config_exec(s: &Vec<char>, i: usize) -> (r: Option<(Config, usize)>)
    ensures
        parse_config(s@, i as int) matches Some((cv, j)) ==> (r matches Some((c, jj)) && c@ == cv
            && jj == j),
        parse_config(s@, i as int) is None ==> r is None,
{
    let j1 = match expect_lit(s, i, "{\"display\":") {
        Some(j) => j,
        None => {
            return None;
        },
    };
    let (display, j2) = match parse_display_exec(s, j1) {
        Some(x) => x,
        None => {
            return None;
        },
    };
    let j3 = match expect_lit(s, j2, ",\"theme\":") {
        Some(j) => j,
        None => {
            return None;
        },
    };
    let (theme, j4) = match parse_string_exec(s, j3) {
        Some(x) => x,
        None => {
            return None;
        },
    };
    let j5 = match expect_lit(s, j4, ",\"run_on_startup\":") {
        Some(j) => j,
        None => {
            return None;
        },
    };
    let (run_on_startup, j6) = match parse_bool_exec(s, j5) {
        Some(x) => x,
        None => {
            return None;
        },
    };
    let j7 = match expect_lit(s, j6, ",\"directories\":") {
        Some(j) => j,
        None => {
            return None;
        },
    };
    let (directories, j8) = match parse_dirs_exec(s, j7) {
        Some(x) => x,
        None => {
            return None;
        },
    };
    if j8 < s.len() && s[j8] == '}' {
        let c = Config { display, theme, run_on_startup, directories };
        proof {
            if let Some((cv, j)) = parse_config(s@, i as int) {
                assert(c@ =~= cv);
            }
        }
        Some((c, j8 + 1))
    } else {
        None
    }
}

impl Config {
    /// The document that persists this configuration.
    pub fn to_json(&self) -> (s: String)
        ensures
            s@ == config_json(self@),
    {
        let mut out: Vec<char> = Vec::new();
        push_str_chars(&mut out, "{\"display\":");
        push_display(&mut out, &self.display);
        push_str_chars(&mut out, ",\"theme\":");
        push_string_json(&mut out, self.theme.as_str());
        push_str_chars(&mut out, ",\"run_on_startup\":");
        push_bool(&mut out, self.run_on_startup);
        push_str_chars(&mut out, ",\"directories\":");
        push_dirs(&mut out, &self.directories);
        out.push('}');
        proof {
            assert(out@ =~= config_json(self@));
        }
        chars_to_string(out)
    }

    /// The configuration a saved document holds; a document that is not
    /// exactly such a document is a parse error.
    pub fn from_json(s: &str) -> (r: Result<Config, LoadoutError>)
        ensures
            parse_config_doc(s@) matches Some(c) ==> (r matches Ok(cfg) && cfg@ == c),
            parse_config_doc(s@) is None ==> (r matches Err(LoadoutError::ConfigParseError)),
    {
        let chars = str_chars(s);
        match parse_config_exec(&chars, 0) {
            Some((c, j)) => if j == chars.len() {
                Ok(c)
            } else {
                Err(LoadoutError::ConfigParseError)
            },
            None => Err(LoadoutError::ConfigParseError),
        }
    }

    /// The configuration the application starts from: the saved document's
    /// value, or the default configuration where no file exists or its
    /// content does not parse.
    pub fn load(content: Option<&str>) -> (c: Config)
        ensures
            (match content {
                None => c@ == crate::config::default_config(),
                Some(s) => match parse_config_doc(s@) {
                    Some(v) => c@ == v,
                    None => c@ == crate::config::default_config(),
                },
            }),
    {
        match content {
            None => Config::default(),
            Some(s) => match Config::from_json(s) {
                Ok(c) => c,
                Err(_) => Config::default(),
            },
        }
    }
}

} // verus!
