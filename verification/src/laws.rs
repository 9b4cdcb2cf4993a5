//! The persistence law: a saved configuration document parses back to the
//! configuration it was printed from, exactly.

use vstd::prelude::*;

use crate::config::{ConfigView, DisplaySettings, GameDirectoryView, Launcher};
use crate::game::GameView;
use crate::json::{
    bool_json, config_json, dec_digits, digit_char, digit_val, dir_json, dirs_json,
    dirs_tail_json, display_json, escape_char, escape_string, game_json, games_json,
    games_tail_json, hex_digit_char, hex_val, is_digit, is_hex, launcher_json, parse_bool,
    parse_config, parse_config_doc, parse_dir, parse_dirs, parse_dirs_tail, parse_display,
    parse_game, parse_games, parse_games_tail, parse_launcher, parse_lit, parse_num,
    parse_str_body, parse_string, parse_u32, string_json, u32_json,
};

verus! {

// ---------------------------------------------------------------------------
// Splitting a printed region into its pieces
// ---------------------------------------------------------------------------
proof fn lemma_region_split(s: Seq<char>, i: int, a: Seq<char>, b: Seq<char>)
    requires
        0 <= i,
        i + a.len() + b.len() <= s.len(),
        s.subrange(i, i + a.len() + b.len()) == a + b,
    ensures
        s.subrange(i, i + a.len()) == a,
        s.subrange(i + a.len(), i + a.len() + b.len()) == b,
{
    let whole = s.subrange(i, i + a.len() + b.len());
    assert(s.subrange(i, i + a.len()) =~= a) by {
        assert forall|k: int| 0 <= k < a.len() implies s.subrange(i, i + a.len())[k] == a[k] by {
            assert(whole[k] == (a + b)[k]);
        }
    }
    assert(s.subrange(i + a.len(), i + a.len() + b.len()) =~= b) by {
        assert forall|k: int|
            0 <= k < b.len() implies s.subrange(i + a.len(), i + a.len() + b.len())[k] == b[k] by {
            assert(whole[a.len() + k] == (a + b)[a.len() + k]);
        }
    }
}

/// A token at the start of a printed region parses as itself.
proof fn lemma_lit_at(s: Seq<char>, i: int, lit: Seq<char>)
    requires
        0 <= i,
        i + lit.len() <= s.len(),
        s.subrange(i, i + lit.len()) == lit,
    ensures
        parse_lit(s, i, lit) == Some(i + lit.len()),
{
}

// ---------------------------------------------------------------------------
// Numbers
// ---------------------------------------------------------------------------
pub open spec fn pow10(k: nat) -> nat
    decreases k,
{
    if k == 0 {
        1
    } else {
        10 * pow10((k - 1) as nat)
    }
}

/// The value of a digit sequence, most significant digit first.
pub open spec fn digits_val(ds: Seq<char>) -> int
    decreases ds.len(),
{
    if ds.len() == 0 {
        0
    } else {
        digits_val(ds.drop_last()) * 10 + digit_val(ds.last())
    }
}

pub open spec fn all_digits(ds: Seq<char>) -> bool {
    forall|k: int| 0 <= k < ds.len() ==> is_digit(#[trigger] ds[k])
}

proof fn lemma_pow10_pos(k: nat)
    ensures
        pow10(k) >= 1,
    decreases k,
{
    if k > 0 {
        lemma_pow10_pos((k - 1) as nat);
    }
}

proof fn lemma_digits_val_nonneg(ds: Seq<char>)
    ensures
        digits_val(ds) >= 0,
    decreases ds.len(),
{
    if ds.len() > 0 {
        lemma_digits_val_nonneg(ds.drop_last());
    }
}

/// Peeling the most significant digit off the front of a digit region.
proof fn lemma_digits_val_peel(s: Seq<char>, i: int, j: int)
    requires
        0 <= i < j <= s.len(),
    ensures
        digits_val(s.subrange(i, j)) == digit_val(s[i]) * pow10((j - i - 1) as nat) + digits_val(
            s.subrange(i + 1, j),
        ),
    decreases j - i,
{
    if j == i + 1 {
        let one = s.subrange(i, j);
        assert(one.len() == 1);
        assert(one.drop_last() =~= Seq::<char>::empty());
        assert(one.last() == s[i]);
        assert(s.subrange(i + 1, j) =~= Seq::<char>::empty());
        assert(pow10(0) == 1);
    } else {
        lemma_digits_val_peel(s, i, j - 1);
        let whole = s.subrange(i, j);
        assert(whole.drop_last() =~= s.subrange(i, j - 1));
        assert(whole.last() == s[j - 1]);
        let tail = s.subrange(i + 1, j);
        assert(tail.drop_last() =~= s.subrange(i + 1, j - 1));
        assert(tail.last() == s[j - 1]);
        let d0 = digit_val(s[i]);
        let p = pow10((j - 1 - i - 1) as nat);
        assert(pow10((j - i - 1) as nat) == 10 * p);
        assert(digits_val(whole) == (d0 * p + digits_val(s.subrange(i + 1, j - 1))) * 10
            + digit_val(s[j - 1]));
        assert((d0 * p + digits_val(s.subrange(i + 1, j - 1))) * 10 == d0 * p * 10 + digits_val(
            s.subrange(i + 1, j - 1),
        ) * 10) by (nonlinear_arith);
        assert(d0 * p * 10 == d0 * (10 * p)) by (nonlinear_arith);
    }
}

/// Reading a digit region accumulates its value.
proof fn lemma_parse_num_digits(s: Seq<char>, i: int, j: int, acc: nat)
    requires
        0 <= i <= j <= s.len(),
        forall|k: int| i <= k < j ==> is_digit(#[trigger] s[k]),
        j == s.len() || !is_digit(s[j]),
        acc * pow10((j - i) as nat) + digits_val(s.subrange(i, j)) <= u32::MAX,
    ensures
        parse_num(s, i, acc) == Some(
            ((acc * pow10((j - i) as nat) + digits_val(s.subrange(i, j))) as nat, j),
        ),
    decreases j - i,
{
    lemma_digits_val_nonneg(s.subrange(i, j));
    if i == j {
        assert(s.subrange(i, j) =~= Seq::<char>::empty());
        assert(pow10((j - i) as nat) == 1);
        assert(acc * pow10((j - i) as nat) == acc) by (nonlinear_arith)
            requires
                pow10((j - i) as nat) == 1,
        ;
    } else {
        let ll = (j - i) as nat;
        let lm = (j - i - 1) as nat;
        let d0 = digit_val(s[i]);
        let rest = digits_val(s.subrange(i + 1, j));
        lemma_digits_val_nonneg(s.subrange(i + 1, j));
        lemma_digits_val_peel(s, i, j);
        lemma_pow10_pos(lm);
        let v = acc * 10 + d0;
        let total = acc * pow10(ll) + digits_val(s.subrange(i, j));
        assert(acc * pow10(ll) == (acc * 10) * pow10(lm)) by (nonlinear_arith)
            requires
                pow10(ll) == 10 * pow10(lm),
        ;
        assert(v * pow10(lm) == (acc * 10) * pow10(lm) + d0 * pow10(lm)) by (nonlinear_arith)
            requires
                v == acc * 10 + d0,
        ;
        assert(total == v * pow10(lm) + rest);
        assert(v <= v * pow10(lm)) by (nonlinear_arith)
            requires
                v >= 0,
                pow10(lm) >= 1,
        ;
        assert(v <= u32::MAX);
        lemma_parse_num_digits(s, i + 1, j, v as nat);
        assert(parse_num(s, i, acc) == parse_num(s, i + 1, v as nat));
    }
}

/// The decimal print of a number is made of digits and has its value.
proof fn lemma_dec_digits_props(n: nat)
    ensures
        dec_digits(n).len() >= 1,
        all_digits(dec_digits(n)),
        digits_val(dec_digits(n)) == n,
    decreases n,
{
    if n < 10 {
        let ds = dec_digits(n);
        assert(ds =~= seq![digit_char(n as int)]);
        assert(ds.drop_last() =~= Seq::<char>::empty());
        assert(ds.last() == digit_char(n as int));
        assert(is_digit(digit_char(n as int)));
        assert(digit_val(digit_char(n as int)) == n);
        assert(digits_val(ds) == digits_val(ds.drop_last()) * 10 + digit_val(ds.last()));
    } else {
        lemma_dec_digits_props(n / 10);
        let ds = dec_digits(n);
        let head = dec_digits(n / 10);
        assert(ds == head + seq![digit_char((n % 10) as int)]);
        assert(ds.drop_last() =~= head);
        assert(ds.last() == digit_char((n % 10) as int));
        assert(digits_val(ds) == (n / 10) * 10 + n % 10);
        assert(all_digits(ds)) by {
            assert forall|k: int| 0 <= k < ds.len() implies is_digit(#[trigger] ds[k]) by {
                if k < head.len() {
                    assert(ds[k] == head[k]);
                } else {
                    assert(ds[k] == digit_char((n % 10) as int));
                }
            }
        }
    }
}

/// A printed number, followed by anything that is not a digit, parses back
/// to itself.
proof fn lemma_u32_at(s: Seq<char>, i: int, n: u32)
    requires
        0 <= i,
        i + u32_json(n).len() <= s.len(),
        s.subrange(i, i + u32_json(n).len()) == u32_json(n),
        i + u32_json(n).len() == s.len() || !is_digit(s[i + u32_json(n).len()]),
    ensures
        parse_u32(s, i) == Some((n, i + u32_json(n).len())),
{
    lemma_dec_digits_props(n as nat);
    let ds = dec_digits(n as nat);
    let j = i + ds.len();
    assert(s.subrange(i, j) == ds);
    assert forall|k: int| i <= k < j implies is_digit(#[trigger] s[k]) by {
        assert(s[k] == ds[k - i]);
    }
    assert(is_digit(s[i]));
    lemma_parse_num_digits(s, i, j, 0);
    assert(pow10((j - i) as nat) >= 1) by {
        lemma_pow10_pos((j - i) as nat);
    }
    assert(0 * pow10((j - i) as nat) + digits_val(s.subrange(i, j)) == n as int);
}

// ---------------------------------------------------------------------------
// Strings
// ---------------------------------------------------------------------------
/// An escaped string content, up to its closing quote, parses back to the
/// content it was printed from.
proof fn lemma_str_body_at(s: Seq<char>, i: int, x: Seq<char>)
    requires
        0 <= i,
        i + escape_string(x).len() < s.len(),
        s.subrange(i, i + escape_string(x).len()) == escape_string(x),
        s[i + escape_string(x).len()] == '"',
    ensures
        parse_str_body(s, i) == Some((x, i + escape_string(x).len())),
    decreases x.len(),
{
    if x.len() == 0 {
        assert(escape_string(x).len() == 0);
        assert(s[i] == '"');
    } else {
        let e0 = escape_char(x[0]);
        let rest = escape_string(x.skip(1));
        assert(escape_string(x) == e0 + rest);
        let j0 = i + e0.len();
        lemma_region_split(s, i, e0, rest);
        assert forall|k: int| 0 <= k < e0.len() implies s[i + k] == e0[k] by {
            assert(s.subrange(i, j0)[k] == s[i + k]);
        }
        lemma_str_body_at(s, j0, x.skip(1));
        assert(seq![x[0]] + x.skip(1) =~= x);
        if x[0] == '"' {
            assert(e0 == seq!['\\', '"']);
            assert(s[i] == '\\' && s[i + 1] == '"');
            assert(parse_str_body(s, i) == Some((x, i + escape_string(x).len())));
        } else if x[0] == '\\' {
            assert(e0 == seq!['\\', '\\']);
            assert(s[i] == '\\' && s[i + 1] == '\\');
            assert(parse_str_body(s, i) == Some((x, i + escape_string(x).len())));
        } else if (x[0] as u32) < 32 {
            let v = (x[0] as u32) as int;
            assert(e0 == seq!['\\', 'u', '0', '0', hex_digit_char(v / 16), hex_digit_char(
                v % 16,
            )]);
            assert(s[i] == '\\' && s[i + 1] == 'u' && s[i + 2] == '0' && s[i + 3] == '0');
            assert(s[i + 4] == hex_digit_char(v / 16) && s[i + 5] == hex_digit_char(v % 16));
            assert(0 <= v / 16 < 16 && 0 <= v % 16 < 16);
            assert(is_hex(s[i + 4]) && hex_val(s[i + 4]) == v / 16);
            assert(is_hex(s[i + 5]) && hex_val(s[i + 5]) == v % 16);
            assert(hex_val(s[i + 4]) * 16 + hex_val(s[i + 5]) == v);
            vstd::utf8::char_u32_cast(x[0], x[0] as u32);
            assert(((v as u32) as char) == x[0]);
            assert(parse_str_body(s, i) == Some((x, i + escape_string(x).len())));
        } else {
            assert(e0 == seq![x[0]]);
            assert(s[i] == x[0]);
            assert(parse_str_body(s, i) == Some((x, i + escape_string(x).len())));
        }
    }
}

/// A printed string parses back to itself.
proof fn lemma_string_at(s: Seq<char>, i: int, x: Seq<char>)
    requires
        0 <= i,
        i + string_json(x).len() <= s.len(),
        s.subrange(i, i + string_json(x).len()) == string_json(x),
    ensures
        parse_string(s, i) == Some((x, i + string_json(x).len())),
{
    let q = seq!['"'];
    let esc = escape_string(x);
    assert(string_json(x) == q + esc + q);
    lemma_region_split(s, i, q + esc, q);
    lemma_region_split(s, i, q, esc);
    assert(s[i] == '"') by {
        assert(s.subrange(i, i + 1)[0] == s[i]);
    }
    assert(s[i + 1 + esc.len()] == '"') by {
        assert(s.subrange(i + (q + esc).len(), i + string_json(x).len())[0] == s[i + 1
            + esc.len()]);
    }
    lemma_str_body_at(s, i + 1, x);
}

// ---------------------------------------------------------------------------
// Booleans and launchers
// ---------------------------------------------------------------------------
proof fn lemma_bool_at(s: Seq<char>, i: int, b: bool)
    requires
        0 <= i,
        i + bool_json(b).len() <= s.len(),
        s.subrange(i, i + bool_json(b).len()) == bool_json(b),
    ensures
        parse_bool(s, i) == Some((b, i + bool_json(b).len())),
{
    reveal_strlit("true");
    reveal_strlit("false");
    if b {
        lemma_lit_at(s, i, "true"@);
    } else {
        assert(s[i] == 'f') by {
            assert(s.subrange(i, i + 5)[0] == s[i]);
        }
        assert(parse_lit(s, i, "true"@) is None) by {
            if i + 4 <= s.len() {
                assert(s.subrange(i, i + 4)[0] == s[i]);
            }
        }
        lemma_lit_at(s, i, "false"@);
    }
}

proof fn lemma_launcher_at(s: Seq<char>, i: int, l: Launcher)
    requires
        0 <= i,
        i + launcher_json(l).len() <= s.len(),
        s.subrange(i, i + launcher_json(l).len()) == launcher_json(l),
    ensures
        parse_launcher(s, i) == Some((l, i + launcher_json(l).len())),
{
    reveal_strlit("\"Steam\"");
    reveal_strlit("\"Epic\"");
    reveal_strlit("\"Custom\"");
    match l {
        Launcher::Steam => {
            lemma_lit_at(s, i, "\"Steam\""@);
        },
        Launcher::Epic => {
            assert(s[i + 1] == 'E') by {
                assert(s.subrange(i, i + 6)[1] == s[i + 1]);
            }
            assert(parse_lit(s, i, "\"Steam\""@) is None) by {
                if i + 7 <= s.len() {
                    assert(s.subrange(i, i + 7)[1] == s[i + 1]);
                }
            }
            lemma_lit_at(s, i, "\"Epic\""@);
        },
        Launcher::Custom => {
            assert(s[i + 1] == 'C') by {
                assert(s.subrange(i, i + 8)[1] == s[i + 1]);
            }
            assert(parse_lit(s, i, "\"Steam\""@) is None) by {
                if i + 7 <= s.len() {
                    assert(s.subrange(i, i + 7)[1] == s[i + 1]);
                }
            }
            assert(parse_lit(s, i, "\"Epic\""@) is None) by {
                if i + 6 <= s.len() {
                    assert(s.subrange(i, i + 6)[1] == s[i + 1]);
                }
            }
            lemma_lit_at(s, i, "\"Custom\""@);
        },
    }
}

// ---------------------------------------------------------------------------
// Games
// ---------------------------------------------------------------------------
/// A printed game object parses back to itself.
proof fn lemma_game_at(s: Seq<char>, i: int, g: GameView)
    requires
        0 <= i,
        i + game_json(g).len() <= s.len(),
        s.subrange(i, i + game_json(g).len()) == game_json(g),
    ensures
        parse_game(s, i) == Some((g, i + game_json(g).len())),
{
    let a1 = "{\"title\":"@;
    let s1 = string_json(g.title);
    let a2 = ",\"cover_art\":"@;
    let s2 = string_json(g.cover_art);
    let a3 = ",\"directory\":"@;
    let s3 = string_json(g.directory);
    let w = seq!['}'];
    let x1 = a1 + s1;
    let x2 = x1 + a2;
    let x3 = x2 + s2;
    let x4 = x3 + a3;
    let x5 = x4 + s3;
    assert(game_json(g) == x5 + w);
    lemma_region_split(s, i, x5, w);
    lemma_region_split(s, i, x4, s3);
    lemma_region_split(s, i, x3, a3);
    lemma_region_split(s, i, x2, s2);
    lemma_region_split(s, i, x1, a2);
    lemma_region_split(s, i, a1, s1);
    lemma_lit_at(s, i, a1);
    lemma_string_at(s, i + a1.len(), g.title);
    lemma_lit_at(s, i + x1.len(), a2);
    lemma_string_at(s, i + x2.len(), g.cover_art);
    lemma_lit_at(s, i + x3.len(), a3);
    lemma_string_at(s, i + x4.len(), g.directory);
    assert(s[i + x5.len()] == '}') by {
        assert(s.subrange(i + x5.len(), i + game_json(g).len())[0] == s[i + x5.len()]);
    }
    assert(parse_game(s, i) matches Some((gv, j)) && gv =~= g && j == i + game_json(g).len());
}

/// The printed tail of a non-empty game list parses back to the games.
proof fn lemma_games_tail_at(s: Seq<char>, i: int, gs: Seq<GameView>)
    requires
        0 <= i,
        gs.len() >= 1,
        i + games_tail_json(gs).len() <= s.len(),
        s.subrange(i, i + games_tail_json(gs).len()) == games_tail_json(gs),
    ensures
        parse_games_tail(s, i) == Some((gs, i + games_tail_json(gs).len())),
    decreases gs.len(),
{
    let g0 = game_json(gs[0]);
    if gs.len() == 1 {
        let w = seq![']'];
        assert(games_tail_json(gs) == g0 + w);
        lemma_region_split(s, i, g0, w);
        lemma_game_at(s, i, gs[0]);
        let j = i + g0.len();
        assert(s[j] == ']') by {
            assert(s.subrange(j, i + games_tail_json(gs).len())[0] == s[j]);
        }
        assert(seq![gs[0]] =~= gs);
    } else {
        let w = seq![','];
        let rest = games_tail_json(gs.skip(1));
        assert(games_tail_json(gs) == g0 + w + rest);
        lemma_region_split(s, i, g0 + w, rest);
        lemma_region_split(s, i, g0, w);
        lemma_game_at(s, i, gs[0]);
        let j = i + g0.len();
        assert(s[j] == ',') by {
            assert(s.subrange(j, j + 1)[0] == s[j]);
        }
        lemma_games_tail_at(s, j + 1, gs.skip(1));
        assert(seq![gs[0]] + gs.skip(1) =~= gs);
    }
}

/// A printed game list parses back to the games.
proof fn lemma_games_at(s: Seq<char>, i: int, gs: Seq<GameView>)
    requires
        0 <= i,
        i + games_json(gs).len() <= s.len(),
        s.subrange(i, i + games_json(gs).len()) == games_json(gs),
    ensures
        parse_games(s, i) == Some((gs, i + games_json(gs).len())),
{
    if gs.len() == 0 {
        assert(s[i] == '[' && s[i + 1] == ']') by {
            assert(s.subrange(i, i + 2)[0] == s[i]);
            assert(s.subrange(i, i + 2)[1] == s[i + 1]);
        }
        assert(Seq::<GameView>::empty() =~= gs);
    } else {
        let b = seq!['['];
        let rest = games_tail_json(gs);
        assert(games_json(gs) == b + rest);
        lemma_region_split(s, i, b, rest);
        assert(s[i] == '[') by {
            assert(s.subrange(i, i + 1)[0] == s[i]);
        }
        reveal_strlit("{\"title\":");
        assert(s[i + 1] == '{') by {
            let a1 = "{\"title\":"@;
            assert(rest[0] == game_json(gs[0])[0]);
            assert(game_json(gs[0])[0] == a1[0]);
            assert(s.subrange(i + 1, i + 1 + rest.len())[0] == s[i + 1]);
        }
        lemma_games_tail_at(s, i + 1, gs);
    }
}

// ---------------------------------------------------------------------------
// Directories
// ---------------------------------------------------------------------------
/// A printed directory object parses back to itself.
proof fn lemma_dir_at(s: Seq<char>, i: int, d: GameDirectoryView)
    requires
        0 <= i,
        i + dir_json(d).len() <= s.len(),
        s.subrange(i, i + dir_json(d).len()) == dir_json(d),
    ensures
        parse_dir(s, i) == Some((d, i + dir_json(d).len())),
{
    let a1 = "{\"launcher\":"@;
    let s1 = launcher_json(d.launcher);
    let a2 = ",\"path\":"@;
    let s2 = string_json(d.path);
    let a3 = ",\"icon\":"@;
    let s3 = string_json(d.icon);
    let a4 = ",\"games\":"@;
    let s4 = games_json(d.games);
    let w = seq!['}'];
    let x1 = a1 + s1;
    let x2 = x1 + a2;
    let x3 = x2 + s2;
    let x4 = x3 + a3;
    let x5 = x4 + s3;
    let x6 = x5 + a4;
    let x7 = x6 + s4;
    assert(dir_json(d) == x7 + w);
    lemma_region_split(s, i, x7, w);
    lemma_region_split(s, i, x6, s4);
    lemma_region_split(s, i, x5, a4);
    lemma_region_split(s, i, x4, s3);
    lemma_region_split(s, i, x3, a3);
    lemma_region_split(s, i, x2, s2);
    lemma_region_split(s, i, x1, a2);
    lemma_region_split(s, i, a1, s1);
    lemma_lit_at(s, i, a1);
    lemma_launcher_at(s, i + a1.len(), d.launcher);
    lemma_lit_at(s, i + x1.len(), a2);
    lemma_string_at(s, i + x2.len(), d.path);
    lemma_lit_at(s, i + x3.len(), a3);
    lemma_string_at(s, i + x4.len(), d.icon);
    lemma_lit_at(s, i + x5.len(), a4);
    lemma_games_at(s, i + x6.len(), d.games);
    assert(s[i + x7.len()] == '}') by {
        assert(s.subrange(i + x7.len(), i + dir_json(d).len())[0] == s[i + x7.len()]);
    }
    assert(parse_dir(s, i) matches Some((dv, j)) && dv =~= d && j == i + dir_json(d).len());
}

/// The printed tail of a non-empty directory list parses back to the
/// directories.
proof fn lemma_dirs_tail_at(s: Seq<char>, i: int, ds: Seq<GameDirectoryView>)
    requires
        0 <= i,
        ds.len() >= 1,
        i + dirs_tail_json(ds).len() <= s.len(),
        s.subrange(i, i + dirs_tail_json(ds).len()) == dirs_tail_json(ds),
    ensures
        parse_dirs_tail(s, i) == Some((ds, i + dirs_tail_json(ds).len())),
    decreases ds.len(),
{
    let d0 = dir_json(ds[0]);
    if ds.len() == 1 {
        let w = seq![']'];
        assert(dirs_tail_json(ds) == d0 + w);
        lemma_region_split(s, i, d0, w);
        lemma_dir_at(s, i, ds[0]);
        let j = i + d0.len();
        assert(s[j] == ']') by {
            assert(s.subrange(j, i + dirs_tail_json(ds).len())[0] == s[j]);
        }
        assert(seq![ds[0]] =~= ds);
    } else {
        let w = seq![','];
        let rest = dirs_tail_json(ds.skip(1));
        assert(dirs_tail_json(ds) == d0 + w + rest);
        lemma_region_split(s, i, d0 + w, rest);
        lemma_region_split(s, i, d0, w);
        lemma_dir_at(s, i, ds[0]);
        let j = i + d0.len();
        assert(s[j] == ',') by {
            assert(s.subrange(j, j + 1)[0] == s[j]);
        }
        lemma_dirs_tail_at(s, j + 1, ds.skip(1));
        assert(seq![ds[0]] + ds.skip(1) =~= ds);
    }
}

/// A printed directory list parses back to the directories.
proof fn lemma_dirs_at(s: Seq<char>, i: int, ds: Seq<GameDirectoryView>)
    requires
        0 <= i,
        i + dirs_json(ds).len() <= s.len(),
        s.subrange(i, i + dirs_json(ds).len()) == dirs_json(ds),
    ensures
        parse_dirs(s, i) == Some((ds, i + dirs_json(ds).len())),
{
    if ds.len() == 0 {
        assert(s[i] == '[' && s[i + 1] == ']') by {
            assert(s.subrange(i, i + 2)[0] == s[i]);
            assert(s.subrange(i, i + 2)[1] == s[i + 1]);
        }
        assert(Seq::<GameDirectoryView>::empty() =~= ds);
    } else {
        let b = seq!['['];
        let rest = dirs_tail_json(ds);
        assert(dirs_json(ds) == b + rest);
        lemma_region_split(s, i, b, rest);
        assert(s[i] == '[') by {
            assert(s.subrange(i, i + 1)[0] == s[i]);
        }
        reveal_strlit("{\"launcher\":");
        assert(s[i + 1] == '{') by {
            let a1 = "{\"launcher\":"@;
            assert(rest[0] == dir_json(ds[0])[0]);
            assert(dir_json(ds[0])[0] == a1[0]);
            assert(s.subrange(i + 1, i + 1 + rest.len())[0] == s[i + 1]);
        }
        lemma_dirs_tail_at(s, i + 1, ds);
    }
}

// ---------------------------------------------------------------------------
// Display settings and the whole document
// ---------------------------------------------------------------------------
/// A printed display-settings object parses back to itself.
proof fn lemma_display_at(s: Seq<char>, i: int, d: DisplaySettings)
    requires
        0 <= i,
        i + display_json(d).len() <= s.len(),
        s.subrange(i, i + display_json(d).len()) == display_json(d),
    ensures
        parse_display(s, i) == Some((d, i + display_json(d).len())),
{
    let a1 = "{\"width\":"@;
    let s1 = u32_json(d.width);
    let a2 = ",\"height\":"@;
    let s2 = u32_json(d.height);
    let a3 = ",\"centered\":"@;
    let s3 = bool_json(d.centered);
    let w = seq!['}'];
    let x1 = a1 + s1;
    let x2 = x1 + a2;
    let x3 = x2 + s2;
    let x4 = x3 + a3;
    let x5 = x4 + s3;
    assert(display_json(d) == x5 + w);
    lemma_region_split(s, i, x5, w);
    lemma_region_split(s, i, x4, s3);
    lemma_region_split(s, i, x3, a3);
    lemma_region_split(s, i, x2, s2);
    lemma_region_split(s, i, x1, a2);
    lemma_region_split(s, i, a1, s1);
    lemma_lit_at(s, i, a1);
    reveal_strlit(",\"height\":");
    reveal_strlit(",\"centered\":");
    assert(s[i + x1.len()] == ',') by {
        assert(s.subrange(i + x1.len(), i + x2.len())[0] == s[i + x1.len()]);
    }
    lemma_u32_at(s, i + a1.len(), d.width);
    lemma_lit_at(s, i + x1.len(), a2);
    assert(s[i + x3.len()] == ',') by {
        assert(s.subrange(i + x3.len(), i + x4.len())[0] == s[i + x3.len()]);
    }
    lemma_u32_at(s, i + x2.len(), d.height);
    lemma_lit_at(s, i + x3.len(), a3);
    lemma_bool_at(s, i + x4.len(), d.centered);
    assert(s[i + x5.len()] == '}') by {
        assert(s.subrange(i + x5.len(), i + display_json(d).len())[0] == s[i + x5.len()]);
    }
}

/// A printed configuration parses back to itself.
#[verifier::rlimit(100)]
proof fn lemma_config_at(s: Seq<char>, i: int, c: ConfigView)
    requires
        0 <= i,
        i + config_json(c).len() <= s.len(),
        s.subrange(i, i + config_json(c).len()) == config_json(c),
    ensures
        parse_config(s, i) == Some((c, i + config_json(c).len())),
{
    let a1 = "{\"display\":"@;
    let s1 = display_json(c.display);
    let a2 = ",\"theme\":"@;
    let s2 = string_json(c.theme);
    let a3 = ",\"run_on_startup\":"@;
    let s3 = bool_json(c.run_on_startup);
    let a4 = ",\"directories\":"@;
    let s4 = dirs_json(c.directories);
    let w = seq!['}'];
    let x1 = a1 + s1;
    let x2 = x1 + a2;
    let x3 = x2 + s2;
    let x4 = x3 + a3;
    let x5 = x4 + s3;
    let x6 = x5 + a4;
    let x7 = x6 + s4;
    assert(config_json(c) == x7 + w);
    lemma_region_split(s, i, x7, w);
    lemma_region_split(s, i, x6, s4);
    lemma_region_split(s, i, x5, a4);
    lemma_region_split(s, i, x4, s3);
    lemma_region_split(s, i, x3, a3);
    lemma_region_split(s, i, x2, s2);
    lemma_region_split(s, i, x1, a2);
    lemma_region_split(s, i, a1, s1);
    lemma_lit_at(s, i, a1);
    lemma_display_at(s, i + a1.len(), c.display);
    lemma_lit_at(s, i + x1.len(), a2);
    lemma_string_at(s, i + x2.len(), c.theme);
    lemma_lit_at(s, i + x3.len(), a3);
    lemma_bool_at(s, i + x4.len(), c.run_on_startup);
    lemma_lit_at(s, i + x5.len(), a4);
    lemma_dirs_at(s, i + x6.len(), c.directories);
    assert(s[i + x7.len()] == '}') by {
        assert(s.subrange(i + x7.len(), i + config_json(c).len())[0] == s[i + x7.len()]);
    }
    assert(parse_config(s, i) matches Some((cv, j)) && cv =~= c && j == i + config_json(c).len());
}

/// The persistence round trip: saving a configuration and loading what was
/// saved yields an equal configuration, whatever it held.
pub proof fn config_round_trip(c: ConfigView)
    ensures
        parse_config_doc(config_json(c)) == Some(c),
{
    let s = config_json(c);
    assert(s.subrange(0, s.len() as int) =~= s);
    lemma_config_at(s, 0, c);
}

} // verus!

