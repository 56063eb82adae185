//! The presentation layer: renders a decoded `Team` as a pretty-printed
//! JSON document (two-space indent), dropping roster slots whose name is
//! empty.

use vstd::prelude::*;

use crate::team::{SpecTeam, SpecWorm, Team, TeamType, Worm};
use crate::team::worms_view;

verus! {

/// The decimal digits of `n`, most significant first.
pub open spec fn spec_dec(n: nat) -> Seq<u8>
    decreases n,
{
    if n < 10 {
        seq![(48 + n) as u8]
    } else {
        spec_dec(n / 10) + seq![(48 + n % 10) as u8]
    }
}

/// The literal `"{\n  \"team_type\": "` as bytes.
pub open spec fn l_header() -> Seq<u8> {
    seq![
        '{' as u8,
        10,
        ' ' as u8,
        ' ' as u8,
        '"' as u8,
        't' as u8,
        'e' as u8,
        'a' as u8,
        'm' as u8,
        '_' as u8,
        't' as u8,
        'y' as u8,
        'p' as u8,
        'e' as u8,
        '"' as u8,
        ':' as u8,
        ' ' as u8,
    ]
}

fn push_l_header(out: &mut Vec<u8>)
    ensures
        final(out)@ == old(out)@ + l_header(),
{
    out.push('{' as u8);
    out.push(10);
    out.push(' ' as u8);
    out.push(' ' as u8);
    out.push('"' as u8);
    out.push('t' as u8);
    out.push('e' as u8);
    out.push('a' as u8);
    out.push('m' as u8);
    out.push('_' as u8);
    out.push('t' as u8);
    out.push('y' as u8);
    out.push('p' as u8);
    out.push('e' as u8);
    out.push('"' as u8);
    out.push(':' as u8);
    out.push(' ' as u8);
    proof {
        assert(out@ =~= old(out)@ + l_header());
    }
}

/// The literal `",\n  \"worm_health\": "` as bytes.
pub open spec fn l_worm_health() -> Seq<u8> {
    seq![
        ',' as u8,
        10,
        ' ' as u8,
        ' ' as u8,
        '"' as u8,
        'w' as u8,
        'o' as u8,
        'r' as u8,
        'm' as u8,
        '_' as u8,
        'h' as u8,
        'e' as u8,
        'a' as u8,
        'l' as u8,
        't' as u8,
        'h' as u8,
        '"' as u8,
        ':' as u8,
        ' ' as u8,
    ]
}

fn push_l_worm_health(out: &mut Vec<u8>)
    ensures
        final(out)@ == old(out)@ + l_worm_health(),
{
    out.push(',' as u8);
    out.push(10);
    out.push(' ' as u8);
    out.push(' ' as u8);
    out.push('"' as u8);
    out.push('w' as u8);
    out.push('o' as u8);
    out.push('r' as u8);
    out.push('m' as u8);
    out.push('_' as u8);
    out.push('h' as u8);
    out.push('e' as u8);
    out.push('a' as u8);
    out.push('l' as u8);
    out.push('t' as u8);
    out.push('h' as u8);
    out.push('"' as u8);
    out.push(':' as u8);
    out.push(' ' as u8);
    proof {
        assert(out@ =~= old(out)@ + l_worm_health());
    }
}

/// The literal `",\n  \"played\": "` as bytes.
pub open spec fn l_played() -> Seq<u8> {
    seq![
        ',' as u8,
        10,
        ' ' as u8,
        ' ' as u8,
        '"' as u8,
        'p' as u8,
        'l' as u8,
        'a' as u8,
        'y' as u8,
        'e' as u8,
        'd' as u8,
        '"' as u8,
        ':' as u8,
        ' ' as u8,
    ]
}

fn push_l_played(out: &mut Vec<u8>)
    ensures
        final(out)@ == old(out)@ + l_played(),
{
    out.push(',' as u8);
    out.push(10);
    out.push(' ' as u8);
    out.push(' ' as u8);
    out.push('"' as u8);
    out.push('p' as u8);
    out.push('l' as u8);
    out.push('a' as u8);
    out.push('y' as u8);
    out.push('e' as u8);
    out.push('d' as u8);
    out.push('"' as u8);
    out.push(':' as u8);
    out.push(' ' as u8);
    proof {
        assert(out@ =~= old(out)@ + l_played());
    }
}

/// The literal `",\n  \"won\": "` as bytes.
pub open spec fn l_won() -> Seq<u8> {
    seq![
        ',' as u8,
        10,
        ' ' as u8,
        ' ' as u8,
        '"' as u8,
        'w' as u8,
        'o' as u8,
        'n' as u8,
        '"' as u8,
        ':' as u8,
        ' ' as u8,
    ]
}

fn push_l_won(out: &mut Vec<u8>)
    ensures
        final(out)@ == old(out)@ + l_won(),
{
    out.push(',' as u8);
    out.push(10);
    out.push(' ' as u8);
    out.push(' ' as u8);
    out.push('"' as u8);
    out.push('w' as u8);
    out.push('o' as u8);
    out.push('n' as u8);
    out.push('"' as u8);
    out.push(':' as u8);
    out.push(' ' as u8);
    proof {
        assert(out@ =~= old(out)@ + l_won());
    }
}

/// The literal `",\n  \"kills_for\": "` as bytes.
pub open spec fn l_kills_for() -> Seq<u8> {
    seq![
        ',' as u8,
        10,
        ' ' as u8,
        ' ' as u8,
        '"' as u8,
        'k' as u8,
        'i' as u8,
        'l' as u8,
        'l' as u8,
        's' as u8,
        '_' as u8,
        'f' as u8,
        'o' as u8,
        'r' as u8,
        '"' as u8,
        ':' as u8,
        ' ' as u8,
    ]
}

fn push_l_kills_for(out: &mut Vec<u8>)
    ensures
        final(out)@ == old(out)@ + l_kills_for(),
{
    out.push(',' as u8);
    out.push(10);
    out.push(' ' as u8);
    out.push(' ' as u8);
    out.push('"' as u8);
    out.push('k' as u8);
    out.push('i' as u8);
    out.push('l' as u8);
    out.push('l' as u8);
    out.push('s' as u8);
    out.push('_' as u8);
    out.push('f' as u8);
    out.push('o' as u8);
    out.push('r' as u8);
    out.push('"' as u8);
    out.push(':' as u8);
    out.push(' ' as u8);
    proof {
        assert(out@ =~= old(out)@ + l_kills_for());
    }
}

/// The literal `",\n  \"kills_against\": "` as bytes.
pub open spec fn l_kills_against() -> Seq<u8> {
    seq![
        ',' as u8,
        10,
        ' ' as u8,
        ' ' as u8,
        '"' as u8,
        'k' as u8,
        'i' as u8,
        'l' as u8,
        'l' as u8,
        's' as u8,
        '_' as u8,
        'a' as u8,
        'g' as u8,
        'a' as u8,
        'i' as u8,
        'n' as u8,
        's' as u8,
        't' as u8,
        '"' as u8,
        ':' as u8,
        ' ' as u8,
    ]
}

fn push_l_kills_against(out: &mut Vec<u8>)
    ensures
        final(out)@ == old(out)@ + l_kills_against(),
{
    out.push(',' as u8);
    out.push(10);
    out.push(' ' as u8);
    out.push(' ' as u8);
    out.push('"' as u8);
    out.push('k' as u8);
    out.push('i' as u8);
    out.push('l' as u8);
    out.push('l' as u8);
    out.push('s' as u8);
    out.push('_' as u8);
    out.push('a' as u8);
    out.push('g' as u8);
    out.push('a' as u8);
    out.push('i' as u8);
    out.push('n' as u8);
    out.push('s' as u8);
    out.push('t' as u8);
    out.push('"' as u8);
    out.push(':' as u8);
    out.push(' ' as u8);
    proof {
        assert(out@ =~= old(out)@ + l_kills_against());
    }
}

/// The literal `",\n  \"worms\": "` as bytes.
pub open spec fn l_worms() -> Seq<u8> {
    seq![
        ',' as u8,
        10,
        ' ' as u8,
        ' ' as u8,
        '"' as u8,
        'w' as u8,
        'o' as u8,
        'r' as u8,
        'm' as u8,
        's' as u8,
        '"' as u8,
        ':' as u8,
        ' ' as u8,
    ]
}

fn push_l_worms(out: &mut Vec<u8>)
    ensures
        final(out)@ == old(out)@ + l_worms(),
{
    out.push(',' as u8);
    out.push(10);
    out.push(' ' as u8);
    out.push(' ' as u8);
    out.push('"' as u8);
    out.push('w' as u8);
    out.push('o' as u8);
    out.push('r' as u8);
    out.push('m' as u8);
    out.push('s' as u8);
    out.push('"' as u8);
    out.push(':' as u8);
    out.push(' ' as u8);
    proof {
        assert(out@ =~= old(out)@ + l_worms());
    }
}

/// The literal `"\n}"` as bytes.
pub open spec fn l_footer() -> Seq<u8> {
    seq![
        10,
        '}' as u8,
    ]
}

fn push_l_footer(out: &mut Vec<u8>)
    ensures
        final(out)@ == old(out)@ + l_footer(),
{
    out.push(10);
    out.push('}' as u8);
    proof {
        assert(out@ =~= old(out)@ + l_footer());
    }
}

/// The literal `"{\n    \"type\": \"Human\"\n  }"` as bytes.
pub open spec fn l_human() -> Seq<u8> {
    seq![
        '{' as u8,
        10,
        ' ' as u8,
        ' ' as u8,
        ' ' as u8,
        ' ' as u8,
        '"' as u8,
        't' as u8,
        'y' as u8,
        'p' as u8,
        'e' as u8,
        '"' as u8,
        ':' as u8,
        ' ' as u8,
        '"' as u8,
        'H' as u8,
        'u' as u8,
        'm' as u8,
        'a' as u8,
        'n' as u8,
        '"' as u8,
        10,
        ' ' as u8,
        ' ' as u8,
        '}' as u8,
    ]
}

fn push_l_human(out: &mut Vec<u8>)
    ensures
        final(out)@ == old(out)@ + l_human(),
{
    out.push('{' as u8);
    out.push(10);
    out.push(' ' as u8);
    out.push(' ' as u8);
    out.push(' ' as u8);
    out.push(' ' as u8);
    out.push('"' as u8);
    out.push('t' as u8);
    out.push('y' as u8);
    out.push('p' as u8);
    out.push('e' as u8);
    out.push('"' as u8);
    out.push(':' as u8);
    out.push(' ' as u8);
    out.push('"' as u8);
    out.push('H' as u8);
    out.push('u' as u8);
    out.push('m' as u8);
    out.push('a' as u8);
    out.push('n' as u8);
    out.push('"' as u8);
    out.push(10);
    out.push(' ' as u8);
    out.push(' ' as u8);
    out.push('}' as u8);
    proof {
        assert(out@ =~= old(out)@ + l_human());
    }
}

/// The literal `"{\n    \"type\": \"Cpu\",\n    \"level\": "` as bytes.
pub open spec fn l_cpu_open() -> Seq<u8> {
    seq![
        '{' as u8,
        10,
        ' ' as u8,
        ' ' as u8,
        ' ' as u8,
        ' ' as u8,
        '"' as u8,
        't' as u8,
        'y' as u8,
        'p' as u8,
        'e' as u8,
        '"' as u8,
        ':' as u8,
        ' ' as u8,
        '"' as u8,
        'C' as u8,
        'p' as u8,
        'u' as u8,
        '"' as u8,
        ',' as u8,
        10,
        ' ' as u8,
        ' ' as u8,
        ' ' as u8,
        ' ' as u8,
        '"' as u8,
        'l' as u8,
        'e' as u8,
        'v' as u8,
        'e' as u8,
        'l' as u8,
        '"' as u8,
        ':' as u8,
        ' ' as u8,
    ]
}

fn push_l_cpu_open(out: &mut Vec<u8>)
    ensures
        final(out)@ == old(out)@ + l_cpu_open(),
{
    out.push('{' as u8);
    out.push(10);
    out.push(' ' as u8);
    out.push(' ' as u8);
    out.push(' ' as u8);
    out.push(' ' as u8);
    out.push('"' as u8);
    out.push('t' as u8);
    out.push('y' as u8);
    out.push('p' as u8);
    out.push('e' as u8);
    out.push('"' as u8);
    out.push(':' as u8);
    out.push(' ' as u8);
    out.push('"' as u8);
    out.push('C' as u8);
    out.push('p' as u8);
    out.push('u' as u8);
    out.push('"' as u8);
    out.push(',' as u8);
    out.push(10);
    out.push(' ' as u8);
    out.push(' ' as u8);
    out.push(' ' as u8);
    out.push(' ' as u8);
    out.push('"' as u8);
    out.push('l' as u8);
    out.push('e' as u8);
    out.push('v' as u8);
    out.push('e' as u8);
    out.push('l' as u8);
    out.push('"' as u8);
    out.push(':' as u8);
    out.push(' ' as u8);
    proof {
        assert(out@ =~= old(out)@ + l_cpu_open());
    }
}

/// The literal `"\n  }"` as bytes.
pub open spec fn l_cpu_close() -> Seq<u8> {
    seq![
        10,
        ' ' as u8,
        ' ' as u8,
        '}' as u8,
    ]
}

fn push_l_cpu_close(out: &mut Vec<u8>)
    ensures
        final(out)@ == old(out)@ + l_cpu_close(),
{
    out.push(10);
    out.push(' ' as u8);
    out.push(' ' as u8);
    out.push('}' as u8);
    proof {
        assert(out@ =~= old(out)@ + l_cpu_close());
    }
}

/// The literal `"[]"` as bytes.
pub open spec fn l_arr_empty() -> Seq<u8> {
    seq![
        '[' as u8,
        ']' as u8,
    ]
}

fn push_l_arr_empty(out: &mut Vec<u8>)
    ensures
        final(out)@ == old(out)@ + l_arr_empty(),
{
    out.push('[' as u8);
    out.push(']' as u8);
    proof {
        assert(out@ =~= old(out)@ + l_arr_empty());
    }
}

/// The literal `"[\n"` as bytes.
pub open spec fn l_arr_open() -> Seq<u8> {
    seq![
        '[' as u8,
        10,
    ]
}

fn push_l_arr_open(out: &mut Vec<u8>)
    ensures
        final(out)@ == old(out)@ + l_arr_open(),
{
    out.push('[' as u8);
    out.push(10);
    proof {
        assert(out@ =~= old(out)@ + l_arr_open());
    }
}

/// The literal `"\n  ]"` as bytes.
pub open spec fn l_arr_close() -> Seq<u8> {
    seq![
        10,
        ' ' as u8,
        ' ' as u8,
        ']' as u8,
    ]
}

fn push_l_arr_close(out: &mut Vec<u8>)
    ensures
        final(out)@ == old(out)@ + l_arr_close(),
{
    out.push(10);
    out.push(' ' as u8);
    out.push(' ' as u8);
    out.push(']' as u8);
    proof {
        assert(out@ =~= old(out)@ + l_arr_close());
    }
}

/// The literal `",\n"` as bytes.
pub open spec fn l_sep() -> Seq<u8> {
    seq![
        ',' as u8,
        10,
    ]
}

fn push_l_sep(out: &mut Vec<u8>)
    ensures
        final(out)@ == old(out)@ + l_sep(),
{
    out.push(',' as u8);
    out.push(10);
    proof {
        assert(out@ =~= old(out)@ + l_sep());
    }
}

/// The literal `"    {\n      \"name\": \""` as bytes.
pub open spec fn l_worm_open() -> Seq<u8> {
    seq![
        ' ' as u8,
        ' ' as u8,
        ' ' as u8,
        ' ' as u8,
        '{' as u8,
        10,
        ' ' as u8,
        ' ' as u8,
        ' ' as u8,
        ' ' as u8,
        ' ' as u8,
        ' ' as u8,
        '"' as u8,
        'n' as u8,
        'a' as u8,
        'm' as u8,
        'e' as u8,
        '"' as u8,
        ':' as u8,
        ' ' as u8,
        '"' as u8,
    ]
}

fn push_l_worm_open(out: &mut Vec<u8>)
    ensures
        final(out)@ == old(out)@ + l_worm_open(),
{
    out.push(' ' as u8);
    out.push(' ' as u8);
    out.push(' ' as u8);
    out.push(' ' as u8);
    out.push('{' as u8);
    out.push(10);
    out.push(' ' as u8);
    out.push(' ' as u8);
    out.push(' ' as u8);
    out.push(' ' as u8);
    out.push(' ' as u8);
    out.push(' ' as u8);
    out.push('"' as u8);
    out.push('n' as u8);
    out.push('a' as u8);
    out.push('m' as u8);
    out.push('e' as u8);
    out.push('"' as u8);
    out.push(':' as u8);
    out.push(' ' as u8);
    out.push('"' as u8);
    proof {
        assert(out@ =~= old(out)@ + l_worm_open());
    }
}

/// The literal `"\",\n      \"played\": "` as bytes.
pub open spec fn l_worm_played() -> Seq<u8> {
    seq![
        '"' as u8,
        ',' as u8,
        10,
        ' ' as u8,
        ' ' as u8,
        ' ' as u8,
        ' ' as u8,
        ' ' as u8,
        ' ' as u8,
        '"' as u8,
        'p' as u8,
        'l' as u8,
        'a' as u8,
        'y' as u8,
        'e' as u8,
        'd' as u8,
        '"' as u8,
        ':' as u8,
        ' ' as u8,
    ]
}

fn push_l_worm_played(out: &mut Vec<u8>)
    ensures
        final(out)@ == old(out)@ + l_worm_played(),
{
    out.push('"' as u8);
    out.push(',' as u8);
    out.push(10);
    out.push(' ' as u8);
    out.push(' ' as u8);
    out.push(' ' as u8);
    out.push(' ' as u8);
    out.push(' ' as u8);
    out.push(' ' as u8);
    out.push('"' as u8);
    out.push('p' as u8);
    out.push('l' as u8);
    out.push('a' as u8);
    out.push('y' as u8);
    out.push('e' as u8);
    out.push('d' as u8);
    out.push('"' as u8);
    out.push(':' as u8);
    out.push(' ' as u8);
    proof {
        assert(out@ =~= old(out)@ + l_worm_played());
    }
}

/// The literal `",\n      \"kills_for\": "` as bytes.
pub open spec fn l_worm_kills() -> Seq<u8> {
    seq![
        ',' as u8,
        10,
        ' ' as u8,
        ' ' as u8,
        ' ' as u8,
        ' ' as u8,
        ' ' as u8,
        ' ' as u8,
        '"' as u8,
        'k' as u8,
        'i' as u8,
        'l' as u8,
        'l' as u8,
        's' as u8,
        '_' as u8,
        'f' as u8,
        'o' as u8,
        'r' as u8,
        '"' as u8,
        ':' as u8,
        ' ' as u8,
    ]
}

fn push_l_worm_kills(out: &mut Vec<u8>)
    ensures
        final(out)@ == old(out)@ + l_worm_kills(),
{
    out.push(',' as u8);
    out.push(10);
    out.push(' ' as u8);
    out.push(' ' as u8);
    out.push(' ' as u8);
    out.push(' ' as u8);
    out.push(' ' as u8);
    out.push(' ' as u8);
    out.push('"' as u8);
    out.push('k' as u8);
    out.push('i' as u8);
    out.push('l' as u8);
    out.push('l' as u8);
    out.push('s' as u8);
    out.push('_' as u8);
    out.push('f' as u8);
    out.push('o' as u8);
    out.push('r' as u8);
    out.push('"' as u8);
    out.push(':' as u8);
    out.push(' ' as u8);
    proof {
        assert(out@ =~= old(out)@ + l_worm_kills());
    }
}

/// The literal `"\n    }"` as bytes.
pub open spec fn l_worm_close() -> Seq<u8> {
    seq![
        10,
        ' ' as u8,
        ' ' as u8,
        ' ' as u8,
        ' ' as u8,
        '}' as u8,
    ]
}

fn push_l_worm_close(out: &mut Vec<u8>)
    ensures
        final(out)@ == old(out)@ + l_worm_close(),
{
    out.push(10);
    out.push(' ' as u8);
    out.push(' ' as u8);
    out.push(' ' as u8);
    out.push(' ' as u8);
    out.push('}' as u8);
    proof {
        assert(out@ =~= old(out)@ + l_worm_close());
    }
}


/// The lowercase hex digit for `n` (`n < 16`).
pub open spec fn spec_hex_digit(n: u8) -> u8
    recommends
        n < 16,
{
    if n < 10 {
        (48 + n) as u8
    } else {
        (87 + n) as u8
    }
}

/// How one byte of a name appears inside a JSON string: quote and
/// backslash are escaped, control bytes get their short escapes or a
/// `\u00xx` escape, and every other byte stands for itself.
pub open spec fn spec_esc_byte(b: u8) -> Seq<u8> {
    if b == '"' as u8 {
        seq!['\\' as u8, '"' as u8]
    } else if b == '\\' as u8 {
        seq!['\\' as u8, '\\' as u8]
    } else if b == 8 {
        seq!['\\' as u8, 'b' as u8]
    } else if b == 9 {
        seq!['\\' as u8, 't' as u8]
    } else if b == 10 {
        seq!['\\' as u8, 'n' as u8]
    } else if b == 12 {
        seq!['\\' as u8, 'f' as u8]
    } else if b == 13 {
        seq!['\\' as u8, 'r' as u8]
    } else if b < 32 {
        seq!['\\' as u8, 'u' as u8, '0' as u8, '0' as u8, spec_hex_digit(b / 16), spec_hex_digit(b % 16)]
    } else {
        seq![b]
    }
}

/// A whole name as it appears inside a JSON string.
pub open spec fn spec_esc(s: Seq<u8>) -> Seq<u8>
    decreases s.len(),
{
    if s.len() == 0 {
        seq![]
    } else {
        spec_esc(s.drop_last()) + spec_esc_byte(s.last())
    }
}

/// The roster as presented: the slots whose name is non-empty, in their
/// roster order.
pub open spec fn spec_filter_worms(ws: Seq<SpecWorm>) -> Seq<SpecWorm>
    decreases ws.len(),
{
    if ws.len() == 0 {
        seq![]
    } else {
        spec_filter_worms(ws.drop_last()) + if ws.last().name.len() != 0 {
            seq![ws.last()]
        } else {
            seq![]
        }
    }
}

/// Every entry of the presented roster has a non-empty name.
pub proof fn lemma_filter_nonempty(ws: Seq<SpecWorm>)
    ensures
        forall|i: int|
            0 <= i < spec_filter_worms(ws).len() ==> (#[trigger] spec_filter_worms(
                ws,
            )[i]).name.len() != 0,
    decreases ws.len(),
{
    if ws.len() > 0 {
        lemma_filter_nonempty(ws.drop_last());
        let dl = spec_filter_worms(ws.drop_last());
        assert forall|i: int|
            0 <= i < spec_filter_worms(ws).len() implies (#[trigger] spec_filter_worms(
            ws,
        )[i]).name.len() != 0 by {
            if ws.last().name.len() != 0 {
                assert(spec_filter_worms(ws) == dl + seq![ws.last()]);
                if i < dl.len() {
                    assert(spec_filter_worms(ws)[i] == dl[i]);
                } else {
                    assert(spec_filter_worms(ws)[i] == ws.last());
                }
            } else {
                assert(spec_filter_worms(ws) == dl + Seq::<SpecWorm>::empty());
                assert(spec_filter_worms(ws)[i] == dl[i]);
            }
        }
    }
}

/// The presented roster preserves relative order: filtering distributes
/// over concatenation, so entries never move past one another.
pub proof fn lemma_filter_append(a: Seq<SpecWorm>, b: Seq<SpecWorm>)
    ensures
        spec_filter_worms(a + b) == spec_filter_worms(a) + spec_filter_worms(b),
    decreases b.len(),
{
    if b.len() == 0 {
        assert(a + b =~= a);
        assert(spec_filter_worms(b) =~= Seq::<SpecWorm>::empty());
        assert(spec_filter_worms(a) + spec_filter_worms(b) =~= spec_filter_worms(a));
    } else {
        lemma_filter_append(a, b.drop_last());
        assert((a + b).drop_last() =~= a + b.drop_last());
        assert((a + b).last() == b.last());
        assert(spec_filter_worms(a + b) =~= spec_filter_worms(a) + spec_filter_worms(b));
    }
}

/// A slot with an empty name is dropped; one with a non-empty name is
/// kept unchanged.
pub proof fn lemma_filter_one(w: SpecWorm)
    ensures
        w.name.len() == 0 ==> spec_filter_worms(seq![w]) == Seq::<SpecWorm>::empty(),
        w.name.len() != 0 ==> spec_filter_worms(seq![w]) == seq![w],
{
    let e = Seq::<SpecWorm>::empty();
    assert(seq![w].drop_last() =~= e);
    assert(seq![w].last() == w);
    assert(spec_filter_worms(e) == e);
    if w.name.len() == 0 {
        assert(spec_filter_worms(seq![w]) == e + e);
        assert(e + e =~= e);
    } else {
        assert(spec_filter_worms(seq![w]) == e + seq![w]);
        assert(e + seq![w] =~= seq![w]);
    }
}

/// One rendered roster entry.
pub open spec fn spec_worm_json(w: SpecWorm) -> Seq<u8> {
    l_worm_open() + spec_esc(w.name) + l_worm_played() + spec_dec(w.played as nat)
        + l_worm_kills() + spec_dec(w.kills_for as nat) + l_worm_close()
}

/// The rendered roster entries, joined by `",\n"`.
pub open spec fn spec_worm_entries(ws: Seq<SpecWorm>) -> Seq<u8>
    decreases ws.len(),
{
    if ws.len() == 0 {
        seq![]
    } else {
        spec_worm_entries(ws.drop_last()) + if ws.len() == 1 {
            seq![]
        } else {
            l_sep()
        } + spec_worm_json(ws.last())
    }
}

/// The rendered roster array: `[]` when no entry survives the filter.
pub open spec fn spec_worms_json(ws: Seq<SpecWorm>) -> Seq<u8> {
    if ws.len() == 0 {
        l_arr_empty()
    } else {
        l_arr_open() + spec_worm_entries(ws) + l_arr_close()
    }
}

/// The rendered team type: an object whose `"type"` field names the
/// variant, with the level beside it for `Cpu`.
pub open spec fn spec_team_type_json(t: TeamType) -> Seq<u8> {
    match t {
        TeamType::Human => l_human(),
        TeamType::Cpu { level } => l_cpu_open() + spec_dec(level as nat) + l_cpu_close(),
    }
}

/// The whole rendered document: every scalar field under its name, and
/// the roster filtered to the slots whose name is non-empty.
pub open spec fn spec_team_json(t: SpecTeam) -> Seq<u8> {
    l_header() + spec_team_type_json(t.team_type) + l_worm_health() + spec_dec(
        t.worm_health as nat,
    ) + l_played() + spec_dec(t.played as nat) + l_won() + spec_dec(t.won as nat) + l_kills_for()
        + spec_dec(t.kills_for as nat) + l_kills_against() + spec_dec(t.kills_against as nat)
        + l_worms() + spec_worms_json(spec_filter_worms(t.worms)) + l_footer()
}

/// Appends the decimal digits of `n`, as `spec_dec` says.
fn push_dec(out: &mut Vec<u8>, n: u16)
    ensures
        final(out)@ == old(out)@ + spec_dec(n as nat),
    decreases n,
{
    if n < 10 {
        out.push(48 + n as u8);
    } else {
        push_dec(out, n / 10);
        out.push(48 + (n % 10) as u8);
        proof {
            assert(out@ =~= old(out)@ + spec_dec(n as nat));
        }
    }
}

/// Appends one escaped name byte, as `spec_esc_byte` says.
fn push_esc_byte(out: &mut Vec<u8>, b: u8)
    ensures
        final(out)@ == old(out)@ + spec_esc_byte(b),
{
    if b == '"' as u8 {
        out.push('\\' as u8);
        out.push('"' as u8);
    } else if b == '\\' as u8 {
        out.push('\\' as u8);
        out.push('\\' as u8);
    } else if b == 8 {
        out.push('\\' as u8);
        out.push('b' as u8);
    } else if b == 9 {
        out.push('\\' as u8);
        out.push('t' as u8);
    } else if b == 10 {
        out.push('\\' as u8);
        out.push('n' as u8);
    } else if b == 12 {
        out.push('\\' as u8);
        out.push('f' as u8);
    } else if b == 13 {
        out.push('\\' as u8);
        out.push('r' as u8);
    } else if b < 32 {
        out.push('\\' as u8);
        out.push('u' as u8);
        out.push('0' as u8);
        out.push('0' as u8);
        let hi = b / 16;
        let lo = b % 16;
        out.push(if hi < 10 { 48 + hi } else { 87 + hi });
        out.push(if lo < 10 { 48 + lo } else { 87 + lo });
    } else {
        out.push(b);
    }
    proof {
        assert(out@ =~= old(out)@ + spec_esc_byte(b));
    }
}

/// Appends a whole escaped name, as `spec_esc` says.
fn push_esc(out: &mut Vec<u8>, name: &Vec<u8>)
    ensures
        final(out)@ == old(out)@ + spec_esc(name@),
{
    let mut i: usize = 0;
    proof {
        assert(name@.take(0) =~= Seq::<u8>::empty());
        assert(out@ =~= out@ + spec_esc(name@.take(0)));
    }
    while i < name.len()
        invariant
            i <= name.len(),
            out@ == old(out)@ + spec_esc(name@.take(i as int)),
        decreases name.len() - i,
    {
        push_esc_byte(out, name[i]);
        proof {
            assert(name@.take(i + 1).drop_last() =~= name@.take(i as int));
            assert(name@.take(i + 1).last() == name@[i as int]);
            assert(out@ =~= old(out)@ + spec_esc(name@.take(i + 1)));
        }
        i = i + 1;
    }
    proof {
        assert(name@.take(name@.len() as int) =~= name@);
    }
}

/// Appends one rendered roster entry, as `spec_worm_json` says.
fn push_worm(out: &mut Vec<u8>, w: &Worm)
    ensures
        final(out)@ == old(out)@ + spec_worm_json(w@),
{
    push_l_worm_open(out);
    push_esc(out, &w.name);
    push_l_worm_played(out);
    push_dec(out, w.played);
    push_l_worm_kills(out);
    push_dec(out, w.kills_for);
    push_l_worm_close(out);
    proof {
        assert(out@ =~= old(out)@ + spec_worm_json(w@));
    }
}

/// Appends the rendered team type, as `spec_team_type_json` says.
fn push_team_type(out: &mut Vec<u8>, t: &TeamType)
    ensures
        final(out)@ == old(out)@ + spec_team_type_json(*t),
{
    match t {
        TeamType::Human => {
            push_l_human(out);
        },
        TeamType::Cpu { level } => {
            push_l_cpu_open(out);
            push_dec(out, *level);
            push_l_cpu_close(out);
            proof {
                assert(out@ =~= old(out)@ + spec_team_type_json(*t));
            }
        },
    }
}

/// Appends the rendered roster array: the slots with a non-empty name,
/// in order, as `spec_worms_json` of the filtered roster says.
fn push_worms(out: &mut Vec<u8>, worms: &Vec<Worm>)
    ensures
        final(out)@ == old(out)@ + spec_worms_json(spec_filter_worms(worms_view(worms@))),
{
    let ghost full = spec_filter_worms(worms_view(worms@));
    let mut any: bool = false;
    let mut i: usize = 0;
    proof {
        assert(worms_view(worms@).take(0) =~= Seq::<SpecWorm>::empty());
    }
    while i < worms.len()
        invariant
            i <= worms.len(),
            any <==> spec_filter_worms(worms_view(worms@).take(i as int)).len() != 0,
        decreases worms.len() - i,
    {
        proof {
            assert(worms_view(worms@).take(i + 1).drop_last() =~= worms_view(worms@).take(
                i as int,
            ));
            assert(worms_view(worms@).take(i + 1).last() == worms@[i as int]@);
        }
        if worms[i].name.len() != 0 {
            any = true;
        }
        i = i + 1;
    }
    proof {
        assert(worms_view(worms@).take(worms@.len() as int) =~= worms_view(worms@));
    }
    if !any {
        out.push('[' as u8);
        out.push(']' as u8);
        proof {
            assert(out@ =~= old(out)@ + spec_worms_json(full));
        }
        return ;
    }
    push_l_arr_open(out);
    let ghost base = out@;
    let mut emitted: bool = false;
    let mut k: usize = 0;
    proof {
        assert(worms_view(worms@).take(0) =~= Seq::<SpecWorm>::empty());
    }
    while k < worms.len()
        invariant
            k <= worms.len(),
            emitted <==> spec_filter_worms(worms_view(worms@).take(k as int)).len() != 0,
            out@ == base + spec_worm_entries(spec_filter_worms(worms_view(worms@).take(k as int))),
            base == old(out)@ + l_arr_open(),
        decreases worms.len() - k,
    {
        let ghost pre = spec_filter_worms(worms_view(worms@).take(k as int));
        proof {
            assert(worms_view(worms@).take(k + 1).drop_last() =~= worms_view(worms@).take(
                k as int,
            ));
            assert(worms_view(worms@).take(k + 1).last() == worms@[k as int]@);
        }
        if worms[k].name.len() != 0 {
            if emitted {
                push_l_sep(out);
            }
            push_worm(out, &worms[k]);
            emitted = true;
            proof {
                let post = spec_filter_worms(worms_view(worms@).take(k + 1));
                assert(post == pre + seq![worms@[k as int]@]);
                assert(post.drop_last() =~= pre);
                assert(post.last() == worms@[k as int]@);
                assert(out@ =~= base + spec_worm_entries(post));
            }
        }
        k = k + 1;
    }
    proof {
        assert(worms_view(worms@).take(worms@.len() as int) =~= worms_view(worms@));
    }
    push_l_arr_close(out);
    proof {
        assert(out@ =~= old(out)@ + spec_worms_json(full));
    }
}

/// Renders a decoded team as a pretty-printed JSON document (UTF-8
/// bytes), exactly as `spec_team_json` says: every scalar field under
/// its name, the team type as a tagged object, and the roster filtered
/// to the slots whose name is non-empty, in their roster order.
pub fn team_to_json(t: &Team) -> (r: Vec<u8>)
    ensures
        r@ == spec_team_json(t@),
{
    let mut out: Vec<u8> = Vec::new();
    push_l_header(&mut out);
    push_team_type(&mut out, &t.team_type);
    push_l_worm_health(&mut out);
    push_dec(&mut out, t.worm_health);
    push_l_played(&mut out);
    push_dec(&mut out, t.played);
    push_l_won(&mut out);
    push_dec(&mut out, t.won);
    push_l_kills_for(&mut out);
    push_dec(&mut out, t.kills_for);
    push_l_kills_against(&mut out);
    push_dec(&mut out, t.kills_against);
    push_l_worms(&mut out);
    push_worms(&mut out, &t.worms);
    push_l_footer(&mut out);
    proof {
        assert(out@ =~= spec_team_json(t@));
    }
    out
}

} // verus!
