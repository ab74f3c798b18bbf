use vstd::prelude::*;
use vstd::string::*;

verus! {

/// Colour roles used when printing to a terminal.
#[derive(Clone, Copy, Debug, PartialEq, Eq, Structural)]
pub enum Tone {
    Info,
    Success,
    Warn,
    Accent,
    Muted,
    TrainMetric,
    ValMetric,
}

/// ANSI SGR colour number of each tone.
pub open spec fn spec_code(tone: Tone) -> Seq<char> {
    match tone {
        Tone::Info => "34"@,
        Tone::Success => "32"@,
        Tone::Warn => "33"@,
        Tone::Accent => "36"@,
        Tone::Muted => "90"@,
        Tone::TrainMetric => "32"@,
        Tone::ValMetric => "35"@,
    }
}

/// What `paint` prints: the value wrapped in the tone's colour, or the value
/// itself when colours are off.
pub open spec fn spec_paint(value: Seq<char>, tone: Tone, colors_enabled: bool) -> Seq<char> {
    if colors_enabled {
        "\x1b["@ + spec_code(tone) + "m"@ + value + "\x1b[0m"@
    } else {
        value
    }
}

/// What `bold` prints.
pub open spec fn spec_bold(value: Seq<char>, colors_enabled: bool) -> Seq<char> {
    if colors_enabled {
        "\x1b[1m"@ + value + "\x1b[0m"@
    } else {
        value
    }
}

/// With colours off the text is printed as it is. With colours on it is
/// framed: the escape character and `[`, a two-digit foreground colour
/// number (`30`-`37` or `90`-`97`), `m`, the text unchanged, and the reset
/// sequence `ESC [0m`; bold text is framed the same way with `1` in place of
/// the colour.
pub proof fn lemma_paint_frames_value(value: Seq<char>, tone: Tone)
    ensures
        spec_paint(value, tone, false) == value,
        spec_bold(value, false) == value,
        ({
            let p = spec_paint(value, tone, true);
            &&& p.len() == value.len() + 9
            &&& p[0] == '\x1b' && p[1] == '['
            &&& (p[2] == '3' || p[2] == '9') && '0' <= p[3] <= '7'
            &&& p[4] == 'm'
            &&& p.subrange(5, 5 + value.len() as int) == value
            &&& p.subrange(5 + value.len() as int, p.len() as int) == seq!['\x1b', '[', '0', 'm']
        }),
        ({
            let b = spec_bold(value, true);
            &&& b.len() == value.len() + 8
            &&& b.subrange(0, 4) == seq!['\x1b', '[', '1', 'm']
            &&& b.subrange(4, 4 + value.len() as int) == value
            &&& b.subrange(4 + value.len() as int, b.len() as int) == seq!['\x1b', '[', '0', 'm']
        }),
{
    reveal_strlit("\x1b[");
    reveal_strlit("m");
    reveal_strlit("\x1b[0m");
    reveal_strlit("\x1b[1m");
    reveal_strlit("34");
    reveal_strlit("32");
    reveal_strlit("33");
    reveal_strlit("36");
    reveal_strlit("90");
    reveal_strlit("35");
    let p = spec_paint(value, tone, true);
    let c = spec_code(tone);
    assert(c.len() == 2 && (c[0] == '3' || c[0] == '9') && '0' <= c[1] <= '7');
    assert(p =~= seq!['\x1b', '[', c[0], c[1], 'm'] + value + seq!['\x1b', '[', '0', 'm']);
    assert(p.subrange(5, 5 + value.len() as int) =~= value);
    assert(p.subrange(5 + value.len() as int, p.len() as int) =~= seq!['\x1b', '[', '0', 'm']);
    let b = spec_bold(value, true);
    assert(b =~= seq!['\x1b', '[', '1', 'm'] + value + seq!['\x1b', '[', '0', 'm']);
    assert(b.subrange(0, 4) =~= seq!['\x1b', '[', '1', 'm']);
    assert(b.subrange(4, 4 + value.len() as int) =~= value);
    assert(b.subrange(4 + value.len() as int, b.len() as int) =~= seq!['\x1b', '[', '0', 'm']);
}

/// The ANSI colour number of a tone.
pub fn code(tone: Tone) -> (c: &'static str)
    ensures
        c@ == spec_code(tone),
{
    match tone {
        Tone::Info => "34",
        Tone::Success => "32",
        Tone::Warn => "33",
        Tone::Accent => "36",
        Tone::Muted => "90",
        Tone::TrainMetric => "32",
        Tone::ValMetric => "35",
    }
}

/// Wraps `value` in the escape sequence of `tone` when colours are enabled.
pub fn paint(value: &str, tone: Tone, colors_enabled: bool) -> (s: String)
    ensures
        s@ == spec_paint(value@, tone, colors_enabled),
{
    if !colors_enabled {
        return String::from_str(value);
    }
    let mut out = String::from_str("\x1b[");
    out.append(code(tone));
    out.append("m");
    out.append(value);
    out.append("\x1b[0m");
    out
}

/// Wraps `value` in the bold escape sequence when colours are enabled.
pub fn bold(value: &str, colors_enabled: bool) -> (s: String)
    ensures
        s@ == spec_bold(value@, colors_enabled),
{
    if !colors_enabled {
        return String::from_str(value);
    }
    let mut out = String::from_str("\x1b[1m");
    out.append(value);
    out.append("\x1b[0m");
    out
}

} // verus!
