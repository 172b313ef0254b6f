//! The persisted settings format: one JSON object, rendered and parsed by
//! this module. `Settings::to_json` produces exactly `json_settings` of the
//! record's content; parsing accepts what rendering produces, and the
//! round-trip law states that a parsed rendering is the original record,
//! so persistence is lossless for every field.
//!
//! The parser is also lenient in two respects: display-target tokens are
//! read in any letter case, and string escapes may use the five short
//! forms beside the four-digit hexadecimal one, so files written with
//! either convention load. It stays strict about the field order and
//! inter-token whitespace (the renderer writes compact text in a fixed
//! order); text outside that shape is treated as corrupt, and loading
//! falls back to the defaults.

use crate::jsontext::{
    escape, json_string, lemma_parse_bool, lemma_parse_escape, lemma_parse_u8, lemma_take_lit,
    parse_bool, parse_bool_at, parse_string_body, parse_strbody, parse_u8, parse_u8_at,
    push_json_string, take_lit, take_lit_at,
};
use crate::settings::{
    default_settings_view, HardwareType, LineGraphColorSettings, Settings, SettingsView,
    StateSettings,
};
use crate::textfmt::{dec_rep, push_char, push_u64};
use vstd::prelude::*;
use vstd::string::*;

verus! {

broadcast use vstd::string::group_string_axioms;

/// The wire form of one display target.
pub open spec fn tok_cpu() -> Seq<char> {
    seq!['"', 'c', 'p', 'u', '"']
}

/// The wire form of the memory display target.
pub open spec fn tok_memory() -> Seq<char> {
    seq!['"', 'm', 'e', 'm', 'o', 'r', 'y', '"']
}

/// The wire form of the GPU display target.
pub open spec fn tok_gpu() -> Seq<char> {
    seq!['"', 'g', 'p', 'u', '"']
}

/// The quoted token a display target is written as.
pub open spec fn json_target(hw: HardwareType) -> Seq<char> {
    match hw {
        HardwareType::CPU => tok_cpu(),
        HardwareType::Memory => tok_memory(),
        HardwareType::GPU => tok_gpu(),
    }
}

/// The items of a non-empty target list with their separators and the
/// closing bracket.
pub open spec fn json_targets_rest(ts: Seq<HardwareType>) -> Seq<char>
    decreases ts.len(),
{
    if ts.len() == 0 {
        seq![']']
    } else if ts.len() == 1 {
        json_target(ts[0]) + seq![']']
    } else {
        json_target(ts[0]) + (seq![','] + json_targets_rest(ts.drop_first()))
    }
}

/// A whole target list.
pub open spec fn json_targets(ts: Seq<HardwareType>) -> Seq<char> {
    seq!['['] + json_targets_rest(ts)
}

/// A boolean's wire form.
pub open spec fn json_bool(b: bool) -> Seq<char> {
    if b {
        "true"@
    } else {
        "false"@
    }
}

/// A color triple's wire form: the three channel bytes in brackets.
pub open spec fn json_rgb(c: (u8, u8, u8)) -> Seq<char> {
    seq!['['] + (dec_rep(c.0 as nat) + (seq![','] + (dec_rep(c.1 as nat) + (seq![','] + (
    dec_rep(c.2 as nat) + seq![']'])))))
}

/// The persisted form of a whole settings record: one JSON object with a
/// fixed field order and no surrounding whitespace. The rendering is built
/// up in stages, each stage prefixing its fields onto the next.
pub open spec fn json_settings(v: SettingsView) -> Seq<char> {
    "{\"version\":"@ + (json_string(v.version) + (",\"language\":"@ + (json_string(v.language)
        + (",\"theme\":"@ + (json_string(v.theme) + json_settings_targets(v))))))
}

/// The display-target, graph-size and border fields of the persisted form.
pub open spec fn json_settings_targets(v: SettingsView) -> Seq<char> {
    ",\"displayTargets\":"@ + (json_targets(v.display_targets) + (",\"graphSize\":"@ + (
    json_string(v.graph_size) + (",\"lineGraphBorder\":"@ + (json_bool(v.line_graph_border)
        + json_settings_colors(v))))))
}

/// The fill flag and the three color fields of the persisted form.
pub open spec fn json_settings_colors(v: SettingsView) -> Seq<char> {
    ",\"lineGraphFill\":"@ + (json_bool(v.line_graph_fill) + (",\"lineGraphColor\":{\"cpu\":"@
        + (json_rgb(v.cpu_color) + (",\"memory\":"@ + (json_rgb(v.memory_color)
        + json_settings_mix(v))))))
}

/// The GPU color, mix and legend fields of the persisted form.
pub open spec fn json_settings_mix(v: SettingsView) -> Seq<char> {
    ",\"gpu\":"@ + (json_rgb(v.gpu_color) + ("},\"lineGraphMix\":"@ + (json_bool(
        v.line_graph_mix,
    ) + (",\"lineGraphShowLegend\":"@ + (json_bool(v.line_graph_show_legend)
        + json_settings_end(v))))))
}

/// The scale flag and state sub-object closing the persisted form.
pub open spec fn json_settings_end(v: SettingsView) -> Seq<char> {
    ",\"lineGraphShowScale\":"@ + (json_bool(v.line_graph_show_scale) + (
    ",\"state\":{\"display\":"@ + (json_string(v.state_display) + "}}"@)))
}

/// Parse a JSON string literal: opening quote, escaped body, closing quote.
pub open spec fn parse_jstring(t: Seq<char>) -> Option<(Seq<char>, Seq<char>)> {
    if t.len() >= 1 && t[0] == '"' {
        parse_strbody(t.drop_first())
    } else {
        None
    }
}

/// Whether the text begins with the token, the text's characters folded to
/// ASCII lower case first: display targets are read without regard to
/// letter case.
pub open spec fn matches_token_ci(t: Seq<char>, tok: Seq<char>) -> bool {
    tok.len() <= t.len() && forall|i: int|
        0 <= i < tok.len() ==> crate::textfmt::ascii_lower_char(#[trigger] t[i]) == tok[i]
}

/// Parse one display target token, in any letter case.
pub open spec fn parse_target(t: Seq<char>) -> Option<(HardwareType, Seq<char>)> {
    if matches_token_ci(t, tok_cpu()) {
        Some((HardwareType::CPU, t.skip(5)))
    } else if matches_token_ci(t, tok_memory()) {
        Some((HardwareType::Memory, t.skip(8)))
    } else if matches_token_ci(t, tok_gpu()) {
        Some((HardwareType::GPU, t.skip(5)))
    } else {
        None
    }
}

/// Parse the items of a non-empty target list, up to and including the
/// closing bracket.
pub open spec fn parse_targets_rest(t: Seq<char>) -> Option<(Seq<HardwareType>, Seq<char>)>
    decreases t.len(),
{
    match parse_target(t) {
        None => None,
        Some((hw, r)) => {
            if r.len() >= 1 && r[0] == ']' {
                Some((seq![hw], r.drop_first()))
            } else if r.len() >= 1 && r[0] == ',' && r.len() < t.len() {
                match parse_targets_rest(r.drop_first()) {
                    Some((v, r2)) => Some((seq![hw] + v, r2)),
                    None => None,
                }
            } else {
                None
            }
        },
    }
}

/// Parse a whole target list.
pub open spec fn parse_targets(t: Seq<char>) -> Option<(Seq<HardwareType>, Seq<char>)> {
    if t.len() >= 1 && t[0] == '[' {
        let r = t.drop_first();
        if r.len() >= 1 && r[0] == ']' {
            Some((Seq::empty(), r.drop_first()))
        } else {
            parse_targets_rest(r)
        }
    } else {
        None
    }
}

/// Parse a color triple.
pub open spec fn parse_rgb(t: Seq<char>) -> Option<((u8, u8, u8), Seq<char>)> {
    if t.len() >= 1 && t[0] == '[' {
        match parse_u8(t.drop_first()) {
            None => None,
            Some((r0, t1)) => {
                if t1.len() >= 1 && t1[0] == ',' {
                    match parse_u8(t1.drop_first()) {
                        None => None,
                        Some((g0, t2)) => {
                            if t2.len() >= 1 && t2[0] == ',' {
                                match parse_u8(t2.drop_first()) {
                                    None => None,
                                    Some((b0, t3)) => {
                                        if t3.len() >= 1 && t3[0] == ']' {
                                            Some(((r0, g0, b0), t3.drop_first()))
                                        } else {
                                            None
                                        }
                                    },
                                }
                            } else {
                                None
                            }
                        },
                    }
                } else {
                    None
                }
            },
        }
    } else {
        None
    }
}

/// Parse a whole persisted settings object. The object must be exactly the
/// persisted form: the fixed field order, no surrounding whitespace, and
/// nothing after the closing brace.
pub open spec fn parse_settings(t: Seq<char>) -> Option<SettingsView> {
    match take_lit(t, "{\"version\":"@) {
        None => None,
        Some(t) => match parse_jstring(t) {
            None => None,
            Some((version, t)) => match take_lit(t, ",\"language\":"@) {
                None => None,
                Some(t) => match parse_jstring(t) {
                    None => None,
                    Some((language, t)) => match take_lit(t, ",\"theme\":"@) {
                        None => None,
                        Some(t) => match parse_jstring(t) {
                            None => None,
                            Some((theme, t)) => match take_lit(t, ",\"displayTargets\":"@) {
                                None => None,
                                Some(t) => match parse_targets(t) {
                                    None => None,
                                    Some((targets, t)) => match take_lit(
                                        t,
                                        ",\"graphSize\":"@,
                                    ) {
                                        None => None,
                                        Some(t) => match parse_jstring(t) {
                                            None => None,
                                            Some((graph_size, t)) => parse_settings_flags(
                                                t,
                                                version,
                                                language,
                                                theme,
                                                targets,
                                                graph_size,
                                            ),
                                        },
                                    },
                                },
                            },
                        },
                    },
                },
            },
        },
    }
}

/// Parse the tail of the persisted object: the appearance flags, the three
/// colors, and the state sub-object.
pub open spec fn parse_settings_flags(
    t: Seq<char>,
    version: Seq<char>,
    language: Seq<char>,
    theme: Seq<char>,
    targets: Seq<HardwareType>,
    graph_size: Seq<char>,
) -> Option<SettingsView> {
    match take_lit(t, ",\"lineGraphBorder\":"@) {
        None => None,
        Some(t) => match parse_bool(t) {
            None => None,
            Some((border, t)) => match take_lit(t, ",\"lineGraphFill\":"@) {
                None => None,
                Some(t) => match parse_bool(t) {
                    None => None,
                    Some((fill, t)) => match take_lit(t, ",\"lineGraphColor\":{\"cpu\":"@) {
                        None => None,
                        Some(t) => match parse_rgb(t) {
                            None => None,
                            Some((cpu_color, t)) => match take_lit(t, ",\"memory\":"@) {
                                None => None,
                                Some(t) => match parse_rgb(t) {
                                    None => None,
                                    Some((memory_color, t)) => match take_lit(
                                        t,
                                        ",\"gpu\":"@,
                                    ) {
                                        None => None,
                                        Some(t) => match parse_rgb(t) {
                                            None => None,
                                            Some((gpu_color, t)) => parse_settings_state(
                                                t,
                                                SettingsView {
                                                    version,
                                                    language,
                                                    theme,
                                                    display_targets: targets,
                                                    graph_size,
                                                    line_graph_border: border,
                                                    line_graph_fill: fill,
                                                    cpu_color,
                                                    memory_color,
                                                    gpu_color,
                                                    line_graph_mix: false,
                                                    line_graph_show_legend: false,
                                                    line_graph_show_scale: false,
                                                    state_display: Seq::empty(),
                                                },
                                            ),
                                        },
                                    },
                                },
                            },
                        },
                    },
                },
            },
        },
    }
}

/// Parse the last stretch of the persisted object: the mix, legend and
/// scale flags and the state sub-object, completing the given partial
/// record.
pub open spec fn parse_settings_state(t: Seq<char>, partial: SettingsView) -> Option<
    SettingsView,
> {
    match take_lit(t, "},\"lineGraphMix\":"@) {
        None => None,
        Some(t) => match parse_bool(t) {
            None => None,
            Some((mix, t)) => match take_lit(t, ",\"lineGraphShowLegend\":"@) {
                None => None,
                Some(t) => match parse_bool(t) {
                    None => None,
                    Some((legend, t)) => match take_lit(t, ",\"lineGraphShowScale\":"@) {
                        None => None,
                        Some(t) => match parse_bool(t) {
                            None => None,
                            Some((scale, t)) => match take_lit(
                                t,
                                ",\"state\":{\"display\":"@,
                            ) {
                                None => None,
                                Some(t) => match parse_jstring(t) {
                                    None => None,
                                    Some((display, t)) => match take_lit(t, "}}"@) {
                                        None => None,
                                        Some(t) => {
                                            if t.len() == 0 {
                                                Some(
                                                    SettingsView {
                                                        line_graph_mix: mix,
                                                        line_graph_show_legend: legend,
                                                        line_graph_show_scale: scale,
                                                        state_display: display,
                                                        ..partial
                                                    },
                                                )
                                            } else {
                                                None
                                            }
                                        },
                                    },
                                },
                            },
                        },
                    },
                },
            },
        },
    }
}

/// A JSON string literal followed by anything parses back to exactly its
/// content and that remainder.
proof fn lemma_parse_jstring(v: Seq<char>, rest: Seq<char>)
    ensures
        parse_jstring(json_string(v) + rest) == Some((v, rest)),
{
    let t = json_string(v) + rest;
    assert(t[0] == '"');
    assert(t.drop_first() =~= escape(v) + seq!['"'] + rest);
    lemma_parse_escape(v, rest);
}

/// A lower-case token matches itself under the case fold.
proof fn lemma_matches_self(t: Seq<char>, tok: Seq<char>)
    requires
        tok.len() <= t.len(),
        forall|i: int| 0 <= i < tok.len() ==> t[i] == tok[i],
        forall|i: int|
            0 <= i < tok.len() ==> crate::textfmt::ascii_lower_char(#[trigger] tok[i])
                == tok[i],
    ensures
        matches_token_ci(t, tok),
{
}

/// A target token followed by anything parses back to exactly that target
/// and that remainder.
proof fn lemma_parse_target(hw: HardwareType, rest: Seq<char>)
    ensures
        parse_target(json_target(hw) + rest) == Some((hw, rest)),
{
    let t = json_target(hw) + rest;
    match hw {
        HardwareType::CPU => {
            lemma_matches_self(t, tok_cpu());
            assert(t.skip(5) =~= rest);
        },
        HardwareType::Memory => {
            assert(t[1] == 'm');
            assert(crate::textfmt::ascii_lower_char(t[1]) == 'm');
            assert(!matches_token_ci(t, tok_cpu()));
            lemma_matches_self(t, tok_memory());
            assert(t.skip(8) =~= rest);
        },
        HardwareType::GPU => {
            assert(t[1] == 'g');
            assert(crate::textfmt::ascii_lower_char(t[1]) == 'g');
            assert(!matches_token_ci(t, tok_cpu()));
            assert(!matches_token_ci(t, tok_memory()));
            lemma_matches_self(t, tok_gpu());
            assert(t.skip(5) =~= rest);
        },
    }
}

/// A non-empty rendered target list followed by anything parses back to
/// exactly those targets and that remainder.
proof fn lemma_parse_targets_rest(ts: Seq<HardwareType>, rest: Seq<char>)
    requires
        ts.len() >= 1,
    ensures
        parse_targets_rest(json_targets_rest(ts) + rest) == Some((ts, rest)),
    decreases ts.len(),
{
    let t = json_targets_rest(ts) + rest;
    if ts.len() == 1 {
        let tail = seq![']'] + rest;
        assert(t =~= json_target(ts[0]) + tail);
        lemma_parse_target(ts[0], tail);
        assert(tail[0] == ']');
        assert(tail.drop_first() =~= rest);
        assert(seq![ts[0]] =~= ts);
    } else {
        let tail = seq![','] + (json_targets_rest(ts.drop_first()) + rest);
        assert(t =~= json_target(ts[0]) + tail);
        lemma_parse_target(ts[0], tail);
        assert(tail[0] == ',');
        assert(tail[0] != ']');
        lemma_parse_targets_rest(ts.drop_first(), rest);
        assert(tail.drop_first() =~= json_targets_rest(ts.drop_first()) + rest);
        assert(tail.len() < t.len()) by {
            assert(json_target(ts[0]).len() >= 5);
        }
        assert(seq![ts[0]] + ts.drop_first() =~= ts);
    }
}

/// A rendered target list followed by anything parses back to exactly
/// those targets and that remainder.
proof fn lemma_parse_targets(ts: Seq<HardwareType>, rest: Seq<char>)
    ensures
        parse_targets(json_targets(ts) + rest) == Some((ts, rest)),
{
    let t = json_targets(ts) + rest;
    assert(t[0] == '[');
    if ts.len() == 0 {
        assert(t.drop_first() =~= seq![']'] + rest);
        assert(t.drop_first()[0] == ']');
        assert(t.drop_first().drop_first() =~= rest);
        assert(Seq::<HardwareType>::empty() =~= ts);
    } else {
        assert(t.drop_first() =~= json_targets_rest(ts) + rest);
        assert((json_targets_rest(ts) + rest)[0] == '"') by {
            assert(json_target(ts[0])[0] == '"');
            if ts.len() == 1 {
                assert(json_targets_rest(ts)[0] == json_target(ts[0])[0]);
            } else {
                assert(json_targets_rest(ts)[0] == json_target(ts[0])[0]);
            }
        }
        lemma_parse_targets_rest(ts, rest);
    }
}

/// A rendered color triple followed by anything parses back to exactly
/// that triple and that remainder.
proof fn lemma_parse_rgb(c: (u8, u8, u8), rest: Seq<char>)
    ensures
        parse_rgb(json_rgb(c) + rest) == Some((c, rest)),
{
    let t = json_rgb(c) + rest;
    let s5 = seq![']'] + rest;
    let s4 = dec_rep(c.2 as nat) + s5;
    let s3 = seq![','] + s4;
    let s2 = dec_rep(c.1 as nat) + s3;
    let s1 = seq![','] + s2;
    let s0 = dec_rep(c.0 as nat) + s1;
    assert(t =~= seq!['['] + s0);
    assert(t[0] == '[');
    assert(t.drop_first() =~= s0);
    assert(!crate::jsontext::is_digit(','));
    assert(!crate::jsontext::is_digit(']'));
    lemma_parse_u8(c.0, s1);
    assert(s1[0] == ',');
    assert(s1.drop_first() =~= s2);
    lemma_parse_u8(c.1, s3);
    assert(s3[0] == ',');
    assert(s3.drop_first() =~= s4);
    lemma_parse_u8(c.2, s5);
    assert(s5[0] == ']');
    assert(s5.drop_first() =~= rest);
}

/// Parse a JSON string literal starting at `pos`.
fn parse_jstring_at(s: &str, pos: usize) -> (r: Option<(String, usize)>)
    requires
        pos <= s@.len(),
    ensures
        match r {
            Some(v) => pos <= v.1 <= s@.len() && parse_jstring(s@.skip(pos as int)) == Some(
                (v.0@, s@.skip(v.1 as int)),
            ),
            None => parse_jstring(s@.skip(pos as int)) is None,
        },
{
    let n = s.unicode_len();
    let ghost t = s@.skip(pos as int);
    if pos == n {
        return None;
    }
    let c = s.get_char(pos);
    proof {
        assert(t[0] == c);
    }
    if c != '"' {
        return None;
    }
    proof {
        assert(t.drop_first() =~= s@.skip(pos + 1 as int));
    }
    parse_string_body(s, pos + 1)
}

/// Consume one expected token starting at `pos`, the text compared by
/// ASCII lower-case fold.
fn match_token_ci_at(s: &str, pos: usize, tok: &str) -> (r: Option<usize>)
    requires
        pos <= s@.len(),
    ensures
        match r {
            Some(p2) => pos <= p2 <= s@.len() && p2 == pos + tok@.len() && matches_token_ci(
                s@.skip(pos as int),
                tok@,
            ),
            None => !matches_token_ci(s@.skip(pos as int), tok@),
        },
{
    let n = s.unicode_len();
    let tlen = tok.unicode_len();
    let ghost t = s@.skip(pos as int);
    if n - pos < tlen {
        return None;
    }
    let mut j: usize = 0;
    while j < tlen
        invariant
            j <= tlen,
            tlen == tok@.len(),
            n == s@.len(),
            pos + tlen <= n,
            t == s@.skip(pos as int),
            forall|k: int|
                0 <= k < j ==> crate::textfmt::ascii_lower_char(#[trigger] t[k]) == tok@[k],
        decreases tlen - j,
    {
        let folded = crate::textfmt::to_ascii_lower_char(s.get_char(pos + j));
        proof {
            assert(t[j as int] == s@[pos + j]);
        }
        if folded != tok.get_char(j) {
            return None;
        }
        j = j + 1;
    }
    Some(pos + tlen)
}

/// Parse one display target token starting at `pos`, in any letter case.
fn parse_target_at(s: &str, pos: usize) -> (r: Option<(HardwareType, usize)>)
    requires
        pos <= s@.len(),
    ensures
        match r {
            Some(v) => pos < v.1 <= s@.len() && parse_target(s@.skip(pos as int)) == Some(
                (v.0, s@.skip(v.1 as int)),
            ),
            None => parse_target(s@.skip(pos as int)) is None,
        },
{
    proof {
        reveal_strlit("\"cpu\"");
        reveal_strlit("\"memory\"");
        reveal_strlit("\"gpu\"");
        assert("\"cpu\""@.len() == 5);
        assert("\"memory\""@.len() == 8);
        assert("\"gpu\""@.len() == 5);
        assert("\"cpu\""@ =~= tok_cpu());
        assert("\"memory\""@ =~= tok_memory());
        assert("\"gpu\""@ =~= tok_gpu());
    }
    let ghost t = s@.skip(pos as int);
    match match_token_ci_at(s, pos, "\"cpu\"") {
        Some(p2) => {
            proof {
                assert(t.skip(5) =~= s@.skip(p2 as int));
            }
            Some((HardwareType::CPU, p2))
        },
        None => match match_token_ci_at(s, pos, "\"memory\"") {
            Some(p2) => {
                proof {
                    assert(t.skip(8) =~= s@.skip(p2 as int));
                }
                Some((HardwareType::Memory, p2))
            },
            None => match match_token_ci_at(s, pos, "\"gpu\"") {
                Some(p2) => {
                    proof {
                        assert(t.skip(5) =~= s@.skip(p2 as int));
                    }
                    Some((HardwareType::GPU, p2))
                },
                None => None,
            },
        },
    }
}

/// Parse the items of a non-empty target list starting at `pos`, up to and
/// including the closing bracket.
fn parse_targets_rest_at(s: &str, pos: usize) -> (r: Option<(Vec<HardwareType>, usize)>)
    requires
        pos <= s@.len(),
    ensures
        match r {
            Some(v) => pos <= v.1 <= s@.len() && parse_targets_rest(s@.skip(pos as int))
                == Some((v.0@, s@.skip(v.1 as int))),
            None => parse_targets_rest(s@.skip(pos as int)) is None,
        },
    decreases s@.len() - pos,
{
    let ghost t = s@.skip(pos as int);
    let (hw, pos2) = match parse_target_at(s, pos) {
        Some(v) => v,
        None => {
            return None;
        },
    };
    let n = s.unicode_len();
    let ghost rseq = s@.skip(pos2 as int);
    proof {
        assert(rseq.len() < t.len());
    }
    if pos2 == n {
        return None;
    }
    let c = s.get_char(pos2);
    proof {
        assert(rseq[0] == c);
        assert(rseq.drop_first() =~= s@.skip(pos2 + 1 as int));
    }
    if c == ']' {
        let mut out: Vec<HardwareType> = Vec::new();
        out.push(hw);
        proof {
            assert(out@ =~= seq![hw]);
        }
        Some((out, pos2 + 1))
    } else if c == ',' {
        match parse_targets_rest_at(s, pos2 + 1) {
            Some((tail, p3)) => {
                let mut out: Vec<HardwareType> = Vec::new();
                out.push(hw);
                let mut tail = tail;
                out.append(&mut tail);
                proof {
                    assert(out@ =~= seq![hw] + out@.drop_first());
                    assert(out@.drop_first() =~= parse_targets_rest(rseq.drop_first()).unwrap().0);
                }
                Some((out, p3))
            },
            None => None,
        }
    } else {
        None
    }
}

/// Parse a whole target list starting at `pos`.
fn parse_targets_at(s: &str, pos: usize) -> (r: Option<(Vec<HardwareType>, usize)>)
    requires
        pos <= s@.len(),
    ensures
        match r {
            Some(v) => pos <= v.1 <= s@.len() && parse_targets(s@.skip(pos as int)) == Some(
                (v.0@, s@.skip(v.1 as int)),
            ),
            None => parse_targets(s@.skip(pos as int)) is None,
        },
{
    let n = s.unicode_len();
    let ghost t = s@.skip(pos as int);
    if pos == n {
        return None;
    }
    let c = s.get_char(pos);
    proof {
        assert(t[0] == c);
        assert(t.drop_first() =~= s@.skip(pos + 1 as int));
    }
    if c != '[' {
        return None;
    }
    if pos + 1 < n {
        let c1 = s.get_char(pos + 1);
        proof {
            assert(t.drop_first()[0] == c1);
            assert(t.drop_first().drop_first() =~= s@.skip(pos + 2 as int));
        }
        if c1 == ']' {
            let out: Vec<HardwareType> = Vec::new();
            proof {
                assert(out@ =~= Seq::<HardwareType>::empty());
            }
            return Some((out, pos + 2));
        }
    }
    parse_targets_rest_at(s, pos + 1)
}

/// Parse a color triple starting at `pos`.
fn parse_rgb_at(s: &str, pos: usize) -> (r: Option<([u8; 3], usize)>)
    requires
        pos <= s@.len(),
    ensures
        match r {
            Some(v) => pos <= v.1 <= s@.len() && parse_rgb(s@.skip(pos as int)) == Some(
                (crate::settings::rgb_view(v.0@), s@.skip(v.1 as int)),
            ),
            None => parse_rgb(s@.skip(pos as int)) is None,
        },
{
    let n = s.unicode_len();
    let ghost t = s@.skip(pos as int);
    if pos == n {
        return None;
    }
    proof {
        assert(t[0] == s@[pos as int]);
        assert(t.drop_first() =~= s@.skip(pos + 1 as int));
    }
    if s.get_char(pos) != '[' {
        return None;
    }
    let (r0, pos) = match parse_u8_at(s, pos + 1) {
        Some(v) => v,
        None => {
            return None;
        },
    };
    if pos == n {
        return None;
    }
    proof {
        assert(s@.skip(pos as int)[0] == s@[pos as int]);
        assert(s@.skip(pos as int).drop_first() =~= s@.skip(pos + 1 as int));
    }
    if s.get_char(pos) != ',' {
        return None;
    }
    let (g0, pos) = match parse_u8_at(s, pos + 1) {
        Some(v) => v,
        None => {
            return None;
        },
    };
    if pos == n {
        return None;
    }
    proof {
        assert(s@.skip(pos as int)[0] == s@[pos as int]);
        assert(s@.skip(pos as int).drop_first() =~= s@.skip(pos + 1 as int));
    }
    if s.get_char(pos) != ',' {
        return None;
    }
    let (b0, pos) = match parse_u8_at(s, pos + 1) {
        Some(v) => v,
        None => {
            return None;
        },
    };
    if pos == n {
        return None;
    }
    proof {
        assert(s@.skip(pos as int)[0] == s@[pos as int]);
        assert(s@.skip(pos as int).drop_first() =~= s@.skip(pos + 1 as int));
    }
    if s.get_char(pos) != ']' {
        return None;
    }
    let rgb: [u8; 3] = [r0, g0, b0];
    proof {
        assert(crate::settings::rgb_view(rgb@) == (r0, g0, b0));
    }
    Some((rgb, pos + 1))
}

/// Parse the last stretch of the persisted object starting at `pos`,
/// completing the given partial record. The text must end with the object.
fn parse_state_at(s: &str, pos: usize, partial: Settings) -> (r: Option<Settings>)
    requires
        pos <= s@.len(),
    ensures
        match r {
            Some(st) => parse_settings_state(s@.skip(pos as int), partial@) == Some(st@),
            None => parse_settings_state(s@.skip(pos as int), partial@) is None,
        },
{
    proof {
        crate::settings::lemma_settings_view(&partial);
    }
    let ghost pv = partial@;
    let pos = match take_lit_at(s, pos, "},\"lineGraphMix\":") {
        Some(p) => p,
        None => {
            return None;
        },
    };
    let (mix, pos) = match parse_bool_at(s, pos) {
        Some(v) => v,
        None => {
            return None;
        },
    };
    let pos = match take_lit_at(s, pos, ",\"lineGraphShowLegend\":") {
        Some(p) => p,
        None => {
            return None;
        },
    };
    let (legend, pos) = match parse_bool_at(s, pos) {
        Some(v) => v,
        None => {
            return None;
        },
    };
    let pos = match take_lit_at(s, pos, ",\"lineGraphShowScale\":") {
        Some(p) => p,
        None => {
            return None;
        },
    };
    let (scale, pos) = match parse_bool_at(s, pos) {
        Some(v) => v,
        None => {
            return None;
        },
    };
    let pos = match take_lit_at(s, pos, ",\"state\":{\"display\":") {
        Some(p) => p,
        None => {
            return None;
        },
    };
    let (display, pos) = match parse_jstring_at(s, pos) {
        Some(v) => v,
        None => {
            return None;
        },
    };
    let pos = match take_lit_at(s, pos, "}}") {
        Some(p) => p,
        None => {
            return None;
        },
    };
    if pos != s.unicode_len() {
        return None;
    }
    let mut st = partial;
    st.line_graph_mix = mix;
    st.line_graph_show_legend = legend;
    st.line_graph_show_scale = scale;
    st.state.display = display;
    proof {
        crate::settings::lemma_settings_view(&st);
        assert(s@.skip(pos as int).len() == 0);
        assert(st@ =~= (SettingsView {
            line_graph_mix: mix,
            line_graph_show_legend: legend,
            line_graph_show_scale: scale,
            state_display: st.state.display@,
            ..pv
        }));
    }
    Some(st)
}

/// Parse the flag and color fields starting at `pos`, then the closing
/// stretch, assembling the whole record.
fn parse_flags_at(
    s: &str,
    pos: usize,
    version: String,
    language: String,
    theme: String,
    targets: Vec<HardwareType>,
    graph_size: String,
) -> (r: Option<Settings>)
    requires
        pos <= s@.len(),
    ensures
        match r {
            Some(st) => parse_settings_flags(
                s@.skip(pos as int),
                version@,
                language@,
                theme@,
                targets@,
                graph_size@,
            ) == Some(st@),
            None => parse_settings_flags(
                s@.skip(pos as int),
                version@,
                language@,
                theme@,
                targets@,
                graph_size@,
            ) is None,
        },
{
    let pos = match take_lit_at(s, pos, ",\"lineGraphBorder\":") {
        Some(p) => p,
        None => {
            return None;
        },
    };
    let (border, pos) = match parse_bool_at(s, pos) {
        Some(v) => v,
        None => {
            return None;
        },
    };
    let pos = match take_lit_at(s, pos, ",\"lineGraphFill\":") {
        Some(p) => p,
        None => {
            return None;
        },
    };
    let (fill, pos) = match parse_bool_at(s, pos) {
        Some(v) => v,
        None => {
            return None;
        },
    };
    let pos = match take_lit_at(s, pos, ",\"lineGraphColor\":{\"cpu\":") {
        Some(p) => p,
        None => {
            return None;
        },
    };
    let (cpu_color, pos) = match parse_rgb_at(s, pos) {
        Some(v) => v,
        None => {
            return None;
        },
    };
    let pos = match take_lit_at(s, pos, ",\"memory\":") {
        Some(p) => p,
        None => {
            return None;
        },
    };
    let (memory_color, pos) = match parse_rgb_at(s, pos) {
        Some(v) => v,
        None => {
            return None;
        },
    };
    let pos = match take_lit_at(s, pos, ",\"gpu\":") {
        Some(p) => p,
        None => {
            return None;
        },
    };
    let (gpu_color, pos) = match parse_rgb_at(s, pos) {
        Some(v) => v,
        None => {
            return None;
        },
    };
    let partial = Settings {
        version,
        language,
        theme,
        display_targets: targets,
        graph_size,
        line_graph_border: border,
        line_graph_fill: fill,
        line_graph_color: LineGraphColorSettings {
            cpu: cpu_color,
            memory: memory_color,
            gpu: gpu_color,
        },
        line_graph_mix: false,
        line_graph_show_legend: false,
        line_graph_show_scale: false,
        state: StateSettings { display: String::new() },
    };
    proof {
        crate::settings::lemma_settings_view(&partial);
    }
    parse_state_at(s, pos, partial)
}

impl Settings {
    /// Parse a record from its persisted form. `None` for any text that is
    /// not exactly the persisted form of some record.
    pub fn parse_json(s: &str) -> (r: Option<Settings>)
        ensures
            match r {
                Some(st) => parse_settings(s@) == Some(st@),
                None => parse_settings(s@) is None,
            },
    {
        proof {
            assert(s@.skip(0) =~= s@);
        }
        let pos = match take_lit_at(s, 0, "{\"version\":") {
            Some(p) => p,
            None => {
                return None;
            },
        };
        let (version, pos) = match parse_jstring_at(s, pos) {
            Some(v) => v,
            None => {
                return None;
            },
        };
        let pos = match take_lit_at(s, pos, ",\"language\":") {
            Some(p) => p,
            None => {
                return None;
            },
        };
        let (language, pos) = match parse_jstring_at(s, pos) {
            Some(v) => v,
            None => {
                return None;
            },
        };
        let pos = match take_lit_at(s, pos, ",\"theme\":") {
            Some(p) => p,
            None => {
                return None;
            },
        };
        let (theme, pos) = match parse_jstring_at(s, pos) {
            Some(v) => v,
            None => {
                return None;
            },
        };
        let pos = match take_lit_at(s, pos, ",\"displayTargets\":") {
            Some(p) => p,
            None => {
                return None;
            },
        };
        let (targets, pos) = match parse_targets_at(s, pos) {
            Some(v) => v,
            None => {
                return None;
            },
        };
        let pos = match take_lit_at(s, pos, ",\"graphSize\":") {
            Some(p) => p,
            None => {
                return None;
            },
        };
        let (graph_size, pos) = match parse_jstring_at(s, pos) {
            Some(v) => v,
            None => {
                return None;
            },
        };
        parse_flags_at(s, pos, version, language, theme, targets, graph_size)
    }

    /// Load a record from persisted text, falling back to the hardcoded
    /// defaults when the text is not a persisted record.
    pub fn from_json(s: &str) -> (r: Settings)
        ensures
            match parse_settings(s@) {
                Some(v) => r@ == v,
                None => r@ == default_settings_view(),
            },
    {
        match Settings::parse_json(s) {
            Some(st) => st,
            None => Settings::default(),
        }
    }

    /// Overwrite the record from persisted text; text that is not a
    /// persisted record leaves the record as it was, so a corrupt or
    /// missing file keeps whatever the caller started from (typically the
    /// version-stamped defaults).
    pub fn load(&mut self, s: &str)
        ensures
            match parse_settings(s@) {
                Some(v) => final(self)@ == v,
                None => final(self)@ == old(self)@,
            },
    {
        match Settings::parse_json(s) {
            Some(st) => {
                *self = st;
            },
            None => {},
        }
    }
}

/// Parsing the rendered mix, legend, scale and state fields completes the
/// partial record with exactly the rendered values.
proof fn lemma_round_state(v: SettingsView, partial: SettingsView)
    ensures
        parse_settings_state("},\"lineGraphMix\":"@ + (json_bool(v.line_graph_mix) + (
        ",\"lineGraphShowLegend\":"@ + (json_bool(v.line_graph_show_legend) + (
        ",\"lineGraphShowScale\":"@ + (json_bool(v.line_graph_show_scale) + (
        ",\"state\":{\"display\":"@ + (json_string(v.state_display) + "}}"@))))))), partial)
            == Some(
            SettingsView {
                line_graph_mix: v.line_graph_mix,
                line_graph_show_legend: v.line_graph_show_legend,
                line_graph_show_scale: v.line_graph_show_scale,
                state_display: v.state_display,
                ..partial
            },
        ),
{
    let e = Seq::<char>::empty();
    let s28 = "}}"@ + e;
    let s27 = json_string(v.state_display) + s28;
    let s26 = ",\"state\":{\"display\":"@ + s27;
    let s25 = json_bool(v.line_graph_show_scale) + s26;
    let s24 = ",\"lineGraphShowScale\":"@ + s25;
    let s23 = json_bool(v.line_graph_show_legend) + s24;
    let s22 = ",\"lineGraphShowLegend\":"@ + s23;
    let s21 = json_bool(v.line_graph_mix) + s22;
    let s20 = "},\"lineGraphMix\":"@ + s21;
    assert(s28 =~= "}}"@);
    lemma_take_lit("},\"lineGraphMix\":"@, s21);
    lemma_parse_bool(v.line_graph_mix, s22);
    lemma_take_lit(",\"lineGraphShowLegend\":"@, s23);
    lemma_parse_bool(v.line_graph_show_legend, s24);
    lemma_take_lit(",\"lineGraphShowScale\":"@, s25);
    lemma_parse_bool(v.line_graph_show_scale, s26);
    lemma_take_lit(",\"state\":{\"display\":"@, s27);
    lemma_parse_jstring(v.state_display, s28);
    lemma_take_lit("}}"@, e);
}

/// Parsing the rendered flag and color fields, followed by the state
/// stretch, yields exactly the rendered record.
proof fn lemma_round_flags(v: SettingsView)
    ensures
        parse_settings_flags(",\"lineGraphBorder\":"@ + (json_bool(v.line_graph_border)
            + json_settings_colors(v)), v.version, v.language, v.theme, v.display_targets,
            v.graph_size) == Some(v),
{
    let s20 = json_settings_mix_tail(v);
    let s19 = json_rgb(v.gpu_color) + s20;
    let s18 = ",\"gpu\":"@ + s19;
    let s17 = json_rgb(v.memory_color) + s18;
    let s16 = ",\"memory\":"@ + s17;
    let s15 = json_rgb(v.cpu_color) + s16;
    let s14 = ",\"lineGraphColor\":{\"cpu\":"@ + s15;
    let s13 = json_bool(v.line_graph_fill) + s14;
    let s12 = ",\"lineGraphFill\":"@ + s13;
    let s11 = json_bool(v.line_graph_border) + s12;
    let s10 = ",\"lineGraphBorder\":"@ + s11;
    assert(json_settings_mix(v) == s18);
    assert(json_settings_colors(v) == s12);
    lemma_take_lit(",\"lineGraphBorder\":"@, s11);
    lemma_parse_bool(v.line_graph_border, s12);
    lemma_take_lit(",\"lineGraphFill\":"@, s13);
    lemma_parse_bool(v.line_graph_fill, s14);
    lemma_take_lit(",\"lineGraphColor\":{\"cpu\":"@, s15);
    lemma_parse_rgb(v.cpu_color, s16);
    lemma_take_lit(",\"memory\":"@, s17);
    lemma_parse_rgb(v.memory_color, s18);
    lemma_take_lit(",\"gpu\":"@, s19);
    lemma_parse_rgb(v.gpu_color, s20);
    let partial = SettingsView {
        version: v.version,
        language: v.language,
        theme: v.theme,
        display_targets: v.display_targets,
        graph_size: v.graph_size,
        line_graph_border: v.line_graph_border,
        line_graph_fill: v.line_graph_fill,
        cpu_color: v.cpu_color,
        memory_color: v.memory_color,
        gpu_color: v.gpu_color,
        line_graph_mix: false,
        line_graph_show_legend: false,
        line_graph_show_scale: false,
        state_display: Seq::empty(),
    };
    lemma_round_state(v, partial);
    assert(SettingsView {
        line_graph_mix: v.line_graph_mix,
        line_graph_show_legend: v.line_graph_show_legend,
        line_graph_show_scale: v.line_graph_show_scale,
        state_display: v.state_display,
        ..partial
    } =~= v);
}

/// The stretch of the persisted form that the state-stage parser consumes.
spec fn json_settings_mix_tail(v: SettingsView) -> Seq<char> {
    "},\"lineGraphMix\":"@ + (json_bool(v.line_graph_mix) + (",\"lineGraphShowLegend\":"@ + (
    json_bool(v.line_graph_show_legend) + (",\"lineGraphShowScale\":"@ + (json_bool(
        v.line_graph_show_scale,
    ) + (",\"state\":{\"display\":"@ + (json_string(v.state_display) + "}}"@)))))))
}

/// Append a boolean's wire form.
fn push_json_bool(out: &mut String, b: bool)
    ensures
        final(out)@ == old(out)@ + json_bool(b),
{
    if b {
        out.append("true");
    } else {
        out.append("false");
    }
}

/// Append a color triple's wire form.
fn push_json_rgb(out: &mut String, c: &[u8; 3])
    ensures
        final(out)@ == old(out)@ + json_rgb(crate::settings::rgb_view(c@)),
{
    push_char(out, '[');
    push_u64(out, c[0] as u64);
    push_char(out, ',');
    push_u64(out, c[1] as u64);
    push_char(out, ',');
    push_u64(out, c[2] as u64);
    push_char(out, ']');
    proof {
        assert(out@ =~= old(out)@ + json_rgb(crate::settings::rgb_view(c@)));
    }
}

/// Append one display target's wire token.
fn push_json_target(out: &mut String, hw: HardwareType)
    ensures
        final(out)@ == old(out)@ + json_target(hw),
{
    match hw {
        HardwareType::CPU => {
            out.append("\"cpu\"");
            proof {
                reveal_strlit("\"cpu\"");
                assert("\"cpu\""@.len() == 5);
                assert("\"cpu\""@ =~= tok_cpu());
            }
        },
        HardwareType::Memory => {
            out.append("\"memory\"");
            proof {
                reveal_strlit("\"memory\"");
                assert("\"memory\""@.len() == 8);
                assert("\"memory\""@ =~= tok_memory());
            }
        },
        HardwareType::GPU => {
            out.append("\"gpu\"");
            proof {
                reveal_strlit("\"gpu\"");
                assert("\"gpu\""@.len() == 5);
                assert("\"gpu\""@ =~= tok_gpu());
            }
        },
    }
}

/// Append the items of a non-empty target list with their separators and
/// the closing bracket.
fn push_json_targets_rest(out: &mut String, targets: &Vec<HardwareType>, i: usize)
    requires
        i < targets@.len(),
    ensures
        final(out)@ == old(out)@ + json_targets_rest(targets@.skip(i as int)),
    decreases targets@.len() - i,
{
    let ghost ts = targets@.skip(i as int);
    proof {
        assert(ts[0] == targets@[i as int]);
    }
    let n = targets.len();
    push_json_target(out, targets[i]);
    if i + 1 == n {
        push_char(out, ']');
        proof {
            assert(ts.len() == 1);
            assert(out@ =~= old(out)@ + json_targets_rest(ts));
        }
    } else {
        push_char(out, ',');
        push_json_targets_rest(out, targets, i + 1);
        proof {
            assert(ts.drop_first() =~= targets@.skip(i + 1 as int));
            assert(out@ =~= old(out)@ + json_targets_rest(ts));
        }
    }
}

/// Append a whole target list.
fn push_json_targets(out: &mut String, targets: &Vec<HardwareType>)
    ensures
        final(out)@ == old(out)@ + json_targets(targets@),
{
    push_char(out, '[');
    if targets.len() == 0 {
        push_char(out, ']');
        proof {
            assert(out@ =~= old(out)@ + json_targets(targets@));
        }
    } else {
        push_json_targets_rest(out, targets, 0);
        proof {
            assert(targets@.skip(0) =~= targets@);
            assert(out@ =~= old(out)@ + json_targets(targets@));
        }
    }
}

/// Append the scale flag and state sub-object closing the persisted form.
fn push_settings_end(out: &mut String, s: &Settings)
    ensures
        final(out)@ == old(out)@ + json_settings_end(s@),
{
    proof {
        crate::settings::lemma_settings_view(s);
    }
    out.append(",\"lineGraphShowScale\":");
    push_json_bool(out, s.line_graph_show_scale);
    out.append(",\"state\":{\"display\":");
    push_json_string(out, s.state.display.as_str());
    out.append("}}");
    proof {
        assert(out@ =~= old(out)@ + json_settings_end(s@));
    }
}

/// Append the GPU color, mix and legend fields of the persisted form.
fn push_settings_mix(out: &mut String, s: &Settings)
    ensures
        final(out)@ == old(out)@ + json_settings_mix(s@),
{
    proof {
        crate::settings::lemma_settings_view(s);
    }
    out.append(",\"gpu\":");
    push_json_rgb(out, &s.line_graph_color.gpu);
    out.append("},\"lineGraphMix\":");
    push_json_bool(out, s.line_graph_mix);
    out.append(",\"lineGraphShowLegend\":");
    push_json_bool(out, s.line_graph_show_legend);
    push_settings_end(out, s);
    proof {
        assert(out@ =~= old(out)@ + json_settings_mix(s@));
    }
}

/// Append the fill flag and the first two color fields of the persisted
/// form.
fn push_settings_colors(out: &mut String, s: &Settings)
    ensures
        final(out)@ == old(out)@ + json_settings_colors(s@),
{
    proof {
        crate::settings::lemma_settings_view(s);
    }
    out.append(",\"lineGraphFill\":");
    push_json_bool(out, s.line_graph_fill);
    out.append(",\"lineGraphColor\":{\"cpu\":");
    push_json_rgb(out, &s.line_graph_color.cpu);
    out.append(",\"memory\":");
    push_json_rgb(out, &s.line_graph_color.memory);
    push_settings_mix(out, s);
    proof {
        assert(out@ =~= old(out)@ + json_settings_colors(s@));
    }
}

/// Append the display-target, graph-size and border fields of the
/// persisted form.
fn push_settings_targets(out: &mut String, s: &Settings)
    ensures
        final(out)@ == old(out)@ + json_settings_targets(s@),
{
    proof {
        crate::settings::lemma_settings_view(s);
    }
    out.append(",\"displayTargets\":");
    push_json_targets(out, &s.display_targets);
    out.append(",\"graphSize\":");
    push_json_string(out, s.graph_size.as_str());
    out.append(",\"lineGraphBorder\":");
    push_json_bool(out, s.line_graph_border);
    push_settings_colors(out, s);
    proof {
        assert(out@ =~= old(out)@ + json_settings_targets(s@));
    }
}

impl Settings {
    /// Render the record into its persisted form.
    pub fn to_json(&self) -> (r: String)
        ensures
            r@ == json_settings(self@),
    {
        proof {
            crate::settings::lemma_settings_view(self);
        }
        let mut out = String::new();
        out.append("{\"version\":");
        push_json_string(&mut out, self.version.as_str());
        out.append(",\"language\":");
        push_json_string(&mut out, self.language.as_str());
        out.append(",\"theme\":");
        push_json_string(&mut out, self.theme.as_str());
        push_settings_targets(&mut out, self);
        proof {
            assert(out@ =~= json_settings(self@));
        }
        out
    }
}

/// The persistence round trip: parsing the rendered form of any settings
/// record yields exactly that record, so a write followed by a fresh read
/// is lossless for every field.
pub proof fn lemma_settings_round_trip(v: SettingsView)
    ensures
        parse_settings(json_settings(v)) == Some(v),
{
    let s11 = json_bool(v.line_graph_border) + json_settings_colors(v);
    let s10 = ",\"lineGraphBorder\":"@ + s11;
    let s9 = json_string(v.graph_size) + s10;
    let s8 = ",\"graphSize\":"@ + s9;
    let s7 = json_targets(v.display_targets) + s8;
    let s6 = ",\"displayTargets\":"@ + s7;
    let s5 = json_string(v.theme) + s6;
    let s4 = ",\"theme\":"@ + s5;
    let s3 = json_string(v.language) + s4;
    let s2 = ",\"language\":"@ + s3;
    let s1 = json_string(v.version) + s2;
    let s0 = "{\"version\":"@ + s1;
    assert(json_settings_targets(v) == s6);
    assert(json_settings(v) == s0);
    lemma_take_lit("{\"version\":"@, s1);
    lemma_parse_jstring(v.version, s2);
    lemma_take_lit(",\"language\":"@, s3);
    lemma_parse_jstring(v.language, s4);
    lemma_take_lit(",\"theme\":"@, s5);
    lemma_parse_jstring(v.theme, s6);
    lemma_take_lit(",\"displayTargets\":"@, s7);
    lemma_parse_targets(v.display_targets, s8);
    lemma_take_lit(",\"graphSize\":"@, s9);
    lemma_parse_jstring(v.graph_size, s10);
    lemma_round_flags(v);
}

} // verus!
