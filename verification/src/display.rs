//! What the endpoint viewer prints: the endpoint list with an APO summary per endpoint,
//! and the detail header of one endpoint, with terminal colours.
use vstd::prelude::*;
use crate::endpoint::{endpoint_views, Endpoint, EndpointKind, EndpointView};
use crate::knowledge::{is_system_apo, system_apo_spec};
use crate::status::string_views;
use crate::text::{chars_of, dec, hex, push_dec, push_hex_padded, push_str, string_of, zero_pad};

verus! {

pub open spec fn reset() -> Seq<char> {
    "\x1b[0m"@
}

pub open spec fn bold() -> Seq<char> {
    "\x1b[1m"@
}

pub open spec fn cyan() -> Seq<char> {
    "\x1b[36m"@
}

pub open spec fn green() -> Seq<char> {
    "\x1b[32m"@
}

pub open spec fn yellow() -> Seq<char> {
    "\x1b[33m"@
}

pub open spec fn magenta() -> Seq<char> {
    "\x1b[35m"@
}

pub open spec fn red() -> Seq<char> {
    "\x1b[31m"@
}

pub open spec fn gray() -> Seq<char> {
    "\x1b[90m"@
}


fn reset_code() -> (r: &'static str)
    ensures
        r@ == reset(),
{
    "\x1b[0m"
}

fn bold_code() -> (r: &'static str)
    ensures
        r@ == bold(),
{
    "\x1b[1m"
}

fn cyan_code() -> (r: &'static str)
    ensures
        r@ == cyan(),
{
    "\x1b[36m"
}

fn green_code() -> (r: &'static str)
    ensures
        r@ == green(),
{
    "\x1b[32m"
}

fn yellow_code() -> (r: &'static str)
    ensures
        r@ == yellow(),
{
    "\x1b[33m"
}

fn magenta_code() -> (r: &'static str)
    ensures
        r@ == magenta(),
{
    "\x1b[35m"
}

fn red_code() -> (r: &'static str)
    ensures
        r@ == red(),
{
    "\x1b[31m"
}

fn gray_code() -> (r: &'static str)
    ensures
        r@ == gray(),
{
    "\x1b[90m"
}

pub open spec fn third_party(s: Option<Seq<char>>) -> bool {
    match s {
        Some(c) => !system_apo_spec(c),
        None => false,
    }
}

/// The APO summary of an endpoint and its colour: `[none]`; `[Windows default]` when only
/// Windows' own APOs are there; else the slots with a third-party APO, such as
/// `[SFX + EFX]`, yellow when SFX is combined with EFX or MFX, magenta otherwise.
pub open spec fn classify_spec(ep: EndpointView) -> (Seq<char>, Seq<char>) {
    let s = third_party(ep.sfx);
    let m = third_party(ep.mfx);
    let e = third_party(ep.efx);
    let has_system = (ep.sfx is Some && ep.sfx_is_system) || (ep.mfx is Some && ep.mfx_is_system)
        || (ep.efx is Some && ep.efx_is_system);
    if !(s || m || e) {
        if has_system {
            ("[Windows default]"@, gray())
        } else {
            ("[none]"@, gray())
        }
    } else {
        let parts = (if s {
            seq!["SFX"@]
        } else {
            seq![]
        }) + (if m {
            seq!["MFX"@]
        } else {
            seq![]
        }) + (if e {
            seq!["EFX"@]
        } else {
            seq![]
        });
        (
            "["@ + join_plus(parts) + "]"@,
            if s && (e || m) {
                yellow()
            } else {
                magenta()
            },
        )
    }
}

/// Parts joined with `" + "` between them.
pub open spec fn join_plus(ps: Seq<Seq<char>>) -> Seq<char>
    decreases ps.len(),
{
    if ps.len() == 0 {
        seq![]
    } else if ps.len() == 1 {
        ps[0]
    } else {
        join_plus(ps.drop_last()) + " + "@ + ps.last()
    }
}

fn third_party_exec(s: &Option<String>) -> (r: bool)
    ensures
        r == third_party(crate::endpoint::opt_str_view(*s)),
{
    match s {
        Some(c) => !is_system_apo(c.as_str()),
        None => false,
    }
}

/// The APO summary of an endpoint and the colour to show it in.
pub fn classify_apo(ep: &Endpoint) -> (r: (String, &'static str))
    ensures
        (r.0@, r.1@) == classify_spec(ep@),
{
    let s = third_party_exec(&ep.sfx);
    let m = third_party_exec(&ep.mfx);
    let e = third_party_exec(&ep.efx);
    let has_system = (ep.sfx.is_some() && ep.sfx_is_system) || (ep.mfx.is_some()
        && ep.mfx_is_system) || (ep.efx.is_some() && ep.efx_is_system);
    if !s && !m && !e {
        let label = if has_system {
            chars_of("[Windows default]")
        } else {
            chars_of("[none]")
        };
        return (string_of(&label), gray_code());
    }
    let ghost parts = (if s {
        seq!["SFX"@]
    } else {
        seq![]
    }) + (if m {
        seq!["MFX"@]
    } else {
        seq![]
    }) + (if e {
        seq!["EFX"@]
    } else {
        seq![]
    });
    let mut out = chars_of("[");
    let mut first = true;
    if s {
        push_str(&mut out, "SFX");
        first = false;
    }
    if m {
        if !first {
            push_str(&mut out, " + ");
        }
        push_str(&mut out, "MFX");
        first = false;
    }
    if e {
        if !first {
            push_str(&mut out, " + ");
        }
        push_str(&mut out, "EFX");
    }
    push_str(&mut out, "]");
    proof {
        reveal_with_fuel(join_plus, 4);
        if s && m && e {
            assert(parts =~= seq!["SFX"@, "MFX"@, "EFX"@]);
            assert(parts.drop_last() =~= seq!["SFX"@, "MFX"@]);
            assert(parts.drop_last().drop_last() =~= seq!["SFX"@]);
        } else if s && m {
            assert(parts =~= seq!["SFX"@, "MFX"@]);
            assert(parts.drop_last() =~= seq!["SFX"@]);
        } else if s && e {
            assert(parts =~= seq!["SFX"@, "EFX"@]);
            assert(parts.drop_last() =~= seq!["SFX"@]);
        } else if m && e {
            assert(parts =~= seq!["MFX"@, "EFX"@]);
            assert(parts.drop_last() =~= seq!["MFX"@]);
        } else if s {
            assert(parts =~= seq!["SFX"@]);
        } else if m {
            assert(parts =~= seq!["MFX"@]);
        } else {
            assert(parts =~= seq!["EFX"@]);
        }
    }
    assert(out@ =~= "["@ + join_plus(parts) + "]"@);
    let color = if s && (e || m) {
        yellow_code()
    } else {
        magenta_code()
    };
    (string_of(&out), color)
}

pub open spec fn kind_color(k: EndpointKind) -> Seq<char> {
    match k {
        EndpointKind::Playback => cyan(),
        EndpointKind::Capture => green(),
    }
}

pub open spec fn kind_text(k: EndpointKind) -> Seq<char> {
    match k {
        EndpointKind::Playback => "Playback"@,
        EndpointKind::Capture => "Capture"@,
    }
}

fn kind_color_exec(k: EndpointKind) -> (r: &'static str)
    ensures
        r@ == kind_color(k),
{
    match k {
        EndpointKind::Playback => cyan_code(),
        EndpointKind::Capture => green_code(),
    }
}

/// The line listing one endpoint: number, name, direction and APO summary.
pub open spec fn endpoint_line(ep: EndpointView) -> Seq<char> {
    let (apo_text, apo_color) = classify_spec(ep);
    "  "@ + bold() + "["@ + dec(ep.index as nat) + "]"@ + reset() + " "@ + ep.name + " "@ + gray()
        + "("@ + kind_color(ep.kind) + kind_text(ep.kind) + gray() + ")"@ + reset() + " "@
        + apo_color + apo_text + reset()
}

/// The lines printed for the endpoint list: a heading with the count (with a blank line
/// before and after it), then one line per endpoint.
pub open spec fn endpoint_list_spec(eps: Seq<EndpointView>) -> Seq<Seq<char>> {
    seq!["\n"@ + bold() + "Found "@ + dec(eps.len()) + " endpoints:"@ + reset() + "\n"@]
        + eps.map_values(|e: EndpointView| endpoint_line(e))
}

/// The lines that list the endpoints.
pub fn endpoint_list_lines(endpoints: &Vec<Endpoint>) -> (r: Vec<String>)
    ensures
        string_views(r@) == endpoint_list_spec(endpoint_views(endpoints@)),
{
    let ghost ev = endpoint_views(endpoints@);
    let ghost want = endpoint_list_spec(ev);
    let mut lines: Vec<String> = Vec::new();
    let mut head = chars_of("\n");
    push_str(&mut head, bold_code());
    push_str(&mut head, "Found ");
    push_dec(&mut head, endpoints.len() as u64);
    push_str(&mut head, " endpoints:");
    push_str(&mut head, reset_code());
    push_str(&mut head, "\n");
    lines.push(string_of(&head));
    let mut i: usize = 0;
    assert(string_views(lines@) =~= want.take(1));
    while i < endpoints.len()
        invariant
            i <= endpoints.len(),
            ev == endpoint_views(endpoints@),
            want == endpoint_list_spec(ev),
            string_views(lines@) == want.take(i + 1),
        decreases endpoints.len() - i,
    {
        let ep = &endpoints[i];
        let (apo_text, apo_color) = classify_apo(ep);
        let mut out = chars_of("  ");
        push_str(&mut out, bold_code());
        push_str(&mut out, "[");
        push_dec(&mut out, ep.index as u64);
        push_str(&mut out, "]");
        push_str(&mut out, reset_code());
        push_str(&mut out, " ");
        push_str(&mut out, ep.name.as_str());
        push_str(&mut out, " ");
        push_str(&mut out, gray_code());
        push_str(&mut out, "(");
        push_str(&mut out, kind_color_exec(ep.kind));
        push_str(&mut out, ep.kind.display_name());
        push_str(&mut out, gray_code());
        push_str(&mut out, ")");
        push_str(&mut out, reset_code());
        push_str(&mut out, " ");
        push_str(&mut out, apo_color);
        push_str(&mut out, apo_text.as_str());
        push_str(&mut out, reset_code());
        assert(ev[i as int] == ep@);
        assert(out@ =~= endpoint_line(ep@));
        let ghost before = string_views(lines@);
        lines.push(string_of(&out));
        assert(string_views(lines@) =~= before.push(out@));
        assert(want.take(i + 2) =~= want.take(i + 1).push(want[i + 1]));
        i += 1;
    }
    assert(want.take(endpoints.len() + 1) =~= want);
    lines
}

/// The number of one bits of a number.
pub open spec fn popcount(n: nat) -> nat
    decreases n,
{
    if n == 0 {
        0
    } else {
        n % 2 + popcount(n / 2)
    }
}

proof fn lemma_popcount_le(n: nat)
    ensures
        popcount(n) <= n,
    decreases n,
{
    if n > 0 {
        lemma_popcount_le(n / 2);
    }
}

fn count_ones(m: u32) -> (r: u32)
    ensures
        r == popcount(m as nat),
{
    let mut x: u32 = m;
    let mut c: u32 = 0;
    proof {
        lemma_popcount_le(m as nat);
    }
    while x > 0
        invariant
            c + popcount(x as nat) == popcount(m as nat),
            popcount(m as nat) <= m,
        decreases x,
    {
        c = c + x % 2;
        x = x / 2;
    }
    c
}

pub open spec fn rule_line() -> Seq<char> {
    bold() + "========================================"@ + reset()
}

pub open spec fn apo_display(v: Option<Seq<char>>, is_system: bool) -> Seq<char> {
    match v {
        Some(c) => if is_system {
            gray() + c + " (system, replaceable)"@ + reset()
        } else {
            yellow() + c + reset()
        },
        None => gray() + "(none)"@ + reset(),
    }
}

pub open spec fn reg_path_text(k: EndpointKind) -> Seq<char> {
    match k {
        EndpointKind::Playback => "Render"@,
        EndpointKind::Capture => "Capture"@,
    }
}

/// The format line, when sample rate, channels and bit depth are all known and non-zero.
pub open spec fn audio_lines(ep: EndpointView) -> Seq<Seq<char>> {
    match (ep.sample_rate, ep.channels, ep.bit_depth) {
        (Some(sr), Some(ch), Some(bd)) => if sr > 0 && ch > 0 && bd > 0 {
            let mask = match ep.channel_mask {
                Some(m) => "0x"@ + zero_pad(hex(m as nat), 8),
                None => "none"@,
            };
            seq![
                "  Audio:    "@ + dec(sr as nat) + " Hz, "@ + dec(ch as nat) + "ch, "@ + dec(
                    bd as nat,
                ) + "bit, mask="@ + mask,
            ]
        } else {
            seq![]
        },
        _ => seq![],
    }
}

/// A warning when the channel mask names a different number of speakers than channels.
pub open spec fn mask_warning(ep: EndpointView) -> Seq<Seq<char>> {
    match (ep.channels, ep.channel_mask) {
        (Some(ch), Some(mask)) => {
            let sc = popcount(mask as nat);
            if sc > 0 && sc != ch {
                seq![
                    "  "@ + yellow() + "WARNING: mask has "@ + dec(sc) + " speaker(s) but device reports "@
                        + dec(ch as nat) + " channel(s)"@ + reset(),
                ]
            } else {
                seq![]
            }
        },
        _ => seq![],
    }
}

pub open spec fn sysfx_line(flags: Option<u32>) -> Seq<char> {
    match flags {
        Some(f) => "  SysFX:    "@ + (if f % 2 == 1 {
            red() + "DISABLED"@ + reset()
        } else {
            green() + "ENABLED"@ + reset()
        }) + " "@ + gray() + "(AudioEndpoint_Flags=0x"@ + zero_pad(hex(f as nat), 2) + ", bit0="@
            + dec((f % 2) as nat) + ")"@ + reset(),
        None => "  SysFX:    "@ + gray() + "(not set)"@ + reset(),
    }
}

pub open spec fn enhancements_line(de: Option<u32>) -> Seq<char> {
    match de {
        Some(v) => if v == 0 {
            "  Enhancements: "@ + green() + "ENABLED"@ + reset() + " "@ + gray()
                + "(DisableEnhancements not set)"@ + reset()
        } else if v == 1 {
            "  Enhancements: "@ + red() + "DISABLED"@ + reset() + " "@ + gray()
                + "(DisableEnhancements=1)"@ + reset()
        } else {
            "  Enhancements: "@ + yellow() + "UNKNOWN"@ + reset() + " "@ + gray()
                + "(DisableEnhancements="@ + dec(v as nat) + ")"@ + reset()
        },
        None => "  Enhancements: "@ + green() + "ENABLED"@ + reset() + " "@ + gray()
            + "(DisableEnhancements not set)"@ + reset(),
    }
}

/// The detail header of one endpoint: identity, path, format, APO slots, system effects
/// and enhancements.
pub open spec fn detail_header_spec(ep: EndpointView) -> Seq<Seq<char>> {
    seq![
        "\n"@ + rule_line(),
        " "@ + bold() + ep.name + reset(),
        rule_line(),
        "  Index:    "@ + bold() + dec(ep.index as nat) + reset(),
        "  GUID:     "@ + gray() + ep.guid + reset(),
        "  Type:     "@ + kind_color(ep.kind) + kind_text(ep.kind) + reset(),
        "  Path:     "@ + gray() + "HKLM\\...\\Audio\\"@ + reg_path_text(ep.kind) + "\\"@ + ep.guid
            + reset(),
    ] + audio_lines(ep) + mask_warning(ep) + seq![
        "  SFX APO:  "@ + apo_display(ep.sfx, ep.sfx_is_system),
        "  MFX APO:  "@ + apo_display(ep.mfx, ep.mfx_is_system),
        "  EFX APO:  "@ + apo_display(ep.efx, ep.efx_is_system),
        sysfx_line(ep.endpoint_flags),
        enhancements_line(ep.disable_enhancements),
        rule_line(),
    ]
}

fn push_rule(out: &mut Vec<char>)
    ensures
        final(out)@ == old(out)@ + rule_line(),
{
    push_str(out, bold_code());
    push_str(out, "========================================");
    push_str(out, reset_code());
}

fn apo_display_line(label: &str, v: &Option<String>, is_system: bool) -> (r: String)
    ensures
        r@ == label@ + apo_display(crate::endpoint::opt_str_view(*v), is_system),
{
    let mut out = chars_of(label);
    match v {
        Some(c) => {
            if is_system {
                push_str(&mut out, gray_code());
                push_str(&mut out, c.as_str());
                push_str(&mut out, " (system, replaceable)");
                push_str(&mut out, reset_code());
            } else {
                push_str(&mut out, yellow_code());
                push_str(&mut out, c.as_str());
                push_str(&mut out, reset_code());
            }
        },
        None => {
            push_str(&mut out, gray_code());
            push_str(&mut out, "(none)");
            push_str(&mut out, reset_code());
        },
    }
    string_of(&out)
}

fn sysfx_line_exec(flags: Option<u32>) -> (r: String)
    ensures
        r@ == sysfx_line(flags),
{
    let mut out = chars_of("  SysFX:    ");
    match flags {
        Some(f) => {
            let bit0 = f & 1;
            assert(f & 1u32 == f % 2) by (bit_vector);
            if bit0 != 0 {
                push_str(&mut out, red_code());
                push_str(&mut out, "DISABLED");
            } else {
                push_str(&mut out, green_code());
                push_str(&mut out, "ENABLED");
            }
            push_str(&mut out, reset_code());
            push_str(&mut out, " ");
            push_str(&mut out, gray_code());
            push_str(&mut out, "(AudioEndpoint_Flags=0x");
            push_hex_padded(&mut out, f as u64, 2);
            push_str(&mut out, ", bit0=");
            push_dec(&mut out, bit0 as u64);
            push_str(&mut out, ")");
            push_str(&mut out, reset_code());
        },
        None => {
            push_str(&mut out, gray_code());
            push_str(&mut out, "(not set)");
            push_str(&mut out, reset_code());
        },
    }
    string_of(&out)
}

fn enhancements_line_exec(de: Option<u32>) -> (r: String)
    ensures
        r@ == enhancements_line(de),
{
    let mut out = chars_of("  Enhancements: ");
    let v: u32 = match de {
        Some(v) => v,
        None => 0,
    };
    if v == 0 {
        push_str(&mut out, green_code());
        push_str(&mut out, "ENABLED");
        push_str(&mut out, reset_code());
        push_str(&mut out, " ");
        push_str(&mut out, gray_code());
        push_str(&mut out, "(DisableEnhancements not set)");
    } else if v == 1 {
        push_str(&mut out, red_code());
        push_str(&mut out, "DISABLED");
        push_str(&mut out, reset_code());
        push_str(&mut out, " ");
        push_str(&mut out, gray_code());
        push_str(&mut out, "(DisableEnhancements=1)");
    } else {
        push_str(&mut out, yellow_code());
        push_str(&mut out, "UNKNOWN");
        push_str(&mut out, reset_code());
        push_str(&mut out, " ");
        push_str(&mut out, gray_code());
        push_str(&mut out, "(DisableEnhancements=");
        push_dec(&mut out, v as u64);
        push_str(&mut out, ")");
    }
    push_str(&mut out, reset_code());
    string_of(&out)
}

/// The lines of an endpoint's detail header.
pub fn detail_header_lines(ep: &Endpoint) -> (r: Vec<String>)
    ensures
        string_views(r@) == detail_header_spec(ep@),
{
    let ghost v = ep@;
    let ghost p1 = seq![
        "\n"@ + rule_line(),
        " "@ + bold() + v.name + reset(),
        rule_line(),
        "  Index:    "@ + bold() + dec(v.index as nat) + reset(),
        "  GUID:     "@ + gray() + v.guid + reset(),
        "  Type:     "@ + kind_color(v.kind) + kind_text(v.kind) + reset(),
        "  Path:     "@ + gray() + "HKLM\\...\\Audio\\"@ + reg_path_text(v.kind) + "\\"@ + v.guid
            + reset(),
    ];
    let mut lines: Vec<String> = Vec::new();
    let mut l0 = chars_of("\n");
    push_rule(&mut l0);
    lines.push(string_of(&l0));
    let mut l1 = chars_of(" ");
    push_str(&mut l1, bold_code());
    push_str(&mut l1, ep.name.as_str());
    push_str(&mut l1, reset_code());
    lines.push(string_of(&l1));
    let mut l2: Vec<char> = Vec::new();
    push_rule(&mut l2);
    lines.push(string_of(&l2));
    let mut l3 = chars_of("  Index:    ");
    push_str(&mut l3, bold_code());
    push_dec(&mut l3, ep.index as u64);
    push_str(&mut l3, reset_code());
    lines.push(string_of(&l3));
    let mut l4 = chars_of("  GUID:     ");
    push_str(&mut l4, gray_code());
    push_str(&mut l4, ep.guid.as_str());
    push_str(&mut l4, reset_code());
    lines.push(string_of(&l4));
    let mut l5 = chars_of("  Type:     ");
    push_str(&mut l5, kind_color_exec(ep.kind));
    push_str(&mut l5, ep.kind.display_name());
    push_str(&mut l5, reset_code());
    lines.push(string_of(&l5));
    let mut l6 = chars_of("  Path:     ");
    push_str(&mut l6, gray_code());
    push_str(&mut l6, "HKLM\\...\\Audio\\");
    push_str(&mut l6, ep.kind.reg_path());
    push_str(&mut l6, "\\");
    push_str(&mut l6, ep.guid.as_str());
    push_str(&mut l6, reset_code());
    lines.push(string_of(&l6));
    assert(string_views(lines@) =~= p1);
    let ghost after1 = string_views(lines@);
    match (ep.sample_rate, ep.channels, ep.bit_depth) {
        (Some(sr), Some(ch), Some(bd)) => {
            if sr > 0 && ch > 0 && bd > 0 {
                let mut a = chars_of("  Audio:    ");
                push_dec(&mut a, sr as u64);
                push_str(&mut a, " Hz, ");
                push_dec(&mut a, ch as u64);
                push_str(&mut a, "ch, ");
                push_dec(&mut a, bd as u64);
                push_str(&mut a, "bit, mask=");
                match ep.channel_mask {
                    Some(m) => {
                        push_str(&mut a, "0x");
                        push_hex_padded(&mut a, m as u64, 8);
                    },
                    None => push_str(&mut a, "none"),
                }
                assert(a@ =~= audio_lines(v)[0]);
                let ghost before = string_views(lines@);
                lines.push(string_of(&a));
                assert(string_views(lines@) =~= before.push(a@));
            }
        },
        _ => {},
    }
    assert(string_views(lines@) =~= after1 + audio_lines(v));
    let ghost after2 = string_views(lines@);
    match (ep.channels, ep.channel_mask) {
        (Some(ch), Some(mask)) => {
            let sc = count_ones(mask);
            if sc > 0 && sc != ch as u32 {
                let mut w = chars_of("  ");
                push_str(&mut w, yellow_code());
                push_str(&mut w, "WARNING: mask has ");
                push_dec(&mut w, sc as u64);
                push_str(&mut w, " speaker(s) but device reports ");
                push_dec(&mut w, ch as u64);
                push_str(&mut w, " channel(s)");
                push_str(&mut w, reset_code());
                lines.push(string_of(&w));
            }
        },
        _ => {},
    }
    assert(string_views(lines@) =~= after2 + mask_warning(v));
    let ghost after3 = string_views(lines@);
    lines.push(apo_display_line("  SFX APO:  ", &ep.sfx, ep.sfx_is_system));
    lines.push(apo_display_line("  MFX APO:  ", &ep.mfx, ep.mfx_is_system));
    lines.push(apo_display_line("  EFX APO:  ", &ep.efx, ep.efx_is_system));
    lines.push(sysfx_line_exec(ep.endpoint_flags));
    lines.push(enhancements_line_exec(ep.disable_enhancements));
    let mut last: Vec<char> = Vec::new();
    push_rule(&mut last);
    lines.push(string_of(&last));
    assert(string_views(lines@) =~= detail_header_spec(v));
    lines
}

} // verus!
