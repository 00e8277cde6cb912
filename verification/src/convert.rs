//! Conversion of legacy EAPO-style text configuration into `config.toml`.
//!
//! GraphicEQ numbers are normalised the way an `f32` prints; that arithmetic is not done
//! here.  The converter asks for each number it needs (`ConvertStep::NeedNumber`) and reads
//! the answers from a table the caller fills.
use vstd::prelude::*;
use crate::i18n::Lang;
use crate::text::{
    ascii_lower, chars_of, dec, eq_ignore_ascii_case, lemma_lines_append, lines, lines_exec,
    push_chars, push_dec, push_str, seq_eq, slice_of, split_char, split_on, split_once, split_once_exec,
    split_whitespace, string_of, to_ascii_lowercase, trim, trim_exec, views, words,
};

verus! {

// ---------------------------------------------------------------------------
// `Key Value [unit]` pairs
// ---------------------------------------------------------------------------

/// Whether a token is a unit that follows a value (`Hz`, `dB`, `ms`, any letter case).
pub open spec fn is_unit(t: Seq<char>) -> bool {
    ascii_lower(t) == ascii_lower("hz"@) || ascii_lower(t) == ascii_lower("db"@) || ascii_lower(t)
        == ascii_lower("ms"@)
}

/// The pairs read from the tokens from index `i` on: a lower-cased key, then its value,
/// then an optional unit that is skipped.  A key without a value ends the reading.
pub open spec fn kv_pairs_from(toks: Seq<Seq<char>>, i: nat) -> Seq<(Seq<char>, Seq<char>)>
    decreases toks.len() - i,
{
    if i + 1 >= toks.len() {
        seq![]
    } else {
        let j = i + 2;
        let next = if j < toks.len() && is_unit(toks[j as int]) {
            j + 1
        } else {
            j
        };
        seq![(ascii_lower(toks[i as int]), toks[i + 1 as int])] + kv_pairs_from(toks, next)
    }
}

/// The map built by inserting the pairs in order (a later key replaces an earlier one).
pub open spec fn kv_map(pairs: Seq<(Seq<char>, Seq<char>)>) -> Map<Seq<char>, Seq<char>>
    decreases pairs.len(),
{
    if pairs.len() == 0 {
        Map::empty()
    } else {
        kv_map(pairs.drop_last()).insert(pairs.last().0, pairs.last().1)
    }
}

/// Key/value pairs of one command line, looked up as a map.
pub struct KvMap {
    pairs: Vec<(Vec<char>, Vec<char>)>,
}

pub open spec fn kv_views(v: Seq<(Vec<char>, Vec<char>)>) -> Seq<(Seq<char>, Seq<char>)> {
    v.map_values(|p: (Vec<char>, Vec<char>)| (p.0@, p.1@))
}

impl View for KvMap {
    type V = Map<Seq<char>, Seq<char>>;

    closed spec fn view(&self) -> Map<Seq<char>, Seq<char>> {
        kv_map(kv_views(self.pairs@))
    }
}

impl KvMap {
    /// The value stored under `key`.
    pub fn get(&self, key: &Vec<char>) -> (r: Option<Vec<char>>)
        ensures
            match r {
                Some(v) => self@.contains_key(key@) && self@[key@] == v@,
                None => !self@.contains_key(key@),
            },
    {
        let ghost pv = kv_views(self.pairs@);
        let mut j: usize = self.pairs.len();
        assert(pv.take(j as int) =~= pv);
        while j > 0
            invariant
                j <= self.pairs.len(),
                pv == kv_views(self.pairs@),
                kv_map(pv).contains_key(key@) == kv_map(pv.take(j as int)).contains_key(key@),
                kv_map(pv).contains_key(key@) ==> kv_map(pv)[key@] == kv_map(pv.take(j as int))[key@],
            decreases j,
        {
            assert(pv.take(j as int).drop_last() =~= pv.take(j - 1));
            assert(pv.take(j as int).last() == pv[j - 1]);
            if seq_eq(&self.pairs[j - 1].0, key) {
                return Some(slice_of(&self.pairs[j - 1].1, 0, self.pairs[j - 1].1.len()));
            }
            j -= 1;
        }
        None
    }

    pub fn contains_key(&self, key: &Vec<char>) -> (r: bool)
        ensures
            r == self@.contains_key(key@),
    {
        self.get(key).is_some()
    }
}

proof fn lemma_kv_views_push(v: Seq<(Vec<char>, Vec<char>)>, p: (Vec<char>, Vec<char>))
    ensures
        kv_views(v.push(p)) == kv_views(v).push((p.0@, p.1@)),
{
    assert(kv_views(v.push(p)) =~= kv_views(v).push((p.0@, p.1@)));
}

/// Reads `Key Value [unit]` pairs (keys lower-cased, units skipped).
pub fn parse_kv(rest: &Vec<char>) -> (r: KvMap)
    ensures
        r@ == kv_map(kv_pairs_from(words(rest@), 0)),
{
    let toks = split_whitespace(rest);
    let ghost tv = views(toks@);
    let mut pairs: Vec<(Vec<char>, Vec<char>)> = Vec::new();
    let mut i: usize = 0;
    let hz = chars_of("hz");
    let db = chars_of("db");
    let ms = chars_of("ms");
    while i < toks.len() && toks.len() - i > 1
        invariant
            tv == views(toks@),
            tv == words(rest@),
            i <= toks.len(),
            hz@ == "hz"@,
            db@ == "db"@,
            ms@ == "ms"@,
            kv_pairs_from(tv, 0) == kv_views(pairs@) + kv_pairs_from(tv, i as nat),
        decreases toks.len() - i,
    {
        let key = to_ascii_lowercase(&toks[i]);
        let val = slice_of(&toks[i + 1], 0, toks[i + 1].len());
        assert(toks[i + 1 as int]@ == tv[i + 1]);
        assert(val@ =~= tv[i + 1]);
        let mut next: usize = i + 2;
        if next < toks.len() {
            let t = &toks[next];
            if eq_ignore_ascii_case(t, &hz) || eq_ignore_ascii_case(t, &db) || eq_ignore_ascii_case(t, &ms) {
                next = next + 1;
            }
        }
        let entry = (key, val);
        proof {
            lemma_kv_views_push(pairs@, entry);
        }
        pairs.push(entry);
        assert(kv_views(pairs@) + kv_pairs_from(tv, next as nat) =~= kv_pairs_from(tv, 0));
        i = next;
    }
    assert(kv_pairs_from(tv, i as nat) =~= Seq::<(Seq<char>, Seq<char>)>::empty());
    assert(kv_views(pairs@) =~= kv_pairs_from(tv, 0));
    KvMap { pairs }
}


// ---------------------------------------------------------------------------
// Mapped parameters
// ---------------------------------------------------------------------------

/// `dst = value` lines for each `(key, dst)` of the mapping whose key is present.
pub open spec fn mapped_text(kv: Map<Seq<char>, Seq<char>>, mapping: Seq<(Seq<char>, Seq<char>)>) -> Seq<char>
    decreases mapping.len(),
{
    if mapping.len() == 0 {
        seq![]
    } else {
        let k = mapping.last().0;
        let dst = mapping.last().1;
        mapped_text(kv, mapping.drop_last()) + if kv.contains_key(k) {
            dst + " = "@ + kv[k] + "\n"@
        } else {
            seq![]
        }
    }
}

pub open spec fn mapping_view(m: Seq<(&str, &str)>) -> Seq<(Seq<char>, Seq<char>)> {
    m.map_values(|p: (&str, &str)| (p.0@, p.1@))
}

/// Appends `dst = value` for each mapped key that `kv` holds, in mapping order.
pub fn write_mapped(out: &mut Vec<char>, kv: &KvMap, map: &[(&str, &str)])
    ensures
        final(out)@ == old(out)@ + mapped_text(kv@, mapping_view(map@)),
{
    let ghost start = out@;
    let ghost mv = mapping_view(map@);
    let mut i: usize = 0;
    assert(mv.take(0) =~= Seq::<(Seq<char>, Seq<char>)>::empty());
    assert(start + mapped_text(kv@, mv.take(0)) =~= start);
    while i < map.len()
        invariant
            i <= map.len(),
            mv == mapping_view(map@),
            out@ == start + mapped_text(kv@, mv.take(i as int)),
        decreases map.len() - i,
    {
        let (k, dst) = map[i];
        let key = chars_of(k);
        assert(mv.take(i + 1).drop_last() =~= mv.take(i as int));
        assert(mv.take(i + 1).last() == (k@, dst@));
        let ghost before = out@;
        match kv.get(&key) {
            Some(v) => {
                push_str(out, dst);
                push_str(out, " = ");
                push_chars(out, &v);
                push_str(out, "\n");
                assert(out@ =~= before + (dst@ + " = "@ + v@ + "\n"@));
            },
            None => {},
        }
        i += 1;
        assert(out@ =~= start + mapped_text(kv@, mv.take(i as int)));
    }
    assert(mv.take(map.len() as int) =~= mv);
}

pub open spec fn aural_map() -> Seq<(Seq<char>, Seq<char>)> {
    seq![
        ("tunehz"@, "tune_hz"@),
        ("drive"@, "drive"@),
        ("odd"@, "odd"@),
        ("even"@, "even"@),
        ("wet"@, "wet"@),
        ("dry"@, "dry"@),
    ]
}

pub open spec fn reverb_map() -> Seq<(Seq<char>, Seq<char>)> {
    seq![
        ("roomsize"@, "room_size"@),
        ("decay"@, "decay"@),
        ("damping"@, "damping"@),
        ("bandwidth"@, "bandwidth"@),
        ("density"@, "density"@),
        ("lat5"@, "lat5"@),
        ("lat6"@, "lat6"@),
        ("predelay"@, "pre_delay_ms"@),
        ("motionrate"@, "motion_rate"@),
        ("motiondepth"@, "motion_depth_ms"@),
        ("wet"@, "wet"@),
        ("dry"@, "dry"@),
    ]
}

pub open spec fn maximizer_map() -> Seq<(Seq<char>, Seq<char>)> {
    seq![("release"@, "release_ms"@), ("wet"@, "wet"@), ("dry"@, "dry"@)]
}

/// Maximizer parameters that the current model no longer has.
pub open spec fn maximizer_dropped() -> Seq<Seq<char>> {
    seq!["gainboost"@, "maxoutput"@, "target"@, "lookahead"@, "dither"@]
}

// ---------------------------------------------------------------------------
// Numbers supplied by the caller
// ---------------------------------------------------------------------------

pub open spec fn number_views(t: Seq<(String, Option<String>)>) -> Seq<(Seq<char>, Option<Seq<char>>)> {
    t.map_values(
        |e: (String, Option<String>)|
            (
                e.0@,
                match e.1 {
                    Some(v) => Some(v@),
                    None => None,
                },
            ),
    )
}

/// The entry for a raw number: `None` when the table has none (the converter must ask),
/// `Some(None)` when it does not read as a number, `Some(Some(text))` its printed form.
pub open spec fn lookup_number(t: Seq<(Seq<char>, Option<Seq<char>>)>, raw: Seq<char>) -> Option<Option<Seq<char>>>
    decreases t.len(),
{
    if t.len() == 0 {
        None
    } else if t[0].0 == raw {
        Some(t[0].1)
    } else {
        lookup_number(t.drop_first(), raw)
    }
}

fn lookup_number_exec(numbers: &[(String, Option<String>)], raw: &Vec<char>) -> (r: Option<Option<Vec<char>>>)
    ensures
        match r {
            None => lookup_number(number_views(numbers@), raw@) is None,
            Some(None) => lookup_number(number_views(numbers@), raw@) == Some(None::<Seq<char>>),
            Some(Some(v)) => lookup_number(number_views(numbers@), raw@) == Some(Some(v@)),
        },
{
    let ghost nv = number_views(numbers@);
    let mut i: usize = 0;
    assert(nv.skip(0) =~= nv);
    while i < numbers.len()
        invariant
            i <= numbers.len(),
            nv == number_views(numbers@),
            lookup_number(nv, raw@) == lookup_number(nv.skip(i as int), raw@),
        decreases numbers.len() - i,
    {
        assert(nv.skip(i as int)[0] == nv[i as int]);
        assert(nv.skip(i as int).drop_first() =~= nv.skip(i + 1));
        let k = chars_of(numbers[i].0.as_str());
        if seq_eq(&k, raw) {
            return match &numbers[i].1 {
                Some(v) => Some(Some(chars_of(v.as_str()))),
                None => Some(None),
            };
        }
        i += 1;
    }
    None
}

// ---------------------------------------------------------------------------
// Outcomes
// ---------------------------------------------------------------------------

/// Why conversion stopped: a failure message, or a raw number the table lacks.
pub enum Stop {
    Fail(Vec<char>),
    Need(Vec<char>),
}

/// `(true, raw)` for a missing number, `(false, message)` for a failure.
pub open spec fn stop_view(s: Stop) -> (bool, Seq<char>) {
    match s {
        Stop::Fail(m) => (false, m@),
        Stop::Need(x) => (true, x@),
    }
}

/// What one line yields: text to append and an optional warning, or a stop.
pub type LineSpec = Result<(Seq<char>, Option<Seq<char>>), (bool, Seq<char>)>;

pub type LineExec = Result<(Vec<char>, Option<Vec<char>>), Stop>;

pub open spec fn line_view(r: LineExec) -> LineSpec {
    match r {
        Ok((o, w)) => Ok(
            (
                o@,
                match w {
                    Some(x) => Some(x@),
                    None => None,
                },
            ),
        ),
        Err(s) => Err(stop_view(s)),
    }
}

pub open spec fn fail(m: Seq<char>) -> LineSpec {
    Err((false, m))
}

pub open spec fn emit(o: Seq<char>) -> LineSpec {
    Ok((o, None))
}

pub open spec fn warn(w: Seq<char>) -> LineSpec {
    Ok((Seq::empty(), Some(w)))
}

// ---------------------------------------------------------------------------
// Messages
// ---------------------------------------------------------------------------

pub open spec fn msg_unrecognized(lang: Lang, line: Seq<char>) -> Seq<char> {
    if lang == Lang::En {
        "⚠ Skipping unrecognized line: "@ + line
    } else {
        "⚠ 跳过无法识别的行："@ + line
    }
}

pub open spec fn msg_geq_empty(lang: Lang) -> Seq<char> {
    if lang == Lang::En {
        "⚠ GraphicEQ: empty parameters skipped"@
    } else {
        "⚠ GraphicEQ: 空参数跳过"@
    }
}

pub open spec fn msg_bad_segment(lang: Lang, seg: Seq<char>) -> Seq<char> {
    if lang == Lang::En {
        "Invalid GraphicEQ segment: '"@ + seg + "'"@
    } else {
        "GraphicEQ 段无效：'"@ + seg + "'"@
    }
}

pub open spec fn msg_band_count(n: nat) -> Seq<char> {
    "GraphicEQ 转换后 "@ + dec(n) + " 段，PEQ 要求 6-31 段（请手动调整曲线）"@
}

pub open spec fn msg_maximizer_dropped(lang: Lang) -> Seq<char> {
    if lang == Lang::En {
        "⚠ Maximizer: mapped to `compressor`; gain_boost/max_output/target/lookahead/dither are no longer supported and were dropped"@
    } else {
        "⚠ Maximizer：已映射为 compressor；gain_boost/max_output/target/lookahead/dither 不再支持，已丢弃"@
    }
}

pub open spec fn msg_unsupported(lang: Lang, cmd: Seq<char>) -> Seq<char> {
    if lang == Lang::En {
        "⚠ Command "@ + cmd + ": no longer supported, skipped (please migrate manually)"@
    } else {
        "⚠ 命令 "@ + cmd + ": 不再支持，跳过（请手动迁移）"@
    }
}

// ---------------------------------------------------------------------------
// GraphicEQ
// ---------------------------------------------------------------------------

/// One `;`-separated GraphicEQ segment (already trimmed): `None` when empty, else the
/// band `(frequency, gain)` in printed form, or a stop.
pub open spec fn seg_band(seg: Seq<char>, t: Seq<(Seq<char>, Option<Seq<char>>)>, lang: Lang) -> Option<Result<(Seq<char>, Seq<char>), (bool, Seq<char>)>> {
    if seg.len() == 0 {
        None
    } else {
        let toks = words(seg);
        if toks.len() < 2 {
            Some(Err((false, msg_bad_segment(lang, seg))))
        } else {
            match lookup_number(t, toks[0]) {
                None => Some(Err((true, toks[0]))),
                Some(None) => Some(Err((false, "频率无效："@ + toks[0]))),
                Some(Some(f)) => match lookup_number(t, toks[1]) {
                    None => Some(Err((true, toks[1]))),
                    Some(None) => Some(Err((false, "增益无效："@ + toks[1]))),
                    Some(Some(g)) => Some(Ok((f, g))),
                },
            }
        }
    }
}

/// The bands of all segments, in order, or the first stop.
pub open spec fn geq_bands(segs: Seq<Seq<char>>, t: Seq<(Seq<char>, Option<Seq<char>>)>, lang: Lang) -> Result<Seq<(Seq<char>, Seq<char>)>, (bool, Seq<char>)>
    decreases segs.len(),
{
    if segs.len() == 0 {
        Ok(seq![])
    } else {
        match geq_bands(segs.drop_last(), t, lang) {
            Ok(bs) => match seg_band(trim(segs.last()), t, lang) {
                None => Ok(bs),
                Some(Ok(b)) => Ok(bs.push(b)),
                Some(Err(e)) => Err(e),
            },
            Err(e) => Err(e),
        }
    }
}

pub open spec fn bands_text(bs: Seq<(Seq<char>, Seq<char>)>) -> Seq<char>
    decreases bs.len(),
{
    if bs.len() == 0 {
        seq![]
    } else {
        bands_text(bs.drop_last()) + "[[effects.bands]]\nfc = "@ + bs.last().0 + "\ngain_db = "@
            + bs.last().1 + "\nq = 1.0\n"@
    }
}

/// `GraphicEQ: f g; f g; ...` becomes a `peq` effect of 6 to 31 bands.
pub open spec fn graphiceq_result(rest: Seq<char>, t: Seq<(Seq<char>, Option<Seq<char>>)>, lang: Lang) -> LineSpec {
    if rest.len() == 0 {
        warn(msg_geq_empty(lang))
    } else {
        match geq_bands(split_on(rest, ';'), t, lang) {
            Err(e) => Err(e),
            Ok(bs) => if 6 <= bs.len() && bs.len() <= 31 {
                emit("[[effects]]\ntype = \"peq\"\n"@ + bands_text(bs) + "\n"@)
            } else {
                fail(msg_band_count(bs.len()))
            },
        }
    }
}

/// A GraphicEQ line whose segments all read as bands becomes a `peq` effect with exactly
/// those bands, in order, when there are 6 to 31 of them (both ends included), and fails
/// with the band-count message otherwise.
pub proof fn law_graphiceq_band_count(rest: Seq<char>, t: Seq<(Seq<char>, Option<Seq<char>>)>, lang: Lang)
    requires
        rest.len() > 0,
        forall|i: int|
            0 <= i < split_on(rest, ';').len() ==> (#[trigger] seg_band(trim(split_on(rest, ';')[i]), t, lang)) is Some
                && seg_band(trim(split_on(rest, ';')[i]), t, lang)->Some_0 is Ok,
    ensures
        ({
            let segs = split_on(rest, ';');
            let bs = Seq::new(segs.len(), |i: int| seg_band(trim(segs[i]), t, lang)->Some_0->Ok_0);
            &&& 6 <= segs.len() && segs.len() <= 31 ==> graphiceq_result(rest, t, lang) == emit(
                "[[effects]]\ntype = \"peq\"\n"@ + bands_text(bs) + "\n"@,
            )
            &&& (segs.len() < 6 || segs.len() > 31) ==> graphiceq_result(rest, t, lang) == fail(
                msg_band_count(segs.len()),
            )
        }),
{
    let segs = split_on(rest, ';');
    let bs = Seq::new(segs.len(), |i: int| seg_band(trim(segs[i]), t, lang)->Some_0->Ok_0);
    lemma_geq_bands_all(segs, t, lang);
    assert(geq_bands(segs, t, lang) == Ok::<Seq<(Seq<char>, Seq<char>)>, (bool, Seq<char>)>(bs));
}

proof fn lemma_geq_bands_all(segs: Seq<Seq<char>>, t: Seq<(Seq<char>, Option<Seq<char>>)>, lang: Lang)
    requires
        forall|i: int|
            0 <= i < segs.len() ==> (#[trigger] seg_band(trim(segs[i]), t, lang)) is Some && seg_band(
                trim(segs[i]),
                t,
                lang,
            )->Some_0 is Ok,
    ensures
        geq_bands(segs, t, lang) == Ok::<Seq<(Seq<char>, Seq<char>)>, (bool, Seq<char>)>(
            Seq::new(segs.len(), |i: int| seg_band(trim(segs[i]), t, lang)->Some_0->Ok_0),
        ),
    decreases segs.len(),
{
    if segs.len() > 0 {
        let d = segs.drop_last();
        assert forall|i: int| 0 <= i < d.len() implies (#[trigger] seg_band(trim(d[i]), t, lang)) is Some
            && seg_band(trim(d[i]), t, lang)->Some_0 is Ok by {
            assert(d[i] == segs[i]);
        }
        lemma_geq_bands_all(d, t, lang);
        let prev = Seq::new(d.len(), |i: int| seg_band(trim(d[i]), t, lang)->Some_0->Ok_0);
        let all = Seq::new(segs.len(), |i: int| seg_band(trim(segs[i]), t, lang)->Some_0->Ok_0);
        assert(seg_band(trim(segs[segs.len() - 1]), t, lang) is Some);
        assert(all =~= prev.push(seg_band(trim(segs.last()), t, lang)->Some_0->Ok_0));
        assert(geq_bands(segs, t, lang) == Ok::<Seq<(Seq<char>, Seq<char>)>, (bool, Seq<char>)>(
            prev.push(seg_band(trim(segs.last()), t, lang)->Some_0->Ok_0),
        ));
    } else {
        assert(Seq::new(segs.len(), |i: int| seg_band(trim(segs[i]), t, lang)->Some_0->Ok_0)
            =~= Seq::<(Seq<char>, Seq<char>)>::empty());
    }
}

type SegExec = Option<Result<(Vec<char>, Vec<char>), Stop>>;

spec fn seg_view(r: SegExec) -> Option<Result<(Seq<char>, Seq<char>), (bool, Seq<char>)>> {
    match r {
        None => None,
        Some(Ok((f, g))) => Some(Ok((f@, g@))),
        Some(Err(s)) => Some(Err(stop_view(s))),
    }
}

fn lit(s: &str) -> (r: Vec<char>)
    ensures
        r@ == s@,
{
    chars_of(s)
}

fn cat(a: &str, b: &Vec<char>) -> (r: Vec<char>)
    ensures
        r@ == a@ + b@,
{
    let mut out = chars_of(a);
    push_chars(&mut out, b);
    out
}

fn cat3(a: &str, b: &Vec<char>, c: &str) -> (r: Vec<char>)
    ensures
        r@ == a@ + b@ + c@,
{
    let mut out = chars_of(a);
    push_chars(&mut out, b);
    push_str(&mut out, c);
    out
}

fn seg_band_exec(seg: &Vec<char>, numbers: &[(String, Option<String>)], lang: Lang) -> (r: SegExec)
    ensures
        seg_view(r) == seg_band(seg@, number_views(numbers@), lang),
{
    if seg.len() == 0 {
        return None;
    }
    let toks = split_whitespace(seg);
    if toks.len() < 2 {
        let m = if lang == Lang::En {
            cat3("Invalid GraphicEQ segment: '", seg, "'")
        } else {
            cat3("GraphicEQ 段无效：'", seg, "'")
        };
        return Some(Err(Stop::Fail(m)));
    }
    let f_raw = slice_of(&toks[0], 0, toks[0].len());
    let g_raw = slice_of(&toks[1], 0, toks[1].len());
    assert(f_raw@ =~= words(seg@)[0]);
    assert(g_raw@ =~= words(seg@)[1]);
    match lookup_number_exec(numbers, &f_raw) {
        None => Some(Err(Stop::Need(f_raw))),
        Some(None) => Some(Err(Stop::Fail(cat("频率无效：", &f_raw)))),
        Some(Some(f)) => match lookup_number_exec(numbers, &g_raw) {
            None => Some(Err(Stop::Need(g_raw))),
            Some(None) => Some(Err(Stop::Fail(cat("增益无效：", &g_raw)))),
            Some(Some(g)) => Some(Ok((f, g))),
        },
    }
}

pub open spec fn band_views(v: Seq<(Vec<char>, Vec<char>)>) -> Seq<(Seq<char>, Seq<char>)> {
    v.map_values(|p: (Vec<char>, Vec<char>)| (p.0@, p.1@))
}

proof fn lemma_geq_stopped(segs: Seq<Seq<char>>, t: Seq<(Seq<char>, Option<Seq<char>>)>, lang: Lang, k: nat)
    requires
        k <= segs.len(),
        geq_bands(segs.take(k as int), t, lang) is Err,
    ensures
        geq_bands(segs, t, lang) == geq_bands(segs.take(k as int), t, lang),
    decreases segs.len(),
{
    if k < segs.len() {
        assert(segs.drop_last().take(k as int) =~= segs.take(k as int));
        lemma_geq_stopped(segs.drop_last(), t, lang, k);
    } else {
        assert(segs.take(k as int) =~= segs);
    }
}

fn geq_bands_exec(rest: &Vec<char>, numbers: &[(String, Option<String>)], lang: Lang) -> (r: Result<Vec<(Vec<char>, Vec<char>)>, Stop>)
    ensures
        match r {
            Ok(bs) => geq_bands(split_on(rest@, ';'), number_views(numbers@), lang) == Ok::<
                Seq<(Seq<char>, Seq<char>)>,
                (bool, Seq<char>),
            >(band_views(bs@)),
            Err(s) => geq_bands(split_on(rest@, ';'), number_views(numbers@), lang) == Err::<
                Seq<(Seq<char>, Seq<char>)>,
                (bool, Seq<char>),
            >(stop_view(s)),
        },
{
    let segs = split_char(rest, ';');
    let ghost sv = views(segs@);
    let ghost nv = number_views(numbers@);
    let mut bands: Vec<(Vec<char>, Vec<char>)> = Vec::new();
    let mut i: usize = 0;
    assert(sv.take(0) =~= Seq::<Seq<char>>::empty());
    assert(band_views(bands@) =~= Seq::<(Seq<char>, Seq<char>)>::empty());
    while i < segs.len()
        invariant
            i <= segs.len(),
            sv == views(segs@),
            sv == split_on(rest@, ';'),
            nv == number_views(numbers@),
            geq_bands(sv.take(i as int), nv, lang) == Ok::<
                Seq<(Seq<char>, Seq<char>)>,
                (bool, Seq<char>),
            >(band_views(bands@)),
        decreases segs.len() - i,
    {
        assert(sv.take(i + 1).drop_last() =~= sv.take(i as int));
        assert(sv.take(i + 1).last() == sv[i as int]);
        let seg = trim_exec(&segs[i]);
        match seg_band_exec(&seg, numbers, lang) {
            None => {},
            Some(Ok(b)) => {
                let ghost bv = (b.0@, b.1@);
                let ghost before = band_views(bands@);
                bands.push(b);
                assert(band_views(bands@) =~= before.push(bv));
            },
            Some(Err(s)) => {
                proof {
                    lemma_geq_stopped(sv, nv, lang, (i + 1) as nat);
                }
                return Err(s);
            },
        }
        i += 1;
    }
    assert(sv.take(segs.len() as int) =~= sv);
    Ok(bands)
}


#[verifier::rlimit(30)]
fn graphiceq_exec(rest: &Vec<char>, numbers: &[(String, Option<String>)], lang: Lang) -> (r: LineExec)
    ensures
        line_view(r) == graphiceq_result(rest@, number_views(numbers@), lang),
{
    if rest.len() == 0 {
        let w = if lang == Lang::En {
            lit("⚠ GraphicEQ: empty parameters skipped")
        } else {
            lit("⚠ GraphicEQ: 空参数跳过")
        };
        return Ok((Vec::new(), Some(w)));
    }
    match geq_bands_exec(rest, numbers, lang) {
        Err(s) => Err(s),
        Ok(bands) => {
            let ghost bv = band_views(bands@);
            if 6 <= bands.len() && bands.len() <= 31 {
                let mut out = lit("[[effects]]\ntype = \"peq\"\n");
                let ghost head = out@;
                let mut i: usize = 0;
                assert(bv.take(0) =~= Seq::<(Seq<char>, Seq<char>)>::empty());
                assert(head + bands_text(bv.take(0)) =~= head);
                while i < bands.len()
                    invariant
                        i <= bands.len(),
                        bv == band_views(bands@),
                        out@ == head + bands_text(bv.take(i as int)),
                    decreases bands.len() - i,
                {
                    assert(bv.take(i + 1).drop_last() =~= bv.take(i as int));
                    assert(bv.take(i + 1).last() == bv[i as int]);
                    let ghost before = out@;
                    push_str(&mut out, "[[effects.bands]]\nfc = ");
                    push_chars(&mut out, &bands[i].0);
                    push_str(&mut out, "\ngain_db = ");
                    push_chars(&mut out, &bands[i].1);
                    push_str(&mut out, "\nq = 1.0\n");
                    i += 1;
                    assert(out@ =~= head + bands_text(bv.take(i as int)));
                }
                assert(bv.take(bands.len() as int) =~= bv);
                push_str(&mut out, "\n");
                Ok((out, None))
            } else {
                let mut m = lit("GraphicEQ 转换后 ");
                push_dec(&mut m, bands.len() as u64);
                push_str(&mut m, " 段，PEQ 要求 6-31 段（请手动调整曲线）");
                Err(Stop::Fail(m))
            }
        },
    }
}

/// The effect that one command line (`cmd` lower-cased and trimmed, `rest` trimmed) yields.
pub open spec fn command_result(cmd: Seq<char>, rest: Seq<char>, t: Seq<(Seq<char>, Option<Seq<char>>)>, lang: Lang) -> LineSpec {
    let kv = kv_map(kv_pairs_from(words(rest), 0));
    if cmd == "graphiceq"@ {
        graphiceq_result(rest, t, lang)
    } else if cmd == "preamp"@ {
        let ws = words(rest);
        if ws.len() == 0 {
            fail("Preamp 参数无效"@)
        } else {
            emit("[[effects]]\ntype = \"preamp\"\ngain_db = "@ + ws[0] + "\n\n"@)
        }
    } else if cmd == "wide"@ {
        if kv.contains_key("intensity"@) {
            emit("[[effects]]\ntype = \"wide\"\nintensity = "@ + kv["intensity"@] + "\n\n"@)
        } else if kv.contains_key("surround"@) {
            emit("[[effects]]\ntype = \"wide\"\nintensity = "@ + kv["surround"@] + "\n\n"@)
        } else {
            fail("Wide 缺少 Intensity"@)
        }
    } else if cmd == "auralenhancer"@ {
        emit("[[effects]]\ntype = \"aural\"\n"@ + mapped_text(kv, aural_map()) + "\n"@)
    } else if cmd == "reverb"@ {
        emit("[[effects]]\ntype = \"reverb\"\n"@ + mapped_text(kv, reverb_map()) + "\n"@)
    } else if cmd == "maximizer"@ {
        Ok(
            (
                "[[effects]]\ntype = \"compressor\"\n"@ + mapped_text(kv, maximizer_map()) + "\n"@,
                if exists|i: int|
                    0 <= i < maximizer_dropped().len() && kv.contains_key(
                        #[trigger] maximizer_dropped()[i],
                    ) {
                    Some(msg_maximizer_dropped(lang))
                } else {
                    None
                },
            ),
        )
    } else if cmd == "loudnesscorrection"@ {
        let ws = words(rest);
        if ws.len() == 0 {
            fail("LoudnessCorrection 缺少 phon"@)
        } else {
            let reference = if ws.len() > 1 {
                ws[1]
            } else {
                "80"@
            };
            emit(
                "[[effects]]\ntype = \"loudness\"\nphon = "@ + ws[0] + "\nreference_phon = "@
                    + reference + "\n\n"@,
            )
        }
    } else {
        warn(msg_unsupported(lang, cmd))
    }
}

fn is_cmd(cmd: &Vec<char>, name: &str) -> (r: bool)
    ensures
        r == (cmd@ == name@),
{
    let n = chars_of(name);
    seq_eq(cmd, &n)
}

fn copy(v: &Vec<char>) -> (r: Vec<char>)
    ensures
        r@ == v@,
{
    slice_of(v, 0, v.len())
}

fn command_exec(cmd: &Vec<char>, rest: &Vec<char>, numbers: &[(String, Option<String>)], lang: Lang) -> (r: LineExec)
    ensures
        line_view(r) == command_result(cmd@, rest@, number_views(numbers@), lang),
{
    let kv = parse_kv(rest);
    if is_cmd(cmd, "graphiceq") {
        graphiceq_exec(rest, numbers, lang)
    } else if is_cmd(cmd, "preamp") {
        let ws = split_whitespace(rest);
        if ws.len() == 0 {
            Err(Stop::Fail(lit("Preamp 参数无效")))
        } else {
            assert(ws@[0]@ == words(rest@)[0]);
            Ok((cat3("[[effects]]\ntype = \"preamp\"\ngain_db = ", &ws[0], "\n\n"), None))
        }
    } else if is_cmd(cmd, "wide") {
        let head = "[[effects]]\ntype = \"wide\"\nintensity = ";
        match kv.get(&lit("intensity")) {
            Some(v) => Ok((cat3(head, &v, "\n\n"), None)),
            None => match kv.get(&lit("surround")) {
                Some(v) => Ok((cat3(head, &v, "\n\n"), None)),
                None => Err(Stop::Fail(lit("Wide 缺少 Intensity"))),
            },
        }
    } else if is_cmd(cmd, "auralenhancer") {
        let map: &[(&str, &str)] = &[
            ("tunehz", "tune_hz"),
            ("drive", "drive"),
            ("odd", "odd"),
            ("even", "even"),
            ("wet", "wet"),
            ("dry", "dry"),
        ];
        assert(mapping_view(map@) =~= aural_map());
        let mut out = lit("[[effects]]\ntype = \"aural\"\n");
        write_mapped(&mut out, &kv, map);
        push_str(&mut out, "\n");
        Ok((out, None))
    } else if is_cmd(cmd, "reverb") {
        let map: &[(&str, &str)] = &[
            ("roomsize", "room_size"),
            ("decay", "decay"),
            ("damping", "damping"),
            ("bandwidth", "bandwidth"),
            ("density", "density"),
            ("lat5", "lat5"),
            ("lat6", "lat6"),
            ("predelay", "pre_delay_ms"),
            ("motionrate", "motion_rate"),
            ("motiondepth", "motion_depth_ms"),
            ("wet", "wet"),
            ("dry", "dry"),
        ];
        assert(mapping_view(map@) =~= reverb_map());
        let mut out = lit("[[effects]]\ntype = \"reverb\"\n");
        write_mapped(&mut out, &kv, map);
        push_str(&mut out, "\n");
        Ok((out, None))
    } else if is_cmd(cmd, "maximizer") {
        let map: &[(&str, &str)] = &[("release", "release_ms"), ("wet", "wet"), ("dry", "dry")];
        assert(mapping_view(map@) =~= maximizer_map());
        let mut out = lit("[[effects]]\ntype = \"compressor\"\n");
        write_mapped(&mut out, &kv, map);
        push_str(&mut out, "\n");
        let dropped: &[&str] = &["gainboost", "maxoutput", "target", "lookahead", "dither"];
        assert(dropped@.map_values(|d: &str| d@) =~= maximizer_dropped());
        let mut any = false;
        let mut i: usize = 0;
        while i < dropped.len()
            invariant
                i <= dropped.len(),
                dropped@.map_values(|d: &str| d@) == maximizer_dropped(),
                any == exists|j: int| 0 <= j < i && kv@.contains_key(#[trigger] maximizer_dropped()[j]),
            decreases dropped.len() - i,
        {
            let k = lit(dropped[i]);
            assert(k@ == maximizer_dropped()[i as int]);
            if kv.contains_key(&k) {
                any = true;
            }
            i += 1;
        }
        let w = if any {
            if lang == Lang::En {
                Some(lit("⚠ Maximizer: mapped to `compressor`; gain_boost/max_output/target/lookahead/dither are no longer supported and were dropped"))
            } else {
                Some(lit("⚠ Maximizer：已映射为 compressor；gain_boost/max_output/target/lookahead/dither 不再支持，已丢弃"))
            }
        } else {
            None
        };
        Ok((out, w))
    } else if is_cmd(cmd, "loudnesscorrection") {
        let ws = split_whitespace(rest);
        if ws.len() == 0 {
            Err(Stop::Fail(lit("LoudnessCorrection 缺少 phon")))
        } else {
            let reference = if ws.len() > 1 {
                copy(&ws[1])
            } else {
                lit("80")
            };
            let mut out = cat3("[[effects]]\ntype = \"loudness\"\nphon = ", &ws[0], "\nreference_phon = ");
            push_chars(&mut out, &reference);
            push_str(&mut out, "\n\n");
            Ok((out, None))
        }
    } else {
        let w = if lang == Lang::En {
            cat3("⚠ Command ", cmd, ": no longer supported, skipped (please migrate manually)")
        } else {
            cat3("⚠ 命令 ", cmd, ": 不再支持，跳过（请手动迁移）")
        };
        Ok((Vec::new(), Some(w)))
    }
}

/// What one trimmed line yields: blank and `#` lines nothing, a line without `:` a warning,
/// else the effect of its command.
pub open spec fn line_result(line: Seq<char>, t: Seq<(Seq<char>, Option<Seq<char>>)>, lang: Lang) -> LineSpec {
    if line.len() == 0 || line[0] == '#' {
        emit(Seq::empty())
    } else {
        match split_once(line, ':') {
            None => warn(msg_unrecognized(lang, line)),
            Some(p) => command_result(ascii_lower(trim(p.0)), trim(p.1), t, lang),
        }
    }
}

fn line_exec(line: &Vec<char>, numbers: &[(String, Option<String>)], lang: Lang) -> (r: LineExec)
    ensures
        line_view(r) == line_result(line@, number_views(numbers@), lang),
{
    if line.len() == 0 || line[0] == '#' {
        return Ok((Vec::new(), None));
    }
    match split_once_exec(line, ':') {
        None => {
            let w = if lang == Lang::En {
                cat("⚠ Skipping unrecognized line: ", line)
            } else {
                cat("⚠ 跳过无法识别的行：", line)
            };
            Ok((Vec::new(), Some(w)))
        },
        Some((c, rest)) => {
            let cmd = to_ascii_lowercase(&trim_exec(&c));
            let rest = trim_exec(&rest);
            command_exec(&cmd, &rest, numbers, lang)
        },
    }
}


// ---------------------------------------------------------------------------
// Whole texts
// ---------------------------------------------------------------------------

/// Conversion state: output so far, warnings so far, and why it stopped (if it did).
pub type ConvState = (Seq<char>, Seq<Seq<char>>, Option<(bool, Seq<char>)>);

pub open spec fn conv_init() -> ConvState {
    ("version = 1\n\n"@, seq![], None)
}

/// One more raw line: ignored once stopped; otherwise the trimmed line's result is added.
pub open spec fn conv_step(st: ConvState, raw: Seq<char>, t: Seq<(Seq<char>, Option<Seq<char>>)>, lang: Lang) -> ConvState {
    if st.2 is Some {
        st
    } else {
        match line_result(trim(raw), t, lang) {
            Ok((o, w)) => (
                st.0 + o,
                match w {
                    Some(x) => st.1.push(x),
                    None => st.1,
                },
                None,
            ),
            Err(e) => (st.0, st.1, Some(e)),
        }
    }
}

pub open spec fn conv_lines(ls: Seq<Seq<char>>, t: Seq<(Seq<char>, Option<Seq<char>>)>, lang: Lang) -> ConvState
    decreases ls.len(),
{
    if ls.len() == 0 {
        conv_init()
    } else {
        conv_step(conv_lines(ls.drop_last(), t, lang), ls.last(), t, lang)
    }
}

/// The conversion of a whole text, line by line.
pub open spec fn convert_spec(text: Seq<char>, t: Seq<(Seq<char>, Option<Seq<char>>)>, lang: Lang) -> ConvState {
    conv_lines(lines(text), t, lang)
}

proof fn lemma_conv_stopped(ls: Seq<Seq<char>>, t: Seq<(Seq<char>, Option<Seq<char>>)>, lang: Lang, k: nat)
    requires
        k <= ls.len(),
        conv_lines(ls.take(k as int), t, lang).2 is Some,
    ensures
        conv_lines(ls, t, lang) == conv_lines(ls.take(k as int), t, lang),
    decreases ls.len(),
{
    if k < ls.len() {
        assert(ls.drop_last().take(k as int) =~= ls.take(k as int));
        lemma_conv_stopped(ls.drop_last(), t, lang, k);
    } else {
        assert(ls.take(k as int) =~= ls);
    }
}

/// A decimal comma read as a point.
pub open spec fn comma_to_point(c: char) -> char {
    if c == ',' {
        '.'
    } else {
        c
    }
}

/// The text of a GraphicEQ number with every `,` written as `.`, the form in which it is
/// read as a number.
pub fn decimal_text(raw: &str) -> (r: String)
    ensures
        r@ == raw@.map_values(|c: char| comma_to_point(c)),
{
    let cs = chars_of(raw);
    let mut out: Vec<char> = Vec::new();
    let mut i: usize = 0;
    while i < cs.len()
        invariant
            i <= cs.len(),
            cs@ == raw@,
            out@ == cs@.take(i as int).map_values(|c: char| comma_to_point(c)),
        decreases cs.len() - i,
    {
        let c = cs[i];
        out.push(if c == ',' { '.' } else { c });
        i += 1;
        assert(out@ =~= cs@.take(i as int).map_values(|c: char| comma_to_point(c)));
    }
    assert(cs@.take(cs.len() as int) =~= cs@);
    string_of(&out)
}

/// The commands that conversion understands (lower-cased).
pub open spec fn known_command(cmd: Seq<char>) -> bool {
    cmd == "graphiceq"@ || cmd == "preamp"@ || cmd == "wide"@ || cmd == "auralenhancer"@
        || cmd == "reverb"@ || cmd == "maximizer"@ || cmd == "loudnesscorrection"@
}

/// A raw line that conversion passes over: blank, a `#` comment, a line without `:`, or a
/// command it does not know.
pub open spec fn skipped_line(raw: Seq<char>) -> bool {
    let line = trim(raw);
    line.len() == 0 || line[0] == '#' || match split_once(line, ':') {
        None => true,
        Some(p) => !known_command(ascii_lower(trim(p.0))),
    }
}

/// A skipped line adds no text and never stops the conversion.
pub proof fn lemma_skipped_line_result(raw: Seq<char>, t: Seq<(Seq<char>, Option<Seq<char>>)>, lang: Lang)
    requires
        skipped_line(raw),
    ensures
        match line_result(trim(raw), t, lang) {
            Ok((o, _)) => o == Seq::<char>::empty(),
            Err(_) => false,
        },
{
}

/// Inserting skipped lines anywhere leaves the output and the outcome of converting a
/// sequence of lines unchanged (only warnings may be added).
pub proof fn law_skipped_lines_ignored(
    a: Seq<Seq<char>>,
    x: Seq<Seq<char>>,
    b: Seq<Seq<char>>,
    t: Seq<(Seq<char>, Option<Seq<char>>)>,
    lang: Lang,
)
    requires
        forall|i: int| 0 <= i < x.len() ==> skipped_line(#[trigger] x[i]),
    ensures
        conv_lines(a + x + b, t, lang).0 == conv_lines(a + b, t, lang).0,
        conv_lines(a + x + b, t, lang).2 == conv_lines(a + b, t, lang).2,
    decreases x.len() + b.len(),
{
    if b.len() > 0 {
        law_skipped_lines_ignored(a, x, b.drop_last(), t, lang);
        assert((a + x + b).drop_last() =~= a + x + b.drop_last());
        assert((a + b).drop_last() =~= a + b.drop_last());
        assert((a + x + b).last() == b.last());
        assert((a + b).last() == b.last());
    } else if x.len() > 0 {
        law_skipped_lines_ignored(a, x.drop_last(), b, t, lang);
        assert((a + x + b).drop_last() =~= a + x.drop_last() + b);
        assert((a + x + b).last() == x.last());
        lemma_skipped_line_result(x.last(), t, lang);
        let st = conv_lines(a + x.drop_last() + b, t, lang);
        if st.2 is None {
            assert(st.0 + Seq::<char>::empty() =~= st.0);
        }
    } else {
        assert(a + x + b =~= a + b);
    }
}

/// Inserting whole skipped lines (blank lines, comments, lines without `:`, unknown
/// commands) between the lines of a text leaves the converted text, and whether and why
/// conversion stops, unchanged.
pub proof fn law_convert_skips_lines(
    a: Seq<char>,
    x: Seq<char>,
    b: Seq<char>,
    t: Seq<(Seq<char>, Option<Seq<char>>)>,
    lang: Lang,
)
    requires
        a.len() == 0 || a.last() == '\n',
        x.len() == 0 || x.last() == '\n',
        forall|i: int| 0 <= i < lines(x).len() ==> skipped_line(#[trigger] lines(x)[i]),
    ensures
        convert_spec(a + x + b, t, lang).0 == convert_spec(a + b, t, lang).0,
        convert_spec(a + x + b, t, lang).2 == convert_spec(a + b, t, lang).2,
{
    lemma_lines_append(a, b);
    lemma_lines_append(a, x);
    let ax = a + x;
    assert(ax.len() == 0 || ax.last() == '\n') by {
        if x.len() > 0 {
            assert(ax.last() == x.last());
        } else {
            assert(ax =~= a);
        }
    }
    lemma_lines_append(ax, b);
    assert(a + x + b =~= ax + b);
    law_skipped_lines_ignored(lines(a), lines(x), lines(b), t, lang);
}

/// The result of a finished conversion: the warnings met, then the TOML text or an error.
pub struct ConvertOutcome {
    pub warnings: Vec<String>,
    pub result: Result<String, String>,
}

/// A conversion either finished, or needs the printed form of one more GraphicEQ number.
pub enum ConvertStep {
    NeedNumber(String),
    Done(ConvertOutcome),
}

pub open spec fn warning_views(v: Seq<String>) -> Seq<Seq<char>> {
    v.map_values(|s: String| s@)
}

/// What a conversion returns, over the spec of the whole text.
pub open spec fn convert_step_matches(r: ConvertStep, st: ConvState) -> bool {
    match r {
        ConvertStep::NeedNumber(x) => st.2 == Some((true, x@)),
        ConvertStep::Done(o) => warning_views(o.warnings@) == st.1 && match o.result {
            Ok(text) => st.2 is None && text@ == st.0,
            Err(e) => st.2 == Some((false, e@)),
        },
    }
}

/// Converts legacy text configuration to `config.toml` text.
///
/// `numbers` holds the printed form of GraphicEQ numbers met so far (`None`: not a
/// number).  When a number is missing the result is `NeedNumber` with its raw text.
pub fn convert_txt_to_toml(text: &str, numbers: &[(String, Option<String>)], lang: Lang) -> (r: ConvertStep)
    ensures
        convert_step_matches(r, convert_spec(text@, number_views(numbers@), lang)),
{
    let cs = chars_of(text);
    let ls = lines_exec(&cs);
    let ghost lv = views(ls@);
    let ghost nv = number_views(numbers@);
    let mut out = lit("version = 1\n\n");
    let mut warnings: Vec<String> = Vec::new();
    let mut i: usize = 0;
    assert(lv.take(0) =~= Seq::<Seq<char>>::empty());
    assert(warning_views(warnings@) =~= Seq::<Seq<char>>::empty());
    while i < ls.len()
        invariant
            i <= ls.len(),
            lv == views(ls@),
            lv == lines(text@),
            nv == number_views(numbers@),
            conv_lines(lv.take(i as int), nv, lang) == (out@, warning_views(warnings@), None::<
                (bool, Seq<char>),
            >),
        decreases ls.len() - i,
    {
        assert(lv.take(i + 1).drop_last() =~= lv.take(i as int));
        assert(lv.take(i + 1).last() == lv[i as int]);
        let line = trim_exec(&ls[i]);
        match line_exec(&line, numbers, lang) {
            Ok((o, w)) => {
                push_chars(&mut out, &o);
                match w {
                    Some(x) => {
                        let ws = string_of(&x);
                        let ghost before = warning_views(warnings@);
                        warnings.push(ws);
                        assert(warning_views(warnings@) =~= before.push(x@));
                    },
                    None => {},
                }
            },
            Err(s) => {
                proof {
                    lemma_conv_stopped(lv, nv, lang, (i + 1) as nat);
                }
                return match s {
                    Stop::Need(x) => ConvertStep::NeedNumber(string_of(&x)),
                    Stop::Fail(m) => ConvertStep::Done(ConvertOutcome { warnings, result: Err(string_of(&m)) }),
                };
            },
        }
        i += 1;
    }
    assert(lv.take(ls.len() as int) =~= lv);
    ConvertStep::Done(ConvertOutcome { warnings, result: Ok(string_of(&out)) })
}

} // verus!
