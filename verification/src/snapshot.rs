//! Registry baselines: the snapshot text of a device and the diff of two snapshots.
use vstd::prelude::*;
use crate::i18n::Lang;
use crate::status::{device_endpoints, find_device, first_device, lemma_first_device_bound, DeviceInfo};
use crate::text::{
    chars_of, dec, digit, lemma_first_index_unique, lemma_split_on_nonempty, lines, lines_exec,
    push_chars, push_dec, push_str, seq_eq, split_on, split_once, split_once_exec, strip_cr,
    string_of, views,
};

verus! {

/// The state of one APO slot value in the registry.
pub enum SlotValue {
    /// A CLSID, in the text form the registry layer prints for it.
    Guid(String),
    NoKey,
    NoValue,
}

/// Where the baseline of a device is kept: `{dir}\{guid}.json`.
pub fn snapshot_path(dir: &str, guid: &str) -> (r: String)
    ensures
        r@ == dir@ + "\\"@ + guid@ + ".json"@,
{
    let mut out: Vec<char> = Vec::new();
    push_str(&mut out, dir);
    push_str(&mut out, "\\");
    push_str(&mut out, guid);
    push_str(&mut out, ".json");
    string_of(&out)
}

pub open spec fn slot_label(v: SlotValue) -> Seq<char> {
    match v {
        SlotValue::Guid(g) => g@,
        SlotValue::NoKey => "(NoKey)"@,
        SlotValue::NoValue => "(NoValue)"@,
    }
}

pub open spec fn bool_text(b: bool) -> Seq<char> {
    if b {
        "true"@
    } else {
        "false"@
    }
}

pub open spec fn opt_text(o: Option<Seq<char>>) -> Seq<char> {
    match o {
        Some(s) => s,
        None => Seq::empty(),
    }
}

/// The snapshot lines: `slot_0=..` to `slot_4=..`, then the child APO record.
pub open spec fn snapshot_lines(
    slots: Seq<SlotValue>,
    premix: Option<Seq<char>>,
    postmix: Option<Seq<char>>,
    key_exists: bool,
) -> Seq<Seq<char>> {
    Seq::new(5, |i: int| "slot_"@ + dec(i as nat) + "="@ + slot_label(slots[i])) + seq![
        "childPreMix="@ + opt_text(premix),
        "childPostMix="@ + opt_text(postmix),
        "childApoKeyExists="@ + bool_text(key_exists),
    ]
}

/// Lines joined with `\n` between them.
pub open spec fn join_lines(ls: Seq<Seq<char>>) -> Seq<char>
    decreases ls.len(),
{
    if ls.len() == 0 {
        seq![]
    } else if ls.len() == 1 {
        ls[0]
    } else {
        join_lines(ls.drop_last()) + "\n"@ + ls.last()
    }
}

pub open spec fn opt_view(o: Option<String>) -> Option<Seq<char>> {
    match o {
        Some(s) => Some(s@),
        None => None,
    }
}

fn push_opt(out: &mut Vec<char>, o: &Option<String>)
    ensures
        final(out)@ == old(out)@ + opt_text(opt_view(*o)),
{
    match o {
        Some(s) => push_str(out, s.as_str()),
        None => {
            assert(old(out)@ + opt_text(opt_view(*o)) =~= old(out)@);
        },
    }
}

/// The snapshot text of a device's registry state (slots and child APO record).
pub fn render_snapshot(
    slots: &[SlotValue; 5],
    premix: &Option<String>,
    postmix: &Option<String>,
    key_exists: bool,
) -> (r: String)
    ensures
        r@ == join_lines(snapshot_lines(slots@, opt_view(*premix), opt_view(*postmix), key_exists)),
{
    let ghost ls = snapshot_lines(slots@, opt_view(*premix), opt_view(*postmix), key_exists);
    let mut out: Vec<char> = Vec::new();
    let mut i: usize = 0;
    while i < 5
        invariant
            i <= 5,
            ls == snapshot_lines(slots@, opt_view(*premix), opt_view(*postmix), key_exists),
            i > 0 ==> out@ == join_lines(ls.take(i as int)),
            i == 0 ==> out@ == Seq::<char>::empty(),
        decreases 5 - i,
    {
        let ghost before = out@;
        if i > 0 {
            push_str(&mut out, "\n");
        }
        push_str(&mut out, "slot_");
        push_dec(&mut out, i as u64);
        push_str(&mut out, "=");
        match &slots[i] {
            SlotValue::Guid(g) => push_str(&mut out, g.as_str()),
            SlotValue::NoKey => push_str(&mut out, "(NoKey)"),
            SlotValue::NoValue => push_str(&mut out, "(NoValue)"),
        }
        assert(ls.take(i + 1).drop_last() =~= ls.take(i as int));
        assert(ls[i as int] == "slot_"@ + dec(i as nat) + "="@ + slot_label(slots@[i as int]));
        i += 1;
        assert(out@ =~= join_lines(ls.take(i as int)));
    }
    let ghost before = out@;
    assert(before == join_lines(ls.take(5)));
    push_str(&mut out, "\n");
    push_str(&mut out, "childPreMix=");
    push_opt(&mut out, premix);
    assert(ls.take(6).drop_last() =~= ls.take(5));
    assert(ls.take(6).last() == ls[5]);
    assert(ls[5] == "childPreMix="@ + opt_text(opt_view(*premix)));
    assert(out@ =~= join_lines(ls.take(6)));
    push_str(&mut out, "\n");
    push_str(&mut out, "childPostMix=");
    push_opt(&mut out, postmix);
    assert(ls.take(7).drop_last() =~= ls.take(6));
    assert(ls.take(7).last() == ls[6]);
    assert(ls[6] == "childPostMix="@ + opt_text(opt_view(*postmix)));
    assert(out@ =~= join_lines(ls.take(7)));
    push_str(&mut out, "\n");
    push_str(&mut out, "childApoKeyExists=");
    if key_exists {
        push_str(&mut out, "true");
    } else {
        push_str(&mut out, "false");
    }
    assert(ls.take(8).drop_last() =~= ls.take(7));
    assert(ls.take(8).last() == ls[7]);
    assert(ls.take(8) =~= ls);
    assert(out@ =~= join_lines(ls));
    string_of(&out)
}

// ---------------------------------------------------------------------------
// Diff
// ---------------------------------------------------------------------------

pub type Entries = Seq<(Seq<char>, Seq<char>)>;

/// The `key=value` entries of some lines (split at the first `=`; other lines dropped).
pub open spec fn entries_of(ls: Seq<Seq<char>>) -> Entries
    decreases ls.len(),
{
    if ls.len() == 0 {
        seq![]
    } else {
        entries_of(ls.drop_last()) + match split_once(ls.last(), '=') {
            Some(p) => seq![p],
            None => seq![],
        }
    }
}

/// The value of the first entry with key `k`.
pub open spec fn first_value(es: Entries, k: Seq<char>) -> Option<Seq<char>>
    decreases es.len(),
{
    if es.len() == 0 {
        None
    } else if es[0].0 == k {
        Some(es[0].1)
    } else {
        first_value(es.drop_first(), k)
    }
}

/// Whether some entry has key `k`.
pub open spec fn has_key(es: Entries, k: Seq<char>) -> bool {
    exists|i: int| 0 <= i < es.len() && (#[trigger] es[i]).0 == k
}

/// The line shown for a current entry against the baseline.
pub open spec fn change_line(e: (Seq<char>, Seq<char>), base: Entries) -> Seq<char> {
    match first_value(base, e.0) {
        Some(bv) => if bv == e.1 {
            "    "@ + e.0 + " = "@ + e.1
        } else {
            "~ "@ + e.0 + " = "@ + bv + " → "@ + e.1
        },
        None => "+ "@ + e.0 + " = "@ + e.1,
    }
}

/// A current entry is unchanged only when its key's baseline value equals its value
/// exactly; a different value, whatever its length, is a modification shown with both
/// values; a key the baseline lacks is an addition.
pub proof fn law_change_exact(e: (Seq<char>, Seq<char>), base: Entries)
    ensures
        change_kind(e, base) == 0 <==> first_value(base, e.0) == Some(e.1),
        change_kind(e, base) == 1 <==> (first_value(base, e.0) is Some && first_value(base, e.0)
            != Some(e.1)),
        change_kind(e, base) == 2 <==> first_value(base, e.0) is None,
        first_value(base, e.0) == Some(e.1) ==> change_line(e, base) == "    "@ + e.0 + " = "@ + e.1,
        first_value(base, e.0) is Some && first_value(base, e.0) != Some(e.1) ==> change_line(e, base)
            == "~ "@ + e.0 + " = "@ + first_value(base, e.0)->Some_0 + " → "@ + e.1,
        first_value(base, e.0) is None ==> change_line(e, base) == "+ "@ + e.0 + " = "@ + e.1,
{
}

/// The counts of a diff: every current entry is exactly one of unchanged, modified or
/// added; and one whose value differs from its baseline value counts as modified.
pub proof fn law_change_counts(cur: Entries, base: Entries)
    ensures
        count_kind(cur, base, 0) + count_kind(cur, base, 1) + count_kind(cur, base, 2) == cur.len(),
        (forall|i: int| 0 <= i < cur.len() ==> first_value(base, (#[trigger] cur[i]).0) == Some(cur[i].1))
            ==> count_kind(cur, base, 0) == cur.len(),
        forall|i: int|
            0 <= i < cur.len() && first_value(base, (#[trigger] cur[i]).0) is Some && first_value(base, cur[i].0)
                != Some(cur[i].1) ==> count_kind(cur, base, 1) >= 1,
    decreases cur.len(),
{
    if cur.len() > 0 {
        let d = cur.drop_last();
        law_change_counts(d, base);
        assert forall|i: int| 0 <= i < d.len() implies d[i] == cur[i] by {}
        if forall|i: int| 0 <= i < cur.len() ==> first_value(base, (#[trigger] cur[i]).0) == Some(cur[i].1) {
            assert(first_value(base, cur[cur.len() - 1].0) == Some(cur[cur.len() - 1].1));
            assert forall|i: int| 0 <= i < d.len() implies first_value(base, (#[trigger] d[i]).0) == Some(d[i].1) by {
                assert(d[i] == cur[i]);
            }
        }
        assert forall|i: int|
            0 <= i < cur.len() && first_value(base, (#[trigger] cur[i]).0) is Some && first_value(base, cur[i].0)
                != Some(cur[i].1) implies count_kind(cur, base, 1) >= 1 by {
            if i < d.len() {
                assert(d[i] == cur[i]);
            } else {
                assert(cur[i] == cur.last());
            }
        }
    }
}

pub open spec fn deleted_line(k: Seq<char>, lang: Lang) -> Seq<char> {
    "- "@ + k + if lang == Lang::En {
        " = (deleted)"@
    } else {
        " = （已删除）"@
    }
}

/// Kind of change of a current entry: 0 unchanged, 1 modified, 2 added.
pub open spec fn change_kind(e: (Seq<char>, Seq<char>), base: Entries) -> int {
    match first_value(base, e.0) {
        Some(bv) => if bv == e.1 {
            0
        } else {
            1
        },
        None => 2,
    }
}

pub open spec fn change_lines(cur: Entries, base: Entries) -> Seq<Seq<char>>
    decreases cur.len(),
{
    if cur.len() == 0 {
        seq![]
    } else {
        change_lines(cur.drop_last(), base).push(change_line(cur.last(), base))
    }
}

pub open spec fn count_kind(cur: Entries, base: Entries, kind: int) -> nat
    decreases cur.len(),
{
    if cur.len() == 0 {
        0
    } else {
        count_kind(cur.drop_last(), base, kind) + if change_kind(cur.last(), base) == kind {
            1nat
        } else {
            0nat
        }
    }
}

/// Baseline entries whose key no current entry has.
pub open spec fn deleted_keys(base: Entries, cur: Entries) -> Seq<Seq<char>>
    decreases base.len(),
{
    if base.len() == 0 {
        seq![]
    } else {
        deleted_keys(base.drop_last(), cur) + if has_key(cur, base.last().0) {
            seq![]
        } else {
            seq![base.last().0]
        }
    }
}

pub open spec fn diff_summary(adds: nat, dels: nat, mods: nat, same: nat, lang: Lang) -> Seq<char> {
    if lang == Lang::En {
        "Changes: +"@ + dec(adds) + " added / -"@ + dec(dels) + " deleted / ~"@ + dec(mods)
            + " modified / "@ + dec(same) + " unchanged"@
    } else {
        "变更：+"@ + dec(adds) + " 新增 / -"@ + dec(dels) + " 删除 / ~"@ + dec(mods) + " 修改 / "@
            + dec(same) + " 无变化"@
    }
}

/// The lines a diff shows and its one-line summary.
pub struct SnapshotDiff {
    pub lines: Vec<String>,
    pub summary: String,
}

pub open spec fn string_views(v: Seq<String>) -> Seq<Seq<char>> {
    v.map_values(|s: String| s@)
}


pub open spec fn entry_views(v: Seq<(Vec<char>, Vec<char>)>) -> Entries {
    v.map_values(|p: (Vec<char>, Vec<char>)| (p.0@, p.1@))
}

proof fn lemma_entry_views_push(v: Seq<(Vec<char>, Vec<char>)>, p: (Vec<char>, Vec<char>))
    ensures
        entry_views(v.push(p)) == entry_views(v).push((p.0@, p.1@)),
{
    assert(entry_views(v.push(p)) =~= entry_views(v).push((p.0@, p.1@)));
}

fn entries_exec(text: &str) -> (r: Vec<(Vec<char>, Vec<char>)>)
    ensures
        entry_views(r@) == entries_of(lines(text@)),
{
    let cs = chars_of(text);
    let ls = lines_exec(&cs);
    let ghost lv = views(ls@);
    let mut out: Vec<(Vec<char>, Vec<char>)> = Vec::new();
    let mut i: usize = 0;
    assert(lv.take(0) =~= Seq::<Seq<char>>::empty());
    assert(entry_views(out@) =~= Seq::<(Seq<char>, Seq<char>)>::empty());
    while i < ls.len()
        invariant
            i <= ls.len(),
            lv == views(ls@),
            lv == lines(text@),
            entry_views(out@) == entries_of(lv.take(i as int)),
        decreases ls.len() - i,
    {
        assert(lv.take(i + 1).drop_last() =~= lv.take(i as int));
        assert(lv.take(i + 1).last() == lv[i as int]);
        let ghost before = entry_views(out@);
        match split_once_exec(&ls[i], '=') {
            Some(p) => {
                proof {
                    lemma_entry_views_push(out@, p);
                }
                out.push(p);
                assert(entry_views(out@) =~= entries_of(lv.take(i + 1)));
            },
            None => {
                assert(entry_views(out@) =~= entries_of(lv.take(i + 1)));
            },
        }
        i += 1;
    }
    assert(lv.take(ls.len() as int) =~= lv);
    out
}

fn first_value_exec(es: &Vec<(Vec<char>, Vec<char>)>, k: &Vec<char>) -> (r: Option<Vec<char>>)
    ensures
        match r {
            Some(v) => first_value(entry_views(es@), k@) == Some(v@),
            None => first_value(entry_views(es@), k@) is None,
        },
{
    let ghost ev = entry_views(es@);
    let mut i: usize = 0;
    assert(ev.skip(0) =~= ev);
    while i < es.len()
        invariant
            i <= es.len(),
            ev == entry_views(es@),
            first_value(ev, k@) == first_value(ev.skip(i as int), k@),
        decreases es.len() - i,
    {
        assert(ev.skip(i as int)[0] == ev[i as int]);
        assert(ev.skip(i as int).drop_first() =~= ev.skip(i + 1));
        if seq_eq(&es[i].0, k) {
            let mut v: Vec<char> = Vec::new();
            push_chars(&mut v, &es[i].1);
            return Some(v);
        }
        i += 1;
    }
    None
}

fn has_key_exec(es: &Vec<(Vec<char>, Vec<char>)>, k: &Vec<char>) -> (r: bool)
    ensures
        r == has_key(entry_views(es@), k@),
{
    let ghost ev = entry_views(es@);
    let mut i: usize = 0;
    while i < es.len()
        invariant
            i <= es.len(),
            ev == entry_views(es@),
            forall|j: int| 0 <= j < i ==> (#[trigger] ev[j]).0 != k@,
        decreases es.len() - i,
    {
        if seq_eq(&es[i].0, k) {
            assert(ev[i as int].0 == k@);
            return true;
        }
        i += 1;
    }
    false
}

proof fn lemma_count_kind_bound(cur: Entries, base: Entries, kind: int)
    ensures
        count_kind(cur, base, kind) <= cur.len(),
    decreases cur.len(),
{
    if cur.len() > 0 {
        lemma_count_kind_bound(cur.drop_last(), base, kind);
    }
}

/// No two entries share a key.
pub open spec fn keys_distinct(es: Entries) -> bool {
    forall|i: int, j: int| 0 <= i < j < es.len() ==> (#[trigger] es[i]).0 != (#[trigger] es[j]).0
}

proof fn lemma_first_value_of_distinct(es: Entries, i: int)
    requires
        keys_distinct(es),
        0 <= i < es.len(),
    ensures
        first_value(es, es[i].0) == Some(es[i].1),
    decreases es.len(),
{
    if i > 0 {
        let rest = es.drop_first();
        assert(es[0].0 != es[i].0);
        assert forall|a: int, b: int| 0 <= a < b < rest.len() implies (#[trigger] rest[a]).0
            != (#[trigger] rest[b]).0 by {
            assert(rest[a] == es[a + 1]);
            assert(rest[b] == es[b + 1]);
        }
        assert(rest[i - 1] == es[i]);
        lemma_first_value_of_distinct(rest, i - 1);
    }
}

proof fn lemma_counts_when_all_found(cur: Entries, base: Entries)
    requires
        forall|i: int| 0 <= i < cur.len() ==> first_value(base, (#[trigger] cur[i]).0) == Some(
            cur[i].1,
        ),
    ensures
        count_kind(cur, base, 0) == cur.len(),
        count_kind(cur, base, 1) == 0,
        count_kind(cur, base, 2) == 0,
    decreases cur.len(),
{
    if cur.len() > 0 {
        let init = cur.drop_last();
        assert forall|i: int| 0 <= i < init.len() implies first_value(base, (#[trigger] init[i]).0)
            == Some(init[i].1) by {
            assert(init[i] == cur[i]);
        }
        lemma_counts_when_all_found(init, base);
        assert(first_value(base, cur[cur.len() - 1].0) == Some(cur[cur.len() - 1].1));
    }
}

proof fn lemma_no_deleted_keys(base: Entries, cur: Entries)
    requires
        forall|i: int| 0 <= i < base.len() ==> has_key(cur, (#[trigger] base[i]).0),
    ensures
        deleted_keys(base, cur) == Seq::<Seq<char>>::empty(),
    decreases base.len(),
{
    if base.len() > 0 {
        let init = base.drop_last();
        assert forall|i: int| 0 <= i < init.len() implies has_key(cur, (#[trigger] init[i]).0) by {
            assert(init[i] == base[i]);
        }
        lemma_no_deleted_keys(init, cur);
        assert(has_key(cur, base[base.len() - 1].0));
        assert(deleted_keys(base, cur) =~= Seq::<Seq<char>>::empty());
    }
}

/// A snapshot compared with itself shows no change: no key is added, modified or
/// deleted, and every entry counts as unchanged, provided no key occurs twice.
pub proof fn law_snapshot_diff_against_itself(text: Seq<char>)
    requires
        keys_distinct(entries_of(lines(text))),
    ensures
        ({
            let c = entries_of(lines(text));
            &&& deleted_keys(c, c) == Seq::<Seq<char>>::empty()
            &&& count_kind(c, c, 2) == 0
            &&& count_kind(c, c, 1) == 0
            &&& count_kind(c, c, 0) == c.len()
        }),
{
    let c = entries_of(lines(text));
    assert forall|i: int| 0 <= i < c.len() implies first_value(c, (#[trigger] c[i]).0) == Some(
        c[i].1,
    ) by {
        lemma_first_value_of_distinct(c, i);
    }
    lemma_counts_when_all_found(c, c);
    assert forall|i: int| 0 <= i < c.len() implies has_key(c, (#[trigger] c[i]).0) by {
        assert(c[i].0 == c[i].0);
    }
    lemma_no_deleted_keys(c, c);
}

/// Compares a baseline snapshot with the current one: a line per current entry
/// (unchanged, `~` modified, `+` added), then `-` for baseline keys now missing, and the
/// summary counts.
pub fn diff_snapshots(baseline: &str, current: &str, lang: Lang) -> (r: SnapshotDiff)
    ensures
        ({
            let b = entries_of(lines(baseline@));
            let c = entries_of(lines(current@));
            let dk = deleted_keys(b, c);
            &&& string_views(r.lines@) == change_lines(c, b) + dk.map_values(
                |k: Seq<char>| deleted_line(k, lang),
            )
            &&& r.summary@ == diff_summary(
                count_kind(c, b, 2),
                dk.len(),
                count_kind(c, b, 1),
                count_kind(c, b, 0),
                lang,
            )
        }),
{
    let base = entries_exec(baseline);
    let cur = entries_exec(current);
    let ghost b = entry_views(base@);
    let ghost c = entry_views(cur@);
    let mut out: Vec<String> = Vec::new();
    let mut adds: usize = 0;
    let mut mods: usize = 0;
    let mut same: usize = 0;
    let mut i: usize = 0;
    assert(c.take(0) =~= Seq::<(Seq<char>, Seq<char>)>::empty());
    assert(string_views(out@) =~= Seq::<Seq<char>>::empty());
    while i < cur.len()
        invariant
            i <= cur.len(),
            b == entry_views(base@),
            c == entry_views(cur@),
            string_views(out@) == change_lines(c.take(i as int), b),
            adds == count_kind(c.take(i as int), b, 2),
            mods == count_kind(c.take(i as int), b, 1),
            same == count_kind(c.take(i as int), b, 0),
        decreases cur.len() - i,
    {
        proof {
            lemma_count_kind_bound(c.take(i as int), b, 0);
            lemma_count_kind_bound(c.take(i as int), b, 1);
            lemma_count_kind_bound(c.take(i as int), b, 2);
        }
        assert(c.take(i + 1).drop_last() =~= c.take(i as int));
        assert(c.take(i + 1).last() == c[i as int]);
        let k = &cur[i].0;
        let v = &cur[i].1;
        let mut line: Vec<char> = Vec::new();
        match first_value_exec(&base, k) {
            Some(bv) => {
                if seq_eq(&bv, v) {
                    push_str(&mut line, "    ");
                    push_chars(&mut line, k);
                    push_str(&mut line, " = ");
                    push_chars(&mut line, v);
                    same += 1;
                } else {
                    push_str(&mut line, "~ ");
                    push_chars(&mut line, k);
                    push_str(&mut line, " = ");
                    push_chars(&mut line, &bv);
                    push_str(&mut line, " → ");
                    push_chars(&mut line, v);
                    mods += 1;
                }
            },
            None => {
                push_str(&mut line, "+ ");
                push_chars(&mut line, k);
                push_str(&mut line, " = ");
                push_chars(&mut line, v);
                adds += 1;
            },
        }
        assert(line@ =~= change_line(c[i as int], b));
        let ls = string_of(&line);
        let ghost before = string_views(out@);
        out.push(ls);
        assert(string_views(out@) =~= before.push(ls@));
        i += 1;
    }
    assert(c.take(cur.len() as int) =~= c);
    let ghost cl = string_views(out@);
    let mut dels: usize = 0;
    let mut j: usize = 0;
    assert(b.take(0) =~= Seq::<(Seq<char>, Seq<char>)>::empty());
    assert(deleted_keys(b.take(0), c).map_values(|k: Seq<char>| deleted_line(k, lang))
        =~= Seq::<Seq<char>>::empty());
    assert(string_views(out@) =~= cl + Seq::<Seq<char>>::empty());
    while j < base.len()
        invariant
            j <= base.len(),
            b == entry_views(base@),
            c == entry_views(cur@),
            string_views(out@) == cl + deleted_keys(b.take(j as int), c).map_values(
                |k: Seq<char>| deleted_line(k, lang),
            ),
            dels == deleted_keys(b.take(j as int), c).len(),
            dels <= j,
        decreases base.len() - j,
    {
        assert(b.take(j + 1).drop_last() =~= b.take(j as int));
        assert(b.take(j + 1).last() == b[j as int]);
        let k = &base[j].0;
        let ghost before = string_views(out@);
        let ghost dk_before = deleted_keys(b.take(j as int), c);
        if !has_key_exec(&cur, k) {
            let mut line: Vec<char> = Vec::new();
            push_str(&mut line, "- ");
            push_chars(&mut line, k);
            if lang == Lang::En {
                push_str(&mut line, " = (deleted)");
            } else {
                push_str(&mut line, " = （已删除）");
            }
            assert(line@ =~= deleted_line(k@, lang));
            let ls = string_of(&line);
            out.push(ls);
            dels += 1;
            assert(string_views(out@) =~= before.push(ls@));
            assert(deleted_keys(b.take(j + 1), c) =~= dk_before.push(k@));
            assert(dk_before.push(k@).map_values(|k: Seq<char>| deleted_line(k, lang))
                =~= dk_before.map_values(|k: Seq<char>| deleted_line(k, lang)).push(
                deleted_line(k@, lang),
            ));
            assert(string_views(out@) =~= cl + deleted_keys(b.take(j + 1), c).map_values(
                |k: Seq<char>| deleted_line(k, lang),
            ));
        } else {
            assert(deleted_keys(b.take(j + 1), c) =~= dk_before);
        }
        j += 1;
    }
    assert(b.take(base.len() as int) =~= b);
    let mut s: Vec<char> = Vec::new();
    if lang == Lang::En {
        push_str(&mut s, "Changes: +");
        push_dec(&mut s, adds as u64);
        push_str(&mut s, " added / -");
        push_dec(&mut s, dels as u64);
        push_str(&mut s, " deleted / ~");
        push_dec(&mut s, mods as u64);
        push_str(&mut s, " modified / ");
        push_dec(&mut s, same as u64);
        push_str(&mut s, " unchanged");
    } else {
        push_str(&mut s, "变更：+");
        push_dec(&mut s, adds as u64);
        push_str(&mut s, " 新增 / -");
        push_dec(&mut s, dels as u64);
        push_str(&mut s, " 删除 / ~");
        push_dec(&mut s, mods as u64);
        push_str(&mut s, " 修改 / ");
        push_dec(&mut s, same as u64);
        push_str(&mut s, " 无变化");
    }
    assert(s@ =~= diff_summary(adds as nat, dels as nat, mods as nat, same as nat, lang));
    SnapshotDiff { lines: out, summary: string_of(&s) }
}

/// The current snapshot text of the device with GUID `guid` among the enumerated devices,
/// given its child APOs and whether its child-APO key exists.
pub fn capture_snapshot(
    devices: &Vec<DeviceInfo>,
    guid: &str,
    child_pre: &Option<String>,
    child_post: &Option<String>,
    key_exists: bool,
) -> (r: Result<String, String>)
    ensures
        match r {
            Ok(t) => match first_device(device_endpoints(devices@), guid@) {
                Some(i) => t@ == join_lines(
                    snapshot_lines(devices@[i].slots@, opt_view(*child_pre), opt_view(*child_post), key_exists),
                ),
                None => false,
            },
            Err(e) => first_device(device_endpoints(devices@), guid@) is None && e@ == "设备不在枚举列表"@,
        },
{
    match find_device(devices, guid) {
        Some(i) => {
            proof {
                lemma_first_device_bound(device_endpoints(devices@), guid@);
            }
            Ok(render_snapshot(&devices[i].slots, child_pre, child_post, key_exists))
        },
        None => Err("设备不在枚举列表".to_owned()),
    }
}

// ---------------------------------------------------------------------------
// Reading a rendered snapshot back
// ---------------------------------------------------------------------------

proof fn lemma_split_concat(a: Seq<char>, b: Seq<char>, sep: char)
    ensures
        split_on(a + seq![sep] + b, sep) == split_on(a, sep) + split_on(b, sep),
    decreases b.len(),
{
    let x = a + seq![sep] + b;
    if b.len() == 0 {
        assert(x =~= a + seq![sep]);
        assert(x.drop_last() =~= a);
        assert(split_on(a, sep).push(seq![]) =~= split_on(a, sep) + seq![seq![]]);
    } else {
        let b0 = b.drop_last();
        lemma_split_concat(a, b0, sep);
        lemma_split_on_nonempty(b0, sep);
        assert(x.drop_last() =~= a + seq![sep] + b0);
        let w = split_on(a + seq![sep] + b0, sep);
        let l = split_on(a, sep);
        let r = split_on(b0, sep);
        assert(w == l + r);
        if b.last() == sep {
            assert(w.push(seq![]) =~= l + r.push(seq![]));
        } else {
            assert(w.update(w.len() - 1, w.last().push(b.last())) =~= l + r.update(
                r.len() - 1,
                r.last().push(b.last()),
            ));
        }
    }
}

proof fn lemma_split_single(y: Seq<char>, sep: char)
    requires
        !y.contains(sep),
    ensures
        split_on(y, sep) == seq![y],
    decreases y.len(),
{
    if y.len() > 0 {
        let y0 = y.drop_last();
        assert(!y0.contains(sep)) by {
            if y0.contains(sep) {
                let k = choose|k: int| 0 <= k < y0.len() && y0[k] == sep;
                assert(y[k] == sep);
            }
        }
        lemma_split_single(y0, sep);
        assert(y.last() != sep) by {
            assert(y[y.len() - 1] == y.last());
        }
        assert(y0.push(y.last()) =~= y);
        assert(seq![y0].update(0, y) =~= seq![y]);
    } else {
        assert(y =~= Seq::<char>::empty());
        assert(seq![Seq::<char>::empty()] =~= seq![y]);
    }
}

proof fn lemma_split_join(ls: Seq<Seq<char>>)
    requires
        ls.len() >= 1,
        forall|i: int| 0 <= i < ls.len() ==> !(#[trigger] ls[i]).contains('\n'),
    ensures
        split_on(join_lines(ls), '\n') == ls,
    decreases ls.len(),
{
    if ls.len() == 1 {
        lemma_split_single(ls[0], '\n');
        assert(seq![ls[0]] =~= ls);
    } else {
        let init = ls.drop_last();
        assert forall|i: int| 0 <= i < init.len() implies !(#[trigger] init[i]).contains('\n') by {
            assert(init[i] == ls[i]);
        }
        lemma_split_join(init);
        reveal_strlit("\n");
        assert("\n"@ =~= seq!['\n']);
        assert(join_lines(ls) == join_lines(init) + seq!['\n'] + ls.last());
        lemma_split_concat(join_lines(init), ls.last(), '\n');
        assert(!ls[ls.len() - 1].contains('\n'));
        lemma_split_single(ls.last(), '\n');
        assert(init + seq![ls.last()] =~= ls);
    }
}

/// Whether a line can stand in a snapshot: no line break in it, no carriage return at
/// its end.
pub open spec fn line_safe(t: Seq<char>) -> bool {
    !t.contains('\n') && !(t.len() > 0 && t.last() == '\r')
}

proof fn lemma_lines_join(ls: Seq<Seq<char>>)
    requires
        ls.len() >= 1,
        forall|i: int| 0 <= i < ls.len() ==> line_safe(#[trigger] ls[i]),
        ls.last().len() > 0,
    ensures
        lines(join_lines(ls)) == ls,
{
    assert forall|i: int| 0 <= i < ls.len() implies !(#[trigger] ls[i]).contains('\n') by {
        assert(line_safe(ls[i]));
    }
    lemma_split_join(ls);
    let parts = split_on(join_lines(ls), '\n');
    assert(parts == ls);
    let body = ls.drop_last().map_values(|l: Seq<char>| strip_cr(l));
    assert forall|i: int| 0 <= i < body.len() implies body[i] == ls[i] by {
        assert(line_safe(ls[i]));
    }
    assert(body.push(ls.last()) =~= ls);
}

proof fn lemma_entries_of_pairs(ls: Seq<Seq<char>>, keys: Seq<Seq<char>>, vals: Seq<Seq<char>>)
    requires
        ls.len() == keys.len(),
        ls.len() == vals.len(),
        forall|i: int| 0 <= i < ls.len() ==> #[trigger] ls[i] == keys[i] + "="@ + vals[i],
        forall|i: int| 0 <= i < keys.len() ==> !(#[trigger] keys[i]).contains('='),
    ensures
        entries_of(ls) == Seq::new(ls.len(), |i: int| (keys[i], vals[i])),
    decreases ls.len(),
{
    reveal_strlit("=");
    if ls.len() > 0 {
        let n = ls.len() - 1;
        lemma_entries_of_pairs(ls.drop_last(), keys.drop_last(), vals.drop_last());
        let l = ls.last();
        let k = keys[n];
        assert(l == k + "="@ + vals[n]);
        assert(l[k.len() as int] == '=');
        assert forall|j: int| 0 <= j < l.len() && j < k.len() implies l[j] != '=' by {
            assert(l[j] == k[j]);
            if k[j] == '=' {
                assert(k.contains('='));
            }
        }
        lemma_first_index_unique(l, '=', k.len() as int);
        assert(l.take(k.len() as int) =~= k);
        assert(l.skip(k.len() as int + 1) =~= vals[n]);
        assert(entries_of(ls) =~= Seq::new(ls.len(), |i: int| (keys[i], vals[i])));
    }
}

pub open spec fn snapshot_keys() -> Seq<Seq<char>> {
    seq![
        "slot_0"@,
        "slot_1"@,
        "slot_2"@,
        "slot_3"@,
        "slot_4"@,
        "childPreMix"@,
        "childPostMix"@,
        "childApoKeyExists"@,
    ]
}

/// A rendered snapshot reads back as one entry per line, keyed `slot_0` to `slot_4`,
/// `childPreMix`, `childPostMix` and `childApoKeyExists`, when no value holds a line
/// break; so comparing it with itself shows every entry unchanged and nothing added,
/// modified or deleted.
pub proof fn law_rendered_snapshot_reads_back(
    slots: Seq<SlotValue>,
    premix: Option<Seq<char>>,
    postmix: Option<Seq<char>>,
    key_exists: bool,
)
    requires
        slots.len() == 5,
        forall|i: int| 0 <= i < 5 ==> line_safe(#[trigger] slot_label(slots[i])),
        line_safe(opt_text(premix)),
        line_safe(opt_text(postmix)),
    ensures
        ({
            let c = entries_of(lines(join_lines(snapshot_lines(slots, premix, postmix, key_exists))));
            &&& c.len() == 8
            &&& forall|i: int| 0 <= i < 8 ==> (#[trigger] c[i]).0 == snapshot_keys()[i]
            &&& keys_distinct(c)
            &&& deleted_keys(c, c) == Seq::<Seq<char>>::empty()
            &&& count_kind(c, c, 2) == 0
            &&& count_kind(c, c, 1) == 0
            &&& count_kind(c, c, 0) == 8
        }),
{
    let ls = snapshot_lines(slots, premix, postmix, key_exists);
    reveal_strlit("slot_");
    reveal_strlit("=");
    reveal_strlit("childPreMix=");
    reveal_strlit("childPostMix=");
    reveal_strlit("childApoKeyExists=");
    reveal_strlit("childPreMix");
    reveal_strlit("childPostMix");
    reveal_strlit("childApoKeyExists");
    reveal_strlit("slot_0");
    reveal_strlit("slot_1");
    reveal_strlit("slot_2");
    reveal_strlit("slot_3");
    reveal_strlit("slot_4");
    reveal_strlit("true");
    reveal_strlit("false");
    let vals = Seq::new(5, |i: int| slot_label(slots[i])) + seq![
        opt_text(premix),
        opt_text(postmix),
        bool_text(key_exists),
    ];
    let keys = snapshot_keys();
    assert forall|i: int| 0 <= i < 5 implies #[trigger] dec(i as nat) == seq![digit(i as nat)] by {}
    assert forall|i: int| 0 <= i < 8 implies #[trigger] ls[i] == keys[i] + "="@ + vals[i] by {
        if i < 5 {
            assert(dec(i as nat) == seq![digit(i as nat)]);
            assert(keys[i] =~= "slot_"@ + dec(i as nat));
        }
    }
    assert forall|i: int| 0 <= i < 8 implies !(#[trigger] keys[i]).contains('=') by {
        if keys[i].contains('=') {
            let k = choose|k: int| 0 <= k < keys[i].len() && keys[i][k] == '=';
            assert(keys[i][k] != '=');
        }
    }
    assert forall|i: int| 0 <= i < 8 implies line_safe(#[trigger] ls[i]) by {
        let v = vals[i];
        assert(ls[i] == keys[i] + "="@ + v);
        assert(line_safe(v)) by {
            if i < 5 {
                assert(v == slot_label(slots[i]));
            } else if i == 7 {
                assert(!v.contains('\n')) by {
                    if v.contains('\n') {
                        let k = choose|k: int| 0 <= k < v.len() && v[k] == '\n';
                        assert(v[k] != '\n');
                    }
                }
            }
        }
        assert(!ls[i].contains('\n')) by {
            if ls[i].contains('\n') {
                let k = choose|k: int| 0 <= k < ls[i].len() && ls[i][k] == '\n';
                if k < keys[i].len() + 1 {
                    assert(ls[i][k] != '\n');
                } else {
                    assert(ls[i][k] == v[k - keys[i].len() - 1]);
                    assert(v.contains('\n'));
                }
            }
        }
        if v.len() > 0 {
            assert(ls[i].last() == v.last());
        } else {
            assert(ls[i].last() == '=');
        }
    }
    assert(ls.last().len() > 0);
    lemma_lines_join(ls);
    lemma_entries_of_pairs(ls, keys, vals);
    let c = entries_of(lines(join_lines(ls)));
    assert(c == Seq::new(8, |i: int| (keys[i], vals[i])));
    assert forall|i: int, j: int| 0 <= i < j < c.len() implies (#[trigger] c[i]).0 != (#[trigger] c[j]).0 by {
        assert(c[i].0 == keys[i] && c[j].0 == keys[j]);
        if i < 5 && j < 5 {
            assert(keys[i][5] != keys[j][5]);
        } else if i < 5 {
            assert(keys[i][0] != keys[j][0]);
        } else if i == 5 && j == 6 {
            assert(keys[i][6] != keys[j][6]);
        } else {
            assert(keys[i][5] != keys[j][5]);
        }
    }
    law_snapshot_diff_against_itself(join_lines(ls));
}

} // verus!
